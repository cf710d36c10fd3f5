use procmon::process::ProcessInfo;
use procmon::security::hash_cache::{content_hash, HashReputation};
use procmon::security::path_rules::UserDirs;
use procmon::security::score::{
    cache_key, check_network_behavior, parse_alive_key, r18_cooperation_factor, score_of, CachedScore, PortEntry,
    RiskCategory, RiskFactor, SecurityScore, SecurityScorer,
};
use procmon::security::signature::SignatureStatus;

fn empty_score(v: u32) -> SecurityScore {
    SecurityScore { score: v, factors: Vec::new(), signature: SignatureStatus::Trusted }
}

fn scorer() -> SecurityScorer {
    SecurityScorer::new(HashReputation::new(), None, Vec::new(), Vec::new(), UserDirs::new(None, None, None, None))
}

#[test]
fn coop_unsigned_r18_hit_returns_factor_10() {
    let f = r18_cooperation_factor(SignatureStatus::Unsigned, true);
    assert!(f.is_some());
    let f = f.unwrap();
    assert_eq!(f.weight, 10);
    assert_eq!(f.name, "unsigned_in_suspicious_path");
    assert_eq!(f.category, RiskCategory::FilePath);
}

#[test]
fn coop_revoked_r18_hit_returns_factor_10() {
    let f = r18_cooperation_factor(SignatureStatus::Revoked, true);
    assert!(f.is_some());
    assert_eq!(f.unwrap().weight, 10);
}

#[test]
fn coop_trusted_r18_hit_returns_none() {
    assert!(r18_cooperation_factor(SignatureStatus::Trusted, true).is_none());
}

#[test]
fn coop_signed_r18_hit_returns_none() {
    assert!(r18_cooperation_factor(SignatureStatus::Signed, true).is_none());
}

#[test]
fn coop_pending_r18_hit_returns_none() {
    assert!(r18_cooperation_factor(SignatureStatus::Pending, true).is_none());
}

#[test]
fn coop_unknown_r18_hit_returns_none() {
    assert!(r18_cooperation_factor(SignatureStatus::Unknown, true).is_none());
}

#[test]
fn coop_unsigned_r18_not_hit_returns_none() {
    assert!(r18_cooperation_factor(SignatureStatus::Unsigned, false).is_none());
}

#[test]
fn alive_key_parses_pid_and_start() {
    assert_eq!(parse_alive_key("12:345:c:\\x.exe"), Some((12, 345)));
    assert_eq!(parse_alive_key("12:345"), Some((12, 345)));
    assert_eq!(parse_alive_key("+7:+8:x"), Some((7, 8)));
    assert_eq!(parse_alive_key("12"), None);
    assert_eq!(parse_alive_key("a:1:x"), None);
    assert_eq!(parse_alive_key("4294967296:1:x"), None);
    assert_eq!(parse_alive_key("1::x"), None);
    assert_eq!(parse_alive_key("1:18446744073709551615:x"), Some((1, u64::MAX)));
}

#[test]
fn cache_key_has_pid_start_and_lowered_exe() {
    let mut p = ProcessInfo::new(42, "app.exe", None);
    p.start_time = 7;
    p.exe = Some("C:\\Apps\\App.EXE".to_string());
    assert_eq!(cache_key(&p), "42:7:c:\\apps\\app.exe");
    let q = ProcessInfo::new(1, "x", None);
    assert_eq!(cache_key(&q), "1:0:");
}

#[test]
fn score_is_100_minus_weights_saturating() {
    let f = |w: u32| RiskFactor { category: RiskCategory::Privilege, name: "n".into(), weight: w, description: "d".into() };
    assert_eq!(score_of(&vec![]), 100);
    assert_eq!(score_of(&vec![f(20), f(15)]), 65);
    assert_eq!(score_of(&vec![f(60), f(50)]), 0);
    assert_eq!(score_of(&vec![f(u32::MAX), f(u32::MAX)]), 0);
}

#[test]
fn network_listener_on_c2_port() {
    let ports = vec![
        PortEntry { pid: 5, local_port: 4444, state: Some("LISTEN".into()) },
        PortEntry { pid: 6, local_port: 80, state: Some("LISTENING".into()) },
        PortEntry { pid: 5, local_port: 9999, state: None },
    ];
    let f = check_network_behavior(5, &SignatureStatus::Unsigned, &ports);
    let names: Vec<&str> = f.iter().map(|x| x.name.as_str()).collect();
    assert_eq!(names, vec!["c2_port", "unsigned_listen"]);
    assert_eq!(f[0].weight, 30);
    let g = check_network_behavior(6, &SignatureStatus::Unknown, &ports);
    assert_eq!(g.len(), 1);
    assert_eq!(g[0].name, "unverified_listen");
    assert_eq!(g[0].weight, 8);
    assert!(check_network_behavior(6, &SignatureStatus::Trusted, &ports).is_empty());
    assert!(check_network_behavior(7, &SignatureStatus::Unsigned, &ports).is_empty());
}

#[test]
fn cache_get_after_insert() {
    let mut c = CachedScore::new();
    c.insert("a".into(), empty_score(90), true, 0);
    c.insert("b".into(), empty_score(80), false, 0);
    assert_eq!(c.get("a").map(|s| s.score), Some(90));
    assert_eq!(c.get("b").map(|s| s.score), Some(80));
    assert!(c.get("z").is_none());
    c.insert("a".into(), empty_score(70), true, 1);
    assert_eq!(c.get("a").map(|s| s.score), Some(70));
    c.clear();
    assert!(c.get("a").is_none());
}

#[test]
fn cache_evicts_least_recently_used_when_full() {
    let mut c = CachedScore::new();
    for i in 0..500 {
        c.insert(format!("k{i}"), empty_score(1), true, 0);
    }
    assert!(c.get("k0").is_some());
    c.insert("new".into(), empty_score(2), true, 0);
    assert!(c.get("k0").is_some(), "k0 was used last, k1 is the oldest");
    assert!(c.get("k1").is_none());
    assert!(c.get("new").is_some());
}

#[test]
fn cache_expiry_keeps_final_verdicts() {
    let mut c = CachedScore::new();
    c.insert("old".into(), empty_score(1), false, 0);
    c.insert("kept".into(), empty_score(2), true, 0);
    c.insert("young".into(), empty_score(3), false, 25_000);
    c.evict_expired(40_000, 30_000);
    assert!(c.get("old").is_none());
    assert!(c.get("kept").is_some());
    assert!(c.get("young").is_some());
}

#[test]
fn cache_retain_alive_drops_dead_instances() {
    let mut c = CachedScore::new();
    c.insert("1:10:a".into(), empty_score(1), true, 0);
    c.insert("1:11:a".into(), empty_score(1), true, 0);
    c.insert("garbage".into(), empty_score(1), true, 0);
    c.retain_alive(&[(1, 11)]);
    assert!(c.get("1:10:a").is_none());
    assert!(c.get("1:11:a").is_some());
    assert!(c.get("garbage").is_some());
}

#[test]
fn scorer_scores_plain_process() {
    let mut s = scorer();
    let p = ProcessInfo::new(100, "notepad.exe", Some(4));
    let all = vec![ProcessInfo::new(4, "explorer.exe", None), p.clone()];
    let r = s.score(&p, &all, &[], &[], Vec::new(), None, None, 0, 0);
    assert_eq!(r.signature, SignatureStatus::Unknown);
    let total: u32 = r.factors.iter().map(|f| f.weight).sum();
    assert_eq!(r.score, 100u32.saturating_sub(total));
    assert!(r.factors.iter().any(|f| f.name == "signature_unverified"));
}

#[test]
fn scorer_trusts_system_directory_and_caches() {
    let mut s = scorer();
    let mut p = ProcessInfo::new(300, "svc.exe", Some(4));
    p.exe = Some("C:\\Windows\\System32\\svc.exe".into());
    let all = vec![p.clone()];
    let first = s.score(&p, &all, &[], &[], Vec::new(), None, None, 0, 0);
    assert_eq!(first.signature, SignatureStatus::Trusted);
    assert!(first.factors.iter().all(|f| f.name != "signature_unverified"));
    assert!(first.factors.iter().all(|f| f.category != RiskCategory::Signature));
    let extra = vec![RiskFactor { category: RiskCategory::FilePath, name: "x".into(), weight: 50, description: "d".into() }];
    let second = s.score(&p, &all, &[], &[], extra, None, None, 1, 1);
    assert_eq!(second.score, first.score, "cached score is returned unchanged");
    assert_eq!(second.factors.len(), first.factors.len());
}

#[test]
fn scorer_uses_recorded_unsigned_verdict() {
    let mut rep = HashReputation::new();
    let h = content_hash(b"payload");
    rep.record("D:\\tools\\x.exe", SignatureStatus::Unsigned, Some(&h), 1);
    let mut s = SecurityScorer::new(rep, None, Vec::new(), Vec::new(), UserDirs::new(None, None, None, None));
    let mut p = ProcessInfo::new(9, "x.exe", None);
    p.exe = Some("D:\\tools\\x.exe".into());
    let r = s.score(&p, std::slice::from_ref(&p), &[], &[], Vec::new(), None, Some(&h), 5_000_000_000, 0);
    assert_eq!(r.signature, SignatureStatus::Unsigned);
    assert!(r.factors.iter().any(|f| f.name == "unsigned"));
    assert!(r.factors.iter().any(|f| f.name == "hash_known_unsigned"));
}

#[test]
fn scorer_dll_budget_and_invalidation() {
    let mut s = scorer();
    assert!(s.dll_check_due());
    for i in 0..20u32 {
        let p = ProcessInfo::new(1000 + i, "a.exe", None);
        let _ = s.score(&p, std::slice::from_ref(&p), &[], &[], Vec::new(), None, None, 0, 0);
    }
    assert!(!s.dll_check_due());
    s.reset_budget();
    assert!(s.dll_check_due());
    s.invalidate_dead(&[]);
    s.evict_expired(100_000);
    assert!(!s.flush());
}

#[test]
fn cache_key_reads_back_its_process_identity() {
    let mut p = ProcessInfo::new(4242, "app.exe", None);
    p.start_time = 1_700_000_000;
    p.exe = Some("C:\\Apps\\App:1.exe".to_string());
    let key = procmon::security::score::cache_key(&p);
    assert_eq!(key, "4242:1700000000:c:\\apps\\app:1.exe");
    assert_eq!(procmon::security::score::parse_alive_key(&key), Some((4242, 1_700_000_000)));
    let mut q = ProcessInfo::new(4242, "app.exe", None);
    q.start_time = 1_700_000_001;
    q.exe = p.exe.clone();
    assert_ne!(procmon::security::score::cache_key(&q), key);
}

#[test]
fn rescoring_same_instance_returns_cached_result() {
    let mut rep = HashReputation::new();
    let h = content_hash(b"payload");
    rep.record("D:\\tools\\x.exe", SignatureStatus::Unsigned, Some(&h), 1);
    let mut s = SecurityScorer::new(rep, None, Vec::new(), Vec::new(), UserDirs::new(None, None, None, None));
    let mut p = ProcessInfo::new(9, "x.exe", None);
    p.exe = Some("D:\\tools\\x.exe".into());
    let first = s.score(&p, std::slice::from_ref(&p), &[], &[], Vec::new(), None, Some(&h), 5_000_000_000, 0);
    let total: u32 = first.factors.iter().map(|f| f.weight).sum();
    assert_eq!(first.score, 100u32.saturating_sub(total));
    let mut q = ProcessInfo::new(9, "X.EXE", Some(77));
    q.exe = Some("D:\\TOOLS\\X.EXE".into());
    let extra = vec![RiskFactor { category: RiskCategory::FilePath, name: "x".into(), weight: 50, description: "d".into() }];
    let second = s.score(&q, &[], &[], &[], extra, None, None, 9_000_000_000, 7);
    assert_eq!(second.signature, first.signature);
    assert_eq!(second.score, first.score);
    let a: Vec<&str> = first.factors.iter().map(|f| f.name.as_str()).collect();
    let b: Vec<&str> = second.factors.iter().map(|f| f.name.as_str()).collect();
    assert_eq!(a, b);
}
