use procmon::process::ProcessInfo;
use procmon::security::lineage::{
    build_parent_chain, check_lineage_risk, default_rules_path, detect_suspicious_chain, lineage_rules_from_entries,
    load_lineage_rules, LineageRule, SuspiciousPattern, MAX_PARENT_CHAIN_DEPTH,
};
use procmon::security::score::RiskCategory;
use std::collections::HashMap;

fn make_proc(pid: u32, name: &str, parent_pid: Option<u32>) -> ProcessInfo {
    ProcessInfo::new(pid, name, parent_pid)
}

fn build_map(procs: &[ProcessInfo]) -> HashMap<u32, ProcessInfo> {
    procs.iter().map(|p| (p.pid, p.clone())).collect()
}

#[test]
fn build_chain_walks_to_root() {
    let procs = vec![
        make_proc(4, "System", None),
        make_proc(100, "explorer.exe", Some(4)),
        make_proc(200, "cmd.exe", Some(100)),
    ];
    let map = build_map(&procs);
    let chain = build_parent_chain(200, &map);
    assert_eq!(chain.len(), 2);
    assert_eq!(chain[0], (100, "explorer.exe".to_string()));
    assert_eq!(chain[1], (4, "System".to_string()));
}

#[test]
fn build_chain_cycle_breaks() {
    let procs = vec![make_proc(1, "a.exe", Some(2)), make_proc(2, "b.exe", Some(1))];
    let map = build_map(&procs);
    let chain = build_parent_chain(1, &map);
    assert_eq!(chain.len(), 1);
    assert_eq!(chain[0].0, 2);
}

#[test]
fn build_chain_max_depth_32() {
    let procs: Vec<ProcessInfo> = (0..=33u32)
        .map(|i| make_proc(i, &format!("p{i}.exe"), if i == 0 { None } else { Some(i - 1) }))
        .collect();
    let map = build_map(&procs);
    let chain = build_parent_chain(33, &map);
    assert_eq!(chain.len(), MAX_PARENT_CHAIN_DEPTH);
    assert_eq!(chain[0].0, 32);
}

#[test]
fn build_chain_missing_parent_stops() {
    let procs = vec![make_proc(100, "orphan.exe", Some(999))];
    let map = build_map(&procs);
    let chain = build_parent_chain(100, &map);
    assert!(chain.is_empty());
}

#[test]
fn build_chain_self_loop_breaks() {
    let procs = vec![make_proc(1, "loop.exe", Some(1))];
    let map = build_map(&procs);
    let chain = build_parent_chain(1, &map);
    assert!(chain.is_empty());
}

#[test]
fn build_chain_unknown_pid_is_empty() {
    let map = build_map(&[make_proc(1, "a.exe", None)]);
    assert!(build_parent_chain(77, &map).is_empty());
}

#[test]
fn detect_office_to_shell() {
    let chain = vec![(100, "WINWORD.EXE".to_string())];
    let pat = detect_suspicious_chain(&chain, "powershell.exe", &[]);
    assert_eq!(pat, Some(SuspiciousPattern::OfficeToShell));
    assert_eq!(pat.unwrap().default_weight(), 35);
}

#[test]
fn detect_browser_to_shell() {
    let chain = vec![(100, "chrome.exe".to_string())];
    let pat = detect_suspicious_chain(&chain, "cmd.exe", &[]);
    assert_eq!(pat, Some(SuspiciousPattern::BrowserToShell));
    assert_eq!(pat.unwrap().default_weight(), 25);
}

#[test]
fn detect_script_interpreter() {
    let pat = detect_suspicious_chain(&[], "wscript.exe", &[]);
    assert_eq!(pat, Some(SuspiciousPattern::ScriptInterpreter));
    assert_eq!(pat.unwrap().default_weight(), 15);
}

#[test]
fn td32_script_interpreter_whitelisted_when_parent_is_services() {
    let chain = vec![(100, "services.exe".to_string())];
    let pat = detect_suspicious_chain(&chain, "wscript.exe", &[]);
    assert!(pat.is_none(), "services.exe → wscript.exe 应被白名单豁免，got {pat:?}");
}

#[test]
fn td32_script_interpreter_whitelisted_when_parent_is_wininit() {
    let chain = vec![(100, "wininit.exe".to_string())];
    let pat = detect_suspicious_chain(&chain, "cscript.exe", &[]);
    assert!(pat.is_none(), "wininit.exe → cscript.exe 应被白名单豁免");
}

#[test]
fn td32_script_interpreter_whitelisted_when_parent_is_svchost() {
    let chain = vec![(100, "svchost.exe".to_string())];
    let pat = detect_suspicious_chain(&chain, "mshta.exe", &[]);
    assert!(pat.is_none(), "svchost.exe → mshta.exe 应被白名单豁免");
}

#[test]
fn td32_script_interpreter_whitelist_is_case_insensitive() {
    let chain = vec![(100, "SERVICES.EXE".to_string())];
    let pat = detect_suspicious_chain(&chain, "WScript.exe", &[]);
    assert!(pat.is_none(), "大小写不敏感：SERVICES.EXE → WScript.exe 应豁免");
}

#[test]
fn td32_script_interpreter_whitelist_only_direct_parent() {
    let chain = vec![(100, "evil.exe".to_string()), (50, "services.exe".to_string())];
    let pat = detect_suspicious_chain(&chain, "wscript.exe", &[]);
    assert_eq!(pat, Some(SuspiciousPattern::ScriptInterpreter), "间接祖先是 services.exe 不豁免，应正常扣分");
}

#[test]
fn td32_whitelist_does_not_affect_custom_rule_evaluation() {
    let chain = vec![(100, "services.exe".to_string())];
    let rule = LineageRule::new("test", "(?i)services", "(?i)wscript", 30).unwrap();
    let pat = detect_suspicious_chain(&chain, "wscript.exe", &[rule]);
    match pat {
        Some(SuspiciousPattern::Custom { name, weight }) => {
            assert_eq!(name, "test");
            assert_eq!(weight, 30);
        }
        other => panic!("expected Custom rule hit even with whitelist, got {other:?}"),
    }
}

#[test]
fn detect_no_match_for_normal_proc() {
    let chain = vec![(100, "explorer.exe".to_string())];
    let pat = detect_suspicious_chain(&chain, "notepad.exe", &[]);
    assert!(pat.is_none());
}

#[test]
fn detect_no_match_when_shell_parent_is_explorer() {
    let chain = vec![(100, "explorer.exe".to_string())];
    let pat = detect_suspicious_chain(&chain, "cmd.exe", &[]);
    assert!(pat.is_none());
}

#[test]
fn detect_indirect_office_parent_does_not_match() {
    let chain = vec![(100, "explorer.exe".to_string()), (50, "winword.exe".to_string())];
    let pat = detect_suspicious_chain(&chain, "cmd.exe", &[]);
    assert!(pat.is_none());
}

#[test]
fn check_lineage_risk_returns_factor_for_office_shell() {
    let mut cmd = make_proc(200, "powershell.exe", Some(100));
    cmd.parent_chain = vec![(100, "WINWORD.EXE".to_string())];
    let procs = vec![cmd];
    let factors = check_lineage_risk(&procs, &[]);
    assert_eq!(factors.len(), 1);
    assert_eq!(factors[0].name, "office_to_shell");
    assert_eq!(factors[0].weight, 35);
    assert_eq!(factors[0].category, RiskCategory::ParentChain);
}

#[test]
fn lineage_load_rules_nonexistent_returns_empty() {
    let rules = load_lineage_rules(None);
    assert!(rules.is_empty());
}

#[test]
fn lineage_load_rules_skip_invalid_regex_entries() {
    let raw = vec![
        ("bad".to_string(), "(unclosed".to_string(), "ok".to_string(), 10u32),
        ("my_editor_to_shell".to_string(), "(?i)my_editor".to_string(), "(?i)(cmd|powershell)".to_string(), 30u32),
    ];
    let rules = load_lineage_rules(Some(&raw));
    assert_eq!(rules.len(), 1);
    assert_eq!(rules[0].name, "my_editor_to_shell");
    assert_eq!(rules[0].weight, 30);
    assert_eq!(lineage_rules_from_entries(&raw).len(), 1);
}

#[test]
fn lineage_custom_rule_matches() {
    let rule = LineageRule::new("test", "(?i)my_editor", "(?i)cmd", 30).unwrap();
    let chain = vec![(100, "my_editor.exe".to_string())];
    let pat = detect_suspicious_chain(&chain, "cmd.exe", &[rule]);
    match pat {
        Some(SuspiciousPattern::Custom { name, weight }) => {
            assert_eq!(name, "test");
            assert_eq!(weight, 30);
        }
        other => panic!("expected Custom, got {other:?}"),
    }
}

#[test]
fn lineage_rule_with_bad_pattern_is_refused() {
    assert!(LineageRule::new("bad", "(unclosed", "ok", 10).is_none());
}

#[test]
fn lineage_default_rules_path_joins() {
    assert_eq!(default_rules_path("/cfg/proc", '/'), "/cfg/proc/lineage_rules.toml");
}
