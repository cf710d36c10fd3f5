use procmon::security::flow::{
    check_flow_risk, default_whitelist_path, parse_whitelist, ProcessFlow, SniWhitelist, R15_WEIGHT,
};

const NOW: u64 = 10_000 * 1_000_000_000;

fn mk_flow(pid: u32, start_time: u64, remote: &str, dns_name: Option<&str>, last_seen: u64) -> ProcessFlow {
    ProcessFlow {
        pid,
        start_time,
        remote_addr: remote.to_string(),
        dns_name: dns_name.map(str::to_string),
        last_seen_nanos: last_seen,
    }
}

fn whitelist(domains: &[&str]) -> SniWhitelist {
    SniWhitelist::from_domains(domains.iter().map(|d| d.to_string()).collect())
}

#[test]
fn empty_flows_no_risk() {
    let wl = whitelist(&[]);
    assert!(check_flow_risk(&[], Some(&wl), NOW).is_none());
    assert!(check_flow_risk(&[], None, NOW).is_none());
}

#[test]
fn condition1_sni_not_whitelisted_hits() {
    let flows = [mk_flow(1, 100, "1.2.3.4", Some("evil.example.com"), NOW)];
    let wl = whitelist(&["good.example.com"]);
    let risk = check_flow_risk(&flows, Some(&wl), NOW).expect("应命中条件 1");
    assert_eq!(risk.weight, R15_WEIGHT);
    assert_eq!(risk.name, "r15_sni_not_whitelisted");
    assert!(risk.description.contains("evil.example.com"));
}

#[test]
fn condition1_whitelisted_sni_passes() {
    let flows = [mk_flow(1, 100, "1.2.3.4", Some("good.example.com"), NOW)];
    let wl = whitelist(&["good.example.com"]);
    assert!(check_flow_risk(&flows, Some(&wl), NOW).is_none());
}

#[test]
fn condition1_skipped_when_whitelist_none() {
    let flows = [mk_flow(1, 100, "1.2.3.4", Some("evil.example.com"), NOW)];
    assert!(check_flow_risk(&flows, None, NOW).is_none());
}

#[test]
fn condition1_whitelist_matching_is_case_insensitive_and_trailing_dot() {
    let flows = [mk_flow(1, 100, "1.2.3.4", Some("Good.Example.COM."), NOW)];
    let wl = whitelist(&["good.example.com"]);
    assert!(check_flow_risk(&flows, Some(&wl), NOW).is_none());
}

#[test]
fn condition2_port_scan_hits() {
    let flows: Vec<ProcessFlow> = (0..60).map(|i| mk_flow(1, 100, &format!("10.0.0.{i}"), None, NOW)).collect();
    let risk = check_flow_risk(&flows, None, NOW).expect("应命中条件 2");
    assert_eq!(risk.weight, R15_WEIGHT);
    assert_eq!(risk.name, "r15_port_scan");
}

#[test]
fn condition2_old_flows_outside_window_ignored() {
    let recent: Vec<ProcessFlow> = (0..30).map(|i| mk_flow(1, 100, &format!("10.0.0.{i}"), None, NOW)).collect();
    let old: Vec<ProcessFlow> = (0..30)
        .map(|i| mk_flow(1, 100, &format!("172.16.0.{i}"), None, NOW - 60 * 1_000_000_000))
        .collect();
    let all: Vec<ProcessFlow> = recent.into_iter().chain(old).collect();
    assert_eq!(all.len(), 60);
    assert!(check_flow_risk(&all, None, NOW).is_none(), "窗口外 flows 应被忽略");
}

#[test]
fn condition2_below_threshold_passes() {
    let flows: Vec<ProcessFlow> = (0..49).map(|i| mk_flow(1, 100, &format!("10.0.0.{i}"), None, NOW)).collect();
    assert!(check_flow_risk(&flows, None, NOW).is_none());
}

#[test]
fn condition2_repeated_addresses_count_once() {
    let flows: Vec<ProcessFlow> = (0..80).map(|i| mk_flow(1, 100, &format!("10.0.0.{}", i % 40), None, NOW)).collect();
    assert!(check_flow_risk(&flows, None, NOW).is_none());
}

#[test]
fn port_scan_description_counts_addresses() {
    let flows: Vec<ProcessFlow> = (0..50).map(|i| mk_flow(1, 100, &format!("10.0.0.{i}"), None, NOW)).collect();
    let risk = check_flow_risk(&flows, None, NOW).expect("50 个不同 IP 命中");
    assert_eq!(risk.description, "10s 内连接 50 个不同 IP（端口扫描特征）");
}

#[test]
fn whitelist_parsing_handles_comments_empty_and_case() {
    let content = "\
# 这是注释
example.com
GOOD.Example.COM.

# 中间又一空行
  indented.org  .
";
    let set = parse_whitelist(content);
    assert_eq!(set.len(), 3);
    assert!(set.iter().any(|d| d == "example.com"));
    assert!(set.iter().any(|d| d == "good.example.com"));
    assert!(set.iter().any(|d| d == "indented.org"));
}

#[test]
fn load_from_returns_none_when_file_missing() {
    assert!(SniWhitelist::load(None).is_none());
}

#[test]
fn load_from_returns_empty_when_file_exists_but_blank() {
    let wl = SniWhitelist::load(Some("# only a comment\n\n")).expect("存在应返回 Some");
    assert!(wl.is_empty());
}

#[test]
fn whitelist_contains_and_len() {
    let wl = SniWhitelist::from_content("a.com\nA.COM\nb.org.\n");
    assert_eq!(wl.len(), 2);
    assert!(wl.contains("A.com"));
    assert!(wl.contains("b.org"));
    assert!(!wl.contains("c.net"));
}

#[test]
fn default_whitelist_path_joins() {
    assert_eq!(default_whitelist_path("C:\\cfg\\proc", '\\'), "C:\\cfg\\proc\\sni_whitelist.txt");
    assert_eq!(default_whitelist_path("/home/u/.config/proc/", '/'), "/home/u/.config/proc/sni_whitelist.txt");
}

#[test]
fn condition2_window_may_reach_before_the_epoch() {
    let early = 5 * 1_000_000_000;
    let flows: Vec<ProcessFlow> = (0..60).map(|i| mk_flow(1, 100, &format!("10.0.0.{i}"), None, early)).collect();
    let risk = check_flow_risk(&flows, None, early).expect("the window covers every flow");
    assert_eq!(risk.name, "r15_port_scan");
    assert_eq!(risk.description, "10s 内连接 60 个不同 IP（端口扫描特征）");
    let few: Vec<ProcessFlow> = (0..49).map(|i| mk_flow(1, 100, &format!("10.0.0.{i}"), None, 0)).collect();
    assert!(check_flow_risk(&few, None, 0).is_none());
    let exact = 10 * 1_000_000_000;
    let flows: Vec<ProcessFlow> = (0..60).map(|i| mk_flow(1, 100, &format!("10.0.0.{i}"), None, exact)).collect();
    assert!(check_flow_risk(&flows, None, exact).is_some());
}
