use procmon::security::command_line::check_command_line;
use procmon::security::score::RiskCategory;

fn args(v: &[&str]) -> Vec<String> {
    v.iter().map(|s| s.to_string()).collect()
}

fn names(cmd: &[&str]) -> Vec<String> {
    check_command_line(&args(cmd)).into_iter().map(|f| f.name).collect()
}

#[test]
fn empty_command_has_no_factors() {
    assert!(check_command_line(&[]).is_empty());
}

#[test]
fn encoded_hidden_powershell() {
    let r = check_command_line(&args(&["powershell.exe", "-EncodedCommand", "SQBFAFgA", "-WindowStyle", "Hidden"]));
    let n: Vec<&str> = r.iter().map(|f| f.name.as_str()).collect();
    assert_eq!(n, vec!["encoded_command", "hidden_window"]);
    assert_eq!(r[0].weight, 30);
    assert_eq!(r[1].weight, 25);
    assert!(r.iter().all(|f| f.category == RiskCategory::CommandLine));
}

#[test]
fn arguments_are_joined_and_lowered_before_matching() {
    let a = check_command_line(&args(&["CERTUTIL", "-URLCACHE", "-f", "http://x/y"]));
    let b = check_command_line(&args(&["certutil -urlcache", "-F HTTP://X/Y"]));
    assert_eq!(a.len(), 1);
    assert_eq!(a[0].name, "certutil_download");
    assert_eq!(a.len(), b.len());
    for (x, y) in a.iter().zip(b.iter()) {
        assert_eq!((&x.name, x.weight, &x.description, x.category), (&y.name, y.weight, &y.description, y.category));
    }
}

#[test]
fn many_rules_give_distinct_names_in_range() {
    let cmd = [
        "cmd /c", "powershell -enc x -w hidden -nop -noninteractive iex downloadstring",
        "reg add hklm\\software\\microsoft\\windows\\currentversion\\run", "net user", "certutil -split",
        "bitsadmin /transfer", "mshta http", "regsvr32 /i:http", "wmic process call create", "echo | powershell",
        "rundll32 javascript:", "msiexec http", "forfiles /c", "installutil /u", "cmstp .inf", "pcalua -a",
        "mimikatz procdump lsass", "schtasks /create /ru system",
    ];
    let r = check_command_line(&args(&cmd));
    assert!(r.len() >= 20);
    assert!(r.len() <= 24);
    for (i, f) in r.iter().enumerate() {
        assert_eq!(f.category, RiskCategory::CommandLine);
        assert!(f.weight >= 5 && f.weight <= 35);
        for g in &r[i + 1..] {
            assert_ne!(f.name, g.name);
        }
    }
    assert_eq!(r.iter().filter(|f| f.name == "credential_access").count(), 1);
    let sched = r.iter().find(|f| f.name == "schtasks_create").unwrap();
    assert_eq!(sched.weight, 20);
}

#[test]
fn first_credential_pattern_wins() {
    let r = check_command_line(&args(&["sekurlsa::logonpasswords", "mimikatz"]));
    assert_eq!(r.len(), 1);
    assert_eq!(r[0].name, "credential_access");
    assert_eq!(r[0].weight, 30);
    assert_eq!(r[0].description, "凭证转储工具");
}

#[test]
fn plain_schtasks_weighs_ten() {
    let r = check_command_line(&args(&["schtasks", "/create", "/tn", "backup"]));
    assert_eq!(names(&["schtasks", "/create", "/tn", "backup"]), vec!["schtasks_create"]);
    assert_eq!(r[0].weight, 10);
}

#[test]
fn long_cmd_counts_bytes_after_slash_c() {
    let payload = "a".repeat(201);
    let r = check_command_line(&args(&["cmd", "/c", &payload]));
    assert_eq!(r.len(), 1);
    assert_eq!(r[0].name, "long_cmd_string");
    assert_eq!(r[0].weight, 15);
    assert_eq!(r[0].description, "cmd /c 长命令 (201字符)");
    assert!(check_command_line(&args(&["cmd", "/c", &"a".repeat(200)])).is_empty());
}
