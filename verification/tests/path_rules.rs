use procmon::process::ProcessInfo;
use procmon::security::path_rules::{
    check_path_risk, default_rules_path, expand_env_placeholders, is_in_suspicious_path, load_path_rules, PathRule,
    SuspiciousPathKind, UserDirs,
};
use procmon::security::score::RiskCategory;

fn user_dirs_fixture() -> UserDirs {
    UserDirs::new(
        Some("C:\\Users\\test\\AppData\\Local\\Temp".to_string()),
        Some("C:\\Users\\test\\AppData\\Roaming".to_string()),
        Some("C:\\Users\\test\\AppData\\Local".to_string()),
        Some("C:\\Users\\test".to_string()),
    )
}

fn rule(name: &str, path: &str, weight: u32, reason: &str) -> PathRule {
    PathRule { name: name.to_string(), path: path.to_string(), weight, reason: reason.to_string() }
}

#[test]
fn temp_hit_returns_temp_kind() {
    let dirs = user_dirs_fixture();
    let kind = is_in_suspicious_path("C:\\Users\\test\\AppData\\Local\\Temp\\evil.exe", &dirs, &[]);
    assert_eq!(kind, Some(SuspiciousPathKind::Temp));
    assert_eq!(kind.unwrap().default_weight(), 20);
}

#[test]
fn appdata_hit_returns_appdata_kind() {
    let dirs = user_dirs_fixture();
    let kind = is_in_suspicious_path("C:\\Users\\test\\AppData\\Roaming\\payload\\run.exe", &dirs, &[]);
    assert_eq!(kind, Some(SuspiciousPathKind::AppData));
    assert_eq!(kind.unwrap().default_weight(), 15);
}

#[test]
fn local_appdata_hit_returns_local_appdata_kind() {
    let dirs = user_dirs_fixture();
    let kind = is_in_suspicious_path("C:\\Users\\test\\AppData\\Local\\MalwareApp\\mal.exe", &dirs, &[]);
    assert_eq!(kind, Some(SuspiciousPathKind::LocalAppData));
    assert_eq!(kind.unwrap().default_weight(), 15);
}

#[test]
fn downloads_hit_returns_downloads_kind() {
    let dirs = user_dirs_fixture();
    let kind = is_in_suspicious_path("C:\\Users\\test\\Downloads\\installer.exe", &dirs, &[]);
    assert_eq!(kind, Some(SuspiciousPathKind::UserProfileDownloads));
}

#[test]
fn program_files_not_hit() {
    let mut dirs = user_dirs_fixture();
    dirs.system_dirs.push("C:\\Program Files".to_string());
    let kind = is_in_suspicious_path("C:\\Program Files\\MyApp\\myapp.exe", &dirs, &[]);
    assert!(kind.is_none());
}

#[test]
fn case_insensitive_match() {
    let dirs = user_dirs_fixture();
    let kind = is_in_suspicious_path("c:\\users\\TEST\\appdata\\local\\temp\\evil.exe", &dirs, &[]);
    assert_eq!(kind, Some(SuspiciousPathKind::Temp));
}

#[test]
fn env_var_unset_returns_none_for_that_kind() {
    let dirs = UserDirs::new(None, None, None, None);
    let kind = is_in_suspicious_path("/tmp/evil.exe", &dirs, &[]);
    assert!(kind.is_none());
}

#[test]
fn no_match_for_unknown_dir() {
    let dirs = user_dirs_fixture();
    let kind = is_in_suspicious_path("D:\\Games\\launcher.exe", &dirs, &[]);
    assert!(kind.is_none());
}

#[test]
fn path_rules_custom_rule_matches() {
    let dirs = user_dirs_fixture();
    let r = rule("my_dir", "D:\\Suspicious", 30, "test");
    let kind = is_in_suspicious_path("D:\\Suspicious\\payload.exe", &dirs, &[r]);
    match kind {
        Some(SuspiciousPathKind::Custom { name, weight }) => {
            assert_eq!(name, "my_dir");
            assert_eq!(weight, 30);
        }
        other => panic!("expected Custom, got {other:?}"),
    }
}

#[test]
fn custom_rule_does_not_match_unrelated_path() {
    let dirs = user_dirs_fixture();
    let r = rule("my_dir", "D:\\Suspicious", 30, "test");
    let kind = is_in_suspicious_path("E:\\Clean\\app.exe", &dirs, &[r]);
    assert!(kind.is_none());
}

#[test]
fn expand_env_percent_placeholders() {
    let env = vec![("PROC_TEST_VAR_X".to_string(), "C:\\CustomPath".to_string())];
    let expanded = expand_env_placeholders("%PROC_TEST_VAR_X%\\sub", &env);
    assert_eq!(expanded, "C:\\CustomPath\\sub");
}

#[test]
fn expand_env_dollar_brace_placeholders() {
    let env = vec![("PROC_TEST_VAR_Y".to_string(), "D:\\Other".to_string())];
    let expanded = expand_env_placeholders("${PROC_TEST_VAR_Y}/bin", &env);
    assert_eq!(expanded, "D:\\Other/bin");
}

#[test]
fn expand_env_unset_placeholder_stays() {
    let env: Vec<(String, String)> = Vec::new();
    assert_eq!(expand_env_placeholders("%NOPE%\\x", &env), "%NOPE%\\x");
}

#[test]
fn path_rules_load_rules_nonexistent_returns_empty() {
    let rules = load_path_rules(None, &[]);
    assert!(rules.is_empty());
}

#[test]
fn path_rules_load_rules_from_entries() {
    let raw = vec![("my_dir".to_string(), "D:\\StaticPath".to_string(), 30u32, "test".to_string())];
    let rules = load_path_rules(Some(&raw), &[]);
    assert_eq!(rules.len(), 1);
    assert_eq!(rules[0].name, "my_dir");
    assert_eq!(rules[0].weight, 30);
    assert_eq!(rules[0].path, "D:\\StaticPath");
}

#[test]
fn check_path_risk_returns_factor_for_temp() {
    let dirs = user_dirs_fixture();
    let mut proc = ProcessInfo::new(1, "evil.exe", None);
    proc.exe = Some("C:\\Users\\test\\AppData\\Local\\Temp\\evil.exe".to_string());
    let factors = check_path_risk(std::slice::from_ref(&proc), &dirs, &[]);
    assert_eq!(factors.len(), 1);
    assert_eq!(factors[0].name, "suspicious_path_temp");
    assert_eq!(factors[0].weight, 20);
    assert_eq!(factors[0].category, RiskCategory::FilePath);
}

#[test]
fn path_rules_default_rules_path_joins() {
    assert_eq!(default_rules_path("C:\\cfg", '\\'), "C:\\cfg\\path_rules.toml");
    assert_eq!(default_rules_path("", '\\'), "path_rules.toml");
}
