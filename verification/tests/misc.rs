use procmon::security::privilege::{check_privilege_tokens, privilege_check_applies};
use procmon::security::restricted_spawn::RestrictedExitStatus;
use procmon::security::self_mitigation::{apply_self_mitigations, mitigation_failures};

#[test]
fn apply_self_mitigations_returns_without_panic() {
    let _failed = apply_self_mitigations();
}

#[test]
fn exit_status_success_is_code_zero() {
    assert!(RestrictedExitStatus { code: Some(0) }.success());
    assert!(!RestrictedExitStatus { code: Some(1) }.success());
    assert!(!RestrictedExitStatus { code: None }.success());
}

fn token(entries: &[(u32, u32)]) -> Vec<u8> {
    let mut b = (entries.len() as u32).to_le_bytes().to_vec();
    for &(low, high) in entries {
        b.extend_from_slice(&low.to_le_bytes());
        b.extend_from_slice(&high.to_le_bytes());
        b.extend_from_slice(&0u32.to_le_bytes());
    }
    b
}

#[test]
fn system_accounts_are_not_checked() {
    assert!(!privilege_check_applies(Some("NT AUTHORITY\\SYSTEM")));
    assert!(!privilege_check_applies(Some("Local Service")));
    assert!(privilege_check_applies(Some("alice")));
    assert!(privilege_check_applies(None));
    let t = token(&[(20, 0)]);
    assert!(check_privilege_tokens(Some("SYSTEM"), Some(&t)).is_none());
}

#[test]
fn dangerous_privileges_are_reported() {
    let t = token(&[(5, 0), (20, 0), (10, 0)]);
    let f = check_privilege_tokens(Some("alice"), Some(&t)).expect("debug + driver privileges");
    assert_eq!(f.name, "dangerous_privilege");
    assert_eq!(f.weight, 15);
    assert_eq!(f.description, "持有高危特权: 高危调试特权, 高危驱动加载特权");
    assert!(check_privilege_tokens(Some("alice"), Some(&token(&[(5, 0), (20, 1)]))).is_none());
    assert!(check_privilege_tokens(Some("alice"), None).is_none());
}

#[test]
fn truncated_token_list_stops_reading() {
    let mut t = token(&[(9, 0)]);
    t[0] = 3;
    let f = check_privilege_tokens(None, Some(&t)).expect("first entry fits");
    assert_eq!(f.description, "持有高危特权: 高危所有权特权");
}

#[test]
fn mitigation_failures_follow_the_order_of_application() {
    assert!(mitigation_failures(true, false, true, true, true, true).is_empty());
    assert!(mitigation_failures(false, true, true, true, true, true).is_empty());
    assert_eq!(mitigation_failures(false, false, true, true, true, true), vec!["DEP"]);
    assert_eq!(
        mitigation_failures(false, false, false, false, false, false),
        vec!["DEP", "ASLR", "DynamicCode", "ExtensionPoint", "ImageLoad"]
    );
    assert_eq!(mitigation_failures(true, false, false, true, false, true), vec!["ASLR", "ExtensionPoint"]);
}
