use procmon::security::signature::{
    from_wintrust_result, is_trusted_signer, signature_risk_factor, upgrade_with_company, verify_signature,
    verify_signature_with_policy, SignatureStatus,
};
use procmon::security::trusted_signers::{
    default_rules_path, load_trusted_signers, matches_any_rule, trusted_signers_from_entries, TrustedSignersRule,
};

const TRUST_E_SUBJECT_NOT_SIGNED_TEST: i32 = 0x800B0100_u32 as i32;
const CRYPT_E_REVOKED_TEST: i32 = 0x80092010_u32 as i32;
const CERT_E_EXPIRED_TEST: i32 = 0x800B0101_u32 as i32;
const CERT_E_UNTRUSTEDROOT_TEST: i32 = 0x800B0109_u32 as i32;
const CERT_E_CHAINING_TEST: i32 = 0x800B010A_u32 as i32;

fn signer_rule(name: &str, pattern: &str) -> TrustedSignersRule {
    TrustedSignersRule { name: name.to_string(), vendor_pattern: pattern.to_string(), reason: None }
}

#[test]
fn mock_policy_success_returns_signed() {
    assert_eq!(verify_signature_with_policy("C:\\ignore.exe", Some(0), &[]), SignatureStatus::Signed);
    assert_eq!(verify_signature_with_policy("/nonexistent/path", Some(0), &[]), SignatureStatus::Signed);
}

#[test]
fn mock_policy_not_signed_returns_unsigned() {
    assert_eq!(
        verify_signature_with_policy("ignored", Some(TRUST_E_SUBJECT_NOT_SIGNED_TEST), &[]),
        SignatureStatus::Unsigned,
    );
}

#[test]
fn mock_policy_revoked_returns_revoked() {
    assert_eq!(verify_signature_with_policy("ignored", Some(CRYPT_E_REVOKED_TEST), &[]), SignatureStatus::Revoked);
}

#[test]
fn mock_policy_expired_returns_expired() {
    assert_eq!(verify_signature_with_policy("ignored", Some(CERT_E_EXPIRED_TEST), &[]), SignatureStatus::Expired);
}

#[test]
fn mock_policy_untrusted_root_returns_untrusted_root() {
    assert_eq!(
        verify_signature_with_policy("ignored", Some(CERT_E_UNTRUSTEDROOT_TEST), &[]),
        SignatureStatus::UntrustedRoot,
    );
}

#[test]
fn mock_policy_chaining_returns_chain_error() {
    assert_eq!(verify_signature_with_policy("ignored", Some(CERT_E_CHAINING_TEST), &[]), SignatureStatus::ChainError);
}

#[test]
fn mock_policy_unknown_hresult_returns_unknown() {
    assert_eq!(verify_signature_with_policy("ignored", Some(0x80004005_u32 as i32), &[]), SignatureStatus::Unknown);
}

#[test]
fn real_path_does_not_panic() {
    let _ = verify_signature_with_policy("C:\\nonexistent\\path.exe", None, &[]);
}

#[test]
fn verify_without_platform_is_unknown() {
    assert_eq!(verify_signature("C:\\x.exe"), SignatureStatus::Unknown);
}

#[test]
fn wintrust_codes_map() {
    assert_eq!(from_wintrust_result(0), SignatureStatus::Signed);
    assert_eq!(from_wintrust_result(TRUST_E_SUBJECT_NOT_SIGNED_TEST), SignatureStatus::Unsigned);
    assert_eq!(from_wintrust_result(-1), SignatureStatus::Unknown);
}

#[test]
fn signature_factor_weights() {
    assert!(signature_risk_factor(SignatureStatus::Trusted).is_none());
    assert!(signature_risk_factor(SignatureStatus::Pending).is_none());
    let f = signature_risk_factor(SignatureStatus::Revoked).unwrap();
    assert_eq!(f.name, "revoked");
    assert_eq!(f.weight, 35);
    assert_eq!(signature_risk_factor(SignatureStatus::Unknown).unwrap().weight, 5);
}

#[test]
fn badge_and_default() {
    assert_eq!(SignatureStatus::default(), SignatureStatus::Pending);
    assert_ne!(SignatureStatus::Trusted.badge(), SignatureStatus::Revoked.badge());
}

#[test]
fn builtin_trusted_signer_by_company() {
    assert!(is_trusted_signer("Microsoft Corporation"));
    assert!(!is_trusted_signer("Totally Unknown Vendor Ltd"));
}

#[test]
fn signed_upgrades_to_trusted_with_user_rule() {
    let rules = vec![signer_rule("acme", "(?i)acme")];
    assert_eq!(upgrade_with_company(SignatureStatus::Signed, Some("ACME Corp"), &rules), SignatureStatus::Trusted);
    assert_eq!(upgrade_with_company(SignatureStatus::Signed, Some("Other"), &rules), SignatureStatus::Signed);
    assert_eq!(upgrade_with_company(SignatureStatus::Unsigned, Some("ACME Corp"), &rules), SignatureStatus::Unsigned);
}

#[test]
fn load_nonexistent_returns_empty() {
    let rules = load_trusted_signers(None);
    assert!(rules.is_empty());
}

#[test]
fn load_invalid_regex_skips_rule() {
    let raw = vec![
        ("bad".to_string(), "[unclosed".to_string(), None),
        ("good".to_string(), "good".to_string(), None),
    ];
    let rules = load_trusted_signers(Some(&raw));
    assert_eq!(rules.len(), 1);
    assert_eq!(rules[0].name, "good");
    assert_eq!(trusted_signers_from_entries(&raw).len(), 1);
}

#[test]
fn load_rules_keep_reasons() {
    let raw = vec![
        ("adobe".to_string(), "(?i)adobe".to_string(), Some("Adobe 系统".to_string())),
        ("my_company".to_string(), "^MyCompany Inc\\.$".to_string(), None),
        ("docker".to_string(), "(?i)docker".to_string(), None),
    ];
    let rules = load_trusted_signers(Some(&raw));
    assert_eq!(rules.len(), 3);
    assert_eq!(rules[0].name, "adobe");
    assert!(rules[0].reason.is_some());
    assert_eq!(rules[1].name, "my_company");
    assert!(rules[1].reason.is_none());
}

#[test]
fn matches_any_rule_case_sensitive_default() {
    let rule = signer_rule("test", "^Adobe Inc\\.$");
    assert!(matches_any_rule("Adobe Inc.", std::slice::from_ref(&rule)));
    assert!(!matches_any_rule("adobe inc.", std::slice::from_ref(&rule)));
}

#[test]
fn matches_any_rule_case_insensitive_with_flag() {
    let rule = signer_rule("test", "(?i)^adobe");
    assert!(matches_any_rule("Adobe Inc.", std::slice::from_ref(&rule)));
    assert!(matches_any_rule("adobe systems", std::slice::from_ref(&rule)));
}

#[test]
fn matches_any_rule_empty_rules_returns_false() {
    assert!(!matches_any_rule("Adobe Inc.", &[]));
    assert!(!matches_any_rule("", &[]));
}

#[test]
fn matches_any_rule_multiple_rules_any_match() {
    let rules = vec![signer_rule("adobe", "(?i)adobe"), signer_rule("cisco", "(?i)cisco")];
    assert!(matches_any_rule("Adobe Inc.", &rules));
    assert!(matches_any_rule("Cisco Systems", &rules));
    assert!(!matches_any_rule("Random Vendor", &rules));
}

#[test]
fn trusted_signers_default_rules_path_joins() {
    assert_eq!(default_rules_path("C:\\cfg\\", '\\'), "C:\\cfg\\trusted_signers.toml");
}
