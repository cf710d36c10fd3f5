//! Signature status of executables and its risk factor.
use vstd::prelude::*;
use crate::security::score::{factor, fspec, FactorSpec, RiskCategory, RiskFactor};
use crate::security::trusted_signers::{any_rule_matches, matches_any_rule, TrustedSignersRule};
use crate::text::{has_sub, lower_chars, strs, unicode_lower, contains_chars};

verus! {

/// What is known of an executable's signature.
#[derive(Debug, Clone, Copy, PartialEq, Eq, Structural)]
pub enum SignatureStatus {
    Pending,
    Signed,
    Trusted,
    Unsigned,
    Revoked,
    Expired,
    UntrustedRoot,
    ChainError,
    Unknown,
}

impl Default for SignatureStatus {
    fn default() -> (s: SignatureStatus)
        ensures
            s == SignatureStatus::Pending,
    {
        SignatureStatus::Pending
    }
}

pub open spec fn status_label(s: SignatureStatus) -> &'static str {
    match s {
        SignatureStatus::Pending => "未验证",
        SignatureStatus::Trusted => "受信签名",
        SignatureStatus::Signed => "已签名",
        SignatureStatus::Unsigned => "无签名",
        SignatureStatus::Revoked => "签名已吊销",
        SignatureStatus::Expired => "证书过期",
        SignatureStatus::UntrustedRoot => "不受信根",
        SignatureStatus::ChainError => "证书链断裂",
        SignatureStatus::Unknown => "未知",
    }
}

pub open spec fn status_badge(s: SignatureStatus) -> &'static str {
    match s {
        SignatureStatus::Trusted => " \u{1F512}",
        SignatureStatus::Unsigned | SignatureStatus::Revoked | SignatureStatus::Expired | SignatureStatus::UntrustedRoot => " \u{26A0}\u{FE0F}",
        SignatureStatus::Unknown | SignatureStatus::ChainError => " \u{2753}",
        SignatureStatus::Pending | SignatureStatus::Signed => "",
    }
}

impl SignatureStatus {
    /// The display label of the status.
    pub fn label(self) -> (s: &'static str)
        ensures
            s == status_label(self),
    {
        match self {
            SignatureStatus::Pending => "未验证",
            SignatureStatus::Trusted => "受信签名",
            SignatureStatus::Signed => "已签名",
            SignatureStatus::Unsigned => "无签名",
            SignatureStatus::Revoked => "签名已吊销",
            SignatureStatus::Expired => "证书过期",
            SignatureStatus::UntrustedRoot => "不受信根",
            SignatureStatus::ChainError => "证书链断裂",
            SignatureStatus::Unknown => "未知",
        }
    }

    /// The mark shown after a process name: a lock for trusted signatures, a
    /// warning sign for missing or broken ones, a question mark when unknown,
    /// nothing otherwise.
    pub fn badge(self) -> (s: &'static str)
        ensures
            s == status_badge(self),
    {
        match self {
            SignatureStatus::Trusted => " \u{1F512}",
            SignatureStatus::Unsigned | SignatureStatus::Revoked | SignatureStatus::Expired | SignatureStatus::UntrustedRoot => " \u{26A0}\u{FE0F}",
            SignatureStatus::Unknown | SignatureStatus::ChainError => " \u{2753}",
            SignatureStatus::Pending | SignatureStatus::Signed => "",
        }
    }
}

/// Vendors whose signatures are trusted.
pub open spec fn trusted_signers() -> Seq<Seq<char>> {
    seq![
        "Microsoft Corporation"@, "Microsoft Windows"@, "Red Hat, Inc."@, "Canonical Ltd."@, "Google LLC"@,
        "Google Inc"@, "Mozilla Corporation"@, "Apple Inc."@, "Intel Corporation"@, "NVIDIA Corporation"@,
        "Advanced Micro Devices, Inc."@, "VMware, Inc."@, "Cisco Systems, Inc."@, "Oracle Corporation"@,
        "Adobe Inc."@, "Adobe Systems Incorporated"@, "Docker Inc."@, "GitHub, Inc."@,
        "Python Software Foundation"@, "Apache Software Foundation"@, "OpenJS Foundation"@, "Electron.js"@,
    ]
}

fn trusted_signer_list() -> (v: Vec<&'static str>)
    ensures
        strs(v@) == trusted_signers(),
{
    let v = vec![
        "Microsoft Corporation", "Microsoft Windows", "Red Hat, Inc.", "Canonical Ltd.", "Google LLC",
        "Google Inc", "Mozilla Corporation", "Apple Inc.", "Intel Corporation", "NVIDIA Corporation",
        "Advanced Micro Devices, Inc.", "VMware, Inc.", "Cisco Systems, Inc.", "Oracle Corporation",
        "Adobe Inc.", "Adobe Systems Incorporated", "Docker Inc.", "GitHub, Inc.",
        "Python Software Foundation", "Apache Software Foundation", "OpenJS Foundation", "Electron.js",
    ];
    assert(strs(v@) =~= trusted_signers());
    v
}

/// The lowered `subject` contains some lowered trusted vendor name.
pub open spec fn trusted_signer(subject: Seq<char>) -> bool {
    exists|j: int| 0 <= j < trusted_signers().len()
        && #[trigger] has_sub(unicode_lower(subject), unicode_lower(trusted_signers()[j]))
}

/// Whether `subject` names a built-in trusted vendor (case-insensitive
/// substring).
pub fn is_trusted_signer(subject: &str) -> (b: bool)
    ensures
        b == trusted_signer(subject@),
{
    let s = lower_chars(subject);
    let list = trusted_signer_list();
    let mut i: usize = 0;
    while i < list.len()
        invariant
            i <= list.len(),
            strs(list@) == trusted_signers(),
            s@ == unicode_lower(subject@),
            forall|j: int| 0 <= j < i ==> !#[trigger] has_sub(unicode_lower(subject@), unicode_lower(trusted_signers()[j])),
        decreases list.len() - i,
    {
        let v = lower_chars(list[i]);
        assert(strs(list@)[i as int] == list@[i as int]@);
        if contains_chars(&s, &v) {
            return true;
        }
        i += 1;
    }
    false
}

/// `TRUST_E_SUBJECT_NOT_SIGNED` (0x800B0100).
pub const TRUST_E_SUBJECT_NOT_SIGNED: i32 = -2146762496;
/// `CRYPT_E_REVOKED` (0x80092010).
pub const CRYPT_E_REVOKED: i32 = -2146885616;
/// `CERT_E_EXPIRED` (0x800B0101).
pub const CERT_E_EXPIRED: i32 = -2146762495;
/// `CERT_E_UNTRUSTEDROOT` (0x800B0109).
pub const CERT_E_UNTRUSTEDROOT: i32 = -2146762487;
/// `CERT_E_CHAINING` (0x800B010A).
pub const CERT_E_CHAINING: i32 = -2146762486;
/// `CERT_E_WRONG_NAME` (0x800B0113).
pub const CERT_E_WRONG_NAME: i32 = -2146762477;
/// `TRUST_E_CERT_SIGNATURE` (0x80096010).
pub const TRUST_E_CERT_SIGNATURE: i32 = -2146869232;

pub open spec fn wintrust_status(result: i32) -> SignatureStatus {
    if result == 0 {
        SignatureStatus::Signed
    } else if result == TRUST_E_SUBJECT_NOT_SIGNED {
        SignatureStatus::Unsigned
    } else if result == CRYPT_E_REVOKED {
        SignatureStatus::Revoked
    } else if result == CERT_E_EXPIRED {
        SignatureStatus::Expired
    } else if result == CERT_E_UNTRUSTEDROOT {
        SignatureStatus::UntrustedRoot
    } else if result == CERT_E_CHAINING || result == CERT_E_WRONG_NAME || result == TRUST_E_CERT_SIGNATURE {
        SignatureStatus::ChainError
    } else {
        SignatureStatus::Unknown
    }
}

/// Maps a `WinVerifyTrust` result code to a status.
pub fn from_wintrust_result(result: i32) -> (s: SignatureStatus)
    ensures
        s == wintrust_status(result),
{
    if result == 0 {
        SignatureStatus::Signed
    } else if result == TRUST_E_SUBJECT_NOT_SIGNED {
        SignatureStatus::Unsigned
    } else if result == CRYPT_E_REVOKED {
        SignatureStatus::Revoked
    } else if result == CERT_E_EXPIRED {
        SignatureStatus::Expired
    } else if result == CERT_E_UNTRUSTEDROOT {
        SignatureStatus::UntrustedRoot
    } else if result == CERT_E_CHAINING || result == CERT_E_WRONG_NAME || result == TRUST_E_CERT_SIGNATURE {
        SignatureStatus::ChainError
    } else {
        SignatureStatus::Unknown
    }
}

/// A `Signed` status raised to `Trusted` when the file's company is a trusted
/// vendor, built in or named by a user rule.
pub open spec fn upgraded_status(status: SignatureStatus, company: Option<Seq<char>>, rules: Seq<TrustedSignersRule>) -> SignatureStatus {
    match company {
        Some(c) => if status == SignatureStatus::Signed && (trusted_signer(c) || any_rule_matches(c, rules)) {
            SignatureStatus::Trusted
        } else {
            status
        },
        None => status,
    }
}

/// Raises `Signed` to `Trusted` for a trusted company (see [`upgraded_status`]).
pub fn upgrade_with_company(status: SignatureStatus, company: Option<&str>, trusted_rules: &[TrustedSignersRule]) -> (s: SignatureStatus)
    ensures
        s == upgraded_status(status, match company { Some(c) => Some(c@), None => None }, trusted_rules@),
{
    match company {
        Some(c) => {
            if status == SignatureStatus::Signed && (is_trusted_signer(c) || matches_any_rule(c, trusted_rules)) {
                SignatureStatus::Trusted
            } else {
                status
            }
        },
        None => status,
    }
}

/// The status that a verification yields: the mapped result code when one is
/// supplied; `Unknown` otherwise, since no platform verifier is part of this
/// library.
pub fn verify_signature_with_policy(exe_path: &str, policy_override: Option<i32>, trusted_rules: &[TrustedSignersRule]) -> (s: SignatureStatus)
    ensures
        s == match policy_override {
            Some(r) => wintrust_status(r),
            None => SignatureStatus::Unknown,
        },
{
    match policy_override {
        Some(result) => from_wintrust_result(result),
        None => SignatureStatus::Unknown,
    }
}

/// Verifies the signature of `exe_path` (see [`verify_signature_with_policy`]).
pub fn verify_signature(exe_path: &str) -> (s: SignatureStatus)
    ensures
        s == SignatureStatus::Unknown,
{
    verify_signature_with_policy(exe_path, None, &[])
}

/// The risk factor of a signature status.
pub open spec fn signature_factor(s: SignatureStatus) -> Option<FactorSpec> {
    match s {
        SignatureStatus::Pending => None,
        SignatureStatus::Trusted => None,
        SignatureStatus::Unsigned => Some(fspec(RiskCategory::Signature, "unsigned"@, 20, "无数字签名"@)),
        SignatureStatus::Revoked => Some(fspec(RiskCategory::Signature, "revoked"@, 35, "签名已被吊销"@)),
        SignatureStatus::Signed => Some(fspec(RiskCategory::Signature, "untrusted_sig"@, 10, "签名但不受信"@)),
        SignatureStatus::Expired => Some(fspec(RiskCategory::Signature, "expired"@, 15, "证书已过期"@)),
        SignatureStatus::UntrustedRoot => Some(fspec(RiskCategory::Signature, "untrusted_root"@, 15, "不受信根证书"@)),
        SignatureStatus::ChainError => Some(fspec(RiskCategory::Signature, "chain_error"@, 10, "证书链断裂"@)),
        SignatureStatus::Unknown => Some(fspec(RiskCategory::Signature, "signature_unverified"@, 5, "签名未验证（需管理员权限）"@)),
    }
}

/// The risk factor that a signature status carries, if any.
pub fn signature_risk_factor(status: SignatureStatus) -> (r: Option<RiskFactor>)
    ensures
        crate::security::behavior::opt_factor_view(r) == signature_factor(status),
{
    match status {
        SignatureStatus::Pending => None,
        SignatureStatus::Trusted => None,
        SignatureStatus::Unsigned => Some(factor(RiskCategory::Signature, "unsigned", 20, "无数字签名")),
        SignatureStatus::Revoked => Some(factor(RiskCategory::Signature, "revoked", 35, "签名已被吊销")),
        SignatureStatus::Signed => Some(factor(RiskCategory::Signature, "untrusted_sig", 10, "签名但不受信")),
        SignatureStatus::Expired => Some(factor(RiskCategory::Signature, "expired", 15, "证书已过期")),
        SignatureStatus::UntrustedRoot => Some(factor(RiskCategory::Signature, "untrusted_root", 15, "不受信根证书")),
        SignatureStatus::ChainError => Some(factor(RiskCategory::Signature, "chain_error", 10, "证书链断裂")),
        SignatureStatus::Unknown => Some(factor(RiskCategory::Signature, "signature_unverified", 5, "签名未验证（需管理员权限）")),
    }
}

} // verus!
