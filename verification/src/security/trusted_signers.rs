//! User-configured trusted signer vendors.
use vstd::prelude::*;
use crate::pattern::{regex_compiles, regex_finds, regex_is_match, regex_is_valid};
use crate::text::copy_str;

verus! {

/// A user rule that trusts a vendor: a regular expression over the
/// `CompanyName` of a signed file.
#[derive(Debug, Clone)]
pub struct TrustedSignersRule {
    pub name: String,
    pub vendor_pattern: String,
    pub reason: Option<String>,
}

pub open spec fn opt_string_view(s: Option<String>) -> Option<Seq<char>> {
    match s {
        Some(t) => Some(t@),
        None => None,
    }
}

/// The entries of a trusted-signers file whose pattern compiles, in order.
pub open spec fn compiled_signer_rules(raw: Seq<(String, String, Option<String>)>) -> Seq<(Seq<char>, Seq<char>, Option<Seq<char>>)>
    decreases raw.len(),
{
    if raw.len() == 0 {
        Seq::empty()
    } else {
        let e = raw.last();
        compiled_signer_rules(raw.drop_last()) + if regex_compiles(e.1@) {
            seq![(e.0@, e.1@, opt_string_view(e.2))]
        } else {
            Seq::empty()
        }
    }
}

pub open spec fn signer_rule_views(rules: Seq<TrustedSignersRule>) -> Seq<(Seq<char>, Seq<char>, Option<Seq<char>>)> {
    rules.map_values(|r: TrustedSignersRule| (r.name@, r.vendor_pattern@, opt_string_view(r.reason)))
}

fn copy_opt(s: &Option<String>) -> (r: Option<String>)
    ensures
        opt_string_view(r) == opt_string_view(*s),
{
    match s {
        Some(t) => Some(copy_str(t.as_str())),
        None => None,
    }
}

/// Builds the rules of a trusted-signers file given as `(name,
/// vendor_pattern, reason)` entries, dropping those whose pattern does not
/// compile.
pub fn trusted_signers_from_entries(raw: &[(String, String, Option<String>)]) -> (r: Vec<TrustedSignersRule>)
    ensures
        signer_rule_views(r@) == compiled_signer_rules(raw@),
{
    let mut out: Vec<TrustedSignersRule> = Vec::new();
    let mut i: usize = 0;
    while i < raw.len()
        invariant
            i <= raw.len(),
            signer_rule_views(out@) == compiled_signer_rules(raw@.take(i as int)),
        decreases raw.len() - i,
    {
        assert(raw@.take(i + 1).drop_last() =~= raw@.take(i as int));
        let e = &raw[i];
        let ghost before = out@;
        if regex_is_valid(e.1.as_str()) {
            out.push(TrustedSignersRule { name: copy_str(e.0.as_str()), vendor_pattern: copy_str(e.1.as_str()), reason: copy_opt(&e.2) });
            assert(signer_rule_views(out@) =~= signer_rule_views(before) + seq![(e.0@, e.1@, opt_string_view(e.2))]);
        } else {
            assert(signer_rule_views(out@) =~= signer_rule_views(before) + Seq::empty());
        }
        i += 1;
    }
    assert(raw@.take(raw.len() as int) =~= raw@);
    out
}

/// Some rule's pattern matches `subject`.
pub open spec fn any_rule_matches(subject: Seq<char>, rules: Seq<TrustedSignersRule>) -> bool {
    exists|i: int| 0 <= i < rules.len() && regex_compiles(rules[i].vendor_pattern@)
        && #[trigger] regex_finds(rules[i].vendor_pattern@, subject)
}

/// Whether some user rule trusts the vendor `subject`.
pub fn matches_any_rule(subject: &str, rules: &[TrustedSignersRule]) -> (b: bool)
    ensures
        b == any_rule_matches(subject@, rules@),
{
    let mut i: usize = 0;
    while i < rules.len()
        invariant
            i <= rules.len(),
            forall|j: int| 0 <= j < i ==> !(regex_compiles(rules@[j].vendor_pattern@)
                && #[trigger] regex_finds(rules@[j].vendor_pattern@, subject@)),
        decreases rules.len() - i,
    {
        if regex_is_match(rules[i].vendor_pattern.as_str(), subject) {
            return true;
        }
        i += 1;
    }
    false
}


/// Where the trusted-signer rules live: `trusted_signers.toml` in the
/// configuration directory (`sep` is the platform's path separator).
pub fn default_rules_path(config_dir: &str, sep: char) -> (p: String)
    ensures
        p@ == crate::text::path_join(config_dir@, "trusted_signers.toml"@, sep),
{
    crate::text::join_path(config_dir, "trusted_signers.toml", sep)
}

/// The trusted-signer rules from the entries of the rules file (`None`
/// when the file is missing or does not parse): no rules without entries.
pub fn load_trusted_signers(entries: Option<&[(String, String, Option<String>)]>) -> (r: Vec<TrustedSignersRule>)
    ensures
        signer_rule_views(r@) == match entries {
            Some(raw) => compiled_signer_rules(raw@),
            None => Seq::empty(),
        },
{
    match entries {
        Some(raw) => trusted_signers_from_entries(raw),
        None => {
            let v: Vec<TrustedSignersRule> = Vec::new();
            assert(signer_rule_views(v@) =~= Seq::empty());
            v
        },
    }
}

} // verus!
