//! The modules a process has loaded: which of them are suspicious, and the
//! risk factors they give.
//!
//! The caller lists a process's module paths in load order (the platform's
//! module snapshot); the library decides which of them count.
use vstd::prelude::*;
use crate::security::score::{factor_owned, factor_views, fspec, FactorSpec, RiskCategory, RiskFactor};
use crate::text::{
    chars_of, has_lit, has_sub, lower_chars, starts, starts_with, string_of, unicode_lower, utf8_len,
    utf8_len_char, utf8_len_char_exec, utf8_len_of,
};

verus! {

/// One loaded module.
#[derive(Debug, Clone)]
pub struct DllInfo {
    pub path: String,
    pub suspicious: Option<RiskFactor>,
}

/// How many modules of a process are looked at.
pub const MAX_DLLS_CHECKED: usize = 200;

/// Only modules among the first this many are reported.
pub const MAX_DLLS_REPORTED: usize = 50;

/// At most this many findings per process.
pub const MAX_DLL_FINDINGS: usize = 3;

/// How many leading characters of `s` fit into `b` bytes of UTF-8.
pub open spec fn chars_within(s: Seq<char>, b: int) -> nat
    decreases s.len(),
{
    if s.len() == 0 || utf8_len_char(s[0]) > b {
        0
    } else {
        1 + chars_within(s.drop_first(), b - utf8_len_char(s[0]))
    }
}

/// A path shortened to about `max_len` bytes: unchanged when it fits,
/// otherwise `...` followed by its tail from the last character boundary at
/// or before byte `len - max_len - 3` (both differences stopping at zero).
pub open spec fn truncated_path(s: Seq<char>, max_len: nat) -> Seq<char> {
    let len = utf8_len(s);
    if len <= max_len {
        s
    } else {
        let cut = if len - max_len >= 3 { len - max_len - 3 } else { 0 };
        "..."@ + s.skip(chars_within(s, cut) as int)
    }
}

/// Shortens a module path for a finding's description.
pub fn truncate_path(path: &str, max_len: usize) -> (r: String)
    ensures
        r@ == truncated_path(path@, max_len as nat),
{
    let cs = chars_of(path);
    let len = utf8_len_of(&cs, 0, cs.len());
    assert(cs@.subrange(0, cs@.len() as int) =~= path@);
    if len <= max_len as u128 {
        return string_of(&cs, 0, cs.len());
    }
    let over: u128 = len - max_len as u128;
    let cut: u128 = if over >= 3 { over - 3 } else { 0 };
    let mut used: u128 = 0;
    let mut i: usize = 0;
    assert(cs@.skip(0) =~= cs@);
    while i < cs.len()
        invariant
            i <= cs.len(),
            cs@ == path@,
            used <= cut,
            chars_within(path@, cut as int) == i + chars_within(cs@.skip(i as int), cut - used),
        ensures
            i <= cs.len(),
            chars_within(path@, cut as int) == i,
        decreases cs.len() - i,
    {
        let w = utf8_len_char_exec(cs[i]) as u128;
        assert(cs@.skip(i as int)[0] == cs@[i as int]);
        assert(cs@.skip(i as int).drop_first() =~= cs@.skip(i + 1));
        if w > cut - used {
            break;
        }
        used = used + w;
        i = i + 1;
    }
    let mut r = String::from_str("...");
    let tail = string_of(&cs, i, cs.len());
    r.append(tail.as_str());
    assert(cs@.subrange(i as int, cs@.len() as int) =~= path@.skip(i as int));
    r
}

/// A Windows system module, left alone: under `c:\windows\` in
/// `system32`, `syswow64` or `winsxs` (the path lower-cased).
pub open spec fn is_system_dll(lower: Seq<char>) -> bool {
    starts_with(lower, "c:\\windows\\"@) && (has_sub(lower, "\\system32\\"@) || has_sub(lower, "\\syswow64\\"@)
        || has_sub(lower, "\\winsxs\\"@))
}

/// A module in a directory the user can write to (the path lower-cased).
pub open spec fn is_user_writable(lower: Seq<char>) -> bool {
    (has_sub(lower, "\\users\\"@) && !has_sub(lower, "\\program files"@)) || has_sub(lower, "\\temp\\"@)
        || has_sub(lower, "\\appdata\\local\\temp"@) || has_sub(lower, "\\downloads"@)
}

/// A suspicious module: not a system module, in a user-writable directory.
pub open spec fn is_suspicious_dll(path: Seq<char>) -> bool {
    let lower = unicode_lower(path);
    !is_system_dll(lower) && is_user_writable(lower)
}

/// The finding for a suspicious module.
pub open spec fn dll_factor(path: Seq<char>) -> FactorSpec {
    fspec(RiskCategory::FilePath, "suspicious_dll"@, 10, "加载可疑 DLL: "@ + truncated_path(path, 60))
}

/// The findings among modules, in load order.
pub open spec fn dll_findings(paths: Seq<Seq<char>>) -> Seq<FactorSpec>
    decreases paths.len(),
{
    if paths.len() == 0 {
        Seq::empty()
    } else {
        dll_findings(paths.drop_last()) + if is_suspicious_dll(paths.last()) {
            seq![dll_factor(paths.last())]
        } else {
            Seq::empty()
        }
    }
}

/// The findings of a process's modules: the suspicious ones among the first
/// [`MAX_DLLS_REPORTED`], at most [`MAX_DLL_FINDINGS`] of them.
pub open spec fn dll_risk(paths: Seq<Seq<char>>) -> Seq<FactorSpec> {
    let considered = if paths.len() <= MAX_DLLS_REPORTED { paths } else { paths.take(MAX_DLLS_REPORTED as int) };
    let found = dll_findings(considered);
    if found.len() <= MAX_DLL_FINDINGS {
        found
    } else {
        found.take(MAX_DLL_FINDINGS as int)
    }
}

/// Whether a module path is suspicious.
pub fn is_suspicious_dll_path(path: &str) -> (b: bool)
    ensures
        b == is_suspicious_dll(path@),
{
    let lower = lower_chars(path);
    let system = starts(&lower, "c:\\windows\\")
        && (has_lit(&lower, "\\system32\\") || has_lit(&lower, "\\syswow64\\") || has_lit(&lower, "\\winsxs\\"));
    if system {
        return false;
    }
    (has_lit(&lower, "\\users\\") && !has_lit(&lower, "\\program files")) || has_lit(&lower, "\\temp\\")
        || has_lit(&lower, "\\appdata\\local\\temp") || has_lit(&lower, "\\downloads")
}

/// The risk factors of a process's loaded modules, given their paths in
/// load order: each suspicious module among the first
/// [`MAX_DLLS_REPORTED`] gives one, and at most [`MAX_DLL_FINDINGS`] are
/// kept.
pub fn dll_risk_factors(paths: &[String]) -> (r: Vec<RiskFactor>)
    ensures
        factor_views(r@) == dll_risk(crate::text::views(paths@)),
{
    let ghost ps = crate::text::views(paths@);
    let n: usize = if paths.len() <= MAX_DLLS_REPORTED { paths.len() } else { MAX_DLLS_REPORTED };
    let ghost considered = if ps.len() <= MAX_DLLS_REPORTED { ps } else { ps.take(MAX_DLLS_REPORTED as int) };
    assert(considered =~= ps.take(n as int));
    let mut out: Vec<RiskFactor> = Vec::new();
    let mut i: usize = 0;
    while i < n
        invariant
            i <= n,
            n <= paths.len(),
            ps == crate::text::views(paths@),
            factor_views(out@) == dll_findings(ps.take(i as int)),
        decreases n - i,
    {
        let ghost before = factor_views(out@);
        assert(ps.take(i + 1).drop_last() =~= ps.take(i as int));
        assert(ps.take(i + 1).last() == paths@[i as int]@);
        if is_suspicious_dll_path(paths[i].as_str()) {
            let mut d = String::from_str("加载可疑 DLL: ");
            let t = truncate_path(paths[i].as_str(), 60);
            d.append(t.as_str());
            out.push(factor_owned(RiskCategory::FilePath, "suspicious_dll", 10, d));
            assert(factor_views(out@) =~= before + seq![dll_factor(paths@[i as int]@)]);
        } else {
            assert(factor_views(out@) =~= before + Seq::<FactorSpec>::empty());
        }
        i += 1;
    }
    if out.len() > MAX_DLL_FINDINGS {
        out.truncate(MAX_DLL_FINDINGS);
        assert(factor_views(out@) =~= dll_findings(considered).take(MAX_DLL_FINDINGS as int));
    }
    out
}

} // verus!
