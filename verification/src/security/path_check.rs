//! Path rules: system binaries outside System32, temp, downloads, network
//! shares and the desktop.
use vstd::prelude::*;
use crate::security::score::{factor, factor_owned, factor_views, fspec, opt_factor, push_when, FactorSpec, RiskCategory, RiskFactor};
use crate::text::{
    after_last, chars_of, first_index, find_chars, has_any, has_lit, has_sub, hs, in_list, last_segment,
    lemma_first_occurrence_unique, lower_chars, occurs_at, segment_count, segment_count_from, starts, starts_with, strs,
    to_lower, unicode_lower, string_of,
};

verus! {

pub open spec fn system32_names() -> Seq<Seq<char>> {
    seq!["svchost.exe"@, "lsass.exe"@, "csrss.exe"@, "smss.exe"@, "winlogon.exe"@, "services.exe"@]
}

fn system32_name_list() -> (v: Vec<&'static str>)
    ensures
        strs(v@) == system32_names(),
{
    let v = vec!["svchost.exe", "lsass.exe", "csrss.exe", "smss.exe", "winlogon.exe", "services.exe"];
    assert(strs(v@) =~= system32_names());
    v
}

pub open spec fn download_skip_dirs() -> Seq<Seq<char>> {
    seq!["\\bin\\"@, "\\lib\\"@, "\\vendor\\"@, "\\node_modules\\"@]
}

fn download_skip_list() -> (v: Vec<&'static str>)
    ensures
        strs(v@) == download_skip_dirs(),
{
    let v = vec!["\\bin\\", "\\lib\\", "\\vendor\\", "\\node_modules\\"];
    assert(strs(v@) =~= download_skip_dirs());
    v
}

/// The file name of `path` (lowered) when it is a System32 binary.
pub open spec fn impersonation(path: Seq<char>) -> Seq<FactorSpec> {
    let file = unicode_lower(last_segment(path, '\\'));
    let in_system32 = hs(path, "\\windows\\system32\\") || hs(path, "\\windows\\system32") || hs(path, "\\windows\\syswow64\\")
        || hs(path, "\\windows\\syswow64");
    opt_factor(system32_names().contains(file) && !in_system32, fspec(RiskCategory::FilePath, "system32_impersonation"@, 30,
        "系统程序 "@ + file + " 不在 System32 目录"@))
}

pub open spec fn in_temp(path: Seq<char>) -> bool {
    hs(path, "\\temp\\") || hs(path, "\\tmp\\") || hs(path, "\\appdata\\local\\temp") || starts_with(path, "c:\\windows\\temp"@)
}

/// A `\downloads` directory with at most two path segments after it and no
/// vendored sub-directory.
pub open spec fn in_downloads(path: Seq<char>) -> bool {
    let lower = unicode_lower(path);
    hs(lower, "\\downloads") && {
        let after = lower.subrange(first_index(lower, "\\downloads"@) + 10, lower.len() as int);
        segment_count(after, '\\') <= 2
            && !(exists|j: int| 0 <= j < download_skip_dirs().len() && #[trigger] has_sub(after, download_skip_dirs()[j]))
    }
}

pub open spec fn on_desktop(path: Seq<char>) -> bool {
    hs(path, "\\desktop\\") || hs(path, "\\desktop")
}

/// Every factor of the path rules for the executable path `exe`.
pub open spec fn path_factors(exe: Option<Seq<char>>) -> Seq<FactorSpec> {
    match exe {
        None => Seq::empty(),
        Some(e) => {
            let p = unicode_lower(e);
            impersonation(p)
                + opt_factor(in_temp(p), fspec(RiskCategory::FilePath, "temp_dir"@, 25, "从临时目录运行"@))
                + opt_factor(in_downloads(p), fspec(RiskCategory::FilePath, "downloads_dir"@, 15, "从下载目录运行"@))
                + opt_factor(starts_with(p, "\\\\"@) && !starts_with(p, "\\\\?\\"@),
                    fspec(RiskCategory::FilePath, "network_path"@, 15, "从网络路径运行"@))
                + opt_factor(on_desktop(p), fspec(RiskCategory::FilePath, "desktop"@, 5, "从桌面运行"@))
        },
    }
}

fn check_system32_impersonation(path: &Vec<char>, v: &mut Vec<RiskFactor>)
    ensures
        factor_views(final(v)@) == factor_views(old(v)@) + impersonation(path@),
{
    let seg = after_last(path, '\\');
    let seg_s = string_of(&seg, 0, seg.len());
    assert(seg@.subrange(0, seg@.len() as int) =~= seg@);
    let file_s = to_lower(seg_s.as_str());
    let file = chars_of(file_s.as_str());
    let names = system32_name_list();
    let hit = in_list(&file, &names);
    let in_system32 = has_lit(path, "\\windows\\system32\\") || has_lit(path, "\\windows\\system32") || has_lit(path, "\\windows\\syswow64\\")
        || has_lit(path, "\\windows\\syswow64");
    let mut d = String::from_str("系统程序 ");
    d.append(file_s.as_str());
    d.append(" 不在 System32 目录");
    push_when(v, hit && !in_system32, factor_owned(RiskCategory::FilePath, "system32_impersonation", 30, d));
}

/// Whether `path` is in a downloads directory (see [`in_downloads`]).
pub fn is_in_downloads(path: &str) -> (b: bool)
    ensures
        b == in_downloads(path@),
{
    let lower = lower_chars(path);
    let pat = chars_of("\\downloads");
    match find_chars(&lower, &pat) {
        None => false,
        Some(idx) => {
            proof {
                reveal_strlit("\\downloads");
                lemma_first_occurrence_unique(lower@, "\\downloads"@, idx as int);
                assert(occurs_at(lower@, "\\downloads"@, idx as int));
                assert(idx + 10 <= lower.len());
            }
            let start = idx + 10;
            let segments = segment_count_from(&lower, start, '\\');
            if segments <= 2 {
                let after = string_of(&lower, start, lower.len());
                let ac = chars_of(after.as_str());
                let skip = download_skip_list();
                !has_any(&ac, &skip)
            } else {
                false
            }
        },
    }
}

/// The path rules for the executable path `exe` (nothing without one).
pub fn check_path_risk(exe: Option<&str>) -> (r: Vec<RiskFactor>)
    ensures
        factor_views(r@) == path_factors(match exe { Some(e) => Some(e@), None => None }),
{
    let mut v: Vec<RiskFactor> = Vec::new();
    assert(factor_views(v@) =~= Seq::<FactorSpec>::empty());
    let exe_path = match exe {
        Some(e) => e,
        None => return v,
    };
    let lowered = to_lower(exe_path);
    let p = chars_of(lowered.as_str());
    check_system32_impersonation(&p, &mut v);
    let temp = has_lit(&p, "\\temp\\") || has_lit(&p, "\\tmp\\") || has_lit(&p, "\\appdata\\local\\temp") || starts(&p, "c:\\windows\\temp");
    push_when(&mut v, temp, factor(RiskCategory::FilePath, "temp_dir", 25, "从临时目录运行"));
    push_when(&mut v, is_in_downloads(lowered.as_str()), factor(RiskCategory::FilePath, "downloads_dir", 15, "从下载目录运行"));
    let network = starts(&p, "\\\\") && !starts(&p, "\\\\?\\");
    push_when(&mut v, network, factor(RiskCategory::FilePath, "network_path", 15, "从网络路径运行"));
    let desktop = has_lit(&p, "\\desktop\\") || has_lit(&p, "\\desktop");
    push_when(&mut v, desktop, factor(RiskCategory::FilePath, "desktop", 5, "从桌面运行"));
    v
}

proof fn lemma_has_prefix_part(h: Seq<char>, a: Seq<char>, b: Seq<char>)
    requires
        has_sub(h, a + b),
    ensures
        has_sub(h, a),
{
    let i = choose|i: int| #[trigger] occurs_at(h, a + b, i);
    assert(h.subrange(i, i + a.len()) =~= (a + b).subrange(0, a.len() as int));
    assert((a + b).subrange(0, a.len() as int) =~= a);
    assert(occurs_at(h, a, i));
}

/// An executable named like a System32 binary (its lowered file name is
/// one of `svchost.exe`, `lsass.exe`, `csrss.exe`, `smss.exe`,
/// `winlogon.exe`, `services.exe`) in a path that mentions neither
/// `\windows\system32` nor `\windows\syswow64` (lowered) is reported as
/// impersonation, weight 30, first among the path factors.
pub proof fn law_system32_name_elsewhere_reported(e: Seq<char>)
    requires
        system32_names().contains(unicode_lower(last_segment(unicode_lower(e), '\\'))),
        !has_sub(unicode_lower(e), "\\windows\\system32"@),
        !has_sub(unicode_lower(e), "\\windows\\syswow64"@),
    ensures
        path_factors(Some(e)).len() > 0,
        path_factors(Some(e))[0] == fspec(RiskCategory::FilePath, "system32_impersonation"@, 30,
            "系统程序 "@ + unicode_lower(last_segment(unicode_lower(e), '\\')) + " 不在 System32 目录"@),
{
    let p = unicode_lower(e);
    reveal_strlit("\\windows\\system32\\");
    reveal_strlit("\\windows\\system32");
    reveal_strlit("\\windows\\syswow64\\");
    reveal_strlit("\\windows\\syswow64");
    reveal_strlit("\\");
    assert("\\windows\\system32\\"@ =~= "\\windows\\system32"@ + "\\"@);
    assert("\\windows\\syswow64\\"@ =~= "\\windows\\syswow64"@ + "\\"@);
    if has_sub(p, "\\windows\\system32\\"@) {
        lemma_has_prefix_part(p, "\\windows\\system32"@, "\\"@);
    }
    if has_sub(p, "\\windows\\syswow64\\"@) {
        lemma_has_prefix_part(p, "\\windows\\syswow64"@, "\\"@);
    }
}

/// An executable whose lowered path lies under `\windows\system32` or
/// `\windows\syswow64` is never reported as impersonation.
pub proof fn law_system32_path_not_impersonation(e: Seq<char>)
    requires
        has_sub(unicode_lower(e), "\\windows\\system32"@) || has_sub(unicode_lower(e), "\\windows\\syswow64"@),
    ensures
        forall|i: int| 0 <= i < path_factors(Some(e)).len()
            ==> (#[trigger] path_factors(Some(e))[i]).name != "system32_impersonation"@,
{
    reveal_strlit("system32_impersonation");
    reveal_strlit("temp_dir");
    reveal_strlit("downloads_dir");
    reveal_strlit("network_path");
    reveal_strlit("desktop");
    let p = unicode_lower(e);
    assert(impersonation(p) =~= Seq::<FactorSpec>::empty());
    let r = path_factors(Some(e));
    assert forall|i: int| 0 <= i < r.len() implies (#[trigger] r[i]).name != "system32_impersonation"@ by {
        assert(r[i].name.len() != "system32_impersonation"@.len());
    }
}

} // verus!
