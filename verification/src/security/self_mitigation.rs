//! Process mitigation policies applied at start-up.
use vstd::prelude::*;

verus! {

/// `seq![name]` when `failed` holds, the empty sequence otherwise.
pub open spec fn failed_name(failed: bool, name: Seq<char>) -> Seq<Seq<char>> {
    if failed {
        seq![name]
    } else {
        Seq::empty()
    }
}

/// The policies that were not applied, in the order in which they are
/// applied: DEP (which counts as applied when it is already enabled and
/// permanent, whatever setting it would answer), ASLR, dynamic code,
/// extension points and image loading.
pub open spec fn failed_policies(
    dep_already_permanent: bool,
    dep_set_ok: bool,
    aslr_set_ok: bool,
    dynamic_code_set_ok: bool,
    extension_point_set_ok: bool,
    image_load_set_ok: bool,
) -> Seq<Seq<char>> {
    failed_name(!dep_already_permanent && !dep_set_ok, "DEP"@)
        + failed_name(!aslr_set_ok, "ASLR"@)
        + failed_name(!dynamic_code_set_ok, "DynamicCode"@)
        + failed_name(!extension_point_set_ok, "ExtensionPoint"@)
        + failed_name(!image_load_set_ok, "ImageLoad"@)
}

/// The views of a list of names.
pub open spec fn name_views(v: Seq<&'static str>) -> Seq<Seq<char>> {
    v.map_values(|s: &'static str| s@)
}

fn push_failed(v: &mut Vec<&'static str>, failed: bool, name: &'static str)
    ensures
        name_views(final(v)@) == name_views(old(v)@) + failed_name(failed, name@),
{
    let ghost before = v@;
    if failed {
        v.push(name);
        assert(name_views(v@) =~= name_views(before) + seq![name@]);
    } else {
        assert(name_views(v@) =~= name_views(before) + Seq::<Seq<char>>::empty());
    }
}

/// The names of the policies that failed, given what the system answered:
/// whether DEP was already enabled and permanent, and whether setting each
/// policy succeeded (setting DEP is asked only when it was not already
/// permanent).
pub fn mitigation_failures(
    dep_already_permanent: bool,
    dep_set_ok: bool,
    aslr_set_ok: bool,
    dynamic_code_set_ok: bool,
    extension_point_set_ok: bool,
    image_load_set_ok: bool,
) -> (failed: Vec<&'static str>)
    ensures
        name_views(failed@) == failed_policies(dep_already_permanent, dep_set_ok, aslr_set_ok, dynamic_code_set_ok,
            extension_point_set_ok, image_load_set_ok),
{
    let mut failed: Vec<&'static str> = Vec::new();
    assert(name_views(failed@) =~= Seq::<Seq<char>>::empty());
    push_failed(&mut failed, !dep_already_permanent && !dep_set_ok, "DEP");
    push_failed(&mut failed, !aslr_set_ok, "ASLR");
    push_failed(&mut failed, !dynamic_code_set_ok, "DynamicCode");
    push_failed(&mut failed, !extension_point_set_ok, "ExtensionPoint");
    push_failed(&mut failed, !image_load_set_ok, "ImageLoad");
    failed
}

/// Applies the process mitigation policies and returns the names of those
/// that failed.  Without a platform mitigation API (only Windows has one)
/// there is nothing to apply and nothing fails.
pub fn apply_self_mitigations() -> (failed: Vec<&'static str>)
    ensures
        failed@.len() == 0,
{
    Vec::new()
}

/// Every failed policy is named once, in the order of application: the
/// list has no repeats and is empty exactly when every policy was applied.
pub proof fn law_failed_policies_distinct(
    dep_already_permanent: bool,
    dep_set_ok: bool,
    aslr_set_ok: bool,
    dynamic_code_set_ok: bool,
    extension_point_set_ok: bool,
    image_load_set_ok: bool,
)
    ensures
        failed_policies(dep_already_permanent, dep_set_ok, aslr_set_ok, dynamic_code_set_ok, extension_point_set_ok,
            image_load_set_ok).no_duplicates(),
        failed_policies(dep_already_permanent, dep_set_ok, aslr_set_ok, dynamic_code_set_ok, extension_point_set_ok,
            image_load_set_ok).len() == 0 <==> (dep_already_permanent || dep_set_ok) && aslr_set_ok && dynamic_code_set_ok
            && extension_point_set_ok && image_load_set_ok,
{
    reveal_strlit("DEP");
    reveal_strlit("ASLR");
    reveal_strlit("DynamicCode");
    reveal_strlit("ExtensionPoint");
    reveal_strlit("ImageLoad");
    let a = failed_name(!dep_already_permanent && !dep_set_ok, "DEP"@);
    let b = failed_name(!aslr_set_ok, "ASLR"@);
    let c = failed_name(!dynamic_code_set_ok, "DynamicCode"@);
    let d = failed_name(!extension_point_set_ok, "ExtensionPoint"@);
    let e = failed_name(!image_load_set_ok, "ImageLoad"@);
    let r = a + b + c + d + e;
    assert("DEP"@.len() == 3 && "ASLR"@.len() == 4 && "DynamicCode"@.len() == 11 && "ExtensionPoint"@.len() == 14
        && "ImageLoad"@.len() == 9);
    assert forall|i: int, j: int| 0 <= i < r.len() && 0 <= j < r.len() && i != j implies r[i] != r[j] by {
        assert(r[i].len() != r[j].len());
    }
}

} // verus!
