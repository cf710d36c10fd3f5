//! Dangerous privileges held by a process token.
//!
//! The token's privilege list is read by the caller (it takes the platform
//! API); the library decides from the user and the raw list.
use vstd::prelude::*;
use crate::security::score::{fspec, FactorSpec, RiskCategory, RiskFactor};
use crate::text::{has_any, has_sub, join, lower_chars, strs, unicode_lower, views};

verus! {

/// Markers of system accounts, which hold these privileges by design.
pub open spec fn system_user_markers() -> Seq<Seq<char>> {
    seq!["system"@, "localsystem"@, "network service"@, "local service"@]
}

/// The account name is that of a system account: lowered, it contains one
/// of the markers.
pub open spec fn system_account(u: Seq<char>) -> bool {
    exists|j: int| 0 <= j < system_user_markers().len() && #[trigger] has_sub(unicode_lower(u), system_user_markers()[j])
}

/// The user is a system account.
pub open spec fn is_system_user(user: Option<Seq<char>>) -> bool {
    match user {
        Some(u) => system_account(u),
        None => false,
    }
}

/// The little-endian `u32` at byte `off` of `b`.
pub open spec fn le_u32(b: Seq<u8>, off: int) -> int {
    b[off] + 256 * b[off + 1] + 65536 * b[off + 2] + 16777216 * b[off + 3]
}

/// The description of a dangerous privilege, by the parts of its LUID.
pub open spec fn dangerous_luid(low: int, high: int) -> Option<Seq<char>> {
    if high != 0 {
        None
    } else if low == 20 {
        Some("高危调试特权"@)
    } else if low == 10 {
        Some("高危驱动加载特权"@)
    } else if low == 9 {
        Some("高危所有权特权"@)
    } else {
        None
    }
}

/// Size in bytes of one entry of a token's privilege list.
pub const LUID_AND_ATTRIBUTES_SIZE: usize = 12;

/// The descriptions of the dangerous privileges among entries `i..n` of the
/// list in `b` (entries start at byte 4, 12 bytes each; reading stops at
/// the first entry that does not fit).
pub open spec fn dangerous_from(b: Seq<u8>, i: int, n: int) -> Seq<Seq<char>>
    decreases n - i,
{
    if i >= n || i < 0 || 4 + 12 * i + 12 > b.len() {
        Seq::empty()
    } else {
        let off = 4 + 12 * i;
        let rest = dangerous_from(b, i + 1, n);
        match dangerous_luid(le_u32(b, off), le_u32(b, off + 4)) {
            Some(d) => seq![d] + rest,
            None => rest,
        }
    }
}

/// The entries read from a list: its count, at most 100.
pub open spec fn entry_count(b: Seq<u8>) -> int {
    if le_u32(b, 0) < 100 {
        le_u32(b, 0)
    } else {
        100
    }
}

/// The factor for a process whose user is `user` and whose token holds the
/// raw privilege list `token` (`None` when it could not be read).
pub open spec fn privilege_factor(user: Option<Seq<char>>, token: Option<Seq<u8>>) -> Option<FactorSpec> {
    if is_system_user(user) {
        None
    } else {
        match token {
            None => None,
            Some(b) => if b.len() == 0 || b.len() > 65536 {
                None
            } else {
                let found = dangerous_from(b, 0, entry_count(b));
                if found.len() == 0 {
                    None
                } else {
                    Some(fspec(RiskCategory::Privilege, "dangerous_privilege"@, 15, "持有高危特权: "@ + join(found, ", "@)))
                }
            },
        }
    }
}

/// Whether the token check applies to a process of user `user_id`: not to
/// system accounts.
pub fn privilege_check_applies(user_id: Option<&str>) -> (b: bool)
    ensures
        b == !is_system_user(match user_id {
            Some(u) => Some(u@),
            None => None,
        }),
{
    match user_id {
        Some(u) => {
            let l = lower_chars(u);
            let markers: Vec<&'static str> = vec!["system", "localsystem", "network service", "local service"];
            assert(strs(markers@) =~= system_user_markers());
            let hit = has_any(&l, &markers);
            proof {
                assert(l@ == unicode_lower(u@));
                assert(markers@.len() == 4);
                assert(hit == exists|j: int| 0 <= j < markers@.len() && #[trigger] has_sub(l@, strs(markers@)[j]));
                if hit {
                    let j = choose|j: int| 0 <= j < markers@.len() && #[trigger] has_sub(l@, strs(markers@)[j]);
                    assert(system_user_markers().len() == 4);
                    assert(0 <= j < system_user_markers().len());
                    assert(has_sub(unicode_lower(u@), system_user_markers()[j]));
                    assert(system_account(u@));
                }
                if system_account(u@) {
                    let j = choose|j: int| 0 <= j < system_user_markers().len() && #[trigger] has_sub(unicode_lower(u@), system_user_markers()[j]);
                    assert(has_sub(l@, strs(markers@)[j]));
                    assert(hit);
                }
            }
            !hit
        },
        None => true,
    }
}

fn le_u32_exec(b: &[u8], off: usize) -> (v: u32)
    requires
        off + 4 <= b@.len(),
    ensures
        v == le_u32(b@, off as int),
{
    b[off] as u32 + 256 * (b[off + 1] as u32) + 65536 * (b[off + 2] as u32) + 16777216 * (b[off + 3] as u32)
}

/// Scores the privileges of a token: `token` is the raw privilege list read
/// from the process (`None` when it could not be read).  System accounts
/// are not scored.
pub fn check_privilege_tokens(user_id: Option<&str>, token: Option<&[u8]>) -> (r: Option<RiskFactor>)
    requires
        match token {
            Some(b) => b@.len() >= 4 || b@.len() == 0,
            None => true,
        },
    ensures
        crate::security::behavior::opt_factor_view(r) == privilege_factor(match user_id {
            Some(u) => Some(u@),
            None => None,
        }, match token {
            Some(b) => Some(b@),
            None => None,
        }),
{
    if !privilege_check_applies(user_id) {
        return None;
    }
    let b = match token {
        Some(b) => b,
        None => return None,
    };
    if b.len() == 0 || b.len() > 65536 {
        return None;
    }
    let count = le_u32_exec(b, 0);
    let n: u32 = if count < 100 { count } else { 100 };
    let mut found: Vec<String> = Vec::new();
    let mut i: u32 = 0;
    while i < n
        invariant
            b@.len() <= 65536,
            n as int == entry_count(b@),
            i <= n,
            n <= 100,
            views(found@) + dangerous_from(b@, i as int, n as int) == dangerous_from(b@, 0, n as int),
        ensures
            views(found@) == dangerous_from(b@, 0, n as int),
        decreases n - i,
    {
        let off: usize = 4 + 12 * (i as usize);
        if off + 12 > b.len() {
            assert(dangerous_from(b@, i as int, n as int) == Seq::<Seq<char>>::empty());
            assert(views(found@) + Seq::<Seq<char>>::empty() =~= views(found@));
            break;
        }
        let low = le_u32_exec(b, off);
        let high = le_u32_exec(b, off + 4);
        let ghost rest = dangerous_from(b@, i + 1, n as int);
        let ghost before = views(found@);
        if high == 0 && low == 20 {
            found.push(String::from_str("高危调试特权"));
            assert(views(found@) =~= before + seq!["高危调试特权"@]);
        } else if high == 0 && low == 10 {
            found.push(String::from_str("高危驱动加载特权"));
            assert(views(found@) =~= before + seq!["高危驱动加载特权"@]);
        } else if high == 0 && low == 9 {
            found.push(String::from_str("高危所有权特权"));
            assert(views(found@) =~= before + seq!["高危所有权特权"@]);
        }
        assert(views(found@) + rest =~= before + dangerous_from(b@, i as int, n as int));
        i += 1;
    }
    if found.len() == 0 {
        return None;
    }
    let joined = crate::text::join_strings(found.as_slice(), ", ");
    let mut d = String::from_str("持有高危特权: ");
    d.append(joined.as_str());
    Some(RiskFactor { category: RiskCategory::Privilege, name: String::from_str("dangerous_privilege"), weight: 15, description: d })
}

} // verus!
