//! Behaviour rules: spoofed names, resource anomalies, fork bombs, privilege
//! misuse, svchost integrity, renamed binaries.
use vstd::prelude::*;
use crate::process::{opt_str, opt_view, ProcessInfo};
use crate::security::score::{factor, factor_owned, fspec, FactorSpec, RiskCategory, RiskFactor};
use crate::text::{
    chars_of, decimal, has_any, has_lit, has_sub, hs, in_list, is_lit, join, last_segment,
    lower_chars, push_decimal, strs, to_lower, unicode_lower, after_last,
};

verus! {

// ---------------------------------------------------------------------------
// Near-match of names
// ---------------------------------------------------------------------------
/// `b` is `a` with exactly one byte replaced.
pub open spec fn one_substitution(a: Seq<u8>, b: Seq<u8>) -> bool {
    a.len() == b.len() && exists|k: int| 0 <= k < a.len() && #[trigger] a.update(k, b[k]) == b
}

/// `s` is `l` with exactly one byte removed.
pub open spec fn one_deletion(l: Seq<u8>, s: Seq<u8>) -> bool {
    l.len() == s.len() + 1 && exists|k: int| 0 <= k < l.len() && #[trigger] l.remove(k) == s
}

/// `a` and `b` differ, by one substituted, inserted or deleted byte.
pub open spec fn near_match(a: Seq<u8>, b: Seq<u8>) -> bool {
    a != b && (one_substitution(a, b) || one_deletion(a, b) || one_deletion(b, a))
}

fn bytes_equal(a: &[u8], b: &[u8]) -> (r: bool)
    ensures
        r == (a@ == b@),
{
    if a.len() != b.len() {
        return false;
    }
    let mut i: usize = 0;
    while i < a.len()
        invariant
            i <= a.len() == b.len(),
            forall|j: int| 0 <= j < i ==> a@[j] == b@[j],
        decreases a.len() - i,
    {
        if a[i] != b[i] {
            return false;
        }
        i += 1;
    }
    assert(a@ =~= b@);
    true
}

fn near_same_length(a: &[u8], b: &[u8]) -> (r: bool)
    requires
        a.len() == b.len(),
        a@ != b@,
    ensures
        r == one_substitution(a@, b@),
{
    let mut diff: usize = 0;
    let mut first: usize = 0;
    let mut i: usize = 0;
    while i < a.len()
        invariant
            i <= a.len() == b.len(),
            diff <= 1,
            diff == 0 ==> forall|j: int| 0 <= j < i ==> a@[j] == b@[j],
            diff == 1 ==> first < i && a@[first as int] != b@[first as int] && forall|j: int|
                0 <= j < i && j != first ==> a@[j] == b@[j],
        decreases a.len() - i,
    {
        if a[i] != b[i] {
            if diff == 1 {
                assert forall|k: int| 0 <= k < a.len() implies #[trigger] a@.update(k, b@[k]) != b@ by {
                    if k == first {
                        assert(a@.update(k, b@[k])[i as int] != b@[i as int]);
                    } else {
                        assert(a@.update(k, b@[k])[first as int] != b@[first as int]);
                    }
                }
                return false;
            }
            diff = 1;
            first = i;
        }
        i += 1;
    }
    if diff == 0 {
        assert(a@ =~= b@);
    }
    assert(a@.update(first as int, b@[first as int]) =~= b@);
    true
}

fn near_deletion(l: &[u8], s: &[u8]) -> (r: bool)
    requires
        l.len() == s.len() + 1,
    ensures
        r == one_deletion(l@, s@),
{
    let mut p: usize = 0;
    while p < s.len() && s[p] == l[p]
        invariant
            p <= s.len(),
            l.len() == s.len() + 1,
            forall|j: int| 0 <= j < p ==> s@[j] == l@[j],
        decreases s.len() - p,
    {
        p += 1;
    }
    let mut q: usize = p;
    while q < s.len()
        invariant
            p <= q <= s.len(),
            l.len() == s.len() + 1,
            forall|j: int| 0 <= j < p ==> s@[j] == l@[j],
            p < s.len() ==> s@[p as int] != l@[p as int],
            forall|j: int| p <= j < q ==> s@[j] == l@[j + 1],
        decreases s.len() - q,
    {
        if s[q] != l[q + 1] {
            assert forall|k: int| 0 <= k < l.len() implies #[trigger] l@.remove(k) != s@ by {
                if k <= q {
                    assert(l@.remove(k)[q as int] == l@[q + 1]);
                } else {
                    assert(l@.remove(k)[p as int] == l@[p as int]);
                }
            }
            return false;
        }
        q += 1;
    }
    assert(l@.remove(p as int) =~= s@);
    true
}

/// Whether `a` and `b` are one edit apart (and not equal).
pub fn is_near_match(a: &[u8], b: &[u8]) -> (r: bool)
    ensures
        r == near_match(a@, b@),
{
    if bytes_equal(a, b) {
        return false;
    }
    if a.len() == b.len() {
        near_same_length(a, b)
    } else if b.len() < a.len() && a.len() - b.len() == 1 {
        near_deletion(a, b)
    } else if a.len() < b.len() && b.len() - a.len() == 1 {
        near_deletion(b, a)
    } else {
        false
    }
}

// ---------------------------------------------------------------------------
// Name spoofing
// ---------------------------------------------------------------------------
pub open spec fn high_value_names() -> Seq<Seq<char>> {
    seq![
        "svchost.exe"@, "lsass.exe"@, "csrss.exe"@, "smss.exe"@, "winlogon.exe"@, "services.exe"@,
        "explorer.exe"@, "dwm.exe"@, "taskhostw.exe"@, "runtimebroker.exe"@,
    ]
}

pub open spec fn known_typos() -> Seq<Seq<char>> {
    seq![
        "scvhost.exe"@, "svhost.exe"@, "svchosts.exe"@, "lsasss.exe"@, "csrss.exe.exe"@,
        "explorer.exe.exe"@, "svch0st.exe"@, "svchost.exc"@,
    ]
}

fn high_value_name_list() -> (v: Vec<&'static str>)
    ensures
        strs(v@) == high_value_names(),
{
    let v = vec![
        "svchost.exe", "lsass.exe", "csrss.exe", "smss.exe", "winlogon.exe", "services.exe",
        "explorer.exe", "dwm.exe", "taskhostw.exe", "runtimebroker.exe",
    ];
    assert(strs(v@) =~= high_value_names());
    v
}

fn known_typo_list() -> (v: Vec<&'static str>)
    ensures
        strs(v@) == known_typos(),
{
    let v = vec![
        "scvhost.exe", "svhost.exe", "svchosts.exe", "lsasss.exe", "csrss.exe.exe",
        "explorer.exe.exe", "svch0st.exe", "svchost.exc",
    ];
    assert(strs(v@) =~= known_typos());
    v
}

/// The first high-value name, from index `k` on, that `lowered` nearly matches.
pub open spec fn near_target_from(lowered: Seq<char>, k: int) -> Option<Seq<char>>
    decreases high_value_names().len() - k,
{
    if k < 0 || k >= high_value_names().len() {
        None
    } else if near_match(vstd::utf8::encode_utf8(lowered), vstd::utf8::encode_utf8(high_value_names()[k])) {
        Some(high_value_names()[k])
    } else {
        near_target_from(lowered, k + 1)
    }
}

/// What [`check_name_spoofing`] reports for a process named `name`.
pub open spec fn name_spoofing(name: Seq<char>) -> Option<FactorSpec> {
    let lowered = unicode_lower(name);
    if known_typos().contains(lowered) {
        Some(fspec(RiskCategory::FilePath, "name_typosquat"@, 30, "进程名 "@ + name + " 疑似仿冒系统进程"@))
    } else {
        match near_target_from(lowered, 0) {
            Some(t) => Some(fspec(RiskCategory::FilePath, "name_near_match"@, 25,
                "进程名 "@ + name + " 与系统进程 "@ + t + " 高度相似"@)),
            None => None,
        }
    }
}

pub open spec fn opt_factor_view(f: Option<RiskFactor>) -> Option<FactorSpec> {
    match f {
        Some(x) => Some(x@),
        None => None,
    }
}

/// Flags a process name that is a known typo of, or one edit away from, a
/// high-value system process name.
pub fn check_name_spoofing(name: &str) -> (r: Option<RiskFactor>)
    ensures
        opt_factor_view(r) == name_spoofing(name@),
{
    let lowered = lower_chars(name);
    let typos = known_typo_list();
    if in_list(&lowered, &typos) {
        let mut d = String::from_str("进程名 ");
        d.append(name);
        d.append(" 疑似仿冒系统进程");
        return Some(factor_owned(RiskCategory::FilePath, "name_typosquat", 30, d));
    }
    let lowered_str = to_lower(name);
    let lb = lowered_str.as_str().as_bytes();
    let targets = high_value_name_list();
    let mut k: usize = 0;
    while k < targets.len()
        invariant
            k <= targets.len(),
            strs(targets@) == high_value_names(),
            lowered@ == unicode_lower(name@),
            !known_typos().contains(unicode_lower(name@)),
            lb@ == vstd::utf8::encode_utf8(unicode_lower(name@)),
            near_target_from(unicode_lower(name@), 0) == near_target_from(unicode_lower(name@), k as int),
        decreases targets.len() - k,
    {
        let t = targets[k];
        if is_near_match(lb, t.as_bytes()) {
            assert(strs(targets@)[k as int] == t@);
            let mut d = String::from_str("进程名 ");
            d.append(name);
            d.append(" 与系统进程 ");
            d.append(t);
            d.append(" 高度相似");
            return Some(factor_owned(RiskCategory::FilePath, "name_near_match", 25, d));
        }
        assert(strs(targets@)[k as int] == t@);
        k += 1;
    }
    None
}

// ---------------------------------------------------------------------------
// Resource anomaly
// ---------------------------------------------------------------------------
pub const MIB: u64 = 1048576;

/// `n / d` rounded to the nearest integer, ties to even (how `{:.0}` prints).
pub open spec fn round_half_even(n: nat, d: nat) -> nat
    recommends
        d > 0,
{
    let q = n / d;
    let r = n % d;
    if 2 * r > d || (2 * r == d && q % 2 == 1) {
        q + 1
    } else {
        q
    }
}

pub fn round_half_even_exec(n: u64, d: u64) -> (r: u128)
    requires
        d > 0,
    ensures
        r == round_half_even(n as nat, d as nat),
{
    let q = n / d;
    let r = n % d;
    let twice: u128 = 2 * (r as u128);
    if twice > d as u128 || (twice == d as u128 && q % 2 == 1) {
        q as u128 + 1
    } else {
        q as u128
    }
}

pub open spec fn compute_app_markers() -> Seq<Seq<char>> {
    seq!["miner"@, "xmrig"@, "cgminer"@, "bminer"@, "ethminer"@, "nbminer"@, "t-rex"@, "phoenixminer"@]
}

fn compute_app_marker_list() -> (v: Vec<&'static str>)
    ensures
        strs(v@) == compute_app_markers(),
{
    let v = vec!["miner", "xmrig", "cgminer", "bminer", "ethminer", "nbminer", "t-rex", "phoenixminer"];
    assert(strs(v@) =~= compute_app_markers());
    v
}

/// The process is known compute work by its lowered name.
pub open spec fn is_known_compute(lowered: Seq<char>) -> bool {
    (exists|j: int| 0 <= j < compute_app_markers().len() && #[trigger] has_sub(lowered, compute_app_markers()[j]))
        || hs(lowered, "compile") || hs(lowered, "build") || hs(lowered, "render")
}

pub open spec fn resource_anomaly(p: ProcessInfo) -> Option<FactorSpec> {
    if p.cpu_usage_x100 > 8000 && p.memory > 100 * MIB && p.memory < 2048 * MIB
        && !is_known_compute(unicode_lower(p.name@)) {
        Some(fspec(RiskCategory::CommandLine, "resource_anomaly"@, 10,
            "高资源占用异常 (CPU "@ + decimal(round_half_even(p.cpu_usage_x100 as nat, 100)) + "%, MEM "@
                + decimal(round_half_even(p.memory as nat, MIB as nat)) + "MB)"@))
    } else {
        None
    }
}

/// Flags a busy process (over 80% CPU, 100 MB to 2 GB of memory) whose name
/// does not mark it as known compute work.
pub fn check_resource_anomaly(p: &ProcessInfo) -> (r: Option<RiskFactor>)
    ensures
        opt_factor_view(r) == resource_anomaly(*p),
{
    if p.cpu_usage_x100 > 8000 && p.memory > 100 * MIB && p.memory < 2048 * MIB {
        let lowered = lower_chars(p.name.as_str());
        let markers = compute_app_marker_list();
        let known = has_any(&lowered, &markers) || has_lit(&lowered, "compile") || has_lit(&lowered, "build")
            || has_lit(&lowered, "render");
        if !known {
            let mut d = String::from_str("高资源占用异常 (CPU ");
            push_decimal(&mut d, round_half_even_exec(p.cpu_usage_x100 as u64, 100));
            d.append("%, MEM ");
            push_decimal(&mut d, round_half_even_exec(p.memory, MIB));
            d.append("MB)");
            return Some(factor_owned(RiskCategory::CommandLine, "resource_anomaly", 10, d));
        }
    }
    None
}

// ---------------------------------------------------------------------------
// Child explosion
// ---------------------------------------------------------------------------
/// Number of processes among `all` whose parent is `pid`.
pub open spec fn child_count(all: Seq<ProcessInfo>, pid: u32) -> nat
    decreases all.len(),
{
    if all.len() == 0 {
        0
    } else {
        child_count(all.drop_last(), pid) + if all.last().parent_pid == Some(pid) {
            1nat
        } else {
            0nat
        }
    }
}

pub open spec fn legit_multi_names() -> Seq<Seq<char>> {
    seq![
        "svchost.exe"@, "services.exe"@, "explorer.exe"@, "code.exe"@, "devenv.exe"@, "chrome.exe"@,
        "msedge.exe"@, "firefox.exe"@, "idea64.exe"@, "javaw.exe"@,
    ]
}

fn legit_multi_list() -> (v: Vec<&'static str>)
    ensures
        strs(v@) == legit_multi_names(),
{
    let v = vec![
        "svchost.exe", "services.exe", "explorer.exe", "code.exe", "devenv.exe", "chrome.exe",
        "msedge.exe", "firefox.exe", "idea64.exe", "javaw.exe",
    ];
    assert(strs(v@) =~= legit_multi_names());
    v
}

pub open spec fn child_explosion(p: ProcessInfo, all: Seq<ProcessInfo>) -> Option<FactorSpec> {
    let n = child_count(all, p.pid);
    if n > 20 && !legit_multi_names().contains(unicode_lower(p.name@)) {
        Some(fspec(RiskCategory::ParentChain, "child_explosion"@, 15, "产生 "@ + decimal(n) + " 个子进程"@))
    } else {
        None
    }
}

/// Counts the children of `pid` among `all`.
pub fn count_children(all: &[ProcessInfo], pid: u32) -> (n: usize)
    ensures
        n == child_count(all@, pid),
{
    let mut n: usize = 0;
    let mut i: usize = 0;
    while i < all.len()
        invariant
            i <= all.len(),
            n == child_count(all@.take(i as int), pid),
            n <= i,
        decreases all.len() - i,
    {
        assert(all@.take(i + 1).drop_last() =~= all@.take(i as int));
        if all[i].parent_pid == Some(pid) {
            n += 1;
        }
        i += 1;
    }
    assert(all@.take(all.len() as int) =~= all@);
    n
}

/// Flags a process with more than 20 children unless it is a program known to
/// run many.
pub fn check_child_explosion(p: &ProcessInfo, all: &[ProcessInfo]) -> (r: Option<RiskFactor>)
    ensures
        opt_factor_view(r) == child_explosion(*p, all@),
{
    let n = count_children(all, p.pid);
    if n > 20 {
        let lowered = lower_chars(p.name.as_str());
        let legit = legit_multi_list();
        if !in_list(&lowered, &legit) {
            let mut d = String::from_str("产生 ");
            push_decimal(&mut d, n as u128);
            d.append(" 个子进程");
            return Some(factor_owned(RiskCategory::ParentChain, "child_explosion", 15, d));
        }
    }
    None
}

// ---------------------------------------------------------------------------
// Privilege escalation
// ---------------------------------------------------------------------------
pub open spec fn privilege_escalation(p: ProcessInfo) -> Option<FactorSpec> {
    match p.user_id {
        None => None,
        Some(u) => {
            let user = u@;
            let is_system = hs(user, "SYSTEM") || hs(user, "LocalSystem");
            let is_service = hs(user, "NETWORK SERVICE") || hs(user, "LOCAL SERVICE");
            let exe = unicode_lower(opt_view(p.exe));
            let user_writable = hs(exe, "\\users\\") && !hs(exe, "\\program files") && !hs(exe, "\\windows\\");
            if (is_system || is_service) && user_writable {
                Some(fspec(RiskCategory::Privilege, "privilege_escalation"@, 30, "以 "@ + user + " 身份运行用户目录程序"@))
            } else {
                None
            }
        },
    }
}

/// Flags a system or service account running a program from a user directory.
pub fn check_privilege_escalation(p: &ProcessInfo) -> (r: Option<RiskFactor>)
    ensures
        opt_factor_view(r) == privilege_escalation(*p),
{
    let user = match &p.user_id {
        Some(u) => u,
        None => return None,
    };
    let uc = chars_of(user.as_str());
    let is_system = has_lit(&uc, "SYSTEM") || has_lit(&uc, "LocalSystem");
    let is_service = has_lit(&uc, "NETWORK SERVICE") || has_lit(&uc, "LOCAL SERVICE");
    if !is_system && !is_service {
        return None;
    }
    let exe = lower_chars(opt_str(&p.exe));
    let user_writable = has_lit(&exe, "\\users\\") && !has_lit(&exe, "\\program files") && !has_lit(&exe, "\\windows\\");
    if user_writable {
        let mut d = String::from_str("以 ");
        d.append(user.as_str());
        d.append(" 身份运行用户目录程序");
        return Some(factor_owned(RiskCategory::Privilege, "privilege_escalation", 30, d));
    }
    None
}

// ---------------------------------------------------------------------------
// svchost integrity
// ---------------------------------------------------------------------------
/// The first process of `all` with pid `pid`.
pub open spec fn find_pid(all: Seq<ProcessInfo>, pid: u32) -> Option<ProcessInfo>
    decreases all.len(),
{
    if all.len() == 0 {
        None
    } else if all[0].pid == pid {
        Some(all[0])
    } else {
        find_pid(all.drop_first(), pid)
    }
}

pub open spec fn parent_is_services(p: ProcessInfo, all: Seq<ProcessInfo>) -> bool {
    match p.parent_pid {
        Some(ppid) => match find_pid(all, ppid) {
            Some(parent) => unicode_lower(parent.name@) == "services.exe"@,
            None => false,
        },
        None => false,
    }
}

pub open spec fn svchost_violations(p: ProcessInfo, all: Seq<ProcessInfo>) -> Seq<Seq<char>> {
    let cmd = unicode_lower(join(p.cmd@.map_values(|s: String| s@), " "@));
    let missing_k = !hs(cmd, "-k ") && !hs(cmd, "/k ");
    (if missing_k { seq!["缺少 -k 参数"@] } else { Seq::empty() })
        + (if !parent_is_services(p, all) { seq!["父进程非 services.exe"@] } else { Seq::empty() })
}

pub open spec fn svchost_integrity(p: ProcessInfo, all: Seq<ProcessInfo>) -> Option<FactorSpec> {
    let exe = unicode_lower(opt_view(p.exe));
    if unicode_lower(p.name@) != "svchost.exe"@ {
        None
    } else if !(hs(exe, "\\windows\\system32\\") || hs(exe, "\\windows\\syswow64\\")) {
        Some(fspec(RiskCategory::FilePath, "svchost_wrong_path"@, 30, "svchost.exe 不在系统目录"@))
    } else if svchost_violations(p, all).len() > 0 {
        Some(fspec(RiskCategory::ParentChain, "svchost_integrity"@, 20,
            "svchost.exe 异常: "@ + join(svchost_violations(p, all), ", "@)))
    } else {
        None
    }
}

/// Index of the first process of `all` with pid `pid`.
pub fn find_pid_index(all: &[ProcessInfo], pid: u32) -> (r: Option<usize>)
    ensures
        match r {
            Some(i) => i < all.len() && find_pid(all@, pid) == Some(all@[i as int]),
            None => find_pid(all@, pid).is_none(),
        },
{
    assert(all@.subrange(0, all@.len() as int) =~= all@);
    let mut i: usize = 0;
    while i < all.len()
        invariant
            i <= all.len(),
            find_pid(all@, pid) == find_pid(all@.subrange(i as int, all.len() as int), pid),
        decreases all.len() - i,
    {
        let ghost rest = all@.subrange(i as int, all.len() as int);
        assert(rest[0] == all@[i as int]);
        if all[i].pid == pid {
            return Some(i);
        }
        assert(rest.drop_first() =~= all@.subrange(i + 1, all.len() as int));
        i += 1;
    }
    None
}

/// Checks that `svchost.exe` runs from the system directories, carries a `-k`
/// group and was started by `services.exe`.
pub fn check_svchost_integrity(p: &ProcessInfo, all: &[ProcessInfo]) -> (r: Option<RiskFactor>)
    ensures
        opt_factor_view(r) == svchost_integrity(*p, all@),
{
    proof {
        assert(all@.subrange(0, all@.len() as int) =~= all@);
    }
    let name = lower_chars(p.name.as_str());
    if !is_lit(&name, "svchost.exe") {
        return None;
    }
    let exe = lower_chars(opt_str(&p.exe));
    let in_system_dir = has_lit(&exe, "\\windows\\system32\\") || has_lit(&exe, "\\windows\\syswow64\\");
    if !in_system_dir {
        return Some(factor(RiskCategory::FilePath, "svchost_wrong_path", 30, "svchost.exe 不在系统目录"));
    }
    let mut violations: Vec<String> = Vec::new();
    let joined = crate::text::join_strings(p.cmd.as_slice(), " ");
    let cmd = lower_chars(joined.as_str());
    assert(p.cmd@.map_values(|s: String| s@) =~= crate::text::views(p.cmd@));
    let missing_k = !has_lit(&cmd, "-k ") && !has_lit(&cmd, "/k ");
    if missing_k {
        violations.push(String::from_str("缺少 -k 参数"));
    }
    let parent_ok = match p.parent_pid {
        Some(ppid) => match find_pid_index(all, ppid) {
            Some(i) => {
                let pn = lower_chars(all[i].name.as_str());
                is_lit(&pn, "services.exe")
            },
            None => false,
        },
        None => false,
    };
    if !parent_ok {
        violations.push(String::from_str("父进程非 services.exe"));
    }
    assert(crate::text::views(violations@) =~= svchost_violations(*p, all@));
    if violations.len() > 0 {
        let mut d = String::from_str("svchost.exe 异常: ");
        let j = crate::text::join_strings(violations.as_slice(), ", ");
        d.append(j.as_str());
        return Some(factor_owned(RiskCategory::ParentChain, "svchost_integrity", 20, d));
    }
    None
}

// ---------------------------------------------------------------------------
// Renamed binaries
// ---------------------------------------------------------------------------
pub open spec fn known_mismatch(a: Seq<char>, b: Seq<char>) -> bool {
    (a == "windowsterminal.exe"@ && b == "wt.exe"@) || (a == "wt.exe"@ && b == "windowsterminal.exe"@)
}

pub open spec fn name_path_mismatch(p: ProcessInfo) -> Option<FactorSpec> {
    match p.exe {
        None => None,
        Some(exe) => {
            let file = unicode_lower(last_segment(exe@, '\\'));
            let name = unicode_lower(p.name@);
            if file.len() == 0 || file == name || known_mismatch(name, file) || known_mismatch(file, name) {
                None
            } else {
                Some(fspec(RiskCategory::FilePath, "name_path_mismatch"@, 15,
                    "进程名 "@ + p.name@ + " 与文件名 "@ + file + " 不一致"@))
            }
        },
    }
}

/// Flags a process whose name differs from its executable's file name.
pub fn check_name_path_mismatch(p: &ProcessInfo) -> (r: Option<RiskFactor>)
    ensures
        opt_factor_view(r) == name_path_mismatch(*p),
{
    let exe = match &p.exe {
        Some(e) => e,
        None => return None,
    };
    let ec = chars_of(exe.as_str());
    let seg = after_last(&ec, '\\');
    let seg_s = crate::text::string_of(&seg, 0, seg.len());
    assert(seg@.subrange(0, seg@.len() as int) =~= seg@);
    let file_str = to_lower(seg_s.as_str());
    let file = chars_of(file_str.as_str());
    let name = lower_chars(p.name.as_str());
    if file.len() == 0 || crate::text::same_chars(&file, &name) {
        return None;
    }
    let wt_pair = (is_lit(&name, "windowsterminal.exe") && is_lit(&file, "wt.exe"))
        || (is_lit(&name, "wt.exe") && is_lit(&file, "windowsterminal.exe"));
    if wt_pair {
        return None;
    }
    let mut d = String::from_str("进程名 ");
    d.append(p.name.as_str());
    d.append(" 与文件名 ");
    d.append(file_str.as_str());
    d.append(" 不一致");
    Some(factor_owned(RiskCategory::FilePath, "name_path_mismatch", 15, d))
}

} // verus!
