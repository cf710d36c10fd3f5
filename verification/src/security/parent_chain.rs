//! Parent-chain rules: Office spawning a shell, suspicious orphans, deep
//! chains, shells with no known legitimate ancestor.
use vstd::prelude::*;
use crate::process::{lemma_walk_bound, lookup, lookup_index, opt_str, opt_view, vec_has_u32, ProcessInfo};
use crate::security::score::{factor, factor_owned, factor_views, fspec, opt_factor, push_when, FactorSpec, RiskCategory, RiskFactor};
use crate::text::{decimal, has_lit, hs, in_list, lower_chars, push_decimal, strs, unicode_lower};

verus! {

pub open spec fn office_apps() -> Seq<Seq<char>> {
    seq![
        "winword.exe"@, "excel.exe"@, "powerpnt.exe"@, "outlook.exe"@, "msaccess.exe"@, "mspub.exe"@,
        "visio.exe"@, "project.exe"@, "onenote.exe"@, "onenotem.exe"@,
    ]
}

pub open spec fn shell_processes() -> Seq<Seq<char>> {
    seq!["cmd.exe"@, "powershell.exe"@, "pwsh.exe"@, "wscript.exe"@, "cscript.exe"@, "mshta.exe"@]
}

pub open spec fn legitimate_ancestors() -> Seq<Seq<char>> {
    seq![
        "explorer.exe"@, "cmd.exe"@, "powershell.exe"@, "pwsh.exe"@, "windowsterminal.exe"@, "wt.exe"@,
        "conhost.exe"@, "devenv.exe"@, "code.exe"@, "idea64.exe"@, "webstorm64.exe"@, "bash.exe"@,
        "sh.exe"@, "git-bash.exe"@, "services.exe"@, "svchost.exe"@, "wininit.exe"@, "taskeng.exe"@,
        "taskhostw.exe"@,
    ]
}

pub open spec fn common_orphans() -> Seq<Seq<char>> {
    seq![
        "conhost.exe"@, "sihost.exe"@, "taskhostw.exe"@, "ctfmon.exe"@, "dllhost.exe"@, "dwm.exe"@,
        "fontdrvhost.exe"@, "runtimebroker.exe"@, "searchhost.exe"@, "shellexperiencehost.exe"@,
        "startmenuexperiencehost.exe"@,
    ]
}

fn office_app_list() -> (v: Vec<&'static str>)
    ensures
        strs(v@) == office_apps(),
{
    let v = vec![
        "winword.exe", "excel.exe", "powerpnt.exe", "outlook.exe", "msaccess.exe", "mspub.exe",
        "visio.exe", "project.exe", "onenote.exe", "onenotem.exe",
    ];
    assert(strs(v@) =~= office_apps());
    v
}

fn shell_list() -> (v: Vec<&'static str>)
    ensures
        strs(v@) == shell_processes(),
{
    let v = vec!["cmd.exe", "powershell.exe", "pwsh.exe", "wscript.exe", "cscript.exe", "mshta.exe"];
    assert(strs(v@) =~= shell_processes());
    v
}

fn legitimate_ancestor_list() -> (v: Vec<&'static str>)
    ensures
        strs(v@) == legitimate_ancestors(),
{
    let v = vec![
        "explorer.exe", "cmd.exe", "powershell.exe", "pwsh.exe", "windowsterminal.exe", "wt.exe",
        "conhost.exe", "devenv.exe", "code.exe", "idea64.exe", "webstorm64.exe", "bash.exe",
        "sh.exe", "git-bash.exe", "services.exe", "svchost.exe", "wininit.exe", "taskeng.exe",
        "taskhostw.exe",
    ];
    assert(strs(v@) =~= legitimate_ancestors());
    v
}

fn common_orphan_list() -> (v: Vec<&'static str>)
    ensures
        strs(v@) == common_orphans(),
{
    let v = vec![
        "conhost.exe", "sihost.exe", "taskhostw.exe", "ctfmon.exe", "dllhost.exe", "dwm.exe",
        "fontdrvhost.exe", "runtimebroker.exe", "searchhost.exe", "shellexperiencehost.exe",
        "startmenuexperiencehost.exe",
    ];
    assert(strs(v@) =~= common_orphans());
    v
}

/// The parent to walk to from `p` (whose pid is `cur`): a set parent pid
/// that is neither 0 nor `cur` itself.
pub open spec fn step_parent(p: ProcessInfo, cur: u32) -> Option<u32> {
    match p.parent_pid {
        Some(pp) => if pp > 0 && pp != cur {
            Some(pp)
        } else {
            None
        },
        None => None,
    }
}

/// Number of processes on the ancestor walk from `cur`: it stops at a pid
/// that `all` lacks, at a pid already visited, or after a process without a
/// usable parent (which is counted).
pub open spec fn depth_from(all: Seq<ProcessInfo>, cur: u32, visited: Seq<u32>, fuel: nat) -> nat
    decreases fuel,
{
    if fuel == 0 {
        0
    } else {
        match lookup(all, cur) {
            None => 0,
            Some(p) => if visited.contains(cur) {
                0
            } else {
                1 + match step_parent(p, cur) {
                    None => 0,
                    Some(pp) => depth_from(all, pp, visited.push(cur), (fuel - 1) as nat),
                }
            },
        }
    }
}

/// Length of the ancestor chain of `pid` (the walk visits distinct pids of
/// `all`, so `all.len() + 1` steps always reach its end).
pub open spec fn chain_depth_of(all: Seq<ProcessInfo>, pid: u32) -> nat {
    depth_from(all, pid, Seq::empty(), (all.len() + 1) as nat)
}

/// Whether the ancestor walk from `cur` meets a parent whose lowered name is
/// a known legitimate ancestor.
pub open spec fn legit_ancestor_from(all: Seq<ProcessInfo>, cur: u32, visited: Seq<u32>, fuel: nat) -> bool
    decreases fuel,
{
    if fuel == 0 {
        false
    } else {
        match lookup(all, cur) {
            None => false,
            Some(p) => if visited.contains(cur) {
                false
            } else {
                match step_parent(p, cur) {
                    None => false,
                    Some(pp) => (match lookup(all, pp) {
                        Some(parent) => legitimate_ancestors().contains(unicode_lower(parent.name@)),
                        None => false,
                    }) || legit_ancestor_from(all, pp, visited.push(cur), (fuel - 1) as nat),
                }
            },
        }
    }
}

pub open spec fn has_legit_ancestor(all: Seq<ProcessInfo>, pid: u32) -> bool {
    legit_ancestor_from(all, pid, Seq::empty(), (all.len() + 1) as nat)
}

/// Counts the processes on the ancestor chain of `pid`.
pub fn chain_depth(pid: u32, all: &[ProcessInfo]) -> (d: usize)
    ensures
        d == chain_depth_of(all@, pid),
        d <= all.len(),
{
    let ghost fuel = (all.len() + 1) as nat;
    let mut depth: usize = 0;
    let mut cur = pid;
    let mut visited: Vec<u32> = Vec::new();
    loop
        invariant_except_break
            depth + depth_from(all@, cur, visited@, (fuel - depth) as nat) == chain_depth_of(all@, pid),
        invariant
            fuel == all.len() + 1,
            visited@.len() == depth,
            visited@.no_duplicates(),
            forall|i: int| 0 <= i < visited@.len() ==> #[trigger] lookup(all@, visited@[i]).is_some(),
            depth <= all.len(),
        ensures
            depth == chain_depth_of(all@, pid),
        decreases all.len() - depth,
    {
        let idx = match lookup_index(all, cur) {
            Some(i) => i,
            None => break,
        };
        if vec_has_u32(&visited, cur) {
            break;
        }
        let ghost old_visited = visited@;
        visited.push(cur);
        proof {
            assert forall|i: int| 0 <= i < visited@.len() implies #[trigger] lookup(all@, visited@[i]).is_some() by {
                if i < old_visited.len() {
                    assert(visited@[i] == old_visited[i]);
                }
            }
            assert(visited@.no_duplicates()) by {
                assert forall|i: int, j: int| 0 <= i < visited@.len() && 0 <= j < visited@.len() && i != j
                    implies visited@[i] != visited@[j] by {
                    if i < old_visited.len() && j < old_visited.len() {
                        assert(visited@[i] == old_visited[i] && visited@[j] == old_visited[j]);
                    } else if i < old_visited.len() {
                        assert(old_visited.contains(visited@[i]));
                    } else {
                        assert(old_visited.contains(visited@[j]));
                    }
                }
            }
            lemma_walk_bound(all@, visited@);
        }
        depth += 1;
        let p = &all[idx];
        match p.parent_pid {
            Some(pp) => {
                if pp > 0 && pp != cur {
                    cur = pp;
                } else {
                    break;
                }
            },
            None => break,
        }
    }
    depth
}

/// Whether some ancestor of `pid` is a known legitimate parent of shells.
pub fn find_legit_ancestor(pid: u32, all: &[ProcessInfo]) -> (b: bool)
    ensures
        b == has_legit_ancestor(all@, pid),
{
    let ghost fuel = (all.len() + 1) as nat;
    let legit = legitimate_ancestor_list();
    let mut steps: usize = 0;
    let mut cur = pid;
    let mut visited: Vec<u32> = Vec::new();
    loop
        invariant
            fuel == all.len() + 1,
            strs(legit@) == legitimate_ancestors(),
            visited@.len() == steps,
            visited@.no_duplicates(),
            forall|i: int| 0 <= i < visited@.len() ==> #[trigger] lookup(all@, visited@[i]).is_some(),
            steps <= all.len(),
            legit_ancestor_from(all@, cur, visited@, (fuel - steps) as nat) == has_legit_ancestor(all@, pid),
        decreases all.len() - steps,
    {
        let idx = match lookup_index(all, cur) {
            Some(i) => i,
            None => return false,
        };
        if vec_has_u32(&visited, cur) {
            return false;
        }
        let ghost old_visited = visited@;
        visited.push(cur);
        proof {
            assert forall|i: int| 0 <= i < visited@.len() implies #[trigger] lookup(all@, visited@[i]).is_some() by {
                if i < old_visited.len() {
                    assert(visited@[i] == old_visited[i]);
                }
            }
            assert(visited@.no_duplicates()) by {
                assert forall|i: int, j: int| 0 <= i < visited@.len() && 0 <= j < visited@.len() && i != j
                    implies visited@[i] != visited@[j] by {
                    if i < old_visited.len() && j < old_visited.len() {
                        assert(visited@[i] == old_visited[i] && visited@[j] == old_visited[j]);
                    } else if i < old_visited.len() {
                        assert(old_visited.contains(visited@[i]));
                    } else {
                        assert(old_visited.contains(visited@[j]));
                    }
                }
            }
            lemma_walk_bound(all@, visited@);
        }
        steps += 1;
        let p = &all[idx];
        match p.parent_pid {
            Some(pp) => {
                if pp > 0 && pp != cur {
                    match lookup_index(all, pp) {
                        Some(j) => {
                            let pn = lower_chars(all[j].name.as_str());
                            if in_list(&pn, &legit) {
                                return true;
                            }
                        },
                        None => {},
                    }
                    cur = pp;
                } else {
                    return false;
                }
            },
            None => return false,
        }
    }
}

/// What [`check_suspicious_ancestor`] reports.
pub open spec fn unknown_ancestor_factor() -> FactorSpec {
    fspec(RiskCategory::ParentChain, "unknown_ancestor_shell"@, 10, "Shell 进程无已知合法祖先"@)
}

/// Flags a process none of whose ancestors is a known legitimate parent.
pub fn check_suspicious_ancestor(pid: u32, all: &[ProcessInfo]) -> (r: Option<RiskFactor>)
    ensures
        match r {
            Some(f) => !has_legit_ancestor(all@, pid) && f@ == unknown_ancestor_factor(),
            None => has_legit_ancestor(all@, pid),
        },
{
    if find_legit_ancestor(pid, all) {
        None
    } else {
        Some(factor(RiskCategory::ParentChain, "unknown_ancestor_shell", 10, "Shell 进程无已知合法祖先"))
    }
}

pub open spec fn office_spawning_shell(p: ProcessInfo, all: Seq<ProcessInfo>) -> Seq<FactorSpec> {
    if shell_processes().contains(unicode_lower(p.name@)) {
        match p.parent_pid {
            Some(ppid) => match lookup(all, ppid) {
                Some(parent) => opt_factor(office_apps().contains(unicode_lower(parent.name@)),
                    fspec(RiskCategory::ParentChain, "office_spawning_shell"@, 30,
                        "Office 程序 "@ + parent.name@ + " 启动了 "@ + p.name@)),
                None => Seq::empty(),
            },
            None => Seq::empty(),
        }
    } else {
        Seq::empty()
    }
}

pub open spec fn suspicious_orphan(p: ProcessInfo, all: Seq<ProcessInfo>) -> bool {
    let exe = unicode_lower(opt_view(p.exe));
    match p.parent_pid {
        Some(ppid) => ppid > 0 && lookup(all, ppid).is_none() && ppid != 4
            && !common_orphans().contains(unicode_lower(p.name@))
            && (hs(exe, "\\temp\\") || hs(exe, "\\downloads") || hs(exe, "\\appdata\\local\\temp")),
        None => false,
    }
}

pub open spec fn deep_chain_description(depth: nat) -> Seq<char> {
    "进程链深度 "@ + decimal(depth) + "（超过 10 层）"@
}

/// Every factor that [`analyze_parent_chain`] reports, in order.
pub open spec fn parent_chain_factors(p: ProcessInfo, all: Seq<ProcessInfo>) -> Seq<FactorSpec> {
    let depth = chain_depth_of(all, p.pid);
    office_spawning_shell(p, all)
        + opt_factor(suspicious_orphan(p, all), fspec(RiskCategory::ParentChain, "suspicious_orphan"@, 10,
            "可疑孤儿进程（父进程已退出且位于异常路径）"@))
        + opt_factor(depth > 10, fspec(RiskCategory::ParentChain, "deep_chain"@, 5, deep_chain_description(depth)))
        + opt_factor(shell_processes().contains(unicode_lower(p.name@)) && !has_legit_ancestor(all, p.pid),
            unknown_ancestor_factor())
}

/// Analyses the parentage of `p` among the running processes `all`.
pub fn analyze_parent_chain(p: &ProcessInfo, all: &[ProcessInfo]) -> (r: Vec<RiskFactor>)
    ensures
        factor_views(r@) == parent_chain_factors(*p, all@),
{
    let mut v: Vec<RiskFactor> = Vec::new();
    let ghost start = factor_views(v@);
    assert(start =~= Seq::<FactorSpec>::empty());
    let name = lower_chars(p.name.as_str());
    let shells = shell_list();
    let is_shell = in_list(&name, &shells);
    if is_shell {
        match p.parent_pid {
            Some(ppid) => match lookup_index(all, ppid) {
                Some(j) => {
                    let pn = lower_chars(all[j].name.as_str());
                    let offices = office_app_list();
                    let is_office = in_list(&pn, &offices);
                    let mut d = String::from_str("Office 程序 ");
                    d.append(all[j].name.as_str());
                    d.append(" 启动了 ");
                    d.append(p.name.as_str());
                    push_when(&mut v, is_office, factor_owned(RiskCategory::ParentChain, "office_spawning_shell", 30, d));
                },
                None => {},
            },
            None => {},
        }
    }
    assert(factor_views(v@) =~= start + office_spawning_shell(*p, all@));
    let orphan = match p.parent_pid {
        Some(ppid) => {
            if ppid > 0 && lookup_index(all, ppid).is_none() && ppid != 4 {
                let orphans = common_orphan_list();
                if !in_list(&name, &orphans) {
                    let exe = lower_chars(opt_str(&p.exe));
                    has_lit(&exe, "\\temp\\") || has_lit(&exe, "\\downloads") || has_lit(&exe, "\\appdata\\local\\temp")
                } else {
                    false
                }
            } else {
                false
            }
        },
        None => false,
    };
    push_when(&mut v, orphan, factor(RiskCategory::ParentChain, "suspicious_orphan", 10, "可疑孤儿进程（父进程已退出且位于异常路径）"));
    let depth = chain_depth(p.pid, all);
    let mut d = String::from_str("进程链深度 ");
    push_decimal(&mut d, depth as u128);
    d.append("（超过 10 层）");
    push_when(&mut v, depth > 10, factor_owned(RiskCategory::ParentChain, "deep_chain", 5, d));
    if is_shell {
        let r = check_suspicious_ancestor(p.pid, all);
        match r {
            Some(f) => push_when(&mut v, true, f),
            None => push_when(&mut v, false, factor(RiskCategory::ParentChain, "unknown_ancestor_shell", 10, "Shell 进程无已知合法祖先")),
        }
    } else {
        push_when(&mut v, false, factor(RiskCategory::ParentChain, "unknown_ancestor_shell", 10, "Shell 进程无已知合法祖先"));
    }
    v
}

/// A shell started by an Office application is reported: when the lowered
/// name of `p` is a shell's and the lowered name of its direct parent (as
/// found in `all`) is an Office application's, the first factor is
/// `office_spawning_shell`, weight 30, naming the parent and the shell.
pub proof fn law_office_parent_of_shell_reported(p: ProcessInfo, all: Seq<ProcessInfo>, ppid: u32, parent: ProcessInfo)
    requires
        shell_processes().contains(unicode_lower(p.name@)),
        p.parent_pid == Some(ppid),
        lookup(all, ppid) == Some(parent),
        office_apps().contains(unicode_lower(parent.name@)),
    ensures
        parent_chain_factors(p, all).len() > 0,
        parent_chain_factors(p, all)[0] == fspec(RiskCategory::ParentChain, "office_spawning_shell"@, 30,
            "Office 程序 "@ + parent.name@ + " 启动了 "@ + p.name@),
{
}

/// A shell whose direct parent is not an Office application (or is not
/// running, or which has no parent) gets no `office_spawning_shell` factor;
/// neither does a process that is not a shell.
pub proof fn law_office_factor_needs_office_parent(p: ProcessInfo, all: Seq<ProcessInfo>)
    requires
        !shell_processes().contains(unicode_lower(p.name@)) || match p.parent_pid {
            Some(ppid) => match lookup(all, ppid) {
                Some(parent) => !office_apps().contains(unicode_lower(parent.name@)),
                None => true,
            },
            None => true,
        },
    ensures
        forall|i: int| 0 <= i < parent_chain_factors(p, all).len()
            ==> (#[trigger] parent_chain_factors(p, all)[i]).name != "office_spawning_shell"@,
{
    reveal_strlit("office_spawning_shell");
    reveal_strlit("suspicious_orphan");
    reveal_strlit("deep_chain");
    reveal_strlit("unknown_ancestor_shell");
    assert(office_spawning_shell(p, all) =~= Seq::<FactorSpec>::empty());
    let r = parent_chain_factors(p, all);
    assert forall|i: int| 0 <= i < r.len() implies (#[trigger] r[i]).name != "office_spawning_shell"@ by {
        assert(r[i].name.len() != "office_spawning_shell"@.len() || r[i].name[0] != 'o');
    }
}

} // verus!
