//! The process record that the rules read.
use vstd::prelude::*;

verus! {

/// What the rules know of one running process.
///
/// `cpu_usage_x100` is the CPU usage in hundredths of a percent, rounded up
/// from the sampler's floating-point value. `status` is the state the
/// sampler reports (such as `Run` or `Zombie`) and `cwd` the working
/// directory where it could be read.
#[derive(Debug, Clone)]
pub struct ProcessInfo {
    pub pid: u32,
    pub name: String,
    pub exe: Option<String>,
    pub cmd: Vec<String>,
    pub parent_pid: Option<u32>,
    pub user_id: Option<String>,
    pub memory: u64,
    pub virtual_memory: u64,
    pub cpu_usage_x100: u32,
    pub status: String,
    pub cwd: Option<String>,
    pub start_time: u64,
    pub parent_chain: Vec<(u32, String)>,
}

/// The view of an optional string (`None` reads as the empty string where
/// the rules do so).
pub open spec fn opt_view(s: Option<String>) -> Seq<char> {
    match s {
        Some(t) => t@,
        None => Seq::empty(),
    }
}

impl ProcessInfo {
    /// A process with only its identity known.
    pub fn new(pid: u32, name: &str, parent_pid: Option<u32>) -> (p: ProcessInfo)
        ensures
            p.pid == pid,
            p.name@ == name@,
            p.parent_pid == parent_pid,
            p.exe.is_none(),
            p.cmd@.len() == 0,
            p.user_id.is_none(),
            p.memory == 0,
            p.virtual_memory == 0,
            p.cpu_usage_x100 == 0,
            p.status@.len() == 0,
            p.cwd.is_none(),
            p.start_time == 0,
            p.parent_chain@.len() == 0,
    {
        ProcessInfo {
            pid,
            name: String::from_str(name),
            exe: None,
            cmd: Vec::new(),
            parent_pid,
            user_id: None,
            memory: 0,
            virtual_memory: 0,
            cpu_usage_x100: 0,
            status: String::new(),
            cwd: None,
            start_time: 0,
            parent_chain: Vec::new(),
        }
    }
}

/// The view of an optional string, as an executable copy.
pub fn opt_str(s: &Option<String>) -> (r: &str)
    ensures
        r@ == opt_view(*s),
{
    match s {
        Some(t) => t.as_str(),
        None => {
            proof {
                reveal_strlit("");
            }
            ""
        },
    }
}

} // verus!

verus! {

/// The process that a pid-keyed map built from `all` holds for `pid`: the
/// last entry of `all` with that pid.
pub open spec fn lookup(all: Seq<ProcessInfo>, pid: u32) -> Option<ProcessInfo>
    decreases all.len(),
{
    if all.len() == 0 {
        None
    } else if all.last().pid == pid {
        Some(all.last())
    } else {
        lookup(all.drop_last(), pid)
    }
}

/// The pids that occur in `all`.
pub open spec fn pids(all: Seq<ProcessInfo>) -> Set<u32> {
    all.map_values(|p: ProcessInfo| p.pid).to_set()
}

pub proof fn lemma_lookup_in_pids(all: Seq<ProcessInfo>, pid: u32)
    requires
        lookup(all, pid).is_some(),
    ensures
        pids(all).contains(pid),
    decreases all.len(),
{
    let m = all.map_values(|p: ProcessInfo| p.pid);
    if all.last().pid == pid {
        assert(m[all.len() - 1] == pid);
    } else {
        lemma_lookup_in_pids(all.drop_last(), pid);
        let m2 = all.drop_last().map_values(|p: ProcessInfo| p.pid);
        let i = choose|i: int| 0 <= i < m2.len() && m2[i] == pid;
        assert(m[i] == pid);
    }
}

/// A walk that visits distinct pids, each present in `all`, is no longer
/// than `all`.
pub proof fn lemma_walk_bound(all: Seq<ProcessInfo>, visited: Seq<u32>)
    requires
        visited.no_duplicates(),
        forall|i: int| 0 <= i < visited.len() ==> #[trigger] lookup(all, visited[i]).is_some(),
    ensures
        visited.len() <= all.len(),
{
    visited.unique_seq_to_set();
    let m = all.map_values(|p: ProcessInfo| p.pid);
    m.lemma_cardinality_of_set();
    assert forall|x: u32| visited.to_set().contains(x) implies pids(all).contains(x) by {
        let i = choose|i: int| 0 <= i < visited.len() && visited[i] == x;
        assert(lookup(all, visited[i]).is_some());
        lemma_lookup_in_pids(all, x);
    }
    vstd::set_lib::lemma_len_subset(visited.to_set(), pids(all));
}

/// Index of the entry that [`lookup`] finds.
pub fn lookup_index(all: &[ProcessInfo], pid: u32) -> (r: Option<usize>)
    ensures
        match r {
            Some(i) => i < all.len() && lookup(all@, pid) == Some(all@[i as int]),
            None => lookup(all@, pid).is_none(),
        },
{
    let mut i: usize = all.len();
    assert(all@.take(all@.len() as int) =~= all@);
    while i > 0
        invariant
            i <= all.len(),
            lookup(all@, pid) == lookup(all@.take(i as int), pid),
        decreases i,
    {
        assert(all@.take(i as int).drop_last() =~= all@.take(i - 1));
        if all[i - 1].pid == pid {
            return Some(i - 1);
        }
        i -= 1;
    }
    None
}

/// Whether `v` holds `x`.
pub fn vec_has_u32(v: &Vec<u32>, x: u32) -> (b: bool)
    ensures
        b == v@.contains(x),
{
    let mut i: usize = 0;
    while i < v.len()
        invariant
            i <= v.len(),
            forall|j: int| 0 <= j < i ==> v@[j] != x,
        decreases v.len() - i,
    {
        if v[i] == x {
            return true;
        }
        i += 1;
    }
    false
}

} // verus!
