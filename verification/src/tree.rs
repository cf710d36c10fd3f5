//! The process tree: its nodes, the anomaly counts, filtering, the visible
//! rows, search, and the expansion state kept across rebuilds.
use vstd::prelude::*;
use std::collections::HashSet;
use crate::text::{chars_of, copy_str, contains_chars, decimal, decimal_string, has_sub, join, join_strings, push_decimal, to_lower, unicode_lower, views};
use crate::process::ProcessInfo;

verus! {

/// Whether ending a process is considered safe.
#[derive(Debug, Clone, Copy, PartialEq, Eq, Structural)]
pub enum KillSafety {
    Safe,
    Caution,
}

/// Which processes the tree shows.
#[derive(Debug, Clone, Copy, PartialEq, Eq, Structural)]
pub enum TreeFilter {
    All,
    MyProcesses,
    SystemProcesses,
}

impl Default for TreeFilter {
    fn default() -> (f: TreeFilter)
        ensures
            f == TreeFilter::All,
    {
        TreeFilter::All
    }
}

/// The class of a process, as far as the tree filters tell classes apart.
#[derive(Debug, Clone, Copy, PartialEq, Eq, Structural)]
pub enum ProcessClass {
    UserApp,
    SystemProcess,
    WindowsService,
    Kernel,
    /// Any other class.
    Other,
}

/// A node of the process tree.
pub struct TreeNode {
    pub pid: u32,
    pub name: String,
    /// CPU usage in hundredths of a percent.
    pub cpu_usage_x100: u32,
    pub memory: u64,
    pub depth: usize,
    pub children: Vec<TreeNode>,
    pub expanded: bool,
    pub class: ProcessClass,
    pub is_orphan: bool,
    pub is_zombie: bool,
    pub is_stale: bool,
    pub kill_safety: Option<KillSafety>,
}

/// The number of nodes in a forest.
pub open spec fn forest_size(f: Seq<TreeNode>) -> nat
    decreases f,
{
    if f.len() == 0 {
        0
    } else {
        node_size(f[0]) + forest_size(f.subrange(1, f.len() as int))
    }
}

/// The number of nodes in a tree.
pub open spec fn node_size(n: TreeNode) -> nat
    decreases n,
{
    1 + forest_size(n.children@)
}

/// The orphans of a forest.
pub open spec fn forest_orphans(f: Seq<TreeNode>) -> nat
    decreases f,
{
    if f.len() == 0 {
        0
    } else {
        node_orphans(f[0]) + forest_orphans(f.subrange(1, f.len() as int))
    }
}

pub open spec fn node_orphans(n: TreeNode) -> nat
    decreases n,
{
    (if n.is_orphan { 1nat } else { 0nat }) + forest_orphans(n.children@)
}

/// The zombie or stale processes of a forest.
pub open spec fn forest_zombies(f: Seq<TreeNode>) -> nat
    decreases f,
{
    if f.len() == 0 {
        0
    } else {
        node_zombies(f[0]) + forest_zombies(f.subrange(1, f.len() as int))
    }
}

pub open spec fn node_zombies(n: TreeNode) -> nat
    decreases n,
{
    (if n.is_zombie || n.is_stale { 1nat } else { 0nat }) + forest_zombies(n.children@)
}

fn count_forest(tree: &[TreeNode], orphans: &mut usize, zombies: &mut usize)
    requires
        *old(orphans) + forest_orphans(tree@) <= usize::MAX,
        *old(zombies) + forest_zombies(tree@) <= usize::MAX,
    ensures
        *final(orphans) == *old(orphans) + forest_orphans(tree@),
        *final(zombies) == *old(zombies) + forest_zombies(tree@),
    decreases tree@,
{
    let ghost o0 = *orphans;
    let ghost z0 = *zombies;
    let mut i: usize = 0;
    assert(tree@.subrange(0, tree@.len() as int) =~= tree@);
    while i < tree.len()
        invariant
            i <= tree.len(),
            o0 + forest_orphans(tree@) <= usize::MAX,
            z0 + forest_zombies(tree@) <= usize::MAX,
            o0 + forest_orphans(tree@) == *orphans + forest_orphans(tree@.subrange(i as int, tree@.len() as int)),
            z0 + forest_zombies(tree@) == *zombies + forest_zombies(tree@.subrange(i as int, tree@.len() as int)),
        decreases tree.len() - i,
    {
        let ghost rest = tree@.subrange(i as int, tree@.len() as int);
        assert(rest[0] == tree@[i as int]);
        assert(rest.subrange(1, rest.len() as int) =~= tree@.subrange(i + 1, tree@.len() as int));
        assert(forest_orphans(rest) == node_orphans(tree@[i as int])
            + forest_orphans(tree@.subrange(i + 1, tree@.len() as int)));
        assert(forest_zombies(rest) == node_zombies(tree@[i as int])
            + forest_zombies(tree@.subrange(i + 1, tree@.len() as int)));
        let node = &tree[i];
        assert(node_orphans(*node) == (if node.is_orphan { 1nat } else { 0nat }) + forest_orphans(node.children@));
        assert(node_zombies(*node) == (if node.is_zombie || node.is_stale { 1nat } else { 0nat })
            + forest_zombies(node.children@));
        if node.is_orphan {
            *orphans += 1;
        }
        if node.is_zombie || node.is_stale {
            *zombies += 1;
        }
        assert(decreases_to!(tree@ => tree@[i as int]));
        count_forest(node.children.as_slice(), orphans, zombies);
        i += 1;
    }
}

/// The numbers of orphan processes and of zombie or stale processes in the
/// tree.
pub fn count_anomalies(tree: &[TreeNode]) -> (r: (usize, usize))
    requires
        forest_orphans(tree@) <= usize::MAX,
        forest_zombies(tree@) <= usize::MAX,
    ensures
        r.0 == forest_orphans(tree@),
        r.1 == forest_zombies(tree@),
{
    let mut orphans: usize = 0;
    let mut zombies: usize = 0;
    count_forest(tree, &mut orphans, &mut zombies);
    (orphans, zombies)
}

/// The rows of a forest as shown: each node, followed by the rows of its
/// children when it is expanded.
pub open spec fn forest_visible(f: Seq<TreeNode>) -> Seq<TreeNode>
    decreases f,
{
    if f.len() == 0 {
        Seq::empty()
    } else {
        node_visible(f[0]) + forest_visible(f.subrange(1, f.len() as int))
    }
}

pub open spec fn node_visible(n: TreeNode) -> Seq<TreeNode>
    decreases n,
{
    seq![n] + if n.expanded {
        forest_visible(n.children@)
    } else {
        Seq::empty()
    }
}

pub open spec fn derefs<'a>(v: Seq<&'a TreeNode>) -> Seq<TreeNode> {
    v.map_values(|x: &TreeNode| *x)
}

fn flatten_forest<'a>(tree: &'a [TreeNode], result: &mut Vec<&'a TreeNode>)
    ensures
        derefs(final(result)@) == derefs(old(result)@) + forest_visible(tree@),
    decreases tree@,
{
    let ghost r0 = derefs(result@);
    let mut i: usize = 0;
    assert(tree@.subrange(0, tree@.len() as int) =~= tree@);
    while i < tree.len()
        invariant
            i <= tree.len(),
            r0 + forest_visible(tree@) == derefs(result@) + forest_visible(tree@.subrange(i as int, tree@.len() as int)),
        decreases tree.len() - i,
    {
        let ghost rest = tree@.subrange(i as int, tree@.len() as int);
        let ghost after = tree@.subrange(i + 1, tree@.len() as int);
        assert(rest[0] == tree@[i as int]);
        assert(rest.subrange(1, rest.len() as int) =~= after);
        assert(forest_visible(rest) == node_visible(tree@[i as int]) + forest_visible(after));
        let node = &tree[i];
        let ghost before = derefs(result@);
        result.push(node);
        assert(derefs(result@) =~= before + seq![*node]);
        if node.expanded {
            assert(decreases_to!(tree@ => tree@[i as int]));
            flatten_forest(node.children.as_slice(), result);
            assert(node_visible(*node) == seq![*node] + forest_visible(node.children@));
        } else {
            assert(node_visible(*node) =~= seq![*node]);
        }
        i += 1;
    }
    assert(tree@.subrange(tree@.len() as int, tree@.len() as int) =~= Seq::<TreeNode>::empty());
}

/// The rows of the tree as shown: a node's children follow it while it is
/// expanded.
pub fn flatten_visible<'a>(tree: &'a [TreeNode]) -> (r: Vec<&'a TreeNode>)
    ensures
        derefs(r@) == forest_visible(tree@),
{
    let mut result: Vec<&'a TreeNode> = Vec::new();
    assert(derefs(result@) =~= Seq::<TreeNode>::empty());
    flatten_forest(tree, &mut result);
    result
}

/// Whether a node matches a lower-cased query: by its lower-cased name or by
/// its pid in decimal.
pub open spec fn node_matches(n: TreeNode, q: Seq<char>) -> bool {
    has_sub(unicode_lower(n.name@), q) || has_sub(decimal(n.pid as nat), q)
}

/// The matching nodes of a forest, in tree order, collapsed nodes included.
pub open spec fn forest_matches(f: Seq<TreeNode>, q: Seq<char>) -> Seq<TreeNode>
    decreases f,
{
    if f.len() == 0 {
        Seq::empty()
    } else {
        node_matches_all(f[0], q) + forest_matches(f.subrange(1, f.len() as int), q)
    }
}

pub open spec fn node_matches_all(n: TreeNode, q: Seq<char>) -> Seq<TreeNode>
    decreases n,
{
    (if node_matches(n, q) { seq![n] } else { Seq::empty() }) + forest_matches(n.children@, q)
}

fn search_forest<'a>(tree: &'a [TreeNode], query: &Vec<char>, result: &mut Vec<&'a TreeNode>)
    ensures
        derefs(final(result)@) == derefs(old(result)@) + forest_matches(tree@, query@),
    decreases tree@,
{
    let ghost r0 = derefs(result@);
    let ghost q = query@;
    let mut i: usize = 0;
    assert(tree@.subrange(0, tree@.len() as int) =~= tree@);
    while i < tree.len()
        invariant
            i <= tree.len(),
            query@ == q,
            r0 + forest_matches(tree@, q) == derefs(result@) + forest_matches(tree@.subrange(i as int, tree@.len() as int), q),
        decreases tree.len() - i,
    {
        let ghost rest = tree@.subrange(i as int, tree@.len() as int);
        let ghost after = tree@.subrange(i + 1, tree@.len() as int);
        assert(rest[0] == tree@[i as int]);
        assert(rest.subrange(1, rest.len() as int) =~= after);
        assert(forest_matches(rest, q) == node_matches_all(tree@[i as int], q) + forest_matches(after, q));
        let node = &tree[i];
        let ghost before = derefs(result@);
        let name = chars_of(to_lower(node.name.as_str()).as_str());
        let pid = chars_of(decimal_string(node.pid as u128).as_str());
        if contains_chars(&name, query) || contains_chars(&pid, query) {
            result.push(node);
            assert(derefs(result@) =~= before + seq![*node]);
        } else {
            assert(derefs(result@) =~= before + Seq::<TreeNode>::empty());
        }
        assert(decreases_to!(tree@ => tree@[i as int]));
        search_forest(node.children.as_slice(), query, result);
        i += 1;
    }
    assert(tree@.subrange(tree@.len() as int, tree@.len() as int) =~= Seq::<TreeNode>::empty());
}

/// The nodes whose name contains `query` (ignoring case) or whose pid in
/// decimal contains it, in tree order, collapsed nodes included.
pub fn search_tree<'a>(tree: &'a [TreeNode], query: &str) -> (r: Vec<&'a TreeNode>)
    ensures
        derefs(r@) == forest_matches(tree@, unicode_lower(query@)),
{
    let q = chars_of(to_lower(query).as_str());
    let mut result: Vec<&'a TreeNode> = Vec::new();
    assert(derefs(result@) =~= Seq::<TreeNode>::empty());
    search_forest(tree, &q, &mut result);
    result
}

/// The mathematical value of a tree node.
#[verifier::ext_equal]
pub ghost struct NodeView {
    pub pid: u32,
    pub name: Seq<char>,
    pub cpu_usage_x100: u32,
    pub memory: u64,
    pub depth: usize,
    pub children: Seq<NodeView>,
    pub expanded: bool,
    pub class: ProcessClass,
    pub is_orphan: bool,
    pub is_zombie: bool,
    pub is_stale: bool,
    pub kill_safety: Option<KillSafety>,
}

pub open spec fn forest_view(f: Seq<TreeNode>) -> Seq<NodeView>
    decreases f,
{
    if f.len() == 0 {
        Seq::empty()
    } else {
        seq![node_view(f[0])] + forest_view(f.subrange(1, f.len() as int))
    }
}

pub open spec fn node_view(n: TreeNode) -> NodeView
    decreases n,
{
    NodeView {
        pid: n.pid,
        name: n.name@,
        cpu_usage_x100: n.cpu_usage_x100,
        memory: n.memory,
        depth: n.depth,
        children: forest_view(n.children@),
        expanded: n.expanded,
        class: n.class,
        is_orphan: n.is_orphan,
        is_zombie: n.is_zombie,
        is_stale: n.is_stale,
        kill_safety: n.kill_safety,
    }
}

/// The view of a forest is the view of each of its nodes.
pub proof fn lemma_forest_view(f: Seq<TreeNode>)
    ensures
        forest_view(f).len() == f.len(),
        forall|j: int| 0 <= j < f.len() ==> #[trigger] forest_view(f)[j] == node_view(f[j]),
    decreases f.len(),
{
    if f.len() > 0 {
        let t = f.subrange(1, f.len() as int);
        lemma_forest_view(t);
        assert forall|j: int| 0 <= j < f.len() implies #[trigger] forest_view(f)[j] == node_view(f[j]) by {
            if j > 0 {
                assert(forest_view(f)[j] == forest_view(t)[j - 1]);
                assert(t[j - 1] == f[j]);
            }
        }
    }
}

/// Replacing one node replaces its view.
pub proof fn lemma_forest_view_update(f: Seq<TreeNode>, i: int, x: TreeNode)
    requires
        0 <= i < f.len(),
    ensures
        forest_view(f.update(i, x)) == forest_view(f).update(i, node_view(x)),
{
    lemma_forest_view(f);
    lemma_forest_view(f.update(i, x));
    assert(forest_view(f.update(i, x)) =~= forest_view(f).update(i, node_view(x)));
}

/// Some node of the forest has `pid`.
pub open spec fn vforest_has(f: Seq<NodeView>, pid: u32) -> bool
    decreases f,
{
    f.len() > 0 && (vnode_has(f[0], pid) || vforest_has(f.subrange(1, f.len() as int), pid))
}

pub open spec fn vnode_has(n: NodeView, pid: u32) -> bool
    decreases n,
{
    n.pid == pid || vforest_has(n.children, pid)
}

/// The forest with the expansion of the first node carrying `pid` (a node
/// before its children) flipped.
pub open spec fn vforest_toggled(f: Seq<NodeView>, pid: u32) -> Seq<NodeView>
    decreases f,
{
    if f.len() == 0 {
        f
    } else if vnode_has(f[0], pid) {
        seq![vnode_toggled(f[0], pid)] + f.subrange(1, f.len() as int)
    } else {
        seq![f[0]] + vforest_toggled(f.subrange(1, f.len() as int), pid)
    }
}

pub open spec fn vnode_toggled(n: NodeView, pid: u32) -> NodeView
    decreases n,
{
    if n.pid == pid {
        NodeView { expanded: !n.expanded, ..n }
    } else {
        NodeView { children: vforest_toggled(n.children, pid), ..n }
    }
}

/// A forest has `pid` exactly when one of its nodes has it.
pub proof fn lemma_vforest_has(f: Seq<NodeView>, pid: u32)
    ensures
        vforest_has(f, pid) <==> exists|j: int| 0 <= j < f.len() && #[trigger] vnode_has(f[j], pid),
    decreases f.len(),
{
    if f.len() > 0 {
        let t = f.subrange(1, f.len() as int);
        lemma_vforest_has(t, pid);
        if vforest_has(f, pid) {
            if !vnode_has(f[0], pid) {
                let j = choose|j: int| 0 <= j < t.len() && #[trigger] vnode_has(t[j], pid);
                assert(t[j] == f[j + 1]);
            }
        }
        if exists|j: int| 0 <= j < f.len() && #[trigger] vnode_has(f[j], pid) {
            let j = choose|j: int| 0 <= j < f.len() && #[trigger] vnode_has(f[j], pid);
            if j > 0 {
                assert(t[j - 1] == f[j]);
            }
        }
    }
}

/// Toggling skips the leading nodes that do not carry `pid`.
pub proof fn lemma_toggled_skip(f: Seq<NodeView>, pid: u32, i: int)
    requires
        0 <= i <= f.len(),
        forall|j: int| 0 <= j < i ==> !vnode_has(#[trigger] f[j], pid),
    ensures
        vforest_toggled(f, pid) == f.subrange(0, i) + vforest_toggled(f.subrange(i, f.len() as int), pid),
        vforest_has(f, pid) == vforest_has(f.subrange(i, f.len() as int), pid),
    decreases i,
{
    if i == 0 {
        assert(f.subrange(0, 0) + vforest_toggled(f.subrange(0, f.len() as int), pid) =~= vforest_toggled(f, pid)) by {
            assert(f.subrange(0, f.len() as int) =~= f);
        }
        assert(f.subrange(0, f.len() as int) =~= f);
    } else {
        let t = f.subrange(1, f.len() as int);
        assert forall|j: int| 0 <= j < i - 1 implies !vnode_has(#[trigger] t[j], pid) by {
            assert(t[j] == f[j + 1]);
        }
        lemma_toggled_skip(t, pid, i - 1);
        assert(t.subrange(i - 1, t.len() as int) =~= f.subrange(i, f.len() as int));
        assert(!vnode_has(f[0], pid));
        assert(seq![f[0]] + t.subrange(0, i - 1) =~= f.subrange(0, i));
    }
}

/// Toggles the expansion of the first node with `target_pid`, a node coming
/// before its children; returns whether there was one.
pub fn toggle_node_by_pid(nodes: &mut Vec<TreeNode>, target_pid: u32) -> (found: bool)
    ensures
        found == vforest_has(forest_view(old(nodes)@), target_pid),
        forest_view(final(nodes)@) == vforest_toggled(forest_view(old(nodes)@), target_pid),
    decreases old(nodes)@,
{
    let ghost o = old(nodes)@;
    let ghost ov = forest_view(o);
    proof {
        lemma_forest_view(o);
    }
    let mut i: usize = 0;
    while i < nodes.len()
        invariant
            i <= nodes.len(),
            nodes@.len() == o.len(),
            o == old(nodes)@,
            ov == forest_view(o),
            ov.len() == o.len(),
            forest_view(nodes@) == ov,
            forall|j: int| i <= j < o.len() ==> nodes@[j] == o[j],
            forall|j: int| 0 <= j < i ==> !vnode_has(#[trigger] ov[j], target_pid),
        decreases nodes.len() - i,
    {
        proof {
            lemma_forest_view(nodes@);
            assert(node_view(nodes@[i as int]) == ov[i as int]);
            lemma_toggled_skip(ov, target_pid, i as int);
            let rest = ov.subrange(i as int, ov.len() as int);
            assert(rest[0] == ov[i as int]);
            assert(rest.subrange(1, rest.len() as int) =~= ov.subrange(i + 1, ov.len() as int));
        }
        if nodes[i].pid == target_pid {
            proof {
                assert(ov[i as int].pid == target_pid);
                let rest = ov.subrange(i as int, ov.len() as int);
                assert(vnode_has(rest[0], target_pid));
                assert(vforest_has(rest, target_pid));
                assert(vforest_has(ov, target_pid));
            }
            let ghost before = nodes@;
            let node = &mut nodes[i];
            node.expanded = !node.expanded;
            proof {
                lemma_forest_view_update(before, i as int, nodes@[i as int]);
                assert(node_view(nodes@[i as int]) == vnode_toggled(ov[i as int], target_pid));
                assert(ov.subrange(0, i as int) + (seq![vnode_toggled(ov[i as int], target_pid)]
                    + ov.subrange(i + 1, ov.len() as int)) =~= ov.update(i as int, vnode_toggled(ov[i as int], target_pid)));
            }
            return true;
        }
        let ghost before = nodes@;
        let node = &mut nodes[i];
        proof {
            assert(decreases_to!(o => o[i as int]));
            assert(decreases_to!(o[i as int] => o[i as int].children));
            assert(decreases_to!(o[i as int].children => o[i as int].children@));
            assert(node.children@ == o[i as int].children@);
            assert(decreases_to!(o => node.children@));
        }
        let found = toggle_node_by_pid(&mut node.children, target_pid);
        proof {
            lemma_forest_view_update(before, i as int, nodes@[i as int]);
            assert(node_view(nodes@[i as int]) == vnode_toggled(ov[i as int], target_pid));
        }
        if found {
            proof {
                assert(vnode_has(ov[i as int], target_pid));
                let rest = ov.subrange(i as int, ov.len() as int);
                assert(vnode_has(rest[0], target_pid));
                assert(vforest_has(rest, target_pid));
                assert(vforest_has(ov, target_pid));
                assert(ov.subrange(0, i as int) + (seq![vnode_toggled(ov[i as int], target_pid)]
                    + ov.subrange(i + 1, ov.len() as int)) =~= ov.update(i as int, vnode_toggled(ov[i as int], target_pid)));
            }
            return true;
        }
        proof {
            assert(!vnode_has(ov[i as int], target_pid));
            assert(vnode_toggled(ov[i as int], target_pid) == ov[i as int]) by {
                lemma_vforest_has(ov[i as int].children, target_pid);
                lemma_toggled_skip(ov[i as int].children, target_pid, ov[i as int].children.len() as int);
                assert(ov[i as int].children.subrange(0, ov[i as int].children.len() as int) =~= ov[i as int].children);
                assert(ov[i as int].children.subrange(ov[i as int].children.len() as int, ov[i as int].children.len() as int)
                    =~= Seq::<NodeView>::empty());
                assert(vforest_toggled(ov[i as int].children, target_pid) =~= ov[i as int].children);
            }
            assert(forest_view(nodes@) =~= ov);
        }
        i += 1;
    }
    proof {
        lemma_toggled_skip(ov, target_pid, ov.len() as int);
        assert(ov.subrange(0, ov.len() as int) =~= ov);
        assert(ov.subrange(ov.len() as int, ov.len() as int) =~= Seq::<NodeView>::empty());
    }
    false
}

/// The pids of the expanded nodes of a forest.
pub open spec fn vforest_expanded(f: Seq<NodeView>) -> Set<u32>
    decreases f,
{
    if f.len() == 0 {
        Set::empty()
    } else {
        vnode_expanded(f[0]).union(vforest_expanded(f.subrange(1, f.len() as int)))
    }
}

pub open spec fn vnode_expanded(n: NodeView) -> Set<u32>
    decreases n,
{
    (if n.expanded { set![n.pid] } else { Set::empty() }).union(vforest_expanded(n.children))
}

/// The forest with each node expanded exactly when its pid is in `s`.
pub open spec fn vforest_restored(f: Seq<NodeView>, s: Set<u32>) -> Seq<NodeView>
    decreases f,
{
    if f.len() == 0 {
        f
    } else {
        seq![vnode_restored(f[0], s)] + vforest_restored(f.subrange(1, f.len() as int), s)
    }
}

pub open spec fn vnode_restored(n: NodeView, s: Set<u32>) -> NodeView
    decreases n,
{
    NodeView { expanded: s.contains(n.pid), children: vforest_restored(n.children, s), ..n }
}

/// Restoring acts on each node of a forest separately.
pub proof fn lemma_restored_index(f: Seq<NodeView>, s: Set<u32>)
    ensures
        vforest_restored(f, s).len() == f.len(),
        forall|j: int| 0 <= j < f.len() ==> #[trigger] vforest_restored(f, s)[j] == vnode_restored(f[j], s),
    decreases f.len(),
{
    if f.len() > 0 {
        let t = f.subrange(1, f.len() as int);
        lemma_restored_index(t, s);
        assert forall|j: int| 0 <= j < f.len() implies #[trigger] vforest_restored(f, s)[j] == vnode_restored(f[j], s) by {
            if j > 0 {
                assert(vforest_restored(f, s)[j] == vforest_restored(t, s)[j - 1]);
                assert(t[j - 1] == f[j]);
            }
        }
    }
}

fn collect_into(nodes: &[TreeNode], pids: &mut HashSet<u32>)
    ensures
        final(pids)@ == old(pids)@.union(vforest_expanded(forest_view(nodes@))),
    decreases nodes@,
{
    broadcast use vstd::std_specs::hash::group_hash_axioms;
    let ghost p0 = pids@;
    let ghost fv = forest_view(nodes@);
    proof {
        lemma_forest_view(nodes@);
        assert(fv.subrange(0, fv.len() as int) =~= fv);
    }
    let mut i: usize = 0;
    while i < nodes.len()
        invariant
            i <= nodes.len(),
            fv == forest_view(nodes@),
            fv.len() == nodes@.len(),
            forall|j: int| 0 <= j < nodes@.len() ==> #[trigger] fv[j] == node_view(nodes@[j]),
            p0.union(vforest_expanded(fv)) == pids@.union(vforest_expanded(fv.subrange(i as int, fv.len() as int))),
        decreases nodes.len() - i,
    {
        let ghost rest = fv.subrange(i as int, fv.len() as int);
        let ghost after = fv.subrange(i + 1, fv.len() as int);
        let ghost before = pids@;
        proof {
            assert(rest[0] == fv[i as int]);
            assert(rest.subrange(1, rest.len() as int) =~= after);
        }
        let node = &nodes[i];
        if node.expanded {
            pids.insert(node.pid);
        }
        let ghost mid = pids@;
        proof {
            let n = fv[i as int];
            assert(n == node_view(*node));
            assert(mid =~= before.union(if n.expanded { set![n.pid] } else { Set::<u32>::empty() }));
            assert(vforest_expanded(rest) == vnode_expanded(n).union(vforest_expanded(after)));
        }
        assert(decreases_to!(nodes@ => nodes@[i as int]));
        collect_into(node.children.as_slice(), pids);
        proof {
            let n = fv[i as int];
            assert(n.children == forest_view(node.children@));
            assert(pids@.union(vforest_expanded(after)) =~= before.union(vforest_expanded(rest)));
        }
        i += 1;
    }
    proof {
        assert(fv.subrange(fv.len() as int, fv.len() as int) =~= Seq::<NodeView>::empty());
        assert(pids@.union(Set::<u32>::empty()) =~= pids@);
    }
}

/// The pids of the expanded nodes, to restore the expansion after the tree
/// is rebuilt.
pub fn collect_expanded_pids(nodes: &[TreeNode]) -> (pids: HashSet<u32>)
    ensures
        pids@ == vforest_expanded(forest_view(nodes@)),
{
    let mut pids: HashSet<u32> = HashSet::new();
    collect_into(nodes, &mut pids);
    assert(Set::<u32>::empty().union(vforest_expanded(forest_view(nodes@))) =~= vforest_expanded(forest_view(nodes@)));
    pids
}

/// Expands exactly the nodes whose pid is in `expanded`.
pub fn restore_expanded_pids(nodes: &mut Vec<TreeNode>, expanded: &HashSet<u32>)
    ensures
        forest_view(final(nodes)@) == vforest_restored(forest_view(old(nodes)@), expanded@),
    decreases old(nodes)@,
{
    broadcast use vstd::std_specs::hash::group_hash_axioms;
    let ghost o = old(nodes)@;
    let ghost ov = forest_view(o);
    let ghost sv = expanded@;
    proof {
        lemma_forest_view(o);
        lemma_restored_index(ov, sv);
    }
    let mut i: usize = 0;
    while i < nodes.len()
        invariant
            i <= nodes.len(),
            nodes@.len() == o.len(),
            o == old(nodes)@,
            sv == expanded@,
            ov == forest_view(o),
            ov.len() == o.len(),
            forall|j: int| 0 <= j < o.len() ==> #[trigger] ov[j] == node_view(o[j]),
            forall|j: int| i <= j < o.len() ==> nodes@[j] == o[j],
            forall|j: int| 0 <= j < i ==> #[trigger] node_view(nodes@[j]) == vnode_restored(ov[j], sv),
        decreases nodes.len() - i,
    {
        let ghost before = nodes@;
        let node = &mut nodes[i];
        node.expanded = expanded.contains(&node.pid);
        proof {
            assert(decreases_to!(o => o[i as int]));
            assert(decreases_to!(o[i as int] => o[i as int].children));
            assert(decreases_to!(o[i as int].children => o[i as int].children@));
            assert(node.children@ == o[i as int].children@);
        }
        restore_expanded_pids(&mut node.children, expanded);
        proof {
            assert(node_view(nodes@[i as int]) =~= vnode_restored(ov[i as int], sv));
            assert forall|j: int| 0 <= j < i + 1 implies #[trigger] node_view(nodes@[j]) == vnode_restored(ov[j], sv) by {
                if j < i {
                    assert(nodes@[j] == before[j]);
                }
            }
        }
        i += 1;
    }
    proof {
        lemma_forest_view(nodes@);
        assert(forest_view(nodes@) =~= vforest_restored(ov, sv));
    }
}

/// Every node of a forest, each before its children.
pub open spec fn vforest_all(f: Seq<NodeView>) -> Seq<NodeView>
    decreases f,
{
    if f.len() == 0 {
        Seq::empty()
    } else {
        vnode_all(f[0]) + vforest_all(f.subrange(1, f.len() as int))
    }
}

pub open spec fn vnode_all(n: NodeView) -> Seq<NodeView>
    decreases n,
{
    seq![n] + vforest_all(n.children)
}

/// No two nodes of the forest share a pid.
pub open spec fn unique_pids(f: Seq<NodeView>) -> bool {
    vforest_all(f).map_values(|n: NodeView| n.pid).no_duplicates()
}

/// A pid is collected exactly when some expanded node carries it.
pub proof fn lemma_expanded_members(f: Seq<NodeView>)
    ensures
        forall|p: u32| #[trigger] vforest_expanded(f).contains(p) <==> exists|k: int|
            0 <= k < vforest_all(f).len() && vforest_all(f)[k].expanded && #[trigger] vforest_all(f)[k].pid == p,
    decreases f,
{
    if f.len() > 0 {
        let n = f[0];
        let t = f.subrange(1, f.len() as int);
        let a = vforest_all(f);
        let c = vforest_all(n.children);
        let r = vforest_all(t);
        assert(decreases_to!(f => f[0]));
        assert(vforest_expanded(f) == vnode_expanded(n).union(vforest_expanded(t)));
        assert(vnode_expanded(n) == (if n.expanded { set![n.pid] } else { Set::<u32>::empty() }).union(
            vforest_expanded(n.children)));
        lemma_expanded_members(n.children);
        lemma_expanded_members(t);
        assert(a == vnode_all(n) + r);
        assert(vnode_all(n) == seq![n] + c);
        assert(a =~= seq![n] + c + r);
        assert forall|p: u32| #[trigger] vforest_expanded(f).contains(p) <==> exists|k: int|
            0 <= k < a.len() && a[k].expanded && #[trigger] a[k].pid == p by {
            if vforest_expanded(f).contains(p) {
                if n.expanded && n.pid == p {
                    assert(a[0] == n);
                } else if vforest_expanded(n.children).contains(p) {
                    let k = choose|k: int| 0 <= k < c.len() && c[k].expanded && #[trigger] c[k].pid == p;
                    assert(a[1 + k] == c[k]);
                } else {
                    assert(vforest_expanded(t).contains(p));
                    let k = choose|k: int| 0 <= k < r.len() && r[k].expanded && #[trigger] r[k].pid == p;
                    assert(a[1 + c.len() + k] == r[k]);
                }
            }
            if exists|k: int| 0 <= k < a.len() && a[k].expanded && #[trigger] a[k].pid == p {
                let k = choose|k: int| 0 <= k < a.len() && a[k].expanded && #[trigger] a[k].pid == p;
                if k == 0 {
                    assert(vnode_expanded(n).contains(p));
                } else if k < 1 + c.len() {
                    assert(c[k - 1] == a[k]);
                    assert(vforest_expanded(n.children).contains(p));
                } else {
                    assert(r[k - 1 - c.len()] == a[k]);
                    assert(vforest_expanded(t).contains(p));
                }
            }
        }
    }
}

/// Restoring from a set that already agrees with every node changes nothing.
pub proof fn lemma_restore_agreeing(f: Seq<NodeView>, s: Set<u32>)
    requires
        forall|k: int| 0 <= k < vforest_all(f).len() ==>
            #[trigger] vforest_all(f)[k].expanded == s.contains(vforest_all(f)[k].pid),
    ensures
        vforest_restored(f, s) == f,
    decreases f,
{
    if f.len() > 0 {
        let n = f[0];
        let t = f.subrange(1, f.len() as int);
        let a = vforest_all(f);
        let c = vforest_all(n.children);
        let r = vforest_all(t);
        assert(a == vnode_all(n) + r);
        assert(vnode_all(n) == seq![n] + c);
        assert(a =~= seq![n] + c + r);
        assert(a[0] == n);
        assert forall|k: int| 0 <= k < c.len() implies #[trigger] c[k].expanded == s.contains(c[k].pid) by {
            assert(a[1 + k] == c[k]);
        }
        assert forall|k: int| 0 <= k < r.len() implies #[trigger] r[k].expanded == s.contains(r[k].pid) by {
            assert(a[1 + c.len() + k] == r[k]);
        }
        assert(decreases_to!(f => f[0]));
        lemma_restore_agreeing(n.children, s);
        lemma_restore_agreeing(t, s);
        assert(vnode_restored(n, s) =~= n);
        assert(vforest_restored(f, s) =~= f);
    }
}

/// Collecting the expanded pids and restoring from them gives back the same
/// tree, when no two nodes share a pid.
pub proof fn law_restore_collected(f: Seq<NodeView>)
    requires
        unique_pids(f),
    ensures
        vforest_restored(f, vforest_expanded(f)) == f,
{
    let a = vforest_all(f);
    let s = vforest_expanded(f);
    let pids = a.map_values(|n: NodeView| n.pid);
    lemma_expanded_members(f);
    assert forall|k: int| 0 <= k < a.len() implies #[trigger] a[k].expanded == s.contains(a[k].pid) by {
        if s.contains(a[k].pid) {
            let k2 = choose|k2: int| 0 <= k2 < a.len() && a[k2].expanded && #[trigger] a[k2].pid == a[k].pid;
            assert(pids[k] == pids[k2]);
        }
    }
    lemma_restore_agreeing(f, s);
}

/// Appending a node appends its view.
pub proof fn lemma_forest_view_push(f: Seq<TreeNode>, x: TreeNode)
    ensures
        forest_view(f.push(x)) == forest_view(f) + seq![node_view(x)],
{
    lemma_forest_view(f);
    lemma_forest_view(f.push(x));
    assert(forest_view(f.push(x)) =~= forest_view(f) + seq![node_view(x)]);
}

/// Whether the filter keeps a node of this class for its own sake.
pub open spec fn class_kept(c: ProcessClass, filter: TreeFilter) -> bool {
    match filter {
        TreeFilter::All => true,
        TreeFilter::MyProcesses => c == ProcessClass::UserApp,
        TreeFilter::SystemProcesses => c == ProcessClass::SystemProcess || c == ProcessClass::WindowsService
            || c == ProcessClass::Kernel,
    }
}

/// The forest reduced to the nodes the filter keeps and their ancestors.
pub open spec fn vforest_kept(f: Seq<NodeView>, filter: TreeFilter) -> Seq<NodeView>
    decreases f,
{
    if f.len() == 0 {
        f
    } else {
        vnode_kept(f[0], filter) + vforest_kept(f.subrange(1, f.len() as int), filter)
    }
}

pub open spec fn vnode_kept(n: NodeView, filter: TreeFilter) -> Seq<NodeView>
    decreases n,
{
    let kids = vforest_kept(n.children, filter);
    if class_kept(n.class, filter) || kids.len() > 0 {
        seq![NodeView { children: kids, ..n }]
    } else {
        Seq::empty()
    }
}

/// The tree a filter shows: all of it, or the nodes of the chosen classes
/// with their ancestors.
pub open spec fn vforest_filtered(f: Seq<NodeView>, filter: TreeFilter) -> Seq<NodeView> {
    match filter {
        TreeFilter::All => f,
        _ => vforest_kept(f, filter),
    }
}

/// A deep copy of a forest.
fn copy_forest(nodes: &[TreeNode]) -> (r: Vec<TreeNode>)
    ensures
        forest_view(r@) == forest_view(nodes@),
    decreases nodes@,
{
    let mut out: Vec<TreeNode> = Vec::new();
    let mut i: usize = 0;
    proof {
        lemma_forest_view(nodes@);
    }
    while i < nodes.len()
        invariant
            i <= nodes.len(),
            forest_view(out@) == forest_view(nodes@.subrange(0, i as int)),
        decreases nodes.len() - i,
    {
        let n = &nodes[i];
        assert(decreases_to!(nodes@ => nodes@[i as int]));
        let children = copy_forest(n.children.as_slice());
        let copy = TreeNode {
            pid: n.pid,
            name: copy_str(n.name.as_str()),
            cpu_usage_x100: n.cpu_usage_x100,
            memory: n.memory,
            depth: n.depth,
            children,
            expanded: n.expanded,
            class: n.class,
            is_orphan: n.is_orphan,
            is_zombie: n.is_zombie,
            is_stale: n.is_stale,
            kill_safety: n.kill_safety,
        };
        proof {
            lemma_forest_view_push(out@, copy);
            lemma_forest_view_push(nodes@.subrange(0, i as int), *n);
            assert(nodes@.subrange(0, i as int).push(*n) =~= nodes@.subrange(0, i + 1));
            assert(node_view(copy) =~= node_view(*n));
        }
        out.push(copy);
        i += 1;
    }
    assert(nodes@.subrange(0, nodes@.len() as int) =~= nodes@);
    out
}

fn filter_nodes(nodes: &[TreeNode], filter: TreeFilter) -> (r: Vec<TreeNode>)
    ensures
        forest_view(r@) == vforest_kept(forest_view(nodes@), filter),
    decreases nodes@,
{
    let ghost fv = forest_view(nodes@);
    let mut out: Vec<TreeNode> = Vec::new();
    let mut i: usize = 0;
    proof {
        lemma_forest_view(nodes@);
        assert(fv.subrange(0, fv.len() as int) =~= fv);
        assert(forest_view(out@) =~= Seq::<NodeView>::empty());
    }
    while i < nodes.len()
        invariant
            i <= nodes.len(),
            fv == forest_view(nodes@),
            fv.len() == nodes@.len(),
            forall|j: int| 0 <= j < nodes@.len() ==> #[trigger] fv[j] == node_view(nodes@[j]),
            vforest_kept(fv, filter) == forest_view(out@) + vforest_kept(fv.subrange(i as int, fv.len() as int), filter),
        decreases nodes.len() - i,
    {
        let ghost rest = fv.subrange(i as int, fv.len() as int);
        let ghost after = fv.subrange(i + 1, fv.len() as int);
        proof {
            assert(rest[0] == fv[i as int]);
            assert(rest.subrange(1, rest.len() as int) =~= after);
            assert(vforest_kept(rest, filter) == vnode_kept(fv[i as int], filter) + vforest_kept(after, filter));
        }
        let n = &nodes[i];
        assert(decreases_to!(nodes@ => nodes@[i as int]));
        let kids = filter_nodes(n.children.as_slice(), filter);
        let kept: bool = match filter {
            TreeFilter::All => true,
            TreeFilter::MyProcesses => match n.class {
                ProcessClass::UserApp => true,
                _ => false,
            },
            TreeFilter::SystemProcesses => match n.class {
                ProcessClass::SystemProcess | ProcessClass::WindowsService | ProcessClass::Kernel => true,
                _ => false,
            },
        };
        proof {
            lemma_forest_view(kids@);
        }
        let ghost before = forest_view(out@);
        if kept || kids.len() > 0 {
            let node = TreeNode {
                pid: n.pid,
                name: copy_str(n.name.as_str()),
                cpu_usage_x100: n.cpu_usage_x100,
                memory: n.memory,
                depth: n.depth,
                children: kids,
                expanded: n.expanded,
                class: n.class,
                is_orphan: n.is_orphan,
                is_zombie: n.is_zombie,
                is_stale: n.is_stale,
                kill_safety: n.kill_safety,
            };
            proof {
                lemma_forest_view_push(out@, node);
                let v = fv[i as int];
                assert(node_view(node) =~= NodeView { children: vforest_kept(v.children, filter), ..v });
            }
            out.push(node);
        } else {
            assert(vnode_kept(fv[i as int], filter) =~= Seq::<NodeView>::empty());
        }
        proof {
            assert(forest_view(out@) + vforest_kept(after, filter) =~= before + vforest_kept(rest, filter));
        }
        i += 1;
    }
    proof {
        assert(fv.subrange(fv.len() as int, fv.len() as int) =~= Seq::<NodeView>::empty());
        assert(forest_view(out@) + Seq::<NodeView>::empty() =~= forest_view(out@));
    }
    out
}

/// The tree as a filter shows it: a copy of all of it, or only the nodes of
/// the chosen classes together with their ancestors.
pub fn filter_tree(tree: &[TreeNode], filter: TreeFilter) -> (r: Vec<TreeNode>)
    ensures
        forest_view(r@) == vforest_filtered(forest_view(tree@), filter),
{
    match filter {
        TreeFilter::All => copy_forest(tree),
        _ => filter_nodes(tree, filter),
    }
}

/// Toggling keeps which nodes carry a pid, and toggling twice changes
/// nothing.
pub proof fn law_toggle_twice(f: Seq<NodeView>, pid: u32)
    ensures
        vforest_has(vforest_toggled(f, pid), pid) == vforest_has(f, pid),
        vforest_toggled(vforest_toggled(f, pid), pid) == f,
    decreases f,
{
    if f.len() > 0 {
        let n = f[0];
        let t = f.subrange(1, f.len() as int);
        assert(decreases_to!(f => f[0]));
        law_toggle_twice(n.children, pid);
        law_toggle_twice(t, pid);
        let m = vnode_toggled(n, pid);
        assert(vnode_has(m, pid) == vnode_has(n, pid));
        assert(vnode_toggled(m, pid) =~= n);
        let g = vforest_toggled(f, pid);
        if vnode_has(n, pid) {
            assert(g == seq![m] + t);
            assert(g[0] == m);
            assert(g.subrange(1, g.len() as int) =~= t);
            assert(vforest_toggled(g, pid) =~= seq![vnode_toggled(m, pid)] + t);
            assert(f =~= seq![n] + t);
        } else {
            assert(g == seq![n] + vforest_toggled(t, pid));
            assert(g[0] == n);
            assert(g.subrange(1, g.len() as int) =~= vforest_toggled(t, pid));
            assert(vforest_toggled(g, pid) =~= seq![n] + vforest_toggled(vforest_toggled(t, pid), pid));
            assert(f =~= seq![n] + t);
        }
    }
}

/// The CPU usage given in hundredths of a percent, as percent with one
/// decimal, the hundredths rounded half up.
pub open spec fn cpu_tenths_text(x100: u32) -> Seq<char> {
    let t = (x100 as nat + 5) / 10;
    decimal(t / 10) + "."@ + decimal(t % 10)
}

/// An optional text, `-` where there is none.
pub open spec fn text_or_dash(o: Option<String>) -> Seq<char> {
    match o {
        Some(t) => t@,
        None => "-"@,
    }
}

/// The clipboard text of a process: one labelled line each for its PID,
/// name, CPU, memory, virtual memory, state, command line, working
/// directory and executable.
pub open spec fn process_info_text(p: ProcessInfo) -> Seq<char> {
    "PID: "@ + decimal(p.pid as nat)
    + "\n名称: "@ + p.name@
    + "\nCPU: "@ + cpu_tenths_text(p.cpu_usage_x100)
    + "%\n内存: "@ + decimal(p.memory as nat)
    + " bytes\n虚拟内存: "@ + decimal(p.virtual_memory as nat)
    + " bytes\n状态: "@ + p.status@
    + "\n命令: "@ + join(views(p.cmd@), " "@)
    + "\n工作目录: "@ + text_or_dash(p.cwd)
    + "\n可执行: "@ + text_or_dash(p.exe)
}

fn append_or_dash(s: &mut String, o: &Option<String>)
    ensures
        final(s)@ == old(s)@ + text_or_dash(*o),
{
    match o {
        Some(t) => s.append(t.as_str()),
        None => s.append("-"),
    }
}

/// Formats a process as readable text for the clipboard.
pub fn format_process_info(proc: &ProcessInfo) -> (r: String)
    ensures
        r@ == process_info_text(*proc),
{
    let mut s = String::new();
    s.append("PID: ");
    push_decimal(&mut s, proc.pid as u128);
    s.append("\n名称: ");
    s.append(proc.name.as_str());
    s.append("\nCPU: ");
    let t: u32 = proc.cpu_usage_x100 / 10 + if proc.cpu_usage_x100 % 10 >= 5 { 1 } else { 0 };
    assert(t == (proc.cpu_usage_x100 as nat + 5) / 10);
    push_decimal(&mut s, (t / 10) as u128);
    s.append(".");
    push_decimal(&mut s, (t % 10) as u128);
    s.append("%\n内存: ");
    push_decimal(&mut s, proc.memory as u128);
    s.append(" bytes\n虚拟内存: ");
    push_decimal(&mut s, proc.virtual_memory as u128);
    s.append(" bytes\n状态: ");
    s.append(proc.status.as_str());
    s.append("\n命令: ");
    let cmd = join_strings(&proc.cmd, " ");
    s.append(cmd.as_str());
    s.append("\n工作目录: ");
    append_or_dash(&mut s, &proc.cwd);
    s.append("\n可执行: ");
    append_or_dash(&mut s, &proc.exe);
    assert(s@ =~= process_info_text(*proc));
    s
}

} // verus!
