use procmon::tree::{
    collect_expanded_pids, count_anomalies, filter_tree, flatten_visible, restore_expanded_pids, search_tree,
    toggle_node_by_pid, ProcessClass, TreeFilter, TreeNode,
};

fn node(pid: u32, name: &str, class: ProcessClass, expanded: bool, children: Vec<TreeNode>) -> TreeNode {
    TreeNode {
        pid,
        name: name.to_string(),
        cpu_usage_x100: 0,
        memory: 0,
        depth: 0,
        children,
        expanded,
        class,
        is_orphan: false,
        is_zombie: false,
        is_stale: false,
        kill_safety: None,
    }
}

fn pids(nodes: &[&TreeNode]) -> Vec<u32> {
    nodes.iter().map(|n| n.pid).collect()
}

fn sample() -> Vec<TreeNode> {
    // 1 systemd (expanded)
    //   ├─ 10 sshd (collapsed)
    //   │    └─ 11 Bash
    //   └─ 20 firefox (expanded)
    //        └─ 21 Web Content
    // 2 kthreadd (collapsed)
    //   └─ 3 kworker
    let bash = node(11, "Bash", ProcessClass::UserApp, false, vec![]);
    let sshd = node(10, "sshd", ProcessClass::SystemProcess, false, vec![bash]);
    let web = node(21, "Web Content", ProcessClass::UserApp, false, vec![]);
    let firefox = node(20, "firefox", ProcessClass::UserApp, true, vec![web]);
    let systemd = node(1, "systemd", ProcessClass::SystemProcess, true, vec![sshd, firefox]);
    let kworker = node(3, "kworker", ProcessClass::Kernel, false, vec![]);
    let kthreadd = node(2, "kthreadd", ProcessClass::Kernel, false, vec![kworker]);
    vec![systemd, kthreadd]
}

#[test]
fn anomalies_are_counted_at_every_depth() {
    let mut tree = sample();
    tree[0].children[0].children[0].is_orphan = true;
    tree[0].children[1].is_zombie = true;
    tree[1].children[0].is_stale = true;
    tree[1].is_orphan = true;
    assert_eq!(count_anomalies(&tree), (2, 2));
    assert_eq!(count_anomalies(&[]), (0, 0));
}

#[test]
fn visible_rows_skip_collapsed_children() {
    let tree = sample();
    assert_eq!(pids(&flatten_visible(&tree)), vec![1, 10, 20, 21, 2]);
}

#[test]
fn search_matches_name_ignoring_case_and_pid() {
    let tree = sample();
    assert_eq!(pids(&search_tree(&tree, "BASH")), vec![11]);
    assert_eq!(pids(&search_tree(&tree, "2")), vec![20, 21, 2]);
    assert_eq!(pids(&search_tree(&tree, "k")), vec![2, 3]);
    assert!(search_tree(&tree, "nothing").is_empty());
}

#[test]
fn toggle_flips_the_node_and_reports_absence() {
    let mut tree = sample();
    assert!(toggle_node_by_pid(&mut tree, 10));
    assert!(tree[0].children[0].expanded);
    assert_eq!(pids(&flatten_visible(&tree)), vec![1, 10, 11, 20, 21, 2]);
    assert!(!toggle_node_by_pid(&mut tree, 99));
    assert!(toggle_node_by_pid(&mut tree, 10));
    assert!(!tree[0].children[0].expanded);
}

#[test]
fn toggling_twice_restores_the_rows() {
    let mut tree = sample();
    let before = pids(&flatten_visible(&tree));
    toggle_node_by_pid(&mut tree, 1);
    assert_eq!(pids(&flatten_visible(&tree)), vec![1, 2]);
    toggle_node_by_pid(&mut tree, 1);
    assert_eq!(pids(&flatten_visible(&tree)), before);
}

#[test]
fn expansion_survives_a_rebuild() {
    let tree = sample();
    let expanded = collect_expanded_pids(&tree);
    let mut want: Vec<u32> = expanded.iter().copied().collect();
    want.sort();
    assert_eq!(want, vec![1, 20]);

    // A rebuilt tree starts fully collapsed.
    let mut rebuilt = sample();
    toggle_node_by_pid(&mut rebuilt, 1);
    toggle_node_by_pid(&mut rebuilt, 20);
    restore_expanded_pids(&mut rebuilt, &expanded);
    assert_eq!(pids(&flatten_visible(&rebuilt)), pids(&flatten_visible(&tree)));
}

#[test]
fn filters_keep_matching_nodes_and_their_ancestors() {
    let tree = sample();
    let mine = filter_tree(&tree, TreeFilter::MyProcesses);
    assert_eq!(mine.len(), 1);
    assert_eq!(mine[0].pid, 1);
    let kids: Vec<u32> = mine[0].children.iter().map(|n| n.pid).collect();
    assert_eq!(kids, vec![10, 20]);
    assert_eq!(mine[0].children[0].children[0].pid, 11);

    let system = filter_tree(&tree, TreeFilter::SystemProcesses);
    let roots: Vec<u32> = system.iter().map(|n| n.pid).collect();
    assert_eq!(roots, vec![1, 2]);
    let kids: Vec<u32> = system[0].children.iter().map(|n| n.pid).collect();
    assert_eq!(kids, vec![10]);
    assert!(system[0].children[0].children.is_empty());

    let all = filter_tree(&tree, TreeFilter::All);
    assert_eq!(pids(&flatten_visible(&all)), pids(&flatten_visible(&tree)));
}

#[test]
fn process_info_text_lists_every_field() {
    let mut p = procmon::process::ProcessInfo::new(42, "app", Some(1));
    p.cpu_usage_x100 = 1235;
    p.memory = 2048;
    p.virtual_memory = 4096;
    p.status = "Run".to_string();
    p.cmd = vec!["app".to_string(), "--serve".to_string()];
    p.exe = Some("/usr/bin/app".to_string());
    let text = procmon::tree::format_process_info(&p);
    assert_eq!(
        text,
        "PID: 42\n名称: app\nCPU: 12.4%\n内存: 2048 bytes\n虚拟内存: 4096 bytes\n状态: Run\n命令: app --serve\n工作目录: -\n可执行: /usr/bin/app"
    );
    let q = procmon::process::ProcessInfo::new(7, "idle", None);
    assert!(procmon::tree::format_process_info(&q).contains("CPU: 0.0%"));
}
