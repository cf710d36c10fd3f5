use procmon::help::help_sections;

#[test]
fn sections_are_non_empty() {
    let sections = help_sections();
    assert!(!sections.is_empty());
    for s in &sections {
        assert!(!s.rows.is_empty(), "section {} has no rows", s.title);
    }
}

#[test]
fn every_shortcut_has_a_label() {
    for s in &help_sections() {
        for (k, d) in &s.rows {
            assert!(!k.is_empty(), "empty key in {}", s.title);
            assert!(!d.is_empty(), "empty desc for {} in {}", k, s.title);
        }
    }
}

#[test]
fn help_lists_ten_sections_in_order() {
    let sections = help_sections();
    assert_eq!(sections.len(), 10);
    assert_eq!(sections[0].title, "全局");
    assert_eq!(sections[0].rows[0], ("1-6", "切换面板（1 进程列表 / 2 进程树 / 3 端口 / 4 U盘 / 5 监控 / 6 Docker）"));
    assert_eq!(sections[1].rows.len(), 5);
    assert_eq!(sections[9].title, "帮助页");
    assert_eq!(sections[9].rows[2], ("Home / End", "跳到顶部 / 底部"));
}
