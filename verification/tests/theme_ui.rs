use procmon::theme::{parse_index, theme_count, ThemeState, THEME_COUNT};
use procmon::ui_state::{
    load_first_run, load_sidebar_expanded, load_sort_field, mark_first_run_done, parse_first_run, parse_sidebar_expanded,
    parse_sort_field, render_state, save_sidebar_expanded, save_sort_field, SortField,
};

#[test]
fn themes_includes_light() {
    assert_eq!(theme_count(), 10);
    let mut t = ThemeState::new();
    for _ in 0..9 {
        t.cycle_theme(None);
    }
    assert_eq!(t.theme_name(), "Light");
}

#[test]
fn cycle_theme_wraps_within_bounds() {
    let mut t = ThemeState::new();
    for _ in 0..(THEME_COUNT * 3) {
        t.cycle_theme(None);
    }
    let idx = t.index();
    assert!(idx < theme_count());
}

#[test]
fn parse_index_accepts_valid() {
    assert_eq!(parse_index("0"), Some(0));
    assert_eq!(parse_index("9"), Some(9));
    assert_eq!(parse_index("  3  "), Some(3));
}

#[test]
fn parse_index_rejects_out_of_range() {
    assert_eq!(parse_index("999"), None);
}

#[test]
fn parse_index_rejects_garbage() {
    assert_eq!(parse_index("garbage"), None);
    assert_eq!(parse_index(""), None);
}

#[test]
fn persisted_theme_loads_once_and_cycle_returns_saved_text() {
    let mut t = ThemeState::new();
    let saved = t.cycle_theme(Some("7\n"));
    assert_eq!(t.index(), 8);
    assert_eq!(saved, "8");
    t.init_persisted_theme(Some("2"));
    assert_eq!(t.index(), 8);
    assert_eq!(t.theme_name(), "Tokyo Night");
    assert_eq!(parse_index(&saved), Some(8));
}

#[test]
fn sort_field_roundtrip() {
    for f in [
        SortField::Cpu,
        SortField::Memory,
        SortField::Pid,
        SortField::Name,
        SortField::Security,
        SortField::DiskRead,
        SortField::DiskWrite,
        SortField::NetSent,
        SortField::NetRecv,
    ] {
        assert_eq!(SortField::parse_from_str(f.as_str()), Some(f));
    }
}

#[test]
fn from_str_rejects_unknown() {
    assert_eq!(SortField::parse_from_str("unknown"), None);
    assert_eq!(SortField::parse_from_str(""), None);
}

#[test]
fn parse_sort_field_accepts_valid() {
    assert_eq!(parse_sort_field("sort_field = \"memory\""), Some(SortField::Memory));
}

#[test]
fn parse_sort_field_skips_comments_and_blank() {
    let text = "# header\n\nsort_field = \"pid\"\n";
    assert_eq!(parse_sort_field(text), Some(SortField::Pid));
}

#[test]
fn parse_sort_field_returns_none_when_missing() {
    assert_eq!(parse_sort_field("# nothing here\n"), None);
    assert_eq!(parse_sort_field(""), None);
}

#[test]
fn parse_first_run_accepts_bool_literals() {
    assert_eq!(parse_first_run("first_run = true"), Some(true));
    assert_eq!(parse_first_run("first_run = false"), Some(false));
}

#[test]
fn parse_first_run_skips_comments_and_blank() {
    let text = "# header\n\nfirst_run = true\n";
    assert_eq!(parse_first_run(text), Some(true));
}

#[test]
fn parse_first_run_returns_none_when_missing() {
    assert_eq!(parse_first_run("# nothing here\n"), None);
    assert_eq!(parse_first_run(""), None);
}

#[test]
fn parse_first_run_rejects_garbage() {
    assert_eq!(parse_first_run("first_run = yes"), None);
    assert_eq!(parse_first_run("first_run = 1"), None);
}

#[test]
fn parse_sort_field_ignores_first_run_line() {
    let text = "sort_field = \"cpu\"\nfirst_run = false\n";
    assert_eq!(parse_sort_field(text), Some(SortField::Cpu));
}

#[test]
fn parse_first_run_ignores_sort_field_line() {
    let text = "sort_field = \"cpu\"\nfirst_run = false\n";
    assert_eq!(parse_first_run(text), Some(false));
}

#[test]
fn parse_sidebar_expanded_accepts_bool_literals() {
    assert_eq!(parse_sidebar_expanded("sidebar_expanded = true"), Some(true));
    assert_eq!(parse_sidebar_expanded("sidebar_expanded = false"), Some(false));
}

#[test]
fn parse_sidebar_expanded_returns_none_when_missing() {
    assert_eq!(parse_sidebar_expanded("# nothing here\n"), None);
    assert_eq!(parse_sidebar_expanded("sort_field = \"cpu\"\n"), None);
}

#[test]
fn parse_sidebar_expanded_rejects_garbage() {
    assert_eq!(parse_sidebar_expanded("sidebar_expanded = yes"), None);
    assert_eq!(parse_sidebar_expanded("sidebar_expanded = 1"), None);
}

#[test]
fn parse_sidebar_expanded_ignores_other_lines() {
    let text = "sort_field = \"cpu\"\nfirst_run = false\nsidebar_expanded = true\n";
    assert_eq!(parse_sidebar_expanded(text), Some(true));
}

#[test]
fn rendered_state_reads_back() {
    let text = render_state(SortField::NetRecv, false, true);
    assert_eq!(
        text,
        "# proc UI 偏好 — 由 proc 自动维护\nsort_field = \"net_recv\"\nfirst_run = false\nsidebar_expanded = true\n"
    );
    assert_eq!(parse_sort_field(&text), Some(SortField::NetRecv));
    assert_eq!(parse_first_run(&text), Some(false));
    assert_eq!(parse_sidebar_expanded(&text), Some(true));
}

#[test]
fn saving_one_setting_keeps_the_others() {
    let old = render_state(SortField::Pid, false, true);
    let a = save_sort_field(SortField::Memory, Some(&old));
    assert_eq!(parse_sort_field(&a), Some(SortField::Memory));
    assert_eq!(parse_first_run(&a), Some(false));
    assert_eq!(parse_sidebar_expanded(&a), Some(true));
    let b = mark_first_run_done(Some(&render_state(SortField::Name, true, false)));
    assert_eq!(parse_sort_field(&b), Some(SortField::Name));
    assert_eq!(parse_first_run(&b), Some(false));
    let c = save_sidebar_expanded(true, None);
    assert_eq!(parse_sort_field(&c), Some(SortField::Cpu));
    assert_eq!(parse_first_run(&c), Some(true));
    assert_eq!(parse_sidebar_expanded(&c), Some(true));
}

#[test]
fn loading_defaults_without_file() {
    assert_eq!(load_sort_field(None), None);
    assert!(load_first_run(None));
    assert!(!load_sidebar_expanded(None));
    assert!(load_first_run(Some("first_run = maybe")));
}

#[test]
fn marking_first_run_done_twice_writes_the_same_text() {
    let once = mark_first_run_done(Some("sort_field = \"pid\"\nsidebar_expanded = true\n"));
    let twice = mark_first_run_done(Some(&once));
    assert_eq!(once, twice);
    assert!(!load_first_run(Some(&once)));
    assert_eq!(load_sort_field(Some(&once)), Some(SortField::Pid));
    assert!(load_sidebar_expanded(Some(&once)));
}
