use procmon::search::{edits_query, FilterExpr, QueryMode, SearchKey, SearchState};

fn key(c: char) -> SearchKey {
    SearchKey::Char(c)
}

#[test]
fn ascii_input_keeps_lower_in_sync() {
    let mut s = SearchState::new();
    for c in "Chrome".chars() {
        s.handle_input(key(c));
    }
    assert_eq!(s.query(), "Chrome");
    assert_eq!(s.query_lower(), "chrome");
}

#[test]
fn ascii_backspace_pops_lower() {
    let mut s = SearchState::new();
    for c in "ABC".chars() {
        s.handle_input(key(c));
    }
    assert_eq!(s.query_lower(), "abc");
    s.handle_input(SearchKey::Backspace);
    assert_eq!(s.query(), "AB");
    assert_eq!(s.query_lower(), "ab");
    s.handle_input(SearchKey::Backspace);
    s.handle_input(SearchKey::Backspace);
    assert_eq!(s.query(), "");
    assert_eq!(s.query_lower(), "");
}

#[test]
fn non_ascii_input_falls_back_correctly() {
    let mut s = SearchState::new();
    s.handle_input(key('İ'));
    assert_eq!(s.query(), "İ");
    assert_eq!(s.query_lower(), "i̇");
}

#[test]
fn non_ascii_then_backspace_recalculates() {
    let mut s = SearchState::new();
    s.handle_input(key('İ'));
    s.handle_input(SearchKey::Backspace);
    assert_eq!(s.query(), "");
    assert_eq!(s.query_lower(), "");
}

#[test]
fn ascii_after_non_ascii_still_uses_fallback() {
    let mut s = SearchState::new();
    s.handle_input(key('İ'));
    s.handle_input(key('a'));
    assert_eq!(s.query(), "İa");
    assert_eq!(s.query_lower(), "i̇a");
}

#[test]
fn ascii_after_clear_resumes_incremental() {
    let mut s = SearchState::new();
    s.handle_input(key('İ'));
    s.clear();
    s.handle_input(key('A'));
    assert_eq!(s.query(), "A");
    assert_eq!(s.query_lower(), "a");
}

#[test]
fn esc_resets_sync_flag() {
    let mut s = SearchState::new();
    s.handle_input(key('İ'));
    s.handle_input(SearchKey::Esc);
    s.handle_input(key('X'));
    assert_eq!(s.query(), "X");
    assert_eq!(s.query_lower(), "x");
}

#[test]
fn ascii_digits_and_symbols_passthrough() {
    let mut s = SearchState::new();
    for c in "abc-123_XYZ".chars() {
        s.handle_input(key(c));
    }
    assert_eq!(s.query(), "abc-123_XYZ");
    assert_eq!(s.query_lower(), "abc-123_xyz");
}

#[test]
fn activate_filter_expr_sets_mode() {
    let mut s = SearchState::new();
    s.activate_filter_expr();
    assert_eq!(s.mode, QueryMode::FilterExpr);
    assert!(s.is_active());
    assert!(s.filter_expr.is_none());
    assert!(s.filter_error.is_none());
}

#[test]
fn enter_keeps_query_and_leaves_box() {
    let mut s = SearchState::new();
    s.activate_substring();
    s.handle_input(key('q'));
    assert!(s.handle_input(SearchKey::Enter));
    assert!(!s.is_active());
    assert_eq!(s.query(), "q");
    assert!(!s.handle_input(SearchKey::Other));
}

#[test]
fn failed_parse_keeps_previous_expression() {
    let mut s = SearchState::new();
    s.activate_filter_expr();
    for c in "cpu > 5".chars() {
        s.handle_input(key(c));
    }
    s.reparse_filter(Ok(FilterExpr { source: "cpu > 5".to_string() }));
    assert!(s.filter_expr.is_some());
    assert!(s.filter_error.is_none());
    s.handle_input(key(')'));
    assert!(edits_query(&key(')')));
    s.reparse_filter(Err("unexpected )".to_string()));
    assert_eq!(s.filter_expr.as_ref().map(|e| e.source.as_str()), Some("cpu > 5"));
    assert_eq!(s.filter_error.as_deref(), Some("unexpected )"));
}

#[test]
fn empty_query_clears_expression() {
    let mut s = SearchState::new();
    s.activate_filter_expr();
    s.handle_input(key('x'));
    s.reparse_filter(Ok(FilterExpr { source: "x".to_string() }));
    s.handle_input(SearchKey::Backspace);
    s.reparse_filter(Err("ignored".to_string()));
    assert!(s.filter_expr.is_none());
    assert!(s.filter_error.is_none());
}

#[test]
fn esc_resets_filter_mode() {
    let mut s = SearchState::new();
    s.activate_filter_expr();
    s.handle_input(key('c'));
    s.reparse_filter(Ok(FilterExpr { source: "c".to_string() }));
    s.handle_input(SearchKey::Esc);
    assert_eq!(s.mode, QueryMode::Substring);
    assert!(s.query.is_empty());
    assert!(s.filter_expr.is_none());
    assert!(s.filter_error.is_none());
}
