use procmon::palette::{default_items, max_display, CommandAction, CommandPalette, PaletteHandleResult, PaletteKey};
use procmon::ui_state::SortField;

fn key(c: char) -> PaletteKey {
    PaletteKey::Char(c)
}

#[test]
fn default_items_count_covers_main_actions() {
    let items = default_items();
    assert!(items.len() >= 40, "expected ≥40 palette items, got {}", items.len());
}

#[test]
fn default_items_have_unique_ids() {
    let items = default_items();
    let mut ids: Vec<&str> = items.iter().map(|i| i.id).collect();
    ids.sort();
    let before = ids.len();
    ids.dedup();
    assert_eq!(before, ids.len(), "duplicate CommandItem.id found");
}

#[test]
fn empty_query_matches_all_items() {
    let p = CommandPalette::new();
    assert_eq!(p.matched_indices().len(), p.items().len());
    assert_eq!(p.selected(), 0);
}

#[test]
fn kill_query_matches_only_kill_actions() {
    let mut p = CommandPalette::new();
    for c in "kill".chars() {
        p.handle_key(key(c));
    }
    let matched_labels: Vec<&str> = p.matched_indices().iter().map(|&i| p.items()[i].label).collect();
    assert!(matched_labels.iter().all(|l| l.to_lowercase().contains("kill")));
    assert!(matched_labels.iter().any(|l| l.contains("Cursor")));
}

#[test]
fn enter_returns_selected_action() {
    let mut p = CommandPalette::new();
    let first_action = p.items()[0].action;
    let result = p.handle_key(PaletteKey::Enter);
    match result {
        PaletteHandleResult::Execute(a) => assert_eq!(a, first_action),
        other => panic!("expected Execute, got {other:?}"),
    }
}

#[test]
fn esc_returns_close() {
    let mut p = CommandPalette::new();
    match p.handle_key(PaletteKey::Esc) {
        PaletteHandleResult::Close => {}
        other => panic!("expected Close, got {other:?}"),
    }
}

#[test]
fn down_arrow_advances_selection_then_clamps() {
    let mut p = CommandPalette::new();
    let total = p.matched_indices().len();
    assert!(total > 1, "default items should have >1 entries");
    p.handle_key(PaletteKey::Down);
    assert_eq!(p.selected(), 1);
    for _ in 0..total {
        p.handle_key(PaletteKey::Down);
    }
    assert_eq!(p.selected(), total - 1);
}

#[test]
fn up_arrow_does_not_underflow() {
    let mut p = CommandPalette::new();
    p.handle_key(PaletteKey::Up);
    assert_eq!(p.selected(), 0);
}

#[test]
fn backspace_pops_last_char() {
    let mut p = CommandPalette::new();
    for c in "abc".chars() {
        p.handle_key(key(c));
    }
    assert_eq!(p.input(), "abc");
    p.handle_key(PaletteKey::Backspace);
    assert_eq!(p.input(), "ab");
}

#[test]
fn ctrl_u_clears_input() {
    let mut p = CommandPalette::new();
    for c in "xyz".chars() {
        p.handle_key(key(c));
    }
    p.handle_key(PaletteKey::ClearInput);
    assert!(p.input().is_empty());
    assert_eq!(p.matched_indices().len(), p.items().len());
}

#[test]
fn reset_restores_empty_state() {
    let mut p = CommandPalette::new();
    for c in "kill".chars() {
        p.handle_key(key(c));
    }
    p.handle_key(PaletteKey::Down);
    p.reset();
    assert!(p.input().is_empty());
    assert_eq!(p.matched_indices().len(), p.items().len());
    assert_eq!(p.selected(), 0);
}

#[test]
fn query_typo_scores_lower_but_still_matches_some() {
    let mut p = CommandPalette::new();
    for c in "thm".chars() {
        p.handle_key(key(c));
    }
    assert!(!p.matched_indices().is_empty());
    let matched_labels: Vec<&str> = p.matched_indices().iter().map(|&i| p.items()[i].label).collect();
    assert!(
        matched_labels.iter().any(|l| l.to_lowercase().contains("theme")),
        "expected Theme items in matches, got {matched_labels:?}"
    );
}

#[test]
fn selected_index_clamps_after_backspace_shrinks_matches() {
    let mut p = CommandPalette::new();
    for c in "zzzz".chars() {
        p.handle_key(key(c));
    }
    assert!(p.selected() < p.matched_indices().len().max(1));
    p.handle_key(PaletteKey::Backspace);
    p.handle_key(PaletteKey::Backspace);
    p.handle_key(PaletteKey::Backspace);
    p.handle_key(PaletteKey::Backspace);
    assert!(p.selected() < p.matched_indices().len().max(1));
}

#[test]
fn matches_are_ranked_and_distinct() {
    let mut p = CommandPalette::new();
    for c in "sort".chars() {
        p.handle_key(key(c));
    }
    let m = p.matched_indices().to_vec();
    let mut d = m.clone();
    d.sort();
    d.dedup();
    assert_eq!(d.len(), m.len());
    assert!(m.iter().any(|&i| p.items()[i].action == CommandAction::SortBy(SortField::Memory)));
}

#[test]
fn max_display_is_ten() {
    assert_eq!(max_display(), 10);
}
