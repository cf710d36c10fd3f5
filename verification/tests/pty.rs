use procmon::pty::{key_event_to_pty_bytes, PtyKey, PtyKeyCode};

fn ev(code: PtyKeyCode) -> PtyKey {
    PtyKey { code, ctrl: false, alt: false }
}

fn ev_ctrl(c: char) -> PtyKey {
    PtyKey { code: PtyKeyCode::Char(c), ctrl: true, alt: false }
}

fn ev_alt(c: char) -> PtyKey {
    PtyKey { code: PtyKeyCode::Char(c), ctrl: false, alt: true }
}

#[test]
fn pty_enter_produces_cr() {
    assert_eq!(key_event_to_pty_bytes(ev(PtyKeyCode::Enter)), Some(b"\r".to_vec()));
}

#[test]
fn pty_tab_produces_tab_char() {
    assert_eq!(key_event_to_pty_bytes(ev(PtyKeyCode::Tab)), Some(b"\t".to_vec()));
}

#[test]
fn pty_backtab_produces_csi_z() {
    assert_eq!(key_event_to_pty_bytes(ev(PtyKeyCode::BackTab)), Some(b"\x1b[Z".to_vec()));
}

#[test]
fn pty_backspace_produces_del() {
    assert_eq!(key_event_to_pty_bytes(ev(PtyKeyCode::Backspace)), Some(b"\x7f".to_vec()));
}

#[test]
fn pty_arrow_keys_produce_ansi_cursor_sequences() {
    assert_eq!(key_event_to_pty_bytes(ev(PtyKeyCode::Up)), Some(b"\x1b[A".to_vec()));
    assert_eq!(key_event_to_pty_bytes(ev(PtyKeyCode::Down)), Some(b"\x1b[B".to_vec()));
    assert_eq!(key_event_to_pty_bytes(ev(PtyKeyCode::Right)), Some(b"\x1b[C".to_vec()));
    assert_eq!(key_event_to_pty_bytes(ev(PtyKeyCode::Left)), Some(b"\x1b[D".to_vec()));
}

#[test]
fn pty_home_end_produce_ansi_sequences() {
    assert_eq!(key_event_to_pty_bytes(ev(PtyKeyCode::Home)), Some(b"\x1b[H".to_vec()));
    assert_eq!(key_event_to_pty_bytes(ev(PtyKeyCode::End)), Some(b"\x1b[F".to_vec()));
}

#[test]
fn pty_del_pageup_pagedown_produce_ansi_sequences() {
    assert_eq!(key_event_to_pty_bytes(ev(PtyKeyCode::Delete)), Some(b"\x1b[3~".to_vec()));
    assert_eq!(key_event_to_pty_bytes(ev(PtyKeyCode::PageUp)), Some(b"\x1b[5~".to_vec()));
    assert_eq!(key_event_to_pty_bytes(ev(PtyKeyCode::PageDown)), Some(b"\x1b[6~".to_vec()));
}

#[test]
fn pty_ctrl_common_shortcuts_explicit_mappings() {
    assert_eq!(key_event_to_pty_bytes(ev_ctrl('c')), Some(vec![0x03]));
    assert_eq!(key_event_to_pty_bytes(ev_ctrl('d')), Some(vec![0x04]));
    assert_eq!(key_event_to_pty_bytes(ev_ctrl('\\')), Some(vec![0x1c]));
    assert_eq!(key_event_to_pty_bytes(ev_ctrl('a')), Some(vec![0x01]));
    assert_eq!(key_event_to_pty_bytes(ev_ctrl('e')), Some(vec![0x05]));
    assert_eq!(key_event_to_pty_bytes(ev_ctrl('k')), Some(vec![0x0b]));
    assert_eq!(key_event_to_pty_bytes(ev_ctrl('u')), Some(vec![0x15]));
    assert_eq!(key_event_to_pty_bytes(ev_ctrl('w')), Some(vec![0x17]));
    assert_eq!(key_event_to_pty_bytes(ev_ctrl('l')), Some(vec![0x0c]));
    assert_eq!(key_event_to_pty_bytes(ev_ctrl('r')), Some(vec![0x12]));
}

#[test]
fn pty_ctrl_other_letters_apply_xor_0x1f_rule() {
    assert_eq!(key_event_to_pty_bytes(ev_ctrl('x')), Some(vec![0x18]));
    assert_eq!(key_event_to_pty_bytes(ev_ctrl('z')), Some(vec![0x1a]));
    assert_eq!(key_event_to_pty_bytes(ev_ctrl('b')), Some(vec![0x02]));
}

#[test]
fn pty_alt_plus_char_produces_esc_prefix() {
    assert_eq!(key_event_to_pty_bytes(ev_alt('x')), Some(vec![0x1b, b'x']));
    assert_eq!(key_event_to_pty_bytes(ev_alt('A')), Some(vec![0x1b, b'A']));
}

#[test]
fn pty_plain_char_produces_utf8_bytes() {
    assert_eq!(key_event_to_pty_bytes(ev(PtyKeyCode::Char('a'))), Some(b"a".to_vec()));
    assert_eq!(key_event_to_pty_bytes(ev(PtyKeyCode::Char('A'))), Some(b"A".to_vec()));
    assert_eq!(key_event_to_pty_bytes(ev(PtyKeyCode::Char('1'))), Some(b"1".to_vec()));
}

#[test]
fn pty_non_ascii_char_produces_utf8() {
    assert_eq!(key_event_to_pty_bytes(ev(PtyKeyCode::Char('中'))), Some(vec![0xe4, 0xb8, 0xad]));
}

#[test]
fn pty_function_keys_return_none() {
    assert_eq!(key_event_to_pty_bytes(ev(PtyKeyCode::F(1))), None);
    assert_eq!(key_event_to_pty_bytes(ev(PtyKeyCode::F(5))), None);
    assert_eq!(key_event_to_pty_bytes(ev(PtyKeyCode::F(12))), None);
}

#[test]
fn pty_null_returns_none() {
    assert_eq!(key_event_to_pty_bytes(ev(PtyKeyCode::Null)), None);
}

#[test]
fn utf8_encoding_covers_every_length() {
    for c in ['a', 'é', '中', '😀', '\u{7f}', '\u{80}', '\u{7ff}', '\u{800}', '\u{ffff}', '\u{10000}', '\u{10ffff}'] {
        let mut buf = [0u8; 4];
        let expected = c.encode_utf8(&mut buf).as_bytes().to_vec();
        assert_eq!(procmon::pty::encode_utf8(c), expected);
    }
}

#[test]
fn ctrl_wins_over_alt() {
    let key = PtyKey { code: PtyKeyCode::Char('c'), ctrl: true, alt: true };
    assert_eq!(key_event_to_pty_bytes(key), Some(vec![0x03]));
}
