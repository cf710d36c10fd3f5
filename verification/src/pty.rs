//! The bytes a pseudo-terminal expects for terminal key presses.
use vstd::prelude::*;

verus! {

/// The key of a key press, as far as the encoding tells keys apart.
#[derive(Clone, Copy, Debug, PartialEq, Eq)]
pub enum PtyKeyCode {
    Enter,
    Tab,
    BackTab,
    Backspace,
    Up,
    Down,
    Right,
    Left,
    Home,
    End,
    Delete,
    PageUp,
    PageDown,
    Char(char),
    /// A function key `F1`..`F12` and beyond.
    F(u8),
    Null,
    /// Any other key (media keys, modifiers pressed alone, ...).
    Other,
}

/// A key press: the key and the Control / Alt modifiers held with it.
#[derive(Clone, Copy, Debug, PartialEq, Eq)]
pub struct PtyKey {
    pub code: PtyKeyCode,
    pub ctrl: bool,
    pub alt: bool,
}

/// The UTF-8 encoding of a character.
pub open spec fn utf8_encode(c: char) -> Seq<u8> {
    let n = c as u32;
    if n < 0x80 {
        seq![n as u8]
    } else if n < 0x800 {
        seq![(0xC0u32 | (n >> 6u32)) as u8, (0x80u32 | (n & 0x3Fu32)) as u8]
    } else if n < 0x10000 {
        seq![
            (0xE0u32 | (n >> 12u32)) as u8,
            (0x80u32 | ((n >> 6u32) & 0x3Fu32)) as u8,
            (0x80u32 | (n & 0x3Fu32)) as u8,
        ]
    } else {
        seq![
            (0xF0u32 | (n >> 18u32)) as u8,
            (0x80u32 | ((n >> 12u32) & 0x3Fu32)) as u8,
            (0x80u32 | ((n >> 6u32) & 0x3Fu32)) as u8,
            (0x80u32 | (n & 0x3Fu32)) as u8,
        ]
    }
}

/// The low byte of a character's code point.
pub open spec fn low_byte(c: char) -> u8 {
    (c as u32) as u8
}

/// The bytes a pseudo-terminal receives for a key press, or `None` for a key
/// with no standard terminal encoding.
///
/// Control+character sends the control code `byte & 0x1f` (Ctrl+C is 0x03,
/// Ctrl+\ is 0x1c); Alt+character sends ESC followed by the character's byte;
/// Control wins over Alt.
pub open spec fn pty_bytes(key: PtyKey) -> Option<Seq<u8>> {
    match key.code {
        PtyKeyCode::Enter => Some(seq![0x0Du8]),
        PtyKeyCode::Tab => Some(seq![0x09u8]),
        PtyKeyCode::BackTab => Some(seq![0x1Bu8, 0x5Bu8, 0x5Au8]),
        PtyKeyCode::Backspace => Some(seq![0x7Fu8]),
        PtyKeyCode::Up => Some(seq![0x1Bu8, 0x5Bu8, 0x41u8]),
        PtyKeyCode::Down => Some(seq![0x1Bu8, 0x5Bu8, 0x42u8]),
        PtyKeyCode::Right => Some(seq![0x1Bu8, 0x5Bu8, 0x43u8]),
        PtyKeyCode::Left => Some(seq![0x1Bu8, 0x5Bu8, 0x44u8]),
        PtyKeyCode::Home => Some(seq![0x1Bu8, 0x5Bu8, 0x48u8]),
        PtyKeyCode::End => Some(seq![0x1Bu8, 0x5Bu8, 0x46u8]),
        PtyKeyCode::Delete => Some(seq![0x1Bu8, 0x5Bu8, 0x33u8, 0x7Eu8]),
        PtyKeyCode::PageUp => Some(seq![0x1Bu8, 0x5Bu8, 0x35u8, 0x7Eu8]),
        PtyKeyCode::PageDown => Some(seq![0x1Bu8, 0x5Bu8, 0x36u8, 0x7Eu8]),
        PtyKeyCode::Char(c) => if key.ctrl {
            Some(seq![low_byte(c) & 0x1Fu8])
        } else if key.alt {
            Some(seq![0x1Bu8, low_byte(c)])
        } else {
            Some(utf8_encode(c))
        },
        PtyKeyCode::F(_) => None,
        PtyKeyCode::Null => None,
        PtyKeyCode::Other => None,
    }
}

/// Encodes a character as UTF-8.
pub fn encode_utf8(c: char) -> (v: Vec<u8>)
    ensures
        v@ == utf8_encode(c),
{
    let n: u32 = c as u32;
    if n < 0x80 {
        vec![n as u8]
    } else if n < 0x800 {
        vec![(0xC0u32 | (n >> 6u32)) as u8, (0x80u32 | (n & 0x3Fu32)) as u8]
    } else if n < 0x10000 {
        vec![
            (0xE0u32 | (n >> 12u32)) as u8,
            (0x80u32 | ((n >> 6u32) & 0x3Fu32)) as u8,
            (0x80u32 | (n & 0x3Fu32)) as u8,
        ]
    } else {
        vec![
            (0xF0u32 | (n >> 18u32)) as u8,
            (0x80u32 | ((n >> 12u32) & 0x3Fu32)) as u8,
            (0x80u32 | ((n >> 6u32) & 0x3Fu32)) as u8,
            (0x80u32 | (n & 0x3Fu32)) as u8,
        ]
    }
}

/// The bytes to write to a pseudo-terminal for a key press; `None` for keys
/// that are not forwarded (function keys, `Null`, ...).
pub fn key_event_to_pty_bytes(key: PtyKey) -> (r: Option<Vec<u8>>)
    ensures
        match r {
            Some(v) => pty_bytes(key) == Some(v@),
            None => pty_bytes(key) is None,
        },
{
    match key.code {
        PtyKeyCode::Enter => Some(vec![0x0Du8]),
        PtyKeyCode::Tab => Some(vec![0x09u8]),
        PtyKeyCode::BackTab => Some(vec![0x1Bu8, 0x5Bu8, 0x5Au8]),
        PtyKeyCode::Backspace => Some(vec![0x7Fu8]),
        PtyKeyCode::Up => Some(vec![0x1Bu8, 0x5Bu8, 0x41u8]),
        PtyKeyCode::Down => Some(vec![0x1Bu8, 0x5Bu8, 0x42u8]),
        PtyKeyCode::Right => Some(vec![0x1Bu8, 0x5Bu8, 0x43u8]),
        PtyKeyCode::Left => Some(vec![0x1Bu8, 0x5Bu8, 0x44u8]),
        PtyKeyCode::Home => Some(vec![0x1Bu8, 0x5Bu8, 0x48u8]),
        PtyKeyCode::End => Some(vec![0x1Bu8, 0x5Bu8, 0x46u8]),
        PtyKeyCode::Delete => Some(vec![0x1Bu8, 0x5Bu8, 0x33u8, 0x7Eu8]),
        PtyKeyCode::PageUp => Some(vec![0x1Bu8, 0x5Bu8, 0x35u8, 0x7Eu8]),
        PtyKeyCode::PageDown => Some(vec![0x1Bu8, 0x5Bu8, 0x36u8, 0x7Eu8]),
        PtyKeyCode::Char(c) => {
            let b: u8 = (c as u32) as u8;
            if key.ctrl {
                // Ctrl+C = 0x03, Ctrl+D = 0x04, Ctrl+\ = 0x1c, Ctrl+U = 0x15 ...
                Some(vec![b & 0x1Fu8])
            } else if key.alt {
                Some(vec![0x1Bu8, b])
            } else {
                Some(encode_utf8(c))
            }
        },
        PtyKeyCode::F(_) => None,
        PtyKeyCode::Null => None,
        PtyKeyCode::Other => None,
    }
}

} // verus!
