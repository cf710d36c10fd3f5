//! The colour themes: which one is current, cycling through them, and the
//! persisted theme index.
use vstd::prelude::*;
use crate::security::score::{parse_unsigned, parse_unsigned_exec};
use crate::text::{chars_of, decimal, decimal_string, digit_char, trim, trim_str};

verus! {

/// Number of themes.
pub const THEME_COUNT: usize = 10;

/// The names of the themes, in cycling order.
pub open spec fn theme_names() -> Seq<Seq<char>> {
    seq![
        "Dark"@,
        "Catppuccin"@,
        "Dracula"@,
        "Gruvbox"@,
        "One Dark"@,
        "Rose Pine"@,
        "Nord"@,
        "Solarized"@,
        "Tokyo Night"@,
        "Light"@,
    ]
}

/// The theme index stored in the theme file's text, if it is a valid one:
/// the trimmed text parses as an unsigned integer below [`THEME_COUNT`].
pub open spec fn stored_index(raw: Seq<char>) -> Option<usize> {
    match parse_unsigned(trim(raw), u64::MAX as nat) {
        Some(v) => if v < THEME_COUNT {
            Some(v as usize)
        } else {
            None
        },
        None => None,
    }
}

/// The theme index stored in a theme file's text, if it is valid.
pub fn parse_index(raw: &str) -> (r: Option<usize>)
    ensures
        r == stored_index(raw@),
{
    let t = trim_str(raw);
    let v = chars_of(t.as_str());
    match parse_unsigned_exec(&v, 0, v.len(), 18446744073709551615u64) {
        Some(x) => {
            assert(v@.subrange(0, v@.len() as int) =~= trim(raw@));
            if x < 10 {
                Some(x as usize)
            } else {
                None
            }
        },
        None => {
            assert(v@.subrange(0, v@.len() as int) =~= trim(raw@));
            None
        },
    }
}

/// The number of themes.
pub fn theme_count() -> (n: usize)
    ensures
        n == THEME_COUNT,
{
    THEME_COUNT
}

/// The current theme and whether the persisted index was loaded.
pub struct ThemeState {
    index: usize,
    initialized: bool,
}

impl ThemeState {
    /// The current index is a valid one.
    pub closed spec fn wf(&self) -> bool {
        self.index < THEME_COUNT
    }

    /// The index of the current theme.
    pub closed spec fn current(&self) -> usize {
        self.index
    }

    /// Whether the persisted index was loaded.
    pub closed spec fn loaded(&self) -> bool {
        self.initialized
    }

    /// The first theme, nothing loaded yet.
    pub fn new() -> (t: ThemeState)
        ensures
            t.wf(),
            t.current() == 0,
            !t.loaded(),
    {
        ThemeState { index: 0, initialized: false }
    }

    /// A well-formed state names one of the themes.
    pub proof fn lemma_wf_current(&self)
        requires
            self.wf(),
        ensures
            self.current() < THEME_COUNT,
    {
    }

    /// The index of the current theme.
    pub fn index(&self) -> (i: usize)
        ensures
            i == self.current(),
            self.wf() ==> i < THEME_COUNT,
    {
        self.index
    }

    /// Loads the persisted index once: `persisted` is the theme file's text
    /// (`None` without a file).  A valid index becomes current; later calls
    /// change nothing.
    pub fn init_persisted_theme(&mut self, persisted: Option<&str>)
        requires
            old(self).wf(),
        ensures
            final(self).wf(),
            final(self).loaded(),
            final(self).current() == if old(self).loaded() {
                old(self).current()
            } else {
                match persisted {
                    Some(raw) => match stored_index(raw@) {
                        Some(i) => i,
                        None => old(self).current(),
                    },
                    None => old(self).current(),
                }
            },
    {
        if self.initialized {
            return;
        }
        self.initialized = true;
        if let Some(raw) = persisted {
            if let Some(i) = parse_index(raw) {
                self.index = i;
            }
        }
    }

    /// Moves to the next theme, wrapping after the last, and returns the text
    /// to persist (the new index in decimal).  Loads the persisted index
    /// first if that was not done.
    pub fn cycle_theme(&mut self, persisted: Option<&str>) -> (saved: String)
        requires
            old(self).wf(),
        ensures
            final(self).wf(),
            final(self).loaded(),
            final(self).current() == (start_index(*old(self), persisted) + 1) % (THEME_COUNT as int),
            saved@ == decimal(final(self).current() as nat),
    {
        self.init_persisted_theme(persisted);
        let new = (self.index + 1) % THEME_COUNT;
        self.index = new;
        decimal_string(new as u128)
    }

    /// The name of the current theme.
    pub fn theme_name(&self) -> (s: &'static str)
        requires
            self.wf(),
        ensures
            s@ == theme_names()[self.current() as int],
    {
        let names: [&'static str; 10] = [
            "Dark",
            "Catppuccin",
            "Dracula",
            "Gruvbox",
            "One Dark",
            "Rose Pine",
            "Nord",
            "Solarized",
            "Tokyo Night",
            "Light",
        ];
        let s = names[self.index];
        proof {
            assert(names@.map_values(|x: &'static str| x@) =~= theme_names());
            assert(names@.map_values(|x: &'static str| x@)[self.index as int] == s@);
        }
        s
    }
}

/// The index a cycle starts from: the current one, or the persisted one
/// when it is loaded now.
pub open spec fn start_index(t: ThemeState, persisted: Option<&str>) -> usize {
    if t.loaded() {
        t.current()
    } else {
        match persisted {
            Some(raw) => match stored_index(raw@) {
                Some(i) => i,
                None => t.current(),
            },
            None => t.current(),
        }
    }
}

/// A saved theme index is read back as itself.
pub proof fn law_theme_index_read_back(i: usize)
    requires
        i < THEME_COUNT,
    ensures
        stored_index(decimal(i as nat)) == Some(i),
{
    let d = decimal(i as nat);
    assert(d == seq![digit_char(i as nat)]);
    assert(!crate::text::is_white(d[0]));
    assert(crate::text::trim_start(d) == d);
    assert(crate::text::trim_end(d) == d);
    let u = crate::security::score::unsigned_digits(d);
    assert(u == d);
    assert(crate::security::score::all_digits(d));
    assert(d.drop_last() =~= Seq::<char>::empty());
    assert(d.last() == digit_char(i as nat));
    assert((digit_char(i as nat) as nat) == 48 + i);
    assert(crate::security::score::digits_value(d.drop_last()) == 0);
    assert(crate::security::score::digits_value(d) == i);
}

} // verus!
