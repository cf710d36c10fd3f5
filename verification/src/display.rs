//! Small text rules of the panels: worker-name truncation and the
//! case-insensitive filter of the inspector tabs.
use vstd::prelude::*;
use crate::text::{
    chars_of, contains_chars, find_chars, first_index, has_sub, is_first_occurrence, lemma_first_occurrence_unique,
    lower_chars, occurs_at, occurs_at_exec, push_char, starts_with, string_of, trim, trim_bounds, unicode_lower,
    utf8_len, utf8_len_char, utf8_len_char_exec, views, decimal, push_decimal, str_eq,
};

verus! {

/// Widest worker name shown, in characters.
pub const MAX_WORKER_NAME: usize = 10;

/// A worker name as shown: unchanged when it has at most ten characters,
/// otherwise its first nine followed by `…`.
pub open spec fn truncated_name(name: Seq<char>) -> Seq<char> {
    if name.len() <= MAX_WORKER_NAME {
        name
    } else {
        name.take(MAX_WORKER_NAME - 1).push('…')
    }
}

/// Shortens a worker name to ten characters.
pub fn truncate_worker_name(name: &str) -> (r: String)
    ensures
        r@ == truncated_name(name@),
        r@.len() <= MAX_WORKER_NAME,
{
    let cs = chars_of(name);
    if cs.len() <= MAX_WORKER_NAME {
        return string_of(&cs, 0, cs.len());
    }
    let mut s = string_of(&cs, 0, MAX_WORKER_NAME - 1);
    push_char(&mut s, '…');
    assert(cs@.subrange(0, 9) =~= name@.take(9));
    s
}

/// `haystack` contains `query`, ignoring case; the empty query matches
/// everything.
pub open spec fn matches_query_spec(haystack: Seq<char>, query: Seq<char>) -> bool {
    query.len() == 0 || has_sub(unicode_lower(haystack), unicode_lower(query))
}

/// Whether `haystack` contains `query`, ignoring case.
pub fn matches_query(haystack: &str, query: &str) -> (b: bool)
    ensures
        b == matches_query_spec(haystack@, query@),
{
    if query.unicode_len() == 0 {
        return true;
    }
    let q = lower_chars(query);
    let h = lower_chars(haystack);
    contains_chars(&h, &q)
}

/// What `unicode_width::UnicodeWidthChar::width` gives for a character: its
/// terminal width in columns, `None` for a control character.
pub uninterp spec fn char_columns(c: char) -> Option<usize>;

/// What `unicode_width::UnicodeWidthStr::width` gives for a string: its
/// terminal width in columns.
pub uninterp spec fn str_columns(s: Seq<char>) -> usize;

/// Calls `unicode_width::UnicodeWidthChar::width`. Its result is a table
/// lookup in the Unicode width tables of the crate, named `char_columns`.
#[verifier::external_body]
fn char_width(c: char) -> (w: Option<usize>)
    ensures
        w == char_columns(c),
{
    unicode_width::UnicodeWidthChar::width(c)
}

/// Calls `unicode_width::UnicodeWidthStr::width`. Its result depends on the
/// whole string (emoji and joiner sequences), named `str_columns`.
#[verifier::external_body]
fn str_width(s: &str) -> (w: usize)
    ensures
        w == str_columns(s@),
{
    unicode_width::UnicodeWidthStr::width(s)
}

/// The width of each character, a control character counting as zero.
pub open spec fn column_widths(s: Seq<char>) -> Seq<usize> {
    s.map_values(|c: char| match char_columns(c) {
        Some(w) => w,
        None => 0usize,
    })
}

/// How many leading characters fit into `budget` columns, taking characters
/// from the front until the next one would overflow.
pub open spec fn fit_count(widths: Seq<usize>, budget: int) -> nat
    decreases widths.len(),
{
    if widths.len() == 0 || widths[0] > budget {
        0
    } else {
        1 + fit_count(widths.drop_first(), budget - widths[0])
    }
}

/// A string cut to `max_width` columns: empty for a zero width, unchanged
/// when its total width fits, otherwise the leading characters that fit into
/// one column less, followed by `…`.
pub open spec fn truncated_to_width(s: Seq<char>, max_width: nat, total: nat, widths: Seq<usize>) -> Seq<char> {
    if max_width == 0 {
        Seq::empty()
    } else if total <= max_width {
        s
    } else {
        s.take(fit_count(widths, max_width - 1) as int).push('…')
    }
}

/// Cuts `s` to `max_width` columns, given its total width and the width of
/// each of its characters.
pub fn truncate_to_width(s: &str, max_width: usize, total_width: usize, widths: &[usize]) -> (r: String)
    requires
        widths@.len() == s@.len(),
    ensures
        r@ == truncated_to_width(s@, max_width as nat, total_width as nat, widths@),
{
    if max_width == 0 {
        return String::new();
    }
    let cs = chars_of(s);
    if total_width <= max_width {
        return string_of(&cs, 0, cs.len());
    }
    let budget: usize = max_width - 1;
    let mut width: usize = 0;
    let mut i: usize = 0;
    assert(widths@.skip(0) =~= widths@);
    while i < widths.len()
        invariant
            i <= widths.len(),
            widths@.len() == cs@.len(),
            width <= budget,
            fit_count(widths@, budget as int) == i + fit_count(widths@.skip(i as int), budget - width),
        ensures
            fit_count(widths@, budget as int) == i,
            i <= widths.len(),
        decreases widths.len() - i,
    {
        let w = widths[i];
        assert(widths@.skip(i as int).drop_first() =~= widths@.skip(i + 1));
        if w > budget - width {
            break;
        }
        width = width + w;
        i = i + 1;
    }
    let mut out = string_of(&cs, 0, i);
    push_char(&mut out, '…');
    assert(cs@.subrange(0, i as int) =~= s@.take(i as int));
    out
}

/// Cuts a string to `max_width` terminal columns, marking a cut with `…`.
pub fn truncate_str(s: &str, max_width: usize) -> (r: String)
    ensures
        r@ == truncated_to_width(s@, max_width as nat, str_columns(s@) as nat, column_widths(s@)),
{
    let total = str_width(s);
    let cs = chars_of(s);
    let mut widths: Vec<usize> = Vec::new();
    let mut i: usize = 0;
    while i < cs.len()
        invariant
            i <= cs.len(),
            cs@ == s@,
            widths@ == column_widths(s@).take(i as int),
        decreases cs.len() - i,
    {
        let w = match char_width(cs[i]) {
            Some(w) => w,
            None => 0,
        };
        widths.push(w);
        i = i + 1;
        assert(widths@ =~= column_widths(s@).take(i as int));
    }
    assert(widths@ =~= column_widths(s@));
    truncate_to_width(s, max_width, total, widths.as_slice())
}

/// A ten-cell usage bar: one full cell per ten percent, a half cell for a
/// remainder, light cells for the rest.
pub open spec fn usage_bar(percent: nat) -> Seq<char> {
    let filled = percent / 10;
    let partial = percent % 10;
    let empty = 10 - filled - (if partial > 0 { 1int } else { 0int });
    Seq::new(filled, |i: int| '\u{2588}')
        + (if partial > 0 { seq!['\u{2593}'] } else { Seq::<char>::empty() })
        + Seq::new(empty as nat, |i: int| '\u{2591}')
}

/// Draws a usage bar for a percentage of at most 100.
pub fn make_bar(percent: u32) -> (bar: String)
    requires
        percent <= 100,
    ensures
        bar@ == usage_bar(percent as nat),
        bar@.len() == 10,
{
    let filled: usize = (percent as usize) / 10;
    let partial: usize = (percent as usize) % 10;
    let empty: usize = 10 - filled - if partial > 0 { 1 } else { 0 };
    let mut bar = String::new();
    let mut i: usize = 0;
    while i < filled
        invariant
            i <= filled,
            bar@ == Seq::new(i as nat, |k: int| '\u{2588}'),
        decreases filled - i,
    {
        push_char(&mut bar, '\u{2588}');
        i = i + 1;
        assert(bar@ =~= Seq::new(i as nat, |k: int| '\u{2588}'));
    }
    if partial > 0 {
        push_char(&mut bar, '\u{2593}');
    }
    let ghost head = bar@;
    assert(head =~= Seq::new(filled as nat, |k: int| '\u{2588}')
        + (if partial > 0 { seq!['\u{2593}'] } else { Seq::<char>::empty() }));
    let mut j: usize = 0;
    while j < empty
        invariant
            j <= empty,
            bar@ == head + Seq::new(j as nat, |k: int| '\u{2591}'),
        decreases empty - j,
    {
        push_char(&mut bar, '\u{2591}');
        j = j + 1;
        assert(bar@ =~= head + Seq::new(j as nat, |k: int| '\u{2591}'));
    }
    bar
}

/// `s` with every occurrence of `p` removed, matches taken from the left
/// without overlap (what `str::replace(p, "")` gives).
pub open spec fn remove_all(s: Seq<char>, p: Seq<char>) -> Seq<char>
    decreases s.len(),
{
    if p.len() == 0 || s.len() < p.len() {
        s
    } else if s.take(p.len() as int) == p {
        remove_all(s.skip(p.len() as int), p)
    } else {
        seq![s[0]] + remove_all(s.drop_first(), p)
    }
}

/// The leading characters of `s` whose UTF-8 encoding takes exactly `n`
/// bytes; `None` when byte `n` falls inside a character or past the end.
pub open spec fn byte_prefix(s: Seq<char>, n: int) -> Option<Seq<char>>
    decreases s.len(),
{
    if n == 0 {
        Some(Seq::empty())
    } else if n < 0 || s.len() == 0 {
        None
    } else {
        match byte_prefix(s.drop_first(), n - utf8_len_char(s[0])) {
            Some(t) => Some(seq![s[0]] + t),
            None => None,
        }
    }
}

/// A GPU model name without the `(R)` and `(TM)` marks, trimmed.
pub open spec fn gpu_name_core(n: Seq<char>) -> Seq<char> {
    trim(remove_all(remove_all(n, "(R)"@), "(TM)"@))
}

/// The short form of a GPU model name shown in the sidebar: the vendor word
/// dropped, NVIDIA names cut before `Laptop` or ` with`, Intel names cut
/// before `Graphics`, other names cut to their first twelve bytes. `None`
/// where that cut would fall inside a character.
pub open spec fn shortened_gpu_name(n: Seq<char>) -> Option<Seq<char>> {
    let name = gpu_name_core(n);
    let graphics = trim(name.take(first_index(name, "Graphics"@)));
    if starts_with(name, "NVIDIA "@) {
        let rest = name.skip("NVIDIA "@.len() as int);
        if has_sub(rest, "Laptop"@) {
            Some(trim(rest.take(first_index(rest, "Laptop"@))))
        } else if has_sub(rest, " with"@) {
            Some(trim(rest.take(first_index(rest, " with"@))))
        } else {
            Some(rest)
        }
    } else if starts_with(name, "Intel"@) && has_sub(name, "Graphics"@) && starts_with(graphics, "Intel "@) {
        Some(graphics.skip("Intel "@.len() as int))
    } else if starts_with(name, "Intel "@) {
        Some(name.skip("Intel "@.len() as int))
    } else if starts_with(name, "AMD "@) {
        Some(name.skip("AMD "@.len() as int))
    } else if utf8_len(name) > 12 {
        byte_prefix(name, 12)
    } else {
        Some(name)
    }
}

/// `v` with every occurrence of the nonempty literal `p` removed.
fn remove_lit(v: &Vec<char>, p: &str) -> (r: Vec<char>)
    requires
        p@.len() > 0,
    ensures
        r@ == remove_all(v@, p@),
{
    let pc = chars_of(p);
    let mut out: Vec<char> = Vec::new();
    let mut i: usize = 0;
    assert(v@.skip(0) =~= v@);
    while i < v.len()
        invariant
            i <= v.len(),
            pc@ == p@,
            pc@.len() > 0,
            out@ + remove_all(v@.skip(i as int), p@) == remove_all(v@, p@),
        decreases v.len() - i,
    {
        let ghost rest = v@.skip(i as int);
        if pc.len() <= v.len() - i && occurs_at_exec(v, &pc, i) {
            assert(rest.take(p@.len() as int) =~= v@.subrange(i as int, i + p@.len()));
            assert(rest.skip(p@.len() as int) =~= v@.skip(i + pc.len()));
            i = i + pc.len();
        } else {
            proof {
                assert(rest.drop_first() =~= v@.skip(i + 1));
                if rest.len() < p@.len() {
                    assert(rest =~= seq![rest[0]] + rest.drop_first());
                } else {
                    assert(rest.take(p@.len() as int) =~= v@.subrange(i as int, i + p@.len()));
                }
            }
            out.push(v[i]);
            i = i + 1;
            assert(out@ + remove_all(v@.skip(i as int), p@) =~= remove_all(v@, p@));
        }
    }
    assert(v@.skip(v.len() as int) =~= Seq::<char>::empty());
    assert(out@ + Seq::<char>::empty() =~= out@);
    out
}

/// `v` without the literal `p` in front, if it starts with it.
fn strip_lit(v: &Vec<char>, p: &str) -> (r: Option<Vec<char>>)
    ensures
        match r {
            Some(t) => starts_with(v@, p@) && t@ == v@.skip(p@.len() as int),
            None => !starts_with(v@, p@),
        },
{
    let pc = chars_of(p);
    if occurs_at_exec(v, &pc, 0) {
        let mut t: Vec<char> = Vec::new();
        let mut i: usize = pc.len();
        while i < v.len()
            invariant
                pc.len() <= i <= v.len(),
                pc@ == p@,
                t@ == v@.subrange(p@.len() as int, i as int),
            decreases v.len() - i,
        {
            t.push(v[i]);
            i = i + 1;
            assert(t@ =~= v@.subrange(p@.len() as int, i as int));
        }
        assert(t@ =~= v@.skip(p@.len() as int));
        Some(t)
    } else {
        None
    }
}

/// The part of `v` before the first occurrence of the literal `p`, trimmed;
/// `None` where `p` does not occur.
fn trimmed_before(v: &Vec<char>, p: &str) -> (r: Option<Vec<char>>)
    ensures
        match r {
            Some(t) => has_sub(v@, p@) && t@ == trim(v@.take(first_index(v@, p@))),
            None => !has_sub(v@, p@),
        },
{
    let pc = chars_of(p);
    match find_chars(v, &pc) {
        Some(i) => {
            proof {
                lemma_first_occurrence_unique(v@, p@, i as int);
            }
            let (a, b) = trim_bounds(v, 0, i);
            assert(v@.subrange(0, i as int) =~= v@.take(i as int));
            let mut t: Vec<char> = Vec::new();
            let mut k: usize = a;
            while k < b
                invariant
                    a <= k <= b,
                    b <= v.len(),
                    t@ == v@.subrange(a as int, k as int),
                decreases b - k,
            {
                t.push(v[k]);
                k = k + 1;
                assert(t@ =~= v@.subrange(a as int, k as int));
            }
            Some(t)
        },
        None => None,
    }
}

/// `v` trimmed of white space at both ends.
fn trimmed(v: &Vec<char>) -> (r: Vec<char>)
    ensures
        r@ == trim(v@),
{
    let (a, b) = trim_bounds(v, 0, v.len());
    assert(v@.subrange(0, v@.len() as int) =~= v@);
    let mut t: Vec<char> = Vec::new();
    let mut k: usize = a;
    while k < b
        invariant
            a <= k <= b,
            b <= v.len(),
            t@ == v@.subrange(a as int, k as int),
        decreases b - k,
    {
        t.push(v[k]);
        k = k + 1;
        assert(t@ =~= v@.subrange(a as int, k as int));
    }
    t
}

/// The leading characters of `v` that take exactly `n` bytes in UTF-8.
fn take_bytes(v: &Vec<char>, n: usize) -> (r: Option<usize>)
    ensures
        match r {
            Some(k) => k <= v.len() && byte_prefix(v@, n as int) == Some(v@.take(k as int)),
            None => byte_prefix(v@, n as int) is None,
        },
{
    let mut i: usize = 0;
    let mut rem: usize = n;
    assert(v@.skip(0) =~= v@);
    assert(v@.take(0) =~= Seq::<char>::empty());
    while rem > 0
        invariant
            i <= v.len(),
            rem <= n,
            byte_prefix(v@, n as int) == match byte_prefix(v@.skip(i as int), rem as int) {
                Some(t) => Some(v@.take(i as int) + t),
                None => None::<Seq<char>>,
            },
        decreases rem,
    {
        if i == v.len() {
            assert(v@.skip(i as int).len() == 0);
            return None;
        }
        let l = utf8_len_char_exec(v[i]);
        let ghost rest = v@.skip(i as int);
        assert(rest.drop_first() =~= v@.skip(i + 1));
        assert(v@.take(i as int) + seq![v@[i as int]] =~= v@.take(i + 1));
        if l > rem {
            assert(byte_prefix(rest.drop_first(), rem - l) is None);
            return None;
        }
        rem = rem - l;
        i = i + 1;
        proof {
            match byte_prefix(v@.skip(i as int), rem as int) {
                Some(t) => {
                    assert(v@.take(i - 1) + (seq![v@[i - 1]] + t) =~= v@.take(i as int) + t);
                },
                None => {},
            }
        }
    }
    assert(v@.take(i as int) + Seq::<char>::empty() =~= v@.take(i as int));
    Some(i)
}

/// The characters of `v` as a string.
fn into_string(v: &Vec<char>) -> (r: String)
    ensures
        r@ == v@,
{
    let r = string_of(v, 0, v.len());
    assert(v@.subrange(0, v@.len() as int) =~= v@);
    r
}

/// Shortens a GPU model name for the sidebar.
pub fn shorten_gpu_name(name: &str) -> (r: String)
    requires
        shortened_gpu_name(name@) is Some,
    ensures
        r@ == shortened_gpu_name(name@).unwrap(),
{
    proof {
        reveal_strlit("(R)");
        reveal_strlit("(TM)");
        reveal_strlit("Intel");
        reveal_strlit("Intel ");
    }
    let cs = chars_of(name);
    let a = remove_lit(&cs, "(R)");
    let b = remove_lit(&a, "(TM)");
    let n = trimmed(&b);
    proof {
        if starts_with(n@, "Intel "@) {
            assert(n@.subrange(0, 5) =~= "Intel"@);
        }
    }
    if let Some(rest) = strip_lit(&n, "NVIDIA ") {
        if let Some(t) = trimmed_before(&rest, "Laptop") {
            return into_string(&t);
        }
        if let Some(t) = trimmed_before(&rest, " with") {
            return into_string(&t);
        }
        return into_string(&rest);
    }
    if let Some(_) = strip_lit(&n, "Intel") {
        if let Some(before) = trimmed_before(&n, "Graphics") {
            if let Some(short) = strip_lit(&before, "Intel ") {
                return into_string(&short);
            }
        }
        if let Some(rest) = strip_lit(&n, "Intel ") {
            return into_string(&rest);
        }
    }
    if let Some(rest) = strip_lit(&n, "AMD ") {
        return into_string(&rest);
    }
    assert(n@.subrange(0, n@.len() as int) =~= n@);
    if crate::text::utf8_len_of(&n, 0, n.len()) > 12 {
        match take_bytes(&n, 12) {
            Some(k) => {
                assert(n@.subrange(0, k as int) =~= n@.take(k as int));
                return string_of(&n, 0, k);
            },
            None => {
                return String::new();
            },
        }
    }
    into_string(&n)
}

/// `s` cut into pieces of `w` characters, the last one possibly shorter;
/// a single piece when `s` is no longer than `w`.
pub open spec fn chunks(s: Seq<char>, w: nat) -> Seq<Seq<char>>
    recommends
        w > 0,
    decreases s.len(),
{
    if s.len() <= w || w == 0 {
        seq![s]
    } else {
        seq![s.take(w as int)] + chunks(s.skip(w as int), w)
    }
}

/// Cuts `v[from..]` into pieces of `w` characters, appending them to `out`.
fn push_chunks(v: &Vec<char>, from: usize, w: usize, out: &mut Vec<String>)
    requires
        w > 0,
        from <= v.len(),
    ensures
        views(final(out)@) == views(old(out)@) + chunks(v@.skip(from as int), w as nat),
    decreases v.len() - from,
{
    let rest = v.len() - from;
    if rest <= w {
        let ghost before = views(out@);
        out.push(string_of(v, from, v.len()));
        assert(v@.subrange(from as int, v.len() as int) =~= v@.skip(from as int));
        assert(views(out@) =~= before + seq![v@.skip(from as int)]);
    } else {
        let ghost before = views(out@);
        out.push(string_of(v, from, from + w));
        assert(v@.subrange(from as int, from + w) =~= v@.skip(from as int).take(w as int));
        assert(views(out@) =~= before + seq![v@.skip(from as int).take(w as int)]);
        push_chunks(v, from + w, w, out);
        assert(v@.skip(from as int).skip(w as int) =~= v@.skip(from + w));
    }
}

/// A line of the agent conversation wrapped at `width` characters; the line
/// unchanged for a zero width.
pub fn wrap_line(content: &str, width: usize) -> (r: Vec<String>)
    ensures
        views(r@) == if width == 0 {
            seq![content@]
        } else {
            chunks(content@, width as nat)
        },
{
    if width == 0 {
        let mut out: Vec<String> = Vec::new();
        out.push(crate::text::copy_str(content));
        assert(views(out@) =~= seq![content@]);
        return out;
    }
    let cs = chars_of(content);
    let mut out: Vec<String> = Vec::new();
    push_chunks(&cs, 0, width, &mut out);
    assert(cs@.skip(0) =~= content@);
    assert(views(out@) =~= chunks(content@, width as nat));
    out
}

/// A text of the side panel wrapped at `max_w` characters: `-` for an
/// empty text, the text unchanged for a zero width.
pub fn wrap_text(text: &str, max_w: usize) -> (r: Vec<String>)
    ensures
        views(r@) == if text@.len() == 0 {
            seq!["-"@]
        } else if max_w == 0 {
            seq![text@]
        } else {
            chunks(text@, max_w as nat)
        },
{
    if text.unicode_len() == 0 {
        let mut out: Vec<String> = Vec::new();
        out.push(String::from_str("-"));
        assert(views(out@) =~= seq!["-"@]);
        return out;
    }
    wrap_line(text, max_w)
}

/// The columns a character takes in the container table: one for ASCII,
/// two otherwise.
pub open spec fn table_width(c: char) -> usize {
    if (c as u32) < 128 { 1 } else { 2 }
}

/// The columns taken by the characters that [`fit_count`] keeps.
pub open spec fn fit_columns(widths: Seq<usize>, budget: int) -> nat
    decreases widths.len(),
{
    if widths.len() == 0 || widths[0] > budget {
        0
    } else {
        widths[0] as nat + fit_columns(widths.drop_first(), budget - widths[0])
    }
}

/// `n` spaces.
pub open spec fn spaces(n: nat) -> Seq<char> {
    Seq::new(n, |i: int| ' ')
}

/// A cell of the container table: the characters of `s` that fit into
/// `target` columns (taken from the front), padded with spaces to `target`.
pub open spec fn padded_cell(s: Seq<char>, target: nat) -> Seq<char> {
    let widths = s.map_values(|c: char| table_width(c));
    s.take(fit_count(widths, target as int) as int) + spaces((target - fit_columns(widths, target as int)) as nat)
}

/// Pads or cuts `s` to exactly `target_width` columns.
pub fn pad_display(s: &str, target_width: usize) -> (r: String)
    ensures
        r@ == padded_cell(s@, target_width as nat),
{
    let cs = chars_of(s);
    let ghost widths = s@.map_values(|c: char| table_width(c));
    let mut display_width: usize = 0;
    let mut i: usize = 0;
    assert(widths.skip(0) =~= widths);
    while i < cs.len()
        invariant
            i <= cs.len(),
            cs@ == s@,
            widths == s@.map_values(|c: char| table_width(c)),
            display_width <= target_width,
            fit_count(widths, target_width as int) == i + fit_count(widths.skip(i as int), target_width - display_width),
            fit_columns(widths, target_width as int) == display_width + fit_columns(widths.skip(i as int), target_width - display_width),
        ensures
            i <= cs.len(),
            display_width <= target_width,
            fit_count(widths, target_width as int) == i,
            fit_columns(widths, target_width as int) == display_width,
        decreases cs.len() - i,
    {
        let c = cs[i];
        let w: usize = if (c as u32) < 128 { 1 } else { 2 };
        assert(widths.skip(i as int)[0] == w);
        assert(widths.skip(i as int).drop_first() =~= widths.skip(i + 1));
        if w > target_width - display_width {
            break;
        }
        display_width = display_width + w;
        i = i + 1;
    }
    let mut r = string_of(&cs, 0, i);
    let padding = target_width - display_width;
    let mut k: usize = 0;
    let ghost head = r@;
    while k < padding
        invariant
            k <= padding,
            r@ == head + spaces(k as nat),
        decreases padding - k,
    {
        push_char(&mut r, ' ');
        k = k + 1;
        assert(r@ =~= head + spaces(k as nat));
    }
    assert(cs@.subrange(0, i as int) =~= s@.take(i as int));
    r
}

/// A number written with at least two digits.
pub open spec fn pad2(n: nat) -> Seq<char> {
    if n < 10 {
        seq!['0'] + decimal(n)
    } else {
        decimal(n)
    }
}

fn push_pad2(s: &mut String, n: u64)
    ensures
        final(s)@ == old(s)@ + pad2(n as nat),
{
    if n < 10 {
        push_char(s, '0');
    }
    let ghost mid = s@;
    push_decimal(s, n as u128);
    assert(s@ =~= old(s)@ + pad2(n as nat));
}

/// How long a container has been up: seconds, minutes, hours or days,
/// whichever unit is the largest below the time; `-` when unknown.
pub open spec fn uptime_text(elapsed_secs: Option<u64>) -> Seq<char> {
    match elapsed_secs {
        None => "-"@,
        Some(secs) => if secs < 60 {
            decimal(secs as nat) + "秒"@
        } else if secs < 3600 {
            decimal((secs / 60) as nat) + "分"@
        } else if secs < 86400 {
            decimal((secs / 3600) as nat) + "时"@
        } else {
            decimal((secs / 86400) as nat) + "天"@
        },
    }
}

/// The uptime label of a container, given the seconds since it started
/// (`None` when the start time is unknown or lies in the future).
pub fn format_uptime(elapsed_secs: Option<u64>) -> (r: String)
    ensures
        r@ == uptime_text(elapsed_secs),
{
    match elapsed_secs {
        None => String::from_str("-"),
        Some(secs) => {
            let mut r = String::new();
            if secs < 60 {
                push_decimal(&mut r, secs as u128);
                r.append("秒");
            } else if secs < 3600 {
                push_decimal(&mut r, (secs / 60) as u128);
                r.append("分");
            } else if secs < 86400 {
                push_decimal(&mut r, (secs / 3600) as u128);
                r.append("时");
            } else {
                push_decimal(&mut r, (secs / 86400) as u128);
                r.append("天");
            }
            r
        },
    }
}

/// A short duration: seconds below a minute, minutes below an hour, hours
/// otherwise.
pub open spec fn short_duration_text(secs: u64) -> Seq<char> {
    if secs < 60 {
        decimal(secs as nat) + "s"@
    } else if secs < 3600 {
        decimal((secs / 60) as nat) + "m"@
    } else {
        decimal((secs / 3600) as nat) + "h"@
    }
}

/// Formats a duration in seconds as `42s`, `5m` or `3h`.
pub fn format_duration_short(secs: u64) -> (r: String)
    ensures
        r@ == short_duration_text(secs),
{
    let mut r = String::new();
    if secs < 60 {
        push_decimal(&mut r, secs as u128);
        r.append("s");
    } else if secs < 3600 {
        push_decimal(&mut r, (secs / 60) as u128);
        r.append("m");
    } else {
        push_decimal(&mut r, (secs / 3600) as u128);
        r.append("h");
    }
    r
}

/// A duration as minutes and seconds, `MM:SS`.
pub open spec fn duration_text(secs: u64) -> Seq<char> {
    pad2((secs / 60) as nat) + ":"@ + pad2((secs % 60) as nat)
}

/// Formats a duration in seconds as `MM:SS`.
pub fn format_duration(secs: u64) -> (r: String)
    ensures
        r@ == duration_text(secs),
{
    let mut r = String::new();
    push_pad2(&mut r, secs / 60);
    r.append(":");
    push_pad2(&mut r, secs % 60);
    r
}

/// Seconds since the epoch as a time of day, `HH:MM:SS`, eight hours ahead
/// of UTC.
pub open spec fn timestamp_text(ts: u64) -> Seq<char> {
    let local = ts + 8 * 3600;
    pad2(((local / 3600) % 24) as nat) + ":"@ + pad2(((local / 60) % 60) as nat) + ":"@ + pad2((local % 60) as nat)
}

/// Formats the time of a recorded frame.
pub fn format_timestamp(ts: u64) -> (r: String)
    requires
        ts + 8 * 3600 <= u64::MAX,
    ensures
        r@ == timestamp_text(ts),
{
    let local: u64 = ts + 8 * 3600;
    let mut r = String::new();
    push_pad2(&mut r, (local / 3600) % 24);
    r.append(":");
    push_pad2(&mut r, (local / 60) % 60);
    r.append(":");
    push_pad2(&mut r, local % 60);
    r
}

/// The label of a container health state.
pub open spec fn health_text(s: Seq<char>) -> Seq<char> {
    if s == "healthy"@ {
        "健康"@
    } else if s == "unhealthy"@ {
        "不健康"@
    } else if s == "starting"@ {
        "启动中"@
    } else {
        "-"@
    }
}

/// Translates a container health state for display.
pub fn translate_health(s: &str) -> (r: &'static str)
    ensures
        r@ == health_text(s@),
{
    if str_eq(s, "healthy") {
        "健康"
    } else if str_eq(s, "unhealthy") {
        "不健康"
    } else if str_eq(s, "starting") {
        "启动中"
    } else {
        "-"
    }
}

/// How a security score is shown: quiet from 90 up, then three levels of
/// warning at 60, 30 and below.
#[derive(Debug, Clone, Copy, PartialEq, Eq, Structural)]
pub enum ScoreLevel {
    Quiet,
    Notice,
    Warning,
    Danger,
}

pub open spec fn level_of(score: u32) -> ScoreLevel {
    if score >= 90 {
        ScoreLevel::Quiet
    } else if score >= 60 {
        ScoreLevel::Notice
    } else if score >= 30 {
        ScoreLevel::Warning
    } else {
        ScoreLevel::Danger
    }
}

/// The display level of a security score.
pub fn score_level(score: u32) -> (l: ScoreLevel)
    ensures
        l == level_of(score),
{
    if score >= 90 {
        ScoreLevel::Quiet
    } else if score >= 60 {
        ScoreLevel::Notice
    } else if score >= 30 {
        ScoreLevel::Warning
    } else {
        ScoreLevel::Danger
    }
}

/// The badge of a security score: nothing for a quiet score, the score for
/// a notice, with one `!` for a warning and two for danger.
pub open spec fn badge_of(score: u32) -> Seq<char> {
    match level_of(score) {
        ScoreLevel::Quiet => Seq::empty(),
        ScoreLevel::Notice => decimal(score as nat),
        ScoreLevel::Warning => "!"@ + decimal(score as nat),
        ScoreLevel::Danger => "!!"@ + decimal(score as nat),
    }
}

/// The badge text shown beside a process for its security score.
pub fn score_badge(score: u32) -> (r: String)
    ensures
        r@ == badge_of(score),
{
    let mut r = match score_level(score) {
        ScoreLevel::Quiet => {
            return String::new();
        },
        ScoreLevel::Notice => String::new(),
        ScoreLevel::Warning => String::from_str("!"),
        ScoreLevel::Danger => String::from_str("!!"),
    };
    push_decimal(&mut r, score as u128);
    r
}

} // verus!
