//! Character-sequence helpers shared by the rule engines.
//!
//! Strings are handled through their views, `Seq<char>`.  Sub-string search,
//! prefix tests, trimming and decimal formatting are defined here once as spec
//! functions together with executable versions proved against them.
use vstd::prelude::*;

verus! {

// ---------------------------------------------------------------------------
// Spec vocabulary
// ---------------------------------------------------------------------------
/// `c` lowered if it is an ASCII upper-case letter, otherwise unchanged.
pub open spec fn ascii_lower_char(c: char) -> char {
    if 'A' <= c && c <= 'Z' {
        ((c as u32) + 32) as char
    } else {
        c
    }
}

/// Lowers every ASCII upper-case letter of `s`.
pub open spec fn ascii_lower(s: Seq<char>) -> Seq<char> {
    s.map_values(|c: char| ascii_lower_char(c))
}

/// Every character of `s` is ASCII.
pub open spec fn all_ascii(s: Seq<char>) -> bool {
    forall|i: int| 0 <= i < s.len() ==> (s[i] as u32) < 128
}

/// `p` occurs in `h` starting at position `i`.
pub open spec fn occurs_at(h: Seq<char>, p: Seq<char>, i: int) -> bool {
    0 <= i && i + p.len() <= h.len() && h.subrange(i, i + p.len()) == p
}

/// `p` occurs somewhere in `h` (the empty sequence occurs everywhere).
pub open spec fn has_sub(h: Seq<char>, p: Seq<char>) -> bool {
    exists|i: int| #[trigger] occurs_at(h, p, i)
}

/// `i` is the first position at which `p` occurs in `h`.
pub open spec fn is_first_occurrence(h: Seq<char>, p: Seq<char>, i: int) -> bool {
    occurs_at(h, p, i) && forall|j: int| 0 <= j < i ==> !#[trigger] occurs_at(h, p, j)
}

/// The first position at which `p` occurs in `h` (meaningful when it occurs).
pub open spec fn first_index(h: Seq<char>, p: Seq<char>) -> int {
    choose|i: int| is_first_occurrence(h, p, i)
}

/// `p` (a literal) occurs in `h`.
pub open spec fn hs(h: Seq<char>, p: &str) -> bool {
    has_sub(h, p@)
}

pub proof fn lemma_first_occurrence_unique(h: Seq<char>, p: Seq<char>, i: int)
    requires
        is_first_occurrence(h, p, i),
    ensures
        first_index(h, p) == i,
{
    let j = first_index(h, p);
    assert(is_first_occurrence(h, p, j));
    if j < i {
        assert(!occurs_at(h, p, j));
    }
    if i < j {
        assert(!occurs_at(h, p, i));
    }
}

pub open spec fn starts_with(h: Seq<char>, p: Seq<char>) -> bool {
    occurs_at(h, p, 0)
}

pub open spec fn ends_with(h: Seq<char>, p: Seq<char>) -> bool {
    p.len() <= h.len() && occurs_at(h, p, h.len() - p.len())
}

/// The last segment of `s` after its last `sep` (all of `s` without one).
pub open spec fn last_segment(s: Seq<char>, sep: char) -> Seq<char>
    decreases s.len(),
{
    if s.len() == 0 {
        s
    } else if s.last() == sep {
        Seq::empty()
    } else {
        last_segment(s.drop_last(), sep).push(s.last())
    }
}

/// Unicode `White_Space`, the set that `char::is_whitespace` tests.
pub open spec fn is_white(c: char) -> bool {
    let u = c as u32;
    (0x09 <= u && u <= 0x0D) || u == 0x20 || u == 0x85 || u == 0xA0 || u == 0x1680 || (0x2000
        <= u && u <= 0x200A) || u == 0x2028 || u == 0x2029 || u == 0x202F || u == 0x205F || u
        == 0x3000
}

/// `s` without leading white space.
pub open spec fn trim_start(s: Seq<char>) -> Seq<char>
    decreases s.len(),
{
    if s.len() > 0 && is_white(s[0]) {
        trim_start(s.drop_first())
    } else {
        s
    }
}

/// `s` without trailing white space.
pub open spec fn trim_end(s: Seq<char>) -> Seq<char>
    decreases s.len(),
{
    if s.len() > 0 && is_white(s.last()) {
        trim_end(s.drop_last())
    } else {
        s
    }
}

pub open spec fn trim(s: Seq<char>) -> Seq<char> {
    trim_end(trim_start(s))
}

/// `s` without any trailing `c`.
pub open spec fn trim_end_char(s: Seq<char>, c: char) -> Seq<char>
    decreases s.len(),
{
    if s.len() > 0 && s.last() == c {
        trim_end_char(s.drop_last(), c)
    } else {
        s
    }
}

/// `s` without any leading `c`.
pub open spec fn trim_start_char(s: Seq<char>, c: char) -> Seq<char>
    decreases s.len(),
{
    if s.len() > 0 && s[0] == c {
        trim_start_char(s.drop_first(), c)
    } else {
        s
    }
}

/// `s` without leading or trailing `c`.
pub open spec fn trim_char(s: Seq<char>, c: char) -> Seq<char> {
    trim_end_char(trim_start_char(s, c), c)
}

/// Number of bytes of the UTF-8 encoding of `c`.
pub open spec fn utf8_len_char(c: char) -> nat {
    let u = c as u32;
    if u < 0x80 {
        1
    } else if u < 0x800 {
        2
    } else if u < 0x10000 {
        3
    } else {
        4
    }
}

/// Number of bytes of the UTF-8 encoding of `s`.
pub open spec fn utf8_len(s: Seq<char>) -> nat
    decreases s.len(),
{
    if s.len() == 0 {
        0
    } else {
        utf8_len(s.drop_last()) + utf8_len_char(s.last())
    }
}

/// The ASCII digit for `d < 10`.
pub open spec fn digit_char(d: nat) -> char {
    ((48 + d) as u32) as char
}

/// Decimal notation of `n`, without leading zeros.
pub open spec fn decimal(n: nat) -> Seq<char>
    decreases n,
{
    if n < 10 {
        seq![digit_char(n)]
    } else {
        decimal(n / 10).push(digit_char(n % 10))
    }
}

/// The elements of `parts` joined with `sep` between neighbours.
pub open spec fn join(parts: Seq<Seq<char>>, sep: Seq<char>) -> Seq<char>
    decreases parts.len(),
{
    if parts.len() == 0 {
        Seq::empty()
    } else if parts.len() == 1 {
        parts[0]
    } else {
        join(parts.drop_last(), sep) + sep + parts.last()
    }
}

/// The views of a sequence of string literals.
pub open spec fn strs(v: Seq<&'static str>) -> Seq<Seq<char>> {
    v.map_values(|s: &'static str| s@)
}

/// The views of a vector of strings.
pub open spec fn views(v: Seq<String>) -> Seq<Seq<char>> {
    v.map_values(|s: String| s@)
}

// ---------------------------------------------------------------------------
// Trusted std operations
// ---------------------------------------------------------------------------
/// What `str::to_lowercase` returns for a string with the given characters:
/// full Unicode case mapping, which takes pages to state.
pub uninterp spec fn unicode_lower(s: Seq<char>) -> Seq<char>;

/// Calls `str::to_lowercase`.  Claims that the result is a function of the
/// characters of `s` alone, and that on an all-ASCII string it lowers the
/// letters `A`..`Z` and keeps every other character, as the Unicode case
/// mapping does on ASCII.
#[verifier::external_body]
pub(crate) fn to_lower(s: &str) -> (r: String)
    ensures
        r@ == unicode_lower(s@),
        all_ascii(s@) ==> r@ == ascii_lower(s@),
{
    s.to_lowercase()
}

/// Calls `String::push`: appends one character.
#[verifier::external_body]
pub(crate) fn push_char(s: &mut String, c: char)
    ensures
        final(s)@ == old(s)@.push(c),
{
    s.push(c);
}

/// Calls `String::pop`: removes the last character and returns it, or
/// returns `None` for the empty string.
#[verifier::external_body]
pub(crate) fn pop_char(s: &mut String) -> (r: Option<char>)
    ensures
        old(s)@.len() > 0 ==> final(s)@ == old(s)@.drop_last() && r == Some(old(s)@.last()),
        old(s)@.len() == 0 ==> final(s)@ == old(s)@ && r.is_none(),
{
    s.pop()
}

// ---------------------------------------------------------------------------
// Executable helpers
// ---------------------------------------------------------------------------
pub fn lower_ascii_char(c: char) -> (r: char)
    ensures
        r == ascii_lower_char(c),
{
    if 'A' <= c && c <= 'Z' {
        let b: u8 = c as u8;
        (b + 32) as char
    } else {
        c
    }
}

/// The characters of `s`, in order.
pub fn chars_of(s: &str) -> (v: Vec<char>)
    ensures
        v@ == s@,
{
    let mut v: Vec<char> = Vec::new();
    for c in it: s.chars()
        invariant
            v@ == it.seq().take(it.index() as int),
            it.seq() == s@,
    {
        v.push(c);
    }
    v
}

/// A string holding exactly the characters `v[from..to]`.
pub fn string_of(v: &Vec<char>, from: usize, to: usize) -> (s: String)
    requires
        from <= to <= v.len(),
    ensures
        s@ == v@.subrange(from as int, to as int),
{
    let mut s = String::new();
    let mut i = from;
    while i < to
        invariant
            from <= i <= to <= v.len(),
            s@ == v@.subrange(from as int, i as int),
        decreases to - i,
    {
        push_char(&mut s, v[i]);
        assert(v@.subrange(from as int, i + 1) == v@.subrange(from as int, i as int).push(v@[i as int]));
        i += 1;
    }
    s
}

/// A copy of `s`.
pub fn copy_str(s: &str) -> (r: String)
    ensures
        r@ == s@,
{
    String::from_str(s)
}

/// `a` followed by `b`.
pub fn concat2(a: &str, b: &str) -> (r: String)
    ensures
        r@ == a@ + b@,
{
    let mut r = String::from_str(a);
    r.append(b);
    r
}

/// `a`, `b` and `c` one after the other.
pub fn concat3(a: &str, b: &str, c: &str) -> (r: String)
    ensures
        r@ == a@ + b@ + c@,
{
    let mut r = String::from_str(a);
    r.append(b);
    r.append(c);
    r
}

/// Whether `p` occurs in `h` at position `i`.
pub fn occurs_at_exec(h: &Vec<char>, p: &Vec<char>, i: usize) -> (b: bool)
    requires
        i <= h.len(),
    ensures
        b == occurs_at(h@, p@, i as int),
{
    if p.len() > h.len() - i {
        return false;
    }
    let mut k: usize = 0;
    while k < p.len()
        invariant
            k <= p.len(),
            i + p.len() <= h.len(),
            forall|j: int| 0 <= j < k ==> h@[i + j] == p@[j],
        decreases p.len() - k,
    {
        if h[i + k] != p[k] {
            assert(h@.subrange(i as int, i + p.len())[k as int] != p@[k as int]);
            return false;
        }
        k += 1;
    }
    assert(h@.subrange(i as int, i + p.len()) =~= p@);
    true
}

/// The first position at which `p` occurs in `h`.
pub fn find_chars(h: &Vec<char>, p: &Vec<char>) -> (r: Option<usize>)
    ensures
        match r {
            Some(i) => is_first_occurrence(h@, p@, i as int),
            None => !has_sub(h@, p@),
        },
{
    if p.len() > h.len() {
        assert forall|j: int| !#[trigger] occurs_at(h@, p@, j) by {}
        return None;
    }
    let limit = h.len() - p.len();
    let mut i: usize = 0;
    while i < limit
        invariant
            i <= limit,
            limit == h.len() - p.len(),
            forall|j: int| 0 <= j < i ==> !#[trigger] occurs_at(h@, p@, j),
        decreases limit - i,
    {
        if occurs_at_exec(h, p, i) {
            return Some(i);
        }
        i += 1;
    }
    if occurs_at_exec(h, p, limit) {
        return Some(limit);
    }
    assert forall|j: int| !#[trigger] occurs_at(h@, p@, j) by {
        if 0 <= j && j < i {
        }
    }
    None
}

/// Whether `p` occurs in `h`.
pub fn contains_chars(h: &Vec<char>, p: &Vec<char>) -> (b: bool)
    ensures
        b == has_sub(h@, p@),
{
    match find_chars(h, p) {
        Some(i) => {
            assert(occurs_at(h@, p@, i as int));
            true
        },
        None => false,
    }
}

/// Whether the literal `p` occurs in `h`.
pub fn has_lit(h: &Vec<char>, p: &str) -> (b: bool)
    ensures
        b == has_sub(h@, p@),
{
    let pc = chars_of(p);
    contains_chars(h, &pc)
}

/// Whether `h` starts with the literal `p`.
pub fn starts(h: &Vec<char>, p: &str) -> (b: bool)
    ensures
        b == starts_with(h@, p@),
{
    let pc = chars_of(p);
    occurs_at_exec(h, &pc, 0)
}

/// Whether `h` ends with the literal `p`.
pub fn ends(h: &Vec<char>, p: &str) -> (b: bool)
    ensures
        b == ends_with(h@, p@),
{
    let pc = chars_of(p);
    if pc.len() > h.len() {
        false
    } else {
        occurs_at_exec(h, &pc, h.len() - pc.len())
    }
}

/// Whether `a` and `b` hold the same characters.
pub fn same_chars(a: &Vec<char>, b: &Vec<char>) -> (r: bool)
    ensures
        r == (a@ == b@),
{
    if a.len() != b.len() {
        return false;
    }
    let r = occurs_at_exec(a, b, 0);
    assert(a@.subrange(0, a@.len() as int) =~= a@);
    r
}

/// Whether `h` is exactly the literal `p`.
pub fn is_lit(h: &Vec<char>, p: &str) -> (b: bool)
    ensures
        b == (h@ == p@),
{
    let pc = chars_of(p);
    same_chars(h, &pc)
}

/// Whether two strings hold the same characters.
pub fn str_eq(a: &str, b: &str) -> (r: bool)
    ensures
        r == (a@ == b@),
{
    let ac = chars_of(a);
    let bc = chars_of(b);
    same_chars(&ac, &bc)
}

/// `s` lowered by `str::to_lowercase`, as characters.
pub fn lower_chars(s: &str) -> (v: Vec<char>)
    ensures
        v@ == unicode_lower(s@),
        all_ascii(s@) ==> v@ == ascii_lower(s@),
{
    let l = to_lower(s);
    chars_of(l.as_str())
}

proof fn lemma_last_segment_step(s: Seq<char>, sep: char, i: int)
    requires
        0 <= i < s.len(),
    ensures
        last_segment(s.subrange(0, i + 1), sep) == if s[i] == sep {
            Seq::<char>::empty()
        } else {
            last_segment(s.subrange(0, i), sep).push(s[i])
        },
{
    let t = s.subrange(0, i + 1);
    assert(t.drop_last() =~= s.subrange(0, i));
    assert(t.last() == s[i]);
}

/// The part of `s` after its last `sep` (what `rsplit(sep).next()` gives).
pub fn after_last(s: &Vec<char>, sep: char) -> (r: Vec<char>)
    ensures
        r@ == last_segment(s@, sep),
{
    let mut r: Vec<char> = Vec::new();
    let mut i: usize = 0;
    while i < s.len()
        invariant
            i <= s.len(),
            r@ == last_segment(s@.subrange(0, i as int), sep),
        decreases s.len() - i,
    {
        proof {
            lemma_last_segment_step(s@, sep, i as int);
        }
        if s[i] == sep {
            r = Vec::new();
        } else {
            r.push(s[i]);
        }
        i += 1;
    }
    assert(s@.subrange(0, s@.len() as int) =~= s@);
    r
}

pub fn is_white_exec(c: char) -> (b: bool)
    ensures
        b == is_white(c),
{
    let u = c as u32;
    (0x09 <= u && u <= 0x0D) || u == 0x20 || u == 0x85 || u == 0xA0 || u == 0x1680 || (0x2000
        <= u && u <= 0x200A) || u == 0x2028 || u == 0x2029 || u == 0x202F || u == 0x205F || u
        == 0x3000
}

proof fn lemma_trim_start_skip(s: Seq<char>, i: int)
    requires
        0 <= i <= s.len(),
        forall|j: int| 0 <= j < i ==> is_white(#[trigger] s[j]),
    ensures
        trim_start(s) == trim_start(s.subrange(i, s.len() as int)),
    decreases i,
{
    if i > 0 {
        assert(is_white(s[0]));
        let t = s.drop_first();
        assert forall|j: int| 0 <= j < i - 1 implies is_white(#[trigger] t[j]) by {
            assert(t[j] == s[j + 1]);
        }
        lemma_trim_start_skip(t, i - 1);
        assert(t.subrange(i - 1, t.len() as int) =~= s.subrange(i, s.len() as int));
    } else {
        assert(s.subrange(0, s.len() as int) =~= s);
    }
}

proof fn lemma_trim_end_skip(s: Seq<char>, e: int)
    requires
        0 <= e <= s.len(),
        forall|j: int| e <= j < s.len() ==> is_white(#[trigger] s[j]),
    ensures
        trim_end(s) == trim_end(s.subrange(0, e)),
    decreases s.len() - e,
{
    if e < s.len() {
        assert(is_white(s.last()));
        let t = s.drop_last();
        assert forall|j: int| e <= j < t.len() implies is_white(#[trigger] t[j]) by {
            assert(t[j] == s[j]);
        }
        lemma_trim_end_skip(t, e);
        assert(t.subrange(0, e) =~= s.subrange(0, e));
    } else {
        assert(s.subrange(0, e) =~= s);
    }
}

/// The bounds `[a, b)` of the trimmed part of `v[from..to]`.
pub fn trim_bounds(v: &Vec<char>, from: usize, to: usize) -> (r: (usize, usize))
    requires
        from <= to <= v.len(),
    ensures
        from <= r.0 <= r.1 <= to,
        v@.subrange(r.0 as int, r.1 as int) == trim(v@.subrange(from as int, to as int)),
{
    let ghost s = v@.subrange(from as int, to as int);
    let mut a = from;
    while a < to && is_white_exec(v[a])
        invariant
            from <= a <= to <= v.len(),
            s == v@.subrange(from as int, to as int),
            forall|j: int| 0 <= j < a - from ==> is_white(#[trigger] s[j]),
        decreases to - a,
    {
        a += 1;
    }
    proof {
        lemma_trim_start_skip(s, a - from);
        assert(s.subrange(a - from, s.len() as int) =~= v@.subrange(a as int, to as int));
        if a < to {
            assert(!is_white(v@[a as int]));
            assert(trim_start(v@.subrange(a as int, to as int)) == v@.subrange(a as int, to as int));
        } else {
            assert(trim_start(v@.subrange(a as int, to as int)) == v@.subrange(a as int, to as int));
        }
    }
    let ghost t = v@.subrange(a as int, to as int);
    let mut b = to;
    while b > a && is_white_exec(v[b - 1])
        invariant
            from <= a <= b <= to <= v.len(),
            t == v@.subrange(a as int, to as int),
            forall|j: int| b - a <= j < t.len() ==> is_white(#[trigger] t[j]),
        decreases b - a,
    {
        b -= 1;
    }
    proof {
        lemma_trim_end_skip(t, b - a);
        assert(t.subrange(0, b - a) =~= v@.subrange(a as int, b as int));
        let u = v@.subrange(a as int, b as int);
        if b > a {
            assert(u.last() == v@[b - 1]);
        }
        assert(trim_end(u) == u);
    }
    (a, b)
}

proof fn lemma_utf8_len_push(s: Seq<char>, c: char)
    ensures
        utf8_len(s.push(c)) == utf8_len(s) + utf8_len_char(c),
{
    assert(s.push(c).drop_last() =~= s);
}

pub fn utf8_len_char_exec(c: char) -> (n: usize)
    ensures
        n == utf8_len_char(c),
{
    let u = c as u32;
    if u < 0x80 {
        1
    } else if u < 0x800 {
        2
    } else if u < 0x10000 {
        3
    } else {
        4
    }
}

/// Byte length of the UTF-8 encoding of `v[from..to]`.
pub fn utf8_len_of(v: &Vec<char>, from: usize, to: usize) -> (n: u128)
    requires
        from <= to <= v.len(),
    ensures
        n == utf8_len(v@.subrange(from as int, to as int)),
{
    let mut n: u128 = 0;
    let mut i = from;
    while i < to
        invariant
            from <= i <= to <= v.len(),
            n == utf8_len(v@.subrange(from as int, i as int)),
            n <= 4 * (i - from),
        decreases to - i,
    {
        proof {
            assert(v@.subrange(from as int, i + 1) =~= v@.subrange(from as int, i as int).push(v@[i as int]));
            lemma_utf8_len_push(v@.subrange(from as int, i as int), v@[i as int]);
        }
        n = n + utf8_len_char_exec(v[i]) as u128;
        i += 1;
    }
    n
}

/// Appends the decimal notation of `n` to `s`.
pub fn push_decimal(s: &mut String, n: u128)
    ensures
        final(s)@ == old(s)@ + decimal(n as nat),
    decreases n,
{
    if n >= 10 {
        push_decimal(s, n / 10);
    }
    let d: u8 = (n % 10) as u8;
    let c = (48u8 + d) as char;
    push_char(s, c);
    assert(final(s)@ == old(s)@ + decimal(n as nat)) by {
        if n < 10 {
        } else {
        }
    }
}

/// Decimal notation of `n`.
pub fn decimal_string(n: u128) -> (s: String)
    ensures
        s@ == decimal(n as nat),
{
    let mut s = String::new();
    push_decimal(&mut s, n);
    assert(s@ =~= decimal(n as nat));
    s
}

/// The strings of `parts` joined with `sep`.
pub fn join_strings(parts: &[String], sep: &str) -> (r: String)
    ensures
        r@ == join(views(parts@), sep@),
{
    let mut r = String::new();
    let mut i: usize = 0;
    while i < parts.len()
        invariant
            i <= parts.len(),
            r@ == join(views(parts@).take(i as int), sep@),
        decreases parts.len() - i,
    {
        let ghost vs = views(parts@);
        proof {
            assert(vs.take(i + 1).drop_last() =~= vs.take(i as int));
        }
        if i > 0 {
            r.append(sep);
        }
        r.append(parts[i].as_str());
        proof {
            if i == 0 {
                assert(vs.take(1) =~= seq![parts@[0]@]);
            }
        }
        i += 1;
    }
    assert(views(parts@).take(parts.len() as int) =~= views(parts@));
    r
}

/// Whether `x` is one of the literals of `list`.
pub fn in_list(x: &Vec<char>, list: &Vec<&'static str>) -> (b: bool)
    ensures
        b == strs(list@).contains(x@),
{
    let mut i: usize = 0;
    while i < list.len()
        invariant
            i <= list.len(),
            forall|j: int| 0 <= j < i ==> strs(list@)[j] != x@,
        decreases list.len() - i,
    {
        if is_lit(x, list[i]) {
            assert(strs(list@)[i as int] == x@);
            return true;
        }
        i += 1;
    }
    false
}

/// Whether some literal of `list` occurs in `x`.
pub fn has_any(x: &Vec<char>, list: &Vec<&'static str>) -> (b: bool)
    ensures
        b == exists|j: int| 0 <= j < list.len() && #[trigger] has_sub(x@, strs(list@)[j]),
{
    let mut i: usize = 0;
    while i < list.len()
        invariant
            i <= list.len(),
            forall|j: int| 0 <= j < i ==> !#[trigger] has_sub(x@, strs(list@)[j]),
        decreases list.len() - i,
    {
        if has_lit(x, list[i]) {
            assert(has_sub(x@, strs(list@)[i as int]));
            return true;
        }
        i += 1;
    }
    false
}

} // verus!

verus! {

/// Number of non-empty pieces of `s` split at `sep`.
pub open spec fn segment_count(s: Seq<char>, sep: char) -> nat
    decreases s.len(),
{
    if s.len() == 0 {
        0
    } else {
        let t = s.drop_last();
        segment_count(t, sep) + if s.last() != sep && (t.len() == 0 || t.last() == sep) {
            1nat
        } else {
            0nat
        }
    }
}

/// Number of non-empty pieces of `v[from..]` split at `sep`.
pub fn segment_count_from(v: &Vec<char>, from: usize, sep: char) -> (n: usize)
    requires
        from <= v.len(),
    ensures
        n == segment_count(v@.subrange(from as int, v.len() as int), sep),
{
    let mut n: usize = 0;
    let mut i = from;
    while i < v.len()
        invariant
            from <= i <= v.len(),
            n == segment_count(v@.subrange(from as int, i as int), sep),
            n <= i - from,
        decreases v.len() - i,
    {
        let ghost t = v@.subrange(from as int, i as int);
        assert(v@.subrange(from as int, i + 1).drop_last() =~= t);
        if v[i] != sep && (i == from || v[i - 1] == sep) {
            n += 1;
        }
        i += 1;
    }
    n
}

} // verus!

verus! {

/// The pieces of `s` between the separators `sep` (always at least one).
pub open spec fn split_on(s: Seq<char>, sep: char) -> Seq<Seq<char>>
    decreases s.len(),
{
    if s.len() == 0 {
        seq![Seq::empty()]
    } else {
        let prev = split_on(s.drop_last(), sep);
        if s.last() == sep {
            prev.push(Seq::empty())
        } else {
            prev.update(prev.len() - 1, prev.last().push(s.last()))
        }
    }
}

pub proof fn lemma_split_on_nonempty(s: Seq<char>, sep: char)
    ensures
        split_on(s, sep).len() >= 1,
    decreases s.len(),
{
    if s.len() > 0 {
        lemma_split_on_nonempty(s.drop_last(), sep);
    }
}

/// Splitting at a separator that occurs between two parts splits the parts.
pub proof fn lemma_split_on_concat(x: Seq<char>, y: Seq<char>, sep: char)
    ensures
        split_on(x + seq![sep] + y, sep) == split_on(x, sep) + split_on(y, sep),
    decreases y.len(),
{
    let s = x + seq![sep] + y;
    if y.len() == 0 {
        assert(s.drop_last() =~= x);
        assert(split_on(y, sep) =~= seq![Seq::<char>::empty()]);
        assert(split_on(x, sep).push(Seq::<char>::empty()) =~= split_on(x, sep) + split_on(y, sep));
    } else {
        let y0 = y.drop_last();
        assert(s.drop_last() =~= x + seq![sep] + y0);
        assert(s.last() == y.last());
        lemma_split_on_concat(x, y0, sep);
        lemma_split_on_nonempty(y0, sep);
        let a = split_on(x, sep);
        let b = split_on(y0, sep);
        if y.last() == sep {
            assert((a + b).push(Seq::<char>::empty()) =~= a + b.push(Seq::<char>::empty()));
        } else {
            assert((a + b).update((a + b).len() - 1, (a + b).last().push(y.last()))
                =~= a + b.update(b.len() - 1, b.last().push(y.last())));
        }
    }
}

/// A text without the separator is one piece.
pub proof fn lemma_split_on_single(x: Seq<char>, sep: char)
    requires
        forall|i: int| 0 <= i < x.len() ==> x[i] != sep,
    ensures
        split_on(x, sep) == seq![x],
    decreases x.len(),
{
    if x.len() == 0 {
        assert(x =~= Seq::<char>::empty());
    } else {
        let x0 = x.drop_last();
        lemma_split_on_single(x0, sep);
        assert(x.last() == x[x.len() - 1]);
        assert(x0.push(x.last()) =~= x);
        assert(seq![x0].update(0, x0.push(x.last())) =~= seq![x]);
    }
}

/// `name` appended to the directory `base` as a path: nothing is added to
/// an empty base, and `sep` is put between them unless `base` already ends
/// with a separator (`/`, or `sep`).
pub open spec fn path_join(base: Seq<char>, name: Seq<char>, sep: char) -> Seq<char> {
    if base.len() == 0 {
        name
    } else if base.last() == '/' || base.last() == sep {
        base + name
    } else {
        base.push(sep) + name
    }
}

/// `name` appended to the directory `base` (see [`path_join`]).
pub fn join_path(base: &str, name: &str, sep: char) -> (r: String)
    ensures
        r@ == path_join(base@, name@, sep),
{
    let bc = chars_of(base);
    let mut r = copy_str(base);
    if bc.len() > 0 && bc[bc.len() - 1] != '/' && bc[bc.len() - 1] != sep {
        push_char(&mut r, sep);
    }
    r.append(name);
    r
}

/// The lines of `s`: the pieces between newlines.  (`str::lines` also drops
/// a final empty piece and a trailing carriage return of each line; the
/// readers here trim every line and skip empty ones, which makes no
/// difference.)
pub fn split_lines(s: &str) -> (lines: Vec<String>)
    ensures
        views(lines@) == split_on(s@, '\n'),
{
    let cs = chars_of(s);
    let mut lines: Vec<String> = Vec::new();
    let mut cur = String::new();
    let mut i: usize = 0;
    while i < cs.len()
        invariant
            i <= cs.len(),
            cs@ == s@,
            views(lines@).push(cur@) == split_on(cs@.take(i as int), '\n'),
        decreases cs.len() - i,
    {
        proof {
            lemma_split_on_nonempty(cs@.take(i as int), '\n');
        }
        assert(cs@.take(i + 1).drop_last() =~= cs@.take(i as int));
        let c = cs[i];
        if c == '\n' {
            let ghost before = views(lines@);
            let done = cur;
            lines.push(done);
            cur = String::new();
            assert(views(lines@).push(cur@) =~= before.push(done@).push(Seq::<char>::empty()));
        } else {
            let ghost before = views(lines@);
            push_char(&mut cur, c);
            assert(views(lines@).push(cur@) =~= before.push(cur@));
        }
        i += 1;
    }
    assert(cs@.take(cs.len() as int) =~= s@);
    lines.push(cur);
    lines
}

/// `s` with leading and trailing white space removed.
pub fn trim_str(s: &str) -> (r: String)
    ensures
        r@ == trim(s@),
{
    let cs = chars_of(s);
    let (a, b) = trim_bounds(&cs, 0, cs.len());
    assert(cs@.subrange(0, cs@.len() as int) =~= cs@);
    string_of(&cs, a, b)
}

proof fn lemma_trim_end_char_step(s: Seq<char>, c: char, e: int)
    requires
        0 <= e <= s.len(),
        forall|j: int| e <= j < s.len() ==> #[trigger] s[j] == c,
    ensures
        trim_end_char(s, c) == trim_end_char(s.subrange(0, e), c),
    decreases s.len() - e,
{
    if e < s.len() {
        let t = s.drop_last();
        assert forall|j: int| e <= j < t.len() implies #[trigger] t[j] == c by {
            assert(t[j] == s[j]);
        }
        lemma_trim_end_char_step(t, c, e);
        assert(t.subrange(0, e) =~= s.subrange(0, e));
    } else {
        assert(s.subrange(0, e) =~= s);
    }
}

proof fn lemma_trim_start_char_step(s: Seq<char>, c: char, a: int)
    requires
        0 <= a <= s.len(),
        forall|j: int| 0 <= j < a ==> #[trigger] s[j] == c,
    ensures
        trim_start_char(s, c) == trim_start_char(s.subrange(a, s.len() as int), c),
    decreases a,
{
    if a > 0 {
        let t = s.drop_first();
        assert forall|j: int| 0 <= j < a - 1 implies #[trigger] t[j] == c by {
            assert(t[j] == s[j + 1]);
        }
        lemma_trim_start_char_step(t, c, a - 1);
        assert(t.subrange(a - 1, t.len() as int) =~= s.subrange(a, s.len() as int));
    } else {
        assert(s.subrange(0, s.len() as int) =~= s);
    }
}

/// `s` without any trailing `c`.
pub fn trim_end_char_str(s: &str, c: char) -> (r: String)
    ensures
        r@ == trim_end_char(s@, c),
{
    let cs = chars_of(s);
    let mut e = cs.len();
    while e > 0 && cs[e - 1] == c
        invariant
            e <= cs.len(),
            forall|j: int| e <= j < cs.len() ==> #[trigger] cs@[j] == c,
        decreases e,
    {
        e -= 1;
    }
    proof {
        lemma_trim_end_char_step(cs@, c, e as int);
        let u = cs@.subrange(0, e as int);
        if e > 0 {
            assert(u.last() == cs@[e - 1]);
        }
        assert(trim_end_char(u, c) == u);
    }
    string_of(&cs, 0, e)
}

/// `s` without leading or trailing `c`.
pub fn trim_char_str(s: &str, c: char) -> (r: String)
    ensures
        r@ == trim_char(s@, c),
{
    let cs = chars_of(s);
    let mut a: usize = 0;
    while a < cs.len() && cs[a] == c
        invariant
            a <= cs.len(),
            forall|j: int| 0 <= j < a ==> #[trigger] cs@[j] == c,
        decreases cs.len() - a,
    {
        a += 1;
    }
    proof {
        lemma_trim_start_char_step(cs@, c, a as int);
        let u = cs@.subrange(a as int, cs@.len() as int);
        if a < cs.len() {
            assert(u[0] == cs@[a as int]);
        }
        assert(trim_start_char(u, c) == u);
    }
    let mid = string_of(&cs, a, cs.len());
    trim_end_char_str(mid.as_str(), c)
}

} // verus!
