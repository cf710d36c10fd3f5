//! Persisted UI preferences: the sort field of the process list, whether the
//! first-run help was seen, and whether the sidebar is expanded.
//!
//! The preferences live in a small hand-written TOML subset
//! (`sort_field = "memory"`, `first_run = false`, `sidebar_expanded = false`).
//! Reading a missing, damaged or out-of-range value falls back to the
//! default.  The library parses and renders the file's text; reading and
//! writing the file is the caller's.
use vstd::prelude::*;
use crate::security::path_rules::{find_char_exec, find_char_from, lemma_find_char_from_bounds};
use crate::text::{
    chars_of, is_white, lemma_split_on_concat, lemma_split_on_single, split_lines, split_on, str_eq, string_of, trim,
    trim_char, trim_char_str, trim_end, trim_end_char, trim_start, trim_start_char, trim_str, views,
};

verus! {

/// The column the process list is sorted by.
#[derive(Debug, Clone, Copy, PartialEq, Eq, Structural)]
pub enum SortField {
    Cpu,
    Memory,
    Pid,
    Name,
    Security,
    DiskRead,
    DiskWrite,
    NetSent,
    NetRecv,
}

impl Default for SortField {
    fn default() -> (f: SortField)
        ensures
            f == SortField::Cpu,
    {
        SortField::Cpu
    }
}

/// The name of a sort field in the preferences file.
pub open spec fn sort_field_name(f: SortField) -> Seq<char> {
    match f {
        SortField::Cpu => "cpu"@,
        SortField::Memory => "memory"@,
        SortField::Pid => "pid"@,
        SortField::Name => "name"@,
        SortField::Security => "security"@,
        SortField::DiskRead => "disk_read"@,
        SortField::DiskWrite => "disk_write"@,
        SortField::NetSent => "net_sent"@,
        SortField::NetRecv => "net_recv"@,
    }
}

/// The sort field with the given name.
pub open spec fn sort_field_named(s: Seq<char>) -> Option<SortField> {
    if s == "cpu"@ {
        Some(SortField::Cpu)
    } else if s == "memory"@ {
        Some(SortField::Memory)
    } else if s == "pid"@ {
        Some(SortField::Pid)
    } else if s == "name"@ {
        Some(SortField::Name)
    } else if s == "security"@ {
        Some(SortField::Security)
    } else if s == "disk_read"@ {
        Some(SortField::DiskRead)
    } else if s == "disk_write"@ {
        Some(SortField::DiskWrite)
    } else if s == "net_sent"@ {
        Some(SortField::NetSent)
    } else if s == "net_recv"@ {
        Some(SortField::NetRecv)
    } else {
        None
    }
}

impl SortField {
    /// The field's name in the preferences file.
    pub fn as_str(&self) -> (s: &'static str)
        ensures
            s@ == sort_field_name(*self),
    {
        match self {
            SortField::Cpu => "cpu",
            SortField::Memory => "memory",
            SortField::Pid => "pid",
            SortField::Name => "name",
            SortField::Security => "security",
            SortField::DiskRead => "disk_read",
            SortField::DiskWrite => "disk_write",
            SortField::NetSent => "net_sent",
            SortField::NetRecv => "net_recv",
        }
    }

    /// The field with the given name, if there is one.
    pub fn parse_from_str(s: &str) -> (r: Option<SortField>)
        ensures
            r == sort_field_named(s@),
    {
        if str_eq(s, "cpu") {
            Some(SortField::Cpu)
        } else if str_eq(s, "memory") {
            Some(SortField::Memory)
        } else if str_eq(s, "pid") {
            Some(SortField::Pid)
        } else if str_eq(s, "name") {
            Some(SortField::Name)
        } else if str_eq(s, "security") {
            Some(SortField::Security)
        } else if str_eq(s, "disk_read") {
            Some(SortField::DiskRead)
        } else if str_eq(s, "disk_write") {
            Some(SortField::DiskWrite)
        } else if str_eq(s, "net_sent") {
            Some(SortField::NetSent)
        } else if str_eq(s, "net_recv") {
            Some(SortField::NetRecv)
        } else {
            None
        }
    }
}

/// `first_run` when the file or the field is missing.
pub const FIRST_RUN_DEFAULT: bool = true;

/// `sidebar_expanded` when the file or the field is missing.
pub const SIDEBAR_EXPANDED_DEFAULT: bool = false;

/// The value text of `line` for `key`: the line, trimmed, is not empty, is
/// no comment, and its text before the first `=`, trimmed, is `key`.
pub open spec fn line_value(line: Seq<char>, key: Seq<char>) -> Option<Seq<char>> {
    let t = trim(line);
    if t.len() == 0 || t[0] == '#' {
        None
    } else {
        match find_char_from(t, 0, '=') {
            Some(i) => if trim(t.take(i)) == key {
                Some(t.subrange(i + 1, t.len() as int))
            } else {
                None
            },
            None => None,
        }
    }
}

/// The value of the first line from the `k`-th on that sets `key`.
pub open spec fn first_value(lines: Seq<Seq<char>>, key: Seq<char>, k: int) -> Option<Seq<char>>
    decreases lines.len() - k,
{
    if k < 0 || k >= lines.len() {
        None
    } else {
        match line_value(lines[k], key) {
            Some(v) => Some(v),
            None => first_value(lines, key, k + 1),
        }
    }
}

/// The value text of the first line of `raw` that sets `key`.
pub open spec fn field_value(raw: Seq<char>, key: Seq<char>) -> Option<Seq<char>> {
    first_value(split_on(raw, '\n'), key, 0)
}

/// The sort field that a preferences text sets: the first `sort_field`
/// line decides, its value trimmed and unquoted.
pub open spec fn sort_field_of(raw: Seq<char>) -> Option<SortField> {
    match field_value(raw, "sort_field"@) {
        Some(v) => sort_field_named(trim_char(trim(v), '"')),
        None => None,
    }
}

/// The boolean that a preferences text sets for `key`: the first line for
/// the key decides, and its value must be `true` or `false`.
pub open spec fn bool_field_of(raw: Seq<char>, key: Seq<char>) -> Option<bool> {
    match field_value(raw, key) {
        Some(v) => if trim(v) == "true"@ {
            Some(true)
        } else if trim(v) == "false"@ {
            Some(false)
        } else {
            None
        },
        None => None,
    }
}

fn line_value_exec(line: &str, key: &str) -> (r: Option<String>)
    ensures
        match r {
            Some(v) => line_value(line@, key@) == Some(v@),
            None => line_value(line@, key@).is_none(),
        },
{
    let t = trim_str(line);
    let tc = chars_of(t.as_str());
    if tc.len() == 0 || tc[0] == '#' {
        return None;
    }
    match find_char_exec(&tc, 0, '=') {
        Some(i) => {
            proof {
                lemma_find_char_from_bounds(tc@, 0, '=');
            }
            let k = string_of(&tc, 0, i);
            let kt = trim_str(k.as_str());
            assert(tc@.subrange(0, i as int) =~= tc@.take(i as int));
            if str_eq(kt.as_str(), key) {
                Some(string_of(&tc, i + 1, tc.len()))
            } else {
                None
            }
        },
        None => None,
    }
}

/// The value text of the first line of `raw` that sets `key`.
pub fn field_value_exec(raw: &str, key: &str) -> (r: Option<String>)
    ensures
        match r {
            Some(v) => field_value(raw@, key@) == Some(v@),
            None => field_value(raw@, key@).is_none(),
        },
{
    let lines = split_lines(raw);
    let ghost ls = views(lines@);
    let mut k: usize = 0;
    while k < lines.len()
        invariant
            k <= lines.len(),
            ls == views(lines@),
            ls == split_on(raw@, '\n'),
            first_value(ls, key@, 0) == first_value(ls, key@, k as int),
        decreases lines.len() - k,
    {
        assert(ls[k as int] == lines@[k as int]@);
        match line_value_exec(lines[k].as_str(), key) {
            Some(v) => {
                return Some(v);
            },
            None => {},
        }
        k += 1;
    }
    None
}

/// The sort field a preferences text sets.
pub fn parse_sort_field(raw: &str) -> (r: Option<SortField>)
    ensures
        r == sort_field_of(raw@),
{
    match field_value_exec(raw, "sort_field") {
        Some(v) => {
            let t = trim_str(v.as_str());
            let u = trim_char_str(t.as_str(), '"');
            SortField::parse_from_str(u.as_str())
        },
        None => None,
    }
}

/// The boolean a preferences text sets for `key`.
pub fn parse_bool_field(raw: &str, key: &str) -> (r: Option<bool>)
    ensures
        r == bool_field_of(raw@, key@),
{
    match field_value_exec(raw, key) {
        Some(v) => {
            let t = trim_str(v.as_str());
            if str_eq(t.as_str(), "true") {
                Some(true)
            } else if str_eq(t.as_str(), "false") {
                Some(false)
            } else {
                None
            }
        },
        None => None,
    }
}

/// The `first_run` flag a preferences text sets.
pub fn parse_first_run(raw: &str) -> (r: Option<bool>)
    ensures
        r == bool_field_of(raw@, "first_run"@),
{
    parse_bool_field(raw, "first_run")
}

/// The `sidebar_expanded` flag a preferences text sets.
pub fn parse_sidebar_expanded(raw: &str) -> (r: Option<bool>)
    ensures
        r == bool_field_of(raw@, "sidebar_expanded"@),
{
    parse_bool_field(raw, "sidebar_expanded")
}


// ---------------------------------------------------------------------------
// Rendering
// ---------------------------------------------------------------------------
pub open spec fn bool_text(b: bool) -> Seq<char> {
    if b {
        "true"@
    } else {
        "false"@
    }
}

/// The comment line at the top of the file.
pub open spec fn header_line() -> Seq<char> {
    "# proc UI 偏好 — 由 proc 自动维护"@
}

/// A `key = value` line.
pub open spec fn setting_line(key: Seq<char>, value: Seq<char>) -> Seq<char> {
    key + " = "@ + value
}

/// The preferences text for the given settings.
pub open spec fn rendered_state(f: SortField, first_run: bool, sidebar_expanded: bool) -> Seq<char> {
    header_line() + "\n"@ + setting_line("sort_field"@, "\""@ + sort_field_name(f) + "\""@) + "\n"@
        + setting_line("first_run"@, bool_text(first_run)) + "\n"@
        + setting_line("sidebar_expanded"@, bool_text(sidebar_expanded)) + "\n"@
}

/// The preferences text for the given settings.
pub fn render_state(field: SortField, first_run: bool, sidebar_expanded: bool) -> (r: String)
    ensures
        r@ == rendered_state(field, first_run, sidebar_expanded),
{
    let mut r = String::from_str("# proc UI 偏好 — 由 proc 自动维护\n");
    r.append("sort_field = \"");
    r.append(field.as_str());
    r.append("\"\n");
    r.append("first_run = ");
    r.append(if first_run { "true" } else { "false" });
    r.append("\n");
    r.append("sidebar_expanded = ");
    r.append(if sidebar_expanded { "true" } else { "false" });
    r.append("\n");
    proof {
        reveal_strlit("# proc UI 偏好 — 由 proc 自动维护\n");
        reveal_strlit("# proc UI 偏好 — 由 proc 自动维护");
        reveal_strlit("\n");
        reveal_strlit("\"\n");
        reveal_strlit("\"");
        reveal_strlit("sort_field = \"");
        reveal_strlit("sort_field");
        reveal_strlit(" = ");
        reveal_strlit("first_run = ");
        reveal_strlit("first_run");
        reveal_strlit("sidebar_expanded = ");
        reveal_strlit("sidebar_expanded");
        assert(r@ =~= rendered_state(field, first_run, sidebar_expanded));
    }
    r
}

/// The sort field stored in a preferences file, if it can be read
/// (`existing` is the file's text, `None` when there is no file).
pub fn load_sort_field(existing: Option<&str>) -> (r: Option<SortField>)
    ensures
        r == match existing {
            Some(raw) => sort_field_of(raw@),
            None => None,
        },
{
    match existing {
        Some(raw) => parse_sort_field(raw),
        None => None,
    }
}

/// The first-run flag stored in a preferences file, [`FIRST_RUN_DEFAULT`]
/// when it cannot be read.
pub fn load_first_run(existing: Option<&str>) -> (r: bool)
    ensures
        r == match existing {
            Some(raw) => match bool_field_of(raw@, "first_run"@) {
                Some(b) => b,
                None => FIRST_RUN_DEFAULT,
            },
            None => FIRST_RUN_DEFAULT,
        },
{
    match existing {
        Some(raw) => match parse_first_run(raw) {
            Some(b) => b,
            None => FIRST_RUN_DEFAULT,
        },
        None => FIRST_RUN_DEFAULT,
    }
}

/// The sidebar flag stored in a preferences file,
/// [`SIDEBAR_EXPANDED_DEFAULT`] when it cannot be read.
pub fn load_sidebar_expanded(existing: Option<&str>) -> (r: bool)
    ensures
        r == match existing {
            Some(raw) => match bool_field_of(raw@, "sidebar_expanded"@) {
                Some(b) => b,
                None => SIDEBAR_EXPANDED_DEFAULT,
            },
            None => SIDEBAR_EXPANDED_DEFAULT,
        },
{
    match existing {
        Some(raw) => match parse_sidebar_expanded(raw) {
            Some(b) => b,
            None => SIDEBAR_EXPANDED_DEFAULT,
        },
        None => SIDEBAR_EXPANDED_DEFAULT,
    }
}

/// The new preferences text after choosing `field`; the other settings
/// are kept from `existing`.
pub fn save_sort_field(field: SortField, existing: Option<&str>) -> (r: String)
    ensures
        r@ == rendered_state(field, load_first_run_of(existing), load_sidebar_of(existing)),
{
    let first_run = load_first_run(existing);
    let sidebar = load_sidebar_expanded(existing);
    render_state(field, first_run, sidebar)
}

/// The new preferences text once the first-run help was seen; the other
/// settings are kept from `existing`.
pub fn mark_first_run_done(existing: Option<&str>) -> (r: String)
    ensures
        r@ == rendered_state(load_sort_of(existing), false, load_sidebar_of(existing)),
{
    let field = match load_sort_field(existing) {
        Some(f) => f,
        None => SortField::Cpu,
    };
    let sidebar = load_sidebar_expanded(existing);
    render_state(field, false, sidebar)
}

/// The new preferences text after the sidebar was toggled; the other
/// settings are kept from `existing`.
pub fn save_sidebar_expanded(expanded: bool, existing: Option<&str>) -> (r: String)
    ensures
        r@ == rendered_state(load_sort_of(existing), load_first_run_of(existing), expanded),
{
    let field = match load_sort_field(existing) {
        Some(f) => f,
        None => SortField::Cpu,
    };
    let first_run = load_first_run(existing);
    render_state(field, first_run, expanded)
}

/// The stored sort field, the default field when there is none.
pub open spec fn load_sort_of(existing: Option<&str>) -> SortField {
    match existing {
        Some(raw) => match sort_field_of(raw@) {
            Some(f) => f,
            None => SortField::Cpu,
        },
        None => SortField::Cpu,
    }
}

/// The stored first-run flag, the default when there is none.
pub open spec fn load_first_run_of(existing: Option<&str>) -> bool {
    match existing {
        Some(raw) => match bool_field_of(raw@, "first_run"@) {
            Some(b) => b,
            None => FIRST_RUN_DEFAULT,
        },
        None => FIRST_RUN_DEFAULT,
    }
}

/// The stored sidebar flag, the default when there is none.
pub open spec fn load_sidebar_of(existing: Option<&str>) -> bool {
    match existing {
        Some(raw) => match bool_field_of(raw@, "sidebar_expanded"@) {
            Some(b) => b,
            None => SIDEBAR_EXPANDED_DEFAULT,
        },
        None => SIDEBAR_EXPANDED_DEFAULT,
    }
}


// ---------------------------------------------------------------------------
// Reading back what was written
// ---------------------------------------------------------------------------
proof fn lemma_find_first(t: Seq<char>, c: char, p: int, i: int)
    requires
        0 <= i <= p < t.len(),
        t[p] == c,
        forall|j: int| 0 <= j < p ==> t[j] != c,
    ensures
        find_char_from(t, i, c) == Some(p),
    decreases p - i,
{
    if i < p {
        lemma_find_first(t, c, p, i + 1);
    }
}

proof fn lemma_trim_fixed(s: Seq<char>)
    requires
        s.len() > 0,
        !is_white(s[0]),
        !is_white(s.last()),
    ensures
        trim(s) == s,
{
    assert(trim_start(s) == s);
    assert(trim_end(s) == s);
}

/// A setting line is read as its key and the text after ` =`.
proof fn lemma_setting_line(k: Seq<char>, v: Seq<char>, key: Seq<char>)
    requires
        k.len() > 0,
        v.len() > 0,
        !is_white(k[0]),
        !is_white(k.last()),
        k[0] != '#',
        forall|i: int| 0 <= i < k.len() ==> k[i] != '=',
        !is_white(v[0]),
        !is_white(v.last()),
    ensures
        line_value(setting_line(k, v), key) == if key == k {
            Some(" "@ + v)
        } else {
            None
        },
{
    reveal_strlit(" = ");
    reveal_strlit(" ");
    let t = setting_line(k, v);
    assert(t[0] == k[0]);
    assert(t.last() == v.last());
    lemma_trim_fixed(t);
    let p = k.len() as int + 1;
    assert(t[p] == '=');
    assert forall|j: int| 0 <= j < p implies t[j] != '=' by {
        if j < k.len() {
            assert(t[j] == k[j]);
        }
    }
    lemma_find_first(t, '=', p, 0);
    let kk = t.take(p);
    assert(kk =~= k.push(' '));
    assert(is_white(' '));
    assert(trim_start(kk) == kk);
    assert(kk.drop_last() =~= k);
    assert(trim_end(kk) == trim_end(k));
    assert(trim_end(k) == k);
    assert(t.subrange(p + 1, t.len() as int) =~= " "@ + v);
}

proof fn lemma_trim_leading_space(v: Seq<char>)
    requires
        v.len() > 0,
        !is_white(v[0]),
        !is_white(v.last()),
    ensures
        trim(" "@ + v) == v,
{
    reveal_strlit(" ");
    let w = " "@ + v;
    assert(is_white(w[0]));
    assert(w.drop_first() =~= v);
    assert(trim_start(w) == trim_start(v));
    assert(trim_start(v) == v);
    assert(trim_end(v) == v);
}

proof fn lemma_unquote(n: Seq<char>)
    requires
        n.len() > 0,
        n[0] != '"',
        n.last() != '"',
    ensures
        trim_char("\""@ + n + "\""@, '"') == n,
{
    reveal_strlit("\"");
    let q = "\""@ + n + "\""@;
    assert(q.drop_first() =~= n + "\""@);
    assert(trim_start_char(q, '"') == trim_start_char(n + "\""@, '"'));
    assert((n + "\""@)[0] == n[0]);
    assert(trim_start_char(n + "\""@, '"') == n + "\""@);
    assert((n + "\""@).drop_last() =~= n);
    assert(trim_end_char(n + "\""@, '"') == trim_end_char(n, '"'));
    assert(trim_end_char(n, '"') == n);
}

proof fn lemma_no_newline(s: Seq<char>)
    requires
        forall|i: int| 0 <= i < s.len() ==> s[i] != '\n',
    ensures
        split_on(s, '\n') == seq![s],
{
    lemma_split_on_single(s, '\n');
}

proof fn lemma_name_facts(f: SortField)
    ensures
        sort_field_name(f).len() > 0,
        sort_field_name(f)[0] != '"',
        sort_field_name(f).last() != '"',
        forall|i: int| 0 <= i < sort_field_name(f).len() ==> sort_field_name(f)[i] != '\n',
        sort_field_named(sort_field_name(f)) == Some(f),
{
    reveal_strlit("cpu");
    reveal_strlit("memory");
    reveal_strlit("pid");
    reveal_strlit("name");
    reveal_strlit("security");
    reveal_strlit("disk_read");
    reveal_strlit("disk_write");
    reveal_strlit("net_sent");
    reveal_strlit("net_recv");
    let n = sort_field_name(f);
    match f {
        SortField::Cpu => {},
        SortField::Memory => {
            assert(n[0] != ("cpu"@)[0]);
        },
        SortField::Pid => {
            assert(n[0] != ("cpu"@)[0] && n[0] != ("memory"@)[0]);
        },
        SortField::Name => {
            assert(n[0] != ("cpu"@)[0] && n[0] != ("memory"@)[0] && n[0] != ("pid"@)[0]);
        },
        SortField::Security => {
            assert(n[0] != ("cpu"@)[0] && n[0] != ("memory"@)[0] && n[0] != ("pid"@)[0] && n[0] != ("name"@)[0]);
        },
        SortField::DiskRead => {
            assert(n[0] != ("cpu"@)[0] && n[0] != ("memory"@)[0] && n[0] != ("pid"@)[0] && n[0] != ("name"@)[0]
                && n[0] != ("security"@)[0]);
        },
        SortField::DiskWrite => {
            assert(n[0] != ("cpu"@)[0] && n[0] != ("memory"@)[0] && n[0] != ("pid"@)[0] && n[0] != ("name"@)[0]
                && n[0] != ("security"@)[0] && n.len() != ("disk_read"@).len());
        },
        SortField::NetSent => {
            assert(n[0] != ("cpu"@)[0] && n[0] != ("memory"@)[0] && n[0] != ("pid"@)[0] && n[1] != ("name"@)[1]
                && n[0] != ("security"@)[0] && n[0] != ("disk_read"@)[0] && n[0] != ("disk_write"@)[0]);
        },
        SortField::NetRecv => {
            assert(n[0] != ("cpu"@)[0] && n[0] != ("memory"@)[0] && n[0] != ("pid"@)[0] && n[1] != ("name"@)[1]
                && n[0] != ("security"@)[0] && n[0] != ("disk_read"@)[0] && n[0] != ("disk_write"@)[0]
                && n[4] != ("net_sent"@)[4]);
        },
    }
}

proof fn lemma_bool_facts(b: bool)
    ensures
        bool_text(b).len() > 0,
        !is_white(bool_text(b)[0]),
        !is_white(bool_text(b).last()),
        forall|i: int| 0 <= i < bool_text(b).len() ==> bool_text(b)[i] != '\n',
        (if trim(bool_text(b)) == "true"@ { Some(true) } else if trim(bool_text(b)) == "false"@ { Some(false) } else { None })
            == Some(b),
{
    reveal_strlit("true");
    reveal_strlit("false");
    lemma_trim_fixed(bool_text(b));
}

/// Every field written by [`render_state`] is read back by the parsers.
pub proof fn law_render_read_back(f: SortField, first_run: bool, sidebar_expanded: bool)
    ensures
        sort_field_of(rendered_state(f, first_run, sidebar_expanded)) == Some(f),
        bool_field_of(rendered_state(f, first_run, sidebar_expanded), "first_run"@) == Some(first_run),
        bool_field_of(rendered_state(f, first_run, sidebar_expanded), "sidebar_expanded"@) == Some(sidebar_expanded),
{
    reveal_strlit("# proc UI 偏好 — 由 proc 自动维护");
    reveal_strlit("\n");
    reveal_strlit("\"");
    reveal_strlit("sort_field");
    reveal_strlit("first_run");
    reveal_strlit("sidebar_expanded");
    reveal_strlit(" = ");
    let nl = "\n"@;
    assert(nl =~= seq!['\n']);
    let l0 = header_line();
    let name = sort_field_name(f);
    lemma_name_facts(f);
    lemma_bool_facts(first_run);
    lemma_bool_facts(sidebar_expanded);
    let v1 = "\""@ + name + "\""@;
    let l1 = setting_line("sort_field"@, v1);
    let l2 = setting_line("first_run"@, bool_text(first_run));
    let l3 = setting_line("sidebar_expanded"@, bool_text(sidebar_expanded));
    let text = rendered_state(f, first_run, sidebar_expanded);
    // The text is the four lines, each followed by a newline.
    let e = Seq::<char>::empty();
    assert(text =~= l0 + seq!['\n'] + (l1 + seq!['\n'] + (l2 + seq!['\n'] + (l3 + seq!['\n'] + e))));
    assert forall|i: int| 0 <= i < l0.len() implies l0[i] != '\n' by {}
    assert forall|i: int| 0 <= i < l1.len() implies l1[i] != '\n' by {
        if 14 <= i < 14 + name.len() {
            assert(l1[i] == name[i - 14]);
        }
    }
    assert forall|i: int| 0 <= i < l2.len() implies l2[i] != '\n' by {
        if i >= 12 {
            assert(l2[i] == bool_text(first_run)[i - 12]);
        }
    }
    assert forall|i: int| 0 <= i < l3.len() implies l3[i] != '\n' by {
        if i >= 19 {
            assert(l3[i] == bool_text(sidebar_expanded)[i - 19]);
        }
    }
    lemma_no_newline(l0);
    lemma_no_newline(l1);
    lemma_no_newline(l2);
    lemma_no_newline(l3);
    lemma_split_on_concat(l3, e, '\n');
    lemma_split_on_concat(l2, l3 + seq!['\n'] + e, '\n');
    lemma_split_on_concat(l1, l2 + seq!['\n'] + (l3 + seq!['\n'] + e), '\n');
    lemma_split_on_concat(l0, l1 + seq!['\n'] + (l2 + seq!['\n'] + (l3 + seq!['\n'] + e)), '\n');
    assert(split_on(e, '\n') =~= seq![e]);
    let lines = split_on(text, '\n');
    assert(lines =~= seq![l0, l1, l2, l3, e]);
    // The header is a comment.
    assert(l0[0] == '#');
    lemma_trim_fixed(l0);
    assert(line_value(l0, "sort_field"@).is_none());
    assert(line_value(l0, "first_run"@).is_none());
    assert(line_value(l0, "sidebar_expanded"@).is_none());
    // The three settings.
    assert(forall|i: int| 0 <= i < ("sort_field"@).len() ==> ("sort_field"@)[i] != '=');
    assert(forall|i: int| 0 <= i < ("first_run"@).len() ==> ("first_run"@)[i] != '=');
    assert(forall|i: int| 0 <= i < ("sidebar_expanded"@).len() ==> ("sidebar_expanded"@)[i] != '=');
    assert(v1[0] == '"' && v1.last() == '"');
    lemma_setting_line("sort_field"@, v1, "sort_field"@);
    lemma_setting_line("sort_field"@, v1, "first_run"@);
    lemma_setting_line("sort_field"@, v1, "sidebar_expanded"@);
    lemma_setting_line("first_run"@, bool_text(first_run), "first_run"@);
    lemma_setting_line("first_run"@, bool_text(first_run), "sidebar_expanded"@);
    lemma_setting_line("sidebar_expanded"@, bool_text(sidebar_expanded), "sidebar_expanded"@);
    lemma_trim_leading_space(v1);
    lemma_trim_leading_space(bool_text(first_run));
    lemma_trim_leading_space(bool_text(sidebar_expanded));
    lemma_unquote(name);
    assert(lines[0] == l0 && lines[1] == l1 && lines[2] == l2 && lines[3] == l3);
    assert(line_value(lines[1], "sort_field"@) == Some(" "@ + v1));
    assert(first_value(lines, "sort_field"@, 1) == Some(" "@ + v1));
    assert(first_value(lines, "sort_field"@, 0) == Some(" "@ + v1));
    assert(first_value(lines, "first_run"@, 2) == Some(" "@ + bool_text(first_run)));
    assert(first_value(lines, "first_run"@, 1) == Some(" "@ + bool_text(first_run)));
    assert(first_value(lines, "first_run"@, 0) == Some(" "@ + bool_text(first_run)));
    assert(first_value(lines, "sidebar_expanded"@, 3) == Some(" "@ + bool_text(sidebar_expanded)));
    assert(first_value(lines, "sidebar_expanded"@, 2) == Some(" "@ + bool_text(sidebar_expanded)));
    assert(first_value(lines, "sidebar_expanded"@, 1) == Some(" "@ + bool_text(sidebar_expanded)));
    assert(first_value(lines, "sidebar_expanded"@, 0) == Some(" "@ + bool_text(sidebar_expanded)));
}

/// A field name is read back as its field.
pub proof fn law_sort_field_name_read_back(f: SortField)
    ensures
        sort_field_named(sort_field_name(f)) == Some(f),
{
    lemma_name_facts(f);
}

/// Saving a sort field keeps the first-run and sidebar settings of the
/// existing text, and reading the saved text gives the field back.
pub proof fn law_save_sort_field_keeps_others(f: SortField, existing: Option<&str>, written: &str)
    requires
        written@ == rendered_state(f, load_first_run_of(existing), load_sidebar_of(existing)),
    ensures
        load_sort_of(Some(written)) == f,
        load_first_run_of(Some(written)) == load_first_run_of(existing),
        load_sidebar_of(Some(written)) == load_sidebar_of(existing),
{
    law_render_read_back(f, load_first_run_of(existing), load_sidebar_of(existing));
}

/// Marking the first run done keeps the sort field and the sidebar state,
/// reads back as done, and marking the written text again writes the same
/// text.
pub proof fn law_mark_first_run_done_idempotent(existing: Option<&str>, written: &str)
    requires
        written@ == rendered_state(load_sort_of(existing), false, load_sidebar_of(existing)),
    ensures
        load_sort_of(Some(written)) == load_sort_of(existing),
        load_sidebar_of(Some(written)) == load_sidebar_of(existing),
        !load_first_run_of(Some(written)),
        rendered_state(load_sort_of(Some(written)), false, load_sidebar_of(Some(written))) == written@,
{
    law_render_read_back(load_sort_of(existing), false, load_sidebar_of(existing));
}

/// Saving the sidebar state keeps the sort field and the first-run flag, and
/// reading the saved text gives the state back.
pub proof fn law_save_sidebar_keeps_others(expanded: bool, existing: Option<&str>, written: &str)
    requires
        written@ == rendered_state(load_sort_of(existing), load_first_run_of(existing), expanded),
    ensures
        load_sort_of(Some(written)) == load_sort_of(existing),
        load_first_run_of(Some(written)) == load_first_run_of(existing),
        load_sidebar_of(Some(written)) == expanded,
{
    law_render_read_back(load_sort_of(existing), load_first_run_of(existing), expanded);
}

} // verus!
