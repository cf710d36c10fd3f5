//! The search box: its query, the cached lower-case form of the query, and
//! the filter-expression mode.
use vstd::prelude::*;
use crate::text::{all_ascii, ascii_lower, ascii_lower_char, lower_ascii_char, pop_char, push_char, to_lower, unicode_lower};

verus! {

/// How the query is read.
#[derive(Debug, Clone, Copy, PartialEq, Eq, Structural)]
pub enum QueryMode {
    /// Substring match on names and pids.
    Substring,
    /// A filter expression.
    FilterExpr,
}

impl Default for QueryMode {
    fn default() -> (m: QueryMode)
        ensures
            m == QueryMode::Substring,
    {
        QueryMode::Substring
    }
}

/// A parsed filter expression, identified by the query it was parsed from
/// (the expression language itself lives with the caller).
#[derive(Debug, Clone)]
pub struct FilterExpr {
    pub source: String,
}

/// A key press, as far as the search box reads it.
#[derive(Debug, Clone, Copy, PartialEq, Eq, Structural)]
pub enum SearchKey {
    Esc,
    Enter,
    Backspace,
    Char(char),
    Other,
}

/// The lower-case form of a query: the ASCII lowering for an all-ASCII
/// query, the full Unicode lowering otherwise.
pub open spec fn lower_of(q: Seq<char>) -> Seq<char> {
    if all_ascii(q) {
        ascii_lower(q)
    } else {
        unicode_lower(q)
    }
}

/// The state of the search box.
pub struct SearchState {
    pub active: bool,
    pub query: String,
    /// The lower-case form of `query`.
    pub query_lower: String,
    /// Whether `query_lower` follows `query` character by character (the
    /// query is all ASCII); otherwise it is recomputed on every edit.
    pub query_lower_ascii_sync: bool,
    pub mode: QueryMode,
    /// The last filter expression that parsed, in filter mode.
    pub filter_expr: Option<FilterExpr>,
    /// The message of the last parse failure, in filter mode.
    pub filter_error: Option<String>,
}

/// Whether a key edits the query.
pub fn edits_query(key: &SearchKey) -> (b: bool)
    ensures
        b == (*key == SearchKey::Backspace || *key is Char),
{
    match key {
        SearchKey::Backspace => true,
        SearchKey::Char(_) => true,
        _ => false,
    }
}

impl SearchState {
    /// The cached lower-case query agrees with the query; while the ASCII
    /// fast path is on, the query is all ASCII.
    pub open spec fn wf(&self) -> bool {
        &&& self.query_lower@ == lower_of(self.query@)
        &&& self.query_lower_ascii_sync ==> all_ascii(self.query@)
    }

    /// An inactive, empty search box.
    pub fn new() -> (s: SearchState)
        ensures
            s.wf(),
            !s.active,
            s.query@ == Seq::<char>::empty(),
            s.query_lower@ == Seq::<char>::empty(),
            s.mode == QueryMode::Substring,
            s.filter_expr.is_none(),
            s.filter_error.is_none(),
    {
        let s = SearchState {
            active: false,
            query: String::new(),
            query_lower: String::new(),
            query_lower_ascii_sync: true,
            mode: QueryMode::Substring,
            filter_expr: None,
            filter_error: None,
        };
        assert(s.query_lower@ =~= lower_of(s.query@));
        s
    }

    /// Activates the box in substring mode.
    pub fn activate_substring(&mut self)
        requires
            old(self).wf(),
        ensures
            final(self).wf(),
            final(self).active,
            final(self).mode == QueryMode::Substring,
            final(self).query@ == old(self).query@,
            final(self).query_lower@ == old(self).query_lower@,
            final(self).filter_expr == old(self).filter_expr,
            final(self).filter_error == old(self).filter_error,
    {
        self.active = true;
        self.mode = QueryMode::Substring;
    }

    /// Activates the box in filter mode, forgetting any expression and error.
    pub fn activate_filter_expr(&mut self)
        requires
            old(self).wf(),
        ensures
            final(self).wf(),
            final(self).active,
            final(self).mode == QueryMode::FilterExpr,
            final(self).query@ == old(self).query@,
            final(self).query_lower@ == old(self).query_lower@,
            final(self).filter_expr.is_none(),
            final(self).filter_error.is_none(),
    {
        self.active = true;
        self.mode = QueryMode::FilterExpr;
        self.filter_expr = None;
        self.filter_error = None;
    }

    /// Applies a key: Esc resets the box, Enter leaves it with the query
    /// kept, Backspace drops the last character, a character is appended.
    /// Returns whether the key was consumed.  In filter mode, after an edit
    /// the caller parses the new query and hands the outcome to
    /// [`SearchState::reparse_filter`].
    pub fn handle_input(&mut self, key: SearchKey) -> (consumed: bool)
        requires
            old(self).wf(),
        ensures
            final(self).wf(),
            consumed == (key != SearchKey::Other),
            final(self).query_lower@ == lower_of(final(self).query@),
            match key {
                SearchKey::Esc => !final(self).active && final(self).query@.len() == 0 && final(self).mode == QueryMode::Substring
                    && final(self).filter_expr.is_none() && final(self).filter_error.is_none(),
                SearchKey::Enter => !final(self).active && final(self).query@ == old(self).query@
                    && final(self).mode == old(self).mode && final(self).filter_expr == old(self).filter_expr
                    && final(self).filter_error == old(self).filter_error,
                SearchKey::Backspace => final(self).active == old(self).active
                    && final(self).query@ == (if old(self).query@.len() > 0 { old(self).query@.drop_last() } else { old(self).query@ })
                    && final(self).mode == old(self).mode && final(self).filter_expr == old(self).filter_expr
                    && final(self).filter_error == old(self).filter_error,
                SearchKey::Char(c) => final(self).active == old(self).active && final(self).query@ == old(self).query@.push(c)
                    && final(self).mode == old(self).mode && final(self).filter_expr == old(self).filter_expr
                    && final(self).filter_error == old(self).filter_error,
                SearchKey::Other => *final(self) == *old(self),
            },
    {
        match key {
            SearchKey::Esc => {
                self.reset_state();
                true
            },
            SearchKey::Enter => {
                self.active = false;
                true
            },
            SearchKey::Backspace => {
                let ghost q0 = self.query@;
                let ghost l0 = self.query_lower@;
                pop_char(&mut self.query);
                assert(self.query@ == (if q0.len() > 0 { q0.drop_last() } else { q0 }));
                if self.query_lower_ascii_sync {
                    pop_char(&mut self.query_lower);
                    proof {
                        if q0.len() > 0 {
                            assert(ascii_lower(q0).drop_last() =~= ascii_lower(q0.drop_last()));
                        }
                        assert(all_ascii(self.query@));
                    }
                } else {
                    self.query_lower = to_lower(self.query.as_str());
                }
                if self.query.unicode_len() == 0 {
                    self.query_lower_ascii_sync = true;
                    assert(all_ascii(self.query@));
                }
                true
            },
            SearchKey::Char(c) => {
                let ghost q0 = self.query@;
                push_char(&mut self.query, c);
                assert(self.query@ == q0.push(c));
                if self.query_lower_ascii_sync && (c as u32) < 128 {
                    push_char(&mut self.query_lower, lower_ascii_char(c));
                    proof {
                        assert(all_ascii(self.query@));
                        assert(ascii_lower(self.query@) =~= ascii_lower(q0).push(ascii_lower_char(c)));
                    }
                } else {
                    self.query_lower_ascii_sync = false;
                    self.query_lower = to_lower(self.query.as_str());
                }
                true
            },
            SearchKey::Other => false,
        }
    }

    /// Takes in the outcome of parsing the query in filter mode: an empty
    /// query clears the expression and the error; a parsed expression
    /// replaces the previous one and clears the error; a failure keeps the
    /// previous expression and records its message.
    pub fn reparse_filter(&mut self, parsed: Result<FilterExpr, String>)
        requires
            old(self).wf(),
        ensures
            final(self).wf(),
            final(self).active == old(self).active,
            final(self).query@ == old(self).query@,
            final(self).query_lower@ == old(self).query_lower@,
            final(self).mode == old(self).mode,
            old(self).query@.len() == 0 ==> final(self).filter_expr.is_none() && final(self).filter_error.is_none(),
            old(self).query@.len() > 0 ==> match parsed {
                Ok(e) => final(self).filter_expr == Some(e) && final(self).filter_error.is_none(),
                Err(m) => final(self).filter_expr == old(self).filter_expr && final(self).filter_error == Some(m),
            },
    {
        if self.query.unicode_len() == 0 {
            self.filter_expr = None;
            self.filter_error = None;
            return;
        }
        match parsed {
            Ok(e) => {
                self.filter_expr = Some(e);
                self.filter_error = None;
            },
            Err(m) => {
                self.filter_error = Some(m);
            },
        }
    }

    /// Whether the box is active.
    pub fn is_active(&self) -> (b: bool)
        ensures
            b == self.active,
    {
        self.active
    }

    /// The query.
    pub fn query(&self) -> (q: &str)
        ensures
            q@ == self.query@,
    {
        self.query.as_str()
    }

    /// The lower-case form of the query.
    pub fn query_lower(&self) -> (q: &str)
        requires
            self.wf(),
        ensures
            q@ == self.query_lower@,
            q@ == lower_of(self.query@),
    {
        self.query_lower.as_str()
    }

    /// Resets the box: inactive, empty, substring mode, no expression.
    pub fn clear(&mut self)
        requires
            old(self).wf(),
        ensures
            final(self).wf(),
            !final(self).active,
            final(self).query@.len() == 0,
            final(self).query_lower@.len() == 0,
            final(self).mode == QueryMode::Substring,
            final(self).filter_expr.is_none(),
            final(self).filter_error.is_none(),
    {
        self.reset_state();
    }

    fn reset_state(&mut self)
        ensures
            final(self).wf(),
            !final(self).active,
            final(self).query@.len() == 0,
            final(self).query_lower@.len() == 0,
            final(self).mode == QueryMode::Substring,
            final(self).filter_expr.is_none(),
            final(self).filter_error.is_none(),
    {
        self.active = false;
        self.query = String::new();
        self.query_lower = String::new();
        self.query_lower_ascii_sync = true;
        self.mode = QueryMode::Substring;
        self.filter_expr = None;
        self.filter_error = None;
        assert(self.query_lower@ =~= lower_of(self.query@));
    }
}

} // verus!
