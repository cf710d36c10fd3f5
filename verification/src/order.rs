//! The order of strings, character by character, and sorting by it.
use vstd::prelude::*;
use vstd::relations::{sorted_by, total_ordering};
use crate::text::views;

verus! {

/// `a` comes before `b` or equals it, comparing character by character and
/// a prefix first.  This is the order of `str`, whose bytewise comparison
/// of UTF-8 agrees with the order of the characters' code points.
pub open spec fn lex_le(a: Seq<char>, b: Seq<char>) -> bool
    decreases a.len(),
{
    if a.len() == 0 {
        true
    } else if b.len() == 0 {
        false
    } else if a[0] != b[0] {
        (a[0] as u32) < (b[0] as u32)
    } else {
        lex_le(a.drop_first(), b.drop_first())
    }
}

/// [`lex_le`] as a relation.
pub open spec fn lex_order() -> spec_fn(Seq<char>, Seq<char>) -> bool {
    |a: Seq<char>, b: Seq<char>| lex_le(a, b)
}

/// Different characters have different code points.
proof fn lemma_code_point_injective(a: char, b: char)
    ensures
        (a as u32) == (b as u32) ==> a == b,
{
}

proof fn lemma_lex_reflexive(a: Seq<char>)
    ensures
        lex_le(a, a),
    decreases a.len(),
{
    if a.len() > 0 {
        lemma_lex_reflexive(a.drop_first());
    }
}

proof fn lemma_lex_antisymmetric(a: Seq<char>, b: Seq<char>)
    requires
        lex_le(a, b),
        lex_le(b, a),
    ensures
        a == b,
    decreases a.len(),
{
    if a.len() > 0 && b.len() > 0 {
        if a[0] == b[0] {
            lemma_lex_antisymmetric(a.drop_first(), b.drop_first());
            assert(a =~= seq![a[0]] + a.drop_first());
            assert(b =~= seq![b[0]] + b.drop_first());
        }
    } else {
        assert(a.len() == 0 && b.len() == 0);
        assert(a =~= b);
    }
}

proof fn lemma_lex_transitive(a: Seq<char>, b: Seq<char>, c: Seq<char>)
    requires
        lex_le(a, b),
        lex_le(b, c),
    ensures
        lex_le(a, c),
    decreases a.len(),
{
    if a.len() > 0 && b.len() > 0 && c.len() > 0 {
        if a[0] == b[0] && b[0] == c[0] {
            lemma_lex_transitive(a.drop_first(), b.drop_first(), c.drop_first());
        }
    }
}

proof fn lemma_lex_total(a: Seq<char>, b: Seq<char>)
    ensures
        lex_le(a, b) || lex_le(b, a),
    decreases a.len(),
{
    if a.len() > 0 && b.len() > 0 {
        lemma_code_point_injective(a[0], b[0]);
        if a[0] == b[0] {
            lemma_lex_total(a.drop_first(), b.drop_first());
        }
    }
}

/// The order of strings is a total order.
pub proof fn lemma_lex_total_ordering()
    ensures
        total_ordering(lex_order()),
{
    assert forall|a: Seq<char>| #[trigger] lex_order()(a, a) by {
        lemma_lex_reflexive(a);
    }
    assert forall|a: Seq<char>, b: Seq<char>|
        #[trigger] lex_order()(a, b) && #[trigger] lex_order()(b, a) implies a == b by {
        lemma_lex_antisymmetric(a, b);
    }
    assert forall|a: Seq<char>, b: Seq<char>, c: Seq<char>|
        #[trigger] lex_order()(a, b) && #[trigger] lex_order()(b, c) implies lex_order()(a, c) by {
        lemma_lex_transitive(a, b, c);
    }
    assert forall|a: Seq<char>, b: Seq<char>| #[trigger] lex_order()(a, b) || #[trigger] lex_order()(b, a) by {
        lemma_lex_total(a, b);
    }
}

/// Whether `a` comes before `b` or equals it.
pub fn lex_le_exec(a: &str, b: &str) -> (r: bool)
    ensures
        r == lex_le(a@, b@),
{
    let x = crate::text::chars_of(a);
    let y = crate::text::chars_of(b);
    let mut i: usize = 0;
    assert(x@.skip(0) =~= x@);
    assert(y@.skip(0) =~= y@);
    while i < x.len() && i < y.len()
        invariant
            i <= x.len(),
            i <= y.len(),
            x@ == a@,
            y@ == b@,
            lex_le(x@, y@) == lex_le(x@.skip(i as int), y@.skip(i as int)),
        decreases x.len() - i,
    {
        let ghost xs = x@.skip(i as int);
        let ghost ys = y@.skip(i as int);
        assert(xs[0] == x@[i as int]);
        assert(ys[0] == y@[i as int]);
        if x[i] != y[i] {
            assert(xs.len() > 0 && ys.len() > 0);
            assert(lex_le(xs, ys) == ((xs[0] as u32) < (ys[0] as u32)));
            return (x[i] as u32) < (y[i] as u32);
        }
        assert(xs.drop_first() =~= x@.skip(i + 1));
        assert(ys.drop_first() =~= y@.skip(i + 1));
        i += 1;
    }
    i == x.len()
}

/// Sorts strings in ascending order.
pub fn sort_strings(v: Vec<String>) -> (r: Vec<String>)
    ensures
        sorted_by(views(r@), lex_order()),
        views(r@).to_multiset() == views(v@).to_multiset(),
        views(r@) == views(v@).sort_by(lex_order()),
{
    broadcast use vstd::seq_lib::group_to_multiset_ensures;
    proof {
        lemma_lex_total_ordering();
    }
    let ghost all = views(v@);
    let mut out: Vec<String> = Vec::new();
    let mut rest = v;
    assert(views(out@) =~= Seq::<Seq<char>>::empty());
    while rest.len() > 0
        invariant
            total_ordering(lex_order()),
            sorted_by(views(out@), lex_order()),
            views(out@).to_multiset().add(views(rest@).to_multiset()) == all.to_multiset(),
        decreases rest.len(),
    {
        let ghost rest_before = rest@;
        let s = rest.pop().unwrap();
        proof {
            assert(views(rest_before) =~= views(rest@).push(s@));
            vstd::seq_lib::to_multiset_build(views(rest@), s@);
        }
        let ghost before = views(out@);
        let mut p: usize = 0;
        while p < out.len() && lex_le_exec(out[p].as_str(), s.as_str())
            invariant
                p <= out.len(),
                views(out@) == before,
                before.len() == out.len(),
                forall|j: int| 0 <= j < p ==> lex_le(#[trigger] before[j], s@),
            decreases out.len() - p,
        {
            p += 1;
        }
        proof {
            let after = before.insert(p as int, s@);
            assert forall|i: int, j: int| 0 <= i < j < after.len() implies #[trigger] lex_order()(after[i], after[j]) by {
                if j < p {
                    assert(after[i] == before[i] && after[j] == before[j]);
                } else if j == p {
                    assert(after[i] == before[i]);
                } else if i == p {
                    assert(after[j] == before[j - 1]);
                    assert(!lex_le(before[p as int], s@));
                    lemma_lex_total(before[p as int], s@);
                    assert(lex_order()(s@, before[p as int]));
                    if j - 1 > p {
                        assert(lex_order()(before[p as int], before[j - 1]));
                    }
                    assert(lex_order()(s@, before[j - 1]));
                } else if i < p {
                    assert(after[i] == before[i] && after[j] == before[j - 1]);
                } else {
                    assert(after[i] == before[i - 1] && after[j] == before[j - 1]);
                }
            }
        }
        out.insert(p, s);
        proof {
            assert(views(out@) =~= before.insert(p as int, s@));
            vstd::seq_lib::to_multiset_insert(before, p as int, s@);
        }
    }
    proof {
        assert(views(rest@) =~= Seq::<Seq<char>>::empty());
        assert(views(out@).to_multiset() =~= all.to_multiset());
        all.lemma_sort_by_ensures(lex_order());
        vstd::seq_lib::lemma_sorted_unique(views(out@), all.sort_by(lex_order()), lex_order());
    }
    out
}

} // verus!
