//! Lexicographic order on character sequences, and sorted listings of finite sets of
//! them (the order in which a `BTreeSet<&str>` or a `BTreeMap<String, _>` is walked).
//!
//! UTF-8 encodes characters so that byte order agrees with code-point order, so
//! comparing the characters of two strings one by one gives the same order as
//! comparing their bytes, which is how `str` orders.

use vstd::prelude::*;

use crate::text::{char_seqs, chars_eq};

verus! {

/// `a` comes strictly before `b` in lexicographic order by code point.
pub open spec fn lex_lt(a: Seq<char>, b: Seq<char>) -> bool
    decreases a.len(),
{
    if b.len() == 0 {
        false
    } else if a.len() == 0 {
        true
    } else if (a[0] as int) < (b[0] as int) {
        true
    } else if a[0] == b[0] {
        lex_lt(a.skip(1), b.skip(1))
    } else {
        false
    }
}

pub proof fn lemma_lex_irreflexive(a: Seq<char>)
    ensures
        !lex_lt(a, a),
    decreases a.len(),
{
    if a.len() > 0 {
        lemma_lex_irreflexive(a.skip(1));
    }
}

pub proof fn lemma_lex_transitive(a: Seq<char>, b: Seq<char>, c: Seq<char>)
    requires
        lex_lt(a, b),
        lex_lt(b, c),
    ensures
        lex_lt(a, c),
    decreases a.len(),
{
    if a.len() > 0 && a[0] == b[0] && b[0] == c[0] {
        lemma_lex_transitive(a.skip(1), b.skip(1), c.skip(1));
    }
}

pub proof fn lemma_lex_total(a: Seq<char>, b: Seq<char>)
    requires
        a != b,
    ensures
        lex_lt(a, b) || lex_lt(b, a),
    decreases a.len(),
{
    if a.len() > 0 && b.len() > 0 && a[0] == b[0] {
        if a.skip(1) == b.skip(1) {
            assert(a =~= seq![a[0]] + a.skip(1));
            assert(b =~= seq![b[0]] + b.skip(1));
        }
        lemma_lex_total(a.skip(1), b.skip(1));
    } else if a.len() > 0 && b.len() > 0 {
        assert((a[0] as int) != (b[0] as int));
    } else if a.len() == 0 && b.len() == 0 {
        assert(a =~= b);
    }
}

pub proof fn lemma_lex_asymmetric(a: Seq<char>, b: Seq<char>)
    requires
        lex_lt(a, b),
    ensures
        !lex_lt(b, a),
{
    if lex_lt(b, a) {
        lemma_lex_transitive(a, b, a);
        lemma_lex_irreflexive(a);
    }
}

/// Every element comes strictly before every later one.
pub open spec fn strictly_sorted(s: Seq<Seq<char>>) -> bool {
    forall|i: int, j: int| 0 <= i < j < s.len() ==> lex_lt(#[trigger] s[i], #[trigger] s[j])
}

/// `s` lists exactly the members of `set`, each once, in increasing order.
pub open spec fn lists_sorted(s: Seq<Seq<char>>, set: Set<Seq<char>>) -> bool {
    &&& strictly_sorted(s)
    &&& forall|x: Seq<char>| s.contains(x) <==> set.contains(x)
}

/// The members of `set` in increasing order, each once.
pub open spec fn sorted_listing(set: Set<Seq<char>>) -> Seq<Seq<char>> {
    choose|s: Seq<Seq<char>>| lists_sorted(s, set)
}

/// At most one sequence lists a set in increasing order.
pub proof fn lemma_sorted_listing_unique(a: Seq<Seq<char>>, b: Seq<Seq<char>>)
    requires
        strictly_sorted(a),
        strictly_sorted(b),
        forall|x: Seq<char>| a.contains(x) <==> b.contains(x),
    ensures
        a == b,
    decreases a.len(),
{
    if a.len() == 0 {
        if b.len() > 0 {
            assert(b.contains(b[0]));
        }
        assert(a =~= b);
    } else if b.len() == 0 {
        assert(a.contains(a[0]));
    } else {
        assert(a.contains(a[0]));
        assert(b.contains(b[0]));
        let j = choose|j: int| 0 <= j < b.len() && b[j] == a[0];
        let i = choose|i: int| 0 <= i < a.len() && a[i] == b[0];
        if a[0] != b[0] {
            assert(j > 0 && i > 0);
            assert(lex_lt(b[0], b[j]));
            assert(lex_lt(a[0], a[i]));
            lemma_lex_asymmetric(a[0], b[0]);
        }
        let ta = a.skip(1);
        let tb = b.skip(1);
        assert forall|x: Seq<char>| ta.contains(x) implies tb.contains(x) by {
            let k = choose|k: int| 0 <= k < ta.len() && ta[k] == x;
            assert(a[k + 1] == x);
            assert(lex_lt(a[0], x));
            lemma_lex_irreflexive(x);
            assert(a.contains(x));
            let m = choose|m: int| 0 <= m < b.len() && b[m] == x;
            assert(m != 0);
            assert(tb[m - 1] == x);
        }
        assert forall|x: Seq<char>| tb.contains(x) implies ta.contains(x) by {
            let k = choose|k: int| 0 <= k < tb.len() && tb[k] == x;
            assert(b[k + 1] == x);
            assert(lex_lt(b[0], x));
            lemma_lex_irreflexive(x);
            assert(b.contains(x));
            let m = choose|m: int| 0 <= m < a.len() && a[m] == x;
            assert(m != 0);
            assert(ta[m - 1] == x);
        }
        assert(strictly_sorted(ta)) by {
            assert forall|p: int, q: int| 0 <= p < q < ta.len() implies lex_lt(
                #[trigger] ta[p],
                #[trigger] ta[q],
            ) by {
                assert(ta[p] == a[p + 1] && ta[q] == a[q + 1]);
            }
        }
        assert(strictly_sorted(tb)) by {
            assert forall|p: int, q: int| 0 <= p < q < tb.len() implies lex_lt(
                #[trigger] tb[p],
                #[trigger] tb[q],
            ) by {
                assert(tb[p] == b[p + 1] && tb[q] == b[q + 1]);
            }
        }
        lemma_sorted_listing_unique(ta, tb);
        assert(a =~= seq![a[0]] + ta);
        assert(b =~= seq![b[0]] + tb);
    }
}

/// A sequence that lists a set in increasing order is its sorted listing.
pub proof fn lemma_is_sorted_listing(s: Seq<Seq<char>>, set: Set<Seq<char>>)
    requires
        lists_sorted(s, set),
    ensures
        sorted_listing(set) == s,
{
    let t = sorted_listing(set);
    assert(lists_sorted(t, set));
    lemma_sorted_listing_unique(s, t);
}

/// Whether `a` comes strictly before `b` in lexicographic order by code point.
pub fn lex_less(a: &[char], b: &[char]) -> (res: bool)
    ensures
        res == lex_lt(a@, b@),
{
    let n = a.len();
    let m = b.len();
    let mut i: usize = 0;
    assert(a@.skip(0) =~= a@ && b@.skip(0) =~= b@);
    while i < n && i < m
        invariant
            n == a@.len(),
            m == b@.len(),
            i <= n,
            i <= m,
            lex_lt(a@, b@) == lex_lt(a@.skip(i as int), b@.skip(i as int)),
        decreases n - i,
    {
        let x = a[i];
        let y = b[i];
        assert(a@.skip(i as int)[0] == x && b@.skip(i as int)[0] == y);
        if x < y {
            return true;
        }
        if x != y {
            return false;
        }
        assert(a@.skip(i as int).skip(1) =~= a@.skip(i + 1));
        assert(b@.skip(i as int).skip(1) =~= b@.skip(i + 1));
        i = i + 1;
    }
    i < m
}

/// Adds `x` to the increasing, repetition-free list `v`, unless it is there already.
pub fn insert_sorted(v: &mut Vec<Vec<char>>, x: Vec<char>)
    requires
        strictly_sorted(char_seqs(old(v)@)),
    ensures
        strictly_sorted(char_seqs(final(v)@)),
        forall|y: Seq<char>|
            char_seqs(final(v)@).contains(y) <==> (char_seqs(old(v)@).contains(y) || y == x@),
{
    let ghost s0 = char_seqs(v@);
    let n = v.len();
    let mut j: usize = 0;
    while j < n && lex_less(v[j].as_slice(), x.as_slice())
        invariant
            n == v@.len(),
            s0 == char_seqs(v@),
            j <= n,
            forall|k: int| 0 <= k < j ==> lex_lt(#[trigger] s0[k], x@),
        decreases n - j,
    {
        assert(s0[j as int] == v@[j as int]@);
        j = j + 1;
    }
    if j < n {
        assert(s0[j as int] == v@[j as int]@);
        if chars_eq(v[j].as_slice(), x.as_slice()) {
            assert(s0.contains(x@));
            return;
        }
        assert(!lex_lt(s0[j as int], x@));
        proof {
            lemma_lex_total(s0[j as int], x@);
        }
        assert(lex_lt(x@, s0[j as int]));
    }
    let ghost xv = x@;
    v.insert(j, x);
    let ghost s1 = char_seqs(v@);
    assert(s1 =~= s0.insert(j as int, xv));
    assert forall|p: int, q: int| 0 <= p < q < s1.len() implies lex_lt(
        #[trigger] s1[p],
        #[trigger] s1[q],
    ) by {
        if q < j {
        } else if q == j {
        } else if p < j {
            assert(s1[q] == s0[q - 1]);
            if q - 1 > j {
                assert(lex_lt(s0[j as int], s0[q - 1]));
                lemma_lex_transitive(xv, s0[j as int], s0[q - 1]);
            }
            lemma_lex_transitive(s0[p], xv, s0[q - 1]);
        } else if p == j {
            assert(s1[q] == s0[q - 1]);
            if q - 1 > j {
                assert(lex_lt(s0[j as int], s0[q - 1]));
                lemma_lex_transitive(xv, s0[j as int], s0[q - 1]);
            }
        } else {
            assert(s1[p] == s0[p - 1] && s1[q] == s0[q - 1]);
        }
    }
    assert forall|y: Seq<char>| s1.contains(y) <==> (s0.contains(y) || y == xv) by {
        if s1.contains(y) {
            let k = choose|k: int| 0 <= k < s1.len() && s1[k] == y;
            if k < j {
                assert(s0[k] == y);
            } else if k > j {
                assert(s0[k - 1] == y);
            }
        }
        if s0.contains(y) {
            let k = choose|k: int| 0 <= k < s0.len() && s0[k] == y;
            if k < j {
                assert(s1[k] == y);
            } else {
                assert(s1[k + 1] == y);
            }
        }
        if y == xv {
            assert(s1[j as int] == y);
        }
    }
}

} // verus!
