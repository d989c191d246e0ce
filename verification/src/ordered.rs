//! The order `str` values compare in, and sorted lists without repeats: what
//! `sort()` followed by `dedup()` leaves of a list of strings.
use vstd::prelude::*;
use crate::text::seqs;

verus! {

/// `a < b` as `str` compares: character by character by code point (which is
/// also the order of their UTF-8 bytes), a proper prefix first.
pub open spec fn lex_lt(a: Seq<char>, b: Seq<char>) -> bool
    decreases a.len(),
{
    if b.len() == 0 {
        false
    } else if a.len() == 0 {
        true
    } else if a[0] != b[0] {
        a[0] < b[0]
    } else {
        lex_lt(a.drop_first(), b.drop_first())
    }
}

/// Every element is smaller than every later one: sorted, with no repeats.
pub open spec fn sorted_strict(s: Seq<Seq<char>>) -> bool {
    forall|i: int, j: int| 0 <= i < j < s.len() ==> lex_lt(#[trigger] s[i], #[trigger] s[j])
}

pub proof fn lemma_lex_irreflexive(a: Seq<char>)
    ensures
        !lex_lt(a, a),
    decreases a.len(),
{
    if a.len() > 0 {
        lemma_lex_irreflexive(a.drop_first());
    }
}

pub proof fn lemma_lex_transitive(a: Seq<char>, b: Seq<char>, c: Seq<char>)
    requires
        lex_lt(a, b),
        lex_lt(b, c),
    ensures
        lex_lt(a, c),
    decreases a.len(),
{
    if a.len() > 0 && a[0] == b[0] && b[0] == c[0] {
        lemma_lex_transitive(a.drop_first(), b.drop_first(), c.drop_first());
    }
}

pub proof fn lemma_lex_total(a: Seq<char>, b: Seq<char>)
    ensures
        a == b || lex_lt(a, b) || lex_lt(b, a),
    decreases a.len(),
{
    if a.len() == 0 && b.len() == 0 {
        assert(a =~= b);
    } else if a.len() > 0 && b.len() > 0 {
        if a[0] == b[0] {
            lemma_lex_total(a.drop_first(), b.drop_first());
            if a.drop_first() == b.drop_first() {
                assert(a =~= seq![a[0]] + a.drop_first());
                assert(b =~= seq![b[0]] + b.drop_first());
            }
        }
    }
}

/// Skipping a common prefix does not change the comparison.
proof fn lemma_lex_skip(a: Seq<char>, b: Seq<char>, i: int)
    requires
        0 <= i <= a.len(),
        i <= b.len(),
        forall|k: int| 0 <= k < i ==> a[k] == b[k],
    ensures
        lex_lt(a, b) == lex_lt(a.skip(i), b.skip(i)),
    decreases i,
{
    if i > 0 {
        lemma_lex_skip(a.drop_first(), b.drop_first(), i - 1);
        assert(a.drop_first().skip(i - 1) =~= a.skip(i));
        assert(b.drop_first().skip(i - 1) =~= b.skip(i));
    } else {
        assert(a.skip(0) =~= a);
        assert(b.skip(0) =~= b);
    }
}

/// `a < b` for strings held as characters.
pub fn lex_less(a: &Vec<char>, b: &Vec<char>) -> (r: bool)
    ensures
        r == lex_lt(a@, b@),
{
    let mut i: usize = 0;
    while i < a.len() && i < b.len() && a[i] == b[i]
        invariant
            i <= a.len(),
            i <= b.len(),
            forall|k: int| 0 <= k < i ==> a@[k] == b@[k],
        decreases a.len() - i,
    {
        i = i + 1;
    }
    proof {
        lemma_lex_skip(a@, b@, i as int);
    }
    if i == b.len() {
        false
    } else if i == a.len() {
        true
    } else {
        proof {
            assert(a@.skip(i as int)[0] == a@[i as int]);
            assert(b@.skip(i as int)[0] == b@[i as int]);
        }
        a[i] < b[i]
    }
}

/// Add `x` to a sorted list without repeats, keeping it so.
pub fn insert_sorted(v: &mut Vec<Vec<char>>, x: Vec<char>)
    requires
        sorted_strict(seqs(old(v)@)),
    ensures
        sorted_strict(seqs(final(v)@)),
        seqs(final(v)@).to_set() == seqs(old(v)@).to_set().insert(x@),
{
    let ghost s = seqs(v@);
    let n = v.len();
    let mut i: usize = 0;
    while i < n && lex_less(&v[i], &x)
        invariant
            i <= n == v.len(),
            s == seqs(v@),
            forall|k: int| 0 <= k < i ==> lex_lt(#[trigger] s[k], x@),
        decreases n - i,
    {
        i = i + 1;
    }
    if i < n && crate::text::eq_chars(&v[i], &x) {
        proof {
            assert(s.to_set().insert(x@) =~= s.to_set()) by {
                assert(s[i as int] == x@);
            }
        }
        return;
    }
    let ghost xv = x@;
    proof {
        if i < n {
            lemma_lex_total(s[i as int], xv);
        }
    }
    v.insert(i, x);
    proof {
        let t = seqs(v@);
        assert(t =~= s.insert(i as int, xv));
        assert forall|a: int, b: int| 0 <= a < b < t.len() implies lex_lt(
            #[trigger] t[a],
            #[trigger] t[b],
        ) by {
            if b < i {
            } else if b == i {
            } else if a < i {
                if b - 1 > i {
                    assert(lex_lt(s[i as int], s[b - 1]));
                    lemma_lex_transitive(xv, s[i as int], s[b - 1]);
                }
                lemma_lex_transitive(s[a], xv, s[b - 1]);
            } else if a == i {
                if b - 1 > i {
                    assert(lex_lt(s[i as int], s[b - 1]));
                    lemma_lex_transitive(xv, s[i as int], s[b - 1]);
                }
            } else {
                assert(lex_lt(s[a - 1], s[b - 1]));
            }
        }
        assert(t.to_set() =~= s.to_set().insert(xv)) by {
            assert forall|e: Seq<char>| t.to_set().contains(e) implies s.to_set().insert(
                xv,
            ).contains(e) by {
                let k = choose|k: int| 0 <= k < t.len() && t[k] == e;
                if k < i {
                    assert(s[k] == e);
                } else if k > i {
                    assert(s[k - 1] == e);
                }
            }
            assert forall|e: Seq<char>| s.to_set().insert(xv).contains(e) implies t.to_set().contains(
                e,
            ) by {
                if e == xv {
                    assert(t[i as int] == e);
                } else {
                    let k = choose|k: int| 0 <= k < s.len() && s[k] == e;
                    if k < i {
                        assert(t[k] == e);
                    } else {
                        assert(t[k + 1] == e);
                    }
                }
            }
        }
    }
}

/// `sort()` then `dedup()`: the same strings, in order, each once.
pub fn sorted_unique(v: Vec<Vec<char>>) -> (r: Vec<Vec<char>>)
    ensures
        sorted_strict(seqs(r@)),
        seqs(r@).to_set() == seqs(v@).to_set(),
{
    let mut out: Vec<Vec<char>> = Vec::new();
    let n = v.len();
    let mut i: usize = 0;
    proof {
        assert(seqs(out@).to_set() =~= seqs(v@).take(0).to_set());
    }
    while i < n
        invariant
            i <= n == v.len(),
            sorted_strict(seqs(out@)),
            seqs(out@).to_set() == seqs(v@).take(i as int).to_set(),
        decreases n - i,
    {
        let x = v[i].clone();
        proof {
            assert(x@ == seqs(v@)[i as int]);
        }
        insert_sorted(&mut out, x);
        proof {
            let s = seqs(v@);
            assert(s.take(i + 1) =~= s.take(i as int).push(s[i as int]));
            s.take(i as int).lemma_push_to_set_commute(s[i as int]);
        }
        i = i + 1;
    }
    proof {
        assert(seqs(v@).take(n as int) =~= seqs(v@));
    }
    out
}

} // verus!
