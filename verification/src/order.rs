//! Lexicographic order on character sequences (the order of `str`'s `Ord`,
//! which compares UTF-8 bytes and so agrees with code-point order) and an
//! insertion sort over it.
use vstd::prelude::*;

use vstd::multiset::Multiset;

use crate::text::seqs_of;

verus! {

broadcast use vstd::seq_lib::group_to_multiset_ensures;

/// `a < b` in lexicographic code-point order.
pub open spec fn lex_lt(a: Seq<char>, b: Seq<char>) -> bool
    decreases a.len(),
{
    if a.len() == 0 {
        b.len() > 0
    } else if b.len() == 0 {
        false
    } else if (a[0] as int) < (b[0] as int) {
        true
    } else if a[0] == b[0] {
        lex_lt(a.drop_first(), b.drop_first())
    } else {
        false
    }
}

pub open spec fn lex_le(a: Seq<char>, b: Seq<char>) -> bool {
    lex_lt(a, b) || a == b
}

pub proof fn lemma_lex_irreflexive(a: Seq<char>)
    ensures
        !lex_lt(a, a),
    decreases a.len(),
{
    if a.len() > 0 {
        lemma_lex_irreflexive(a.drop_first());
    }
}

pub proof fn lemma_lex_total(a: Seq<char>, b: Seq<char>)
    ensures
        lex_lt(a, b) || a == b || lex_lt(b, a),
    decreases a.len(),
{
    if a.len() == 0 || b.len() == 0 {
        if a.len() == 0 && b.len() == 0 {
            assert(a =~= b);
        }
    } else if a[0] == b[0] {
        let ta = a.drop_first();
        let tb = b.drop_first();
        lemma_lex_total(ta, tb);
        if ta == tb {
            assert forall|k: int| 0 <= k < a.len() implies a[k] == b[k] by {
                if k > 0 {
                    assert(a[k] == ta[k - 1]);
                    assert(b[k] == tb[k - 1]);
                }
            }
            assert(a =~= b);
        }
    }
}

pub proof fn lemma_lex_asymmetric(a: Seq<char>, b: Seq<char>)
    ensures
        lex_lt(a, b) ==> !lex_lt(b, a),
    decreases a.len(),
{
    if a.len() > 0 && b.len() > 0 && a[0] == b[0] {
        lemma_lex_asymmetric(a.drop_first(), b.drop_first());
    }
}

pub proof fn lemma_lex_transitive(a: Seq<char>, b: Seq<char>, c: Seq<char>)
    requires
        lex_lt(a, b),
        lex_lt(b, c),
    ensures
        lex_lt(a, c),
    decreases a.len(),
{
    if a.len() > 0 && b.len() > 0 && c.len() > 0 && a[0] == b[0] && b[0] == c[0] {
        lemma_lex_transitive(a.drop_first(), b.drop_first(), c.drop_first());
    }
}

/// Lexicographic comparison of two character slices.
pub fn lex_less(a: &[char], b: &[char]) -> (r: bool)
    ensures
        r == lex_lt(a@, b@),
{
    let mut i: usize = 0;
    assert(a@.skip(0) == a@ && b@.skip(0) == b@);
    while i < a.len() && i < b.len() && a[i] == b[i]
        invariant
            i <= a.len(),
            i <= b.len(),
            lex_lt(a@, b@) == lex_lt(a@.skip(i as int), b@.skip(i as int)),
        decreases a.len() - i,
    {
        assert(a@.skip(i as int).drop_first() == a@.skip(i + 1));
        assert(b@.skip(i as int).drop_first() == b@.skip(i + 1));
        i += 1;
    }
    if i == a.len() {
        i < b.len()
    } else if i == b.len() {
        false
    } else {
        a[i] < b[i]
    }
}

/// Every earlier item is at most every later one.
pub open spec fn sorted_lex(s: Seq<Seq<char>>) -> bool {
    forall|i: int, j: int| 0 <= i < j < s.len() ==> lex_le(#[trigger] s[i], #[trigger] s[j])
}

/// Sort character vectors into lexicographic order.
pub fn sort_lex(items: Vec<Vec<char>>) -> (r: Vec<Vec<char>>)
    ensures
        sorted_lex(seqs_of(r@)),
        seqs_of(r@).to_multiset() == seqs_of(items@).to_multiset(),
{
    let mut out: Vec<Vec<char>> = Vec::new();
    let n = items.len();
    let mut rest = items;
    let ghost all = seqs_of(rest@);
    // Consume from the back so each item moves out of `rest`.
    while rest.len() > 0
        invariant
            rest.len() + out.len() == n,
            rest.len() <= n,
            seqs_of(rest@) == all.take(rest.len() as int),
            all.len() == n,
            sorted_lex(seqs_of(out@)),
            seqs_of(out@).to_multiset().add(seqs_of(rest@).to_multiset()) == all.to_multiset(),
        decreases rest.len(),
    {
        let ghost before_rest = seqs_of(rest@);
        let x = rest.pop().unwrap();
        assert(seqs_of(rest@) =~= before_rest.drop_last());
        assert(before_rest =~= seqs_of(rest@).push(x@));
        let ghost xs = x@;
        let mut p: usize = 0;
        while p < out.len() && !lex_less(&x, &out[p])
            invariant
                p <= out.len(),
                xs == x@,
                forall|k: int| 0 <= k < p ==> lex_le(#[trigger] seqs_of(out@)[k], xs),
            decreases out.len() - p,
        {
            proof {
                lemma_lex_total(xs, out@[p as int]@);
            }
            p += 1;
        }
        let ghost old_out = seqs_of(out@);
        proof {
            if p < out.len() {
                assert(lex_lt(xs, old_out[p as int]));
            }
        }
        out.insert(p, x);
        assert(seqs_of(out@) =~= old_out.insert(p as int, xs));
        assert(sorted_lex(seqs_of(out@))) by {
            let s = seqs_of(out@);
            assert forall|a: int, b: int| 0 <= a < b < s.len() implies lex_le(#[trigger] s[a], #[trigger] s[b]) by {
                if b < p {
                    assert(s[a] == old_out[a] && s[b] == old_out[b]);
                } else if b == p {
                    assert(s[a] == old_out[a]);
                } else if a < p {
                    assert(s[a] == old_out[a] && s[b] == old_out[b - 1]);
                    assert(lex_le(old_out[a], xs));
                    assert(lex_lt(xs, old_out[p as int]));
                    assert(lex_le(old_out[p as int], old_out[b - 1]));
                    if old_out[a] != xs {
                        lemma_lex_transitive(old_out[a], xs, old_out[p as int]);
                    }
                    if old_out[p as int] != old_out[b - 1] {
                        lemma_lex_transitive(old_out[a], old_out[p as int], old_out[b - 1]);
                    }
                } else if a == p {
                    assert(s[a] == xs && s[b] == old_out[b - 1]);
                    assert(lex_lt(xs, old_out[p as int]));
                    if old_out[p as int] != old_out[b - 1] {
                        lemma_lex_transitive(xs, old_out[p as int], old_out[b - 1]);
                    }
                } else {
                    assert(s[a] == old_out[a - 1] && s[b] == old_out[b - 1]);
                }
            }
        }
        assert(seqs_of(out@).to_multiset() == old_out.to_multiset().insert(xs));
        assert(before_rest.to_multiset() == seqs_of(rest@).to_multiset().insert(xs));
        assert(seqs_of(out@).to_multiset().add(seqs_of(rest@).to_multiset()) =~= old_out.to_multiset().add(before_rest.to_multiset()));
        assert(all.take(rest.len() as int) =~= before_rest.drop_last());
    }
    assert(seqs_of(rest@).to_multiset() =~= Multiset::empty());
    assert(seqs_of(out@).to_multiset().add(Multiset::empty()) =~= seqs_of(out@).to_multiset());
    out
}

} // verus!
