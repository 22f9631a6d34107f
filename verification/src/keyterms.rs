//! Ordering dictionary words for prompts and picking the keyterms sent to
//! the speech-to-text service: at most 50 terms of at most 20 characters,
//! starred words first, then the most used.
use vstd::prelude::*;
use vstd::multiset::Multiset;
use crate::text::{
    chars_of, eq_ignore_ascii_case, eq_ignore_case, string_of, sub_vec, trim_chars, trim_seq,
};
use crate::order::{
    lex_less, lex_lt, lemma_lex_asymmetric, lemma_lex_irreflexive, lemma_lex_total,
    lemma_lex_transitive,
};
use crate::prompt::strings_view;
use crate::settings::DictEntry;

verus! {

broadcast use vstd::seq_lib::group_to_multiset_ensures;

pub const MAX_KEYTERMS: usize = 50;
pub const MAX_KEYTERM_CHARS: usize = 20;

/// What the ordering looks at in a dictionary entry.
pub struct Ranked {
    pub starred: bool,
    pub use_count: i64,
    pub word: Seq<char>,
}

pub open spec fn ranked_of(e: DictEntry) -> Ranked {
    Ranked { starred: e.starred, use_count: e.use_count, word: e.word@ }
}

pub open spec fn ranked_seq(entries: Seq<DictEntry>) -> Seq<Ranked> {
    entries.map_values(|e: DictEntry| ranked_of(e))
}

/// `a` comes strictly before `b`: starred first, then higher use count, then
/// the word in lexicographic order.
pub open spec fn ranks_before(a: Ranked, b: Ranked) -> bool {
    (a.starred && !b.starred) || (a.starred == b.starred && (a.use_count > b.use_count || (
    a.use_count == b.use_count && lex_lt(a.word, b.word))))
}

pub open spec fn rank_le(a: Ranked, b: Ranked) -> bool {
    ranks_before(a, b) || a == b
}

pub open spec fn sorted_by_rank(s: Seq<Ranked>) -> bool {
    forall|i: int, j: int| 0 <= i < j < s.len() ==> rank_le(#[trigger] s[i], #[trigger] s[j])
}

proof fn lemma_rank_total(a: Ranked, b: Ranked)
    ensures
        ranks_before(a, b) || a == b || ranks_before(b, a),
{
    lemma_lex_total(a.word, b.word);
}

proof fn lemma_rank_transitive(a: Ranked, b: Ranked, c: Ranked)
    requires
        ranks_before(a, b),
        ranks_before(b, c),
    ensures
        ranks_before(a, c),
{
    if a.starred == b.starred && b.starred == c.starred && a.use_count == b.use_count
        && b.use_count == c.use_count {
        lemma_lex_transitive(a.word, b.word, c.word);
    }
}

/// The words in order.
pub open spec fn words_of(s: Seq<Ranked>) -> Seq<Seq<char>> {
    s.map_values(|r: Ranked| r.word)
}

/// A dictionary entry as the ordering sees it.
struct RankedEntry {
    starred: bool,
    use_count: i64,
    word: Vec<char>,
}

spec fn rview(e: RankedEntry) -> Ranked {
    Ranked { starred: e.starred, use_count: e.use_count, word: e.word@ }
}

spec fn rviews(v: Seq<RankedEntry>) -> Seq<Ranked> {
    v.map_values(|e: RankedEntry| rview(e))
}

fn before(a: &RankedEntry, b: &RankedEntry) -> (r: bool)
    ensures
        r == ranks_before(rview(*a), rview(*b)),
{
    (a.starred && !b.starred) || (a.starred == b.starred && (a.use_count > b.use_count || (
    a.use_count == b.use_count && lex_less(&a.word, &b.word))))
}

/// Sort entries by rank (insertion sort).
fn sort_ranked(items: Vec<RankedEntry>) -> (r: Vec<RankedEntry>)
    ensures
        sorted_by_rank(rviews(r@)),
        rviews(r@).to_multiset() == rviews(items@).to_multiset(),
{
    let mut out: Vec<RankedEntry> = Vec::new();
    let n = items.len();
    let mut rest = items;
    let ghost all = rviews(rest@);
    while rest.len() > 0
        invariant
            rest.len() + out.len() == n,
            rest.len() <= n,
            rviews(rest@) == all.take(rest.len() as int),
            all.len() == n,
            sorted_by_rank(rviews(out@)),
            rviews(out@).to_multiset().add(rviews(rest@).to_multiset()) == all.to_multiset(),
        decreases rest.len(),
    {
        let ghost before_rest = rviews(rest@);
        let x = rest.pop().unwrap();
        assert(rviews(rest@) =~= before_rest.drop_last());
        assert(before_rest =~= rviews(rest@).push(rview(x)));
        let ghost xs = rview(x);
        let mut p: usize = 0;
        while p < out.len() && !before(&x, &out[p])
            invariant
                p <= out.len(),
                xs == rview(x),
                forall|k: int| 0 <= k < p ==> rank_le(#[trigger] rviews(out@)[k], xs),
            decreases out.len() - p,
        {
            proof {
                lemma_rank_total(xs, rview(out@[p as int]));
            }
            p += 1;
        }
        let ghost old_out = rviews(out@);
        proof {
            if p < out.len() {
                assert(ranks_before(xs, old_out[p as int]));
            }
        }
        out.insert(p, x);
        assert(rviews(out@) =~= old_out.insert(p as int, xs));
        assert(sorted_by_rank(rviews(out@))) by {
            let s = rviews(out@);
            assert forall|a: int, b: int| 0 <= a < b < s.len() implies rank_le(
                #[trigger] s[a],
                #[trigger] s[b],
            ) by {
                if b < p {
                    assert(s[a] == old_out[a] && s[b] == old_out[b]);
                } else if b == p {
                    assert(s[a] == old_out[a]);
                } else if a < p {
                    assert(s[a] == old_out[a] && s[b] == old_out[b - 1]);
                    assert(rank_le(old_out[a], xs));
                    assert(ranks_before(xs, old_out[p as int]));
                    assert(rank_le(old_out[p as int], old_out[b - 1]));
                    if old_out[a] != xs {
                        lemma_rank_transitive(old_out[a], xs, old_out[p as int]);
                    }
                    if old_out[p as int] != old_out[b - 1] {
                        lemma_rank_transitive(old_out[a], old_out[p as int], old_out[b - 1]);
                    }
                } else if a == p {
                    assert(s[a] == xs && s[b] == old_out[b - 1]);
                    if old_out[p as int] != old_out[b - 1] {
                        lemma_rank_transitive(xs, old_out[p as int], old_out[b - 1]);
                    }
                } else {
                    assert(s[a] == old_out[a - 1] && s[b] == old_out[b - 1]);
                }
            }
        }
        assert(rviews(out@).to_multiset() == old_out.to_multiset().insert(xs));
        assert(before_rest.to_multiset() == rviews(rest@).to_multiset().insert(xs));
        assert(rviews(out@).to_multiset().add(rviews(rest@).to_multiset()) =~= old_out.to_multiset().add(
            before_rest.to_multiset(),
        ));
        assert(all.take(rest.len() as int) =~= before_rest.drop_last());
    }
    assert(rviews(rest@).to_multiset() =~= Multiset::empty());
    assert(rviews(out@).to_multiset().add(Multiset::empty()) =~= rviews(out@).to_multiset());
    out
}

fn ranked_entries(entries: &[DictEntry]) -> (r: Vec<RankedEntry>)
    ensures
        rviews(r@) == ranked_seq(entries@),
{
    let mut r: Vec<RankedEntry> = Vec::new();
    let mut i: usize = 0;
    while i < entries.len()
        invariant
            i <= entries.len(),
            rviews(r@) == ranked_seq(entries@).take(i as int),
        decreases entries.len() - i,
    {
        let e = &entries[i];
        let ghost old_r = rviews(r@);
        let item = RankedEntry { starred: e.starred, use_count: e.use_count, word: chars_of(e.word.as_str()) };
        assert(rview(item) == ranked_of(entries@[i as int]));
        r.push(item);
        assert(rviews(r@) =~= old_r.push(ranked_of(entries@[i as int])));
        assert(ranked_seq(entries@).take(i + 1) =~= ranked_seq(entries@).take(i as int).push(ranked_of(entries@[i as int])));
        i += 1;
    }
    assert(ranked_seq(entries@).take(entries.len() as int) =~= ranked_seq(entries@));
    r
}

/// A ranking of the entries: sorted and a permutation of them.
pub open spec fn is_ranking(s: Seq<Ranked>, entries: Seq<DictEntry>) -> bool {
    sorted_by_rank(s) && s.to_multiset() == ranked_seq(entries).to_multiset()
}

/// Dictionary words, starred first, then most used, then alphabetical.
pub fn dictionary_words_ordered(entries: &[DictEntry]) -> (r: Vec<String>)
    ensures
        exists|s: Seq<Ranked>| is_ranking(s, entries@) && strings_view(r@) == words_of(s),
{
    let sorted = sort_ranked(ranked_entries(entries));
    let mut r: Vec<String> = Vec::new();
    let mut i: usize = 0;
    while i < sorted.len()
        invariant
            i <= sorted.len(),
            strings_view(r@) == words_of(rviews(sorted@)).take(i as int),
        decreases sorted.len() - i,
    {
        let ghost old_r = strings_view(r@);
        let w = string_of(&sorted[i].word);
        assert(w@ == words_of(rviews(sorted@))[i as int]);
        r.push(w);
        assert(strings_view(r@) =~= old_r.push(words_of(rviews(sorted@))[i as int]));
        assert(words_of(rviews(sorted@)).take(i + 1) =~= words_of(rviews(sorted@)).take(i as int).push(words_of(rviews(sorted@))[i as int]));
        i += 1;
    }
    assert(words_of(rviews(sorted@)).take(sorted.len() as int) =~= words_of(rviews(sorted@)));
    assert(is_ranking(rviews(sorted@), entries@));
    r
}

/// Keyterms chosen from ranked words: each trimmed, empty ones skipped, cut
/// to 20 characters, case-insensitive duplicates dropped, at most 50.
pub open spec fn keyterms_fold(words: Seq<Seq<char>>) -> Seq<Seq<char>>
    decreases words.len(),
{
    if words.len() == 0 {
        Seq::empty()
    } else {
        let prev = keyterms_fold(words.drop_last());
        let w = trim_seq(words.last());
        let t = if w.len() <= MAX_KEYTERM_CHARS {
            w
        } else {
            w.take(MAX_KEYTERM_CHARS as int)
        };
        if prev.len() >= MAX_KEYTERMS || t.len() == 0 || (exists|i: int|
            0 <= i < prev.len() && eq_ignore_ascii_case(#[trigger] prev[i], t)) {
            prev
        } else {
            prev.push(t)
        }
    }
}

/// The keyterms for a dictionary: the first 50 distinct (ignoring ASCII
/// case) trimmed words in rank order, each cut to 20 characters.
pub fn build_keyterms(entries: &[DictEntry]) -> (r: Vec<String>)
    ensures
        exists|s: Seq<Ranked>| is_ranking(s, entries@) && strings_view(r@) == keyterms_fold(words_of(s)),
{
    let sorted = sort_ranked(ranked_entries(entries));
    let ghost words = words_of(rviews(sorted@));
    let mut out: Vec<Vec<char>> = Vec::new();
    let mut i: usize = 0;
    while i < sorted.len()
        invariant
            i <= sorted.len(),
            words == words_of(rviews(sorted@)),
            crate::text::seqs_of(out@) == keyterms_fold(words.take(i as int)),
        decreases sorted.len() - i,
    {
        assert(words.take(i + 1).drop_last() == words.take(i as int));
        assert(words.take(i + 1).last() == sorted@[i as int].word@);
        let w = trim_chars(&sorted[i].word);
        let t = if w.len() <= MAX_KEYTERM_CHARS {
            w
        } else {
            let c = sub_vec(&w, 0, MAX_KEYTERM_CHARS);
            assert(w@.subrange(0, MAX_KEYTERM_CHARS as int) == w@.take(MAX_KEYTERM_CHARS as int));
            c
        };
        if out.len() < MAX_KEYTERMS && t.len() > 0 {
            let mut dup = false;
            let mut k: usize = 0;
            while k < out.len()
                invariant
                    k <= out.len(),
                    dup == (exists|j: int|
                        0 <= j < k && eq_ignore_ascii_case(#[trigger] crate::text::seqs_of(out@)[j], t@)),
                decreases out.len() - k,
            {
                assert(crate::text::seqs_of(out@)[k as int] == out@[k as int]@);
                if eq_ignore_case(&out[k], &t) {
                    dup = true;
                }
                k += 1;
            }
            if !dup {
                let ghost before = crate::text::seqs_of(out@);
                out.push(t);
                assert(crate::text::seqs_of(out@) =~= before.push(t@));
            }
        }
        i += 1;
    }
    assert(words.take(sorted.len() as int) == words);
    let mut r: Vec<String> = Vec::new();
    let mut j: usize = 0;
    while j < out.len()
        invariant
            j <= out.len(),
            strings_view(r@) == crate::text::seqs_of(out@).take(j as int),
        decreases out.len() - j,
    {
        let ghost old_r = strings_view(r@);
        let w = string_of(&out[j]);
        assert(w@ == crate::text::seqs_of(out@)[j as int]);
        r.push(w);
        assert(strings_view(r@) =~= old_r.push(crate::text::seqs_of(out@)[j as int]));
        assert(crate::text::seqs_of(out@).take(j + 1) =~= crate::text::seqs_of(out@).take(j as int).push(crate::text::seqs_of(out@)[j as int]));
        j += 1;
    }
    assert(crate::text::seqs_of(out@).take(out.len() as int) =~= crate::text::seqs_of(out@));
    assert(is_ranking(rviews(sorted@), entries@));
    r
}

/// The keyterm limits: at most 50 terms, each non-empty, at most 20
/// characters and without surrounding whitespace, and no two equal ignoring
/// ASCII case.
pub proof fn lemma_keyterm_limits(words: Seq<Seq<char>>)
    ensures
        keyterms_fold(words).len() <= MAX_KEYTERMS,
        forall|i: int|
            0 <= i < keyterms_fold(words).len() ==> 0 < (#[trigger] keyterms_fold(words)[i]).len()
                <= MAX_KEYTERM_CHARS,
        forall|i: int, j: int|
            0 <= i < j < keyterms_fold(words).len() ==> !eq_ignore_ascii_case(
                #[trigger] keyterms_fold(words)[i],
                #[trigger] keyterms_fold(words)[j],
            ),
    decreases words.len(),
{
    if words.len() > 0 {
        lemma_keyterm_limits(words.drop_last());
        let prev = keyterms_fold(words.drop_last());
        let cur = keyterms_fold(words);
        assert forall|i: int, j: int| 0 <= i < j < cur.len() implies !eq_ignore_ascii_case(
            #[trigger] cur[i],
            #[trigger] cur[j],
        ) by {
            if j == prev.len() {
                assert(cur[i] == prev[i]);
                if eq_ignore_ascii_case(cur[i], cur[j]) {
                    assert(eq_ignore_ascii_case(prev[i], cur[j]));
                }
            } else {
                assert(cur[i] == prev[i] && cur[j] == prev[j]);
            }
        }
    }
}


proof fn lemma_rank_antisymmetric(a: Ranked, b: Ranked)
    requires
        rank_le(a, b),
        rank_le(b, a),
    ensures
        a == b,
{
    lemma_lex_asymmetric(a.word, b.word);
}

proof fn lemma_sorted_unique(s1: Seq<Ranked>, s2: Seq<Ranked>)
    requires
        sorted_by_rank(s1),
        sorted_by_rank(s2),
        s1.to_multiset() == s2.to_multiset(),
    ensures
        s1 == s2,
    decreases s1.len(),
{
    broadcast use vstd::seq_lib::group_to_multiset_ensures;

    s1.to_multiset_ensures();
    s2.to_multiset_ensures();
    assert(s1.len() == s2.len());
    if s1.len() == 0 {
        assert(s1 =~= s2);
    } else {
        let n = s1.len() - 1;
        let x1 = s1[n];
        let x2 = s2[n];
        assert(s1.to_multiset().count(x1) > 0);
        assert(s2.contains(x1));
        let k2 = choose|k: int| 0 <= k < s2.len() && s2[k] == x1;
        assert(rank_le(x1, x2)) by {
            if k2 < n {
                assert(rank_le(s2[k2], s2[n]));
            }
        }
        assert(s2.to_multiset().count(x2) > 0);
        assert(s1.contains(x2));
        let k1 = choose|k: int| 0 <= k < s1.len() && s1[k] == x2;
        assert(rank_le(x2, x1)) by {
            if k1 < n {
                assert(rank_le(s1[k1], s1[n]));
            }
        }
        lemma_rank_antisymmetric(x1, x2);
        assert(s1.remove(n) =~= s1.drop_last());
        assert(s2.remove(n) =~= s2.drop_last());
        assert(s1.drop_last().to_multiset() == s2.drop_last().to_multiset());
        lemma_sorted_unique(s1.drop_last(), s2.drop_last());
        assert(s1 =~= s1.drop_last().push(x1));
        assert(s2 =~= s2.drop_last().push(x2));
    }
}

/// The keyterms do not depend on the order of the dictionary entries: two
/// lists holding the same entries (as the ranking sees them) rank alike, so
/// they give the same keyterms.
pub proof fn lemma_keyterms_ignore_entry_order(
    e1: Seq<DictEntry>,
    e2: Seq<DictEntry>,
    s1: Seq<Ranked>,
    s2: Seq<Ranked>,
)
    requires
        ranked_seq(e1).to_multiset() == ranked_seq(e2).to_multiset(),
        is_ranking(s1, e1),
        is_ranking(s2, e2),
    ensures
        s1 == s2,
        keyterms_fold(words_of(s1)) == keyterms_fold(words_of(s2)),
{
    lemma_sorted_unique(s1, s2);
}

/// A word's keyterm: trimmed, cut to 20 characters.
pub open spec fn keyterm_of(w: Seq<char>) -> Seq<char> {
    let t = trim_seq(w);
    if t.len() <= MAX_KEYTERM_CHARS {
        t
    } else {
        t.take(MAX_KEYTERM_CHARS as int)
    }
}

proof fn lemma_fold_prefix(words: Seq<Seq<char>>, k: int)
    requires
        0 <= k <= words.len(),
    ensures
        keyterms_fold(words.take(k)).len() <= keyterms_fold(words).len(),
        forall|i: int|
            0 <= i < keyterms_fold(words.take(k)).len() ==> #[trigger] keyterms_fold(words.take(k))[i]
                == keyterms_fold(words)[i],
    decreases words.len() - k,
{
    if k < words.len() {
        lemma_fold_prefix(words, k + 1);
        assert(words.take(k + 1).drop_last() =~= words.take(k));
        let a = keyterms_fold(words.take(k));
        let b = keyterms_fold(words.take(k + 1));
        assert(a.len() <= b.len());
        assert forall|i: int| 0 <= i < a.len() implies #[trigger] a[i] == keyterms_fold(words)[i] by {
            assert(a[i] == b[i]);
            assert(b[i] == keyterms_fold(words)[i]);
        }
    } else {
        assert(words.take(k) =~= words);
    }
}

/// Below the limit nothing is lost: when fewer than 50 keyterms come out,
/// every word with a non-blank keyterm has it among them (ignoring ASCII
/// case).
pub proof fn lemma_keyterms_complete(words: Seq<Seq<char>>)
    ensures
        keyterms_fold(words).len() < MAX_KEYTERMS ==> forall|k: int|
            0 <= k < words.len() && keyterm_of(#[trigger] words[k]).len() > 0 ==> exists|i: int|
                0 <= i < keyterms_fold(words).len() && eq_ignore_ascii_case(
                    #[trigger] keyterms_fold(words)[i],
                    keyterm_of(words[k]),
                ),
{
    if keyterms_fold(words).len() < MAX_KEYTERMS {
        assert forall|k: int| 0 <= k < words.len() && keyterm_of(#[trigger] words[k]).len() > 0 implies exists|i: int|
            0 <= i < keyterms_fold(words).len() && eq_ignore_ascii_case(
                #[trigger] keyterms_fold(words)[i],
                keyterm_of(words[k]),
            ) by {
            let pre = words.take(k + 1);
            lemma_fold_prefix(words, k + 1);
            assert(pre.drop_last() =~= words.take(k));
            assert(pre.last() == words[k]);
            let prev = keyterms_fold(words.take(k));
            let t = keyterm_of(words[k]);
            lemma_fold_prefix(words, k);
            if exists|i: int| 0 <= i < prev.len() && eq_ignore_ascii_case(#[trigger] prev[i], t) {
                let i = choose|i: int| 0 <= i < prev.len() && eq_ignore_ascii_case(#[trigger] prev[i], t);
                assert(prev[i] == keyterms_fold(words)[i]);
            } else {
                assert(keyterms_fold(pre) == prev.push(t));
                assert(keyterms_fold(pre)[prev.len() as int] == t);
                assert(keyterms_fold(words)[prev.len() as int] == t);
                assert(eq_ignore_ascii_case(t, t));
            }
        }
    }
}

/// Every keyterm is the keyterm of one of the words (trimmed, cut to 20
/// characters).
pub proof fn lemma_keyterms_come_from_words(words: Seq<Seq<char>>)
    ensures
        forall|i: int|
            0 <= i < keyterms_fold(words).len() ==> exists|k: int|
                0 <= k < words.len() && #[trigger] keyterms_fold(words)[i] == keyterm_of(words[k]),
    decreases words.len(),
{
    if words.len() > 0 {
        let d = words.drop_last();
        lemma_keyterms_come_from_words(d);
        let prev = keyterms_fold(d);
        let r = keyterms_fold(words);
        assert forall|i: int| 0 <= i < r.len() implies exists|k: int|
            0 <= k < words.len() && #[trigger] r[i] == keyterm_of(words[k]) by {
            if i < prev.len() {
                assert(r[i] == prev[i]);
                let k = choose|k: int| 0 <= k < d.len() && prev[i] == keyterm_of(d[k]);
                assert(words[k] == d[k]);
            } else {
                assert(r[i] == keyterm_of(words[words.len() - 1]));
            }
        }
    }
}

/// Where each keyterm comes from: strictly increasing word positions, so the
/// keyterms keep the rank order of their words.
pub proof fn lemma_keyterm_sources(words: Seq<Seq<char>>) -> (idx: Seq<int>)
    ensures
        idx.len() == keyterms_fold(words).len(),
        forall|i: int| 0 <= i < idx.len() ==> 0 <= #[trigger] idx[i] < words.len(),
        forall|i: int, j: int| 0 <= i < j < idx.len() ==> #[trigger] idx[i] < #[trigger] idx[j],
        forall|i: int| 0 <= i < idx.len() ==> #[trigger] keyterms_fold(words)[i] == keyterm_of(words[idx[i]]),
    decreases words.len(),
{
    if words.len() == 0 {
        Seq::empty()
    } else {
        let d = words.drop_last();
        let prev_idx = lemma_keyterm_sources(d);
        let prev = keyterms_fold(d);
        let r = keyterms_fold(words);
        if r.len() == prev.len() {
            assert forall|i: int| 0 <= i < prev_idx.len() implies #[trigger] r[i] == keyterm_of(words[prev_idx[i]]) by {
                assert(words[prev_idx[i]] == d[prev_idx[i]]);
            }
            prev_idx
        } else {
            let idx = prev_idx.push(words.len() - 1);
            assert forall|i: int| 0 <= i < idx.len() implies #[trigger] r[i] == keyterm_of(words[idx[i]]) by {
                if i < prev_idx.len() {
                    assert(idx[i] == prev_idx[i]);
                    assert(words[prev_idx[i]] == d[prev_idx[i]]);
                }
            }
            assert forall|i: int, j: int| 0 <= i < j < idx.len() implies #[trigger] idx[i] < #[trigger] idx[j] by {
                if j < prev_idx.len() {
                    assert(idx[i] == prev_idx[i] && idx[j] == prev_idx[j]);
                } else {
                    assert(idx[i] == prev_idx[i]);
                }
            }
            idx
        }
    }
}

/// The terms are the keyterms of the ranked words at the strictly increasing
/// positions `idx`.
pub open spec fn terms_from_ranked(idx: Seq<int>, s: Seq<Ranked>, terms: Seq<Seq<char>>) -> bool {
    &&& idx.len() == terms.len()
    &&& forall|i: int, j: int| 0 <= i < j < idx.len() ==> #[trigger] idx[i] < #[trigger] idx[j]
    &&& forall|i: int|
        0 <= i < idx.len() ==> 0 <= #[trigger] idx[i] < s.len() && terms[i] == keyterm_of(s[idx[i]].word)
}

/// The keyterm law, for the ranked words of a dictionary (`s` is the
/// ranking that `build_keyterms` uses): at most 50 terms, each non-empty and
/// at most 20 characters, no two equal ignoring ASCII case; each is the
/// keyterm of a word, taken in rank order (starred first, then most used);
/// the same for any order of the entries; and below 50 every word with a
/// non-blank keyterm is represented.
pub proof fn lemma_build_keyterms_law(entries: Seq<DictEntry>, s: Seq<Ranked>)
    requires
        is_ranking(s, entries),
    ensures
        keyterms_fold(words_of(s)).len() <= MAX_KEYTERMS,
        forall|i: int|
            0 <= i < keyterms_fold(words_of(s)).len() ==> 0 < (#[trigger] keyterms_fold(words_of(s))[i]).len()
                <= MAX_KEYTERM_CHARS,
        forall|i: int, j: int|
            0 <= i < j < keyterms_fold(words_of(s)).len() ==> !eq_ignore_ascii_case(
                #[trigger] keyterms_fold(words_of(s))[i],
                #[trigger] keyterms_fold(words_of(s))[j],
            ),
        exists|idx: Seq<int>| #[trigger] terms_from_ranked(idx, s, keyterms_fold(words_of(s))),
        forall|i: int, j: int| 0 <= i < j < s.len() ==> rank_le(#[trigger] s[i], #[trigger] s[j]),
        forall|e2: Seq<DictEntry>, s2: Seq<Ranked>|
            ranked_seq(e2).to_multiset() == ranked_seq(entries).to_multiset() && #[trigger] is_ranking(s2, e2)
                ==> keyterms_fold(words_of(s2)) == keyterms_fold(words_of(s)),
        keyterms_fold(words_of(s)).len() < MAX_KEYTERMS ==> forall|k: int|
            0 <= k < s.len() && keyterm_of(#[trigger] s[k].word).len() > 0 ==> exists|i: int|
                0 <= i < keyterms_fold(words_of(s)).len() && eq_ignore_ascii_case(
                    #[trigger] keyterms_fold(words_of(s))[i],
                    keyterm_of(s[k].word),
                ),
{
    let w = words_of(s);
    lemma_keyterm_limits(w);
    let idx = lemma_keyterm_sources(w);
    assert forall|i: int| 0 <= i < idx.len() implies 0 <= #[trigger] idx[i] < s.len() && keyterms_fold(w)[i]
        == keyterm_of(s[idx[i]].word) by {
        assert(w[idx[i]] == s[idx[i]].word);
    }
    assert(terms_from_ranked(idx, s, keyterms_fold(w)));
    assert forall|e2: Seq<DictEntry>, s2: Seq<Ranked>|
        ranked_seq(e2).to_multiset() == ranked_seq(entries).to_multiset() && #[trigger] is_ranking(s2, e2)
        implies keyterms_fold(words_of(s2)) == keyterms_fold(words_of(s)) by {
        lemma_keyterms_ignore_entry_order(e2, entries, s2, s);
    }
    lemma_keyterms_complete(w);
    assert forall|k: int| 0 <= k < s.len() && keyterm_of(#[trigger] s[k].word).len() > 0 implies (
        keyterms_fold(w).len() < MAX_KEYTERMS ==> exists|i: int|
            0 <= i < keyterms_fold(w).len() && eq_ignore_ascii_case(
                #[trigger] keyterms_fold(w)[i],
                keyterm_of(s[k].word),
            )) by {
        assert(w[k] == s[k].word);
    }
}

} // verus!
