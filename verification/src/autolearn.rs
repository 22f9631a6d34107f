//! Learning dictionary words from the user's corrections: after text is
//! inserted, the field is read again and words the user retyped with a
//! small edit become dictionary candidates.
use vstd::prelude::*;
use crate::text::{
    ascii_lower_seq, ascii_lowercase_chars, chars_of, eq_ignore_ascii_case, eq_ignore_case, eq_lit,
    seqs_of, split_words, split_words_chars, string_of, strings_of, WordChars,
};
use crate::prompt::strings_view;

verus! {

// ---------------------------------------------------------------------------
// Edit distance
// ---------------------------------------------------------------------------

pub open spec fn min3(x: nat, y: nat, z: nat) -> nat {
    if x <= y && x <= z {
        x
    } else if y <= z {
        y
    } else {
        z
    }
}

/// Levenshtein distance: insertions, deletions and substitutions of single
/// characters.
pub open spec fn levenshtein(a: Seq<char>, b: Seq<char>) -> nat
    decreases a.len() + b.len(),
{
    if a.len() == 0 {
        b.len()
    } else if b.len() == 0 {
        a.len()
    } else {
        min3(
            levenshtein(a.drop_last(), b) + 1,
            levenshtein(a, b.drop_last()) + 1,
            levenshtein(a.drop_last(), b.drop_last()) + if a.last() == b.last() {
                0nat
            } else {
                1nat
            },
        )
    }
}

proof fn lemma_levenshtein_bound(a: Seq<char>, b: Seq<char>)
    ensures
        levenshtein(a, b) <= if a.len() >= b.len() {
            a.len()
        } else {
            b.len()
        },
    decreases a.len() + b.len(),
{
    if a.len() > 0 && b.len() > 0 {
        lemma_levenshtein_bound(a.drop_last(), b.drop_last());
    }
}

proof fn lemma_levenshtein_symmetric(a: Seq<char>, b: Seq<char>)
    ensures
        levenshtein(a, b) == levenshtein(b, a),
    decreases a.len() + b.len(),
{
    if a.len() > 0 && b.len() > 0 {
        lemma_levenshtein_symmetric(a.drop_last(), b);
        lemma_levenshtein_symmetric(a, b.drop_last());
        lemma_levenshtein_symmetric(a.drop_last(), b.drop_last());
    }
}

proof fn lemma_levenshtein_lower(a: Seq<char>, b: Seq<char>)
    ensures
        levenshtein(a, b) >= a.len() - b.len(),
        levenshtein(a, b) >= b.len() - a.len(),
    decreases a.len() + b.len(),
{
    if a.len() > 0 && b.len() > 0 {
        lemma_levenshtein_lower(a.drop_last(), b);
        lemma_levenshtein_lower(a, b.drop_last());
        lemma_levenshtein_lower(a.drop_last(), b.drop_last());
    }
}

proof fn lemma_levenshtein_self(a: Seq<char>)
    ensures
        levenshtein(a, a) == 0,
    decreases a.len(),
{
    if a.len() > 0 {
        lemma_levenshtein_self(a.drop_last());
    }
}

/// The edit distance is symmetric, zero from a text to itself, the length
/// of the other text from an empty one, and lies between the difference and
/// the larger of the two lengths.
pub proof fn lemma_edit_distance_laws(a: Seq<char>, b: Seq<char>)
    ensures
        levenshtein(a, b) == levenshtein(b, a),
        levenshtein(a, a) == 0,
        levenshtein(a, Seq::<char>::empty()) == a.len(),
        a.len() - b.len() <= levenshtein(a, b),
        b.len() - a.len() <= levenshtein(a, b),
        levenshtein(a, b) <= (if a.len() >= b.len() {
            a.len()
        } else {
            b.len()
        }),
{
    lemma_levenshtein_symmetric(a, b);
    lemma_levenshtein_self(a);
    lemma_levenshtein_lower(a, b);
    lemma_levenshtein_bound(a, b);
}

fn levenshtein_chars(a: &[char], b: &[char]) -> (d: usize)
    requires
        a@.len() < usize::MAX,
        b@.len() < usize::MAX,
    ensures
        d == levenshtein(a@, b@),
{
    let n = a.len();
    let m = b.len();
    if n == 0 {
        return m;
    }
    if m == 0 {
        return n;
    }
    let mut prev: Vec<usize> = Vec::new();
    let mut j: usize = 0;
    while j <= m
        invariant
            j <= m + 1,
            m == b@.len(),
            m < usize::MAX,
            prev.len() == j,
            forall|k: int| 0 <= k < j ==> #[trigger] prev@[k] == levenshtein(a@.take(0), b@.take(k)),
        decreases m + 1 - j,
    {
        assert(levenshtein(a@.take(0), b@.take(j as int)) == j);
        prev.push(j);
        j += 1;
    }
    let mut i: usize = 1;
    while i <= n
        invariant
            1 <= i <= n + 1,
            n == a@.len(),
            m == b@.len(),
            n < usize::MAX,
            m < usize::MAX,
            prev.len() == m + 1,
            forall|k: int|
                0 <= k <= m ==> #[trigger] prev@[k] == levenshtein(a@.take(i - 1), b@.take(k)),
        decreases n + 1 - i,
    {
        let mut cur: Vec<usize> = Vec::new();
        assert(levenshtein(a@.take(i as int), b@.take(0)) == i) by {
            assert(b@.take(0).len() == 0);
        }
        cur.push(i);
        let mut j: usize = 1;
        while j <= m
            invariant
                1 <= i <= n,
                1 <= j <= m + 1,
                n == a@.len(),
                m == b@.len(),
                n < usize::MAX,
                m < usize::MAX,
                prev.len() == m + 1,
                cur.len() == j,
                forall|k: int|
                    0 <= k <= m ==> #[trigger] prev@[k] == levenshtein(a@.take(i - 1), b@.take(k)),
                forall|k: int|
                    0 <= k < j ==> #[trigger] cur@[k] == levenshtein(a@.take(i as int), b@.take(k)),
            decreases m + 1 - j,
        {
            let ghost ai = a@.take(i as int);
            let ghost bj = b@.take(j as int);
            assert(ai.drop_last() == a@.take(i - 1));
            assert(bj.drop_last() == b@.take(j - 1));
            assert(ai.last() == a@[i - 1]);
            assert(bj.last() == b@[j - 1]);
            proof {
                lemma_levenshtein_bound(a@.take(i - 1), b@.take(j as int));
                lemma_levenshtein_bound(a@.take(i as int), b@.take(j - 1));
                lemma_levenshtein_bound(a@.take(i - 1), b@.take(j - 1));
            }
            let cost: usize = if a[i - 1] == b[j - 1] {
                0
            } else {
                1
            };
            let del = prev[j] + 1;
            let ins = cur[j - 1] + 1;
            let sub = prev[j - 1] + cost;
            let best = if del <= ins && del <= sub {
                del
            } else if ins <= sub {
                ins
            } else {
                sub
            };
            cur.push(best);
            j += 1;
        }
        prev = cur;
        i += 1;
    }
    assert(a@.take(n as int) == a@);
    assert(b@.take(m as int) == b@);
    prev[m]
}

/// Levenshtein distance between two strings, by characters.
pub fn edit_distance(a: &str, b: &str) -> (d: usize)
    requires
        a@.len() < usize::MAX,
        b@.len() < usize::MAX,
    ensures
        d == levenshtein(a@, b@),
{
    let av = chars_of(a);
    let bv = chars_of(b);
    levenshtein_chars(&av, &bv)
}

// ---------------------------------------------------------------------------
// Tokens and stopwords
// ---------------------------------------------------------------------------

/// Words: runs of alphanumerics, apostrophes and hyphens.
pub open spec fn tokens(s: Seq<char>) -> Seq<Seq<char>> {
    split_words(s, WordChars::Token)
}

pub fn tokenize(s: &str) -> (r: Vec<String>)
    ensures
        strings_view(r@) == tokens(s@),
{
    let v = chars_of(s);
    let w = split_words_chars(&v, WordChars::Token);
    let r = strings_of(&w);
    assert(strings_view(r@) =~= seqs_of(w@));
    r
}

/// Common English words never learned (compared in ASCII lower case).
pub open spec fn stopword_lower(w: Seq<char>) -> bool {
    ||| w == "the"@
    ||| w == "a"@
    ||| w == "an"@
    ||| w == "and"@
    ||| w == "or"@
    ||| w == "but"@
    ||| w == "in"@
    ||| w == "on"@
    ||| w == "at"@
    ||| w == "to"@
    ||| w == "for"@
    ||| w == "of"@
    ||| w == "as"@
    ||| w == "by"@
    ||| w == "with"@
    ||| w == "from"@
    ||| w == "is"@
    ||| w == "are"@
    ||| w == "was"@
    ||| w == "were"@
    ||| w == "be"@
    ||| w == "been"@
    ||| w == "being"@
    ||| w == "have"@
    ||| w == "has"@
    ||| w == "had"@
    ||| w == "do"@
    ||| w == "does"@
    ||| w == "did"@
    ||| w == "will"@
    ||| w == "would"@
    ||| w == "could"@
    ||| w == "should"@
    ||| w == "may"@
    ||| w == "might"@
    ||| w == "must"@
    ||| w == "shall"@
    ||| w == "can"@
    ||| w == "this"@
    ||| w == "that"@
    ||| w == "these"@
    ||| w == "those"@
    ||| w == "i"@
    ||| w == "you"@
    ||| w == "he"@
    ||| w == "she"@
    ||| w == "it"@
    ||| w == "we"@
    ||| w == "they"@
    ||| w == "me"@
    ||| w == "him"@
    ||| w == "her"@
    ||| w == "us"@
    ||| w == "them"@
    ||| w == "my"@
    ||| w == "your"@
    ||| w == "his"@
    ||| w == "its"@
    ||| w == "our"@
    ||| w == "their"@
    ||| w == "not"@
    ||| w == "no"@
    ||| w == "yes"@
    ||| w == "so"@
    ||| w == "if"@
    ||| w == "then"@
    ||| w == "than"@
    ||| w == "too"@
    ||| w == "very"@
    ||| w == "just"@
    ||| w == "about"@
    ||| w == "into"@
    ||| w == "over"@
    ||| w == "after"@
    ||| w == "before"@
    ||| w == "between"@
    ||| w == "under"@
    ||| w == "again"@
    ||| w == "further"@
    ||| w == "once"@
    ||| w == "here"@
    ||| w == "there"@
    ||| w == "when"@
    ||| w == "where"@
    ||| w == "why"@
    ||| w == "how"@
    ||| w == "all"@
    ||| w == "each"@
    ||| w == "few"@
    ||| w == "more"@
    ||| w == "most"@
    ||| w == "other"@
    ||| w == "some"@
    ||| w == "such"@
    ||| w == "only"@
    ||| w == "own"@
    ||| w == "same"@
    ||| w == "s"@
    ||| w == "t"@
    ||| w == "don"@
    ||| w == "now"@
}

pub open spec fn stopword(w: Seq<char>) -> bool {
    stopword_lower(ascii_lower_seq(w))
}

fn is_stopword_lower(w: &[char]) -> (r: bool)
    ensures
        r == stopword_lower(w@),
{
    if eq_lit(w, "the") {
        return true;
    }
    if eq_lit(w, "a") {
        return true;
    }
    if eq_lit(w, "an") {
        return true;
    }
    if eq_lit(w, "and") {
        return true;
    }
    if eq_lit(w, "or") {
        return true;
    }
    if eq_lit(w, "but") {
        return true;
    }
    if eq_lit(w, "in") {
        return true;
    }
    if eq_lit(w, "on") {
        return true;
    }
    if eq_lit(w, "at") {
        return true;
    }
    if eq_lit(w, "to") {
        return true;
    }
    if eq_lit(w, "for") {
        return true;
    }
    if eq_lit(w, "of") {
        return true;
    }
    if eq_lit(w, "as") {
        return true;
    }
    if eq_lit(w, "by") {
        return true;
    }
    if eq_lit(w, "with") {
        return true;
    }
    if eq_lit(w, "from") {
        return true;
    }
    if eq_lit(w, "is") {
        return true;
    }
    if eq_lit(w, "are") {
        return true;
    }
    if eq_lit(w, "was") {
        return true;
    }
    if eq_lit(w, "were") {
        return true;
    }
    if eq_lit(w, "be") {
        return true;
    }
    if eq_lit(w, "been") {
        return true;
    }
    if eq_lit(w, "being") {
        return true;
    }
    if eq_lit(w, "have") {
        return true;
    }
    if eq_lit(w, "has") {
        return true;
    }
    if eq_lit(w, "had") {
        return true;
    }
    if eq_lit(w, "do") {
        return true;
    }
    if eq_lit(w, "does") {
        return true;
    }
    if eq_lit(w, "did") {
        return true;
    }
    if eq_lit(w, "will") {
        return true;
    }
    if eq_lit(w, "would") {
        return true;
    }
    if eq_lit(w, "could") {
        return true;
    }
    if eq_lit(w, "should") {
        return true;
    }
    if eq_lit(w, "may") {
        return true;
    }
    if eq_lit(w, "might") {
        return true;
    }
    if eq_lit(w, "must") {
        return true;
    }
    if eq_lit(w, "shall") {
        return true;
    }
    if eq_lit(w, "can") {
        return true;
    }
    if eq_lit(w, "this") {
        return true;
    }
    if eq_lit(w, "that") {
        return true;
    }
    if eq_lit(w, "these") {
        return true;
    }
    if eq_lit(w, "those") {
        return true;
    }
    if eq_lit(w, "i") {
        return true;
    }
    if eq_lit(w, "you") {
        return true;
    }
    if eq_lit(w, "he") {
        return true;
    }
    if eq_lit(w, "she") {
        return true;
    }
    if eq_lit(w, "it") {
        return true;
    }
    if eq_lit(w, "we") {
        return true;
    }
    if eq_lit(w, "they") {
        return true;
    }
    if eq_lit(w, "me") {
        return true;
    }
    if eq_lit(w, "him") {
        return true;
    }
    if eq_lit(w, "her") {
        return true;
    }
    if eq_lit(w, "us") {
        return true;
    }
    if eq_lit(w, "them") {
        return true;
    }
    if eq_lit(w, "my") {
        return true;
    }
    if eq_lit(w, "your") {
        return true;
    }
    if eq_lit(w, "his") {
        return true;
    }
    if eq_lit(w, "its") {
        return true;
    }
    if eq_lit(w, "our") {
        return true;
    }
    if eq_lit(w, "their") {
        return true;
    }
    if eq_lit(w, "not") {
        return true;
    }
    if eq_lit(w, "no") {
        return true;
    }
    if eq_lit(w, "yes") {
        return true;
    }
    if eq_lit(w, "so") {
        return true;
    }
    if eq_lit(w, "if") {
        return true;
    }
    if eq_lit(w, "then") {
        return true;
    }
    if eq_lit(w, "than") {
        return true;
    }
    if eq_lit(w, "too") {
        return true;
    }
    if eq_lit(w, "very") {
        return true;
    }
    if eq_lit(w, "just") {
        return true;
    }
    if eq_lit(w, "about") {
        return true;
    }
    if eq_lit(w, "into") {
        return true;
    }
    if eq_lit(w, "over") {
        return true;
    }
    if eq_lit(w, "after") {
        return true;
    }
    if eq_lit(w, "before") {
        return true;
    }
    if eq_lit(w, "between") {
        return true;
    }
    if eq_lit(w, "under") {
        return true;
    }
    if eq_lit(w, "again") {
        return true;
    }
    if eq_lit(w, "further") {
        return true;
    }
    if eq_lit(w, "once") {
        return true;
    }
    if eq_lit(w, "here") {
        return true;
    }
    if eq_lit(w, "there") {
        return true;
    }
    if eq_lit(w, "when") {
        return true;
    }
    if eq_lit(w, "where") {
        return true;
    }
    if eq_lit(w, "why") {
        return true;
    }
    if eq_lit(w, "how") {
        return true;
    }
    if eq_lit(w, "all") {
        return true;
    }
    if eq_lit(w, "each") {
        return true;
    }
    if eq_lit(w, "few") {
        return true;
    }
    if eq_lit(w, "more") {
        return true;
    }
    if eq_lit(w, "most") {
        return true;
    }
    if eq_lit(w, "other") {
        return true;
    }
    if eq_lit(w, "some") {
        return true;
    }
    if eq_lit(w, "such") {
        return true;
    }
    if eq_lit(w, "only") {
        return true;
    }
    if eq_lit(w, "own") {
        return true;
    }
    if eq_lit(w, "same") {
        return true;
    }
    if eq_lit(w, "s") {
        return true;
    }
    if eq_lit(w, "t") {
        return true;
    }
    if eq_lit(w, "don") {
        return true;
    }
    if eq_lit(w, "now") {
        return true;
    }
    false
}

pub fn is_stopword(w: &str) -> (r: bool)
    ensures
        r == stopword(w@),
{
    let lower = ascii_lowercase_chars(&chars_of(w));
    is_stopword_lower(&lower)
}

// ---------------------------------------------------------------------------
// Candidates
// ---------------------------------------------------------------------------

pub const MAX_LEARN_CANDIDATES: usize = 3;

/// Has a word with this lower-case form already been taken?
pub open spec fn taken(out: Seq<Seq<char>>, lower: Seq<char>) -> bool {
    exists|k: int| 0 <= k < out.len() && ascii_lower_seq(#[trigger] out[k]) == lower
}

/// Is `b` (replacing `a`) worth learning: four characters or more, not a
/// stopword, one to three edits away ignoring ASCII case, not taken yet?
pub open spec fn learnable(a: Seq<char>, b: Seq<char>, out: Seq<Seq<char>>) -> bool {
    &&& b.len() >= 4
    &&& !stopword(b)
    &&& 1 <= levenshtein(ascii_lower_seq(a), ascii_lower_seq(b)) <= 3
    &&& !taken(out, ascii_lower_seq(b))
}

/// Greedy word alignment of the inserted text against the text found later:
/// equal words advance both sides, a word that realigns after one skipped
/// word on either side is taken as an insertion or deletion, anything else
/// is a one-word substitution and its replacement may be learned. Stops
/// after three candidates.
pub open spec fn align(inj: Seq<Seq<char>>, cur: Seq<Seq<char>>, i: int, j: int, out: Seq<
    Seq<char>,
>) -> Seq<Seq<char>>
    decreases (inj.len() - i) + (cur.len() - j),
{
    if i < 0 || j < 0 || i >= inj.len() || j >= cur.len() || out.len() >= MAX_LEARN_CANDIDATES {
        out
    } else if eq_ignore_ascii_case(inj[i], cur[j]) {
        align(inj, cur, i + 1, j + 1, out)
    } else if i + 1 < inj.len() && eq_ignore_ascii_case(inj[i + 1], cur[j]) {
        align(inj, cur, i + 1, j, out)
    } else if j + 1 < cur.len() && eq_ignore_ascii_case(inj[i], cur[j + 1]) {
        align(inj, cur, i, j + 1, out)
    } else {
        let next = if learnable(inj[i], cur[j], out) {
            out.push(cur[j])
        } else {
            out
        };
        align(inj, cur, i + 1, j + 1, next)
    }
}

pub open spec fn learn_candidates(injected: Seq<char>, current: Seq<char>) -> Seq<Seq<char>> {
    align(tokens(injected), tokens(current), 0, 0, Seq::empty())
}

/// What every list of learned words satisfies: at most three, each a word
/// of the later text of four characters or more and no stopword, no two
/// equal ignoring ASCII case.
pub open spec fn learned_ok(cur: Seq<Seq<char>>, out: Seq<Seq<char>>) -> bool {
    &&& out.len() <= MAX_LEARN_CANDIDATES
    &&& forall|k: int|
        0 <= k < out.len() ==> (#[trigger] out[k]).len() >= 4 && !stopword(out[k]) && cur.contains(out[k])
    &&& forall|p: int, q: int|
        0 <= p < q < out.len() ==> ascii_lower_seq(#[trigger] out[p]) != ascii_lower_seq(#[trigger] out[q])
}

proof fn lemma_align_ok(inj: Seq<Seq<char>>, cur: Seq<Seq<char>>, i: int, j: int, out: Seq<Seq<char>>)
    requires
        learned_ok(cur, out),
    ensures
        learned_ok(cur, align(inj, cur, i, j, out)),
    decreases (inj.len() - i) + (cur.len() - j),
{
    if i < 0 || j < 0 || i >= inj.len() || j >= cur.len() || out.len() >= MAX_LEARN_CANDIDATES {
    } else if eq_ignore_ascii_case(inj[i], cur[j]) {
        lemma_align_ok(inj, cur, i + 1, j + 1, out);
    } else if i + 1 < inj.len() && eq_ignore_ascii_case(inj[i + 1], cur[j]) {
        lemma_align_ok(inj, cur, i + 1, j, out);
    } else if j + 1 < cur.len() && eq_ignore_ascii_case(inj[i], cur[j + 1]) {
        lemma_align_ok(inj, cur, i, j + 1, out);
    } else {
        if learnable(inj[i], cur[j], out) {
            let next = out.push(cur[j]);
            assert forall|k: int| 0 <= k < next.len() implies (#[trigger] next[k]).len() >= 4 && !stopword(
                next[k],
            ) && cur.contains(next[k]) by {
                if k == out.len() {
                    assert(cur[j] == next[k]);
                } else {
                    assert(next[k] == out[k]);
                }
            }
            assert forall|p: int, q: int| 0 <= p < q < next.len() implies ascii_lower_seq(
                #[trigger] next[p],
            ) != ascii_lower_seq(#[trigger] next[q]) by {
                assert(next[p] == out[p]);
                if q < out.len() {
                    assert(next[q] == out[q]);
                }
            }
            lemma_align_ok(inj, cur, i + 1, j + 1, next);
        } else {
            lemma_align_ok(inj, cur, i + 1, j + 1, out);
        }
    }
}

proof fn lemma_align_agreeing(inj: Seq<Seq<char>>, cur: Seq<Seq<char>>, i: int, out: Seq<Seq<char>>)
    requires
        0 <= i,
        inj.len() == cur.len(),
        forall|k: int| 0 <= k < inj.len() ==> eq_ignore_ascii_case(#[trigger] inj[k], cur[k]),
    ensures
        align(inj, cur, i, i, out) == out,
    decreases inj.len() - i,
{
    if i < inj.len() && out.len() < MAX_LEARN_CANDIDATES {
        assert(eq_ignore_ascii_case(inj[i], cur[i]));
        lemma_align_agreeing(inj, cur, i + 1, out);
    }
}

/// The limits on learned words: at most three, each a word of the later
/// text with four characters or more and no stopword, no two equal ignoring
/// ASCII case; nothing when either text has no words or when the words of
/// both agree ignoring ASCII case.
pub proof fn lemma_learn_candidates_limits(injected: Seq<char>, current: Seq<char>)
    ensures
        learned_ok(tokens(current), learn_candidates(injected, current)),
        tokens(injected).len() == 0 || tokens(current).len() == 0 ==> learn_candidates(injected, current).len()
            == 0,
        tokens(injected).len() == tokens(current).len() && (forall|k: int|
            0 <= k < tokens(injected).len() ==> eq_ignore_ascii_case(
                #[trigger] tokens(injected)[k],
                tokens(current)[k],
            )) ==> learn_candidates(injected, current).len() == 0,
{
    let e = Seq::<Seq<char>>::empty();
    lemma_align_ok(tokens(injected), tokens(current), 0, 0, e);
    if tokens(injected).len() == tokens(current).len() && (forall|k: int|
        0 <= k < tokens(injected).len() ==> eq_ignore_ascii_case(
            #[trigger] tokens(injected)[k],
            tokens(current)[k],
        )) {
        lemma_align_agreeing(tokens(injected), tokens(current), 0, e);
    }
}

/// Where each learned word was found: it is the later text's word at the
/// strictly increasing positions `js`, each replacing the inserted word at
/// position `is[k]`, one to three edits away ignoring ASCII case.
pub open spec fn learned_from(
    inj: Seq<Seq<char>>,
    cur: Seq<Seq<char>>,
    out: Seq<Seq<char>>,
    is: Seq<int>,
    js: Seq<int>,
) -> bool {
    &&& is.len() == out.len()
    &&& js.len() == out.len()
    &&& forall|a: int, b: int| 0 <= a < b < js.len() ==> #[trigger] js[a] < #[trigger] js[b]
    &&& forall|k: int|
        0 <= k < out.len() ==> {
            &&& 0 <= #[trigger] is[k] < inj.len()
            &&& 0 <= js[k] < cur.len()
            &&& out[k] == cur[js[k]]
            &&& 1 <= levenshtein(ascii_lower_seq(inj[is[k]]), ascii_lower_seq(cur[js[k]])) <= 3
        }
}

proof fn lemma_align_positions(
    inj: Seq<Seq<char>>,
    cur: Seq<Seq<char>>,
    i: int,
    j: int,
    out: Seq<Seq<char>>,
    is: Seq<int>,
    js: Seq<int>,
) -> (w: (Seq<int>, Seq<int>))
    requires
        0 <= i,
        0 <= j,
        learned_from(inj, cur, out, is, js),
        forall|k: int| 0 <= k < js.len() ==> #[trigger] js[k] < j,
    ensures
        learned_from(inj, cur, align(inj, cur, i, j, out), w.0, w.1),
    decreases (inj.len() - i) + (cur.len() - j),
{
    if i >= inj.len() || j >= cur.len() || out.len() >= MAX_LEARN_CANDIDATES {
        (is, js)
    } else if eq_ignore_ascii_case(inj[i], cur[j]) {
        lemma_align_positions(inj, cur, i + 1, j + 1, out, is, js)
    } else if i + 1 < inj.len() && eq_ignore_ascii_case(inj[i + 1], cur[j]) {
        lemma_align_positions(inj, cur, i + 1, j, out, is, js)
    } else if j + 1 < cur.len() && eq_ignore_ascii_case(inj[i], cur[j + 1]) {
        lemma_align_positions(inj, cur, i, j + 1, out, is, js)
    } else if learnable(inj[i], cur[j], out) {
        let out2 = out.push(cur[j]);
        let is2 = is.push(i);
        let js2 = js.push(j);
        assert forall|a: int, b: int| 0 <= a < b < js2.len() implies #[trigger] js2[a] < #[trigger] js2[b] by {
            assert(js2[a] == js[a]);
            if b < js.len() {
                assert(js2[b] == js[b]);
            }
        }
        assert forall|k: int| 0 <= k < out2.len() implies {
            &&& 0 <= #[trigger] is2[k] < inj.len()
            &&& 0 <= js2[k] < cur.len()
            &&& out2[k] == cur[js2[k]]
            &&& 1 <= levenshtein(ascii_lower_seq(inj[is2[k]]), ascii_lower_seq(cur[js2[k]])) <= 3
        } by {
            if k < out.len() {
                assert(is2[k] == is[k] && js2[k] == js[k] && out2[k] == out[k]);
            }
        }
        lemma_align_positions(inj, cur, i + 1, j + 1, out2, is2, js2)
    } else {
        lemma_align_positions(inj, cur, i + 1, j + 1, out, is, js)
    }
}

/// Each learned word is a word of the later text, found in order of
/// position, that replaced an inserted word one to three edits away
/// (ignoring ASCII case).
pub proof fn lemma_learn_candidates_sources(injected: Seq<char>, current: Seq<char>)
    ensures
        exists|is: Seq<int>, js: Seq<int>|
            #[trigger] learned_from(
                tokens(injected),
                tokens(current),
                learn_candidates(injected, current),
                is,
                js,
            ),
{
    let e = Seq::<Seq<char>>::empty();
    let w = lemma_align_positions(tokens(injected), tokens(current), 0, 0, e, Seq::empty(), Seq::empty());
    assert(learned_from(tokens(injected), tokens(current), learn_candidates(injected, current), w.0, w.1));
}

proof fn lemma_align_skip_equal(inj: Seq<Seq<char>>, cur: Seq<Seq<char>>, i: int, j: int, len: int, out: Seq<
    Seq<char>,
>)
    requires
        0 <= i,
        0 <= j,
        0 <= len,
        i + len <= inj.len(),
        j + len <= cur.len(),
        forall|k: int| 0 <= k < len ==> eq_ignore_ascii_case(#[trigger] inj[i + k], cur[j + k]),
    ensures
        align(inj, cur, i, j, out) == align(inj, cur, i + len, j + len, out),
    decreases len,
{
    if len > 0 {
        assert(eq_ignore_ascii_case(inj[i + 0], cur[j + 0]));
        assert forall|k: int| 0 <= k < len - 1 implies eq_ignore_ascii_case(
            #[trigger] inj[(i + 1) + k],
            cur[(j + 1) + k],
        ) by {
            assert(eq_ignore_ascii_case(inj[i + (k + 1)], cur[j + (k + 1)]));
        }
        if out.len() < MAX_LEARN_CANDIDATES {
            lemma_align_skip_equal(inj, cur, i + 1, j + 1, len - 1, out);
        }
    }
}

proof fn lemma_align_keeps(inj: Seq<Seq<char>>, cur: Seq<Seq<char>>, i: int, j: int, out: Seq<Seq<char>>)
    ensures
        align(inj, cur, i, j, out).len() >= out.len(),
        forall|k: int| 0 <= k < out.len() ==> #[trigger] align(inj, cur, i, j, out)[k] == out[k],
    decreases (inj.len() - i) + (cur.len() - j),
{
    if i < 0 || j < 0 || i >= inj.len() || j >= cur.len() || out.len() >= MAX_LEARN_CANDIDATES {
    } else if eq_ignore_ascii_case(inj[i], cur[j]) {
        lemma_align_keeps(inj, cur, i + 1, j + 1, out);
    } else if i + 1 < inj.len() && eq_ignore_ascii_case(inj[i + 1], cur[j]) {
        lemma_align_keeps(inj, cur, i + 1, j, out);
    } else if j + 1 < cur.len() && eq_ignore_ascii_case(inj[i], cur[j + 1]) {
        lemma_align_keeps(inj, cur, i, j + 1, out);
    } else if learnable(inj[i], cur[j], out) {
        let next = out.push(cur[j]);
        lemma_align_keeps(inj, cur, i + 1, j + 1, next);
        assert forall|k: int| 0 <= k < out.len() implies #[trigger] align(inj, cur, i, j, out)[k] == out[k] by {
            assert(next[k] == out[k]);
        }
    } else {
        lemma_align_keeps(inj, cur, i + 1, j + 1, out);
    }
}

/// A word the user inserted does not hide a later correction. The later
/// text has the inserted text's words, with one extra word at position `p`
/// (not matching the inserted word there, nor the one after it) and one
/// word after it replaced: `injected`'s word `q` became `current`'s word
/// `q + 1`, a learnable change (four characters or more, no stopword, one
/// to three edits ignoring ASCII case) that does not itself look like an
/// insertion or a deletion. That replacement is learned.
pub proof fn lemma_inserted_word_keeps_later_correction(injected: Seq<char>, current: Seq<char>, p: int, q: int)
    requires
        0 <= p < q < tokens(injected).len(),
        tokens(current).len() == tokens(injected).len() + 1,
        forall|k: int|
            0 <= k < p ==> eq_ignore_ascii_case(#[trigger] tokens(injected)[k], tokens(current)[k]),
        !eq_ignore_ascii_case(tokens(injected)[p], tokens(current)[p]),
        !eq_ignore_ascii_case(tokens(injected)[p + 1], tokens(current)[p]),
        forall|k: int|
            p <= k < tokens(injected).len() && k != q ==> eq_ignore_ascii_case(
                #[trigger] tokens(injected)[k],
                tokens(current)[k + 1],
            ),
        tokens(current)[q + 1].len() >= 4,
        !stopword(tokens(current)[q + 1]),
        1 <= levenshtein(ascii_lower_seq(tokens(injected)[q]), ascii_lower_seq(tokens(current)[q + 1])) <= 3,
        !(q + 1 < tokens(injected).len() && eq_ignore_ascii_case(
            tokens(injected)[q + 1],
            tokens(current)[q + 1],
        )),
        !(q + 2 < tokens(current).len() && eq_ignore_ascii_case(
            tokens(injected)[q],
            tokens(current)[q + 2],
        )),
    ensures
        learn_candidates(injected, current).contains(tokens(current)[q + 1]),
{
    let inj = tokens(injected);
    let cur = tokens(current);
    let e = Seq::<Seq<char>>::empty();
    assert forall|k: int| 0 <= k < p implies eq_ignore_ascii_case(#[trigger] inj[0 + k], cur[0 + k]) by {
        assert(eq_ignore_ascii_case(inj[k], cur[k]));
    }
    lemma_align_skip_equal(inj, cur, 0, 0, p, e);
    assert(eq_ignore_ascii_case(inj[p], cur[p + 1]));
    assert(align(inj, cur, p, p, e) == align(inj, cur, p, p + 1, e));
    assert forall|k: int| 0 <= k < q - p implies eq_ignore_ascii_case(#[trigger] inj[p + k], cur[(p + 1) + k]) by {
        assert(eq_ignore_ascii_case(inj[p + k], cur[(p + k) + 1]));
    }
    lemma_align_skip_equal(inj, cur, p, p + 1, q - p, e);
    lemma_levenshtein_self(ascii_lower_seq(inj[q]));
    assert(!eq_ignore_ascii_case(inj[q], cur[q + 1]));
    assert(!taken(e, ascii_lower_seq(cur[q + 1])));
    assert(learnable(inj[q], cur[q + 1], e));
    let next = e.push(cur[q + 1]);
    assert(align(inj, cur, q, q + 1, e) == align(inj, cur, q + 1, q + 2, next));
    lemma_align_keeps(inj, cur, q + 1, q + 2, next);
    assert(learn_candidates(injected, current)[0] == cur[q + 1]);
}

fn taken_exec(out: &Vec<Vec<char>>, lower: &[char]) -> (r: bool)
    ensures
        r == taken(seqs_of(out@), lower@),
{
    let mut k: usize = 0;
    while k < out.len()
        invariant
            k <= out.len(),
            forall|q: int| 0 <= q < k ==> ascii_lower_seq(#[trigger] seqs_of(out@)[q]) != lower@,
        decreases out.len() - k,
    {
        let l = ascii_lowercase_chars(&out[k]);
        assert(seqs_of(out@)[k as int] == out@[k as int]@);
        if crate::text::chars_eq(&l, lower) {
            return true;
        }
        k += 1;
    }
    false
}

/// Up to three words the user corrected in the inserted text.
pub fn find_learn_candidates(injected: &str, current: &str) -> (r: Vec<String>)
    requires
        injected@.len() < usize::MAX,
        current@.len() < usize::MAX,
    ensures
        strings_view(r@) == learn_candidates(injected@, current@),
{
    let inj = split_words_chars(&chars_of(injected), WordChars::Token);
    let cur = split_words_chars(&chars_of(current), WordChars::Token);
    let ghost ti = seqs_of(inj@);
    let ghost tc = seqs_of(cur@);
    proof {
        crate::text::lemma_split_words_shorter(injected@, WordChars::Token);
        crate::text::lemma_split_words_shorter(current@, WordChars::Token);
    }
    let n = inj.len();
    let m = cur.len();
    let mut out: Vec<Vec<char>> = Vec::new();
    let mut i: usize = 0;
    let mut j: usize = 0;
    assert(seqs_of(out@) =~= Seq::<Seq<char>>::empty());
    while i < n && j < m && out.len() < MAX_LEARN_CANDIDATES
        invariant
            n == inj.len(),
            m == cur.len(),
            ti == seqs_of(inj@),
            tc == seqs_of(cur@),
            ti == tokens(injected@),
            tc == tokens(current@),
            forall|k: int| 0 <= k < ti.len() ==> #[trigger] ti[k].len() <= injected@.len(),
            forall|k: int| 0 <= k < tc.len() ==> #[trigger] tc[k].len() <= current@.len(),
            injected@.len() < usize::MAX,
            current@.len() < usize::MAX,
            i <= n,
            j <= m,
            align(ti, tc, 0, 0, Seq::empty()) == align(ti, tc, i as int, j as int, seqs_of(out@)),
        decreases (n - i) + (m - j),
    {
        assert(ti[i as int] == inj@[i as int]@);
        assert(tc[j as int] == cur@[j as int]@);
        proof {
            if i + 1 < n {
                assert(ti[i + 1] == inj@[i + 1]@);
            }
            if j + 1 < m {
                assert(tc[j + 1] == cur@[j + 1]@);
            }
        }
        let same = eq_ignore_case(&inj[i], &cur[j]);
        let skip_inj = !same && i + 1 < n && eq_ignore_case(&inj[i + 1], &cur[j]);
        let skip_cur = !same && !skip_inj && j + 1 < m && eq_ignore_case(&inj[i], &cur[j + 1]);
        if same {
            i += 1;
            j += 1;
        } else if skip_inj {
            i += 1;
        } else if skip_cur {
            j += 1;
        } else {
            let b = &cur[j];
            let lower_b = ascii_lowercase_chars(b);
            if b.len() >= 4 && !is_stopword_lower(&lower_b) {
                let lower_a = ascii_lowercase_chars(&inj[i]);
                let d = levenshtein_chars(&lower_a, &lower_b);
                if 1 <= d && d <= 3 && !taken_exec(&out, &lower_b) {
                    let ghost before = seqs_of(out@);
                    let copy = crate::text::sub_vec(b, 0, b.len());
                    assert(copy@ =~= b@);
                    out.push(copy);
                    assert(seqs_of(out@) =~= before.push(tc[j as int]));
                }
            }
            i += 1;
            j += 1;
        }
    }
    let r = strings_of(&out);
    assert(strings_view(r@) =~= seqs_of(out@));
    r
}

/// Words of the inserted text whose dictionary use counts go up.
pub fn words_for_bump(final_text: &str) -> (r: Vec<String>)
    ensures
        strings_view(r@) == tokens(final_text@),
{
    tokenize(final_text)
}

} // verus!
