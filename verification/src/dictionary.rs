//! What the dictionary store accepts: the stored form of a word and of its
//! source, and the words whose use counts go up after an utterance (one bump
//! per word, whatever its ASCII case).
use vstd::prelude::*;

use crate::prompt::strings_view;
use crate::text::{
    ascii_lower_seq, ascii_lowercase_chars, chars_eq, chars_of, eq_lit, string_of, trim_chars,
    trim_seq,
};

verus! {

/// A dictionary word as stored: trimmed, and not empty.
pub fn normalized_word(word: &str) -> (r: Result<String, String>)
    ensures
        trim_seq(word@).len() == 0 ==> (r matches Err(m) && m@ == "dictionary word cannot be empty"@),
        trim_seq(word@).len() > 0 ==> (r matches Ok(w) && w@ == trim_seq(word@)),
{
    let t = trim_chars(&chars_of(word));
    if t.len() == 0 {
        Err(String::from_str("dictionary word cannot be empty"))
    } else {
        Ok(string_of(&t))
    }
}

/// Where a word came from: `auto` when so named (ignoring surrounding
/// whitespace), `manual` otherwise.
pub open spec fn source_spec(source: Seq<char>) -> Seq<char> {
    if trim_seq(source) == "auto"@ {
        "auto"@
    } else {
        "manual"@
    }
}

pub fn normalized_source(source: &str) -> (r: String)
    ensures
        r@ == source_spec(source@),
{
    let t = trim_chars(&chars_of(source));
    if eq_lit(&t, "auto") {
        String::from_str("auto")
    } else {
        String::from_str("manual")
    }
}

/// Does `w` equal, ignoring ASCII case, one of `seen`?
pub open spec fn seen_ignoring_case(seen: Seq<Seq<char>>, w: Seq<char>) -> bool {
    exists|j: int| 0 <= j < seen.len() && ascii_lower_seq(#[trigger] seen[j]) == ascii_lower_seq(w)
}

/// The words to bump, in order: each trimmed word that is not empty and does
/// not equal (ignoring ASCII case) a word kept before it.
pub open spec fn bump_words(words: Seq<Seq<char>>) -> Seq<Seq<char>>
    decreases words.len(),
{
    if words.len() == 0 {
        Seq::empty()
    } else {
        let kept = bump_words(words.drop_last());
        let w = trim_seq(words.last());
        if w.len() == 0 || seen_ignoring_case(kept, w) {
            kept
        } else {
            kept.push(w)
        }
    }
}

/// No two of `ws` are equal ignoring ASCII case.
pub open spec fn distinct_ignoring_case(ws: Seq<Seq<char>>) -> bool {
    forall|i: int, j: int|
        0 <= i < j < ws.len() ==> ascii_lower_seq(#[trigger] ws[i]) != ascii_lower_seq(#[trigger] ws[j])
}

proof fn lemma_bump_words_distinct(words: Seq<Seq<char>>)
    ensures
        distinct_ignoring_case(bump_words(words)),
    decreases words.len(),
{
    if words.len() > 0 {
        lemma_bump_words_distinct(words.drop_last());
        let kept = bump_words(words.drop_last());
        let w = trim_seq(words.last());
        if !(w.len() == 0 || seen_ignoring_case(kept, w)) {
            let r = kept.push(w);
            assert forall|i: int, j: int| 0 <= i < j < r.len() implies ascii_lower_seq(#[trigger] r[i])
                != ascii_lower_seq(#[trigger] r[j]) by {
                if j == kept.len() {
                    assert(r[i] == kept[i]);
                    assert(r[j] == w);
                } else {
                    assert(r[i] == kept[i]);
                    assert(r[j] == kept[j]);
                }
            }
        }
    }
}

/// Is `lw` (a lowered word) among `lowered`?
fn seen_lowered(lowered: &Vec<Vec<char>>, lw: &Vec<char>) -> (r: bool)
    ensures
        r == exists|j: int| 0 <= j < lowered@.len() && (#[trigger] lowered@[j])@ == lw@,
{
    let mut j: usize = 0;
    while j < lowered.len()
        invariant
            j <= lowered.len(),
            forall|k: int| 0 <= k < j ==> (#[trigger] lowered@[k])@ != lw@,
        decreases lowered.len() - j,
    {
        if chars_eq(&lowered[j], lw) {
            return true;
        }
        j += 1;
    }
    false
}

/// The words whose use counts go up after an utterance: trimmed, without
/// empty ones, and with one entry per word whatever its ASCII case (the first
/// spelling wins).
pub fn unique_bump_words(words: &[String]) -> (r: Vec<String>)
    ensures
        strings_view(r@) == bump_words(strings_view(words@)),
        distinct_ignoring_case(strings_view(r@)),
{
    let ghost ws = strings_view(words@);
    let mut out: Vec<String> = Vec::new();
    let mut lowered: Vec<Vec<char>> = Vec::new();
    let mut i: usize = 0;
    while i < words.len()
        invariant
            ws == strings_view(words@),
            i <= words.len(),
            strings_view(out@) == bump_words(ws.take(i as int)),
            lowered@.len() == out@.len(),
            forall|k: int| 0 <= k < lowered@.len() ==> (#[trigger] lowered@[k])@ == ascii_lower_seq(out@[k]@),
        decreases words.len() - i,
    {
        let t = trim_chars(&chars_of(words[i].as_str()));
        let lw = ascii_lowercase_chars(&t);
        let ghost kept = bump_words(ws.take(i as int));
        proof {
            assert(ws.take(i + 1).drop_last() == ws.take(i as int));
            assert(ws.take(i + 1).last() == words@[i as int]@);
        }
        let seen = seen_lowered(&lowered, &lw);
        proof {
            if seen {
                let j = choose|j: int| 0 <= j < lowered@.len() && (#[trigger] lowered@[j])@ == lw@;
                assert(kept[j] == out@[j]@);
                assert(seen_ignoring_case(kept, t@));
            } else {
                assert forall|j: int| 0 <= j < kept.len() implies ascii_lower_seq(#[trigger] kept[j])
                    != ascii_lower_seq(t@) by {
                    assert(kept[j] == out@[j]@);
                    assert(lowered@[j]@ == ascii_lower_seq(out@[j]@));
                }
            }
        }
        if t.len() > 0 && !seen {
            let w = string_of(&t);
            out.push(w);
            lowered.push(lw);
            proof {
                assert(strings_view(out@) == kept.push(t@));
            }
        }
        i += 1;
    }
    proof {
        assert(ws.take(words.len() as int) == ws);
        lemma_bump_words_distinct(ws);
    }
    out
}

} // verus!
