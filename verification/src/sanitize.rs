//! Output safeguards for the dictation pipeline.
//!
//! The LLM cleanup stage may receive the user's field text as continuity
//! context; models occasionally echo or rewrite that context instead of
//! returning only the cleaned transcript. These deterministic guards catch
//! that so the engine can strip the echo or fall back to the raw transcript.
use vstd::prelude::*;

use crate::text::{
    char_is_alphanumeric, char_is_whitespace, chars_eq, chars_of, is_alphanumeric, seqs_of,
    split_words, split_words_chars, str_to_lowercase, string_of, sub_vec, to_lowercase,
    trim_start_chars, trim_start_seq, WordChars,
};

verus! {

/// Fewest words an echo must span before it is stripped.
pub const MIN_ECHO_WORDS: usize = 4;

/// Lowercased alphanumeric words of `s`.
pub open spec fn normalized_words(s: Seq<char>) -> Seq<Seq<char>> {
    split_words(s, WordChars::Alphanumeric).map_values(|w: Seq<char>| str_to_lowercase(w))
}

fn words_normalized(s: &[char]) -> (r: Vec<Vec<char>>)
    ensures
        seqs_of(r@) == normalized_words(s@),
{
    let words = split_words_chars(s, WordChars::Alphanumeric);
    let mut r: Vec<Vec<char>> = Vec::new();
    let mut i: usize = 0;
    while i < words.len()
        invariant
            i <= words.len(),
            seqs_of(words@) == split_words(s@, WordChars::Alphanumeric),
            seqs_of(r@) == normalized_words(s@).take(i as int),
        decreases words.len() - i,
    {
        let lower = to_lowercase(string_of(&words[i]).as_str());
        let lv = chars_of(lower.as_str());
        assert(seqs_of(words@)[i as int] == words@[i as int]@);
        assert(lv@ == str_to_lowercase(words@[i as int]@));
        assert(normalized_words(s@)[i as int] == str_to_lowercase(split_words(s@, WordChars::Alphanumeric)[i as int]));
        let ghost before = r@;
        let ghost lvv = lv@;
        r.push(lv);
        assert(seqs_of(r@) =~= seqs_of(before).push(lvv));
        assert(normalized_words(s@).take(i + 1) =~= normalized_words(s@).take(i as int).push(
            normalized_words(s@)[i as int],
        ));
        i += 1;
    }
    assert(normalized_words(s@).take(words.len() as int) == normalized_words(s@));
    r
}

/// Index of the first non-word character after the `n`-th word, scanning
/// from position `i` with `count` words finished and `in_word` telling whether
/// the previous character was alphanumeric; `s.len()` when there is none.
pub open spec fn offset_from(s: Seq<char>, n: int, i: int, count: int, in_word: bool) -> int
    decreases s.len() - i,
{
    if i < 0 || i >= s.len() {
        s.len() as int
    } else {
        let alnum = char_is_alphanumeric(s[i]);
        if !alnum && in_word {
            if count + 1 == n {
                i
            } else {
                offset_from(s, n, i + 1, count + 1, false)
            }
        } else {
            offset_from(s, n, i + 1, count, alnum)
        }
    }
}

proof fn lemma_offset_from_bounded(s: Seq<char>, n: int, i: int, count: int, in_word: bool)
    ensures
        0 <= offset_from(s, n, i, count, in_word) <= s.len(),
    decreases s.len() - i,
{
    if i < 0 || i >= s.len() {
    } else {
        let alnum = char_is_alphanumeric(s[i]);
        if !alnum && in_word {
            if count + 1 != n {
                lemma_offset_from_bounded(s, n, i + 1, count + 1, false);
            }
        } else {
            lemma_offset_from_bounded(s, n, i + 1, count, alnum);
        }
    }
}

/// Position in `s` of the first non-word character after its `n`-th word.
pub open spec fn offset_after_words(s: Seq<char>, n: int) -> int {
    offset_from(s, n, 0, 0, false)
}

fn offset_after_n_words(chars: &[char], n: usize) -> (r: usize)
    ensures
        r == offset_after_words(chars@, n as int),
        r <= chars.len(),
{
    let mut count: usize = 0;
    let mut in_word = false;
    let mut i: usize = 0;
    proof {
        lemma_offset_from_bounded(chars@, n as int, 0, 0, false);
    }
    while i < chars.len()
        invariant
            i <= chars.len(),
            count <= i,
            offset_after_words(chars@, n as int) == offset_from(
                chars@,
                n as int,
                i as int,
                count as int,
                in_word,
            ),
            offset_from(chars@, n as int, i as int, count as int, in_word) <= chars.len(),
        decreases chars.len() - i,
    {
        let alnum = is_alphanumeric(chars[i]);
        proof {
            lemma_offset_from_bounded(chars@, n as int, i + 1, count + 1, false);
            lemma_offset_from_bounded(chars@, n as int, i + 1, count as int, alnum);
        }
        if !alnum && in_word {
            if count + 1 == n {
                return i;
            }
            count += 1;
            in_word = false;
        } else {
            in_word = alnum;
        }
        i += 1;
    }
    chars.len()
}

/// `str::trim_start_matches(|c| !c.is_alphanumeric() && c != '\n')`.
pub open spec fn drop_leading_punct(s: Seq<char>) -> Seq<char>
    decreases s.len(),
{
    if s.len() > 0 && !char_is_alphanumeric(s[0]) && s[0] != '\n' {
        drop_leading_punct(s.drop_first())
    } else {
        s
    }
}

fn drop_leading_punct_chars(s: &[char]) -> (r: Vec<char>)
    ensures
        r@ == drop_leading_punct(s@),
{
    let mut i: usize = 0;
    assert(s@.skip(0) == s@);
    while i < s.len() && !is_alphanumeric(s[i]) && s[i] != '\n'
        invariant
            i <= s.len(),
            drop_leading_punct(s@) == drop_leading_punct(s@.skip(i as int)),
        decreases s.len() - i,
    {
        assert(s@.skip(i as int).drop_first() == s@.skip(i + 1));
        i += 1;
    }
    assert(s@.skip(i as int) == s@.subrange(i as int, s@.len() as int));
    sub_vec(s, i, s.len())
}

/// Do the last `k` context words equal the first `k` output words?
pub open spec fn tail_echoes(out_words: Seq<Seq<char>>, ctx_words: Seq<Seq<char>>, k: int) -> bool {
    ctx_words.skip(ctx_words.len() - k) == out_words.take(k)
}

/// Longest `k` in `MIN_ECHO_WORDS..=max_k` for which the output starts with
/// the last `k` context words; `0` when there is none.
pub open spec fn echo_overlap_from(out_words: Seq<Seq<char>>, ctx_words: Seq<Seq<char>>, max_k: int) -> int
    decreases max_k,
{
    if max_k < MIN_ECHO_WORDS {
        0
    } else if tail_echoes(out_words, ctx_words, max_k) {
        max_k
    } else {
        echo_overlap_from(out_words, ctx_words, max_k - 1)
    }
}

pub open spec fn min_int(a: int, b: int) -> int {
    if a <= b {
        a
    } else {
        b
    }
}

/// The output with a leading echo of the context's tail removed.
pub open spec fn strip_echo_spec(output: Seq<char>, ctx: Seq<char>) -> Seq<char> {
    let ow = normalized_words(output);
    let cw = normalized_words(ctx);
    if ow.len() < MIN_ECHO_WORDS || cw.len() == 0 {
        output
    } else {
        let k = echo_overlap_from(ow, cw, min_int(ow.len() as int, cw.len() as int));
        if k == 0 {
            output
        } else if k == ow.len() {
            Seq::empty()
        } else {
            trim_start_seq(drop_leading_punct(output.skip(offset_after_words(output, k))))
        }
    }
}

/// Are the `len` words of `a` from `a_start` equal to those of `b` from `b_start`?
fn words_range_eq(a: &Vec<Vec<char>>, a_start: usize, b: &Vec<Vec<char>>, b_start: usize, len: usize) -> (r: bool)
    requires
        a_start + len <= a.len(),
        b_start + len <= b.len(),
    ensures
        r == (seqs_of(a@).subrange(a_start as int, a_start + len) == seqs_of(b@).subrange(
            b_start as int,
            b_start + len,
        )),
{
    let ghost sa = seqs_of(a@).subrange(a_start as int, a_start + len);
    let ghost sb = seqs_of(b@).subrange(b_start as int, b_start + len);
    let mut k: usize = 0;
    while k < len
        invariant
            a_start + len <= a.len(),
            b_start + len <= b.len(),
            sa == seqs_of(a@).subrange(a_start as int, a_start + len),
            sb == seqs_of(b@).subrange(b_start as int, b_start + len),
            k <= len,
            forall|j: int| 0 <= j < k ==> #[trigger] sa[j] == sb[j],
        decreases len - k,
    {
        let same = chars_eq(&a[a_start + k], &b[b_start + k]);
        assert(sa[k as int] == a@[a_start + k]@);
        assert(sb[k as int] == b@[b_start + k]@);
        if !same {
            return false;
        }
        k += 1;
    }
    assert(sa =~= sb);
    true
}

/// If the output begins by repeating the tail of the field context, strip the
/// repeated prefix. Word-based and case/punctuation-insensitive; requires an
/// overlap of at least four words so outputs that legitimately start with
/// common words are untouched. Returns an empty string when the whole output
/// is an echo of the context.
pub fn strip_context_echo(output: &str, field_context: &str) -> (r: String)
    ensures
        r@ == strip_echo_spec(output@, field_context@),
{
    let out = chars_of(output);
    let ctx = chars_of(field_context);
    let out_words = words_normalized(&out);
    let ctx_words = words_normalized(&ctx);
    if out_words.len() < MIN_ECHO_WORDS || ctx_words.len() == 0 {
        return String::from_str(output);
    }
    let max_k = if out_words.len() <= ctx_words.len() {
        out_words.len()
    } else {
        ctx_words.len()
    };
    let ghost ow = seqs_of(out_words@);
    let ghost cw = seqs_of(ctx_words@);
    let mut k = max_k;
    let mut overlap: usize = 0;
    while k >= MIN_ECHO_WORDS
        invariant_except_break
            overlap == 0,
        invariant
            k <= max_k,
            max_k <= out_words.len(),
            max_k <= ctx_words.len(),
            ow == seqs_of(out_words@),
            cw == seqs_of(ctx_words@),
            echo_overlap_from(ow, cw, max_k as int) == echo_overlap_from(ow, cw, k as int),
        ensures
            overlap == echo_overlap_from(ow, cw, max_k as int),
        decreases k,
    {
        let hit = words_range_eq(&ctx_words, ctx_words.len() - k, &out_words, 0, k);
        assert(cw.skip(cw.len() - k) == cw.subrange(cw.len() - k, cw.len() as int));
        assert(ow.take(k as int) == ow.subrange(0, k as int));
        if hit {
            overlap = k;
            break;
        }
        k -= 1;
    }
    assert(overlap == echo_overlap_from(ow, cw, max_k as int));
    if overlap == 0 {
        return String::from_str(output);
    }
    if overlap == out_words.len() {
        return String::new();
    }
    let cut = offset_after_n_words(&out, overlap);
    assert(out@.skip(cut as int) == out@.subrange(cut as int, out@.len() as int));
    let rest = sub_vec(&out, cut, out.len());
    let dropped = drop_leading_punct_chars(&rest);
    string_of(&trim_start_chars(&dropped))
}

/// The `len` words of `words` starting at `at`.
pub open spec fn window(words: Seq<Seq<char>>, at: int, len: int) -> Seq<Seq<char>> {
    words.subrange(at, at + len)
}

/// Does `probe` occur as a contiguous run of words in `words`?
pub open spec fn contains_run(words: Seq<Seq<char>>, probe: Seq<Seq<char>>) -> bool {
    exists|i: int| 0 <= i && i + probe.len() <= words.len() && #[trigger] window(words, i, probe.len() as int) == probe
}

/// Words of context considered when looking for leaked context.
pub open spec fn context_probe(ctx_words: Seq<Seq<char>>) -> Seq<Seq<char>> {
    if ctx_words.len() >= 12 {
        ctx_words.skip(ctx_words.len() - 12)
    } else {
        ctx_words
    }
}

/// The output balloons far beyond the dictated length, or still contains a
/// long run of the field context verbatim.
pub open spec fn suspicious_spec(output: Seq<char>, ctx: Seq<char>, raw: Seq<char>) -> bool {
    let ow = normalized_words(output);
    let cw = normalized_words(ctx);
    let raw_n = split_words(raw, WordChars::Alphanumeric).len();
    let raw_len = if raw_n == 0 {
        1
    } else {
        raw_n
    };
    ||| ow.len() > raw_len * 3 + 20
    ||| (cw.len() >= 8 && ow.len() >= context_probe(cw).len() && contains_run(ow, context_probe(cw)))
}

/// Heuristic: the cleaned output should be about the transcript, not the
/// document. Flags outputs that (a) still contain the last (up to) twelve
/// context words as a contiguous run, or (b) balloon beyond three times the
/// dictated word count plus twenty. The engine falls back to the raw
/// transcript when this returns true with field context on.
pub fn dictation_output_suspicious(output: &str, field_context: &str, raw_transcript: &str) -> (r: bool)
    ensures
        r == suspicious_spec(output@, field_context@, raw_transcript@),
{
    let out_words = words_normalized(&chars_of(output));
    let ctx_words = words_normalized(&chars_of(field_context));
    let raw_words = split_words_chars(&chars_of(raw_transcript), WordChars::Alphanumeric);
    let raw_len: usize = if raw_words.len() == 0 {
        1
    } else {
        raw_words.len()
    };
    assert(seqs_of(raw_words@).len() == raw_words@.len());
    let limit: u128 = (raw_len as u128) * 3 + 20;
    if (out_words.len() as u128) > limit {
        return true;
    }
    if ctx_words.len() >= 8 {
        let start: usize = if ctx_words.len() >= 12 {
            ctx_words.len() - 12
        } else {
            0
        };
        let plen = ctx_words.len() - start;
        let ghost ow = seqs_of(out_words@);
        let ghost cw = seqs_of(ctx_words@);
        let ghost probe = context_probe(cw);
        assert(probe == cw.subrange(start as int, cw.len() as int));
        if out_words.len() >= plen {
            let last = out_words.len() - plen;
            let mut i: usize = 0;
            loop
                invariant
                    i <= last,
                    last + plen == out_words.len(),
                    start + plen == ctx_words.len(),
                    ow == seqs_of(out_words@),
                    probe == cw.subrange(start as int, cw.len() as int),
                    cw == seqs_of(ctx_words@),
                    ow == normalized_words(output@),
                    cw == normalized_words(field_context@),
                    probe == context_probe(cw),
                    cw.len() >= 8,
                    !(ow.len() > (if split_words(raw_transcript@, WordChars::Alphanumeric).len() == 0 { 1 } else { split_words(raw_transcript@, WordChars::Alphanumeric).len() }) * 3 + 20),
                    forall|j: int| 0 <= j < i ==> #[trigger] window(ow, j, plen as int) != probe,
                ensures
                    forall|j: int| 0 <= j <= last ==> #[trigger] window(ow, j, plen as int) != probe,
                decreases last - i,
            {
                if words_range_eq(&out_words, i, &ctx_words, start, plen) {
                    assert(window(ow, i as int, plen as int) == probe);
                    assert(probe.len() == plen);
                    assert(window(ow, i as int, probe.len() as int) == probe);
                    assert(contains_run(ow, probe));
                    return true;
                }
                if i == last {
                    break;
                }
                i += 1;
            }
            assert(!contains_run(ow, probe)) by {
                assert forall|j: int| 0 <= j && j + probe.len() <= ow.len() implies #[trigger] window(ow, j, probe.len() as int) != probe by {
                    assert(j <= last);
                }
            }
        }
    }
    false
}

/// `t` is what is left of `s` after dropping some leading characters.
pub open spec fn is_suffix(t: Seq<char>, s: Seq<char>) -> bool {
    t.len() <= s.len() && t == s.skip(s.len() - t.len())
}

proof fn lemma_suffix_of_drop_first(t: Seq<char>, s: Seq<char>)
    requires
        s.len() > 0,
        is_suffix(t, s.drop_first()),
    ensures
        is_suffix(t, s),
{
    assert(s.drop_first().skip(s.drop_first().len() - t.len()) =~= s.skip(s.len() - t.len()));
}

proof fn lemma_drop_leading_punct_suffix(s: Seq<char>)
    ensures
        is_suffix(drop_leading_punct(s), s),
    decreases s.len(),
{
    if s.len() > 0 && !char_is_alphanumeric(s[0]) && s[0] != '\n' {
        lemma_drop_leading_punct_suffix(s.drop_first());
        lemma_suffix_of_drop_first(drop_leading_punct(s), s);
    } else {
        assert(s.skip(0) =~= s);
    }
}

proof fn lemma_trim_start_suffix(s: Seq<char>)
    ensures
        is_suffix(trim_start_seq(s), s),
    decreases s.len(),
{
    if s.len() > 0 && char_is_whitespace(s[0]) {
        lemma_trim_start_suffix(s.drop_first());
        lemma_suffix_of_drop_first(trim_start_seq(s), s);
    } else {
        assert(s.skip(0) =~= s);
    }
}

/// Stripping an echo only ever removes a leading part of the output: what
/// remains is a suffix of it (possibly all of it, possibly nothing).
pub proof fn lemma_strip_keeps_a_suffix(output: Seq<char>, ctx: Seq<char>)
    ensures
        is_suffix(strip_echo_spec(output, ctx), output),
{
    let ow = normalized_words(output);
    let cw = normalized_words(ctx);
    if ow.len() < MIN_ECHO_WORDS || cw.len() == 0 {
        assert(output.skip(0) =~= output);
    } else {
        let k = echo_overlap_from(ow, cw, min_int(ow.len() as int, cw.len() as int));
        if k == 0 {
            assert(output.skip(0) =~= output);
        } else if k == ow.len() {
            assert(output.skip(output.len() as int) =~= Seq::<char>::empty());
        } else {
            let off = offset_after_words(output, k);
            lemma_offset_from_bounded(output, k, 0, 0, false);
            let rest = output.skip(off);
            let d = drop_leading_punct(rest);
            lemma_drop_leading_punct_suffix(rest);
            lemma_trim_start_suffix(d);
            let t = trim_start_seq(d);
            assert(rest.skip(rest.len() - d.len()) =~= output.skip(output.len() - d.len()));
            assert(d.skip(d.len() - t.len()) =~= output.skip(output.len() - t.len()));
        }
    }
}

/// The echo length chosen: the largest `n` from 4 up to `max_k` for which
/// the output starts with the last `n` context words, or 0 when none does.
pub proof fn lemma_echo_overlap_is_longest(ow: Seq<Seq<char>>, cw: Seq<Seq<char>>, max_k: int)
    ensures
        echo_overlap_from(ow, cw, max_k) == 0 || (MIN_ECHO_WORDS <= echo_overlap_from(ow, cw, max_k)
            <= max_k && tail_echoes(ow, cw, echo_overlap_from(ow, cw, max_k))),
        forall|n: int|
            MIN_ECHO_WORDS <= n <= max_k && n > echo_overlap_from(ow, cw, max_k) ==> !#[trigger] tail_echoes(
                ow,
                cw,
                n,
            ),
    decreases max_k,
{
    if max_k >= MIN_ECHO_WORDS && !tail_echoes(ow, cw, max_k) {
        lemma_echo_overlap_is_longest(ow, cw, max_k - 1);
    }
}

/// Stripping an echo: with `k` the longest run (of at least four words) of
/// the context's last words that the output starts with, nothing changes
/// when there is none, nothing is left when the whole output is an echo,
/// and otherwise a suffix of the output is kept.
pub proof fn lemma_strip_echo_law(output: Seq<char>, ctx: Seq<char>)
    ensures
        ({
            let ow = normalized_words(output);
            let cw = normalized_words(ctx);
            let k = if ow.len() < MIN_ECHO_WORDS || cw.len() == 0 {
                0
            } else {
                echo_overlap_from(ow, cw, min_int(ow.len() as int, cw.len() as int))
            };
            &&& k == 0 || (MIN_ECHO_WORDS <= k <= ow.len() && k <= cw.len() && tail_echoes(ow, cw, k))
            &&& forall|n: int|
                MIN_ECHO_WORDS <= n <= ow.len() && n <= cw.len() && n > k ==> !#[trigger] tail_echoes(ow, cw, n)
            &&& k == 0 ==> strip_echo_spec(output, ctx) == output
            &&& (k > 0 && k == ow.len()) ==> strip_echo_spec(output, ctx).len() == 0
            &&& is_suffix(strip_echo_spec(output, ctx), output)
        }),
{
    let ow = normalized_words(output);
    let cw = normalized_words(ctx);
    lemma_echo_overlap_is_longest(ow, cw, min_int(ow.len() as int, cw.len() as int));
    lemma_strip_keeps_a_suffix(output, ctx);
}

/// Leaked context is caught: with at least eight context words, output
/// whose words contain the last twelve context words (all of them when
/// there are fewer) as one contiguous run is suspicious, and so is output
/// more than three times the dictated word count plus twenty words long.
pub proof fn lemma_leaked_context_is_suspicious(output: Seq<char>, ctx: Seq<char>, raw: Seq<char>, at: int)
    ensures
        ({
            let ow = normalized_words(output);
            let cw = normalized_words(ctx);
            let n: int = if cw.len() < 12 {
                cw.len() as int
            } else {
                12
            };
            (cw.len() >= 8 && 0 <= at && at + n <= ow.len() && ow.subrange(at, at + n) == cw.subrange(
                cw.len() - n,
                cw.len() as int,
            )) ==> suspicious_spec(output, ctx, raw)
        }),
        normalized_words(output).len() > 3 * (if split_words(raw, WordChars::Alphanumeric).len() == 0 {
            1
        } else {
            split_words(raw, WordChars::Alphanumeric).len()
        }) + 20 ==> suspicious_spec(output, ctx, raw),
{
    let ow = normalized_words(output);
    let cw = normalized_words(ctx);
    let n: int = if cw.len() < 12 {
        cw.len() as int
    } else {
        12
    };
    if cw.len() >= 8 && 0 <= at && at + n <= ow.len() && ow.subrange(at, at + n) == cw.subrange(
        cw.len() - n,
        cw.len() as int,
    ) {
        let probe = context_probe(cw);
        assert(probe =~= cw.subrange(cw.len() - n, cw.len() as int));
        assert(window(ow, at, probe.len() as int) == probe);
    }
}

} // verus!
