//! Character-level text helpers shared by the prompt, sanitizer, hotkey and
//! dictionary code. Strings are handled as sequences of Unicode scalar values.
use vstd::prelude::*;

verus! {

// ---------------------------------------------------------------------------
// Unicode character classes (std)
// ---------------------------------------------------------------------------

/// The Unicode `White_Space` property (PropList.txt), which
/// `char::is_whitespace` tests: tab to carriage return, space, next line,
/// no-break space, Ogham space mark, the spaces U+2000 to U+200A, line and
/// paragraph separator, narrow no-break space, medium mathematical space and
/// ideographic space.
pub open spec fn char_is_whitespace(c: char) -> bool {
    let u = c as u32;
    ||| (0x09 <= u && u <= 0x0D)
    ||| u == 0x20
    ||| u == 0x85
    ||| u == 0xA0
    ||| u == 0x1680
    ||| (0x2000 <= u && u <= 0x200A)
    ||| u == 0x2028
    ||| u == 0x2029
    ||| u == 0x202F
    ||| u == 0x205F
    ||| u == 0x3000
}

/// `Alphabetic || Numeric`, as `char::is_alphanumeric` computes it.
pub uninterp spec fn char_is_alphanumeric(c: char) -> bool;

/// Full Unicode lowercase mapping of a string, as `str::to_lowercase` computes it.
pub uninterp spec fn str_to_lowercase(s: Seq<char>) -> Seq<char>;

pub open spec fn is_ascii_letter(c: char) -> bool {
    ('a' <= c && c <= 'z') || ('A' <= c && c <= 'Z')
}

pub open spec fn is_ascii_digit(c: char) -> bool {
    '0' <= c && c <= '9'
}

pub open spec fn is_ascii_alnum(c: char) -> bool {
    is_ascii_letter(c) || is_ascii_digit(c)
}

/// `char::is_whitespace`: does `c` have the Unicode `White_Space` property?
pub(crate) fn is_whitespace(c: char) -> (r: bool)
    ensures
        r == char_is_whitespace(c),
{
    let u = c as u32;
    (0x09 <= u && u <= 0x0D) || u == 0x20 || u == 0x85 || u == 0xA0 || u == 0x1680 || (0x2000 <= u
        && u <= 0x200A) || u == 0x2028 || u == 0x2029 || u == 0x202F || u == 0x205F || u == 0x3000
}

/// `char::is_alphanumeric`. The contract names its result; std documents that
/// among ASCII characters exactly the letters and digits are alphanumeric.
#[verifier::external_body]
pub(crate) fn is_alphanumeric(c: char) -> (r: bool)
    ensures
        r == char_is_alphanumeric(c),
        (c as u32) < 128 ==> (r <==> is_ascii_alnum(c)),
{
    c.is_alphanumeric()
}

/// `str::to_lowercase`. The contract names its result, and states that on
/// ASCII text it maps `A`–`Z` to `a`–`z` and keeps everything else (the
/// Unicode lowercase mapping of ASCII characters).
#[verifier::external_body]
pub(crate) fn to_lowercase(s: &str) -> (r: String)
    ensures
        r@ == str_to_lowercase(s@),
        (forall|i: int| 0 <= i < s@.len() ==> (#[trigger] s@[i] as u32) < 128) ==> r@ == ascii_lower_seq(s@),
{
    s.to_lowercase()
}

/// `String::push`: appends one character.
#[verifier::external_body]
fn string_push(s: &mut String, c: char)
    ensures
        final(s)@ == old(s)@.push(c),
{
    s.push(c);
}

// ---------------------------------------------------------------------------
// Conversions
// ---------------------------------------------------------------------------

/// Copy the characters of `s` into a vector.
pub fn chars_of(s: &str) -> (v: Vec<char>)
    ensures
        v@ == s@,
{
    let mut v: Vec<char> = Vec::new();
    for c in it: s.chars()
        invariant
            v@ == it.seq().take(it.index() as int),
            it.seq() == s@,
    {
        v.push(c);
    }
    v
}

/// Build a `String` holding exactly the characters of `v`.
pub fn string_of(v: &[char]) -> (s: String)
    ensures
        s@ == v@,
{
    let mut s = String::new();
    let mut i: usize = 0;
    while i < v.len()
        invariant
            i <= v.len(),
            s@ == v@.take(i as int),
        decreases v.len() - i,
    {
        string_push(&mut s, v[i]);
        assert(v@.take(i + 1) == v@.take(i as int).push(v@[i as int]));
        i += 1;
    }
    assert(v@.take(v.len() as int) == v@);
    s
}

/// Copy of `v[from..to]`.
pub fn sub_vec(v: &[char], from: usize, to: usize) -> (r: Vec<char>)
    requires
        from <= to <= v.len(),
    ensures
        r@ == v@.subrange(from as int, to as int),
{
    let mut r: Vec<char> = Vec::new();
    let mut i = from;
    while i < to
        invariant
            from <= i <= to <= v.len(),
            r@ == v@.subrange(from as int, i as int),
        decreases to - i,
    {
        r.push(v[i]);
        assert(v@.subrange(from as int, i + 1) == v@.subrange(from as int, i as int).push(
            v@[i as int],
        ));
        i += 1;
    }
    r
}

/// Append all of `src` to `dst`.
pub fn extend_chars(dst: &mut Vec<char>, src: &[char])
    ensures
        final(dst)@ == old(dst)@ + src@,
{
    let mut i: usize = 0;
    while i < src.len()
        invariant
            i <= src.len(),
            dst@ == old(dst)@ + src@.take(i as int),
        decreases src.len() - i,
    {
        dst.push(src[i]);
        assert(old(dst)@ + src@.take(i + 1) == (old(dst)@ + src@.take(i as int)).push(
            src@[i as int],
        ));
        i += 1;
    }
    assert(src@.take(src.len() as int) == src@);
}

// ---------------------------------------------------------------------------
// Comparison and search
// ---------------------------------------------------------------------------

/// Character-wise equality.
pub fn chars_eq(a: &[char], b: &[char]) -> (r: bool)
    ensures
        r == (a@ == b@),
{
    if a.len() != b.len() {
        return false;
    }
    let mut i: usize = 0;
    while i < a.len()
        invariant
            a.len() == b.len(),
            i <= a.len(),
            forall|k: int| 0 <= k < i ==> a@[k] == b@[k],
        decreases a.len() - i,
    {
        if a[i] != b[i] {
            return false;
        }
        i += 1;
    }
    assert(a@ =~= b@);
    true
}

pub open spec fn seq_starts_with(s: Seq<char>, p: Seq<char>) -> bool {
    p.len() <= s.len() && s.take(p.len() as int) == p
}

pub open spec fn seq_ends_with(s: Seq<char>, p: Seq<char>) -> bool {
    p.len() <= s.len() && s.skip(s.len() - p.len()) == p
}

/// Does `s` hold `p` starting at index `at`?
pub open spec fn matches_at(s: Seq<char>, p: Seq<char>, at: int) -> bool {
    0 <= at && at + p.len() <= s.len() && s.subrange(at, at + p.len()) == p
}

pub open spec fn seq_contains(s: Seq<char>, p: Seq<char>) -> bool {
    exists|at: int| #[trigger] matches_at(s, p, at)
}

/// Does `p` occur in `s` starting at `at`?
pub fn match_at(s: &[char], p: &[char], at: usize) -> (r: bool)
    ensures
        r == matches_at(s@, p@, at as int),
{
    if at > s.len() || p.len() > s.len() - at {
        return false;
    }
    let mut k: usize = 0;
    while k < p.len()
        invariant
            at + p.len() <= s.len(),
            k <= p.len(),
            forall|j: int| 0 <= j < k ==> s@[at + j] == p@[j],
        decreases p.len() - k,
    {
        if s[at + k] != p[k] {
            assert(s@.subrange(at as int, at + p.len())[k as int] != p@[k as int]);
            return false;
        }
        k += 1;
    }
    assert(s@.subrange(at as int, at + p.len()) =~= p@);
    true
}

pub fn starts_with(s: &[char], p: &[char]) -> (r: bool)
    ensures
        r == seq_starts_with(s@, p@),
{
    let r = match_at(s, p, 0);
    assert(s@.take(p@.len() as int) == s@.subrange(0, p@.len() as int));
    r
}

pub fn ends_with(s: &[char], p: &[char]) -> (r: bool)
    ensures
        r == seq_ends_with(s@, p@),
{
    if p.len() > s.len() {
        return false;
    }
    let r = match_at(s, p, s.len() - p.len());
    assert(s@.skip(s@.len() - p@.len()) == s@.subrange(s@.len() - p@.len(), s@.len() as int));
    r
}

/// Does `p` occur anywhere in `s`?
pub fn contains(s: &[char], p: &[char]) -> (r: bool)
    ensures
        r == seq_contains(s@, p@),
{
    if p.len() > s.len() {
        assert forall|at: int| !matches_at(s@, p@, at) by {}
        return false;
    }
    let last = s.len() - p.len();
    let mut at: usize = 0;
    loop
        invariant
            p.len() <= s.len(),
            last == s.len() - p.len(),
            at <= last,
            forall|k: int| 0 <= k < at ==> !matches_at(s@, p@, k),
        ensures
            forall|k: int| 0 <= k <= last ==> !matches_at(s@, p@, k),
        decreases last - at,
    {
        if match_at(s, p, at) {
            return true;
        }
        if at == last {
            break;
        }
        at += 1;
    }
    assert forall|k: int| !matches_at(s@, p@, k) by {
        if 0 <= k <= last {
        }
    }
    false
}

/// Index of the first occurrence of `c` at or after `from`.
pub open spec fn first_index_of(s: Seq<char>, c: char, from: int) -> int
    decreases s.len() - from,
{
    if from < 0 || from >= s.len() {
        s.len() as int
    } else if s[from] == c {
        from
    } else {
        first_index_of(s, c, from + 1)
    }
}

pub(crate) proof fn lemma_first_index_bounds(s: Seq<char>, c: char, from: int)
    requires
        0 <= from,
    ensures
        from <= first_index_of(s, c, from) <= s.len() || (from > s.len() && first_index_of(s, c, from) == s.len()),
        first_index_of(s, c, from) <= s.len(),
    decreases s.len() - from,
{
    if from < s.len() && s[from] != c {
        lemma_first_index_bounds(s, c, from + 1);
    }
}

/// Position of the first `c` in `s` (or `s.len()` when absent).
pub fn find_char(s: &[char], c: char) -> (r: usize)
    ensures
        r == first_index_of(s@, c, 0),
        r <= s.len(),
{
    let mut i: usize = 0;
    while i < s.len()
        invariant
            i <= s.len(),
            first_index_of(s@, c, 0) == first_index_of(s@, c, i as int),
        decreases s.len() - i,
    {
        if s[i] == c {
            return i;
        }
        i += 1;
    }
    i
}

// ---------------------------------------------------------------------------
// Trimming
// ---------------------------------------------------------------------------

pub open spec fn trim_start_seq(s: Seq<char>) -> Seq<char>
    decreases s.len(),
{
    if s.len() > 0 && char_is_whitespace(s[0]) {
        trim_start_seq(s.drop_first())
    } else {
        s
    }
}

pub open spec fn trim_end_seq(s: Seq<char>) -> Seq<char>
    decreases s.len(),
{
    if s.len() > 0 && char_is_whitespace(s.last()) {
        trim_end_seq(s.drop_last())
    } else {
        s
    }
}

/// `str::trim`: whitespace removed from both ends.
pub open spec fn trim_seq(s: Seq<char>) -> Seq<char> {
    trim_end_seq(trim_start_seq(s))
}

/// Number of leading whitespace characters.
pub fn trim_start_count(s: &[char]) -> (i: usize)
    ensures
        i <= s.len(),
        trim_start_seq(s@) == s@.skip(i as int),
{
    let mut i: usize = 0;
    assert(s@.skip(0) == s@);
    while i < s.len() && is_whitespace(s[i])
        invariant
            i <= s.len(),
            trim_start_seq(s@) == trim_start_seq(s@.skip(i as int)),
        decreases s.len() - i,
    {
        assert(s@.skip(i as int).drop_first() == s@.skip(i + 1));
        i += 1;
    }
    i
}

/// End of `s[from..]` once trailing whitespace is removed.
pub fn trim_end_bound(s: &[char], from: usize) -> (j: usize)
    requires
        from <= s.len(),
    ensures
        from <= j <= s.len(),
        trim_end_seq(s@.skip(from as int)) == s@.subrange(from as int, j as int),
{
    let mut j: usize = s.len();
    assert(s@.skip(from as int) == s@.subrange(from as int, s@.len() as int));
    while j > from && is_whitespace(s[j - 1])
        invariant
            from <= j <= s.len(),
            trim_end_seq(s@.skip(from as int)) == trim_end_seq(s@.subrange(from as int, j as int)),
        decreases j,
    {
        assert(s@.subrange(from as int, j as int).drop_last() == s@.subrange(
            from as int,
            j - 1,
        ));
        j -= 1;
    }
    j
}

/// `str::trim` on a character vector.
pub fn trim_chars(s: &[char]) -> (r: Vec<char>)
    ensures
        r@ == trim_seq(s@),
{
    let i = trim_start_count(s);
    let j = trim_end_bound(s, i);
    sub_vec(s, i, j)
}

/// `str::trim_start` on a character vector.
pub fn trim_start_chars(s: &[char]) -> (r: Vec<char>)
    ensures
        r@ == trim_start_seq(s@),
{
    let i = trim_start_count(s);
    assert(s@.skip(i as int) == s@.subrange(i as int, s@.len() as int));
    sub_vec(s, i, s.len())
}

/// `str::trim_end` on a character vector.
pub fn trim_end_chars(s: &[char]) -> (r: Vec<char>)
    ensures
        r@ == trim_end_seq(s@),
{
    let j = trim_end_bound(s, 0);
    assert(s@.skip(0) == s@);
    sub_vec(s, 0, j)
}

/// True when `s` is empty once trimmed.
pub open spec fn is_blank(s: Seq<char>) -> bool {
    trim_seq(s).len() == 0
}

pub fn blank(s: &[char]) -> (r: bool)
    ensures
        r == is_blank(s@),
{
    let i = trim_start_count(s);
    let j = trim_end_bound(s, i);
    i == j
}

// ---------------------------------------------------------------------------
// ASCII case
// ---------------------------------------------------------------------------

pub open spec fn is_ascii_upper(c: char) -> bool {
    'A' <= c && c <= 'Z'
}

/// `char::to_ascii_lowercase`.
pub open spec fn ascii_lower(c: char) -> char {
    if is_ascii_upper(c) {
        ((c as u32) + 32) as char
    } else {
        c
    }
}

/// `char::to_ascii_uppercase`.
pub open spec fn ascii_upper(c: char) -> char {
    if 'a' <= c && c <= 'z' {
        ((c as u32) - 32) as char
    } else {
        c
    }
}

pub open spec fn ascii_lower_seq(s: Seq<char>) -> Seq<char> {
    s.map_values(|c: char| ascii_lower(c))
}

/// `str::eq_ignore_ascii_case`.
pub open spec fn eq_ignore_ascii_case(a: Seq<char>, b: Seq<char>) -> bool {
    ascii_lower_seq(a) == ascii_lower_seq(b)
}

pub fn to_ascii_lower(c: char) -> (r: char)
    ensures
        r == ascii_lower(c),
{
    if 'A' <= c && c <= 'Z' {
        ((c as u8) + 32) as char
    } else {
        c
    }
}

pub fn to_ascii_upper(c: char) -> (r: char)
    ensures
        r == ascii_upper(c),
{
    if 'a' <= c && c <= 'z' {
        ((c as u8) - 32) as char
    } else {
        c
    }
}

/// `str::to_ascii_lowercase` on a character vector.
pub fn ascii_lowercase_chars(s: &[char]) -> (r: Vec<char>)
    ensures
        r@ == ascii_lower_seq(s@),
{
    let mut r: Vec<char> = Vec::new();
    let mut i: usize = 0;
    while i < s.len()
        invariant
            i <= s.len(),
            r@ == ascii_lower_seq(s@.take(i as int)),
        decreases s.len() - i,
    {
        r.push(to_ascii_lower(s[i]));
        assert(ascii_lower_seq(s@.take(i + 1)) == ascii_lower_seq(s@.take(i as int)).push(
            ascii_lower(s@[i as int]),
        ));
        i += 1;
    }
    assert(s@.take(s.len() as int) == s@);
    r
}

pub fn eq_ignore_case(a: &[char], b: &[char]) -> (r: bool)
    ensures
        r == eq_ignore_ascii_case(a@, b@),
{
    if a.len() != b.len() {
        assert(ascii_lower_seq(a@).len() != ascii_lower_seq(b@).len());
        return false;
    }
    let mut i: usize = 0;
    while i < a.len()
        invariant
            a.len() == b.len(),
            i <= a.len(),
            forall|k: int| 0 <= k < i ==> ascii_lower(a@[k]) == ascii_lower(b@[k]),
        decreases a.len() - i,
    {
        if to_ascii_lower(a[i]) != to_ascii_lower(b[i]) {
            assert(ascii_lower_seq(a@)[i as int] != ascii_lower_seq(b@)[i as int]);
            return false;
        }
        i += 1;
    }
    assert(ascii_lower_seq(a@) =~= ascii_lower_seq(b@));
    true
}

// ---------------------------------------------------------------------------
// Replacement and joining
// ---------------------------------------------------------------------------

/// `str::replace`: every non-overlapping occurrence of `pat`, scanning left to
/// right, replaced by `rep`.
pub open spec fn replace_seq(s: Seq<char>, pat: Seq<char>, rep: Seq<char>) -> Seq<char>
    decreases s.len(),
{
    if pat.len() == 0 || s.len() < pat.len() {
        s
    } else if s.take(pat.len() as int) == pat {
        rep + replace_seq(s.skip(pat.len() as int), pat, rep)
    } else {
        seq![s[0]] + replace_seq(s.drop_first(), pat, rep)
    }
}

pub fn replace_chars(s: &[char], pat: &[char], rep: &[char]) -> (r: Vec<char>)
    requires
        pat.len() > 0,
    ensures
        r@ == replace_seq(s@, pat@, rep@),
{
    let mut out: Vec<char> = Vec::new();
    let mut i: usize = 0;
    assert(s@.skip(0) == s@);
    while i < s.len()
        invariant
            pat.len() > 0,
            i <= s.len(),
            replace_seq(s@, pat@, rep@) == out@ + replace_seq(s@.skip(i as int), pat@, rep@),
        decreases s.len() - i,
    {
        let ghost rest = s@.skip(i as int);
        if match_at(s, pat, i) {
            assert(rest.take(pat@.len() as int) == s@.subrange(i as int, i + pat@.len()));
            assert(rest.skip(pat@.len() as int) == s@.skip(i + pat@.len()));
            let ghost before = out@;
            extend_chars(&mut out, rep);
            assert(before + (rep@ + replace_seq(rest.skip(pat@.len() as int), pat@, rep@))
                == out@ + replace_seq(s@.skip(i + pat@.len()), pat@, rep@));
            i = i + pat.len();
        } else {
            assert(rest.len() >= pat@.len() ==> rest.take(pat@.len() as int) == s@.subrange(
                i as int,
                i + pat@.len(),
            ));
            assert(rest.drop_first() == s@.skip(i + 1));
            let ghost before = out@;
            out.push(s[i]);
            assert(replace_seq(rest, pat@, rep@) == seq![s@[i as int]] + replace_seq(
                s@.skip(i + 1),
                pat@,
                rep@,
            ));
            assert(before + (seq![s@[i as int]] + replace_seq(s@.skip(i + 1), pat@, rep@))
                == out@ + replace_seq(s@.skip(i + 1), pat@, rep@));
            i = i + 1;
        }
    }
    assert(s@.skip(i as int).len() == 0);
    assert(out@ + s@.skip(i as int) == out@);
    out
}

/// The character sequences held by a vector of character vectors.
pub open spec fn seqs_of(v: Seq<Vec<char>>) -> Seq<Seq<char>> {
    v.map_values(|w: Vec<char>| w@)
}

/// Items joined with `sep` between consecutive items.
pub open spec fn join_seq(items: Seq<Seq<char>>, sep: Seq<char>) -> Seq<char>
    decreases items.len(),
{
    if items.len() == 0 {
        Seq::empty()
    } else if items.len() == 1 {
        items[0]
    } else {
        join_seq(items.drop_last(), sep) + sep + items.last()
    }
}

pub fn join_chars(items: &Vec<Vec<char>>, sep: &[char]) -> (r: Vec<char>)
    ensures
        r@ == join_seq(seqs_of(items@), sep@),
{
    let mut out: Vec<char> = Vec::new();
    let mut i: usize = 0;
    while i < items.len()
        invariant
            i <= items.len(),
            out@ == join_seq(seqs_of(items@).take(i as int), sep@),
        decreases items.len() - i,
    {
        assert(seqs_of(items@).take(i + 1).drop_last() == seqs_of(items@).take(i as int));
        if i > 0 {
            extend_chars(&mut out, sep);
        }
        extend_chars(&mut out, &items[i]);
                i += 1;
    }
    assert(seqs_of(items@).take(items.len() as int) == seqs_of(items@));
    out
}

// ---------------------------------------------------------------------------
// Splitting into words
// ---------------------------------------------------------------------------

/// Which characters make up a word.
#[derive(Clone, Copy, PartialEq, Eq, Debug)]
pub enum WordChars {
    /// `char::is_alphanumeric` runs.
    Alphanumeric,
    /// Alphanumerics plus apostrophe and hyphen.
    Token,
    /// Everything but whitespace (`str::split_whitespace`).
    NonSpace,
    /// Everything but the given separator (`str::split`, empty pieces dropped).
    Except(char),
}

pub open spec fn in_word(kind: WordChars, c: char) -> bool {
    match kind {
        WordChars::Alphanumeric => char_is_alphanumeric(c),
        WordChars::Token => char_is_alphanumeric(c) || c == '\'' || c == '-',
        WordChars::NonSpace => !char_is_whitespace(c),
        WordChars::Except(sep) => c != sep,
    }
}

pub fn is_word_char(kind: WordChars, c: char) -> (r: bool)
    ensures
        r == in_word(kind, c),
{
    match kind {
        WordChars::Alphanumeric => is_alphanumeric(c),
        WordChars::Token => is_alphanumeric(c) || c == '\'' || c == '-',
        WordChars::NonSpace => !is_whitespace(c),
        WordChars::Except(sep) => c != sep,
    }
}

/// Completed words and the word in progress after scanning `s`.
pub open spec fn split_state(s: Seq<char>, kind: WordChars) -> (Seq<Seq<char>>, Seq<char>)
    decreases s.len(),
{
    if s.len() == 0 {
        (Seq::empty(), Seq::empty())
    } else {
        let prev = split_state(s.drop_last(), kind);
        let c = s.last();
        if in_word(kind, c) {
            (prev.0, prev.1.push(c))
        } else if prev.1.len() > 0 {
            (prev.0.push(prev.1), Seq::empty())
        } else {
            prev
        }
    }
}

/// The maximal runs of word characters in `s`, in order
/// (`s.split(|c| !in_word(c)).filter(|w| !w.is_empty())`).
pub open spec fn split_words(s: Seq<char>, kind: WordChars) -> Seq<Seq<char>> {
    let st = split_state(s, kind);
    if st.1.len() > 0 {
        st.0.push(st.1)
    } else {
        st.0
    }
}

pub fn split_words_chars(s: &[char], kind: WordChars) -> (r: Vec<Vec<char>>)
    ensures
        seqs_of(r@) == split_words(s@, kind),
{
    let mut words: Vec<Vec<char>> = Vec::new();
    let mut cur: Vec<char> = Vec::new();
    let mut i: usize = 0;
    while i < s.len()
        invariant
            i <= s.len(),
            seqs_of(words@) == split_state(s@.take(i as int), kind).0,
            cur@ == split_state(s@.take(i as int), kind).1,
        decreases s.len() - i,
    {
        let c = s[i];
        assert(s@.take(i + 1).drop_last() == s@.take(i as int));
        assert(s@.take(i + 1).last() == c);
        if is_word_char(kind, c) {
            cur.push(c);
        } else if cur.len() > 0 {
            let ghost old_words = words@;
            let w = cur;
            words.push(w);
            assert(seqs_of(words@) =~= seqs_of(old_words).push(w@));
            cur = Vec::new();
        }
        i += 1;
    }
    assert(s@.take(s.len() as int) == s@);
    if cur.len() > 0 {
        let ghost old_words = words@;
        let w = cur;
        words.push(w);
        assert(seqs_of(words@) =~= seqs_of(old_words).push(w@));
    }
    words
}

/// Characters of `s` rendered as a `String` for each word.
pub fn strings_of(words: &Vec<Vec<char>>) -> (r: Vec<String>)
    ensures
        r.len() == words.len(),
        forall|i: int| 0 <= i < r.len() ==> #[trigger] r@[i]@ == words@[i]@,
{
    let mut r: Vec<String> = Vec::new();
    let mut i: usize = 0;
    while i < words.len()
        invariant
            i <= words.len(),
            r.len() == i,
            forall|k: int| 0 <= k < i ==> #[trigger] r@[k]@ == words@[k]@,
        decreases words.len() - i,
    {
        r.push(string_of(&words[i]));
        i += 1;
    }
    r
}

// ---------------------------------------------------------------------------
// Decimal numbers and concatenation
// ---------------------------------------------------------------------------

/// The ASCII digit for `d` in `0..10`.
pub open spec fn digit_char(d: int) -> char {
    if d == 0 {
        '0'
    } else if d == 1 {
        '1'
    } else if d == 2 {
        '2'
    } else if d == 3 {
        '3'
    } else if d == 4 {
        '4'
    } else if d == 5 {
        '5'
    } else if d == 6 {
        '6'
    } else if d == 7 {
        '7'
    } else if d == 8 {
        '8'
    } else {
        '9'
    }
}

/// The decimal representation of `n`, without leading zeros (`"0"` for zero).
pub open spec fn decimal(n: nat) -> Seq<char>
    decreases n,
{
    if n < 10 {
        seq![digit_char(n as int)]
    } else {
        decimal(n / 10).push(digit_char((n % 10) as int))
    }
}

pub fn digit(d: u64) -> (c: char)
    requires
        d < 10,
    ensures
        c == digit_char(d as int),
{
    if d == 0 {
        '0'
    } else if d == 1 {
        '1'
    } else if d == 2 {
        '2'
    } else if d == 3 {
        '3'
    } else if d == 4 {
        '4'
    } else if d == 5 {
        '5'
    } else if d == 6 {
        '6'
    } else if d == 7 {
        '7'
    } else if d == 8 {
        '8'
    } else {
        '9'
    }
}

/// Append the decimal representation of `n`.
pub fn push_decimal(out: &mut Vec<char>, n: u64)
    ensures
        final(out)@ == old(out)@ + decimal(n as nat),
    decreases n,
{
    if n >= 10 {
        push_decimal(out, n / 10);
    }
    out.push(digit(n % 10));
    assert(old(out)@ + decimal(n as nat) =~= (old(out)@ + (if n >= 10 {
        decimal((n / 10) as nat)
    } else {
        Seq::empty()
    })).push(digit_char((n % 10) as int)));
}

/// `n.to_string()` for an unsigned integer.
pub fn decimal_string(n: u64) -> (r: String)
    ensures
        r@ == decimal(n as nat),
{
    let mut v: Vec<char> = Vec::new();
    push_decimal(&mut v, n);
    assert(Seq::<char>::empty() + decimal(n as nat) =~= decimal(n as nat));
    string_of(&v)
}

/// The first `n` characters of `s` (all of `s` when it is shorter):
/// `s.chars().take(n).collect()`.
pub fn take_chars(s: &str, n: usize) -> (r: String)
    ensures
        r@ == (if s@.len() <= n { s@ } else { s@.take(n as int) }),
{
    let v = chars_of(s);
    if v.len() <= n {
        string_of(&v)
    } else {
        let w = sub_vec(&v, 0, n);
        assert(v@.subrange(0, n as int) == v@.take(n as int));
        string_of(&w)
    }
}

/// String equality by characters.
pub fn str_eq(a: &str, b: &str) -> (r: bool)
    ensures
        r == (a@ == b@),
{
    let x = chars_of(a);
    let y = chars_of(b);
    chars_eq(&x, &y)
}

/// Do the characters spell `lit`?
pub fn eq_lit(v: &[char], lit: &str) -> (r: bool)
    ensures
        r == (v@ == lit@),
{
    let w = chars_of(lit);
    chars_eq(v, &w)
}

/// Leading whitespace removal drops a prefix, and what is left does not
/// start with whitespace.
pub proof fn lemma_trim_start_offset(s: Seq<char>) -> (a: int)
    ensures
        0 <= a <= s.len(),
        trim_start_seq(s) == s.skip(a),
        trim_start_seq(s).len() > 0 ==> !char_is_whitespace(trim_start_seq(s)[0]),
    decreases s.len(),
{
    if s.len() > 0 && char_is_whitespace(s[0]) {
        let b = lemma_trim_start_offset(s.drop_first());
        assert(s.drop_first().skip(b) =~= s.skip(b + 1));
        b + 1
    } else {
        assert(s.skip(0) =~= s);
        0
    }
}

/// Trailing whitespace removal keeps a prefix, and what is left does not
/// end with whitespace.
pub proof fn lemma_trim_end_offset(s: Seq<char>) -> (b: int)
    ensures
        0 <= b <= s.len(),
        trim_end_seq(s) == s.take(b),
        trim_end_seq(s).len() > 0 ==> !char_is_whitespace(trim_end_seq(s).last()),
    decreases s.len(),
{
    if s.len() > 0 && char_is_whitespace(s.last()) {
        let b = lemma_trim_end_offset(s.drop_last());
        assert(s.drop_last().take(b) =~= s.take(b));
        b
    } else {
        assert(s.take(s.len() as int) =~= s);
        s.len() as int
    }
}

/// Trimming keeps a contiguous part of the text: `s[a..b]`.
pub proof fn lemma_trim_range(s: Seq<char>) -> (ab: (int, int))
    ensures
        0 <= ab.0 <= ab.1 <= s.len(),
        trim_seq(s) == s.subrange(ab.0, ab.1),
{
    let a = lemma_trim_start_offset(s);
    let t = s.skip(a);
    let b = lemma_trim_end_offset(t);
    assert(t.take(b) =~= s.subrange(a, a + b));
    (a, a + b)
}

/// Trimmed text is its own trim.
pub proof fn lemma_trim_idempotent(s: Seq<char>)
    ensures
        trim_seq(trim_seq(s)) == trim_seq(s),
{
    let a = lemma_trim_start_offset(s);
    let t = trim_start_seq(s);
    let b = lemma_trim_end_offset(t);
    let y = trim_seq(s);
    if y.len() > 0 {
        assert(y[0] == t[0]);
        assert(trim_start_seq(y) == y);
        assert(trim_end_seq(y) == y);
    } else {
        assert(trim_start_seq(y) == y);
    }
}

pub proof fn lemma_split_state_shorter(s: Seq<char>, kind: WordChars)
    ensures
        forall|k: int|
            0 <= k < split_state(s, kind).0.len() ==> #[trigger] split_state(s, kind).0[k].len()
                <= s.len(),
        split_state(s, kind).1.len() <= s.len(),
    decreases s.len(),
{
    if s.len() > 0 {
        lemma_split_state_shorter(s.drop_last(), kind);
    }
}

/// No word is longer than the text it was split from.
pub proof fn lemma_split_words_shorter(s: Seq<char>, kind: WordChars)
    ensures
        forall|k: int|
            0 <= k < split_words(s, kind).len() ==> #[trigger] split_words(s, kind)[k].len() <= s.len(),
{
    lemma_split_state_shorter(s, kind);
}

} // verus!
