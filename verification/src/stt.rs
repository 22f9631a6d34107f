//! Realtime speech-to-text client logic: API-key rotation, the wire messages
//! and the WebSocket URL, and how connection failures are classified.
use vstd::prelude::*;
use vstd::string::*;
use vstd::utf8::encode_utf8;
use crate::text::{
    chars_of, decimal, decimal_string, digit_char, is_ascii_digit, match_at,
    matches_at, str_eq, string_of, trim_chars, extend_chars, digit,
};
use crate::json::{json_field, json_field_at, json_quote, json_quoted, JsonField, JsonFieldView};
use crate::completion::{CloudError, CloudErrorView};
use crate::prompt::{nonempty_trimmed, strings_view};
use crate::settings::SttSettings;
use crate::codec::{base64_encode, base64_standard};

verus! {

// ---------------------------------------------------------------------------
// Errors that rotate to the next key
// ---------------------------------------------------------------------------

/// Failures that make the client move on to the next API key.
#[derive(Debug, Clone, Copy, PartialEq, Eq, Structural)]
pub enum RotatableError {
    Auth,
    Quota,
    RateLimited,
    ResourceExhausted,
    /// HTTP 401 / 403 / 429 at the WebSocket handshake.
    HandshakeAuthOrRate,
}

pub open spec fn rotatable_message_type(t: Seq<char>) -> Option<RotatableError> {
    if t == "auth_error"@ {
        Some(RotatableError::Auth)
    } else if t == "quota_exceeded"@ {
        Some(RotatableError::Quota)
    } else if t == "rate_limited"@ {
        Some(RotatableError::RateLimited)
    } else if t == "resource_exhausted"@ {
        Some(RotatableError::ResourceExhausted)
    } else {
        None
    }
}

pub open spec fn rotatable_status_code(status: u16) -> bool {
    status == 401 || status == 403 || status == 429
}

impl RotatableError {
    /// The rotation reason carried by a server error message type.
    pub fn from_message_type(message_type: &str) -> (r: Option<RotatableError>)
        ensures
            r == rotatable_message_type(message_type@),
    {
        if str_eq(message_type, "auth_error") {
            Some(RotatableError::Auth)
        } else if str_eq(message_type, "quota_exceeded") {
            Some(RotatableError::Quota)
        } else if str_eq(message_type, "rate_limited") {
            Some(RotatableError::RateLimited)
        } else if str_eq(message_type, "resource_exhausted") {
            Some(RotatableError::ResourceExhausted)
        } else {
            None
        }
    }

    /// Handshake statuses that rotate: 401, 403 and 429.
    pub fn from_http_status(status: u16) -> (r: Option<RotatableError>)
        ensures
            r == (if rotatable_status_code(status) {
                Some(RotatableError::HandshakeAuthOrRate)
            } else {
                None
            }),
    {
        if status == 401 || status == 403 || status == 429 {
            Some(RotatableError::HandshakeAuthOrRate)
        } else {
            None
        }
    }
}

// ---------------------------------------------------------------------------
// Key rotation
// ---------------------------------------------------------------------------

/// Ordered API keys, each tried at most once per utterance.
#[derive(Debug)]
pub struct KeyRotator {
    keys: Vec<String>,
    /// Keys that have failed so far.
    tried: usize,
    last_error: Option<String>,
}

pub struct KeyRotatorView {
    pub keys: Seq<Seq<char>>,
    pub tried: nat,
    pub last_error: Option<Seq<char>>,
}

impl View for KeyRotator {
    type V = KeyRotatorView;

    closed spec fn view(&self) -> KeyRotatorView {
        KeyRotatorView {
            keys: strings_view(self.keys@),
            tried: self.tried as nat,
            last_error: match self.last_error {
                Some(e) => Some(e@),
                None => None,
            },
        }
    }
}

/// The failure count after one more failure: it stops at the number of keys
/// (every key has failed; further failures change nothing).
pub open spec fn tried_after(v: KeyRotatorView) -> nat {
    if v.tried < v.keys.len() {
        v.tried + 1
    } else {
        v.tried
    }
}

/// The key in use: the one after the failed ones, or the last key once all
/// have failed.
pub open spec fn current_index(v: KeyRotatorView) -> int {
    if v.tried < v.keys.len() {
        v.tried as int
    } else {
        v.keys.len() - 1
    }
}

impl KeyRotator {
    #[verifier::type_invariant]
    spec fn has_keys(&self) -> bool {
        self.keys.len() > 0 && self.tried <= self.keys.len()
    }

    /// Keys are trimmed and blank ones dropped; with none left the rotator
    /// cannot be built.
    pub fn new(keys: Vec<String>) -> (r: Result<KeyRotator, CloudError>)
        ensures
            r is Ok <==> nonempty_trimmed(strings_view(keys@)).len() > 0,
            r matches Ok(k) ==> k@.keys == nonempty_trimmed(strings_view(keys@)) && k@.tried == 0
                && k@.last_error is None,
            r matches Err(e) ==> e@ == CloudErrorView::NoApiKeys,
    {
        let mut kept: Vec<String> = Vec::new();
        let mut i: usize = 0;
        while i < keys.len()
            invariant
                i <= keys.len(),
                strings_view(kept@) == nonempty_trimmed(strings_view(keys@).take(i as int)),
            decreases keys.len() - i,
        {
            assert(strings_view(keys@).take(i + 1).drop_last() == strings_view(keys@).take(
                i as int,
            ));
            let t = trim_chars(&chars_of(keys[i].as_str()));
            if t.len() > 0 {
                let ghost before = kept@;
                kept.push(string_of(&t));
                assert(strings_view(kept@) =~= strings_view(before).push(t@));
            }
            i += 1;
        }
        assert(strings_view(keys@).take(keys.len() as int) == strings_view(keys@));
        if kept.len() == 0 {
            return Err(CloudError::NoApiKeys);
        }
        Ok(KeyRotator { keys: kept, tried: 0, last_error: None })
    }

    /// The key to use now.
    pub fn current_key(&self) -> (r: &str)
        ensures
            r@ == self@.keys[current_index(self@)],
    {
        proof {
            use_type_invariant(self);
        }
        let i = if self.tried < self.keys.len() {
            self.tried
        } else {
            self.keys.len() - 1
        };
        self.keys[i].as_str()
    }

    /// The most recent failure, if any.
    pub fn last_error(&self) -> (r: Option<&str>)
        ensures
            match r {
                Some(s) => self@.last_error == Some(s@),
                None => self@.last_error is None,
            },
    {
        match &self.last_error {
            Some(e) => Some(e.as_str()),
            None => None,
        }
    }

    /// Number of keys that have failed.
    pub fn tried(&self) -> (r: usize)
        ensures
            r == self@.tried,
    {
        self.tried
    }

    /// Record a failure on the current key. While keys remain untried the
    /// next one becomes current and is returned; a failure on the last key
    /// of the cycle returns `None`.
    pub fn fail_and_advance(&mut self, error: &str) -> (r: Option<&str>)
        ensures
            final(self)@.keys == old(self)@.keys,
            final(self)@.tried == tried_after(old(self)@),
            final(self)@.tried <= final(self)@.keys.len(),
            final(self)@.last_error == Some(error@),
            r is Some <==> old(self)@.tried + 1 < old(self)@.keys.len(),
            r matches Some(k) ==> k@ == final(self)@.keys[current_index(final(self)@)],
    {
        proof {
            use_type_invariant(&*self);
        }
        self.last_error = Some(String::from_str(error));
        if self.tried < self.keys.len() {
            self.tried = self.tried + 1;
        }
        if self.tried >= self.keys.len() {
            return None;
        }
        Some(self.current_key())
    }

    /// The error reported once every key has failed, carrying the last failure.
    pub fn aggregate_error(&self) -> (e: CloudError)
        ensures
            e@ == CloudErrorView::AllKeysFailed(
                match self@.last_error {
                    Some(m) => m,
                    None => "unknown error"@,
                },
            ),
    {
        match &self.last_error {
            Some(m) => CloudError::AllKeysFailed(m.clone()),
            None => CloudError::AllKeysFailed(String::from_str("unknown error")),
        }
    }
}

/// The rotator after `j` more failures (keys and counter).
pub open spec fn after_failures(v: KeyRotatorView, j: nat) -> KeyRotatorView
    decreases j,
{
    if j == 0 {
        v
    } else {
        let w = after_failures(v, (j - 1) as nat);
        KeyRotatorView { tried: tried_after(w), ..w }
    }
}

/// A full cycle: from a fresh rotator over `n` keys, after `j` failures the
/// counter is `min(j, n)` and key `min(j, n - 1)` is current; the next
/// failure hands out a key exactly when `j + 1 < n`. So a rotator yields the
/// `n - 1` further keys in order and then nothing, ever.
pub proof fn lemma_rotation_walks_keys_in_order(v: KeyRotatorView, j: nat)
    requires
        v.keys.len() > 0,
        v.tried == 0,
    ensures
        after_failures(v, j).keys == v.keys,
        after_failures(v, j).tried == (if j < v.keys.len() {
            j
        } else {
            v.keys.len()
        }),
        current_index(after_failures(v, j)) == (if j < v.keys.len() {
            j as int
        } else {
            v.keys.len() - 1
        }),
        (after_failures(v, j).tried + 1 < v.keys.len()) <==> (j + 1 < v.keys.len()),
    decreases j,
{
    if j > 0 {
        lemma_rotation_walks_keys_in_order(v, (j - 1) as nat);
    }
}

/// Record a failure that the next key may cure. `Ok` means another key is
/// ready; after a failure on the last key of the cycle the aggregate error is
/// returned.
pub fn rotate_after_failure(rotator: &mut KeyRotator, detail: &str) -> (r: Result<(), CloudError>)
    ensures
        final(rotator)@.keys == old(rotator)@.keys,
        final(rotator)@.tried == tried_after(old(rotator)@),
        final(rotator)@.last_error == Some(detail@),
        r is Ok <==> old(rotator)@.tried + 1 < old(rotator)@.keys.len(),
        r matches Err(e) ==> e@ == CloudErrorView::AllKeysFailed(detail@),
{
    if rotator.fail_and_advance(detail).is_none() {
        return Err(rotator.aggregate_error());
    }
    Ok(())
}

// ---------------------------------------------------------------------------
// Server messages
// ---------------------------------------------------------------------------

/// A message from the speech-to-text server, discriminated by `message_type`.
#[derive(Debug, Clone)]
pub struct ServerMessage {
    pub message_type: String,
    pub text: Option<String>,
    pub error: Option<String>,
    pub session_id: Option<String>,
}

/// An optional string field: absent or `null` is `None`, a string is kept,
/// anything else makes the message malformed (`None` at the outer level).
pub open spec fn optional_text(f: Result<JsonFieldView, Seq<char>>) -> Option<Option<Seq<char>>> {
    match f {
        Ok(JsonFieldView::Missing) => Some(None),
        Ok(JsonFieldView::Null) => Some(None),
        Ok(JsonFieldView::Text(s)) => Some(Some(s)),
        _ => None,
    }
}

pub open spec fn opt_view(o: Option<String>) -> Option<Seq<char>> {
    match o {
        Some(s) => Some(s@),
        None => None,
    }
}

/// Does the message body parse as a server message? Its `message_type` must
/// be a string and `text`, `error` and `session_id` strings or absent.
pub open spec fn well_formed_message(raw: Seq<char>) -> bool {
    &&& json_field_at(raw, "/message_type"@) matches Ok(JsonFieldView::Text(_))
    &&& optional_text(json_field_at(raw, "/text"@)) is Some
    &&& optional_text(json_field_at(raw, "/error"@)) is Some
    &&& optional_text(json_field_at(raw, "/session_id"@)) is Some
}

/// Why an optional string field makes a message malformed: the parser's
/// error, or a value that is not a string.
pub open spec fn field_error(f: Result<JsonFieldView, Seq<char>>, name: Seq<char>) -> Seq<char> {
    match f {
        Err(m) => m,
        _ => "invalid type for field `"@ + name + "`"@,
    }
}

/// Why a message body is not a server message (meaningful when it is not
/// well formed): the first field, in the order `message_type`, `text`,
/// `error`, `session_id`, that is wrong.
pub open spec fn message_error(raw: Seq<char>) -> Seq<char> {
    match json_field_at(raw, "/message_type"@) {
        Ok(JsonFieldView::Text(_)) => if optional_text(json_field_at(raw, "/text"@)) is None {
            field_error(json_field_at(raw, "/text"@), "text"@)
        } else if optional_text(json_field_at(raw, "/error"@)) is None {
            field_error(json_field_at(raw, "/error"@), "error"@)
        } else {
            field_error(json_field_at(raw, "/session_id"@), "session_id"@)
        },
        Ok(JsonFieldView::Missing) => "missing field `message_type`"@,
        Ok(_) => "invalid type for field `message_type`"@,
        Err(m) => m,
    }
}

fn optional_field(raw: &str, pointer: &str, name: &str) -> (r: Result<Option<String>, CloudError>)
    ensures
        match optional_text(json_field_at(raw@, pointer@)) {
            Some(o) => r matches Ok(v) && opt_view(v) == o,
            None => r matches Err(e) && e@ == CloudErrorView::Json(field_error(json_field_at(raw@, pointer@), name@)),
        },
{
    match json_field(raw, pointer) {
        Ok(JsonField::Missing) => Ok(None),
        Ok(JsonField::Null) => Ok(None),
        Ok(JsonField::Text(s)) => Ok(Some(s)),
        Ok(_) => {
            let mut m = String::from_str("invalid type for field `");
            m.append(name);
            m.append("`");
            Err(CloudError::Json(m))
        },
        Err(e) => Err(CloudError::Json(e)),
    }
}

impl ServerMessage {
    /// Parse one server message.
    pub fn parse(raw: &str) -> (r: Result<ServerMessage, CloudError>)
        ensures
            r is Ok <==> well_formed_message(raw@),
            r matches Ok(m) ==> json_field_at(raw@, "/message_type"@) == Ok::<
                JsonFieldView,
                Seq<char>,
            >(JsonFieldView::Text(m.message_type@)) && optional_text(
                json_field_at(raw@, "/text"@),
            ) == Some(opt_view(m.text)) && optional_text(json_field_at(raw@, "/error"@)) == Some(
                opt_view(m.error),
            ) && optional_text(json_field_at(raw@, "/session_id"@)) == Some(
                opt_view(m.session_id),
            ),
            r matches Err(e) ==> e@ == CloudErrorView::Json(message_error(raw@)),
    {
        let message_type = match json_field(raw, "/message_type") {
            Ok(JsonField::Text(s)) => s,
            Ok(JsonField::Missing) => {
                return Err(CloudError::Json(String::from_str("missing field `message_type`")));
            },
            Ok(_) => {
                return Err(
                    CloudError::Json(String::from_str("invalid type for field `message_type`")),
                );
            },
            Err(e) => {
                return Err(CloudError::Json(e));
            },
        };
        let text = optional_field(raw, "/text", "text")?;
        let error = optional_field(raw, "/error", "error")?;
        let session_id = optional_field(raw, "/session_id", "session_id")?;
        Ok(ServerMessage { message_type, text, error, session_id })
    }
}

// ---------------------------------------------------------------------------
// Client audio messages
// ---------------------------------------------------------------------------

/// The `input_audio_chunk` message for 16 kHz PCM, keys in sorted order.
pub open spec fn audio_chunk_message(pcm: Seq<u8>, commit: bool) -> Seq<char> {
    "{\"audio_base_64\":"@ + json_quoted(base64_standard(pcm)) + ",\"commit\":"@ + (if commit {
        "true"@
    } else {
        "false"@
    }) + ",\"message_type\":\"input_audio_chunk\",\"sample_rate\":16000}"@
}

/// Build the `input_audio_chunk` client message.
pub fn encode_audio_chunk(pcm_s16le: &[u8], commit: bool) -> (r: String)
    ensures
        r@ == audio_chunk_message(pcm_s16le@, commit),
{
    let b64 = base64_encode(pcm_s16le);
    let mut r = String::from_str("{\"audio_base_64\":");
    let q = json_quote(b64.as_str());
    r.append(q.as_str());
    r.append(",\"commit\":");
    if commit {
        r.append("true");
    } else {
        r.append("false");
    }
    r.append(",\"message_type\":\"input_audio_chunk\",\"sample_rate\":16000}");
    r
}

// ---------------------------------------------------------------------------
// URL
// ---------------------------------------------------------------------------

/// Bytes that stay as they are in a query value.
pub open spec fn unreserved(b: u8) -> bool {
    (65 <= b <= 90) || (97 <= b <= 122) || (48 <= b <= 57) || b == 45 || b == 95 || b == 46
        || b == 126
}

/// Upper-case hexadecimal digit.
pub open spec fn hex_digit(d: int) -> char {
    if d < 10 {
        digit_char(d)
    } else if d == 10 {
        'A'
    } else if d == 11 {
        'B'
    } else if d == 12 {
        'C'
    } else if d == 13 {
        'D'
    } else if d == 14 {
        'E'
    } else {
        'F'
    }
}

pub open spec fn percent_byte(b: u8) -> Seq<char> {
    if unreserved(b) {
        seq![b as char]
    } else {
        seq!['%', hex_digit((b / 16) as int), hex_digit((b % 16) as int)]
    }
}

/// Percent-encoding of UTF-8 bytes: unreserved bytes kept, others as `%XX`.
pub open spec fn percent_seq(bytes: Seq<u8>) -> Seq<char>
    decreases bytes.len(),
{
    if bytes.len() == 0 {
        Seq::empty()
    } else {
        percent_seq(bytes.drop_last()) + percent_byte(bytes.last())
    }
}

fn hex(d: u8) -> (c: char)
    requires
        d < 16,
    ensures
        c == hex_digit(d as int),
{
    if d < 10 {
        digit(d as u64)
    } else if d == 10 {
        'A'
    } else if d == 11 {
        'B'
    } else if d == 12 {
        'C'
    } else if d == 13 {
        'D'
    } else if d == 14 {
        'E'
    } else {
        'F'
    }
}

fn percent_encode(s: &str) -> (r: Vec<char>)
    ensures
        r@ == percent_seq(encode_utf8(s@)),
{
    let bytes = s.as_bytes();
    let mut out: Vec<char> = Vec::new();
    let mut i: usize = 0;
    while i < bytes.len()
        invariant
            i <= bytes.len(),
            bytes@ == encode_utf8(s@),
            out@ == percent_seq(bytes@.take(i as int)),
        decreases bytes.len() - i,
    {
        let b = bytes[i];
        assert(bytes@.take(i + 1).drop_last() == bytes@.take(i as int));
        let ghost before = out@;
        if (65 <= b && b <= 90) || (97 <= b && b <= 122) || (48 <= b && b <= 57) || b == 45 || b
            == 95 || b == 46 || b == 126 {
            out.push(b as char);
        } else {
            out.push('%');
            out.push(hex(b / 16));
            out.push(hex(b % 16));
        }
        assert(out@ =~= before + percent_byte(b));
        i += 1;
    }
    assert(bytes@.take(bytes.len() as int) == bytes@);
    out
}

/// The text without its trailing `/` characters.
pub open spec fn trim_trailing_slashes(s: Seq<char>) -> Seq<char>
    decreases s.len(),
{
    if s.len() > 0 && s.last() == '/' {
        trim_trailing_slashes(s.drop_last())
    } else {
        s
    }
}

/// `&keyterms=...` for each term, in order.
pub open spec fn keyterm_params(terms: Seq<Seq<char>>) -> Seq<char>
    decreases terms.len(),
{
    if terms.len() == 0 {
        Seq::empty()
    } else {
        keyterm_params(terms.drop_last()) + "&keyterms="@ + percent_seq(encode_utf8(terms.last()))
    }
}

/// The realtime endpoint URL with its query.
pub open spec fn ws_url(endpoint: Seq<char>, model_id: Seq<char>, language_code: Seq<char>, terms: Seq<
    Seq<char>,
>) -> Seq<char> {
    trim_trailing_slashes(endpoint) + "/v1/speech-to-text/realtime?model_id="@ + percent_seq(
        encode_utf8(model_id),
    ) + "&audio_format=pcm_16000&language_code="@ + percent_seq(encode_utf8(language_code))
        + "&commit_strategy=manual"@ + keyterm_params(terms)
}

/// Percent-encoding works byte by byte: the encoding of two byte strings
/// one after the other is the two encodings one after the other.
pub proof fn lemma_percent_concat(a: Seq<u8>, b: Seq<u8>)
    ensures
        percent_seq(a + b) == percent_seq(a) + percent_seq(b),
    decreases b.len(),
{
    if b.len() == 0 {
        assert(a + b =~= a);
        assert(percent_seq(a) + Seq::<char>::empty() =~= percent_seq(a));
    } else {
        lemma_percent_concat(a, b.drop_last());
        assert((a + b).drop_last() =~= a + b.drop_last());
        assert((a + b).last() == b.last());
        assert(percent_seq(a) + percent_seq(b.drop_last()) + percent_byte(b.last()) =~= percent_seq(a) + (
        percent_seq(b.drop_last()) + percent_byte(b.last())));
    }
}

/// Trailing slashes on the endpoint do not change the URL.
pub proof fn lemma_ws_url_ignores_trailing_slash(
    endpoint: Seq<char>,
    model_id: Seq<char>,
    language_code: Seq<char>,
    terms: Seq<Seq<char>>,
)
    ensures
        ws_url(endpoint.push('/'), model_id, language_code, terms) == ws_url(
            endpoint,
            model_id,
            language_code,
            terms,
        ),
{
    assert(endpoint.push('/').drop_last() =~= endpoint);
}

fn trim_trailing_slashes_chars(s: &str) -> (r: Vec<char>)
    ensures
        r@ == trim_trailing_slashes(s@),
{
    let v = chars_of(s);
    let mut j: usize = v.len();
    assert(v@.take(j as int) == v@);
    while j > 0 && v[j - 1] == '/'
        invariant
            j <= v.len(),
            trim_trailing_slashes(v@) == trim_trailing_slashes(v@.take(j as int)),
        decreases j,
    {
        assert(v@.take(j as int).drop_last() == v@.take(j - 1));
        j -= 1;
    }
    let mut r: Vec<char> = Vec::new();
    let mut k: usize = 0;
    while k < j
        invariant
            k <= j <= v.len(),
            r@ == v@.take(k as int),
        decreases j - k,
    {
        r.push(v[k]);
        assert(v@.take(k + 1) == v@.take(k as int).push(v@[k as int]));
        k += 1;
    }
    r
}

fn push_str(out: &mut Vec<char>, s: &str)
    ensures
        final(out)@ == old(out)@ + s@,
{
    let v = chars_of(s);
    extend_chars(out, &v);
}

/// Build the WebSocket URL from the settings and keyterms.
pub fn build_ws_url(settings: &SttSettings, keyterms: &[String]) -> (r: String)
    ensures
        r@ == ws_url(
            settings.endpoint@,
            settings.model_id@,
            settings.language_code@,
            strings_view(keyterms@),
        ),
{
    let mut out = trim_trailing_slashes_chars(settings.endpoint.as_str());
    push_str(&mut out, "/v1/speech-to-text/realtime?model_id=");
    let m = percent_encode(settings.model_id.as_str());
    extend_chars(&mut out, &m);
    push_str(&mut out, "&audio_format=pcm_16000&language_code=");
    let l = percent_encode(settings.language_code.as_str());
    extend_chars(&mut out, &l);
    push_str(&mut out, "&commit_strategy=manual");
    let ghost base = out@;
    let mut i: usize = 0;
    while i < keyterms.len()
        invariant
            i <= keyterms.len(),
            out@ == base + keyterm_params(strings_view(keyterms@).take(i as int)),
        decreases keyterms.len() - i,
    {
        assert(strings_view(keyterms@).take(i + 1).drop_last() == strings_view(keyterms@).take(
            i as int,
        ));
        push_str(&mut out, "&keyterms=");
        let t = percent_encode(keyterms[i].as_str());
        extend_chars(&mut out, &t);
        i += 1;
    }
    assert(strings_view(keyterms@).take(keyterms.len() as int) == strings_view(keyterms@));
    string_of(&out)
}

// ---------------------------------------------------------------------------
// Handshake failures
// ---------------------------------------------------------------------------

/// Index of the first occurrence of `p` in `s` at or after `from`, or -1.
/// `code` occurs at `i`, with no ASCII digit just before or just after it.
pub open spec fn standalone_at(s: Seq<char>, code: Seq<char>, i: int) -> bool {
    &&& matches_at(s, code, i)
    &&& (i == 0 || !is_ascii_digit(s[i - 1]))
    &&& (i + code.len() >= s.len() || !is_ascii_digit(s[i + code.len()]))
}

/// Does `code` occur somewhere as a number of its own (not inside a longer
/// run of digits)?
pub open spec fn code_standalone(s: Seq<char>, code: Seq<char>) -> bool {
    exists|i: int| #[trigger] standalone_at(s, code, i)
}

/// The rotating status named in a handshake error message: the first of 401,
/// 403 and 429 (in that order) that occurs somewhere as a number of its own.
pub open spec fn rotatable_status_in(s: Seq<char>) -> Option<u16> {
    if code_standalone(s, "401"@) {
        Some(401)
    } else if code_standalone(s, "403"@) {
        Some(403)
    } else if code_standalone(s, "429"@) {
        Some(429)
    } else {
        None
    }
}

fn is_digit(c: char) -> (r: bool)
    ensures
        r == is_ascii_digit(c),
{
    '0' <= c && c <= '9'
}

fn standalone(s: &[char], code: &str) -> (r: bool)
    ensures
        r == code_standalone(s@, code@),
{
    let p = chars_of(code);
    if p.len() > s.len() {
        assert forall|i: int| !#[trigger] standalone_at(s@, code@, i) by {}
        return false;
    }
    let last = s.len() - p.len();
    let mut at: usize = 0;
    loop
        invariant
            p@ == code@,
            last + p.len() == s.len(),
            at <= last,
            forall|j: int| 0 <= j < at ==> !#[trigger] standalone_at(s@, code@, j),
        ensures
            last + p.len() == s.len(),
            forall|j: int| 0 <= j <= last ==> !#[trigger] standalone_at(s@, code@, j),
        decreases last - at,
    {
        if match_at(s, &p, at) {
            let before_ok = at == 0 || !is_digit(s[at - 1]);
            let after = at + p.len();
            let after_ok = after >= s.len() || !is_digit(s[after]);
            if before_ok && after_ok {
                assert(standalone_at(s@, code@, at as int));
                return true;
            }
        }
        assert(!standalone_at(s@, code@, at as int));
        if at == last {
            break;
        }
        at += 1;
    }
    assert forall|i: int| !#[trigger] standalone_at(s@, code@, i) by {
        if i > last {
            assert(!matches_at(s@, code@, i));
        }
    }
    false
}

/// The HTTP status that triggers rotation, read from a handshake error
/// message; digits that are part of a longer number do not count.
pub fn parse_rotatable_http_status(msg: &str) -> (r: Option<u16>)
    ensures
        r == rotatable_status_in(msg@),
{
    let s = chars_of(msg);
    if standalone(&s, "401") {
        Some(401)
    } else if standalone(&s, "403") {
        Some(403)
    } else if standalone(&s, "429") {
        Some(429)
    } else {
        None
    }
}

/// Why a connection attempt failed.
#[derive(Debug, Clone)]
pub enum ConnectFailure {
    /// A status that rotates (401, 403, 429).
    Rotatable { status: u16, message: String },
    /// Anything else.
    Other(String),
}

/// The outcome of a completed handshake with the given status: `None` when
/// the connection is up (101 or 2xx).
pub fn classify_handshake_status(status: u16, status_text: &str) -> (r: Option<ConnectFailure>)
    ensures
        (status == 101 || (200 <= status <= 299)) <==> r is None,
        r matches Some(ConnectFailure::Rotatable { status: s, message }) ==> rotatable_status_code(
            status,
        ) && s == status && message@ == status_text@,
        r matches Some(ConnectFailure::Other(m)) ==> !rotatable_status_code(status) && m@
            == "handshake HTTP "@ + decimal(status as nat),
{
    if status == 101 || (200 <= status && status <= 299) {
        None
    } else if RotatableError::from_http_status(status).is_some() {
        Some(ConnectFailure::Rotatable { status, message: String::from_str(status_text) })
    } else {
        let mut m = String::from_str("handshake HTTP ");
        let d = decimal_string(status as u64);
        m.append(d.as_str());
        Some(ConnectFailure::Other(m))
    }
}

/// A connection error message: rotating when it names a rotating status.
pub fn classify_connect_error(message: String) -> (r: ConnectFailure)
    ensures
        match rotatable_status_in(message@) {
            Some(code) => r matches ConnectFailure::Rotatable { status, message: m } && status
                == code && m@ == message@,
            None => r matches ConnectFailure::Other(m) && m@ == message@,
        },
{
    match parse_rotatable_http_status(message.as_str()) {
        Some(code) => ConnectFailure::Rotatable { status: code, message },
        None => ConnectFailure::Other(message),
    }
}

/// The failure text recorded against the key.
pub open spec fn failure_detail(status: Option<u16>, message: Seq<char>) -> Seq<char> {
    match status {
        Some(code) => "handshake HTTP "@ + decimal(code as nat) + ": "@ + message,
        None => "connect: "@ + message,
    }
}

/// After a failed connection attempt: record it against the current key and
/// either retry with the next key (`Ok`) or give up with the aggregate error.
pub fn after_connect_failure(rotator: &mut KeyRotator, failure: &ConnectFailure) -> (r: Result<
    (),
    CloudError,
>)
    ensures
        final(rotator)@.keys == old(rotator)@.keys,
        final(rotator)@.tried == tried_after(old(rotator)@),
        final(rotator)@.last_error == Some(
            match failure {
                ConnectFailure::Rotatable { status, message } => failure_detail(
                    Some(*status),
                    message@,
                ),
                ConnectFailure::Other(m) => failure_detail(None, m@),
            },
        ),
        r is Ok <==> old(rotator)@.tried + 1 < old(rotator)@.keys.len(),
        r matches Err(e) ==> e@ == CloudErrorView::AllKeysFailed(final(rotator)@.last_error->0),
{
    let detail = match failure {
        ConnectFailure::Rotatable { status, message } => {
            let mut d = String::from_str("handshake HTTP ");
            let n = decimal_string(*status as u64);
            d.append(n.as_str());
            d.append(": ");
            d.append(message.as_str());
            d
        },
        ConnectFailure::Other(m) => {
            let mut d = String::from_str("connect: ");
            d.append(m.as_str());
            d
        },
    };
    rotate_after_failure(rotator, detail.as_str())
}

} // verus!
