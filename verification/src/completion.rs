//! The cloud error type and the chat-completion side of the language model
//! client: cleaning model output, reading completion and model-list
//! responses, and building the request body.
use vstd::prelude::*;
use vstd::string::*;
use vstd::utf8::encode_utf8;
use crate::text::{
    ascii_lower_seq, ascii_lowercase_chars, blank, chars_eq, chars_of, contains, decimal,
    decimal_string, ends_with, find_char, first_index_of, is_blank, seq_contains, seq_ends_with,
    seq_starts_with, seqs_of, starts_with, string_of, strings_of, sub_vec, take_chars, trim_chars,
    trim_end_chars, trim_end_seq, trim_seq, lemma_trim_end_offset, lemma_trim_range,
    lemma_trim_idempotent, matches_at, lemma_first_index_bounds,
};
use crate::json::{
    json_array_len, json_array_len_at, json_field, json_field_at, json_quote, json_quoted,
    lookup_view, JsonField, JsonFieldView,
};
use crate::order::{sort_lex, sorted_lex};

verus! {

// ---------------------------------------------------------------------------
// Errors
// ---------------------------------------------------------------------------

/// Errors produced by the speech-to-text and language-model clients.
#[derive(Debug)]
pub enum CloudError {
    Message(String),
    NoApiKeys,
    AllKeysFailed(String),
    SessionClosed,
    WebSocket(String),
    Http(String),
    Json(String),
    Groq(String),
    EmptyGroqResponse,
    Timeout(String),
}

pub enum CloudErrorView {
    Message(Seq<char>),
    NoApiKeys,
    AllKeysFailed(Seq<char>),
    SessionClosed,
    WebSocket(Seq<char>),
    Http(Seq<char>),
    Json(Seq<char>),
    Groq(Seq<char>),
    EmptyGroqResponse,
    Timeout(Seq<char>),
}

impl View for CloudError {
    type V = CloudErrorView;

    open spec fn view(&self) -> CloudErrorView {
        match self {
            CloudError::Message(s) => CloudErrorView::Message(s@),
            CloudError::NoApiKeys => CloudErrorView::NoApiKeys,
            CloudError::AllKeysFailed(s) => CloudErrorView::AllKeysFailed(s@),
            CloudError::SessionClosed => CloudErrorView::SessionClosed,
            CloudError::WebSocket(s) => CloudErrorView::WebSocket(s@),
            CloudError::Http(s) => CloudErrorView::Http(s@),
            CloudError::Json(s) => CloudErrorView::Json(s@),
            CloudError::Groq(s) => CloudErrorView::Groq(s@),
            CloudError::EmptyGroqResponse => CloudErrorView::EmptyGroqResponse,
            CloudError::Timeout(s) => CloudErrorView::Timeout(s@),
        }
    }
}

/// A text result seen through views.
pub open spec fn text_result(r: Result<String, CloudError>) -> Result<Seq<char>, CloudErrorView> {
    match r {
        Ok(s) => Ok(s@),
        Err(e) => Err(e@),
    }
}

/// The human-readable message of an error.
pub open spec fn error_text(e: CloudErrorView) -> Seq<char> {
    match e {
        CloudErrorView::Message(s) => s,
        CloudErrorView::NoApiKeys => "no ElevenLabs API keys configured"@,
        CloudErrorView::AllKeysFailed(s) => "All ElevenLabs keys failed: "@ + s,
        CloudErrorView::SessionClosed => "STT session closed before commit"@,
        CloudErrorView::WebSocket(s) => "STT WebSocket error: "@ + s,
        CloudErrorView::Http(s) => "HTTP error: "@ + s,
        CloudErrorView::Json(s) => "JSON error: "@ + s,
        CloudErrorView::Groq(s) => "Groq API error: "@ + s,
        CloudErrorView::EmptyGroqResponse => "empty response from Groq"@,
        CloudErrorView::Timeout(s) => s,
    }
}

fn prefixed(prefix: &str, s: &String) -> (r: String)
    ensures
        r@ == prefix@ + s@,
{
    let mut r = String::from_str(prefix);
    r.append(s.as_str());
    r
}

impl CloudError {
    /// A free-form error.
    pub fn msg(s: String) -> (e: CloudError)
        ensures
            e@ == CloudErrorView::Message(s@),
    {
        CloudError::Message(s)
    }

    /// The human-readable message of the error.
    pub fn to_string(&self) -> (r: String)
        ensures
            r@ == error_text(self@),
    {
        match self {
            CloudError::Message(s) => s.clone(),
            CloudError::NoApiKeys => String::from_str("no ElevenLabs API keys configured"),
            CloudError::AllKeysFailed(s) => prefixed("All ElevenLabs keys failed: ", s),
            CloudError::SessionClosed => String::from_str("STT session closed before commit"),
            CloudError::WebSocket(s) => prefixed("STT WebSocket error: ", s),
            CloudError::Http(s) => prefixed("HTTP error: ", s),
            CloudError::Json(s) => prefixed("JSON error: ", s),
            CloudError::Groq(s) => prefixed("Groq API error: ", s),
            CloudError::EmptyGroqResponse => String::from_str("empty response from Groq"),
            CloudError::Timeout(s) => s.clone(),
        }
    }
}

// ---------------------------------------------------------------------------
// Cleaning model output
// ---------------------------------------------------------------------------

pub open spec fn fence() -> Seq<char> {
    seq!['`', '`', '`']
}

/// Removes one outer code fence when the whole (trimmed) text is wrapped in
/// one: the closing fence, then the opening fence with the rest of its line
/// (a language tag) when the text spans several lines.
pub open spec fn unfence(s: Seq<char>) -> Seq<char> {
    if s.len() >= 6 && seq_starts_with(s, fence()) && seq_ends_with(s, fence()) {
        let without_close = trim_end_seq(s.take(s.len() - 3));
        if seq_starts_with(without_close, fence()) {
            let rest = without_close.skip(3);
            let nl = first_index_of(rest, '\n', 0);
            if nl < rest.len() {
                trim_seq(rest.skip(nl + 1))
            } else {
                trim_seq(rest)
            }
        } else {
            s
        }
    } else {
        s
    }
}

/// Removes one pair of double or single quotes wrapping the whole text.
pub open spec fn unquote(s: Seq<char>) -> Seq<char> {
    if s.len() >= 2 && ((s[0] == '"' && s.last() == '"') || (s[0] == '\'' && s.last() == '\'')) {
        s.subrange(1, s.len() - 1)
    } else {
        s
    }
}

/// Model output as the library passes it on.
pub open spec fn clean_completion(raw: Seq<char>) -> Seq<char> {
    trim_seq(unquote(unfence(trim_seq(raw))))
}

proof fn lemma_unfence_range(s: Seq<char>) -> (r: (int, int))
    ensures
        0 <= r.0 <= r.1 <= s.len(),
        unfence(s) == s.subrange(r.0, r.1),
{
    if s.len() >= 6 && seq_starts_with(s, fence()) && seq_ends_with(s, fence()) {
        let head = s.take(s.len() - 3);
        let b1 = lemma_trim_end_offset(head);
        let without_close = trim_end_seq(head);
        if seq_starts_with(without_close, fence()) {
            let rest = without_close.skip(3);
            assert(rest =~= s.subrange(3, b1));
            let nl = first_index_of(rest, '\n', 0);
            lemma_first_index_bounds(rest, '\n', 0);
            if nl < rest.len() {
                let tail = rest.skip(nl + 1);
                assert(tail =~= s.subrange(3 + nl + 1, b1));
                let ab = lemma_trim_range(tail);
                assert(tail.subrange(ab.0, ab.1) =~= s.subrange(3 + nl + 1 + ab.0, 3 + nl + 1 + ab.1));
                (3 + nl + 1 + ab.0, 3 + nl + 1 + ab.1)
            } else {
                let ab = lemma_trim_range(rest);
                assert(rest.subrange(ab.0, ab.1) =~= s.subrange(3 + ab.0, 3 + ab.1));
                (3 + ab.0, 3 + ab.1)
            }
        } else {
            assert(s.subrange(0, s.len() as int) =~= s);
            (0, s.len() as int)
        }
    } else {
        assert(s.subrange(0, s.len() as int) =~= s);
        (0, s.len() as int)
    }
}

/// Cleaned model output is trimmed, and is a contiguous part of what the
/// model sent: cleaning only cuts away at the edges (surrounding whitespace,
/// a wrapping code fence with its language line, one pair of wrapping
/// quotes) and never rewrites the text in between. Text that is neither
/// fence-wrapped nor quote-wrapped comes back trimmed and otherwise as it is.
pub proof fn lemma_clean_is_trimmed_part(raw: Seq<char>)
    ensures
        trim_seq(clean_completion(raw)) == clean_completion(raw),
        seq_contains(raw, clean_completion(raw)),
        !(trim_seq(raw).len() >= 6 && seq_starts_with(trim_seq(raw), fence()) && seq_ends_with(
            trim_seq(raw),
            fence(),
        )) && unquote(trim_seq(raw)) == trim_seq(raw) ==> clean_completion(raw) == trim_seq(raw),
{
    lemma_trim_idempotent(raw);
    let x0 = trim_seq(raw);
    let r0 = lemma_trim_range(raw);
    let x1 = unfence(x0);
    let r1 = lemma_unfence_range(x0);
    let x2 = unquote(x1);
    let r2: (int, int) = if x1.len() >= 2 && ((x1[0] == '"' && x1.last() == '"') || (x1[0] == '\''
        && x1.last() == '\'')) {
        (1, x1.len() - 1)
    } else {
        (0, x1.len() as int)
    };
    assert(x2 =~= x1.subrange(r2.0, r2.1));
    let r3 = lemma_trim_range(x2);
    let i = r0.0 + r1.0 + r2.0 + r3.0;
    let j = r0.0 + r1.0 + r2.0 + r3.1;
    assert(clean_completion(raw) =~= raw.subrange(i, j));
    assert(matches_at(raw, clean_completion(raw), i));
    lemma_trim_idempotent(x2);
}

fn fence_chars() -> (r: Vec<char>)
    ensures
        r@ == fence(),
{
    let r = vec!['`', '`', '`'];
    assert(r@ =~= fence());
    r
}

fn unfence_chars(s: &[char]) -> (r: Vec<char>)
    ensures
        r@ == unfence(s@),
{
    let f = fence_chars();
    if s.len() >= 6 && starts_with(s, &f) && ends_with(s, &f) {
        let head = sub_vec(s, 0, s.len() - 3);
        assert(head@ == s@.take(s@.len() - 3));
        let without_close = trim_end_chars(&head);
        if starts_with(&without_close, &f) {
            let rest = sub_vec(&without_close, 3, without_close.len());
            assert(rest@ == without_close@.skip(3));
            let nl = find_char(&rest, '\n');
            if nl < rest.len() {
                let tail = sub_vec(&rest, nl + 1, rest.len());
                assert(tail@ == rest@.skip(nl + 1));
                trim_chars(&tail)
            } else {
                trim_chars(&rest)
            }
        } else {
            sub_vec(s, 0, s.len())
        }
    } else {
        let r = sub_vec(s, 0, s.len());
        assert(r@ =~= s@);
        r
    }
}

fn unquote_chars(s: &[char]) -> (r: Vec<char>)
    ensures
        r@ == unquote(s@),
{
    let n = s.len();
    if n >= 2 && ((s[0] == '"' && s[n - 1] == '"') || (s[0] == '\'' && s[n - 1] == '\'')) {
        sub_vec(s, 1, n - 1)
    } else {
        let r = sub_vec(s, 0, n);
        assert(r@ =~= s@);
        r
    }
}

fn clean_chars(raw: &[char]) -> (r: Vec<char>)
    ensures
        r@ == clean_completion(raw@),
{
    let t = trim_chars(raw);
    let u = unfence_chars(&t);
    let q = unquote_chars(&u);
    trim_chars(&q)
}

/// Strip surrounding whitespace, one outer code fence wrapping the whole
/// output, and one pair of quotes wrapping the whole output. Fences and
/// quotes inside the text are kept.
pub fn clean_completion_text(raw: &str) -> (r: String)
    ensures
        r@ == clean_completion(raw@),
{
    let v = chars_of(raw);
    let c = clean_chars(&v);
    string_of(&c)
}

// ---------------------------------------------------------------------------
// Reading responses
// ---------------------------------------------------------------------------

/// The outcome for what a completion body holds at `choices[0].message.content`.
pub open spec fn content_outcome(content: Result<JsonFieldView, Seq<char>>) -> Result<
    Seq<char>,
    CloudErrorView,
> {
    match content {
        Err(e) => Err(CloudErrorView::Groq(e)),
        Ok(JsonFieldView::Text(s)) => if clean_completion(s).len() == 0 {
            Err(CloudErrorView::EmptyGroqResponse)
        } else {
            Ok(clean_completion(s))
        },
        Ok(_) => Err(CloudErrorView::Groq("missing choices[0].message.content"@)),
    }
}

/// The cleaned completion text from what the body holds at
/// `choices[0].message.content`; a syntax error in the body is reported as
/// a language-model error.
pub fn completion_from_content(content: Result<JsonField, String>) -> (r: Result<String, CloudError>)
    ensures
        text_result(r) == content_outcome(lookup_view(content)),
{
    match content {
        Err(e) => Err(CloudError::Groq(e)),
        Ok(JsonField::Text(s)) => {
            let cleaned = clean_completion_text(s.as_str());
            if cleaned.as_str().is_empty() {
                Err(CloudError::EmptyGroqResponse)
            } else {
                Ok(cleaned)
            }
        },
        Ok(_) => Err(CloudError::Groq(String::from_str("missing choices[0].message.content"))),
    }
}

pub open spec fn content_pointer() -> Seq<char> {
    "/choices/0/message/content"@
}

/// `choices[0].message.content` of a chat-completion body, cleaned.
pub fn parse_chat_completion_content(body: &str) -> (r: Result<String, CloudError>)
    ensures
        text_result(r) == content_outcome(json_field_at(body@, content_pointer())),
{
    let content = json_field(body, "/choices/0/message/content");
    completion_from_content(content)
}

/// The strings among looked-up fields, in order.
pub open spec fn texts_of(fields: Seq<Result<JsonFieldView, Seq<char>>>) -> Seq<Seq<char>>
    decreases fields.len(),
{
    if fields.len() == 0 {
        Seq::empty()
    } else {
        let prev = texts_of(fields.drop_last());
        match fields.last() {
            Ok(JsonFieldView::Text(s)) => prev.push(s),
            _ => prev,
        }
    }
}

pub open spec fn lookups_view(fields: Seq<Result<JsonField, String>>) -> Seq<
    Result<JsonFieldView, Seq<char>>,
> {
    fields.map_values(|f: Result<JsonField, String>| lookup_view(f))
}

pub open spec fn strings_seq(v: Seq<String>) -> Seq<Seq<char>> {
    v.map_values(|s: String| s@)
}

/// The string-valued `id`s of the listed models, sorted.
pub fn model_ids_from(fields: Vec<Result<JsonField, String>>) -> (r: Vec<String>)
    ensures
        sorted_lex(strings_seq(r@)),
        strings_seq(r@).to_multiset() == texts_of(lookups_view(fields@)).to_multiset(),
{
    let mut ids: Vec<Vec<char>> = Vec::new();
    let mut i: usize = 0;
    while i < fields.len()
        invariant
            i <= fields.len(),
            seqs_of(ids@) == texts_of(lookups_view(fields@).take(i as int)),
        decreases fields.len() - i,
    {
        assert(lookups_view(fields@).take(i + 1).drop_last() == lookups_view(fields@).take(
            i as int,
        ));
        match &fields[i] {
            Ok(JsonField::Text(s)) => {
                let ghost before = ids@;
                ids.push(chars_of(s.as_str()));
                assert(seqs_of(ids@) =~= seqs_of(before).push(s@));
            },
            _ => {},
        }
        i += 1;
    }
    assert(lookups_view(fields@).take(fields.len() as int) == lookups_view(fields@));
    let sorted = sort_lex(ids);
    let out = strings_of(&sorted);
    assert(strings_seq(out@) =~= seqs_of(sorted@));
    out
}

pub open spec fn data_pointer() -> Seq<char> {
    "/data"@
}

/// Pointer to the `id` of the `i`-th listed model.
pub open spec fn model_id_pointer(i: nat) -> Seq<char> {
    "/data/"@ + decimal(i) + "/id"@
}

/// What a model-list body holds at the `id` of each listed model.
pub open spec fn model_id_lookups(body: Seq<char>, n: nat) -> Seq<Result<JsonFieldView, Seq<char>>> {
    Seq::new(n, |i: int| json_field_at(body, model_id_pointer(i as nat)))
}

fn model_id_pointer_string(i: usize) -> (r: String)
    ensures
        r@ == model_id_pointer(i as nat),
{
    let mut r = String::from_str("/data/");
    let d = decimal_string(i as u64);
    r.append(d.as_str());
    r.append("/id");
    r
}

/// The sorted model ids of a `GET /models` body.
pub fn parse_model_ids(body: &str) -> (r: Result<Vec<String>, CloudError>)
    ensures
        match json_array_len_at(body@, data_pointer()) {
            Err(e) => r matches Err(err) && err@ == CloudErrorView::Groq(e),
            Ok(None) => r matches Err(err) && err@ == CloudErrorView::Groq(
                "missing data array in models response"@,
            ),
            Ok(Some(n)) => r matches Ok(ids) && sorted_lex(strings_seq(ids@)) && strings_seq(
                ids@,
            ).to_multiset() == texts_of(model_id_lookups(body@, n)).to_multiset(),
        },
{
    match json_array_len(body, "/data") {
        Err(e) => Err(CloudError::Groq(e)),
        Ok(None) => Err(CloudError::Groq(String::from_str("missing data array in models response"))),
        Ok(Some(n)) => {
            let mut fields: Vec<Result<JsonField, String>> = Vec::new();
            let mut i: usize = 0;
            while i < n
                invariant
                    i <= n,
                    fields.len() == i,
                    forall|k: int|
                        0 <= k < i ==> #[trigger] lookup_view(fields@[k]) == json_field_at(
                            body@,
                            model_id_pointer(k as nat),
                        ),
                decreases n - i,
            {
                let p = model_id_pointer_string(i);
                fields.push(json_field(body, p.as_str()));
                i += 1;
            }
            assert(lookups_view(fields@) =~= model_id_lookups(body@, n as nat));
            Ok(model_ids_from(fields))
        },
    }
}

// ---------------------------------------------------------------------------
// Chat completion request and response
// ---------------------------------------------------------------------------

/// Reasoning models of the GPT-OSS family (case-insensitive match on the id).
pub open spec fn gpt_oss(model: Seq<char>) -> bool {
    seq_contains(ascii_lower_seq(model), "gpt-oss"@)
}

/// True for the GPT-OSS reasoning models, whose token budget is shared with
/// hidden reasoning.
pub fn is_gpt_oss_model(model: &str) -> (r: bool)
    ensures
        r == gpt_oss(model@),
{
    let m = chars_of(model);
    let lower = ascii_lowercase_chars(&m);
    let needle = chars_of("gpt-oss");
    contains(&lower, &needle)
}

/// An empty (or blank) key is refused before any request is made.
pub fn require_api_key(api_key: &str) -> (r: Result<(), CloudError>)
    ensures
        is_blank(api_key@) <==> r is Err,
        r matches Err(e) ==> e@ == CloudErrorView::Groq("LLM API key is empty"@),
{
    let k = chars_of(api_key);
    if blank(&k) {
        Err(CloudError::Groq(String::from_str("LLM API key is empty")))
    } else {
        Ok(())
    }
}

/// The JSON body of a chat-completion request, keys in sorted order:
/// temperature 0.2, no streaming, a system and a user message, and for
/// GPT-OSS models low reasoning effort without the reasoning text.
pub open spec fn chat_body(system: Seq<char>, user: Seq<char>, model: Seq<char>, max_tokens: nat) -> Seq<char> {
    (if gpt_oss(model) {
        "{\"include_reasoning\":false,"@
    } else {
        "{"@
    }) + "\"max_completion_tokens\":"@ + decimal(max_tokens) + ",\"messages\":[{\"content\":"@
        + json_quoted(system) + ",\"role\":\"system\"},{\"content\":"@ + json_quoted(user)
        + ",\"role\":\"user\"}],\"model\":"@ + json_quoted(model) + (if gpt_oss(model) {
        ",\"reasoning_effort\":\"low\""@
    } else {
        ""@
    }) + ",\"stream\":false,\"temperature\":0.2}"@
}

pub fn chat_request_body(system: &str, user: &str, model: &str, max_completion_tokens: u32) -> (r:
    String)
    ensures
        r@ == chat_body(system@, user@, model@, max_completion_tokens as nat),
{
    let gpt = is_gpt_oss_model(model);
    let mut r = if gpt {
        String::from_str("{\"include_reasoning\":false,")
    } else {
        String::from_str("{")
    };
    r.append("\"max_completion_tokens\":");
    let d = decimal_string(max_completion_tokens as u64);
    r.append(d.as_str());
    r.append(",\"messages\":[{\"content\":");
    let qs = json_quote(system);
    r.append(qs.as_str());
    r.append(",\"role\":\"system\"},{\"content\":");
    let qu = json_quote(user);
    r.append(qu.as_str());
    r.append(",\"role\":\"user\"}],\"model\":");
    let qm = json_quote(model);
    r.append(qm.as_str());
    if gpt {
        r.append(",\"reasoning_effort\":\"low\"");
    } else {
        r.append("");
    }
    r.append(",\"stream\":false,\"temperature\":0.2}");
    r
}

/// The first 300 characters of a failed response's body, after its status.
pub open spec fn http_failure(status: Seq<char>, body: Seq<char>) -> CloudErrorView {
    CloudErrorView::Groq(
        "HTTP "@ + status + ": "@ + (if body.len() <= 300 {
            body
        } else {
            body.take(300)
        }),
    )
}

fn http_failure_error(status: &str, body: &str) -> (e: CloudError)
    ensures
        e@ == http_failure(status@, body@),
{
    let mut s = String::from_str("HTTP ");
    s.append(status);
    s.append(": ");
    let snippet = take_chars(body, 300);
    s.append(snippet.as_str());
    CloudError::Groq(s)
}

/// Length in bytes of the UTF-8 encoding (a string's length always fits in
/// `usize`).
pub open spec fn byte_len(s: Seq<char>) -> nat {
    (encode_utf8(s).len() as usize) as nat
}

pub open spec fn finish_reason_pointer() -> Seq<char> {
    "/choices/0/finish_reason"@
}

/// What a chat-completion exchange yields: an HTTP failure with its status
/// and the start of the body; a body that does not parse; a missing or empty
/// completion; a completion cut off at the token limit, reported with its
/// length in bytes; or the cleaned completion.
pub open spec fn chat_outcome(success: bool, status: Seq<char>, body: Seq<char>) -> Result<
    Seq<char>,
    CloudErrorView,
> {
    if !success {
        Err(http_failure(status, body))
    } else {
        match json_field_at(body, finish_reason_pointer()) {
            Err(e) => Err(CloudErrorView::Groq(e)),
            Ok(reason) => match content_outcome(json_field_at(body, content_pointer())) {
                Err(e) => Err(e),
                Ok(c) => if reason == JsonFieldView::Text("length"@) {
                    Err(
                        CloudErrorView::Groq(
                            "completion truncated (finish_reason=length, chars="@ + decimal(
                                byte_len(c),
                            ) + ")"@,
                        ),
                    )
                } else {
                    Ok(c)
                },
            },
        }
    }
}

/// Interpret the reply to a chat-completion request: whether the HTTP status
/// was a success, the status as text, and the body.
pub fn chat_response_outcome(success: bool, status: &str, body: &str) -> (r: Result<
    String,
    CloudError,
>)
    ensures
        text_result(r) == chat_outcome(success, status@, body@),
{
    if !success {
        return Err(http_failure_error(status, body));
    }
    let reason = match json_field(body, "/choices/0/finish_reason") {
        Err(e) => {
            return Err(CloudError::Groq(e));
        },
        Ok(f) => f,
    };
    let cleaned = match parse_chat_completion_content(body) {
        Err(e) => {
            return Err(e);
        },
        Ok(c) => c,
    };
    let truncated = match &reason {
        JsonField::Text(t) => {
            let tc = chars_of(t.as_str());
            let length = chars_of("length");
            chars_eq(&tc, &length)
        },
        _ => false,
    };
    if truncated {
        let n = cleaned.as_str().len();
        let mut s = String::from_str("completion truncated (finish_reason=length, chars=");
        let d = decimal_string(n as u64);
        s.append(d.as_str());
        s.append(")");
        Err(CloudError::Groq(s))
    } else {
        Ok(cleaned)
    }
}

/// What a model-list exchange yields.
pub fn models_response_outcome(success: bool, status: &str, body: &str) -> (r: Result<
    Vec<String>,
    CloudError,
>)
    ensures
        !success ==> (r matches Err(e) && e@ == http_failure(status@, body@)),
        success ==> match json_array_len_at(body@, data_pointer()) {
            Err(e) => r matches Err(err) && err@ == CloudErrorView::Groq(e),
            Ok(None) => r matches Err(err) && err@ == CloudErrorView::Groq(
                "missing data array in models response"@,
            ),
            Ok(Some(n)) => r matches Ok(ids) && sorted_lex(strings_seq(ids@)) && strings_seq(
                ids@,
            ).to_multiset() == texts_of(model_id_lookups(body@, n)).to_multiset(),
        },
{
    if !success {
        return Err(http_failure_error(status, body));
    }
    parse_model_ids(body)
}

} // verus!
