//! Prompt builder: resolves template placeholders and produces the exact
//! (system, user) message pair for each LLM call.
use vstd::prelude::*;

use crate::settings::{
    CleanupLevel, PromptsSettings, PROMPT_COMMAND, PROMPT_COMMAND_GENERATE, PROMPT_HIGH,
    PROMPT_LIGHT, PROMPT_MEDIUM,
};
use crate::text::{
    chars_of, extend_chars, join_chars, join_seq, replace_chars, replace_seq, string_of,
    trim_chars, trim_seq,
};

verus! {

/// Context used when resolving dictation / command prompts.
#[derive(Debug, Clone)]
pub struct PromptContext {
    /// Process / app name (e.g. exe name). Empty → `(none)`.
    pub app_name: String,
    /// Nearby field text for continuity. Empty → `(none)`.
    pub field_context: String,
    /// Dictionary words, starred first (the caller orders them).
    pub dictionary: Vec<String>,
}

impl Default for PromptContext {
    fn default() -> (c: Self)
        ensures
            c.app_name@.len() == 0,
            c.field_context@.len() == 0,
            c.dictionary@.len() == 0,
    {
        PromptContext { app_name: String::new(), field_context: String::new(), dictionary: Vec::new() }
    }
}

/// Resolved chat messages for one LLM call.
#[derive(Debug, Clone, PartialEq, Eq)]
pub struct ChatMessages {
    pub system: String,
    pub user: String,
}

/// The characters of each string.
pub open spec fn strings_view(v: Seq<String>) -> Seq<Seq<char>> {
    v.map_values(|s: String| s@)
}

/// A placeholder value: trimmed, or `(none)` when that leaves nothing.
pub open spec fn placeholder_value(v: Seq<char>) -> Seq<char> {
    if trim_seq(v).len() == 0 {
        "(none)"@
    } else {
        trim_seq(v)
    }
}

/// The words, trimmed, with the empty ones dropped.
pub open spec fn nonempty_trimmed(words: Seq<Seq<char>>) -> Seq<Seq<char>>
    decreases words.len(),
{
    if words.len() == 0 {
        Seq::empty()
    } else {
        let prev = nonempty_trimmed(words.drop_last());
        let t = trim_seq(words.last());
        if t.len() > 0 {
            prev.push(t)
        } else {
            prev
        }
    }
}

/// Dictionary words as a comma-separated list, or `(none)`.
pub open spec fn dictionary_text(words: Seq<Seq<char>>) -> Seq<char> {
    let items = nonempty_trimmed(words);
    if items.len() == 0 {
        "(none)"@
    } else {
        join_seq(items, ", "@)
    }
}

/// Dictation template with `{dictionary}`, `{app_name}` and `{field_context}`
/// substituted, in that order.
pub open spec fn dictation_system(template: Seq<char>, app: Seq<char>, field: Seq<char>, dict: Seq<Seq<char>>) -> Seq<char> {
    replace_seq(
        replace_seq(
            replace_seq(template, "{dictionary}"@, dictionary_text(dict)),
            "{app_name}"@,
            placeholder_value(app),
        ),
        "{field_context}"@,
        placeholder_value(field),
    )
}

/// Command template with its placeholders resolved as for dictation:
/// `{dictionary}`, `{app_name}` and `{field_context}`.
pub open spec fn command_system(template: Seq<char>, app: Seq<char>, field: Seq<char>, dict: Seq<Seq<char>>) -> Seq<char> {
    dictation_system(template, app, field, dict)
}

/// User message of an edit command.
pub open spec fn command_user(instruction: Seq<char>, selection: Seq<char>) -> Seq<char> {
    "INSTRUCTION:\n"@ + placeholder_value(instruction) + "\n\nTEXT:\n"@ + placeholder_value(
        selection,
    )
}

/// The template that a cleanup level selects (`None` for no cleanup).
pub open spec fn level_template(level: CleanupLevel, prompts: PromptsSettings) -> Option<Seq<char>> {
    match level {
        CleanupLevel::Off => None,
        CleanupLevel::Light => Some(prompts.light@),
        CleanupLevel::Medium => Some(prompts.medium@),
        CleanupLevel::High => Some(prompts.high@),
    }
}

fn owned(s: &str) -> (r: Vec<char>)
    ensures
        r@ == s@,
{
    chars_of(s)
}

/// Substitute a placeholder value: trimmed, and `(none)` when empty.
pub fn resolve_placeholder(value: &str) -> (r: String)
    ensures
        r@ == placeholder_value(value@),
{
    string_of(&resolve_chars(&chars_of(value)))
}

fn resolve_chars(value: &[char]) -> (r: Vec<char>)
    ensures
        r@ == placeholder_value(value@),
{
    let t = trim_chars(value);
    if t.len() == 0 {
        owned("(none)")
    } else {
        t
    }
}

/// Format dictionary words as a comma-separated list; empty → `(none)`.
pub fn format_dictionary(words: &[String]) -> (r: String)
    ensures
        r@ == dictionary_text(strings_view(words@)),
{
    string_of(&dictionary_chars(words))
}

fn dictionary_chars(words: &[String]) -> (r: Vec<char>)
    ensures
        r@ == dictionary_text(strings_view(words@)),
{
    let mut items: Vec<Vec<char>> = Vec::new();
    let mut i: usize = 0;
    while i < words.len()
        invariant
            i <= words.len(),
            crate::text::seqs_of(items@) == nonempty_trimmed(strings_view(words@).take(i as int)),
        decreases words.len() - i,
    {
        let ghost before = items@;
        assert(strings_view(words@).take(i + 1).drop_last() == strings_view(words@).take(
            i as int,
        ));
        let t = trim_chars(&chars_of(&words[i]));
        if t.len() > 0 {
            let ghost tv = t@;
            items.push(t);
            assert(crate::text::seqs_of(items@) =~= crate::text::seqs_of(before).push(tv));
        }
        i += 1;
    }
    assert(strings_view(words@).take(words.len() as int) == strings_view(words@));
    if items.len() == 0 {
        owned("(none)")
    } else {
        join_chars(&items, &owned(", "))
    }
}

fn apply_dictation_placeholders(template: &str, ctx: &PromptContext) -> (r: String)
    ensures
        r@ == dictation_system(template@, ctx.app_name@, ctx.field_context@, strings_view(ctx.dictionary@)),
{
    proof {
        reveal_strlit("{dictionary}");
        reveal_strlit("{app_name}");
        reveal_strlit("{field_context}");
    }
    let dict = dictionary_chars(&ctx.dictionary);
    let app = resolve_chars(&chars_of(&ctx.app_name));
    let field = resolve_chars(&chars_of(&ctx.field_context));
    let a = replace_chars(&chars_of(template), &owned("{dictionary}"), &dict);
    let b = replace_chars(&a, &owned("{app_name}"), &app);
    let c = replace_chars(&b, &owned("{field_context}"), &field);
    string_of(&c)
}

/// Build dictation (system, user) for a cleanup level.
///
/// `None` when `level` is [`CleanupLevel::Off`] (the caller skips the LLM).
/// `user` is always the raw transcript, nothing else.
pub fn build_dictation(
    level: CleanupLevel,
    prompts: &PromptsSettings,
    ctx: &PromptContext,
    raw_transcript: &str,
) -> (r: Option<ChatMessages>)
    ensures
        r is None <==> level == CleanupLevel::Off,
        r matches Some(m) ==> {
            &&& m.system@ == dictation_system(
                level_template(level, *prompts)->0,
                ctx.app_name@,
                ctx.field_context@,
                strings_view(ctx.dictionary@),
            )
            &&& m.user@ == raw_transcript@
        },
{
    let template: &String = match level {
        CleanupLevel::Off => return None,
        CleanupLevel::Light => &prompts.light,
        CleanupLevel::Medium => &prompts.medium,
        CleanupLevel::High => &prompts.high,
    };
    Some(
        ChatMessages {
            system: apply_dictation_placeholders(template.as_str(), ctx),
            user: String::from_str(raw_transcript),
        },
    )
}

/// Build command-mode (system, user) messages for editing a selection.
///
/// System = the command prompt with `{dictionary}`, `{app_name}` and
/// `{field_context}` resolved.
/// User = `INSTRUCTION:\n{instruction}\n\nTEXT:\n{selection}`, empty → `(none)`.
pub fn build_command(
    prompts: &PromptsSettings,
    ctx: &PromptContext,
    instruction: &str,
    selection: &str,
) -> (r: ChatMessages)
    ensures
        r.system@ == command_system(
            prompts.command@,
            ctx.app_name@,
            ctx.field_context@,
            strings_view(ctx.dictionary@),
        ),
        r.user@ == command_user(instruction@, selection@),
{
    let system = apply_dictation_placeholders(prompts.command.as_str(), ctx);
    let mut user = owned("INSTRUCTION:\n");
    extend_chars(&mut user, &resolve_chars(&chars_of(instruction)));
    extend_chars(&mut user, &owned("\n\nTEXT:\n"));
    extend_chars(&mut user, &resolve_chars(&chars_of(selection)));
    ChatMessages { system, user: string_of(&user) }
}

/// Build command-mode messages for generating new text (no selection).
///
/// System = the generate prompt with `{dictionary}`, `{app_name}` and
/// `{field_context}` resolved; user = the spoken instruction, empty → `(none)`.
pub fn build_command_generate(
    prompts: &PromptsSettings,
    ctx: &PromptContext,
    instruction: &str,
) -> (r: ChatMessages)
    ensures
        r.system@ == dictation_system(
            prompts.command_generate@,
            ctx.app_name@,
            ctx.field_context@,
            strings_view(ctx.dictionary@),
        ),
        r.user@ == placeholder_value(instruction@),
{
    ChatMessages {
        system: apply_dictation_placeholders(prompts.command_generate.as_str(), ctx),
        user: resolve_placeholder(instruction),
    }
}

/// The factory text of a named prompt.
pub open spec fn factory_prompt(name: Seq<char>) -> Option<Seq<char>> {
    if name == "light"@ {
        Some(PROMPT_LIGHT@)
    } else if name == "medium"@ {
        Some(PROMPT_MEDIUM@)
    } else if name == "high"@ {
        Some(PROMPT_HIGH@)
    } else if name == "command"@ {
        Some(PROMPT_COMMAND@)
    } else if name == "command_generate"@ {
        Some(PROMPT_COMMAND_GENERATE@)
    } else {
        None
    }
}

fn is_name(name: &[char], lit: &str) -> (r: bool)
    ensures
        r == (name@ == lit@),
{
    crate::text::chars_eq(name, &chars_of(lit))
}

/// Factory text of the prompt called `name` (`light`, `medium`, `high`,
/// `command`, `command_generate`); any other name is an error.
pub fn reset_prompt(name: &str) -> (r: Result<String, String>)
    ensures
        r matches Ok(t) ==> factory_prompt(name@) == Some(t@),
        r matches Err(e) ==> factory_prompt(name@) is None && e@ == "Unknown prompt name: "@ + name@,
        r is Ok <==> factory_prompt(name@) is Some,
{
    let n = chars_of(name);
    if is_name(&n, "light") {
        Ok(String::from_str(PROMPT_LIGHT))
    } else if is_name(&n, "medium") {
        Ok(String::from_str(PROMPT_MEDIUM))
    } else if is_name(&n, "high") {
        Ok(String::from_str(PROMPT_HIGH))
    } else if is_name(&n, "command") {
        Ok(String::from_str(PROMPT_COMMAND))
    } else if is_name(&n, "command_generate") {
        Ok(String::from_str(PROMPT_COMMAND_GENERATE))
    } else {
        let mut e = owned("Unknown prompt name: ");
        extend_chars(&mut e, &n);
        Err(string_of(&e))
    }
}

} // verus!
