//! The engine's decisions: when a hotkey starts or ends an utterance, and
//! what happens to a finished utterance, from the committed transcript to
//! the inserted text and its history row. The runtime around it captures
//! audio, talks to the services, injects text and reports each outcome back.
use vstd::prelude::*;
use vstd::string::*;
use crate::text::{
    blank, chars_of, contains, is_blank, seq_contains, split_words, split_words_chars, string_of,
    sub_vec, WordChars,
};
use crate::settings::{CleanupLevel, EngineState, PromptsSettings, Settings};
use crate::prompt::{
    build_command, build_command_generate, build_dictation, command_system, command_user,
    dictation_system, level_template, placeholder_value, strings_view, ChatMessages, PromptContext,
};
use crate::sanitize::{
    dictation_output_suspicious, strip_context_echo, strip_echo_spec, suspicious_spec,
};
use crate::hotkeys::{HotkeyEvent, HotkeyId};
use crate::stt::opt_view;

verus! {

/// Field text sent to the model: enough for continuity, not enough to tempt
/// it into rewriting the document.
pub const FIELD_CONTEXT_MAX_CHARS: usize = 600;

/// Completion budget of a first request.
pub const MAX_COMPLETION_TOKENS: u32 = 8192;

/// Completion budget of the one retry after a request was too large.
pub const RETRY_MAX_COMPLETION_TOKENS: u32 = 1024;

// ---------------------------------------------------------------------------
// Small text measures
// ---------------------------------------------------------------------------

/// The last `max` characters of a text.
pub open spec fn tail_seq(s: Seq<char>, max: nat) -> Seq<char> {
    if s.len() <= max {
        s
    } else {
        s.skip(s.len() - max)
    }
}

/// The last `max` characters of `text` (all of it when shorter).
pub fn tail_chars(text: &str, max: usize) -> (r: String)
    ensures
        r@ == tail_seq(text@, max as nat),
{
    let v = chars_of(text);
    if v.len() <= max {
        return string_of(&v);
    }
    let t = sub_vec(&v, v.len() - max, v.len());
    assert(t@ == v@.skip(v@.len() - max));
    string_of(&t)
}

/// Number of whitespace-separated words.
pub open spec fn words_in(text: Seq<char>) -> nat {
    split_words(text, WordChars::NonSpace).len()
}

/// Count whitespace-separated words (the count as `u32`).
pub fn word_count(text: &str) -> (r: u32)
    ensures
        r == words_in(text@) as u32,
{
    let v = chars_of(text);
    let w = split_words_chars(&v, WordChars::NonSpace);
    assert(w@.len() == crate::text::seqs_of(w@).len());
    w.len() as u32
}

// ---------------------------------------------------------------------------
// Modes and readiness
// ---------------------------------------------------------------------------

/// What an utterance is for.
#[derive(Debug, Clone, Copy, PartialEq, Eq, Structural)]
pub enum UtteranceMode {
    Dictation,
    /// Transform the selected text.
    CommandEdit,
    /// Generate new text (no selection).
    CommandGenerate,
}

pub open spec fn overlay_label_spec(mode: UtteranceMode) -> Seq<char> {
    match mode {
        UtteranceMode::Dictation => "Recording"@,
        UtteranceMode::CommandEdit => "Edit"@,
        UtteranceMode::CommandGenerate => "Generate"@,
    }
}

pub open spec fn history_mode_spec(mode: UtteranceMode) -> Seq<char> {
    match mode {
        UtteranceMode::Dictation => "dictation"@,
        UtteranceMode::CommandEdit => "command"@,
        UtteranceMode::CommandGenerate => "command_generate"@,
    }
}

impl UtteranceMode {
    /// The label the overlay shows while recording.
    pub fn overlay_label(self) -> (r: String)
        ensures
            r@ == overlay_label_spec(self),
    {
        match self {
            UtteranceMode::Dictation => String::from_str("Recording"),
            UtteranceMode::CommandEdit => String::from_str("Edit"),
            UtteranceMode::CommandGenerate => String::from_str("Generate"),
        }
    }

    /// The mode recorded in history.
    pub fn history_mode(self) -> (r: String)
        ensures
            r@ == history_mode_spec(self),
    {
        match self {
            UtteranceMode::Dictation => String::from_str("dictation"),
            UtteranceMode::CommandEdit => String::from_str("command"),
            UtteranceMode::CommandGenerate => String::from_str("command_generate"),
        }
    }
}

/// Some speech-to-text key is not blank.
pub open spec fn has_stt_key(keys: Seq<String>) -> bool {
    exists|i: int| 0 <= i < keys.len() && !is_blank(#[trigger] keys[i]@)
}

pub open spec fn needs_llm(settings: Settings, mode: UtteranceMode) -> bool {
    match mode {
        UtteranceMode::Dictation => settings.llm.cleanup_level != CleanupLevel::Off,
        _ => true,
    }
}

/// Refuse at once when the keys an utterance needs are missing.
pub open spec fn readiness(settings: Settings, mode: UtteranceMode) -> Result<(), Seq<char>> {
    if !has_stt_key(settings.stt.api_keys@) {
        Err("Add your API keys in Setup."@)
    } else if needs_llm(settings, mode) && is_blank(settings.llm.api_key@) {
        Err("Add your Groq API key in Setup."@)
    } else {
        Ok(())
    }
}

pub fn check_ready(settings: &Settings, mode: UtteranceMode) -> (r: Result<(), String>)
    ensures
        match readiness(*settings, mode) {
            Ok(()) => r is Ok,
            Err(m) => r matches Err(e) && e@ == m,
        },
{
    let keys = &settings.stt.api_keys;
    let mut has_el = false;
    let mut i: usize = 0;
    while i < keys.len()
        invariant
            i <= keys.len(),
            has_el == (exists|k: int| 0 <= k < i && !is_blank(#[trigger] keys@[k]@)),
        decreases keys.len() - i,
    {
        if !blank(&chars_of(keys[i].as_str())) {
            has_el = true;
        }
        i += 1;
    }
    if !has_el {
        return Err(String::from_str("Add your API keys in Setup."));
    }
    let needs_groq = match mode {
        UtteranceMode::Dictation => settings.llm.cleanup_level != CleanupLevel::Off,
        _ => true,
    };
    if needs_groq && blank(&chars_of(settings.llm.api_key.as_str())) {
        return Err(String::from_str("Add your Groq API key in Setup."));
    }
    Ok(())
}

// ---------------------------------------------------------------------------
// Hotkeys
// ---------------------------------------------------------------------------

/// What the engine does with a hotkey edge.
#[derive(Debug, PartialEq, Eq)]
pub enum ControlAction {
    /// Nothing to do.
    Nothing,
    /// Refuse: release modifiers, show the message and report it.
    Refuse(String),
    /// Start an utterance in this mode.
    Begin(UtteranceMode),
    /// Read the selection, then start an edit (with one) or a generation.
    BeginCommand,
    /// Finish the active utterance.
    Finish,
}

pub enum ControlActionView {
    Nothing,
    Refuse(Seq<char>),
    Begin(UtteranceMode),
    BeginCommand,
    Finish,
}

impl View for ControlAction {
    type V = ControlActionView;

    open spec fn view(&self) -> ControlActionView {
        match self {
            ControlAction::Nothing => ControlActionView::Nothing,
            ControlAction::Refuse(m) => ControlActionView::Refuse(m@),
            ControlAction::Begin(m) => ControlActionView::Begin(*m),
            ControlAction::BeginCommand => ControlActionView::BeginCommand,
            ControlAction::Finish => ControlActionView::Finish,
        }
    }
}

/// The engine's utterance bookkeeping.
#[derive(Debug, Clone, Copy, PartialEq, Eq, Structural)]
pub struct EngineControl {
    pub state: EngineState,
    /// Mode of the utterance in progress, once its session is open.
    pub active: Option<UtteranceMode>,
    /// Mode being started while the session opens.
    pub pending_mode: Option<UtteranceMode>,
    /// The key was released while the session was still opening.
    pub pending_finish: bool,
}

pub open spec fn is_command(m: Option<UtteranceMode>) -> bool {
    m == Some(UtteranceMode::CommandEdit) || m == Some(UtteranceMode::CommandGenerate)
}

/// Reaction to a hotkey edge.
pub open spec fn control_step(c: EngineControl, settings: Settings, ev: HotkeyEvent) -> (
    EngineControl,
    ControlActionView,
) {
    match ev {
        HotkeyEvent::Down(HotkeyId::Dictation) => if c.state == EngineState::Idle {
            match readiness(settings, UtteranceMode::Dictation) {
                Err(m) => (c, ControlActionView::Refuse(m)),
                Ok(()) => (c, ControlActionView::Begin(UtteranceMode::Dictation)),
            }
        } else {
            (c, ControlActionView::Nothing)
        },
        HotkeyEvent::Down(HotkeyId::CommandMode) => if c.state == EngineState::Idle {
            match readiness(settings, UtteranceMode::CommandGenerate) {
                Err(m) => (c, ControlActionView::Refuse(m)),
                Ok(()) => (c, ControlActionView::BeginCommand),
            }
        } else {
            (c, ControlActionView::Nothing)
        },
        HotkeyEvent::Up(HotkeyId::Dictation) => if c.active == Some(UtteranceMode::Dictation) {
            (c, ControlActionView::Finish)
        } else if c.pending_mode == Some(UtteranceMode::Dictation) && c.active is None {
            (EngineControl { pending_finish: true, ..c }, ControlActionView::Nothing)
        } else {
            (c, ControlActionView::Nothing)
        },
        HotkeyEvent::Up(HotkeyId::CommandMode) => if is_command(c.active) {
            (c, ControlActionView::Finish)
        } else if is_command(c.pending_mode) && c.active is None {
            (EngineControl { pending_finish: true, ..c }, ControlActionView::Nothing)
        } else {
            (c, ControlActionView::Nothing)
        },
    }
}

/// With a selection the command edits it; without one it generates.
pub open spec fn command_mode_for(selection: Option<Seq<char>>) -> UtteranceMode {
    match selection {
        Some(s) => if !is_blank(s) {
            UtteranceMode::CommandEdit
        } else {
            UtteranceMode::CommandGenerate
        },
        None => UtteranceMode::CommandGenerate,
    }
}

/// A selection that is present and not blank.
pub open spec fn nonblank(o: Option<Seq<char>>) -> Option<Seq<char>> {
    match o {
        Some(s) => if !is_blank(s) {
            Some(s)
        } else {
            None
        },
        None => None,
    }
}

fn nonblank_exec(o: Option<String>) -> (r: Option<String>)
    ensures
        opt_view(r) == nonblank(opt_view(o)),
{
    match o {
        Some(s) => if !blank(&chars_of(s.as_str())) {
            Some(s)
        } else {
            None
        },
        None => None,
    }
}

/// The command mode for the selection read at key-down.
pub fn command_mode_for_selection(selection: &Option<String>) -> (r: UtteranceMode)
    ensures
        r == command_mode_for(opt_view(*selection)),
{
    match selection {
        Some(s) => if !blank(&chars_of(s.as_str())) {
            UtteranceMode::CommandEdit
        } else {
            UtteranceMode::CommandGenerate
        },
        None => UtteranceMode::CommandGenerate,
    }
}

impl EngineControl {
    /// Idle, nothing in progress.
    pub fn new() -> (c: EngineControl)
        ensures
            c == (EngineControl {
                state: EngineState::Idle,
                active: None,
                pending_mode: None,
                pending_finish: false,
            }),
    {
        EngineControl { state: EngineState::Idle, active: None, pending_mode: None, pending_finish: false }
    }

    /// Decide what a hotkey edge does.
    pub fn on_hotkey(&mut self, settings: &Settings, ev: HotkeyEvent) -> (a: ControlAction)
        ensures
            (*final(self), a@) == control_step(*old(self), *settings, ev),
    {
        match ev {
            HotkeyEvent::Down(HotkeyId::Dictation) => {
                if self.state == EngineState::Idle {
                    match check_ready(settings, UtteranceMode::Dictation) {
                        Err(m) => ControlAction::Refuse(m),
                        Ok(()) => ControlAction::Begin(UtteranceMode::Dictation),
                    }
                } else {
                    ControlAction::Nothing
                }
            },
            HotkeyEvent::Down(HotkeyId::CommandMode) => {
                if self.state == EngineState::Idle {
                    match check_ready(settings, UtteranceMode::CommandGenerate) {
                        Err(m) => ControlAction::Refuse(m),
                        Ok(()) => ControlAction::BeginCommand,
                    }
                } else {
                    ControlAction::Nothing
                }
            },
            HotkeyEvent::Up(HotkeyId::Dictation) => {
                if self.active == Some(UtteranceMode::Dictation) {
                    ControlAction::Finish
                } else {
                    if self.pending_mode == Some(UtteranceMode::Dictation) && self.active.is_none() {
                        self.pending_finish = true;
                    }
                    ControlAction::Nothing
                }
            },
            HotkeyEvent::Up(HotkeyId::CommandMode) => {
                let active_cmd = self.active == Some(UtteranceMode::CommandEdit) || self.active
                    == Some(UtteranceMode::CommandGenerate);
                if active_cmd {
                    ControlAction::Finish
                } else {
                    let pending_cmd = self.pending_mode == Some(UtteranceMode::CommandEdit)
                        || self.pending_mode == Some(UtteranceMode::CommandGenerate);
                    if pending_cmd && self.active.is_none() {
                        self.pending_finish = true;
                    }
                    ControlAction::Nothing
                }
            },
        }
    }

    /// An utterance starts opening its session.
    pub fn begin(&mut self, mode: UtteranceMode)
        ensures
            *final(self) == (EngineControl {
                state: EngineState::Connecting,
                pending_mode: Some(mode),
                pending_finish: false,
                ..*old(self)
            }),
    {
        self.pending_mode = Some(mode);
        self.pending_finish = false;
        self.state = EngineState::Connecting;
    }

    /// The session is open and recording. Returns whether the key was
    /// already released, in which case the utterance finishes at once.
    pub fn started(&mut self, mode: UtteranceMode) -> (finish_now: bool)
        ensures
            finish_now == old(self).pending_finish,
            *final(self) == (EngineControl {
                state: EngineState::Recording,
                active: Some(mode),
                pending_mode: None,
                pending_finish: false,
            }),
    {
        let finish_now = self.pending_finish;
        self.state = EngineState::Recording;
        self.active = Some(mode);
        self.pending_mode = None;
        self.pending_finish = false;
        finish_now
    }

    /// An error ended the utterance: everything is dropped and the engine is idle.
    pub fn abort(&mut self)
        ensures
            *final(self) == (EngineControl {
                state: EngineState::Idle,
                active: None,
                pending_mode: None,
                pending_finish: false,
            }),
    {
        self.active = None;
        self.pending_mode = None;
        self.pending_finish = false;
        self.state = EngineState::Idle;
    }

    /// The active utterance is being finished; its mode is handed over.
    pub fn take_active(&mut self) -> (m: Option<UtteranceMode>)
        ensures
            m == old(self).active,
            *final(self) == (EngineControl { active: None, ..*old(self) }),
    {
        let m = self.active;
        self.active = None;
        m
    }

    pub fn set_state(&mut self, s: EngineState)
        ensures
            *final(self) == (EngineControl { state: s, ..*old(self) }),
    {
        self.state = s;
    }
}

/// A key press only starts an utterance from idle, and a release only ever
/// finishes the utterance of its own hotkey.
pub proof fn lemma_hotkey_edges(c: EngineControl, settings: Settings, ev: HotkeyEvent)
    ensures
        control_step(c, settings, ev).1 is Begin || control_step(c, settings, ev).1 is BeginCommand
            ==> c.state == EngineState::Idle,
        control_step(c, settings, ev).1 is Finish ==> match ev {
            HotkeyEvent::Up(HotkeyId::Dictation) => c.active == Some(UtteranceMode::Dictation),
            HotkeyEvent::Up(HotkeyId::CommandMode) => is_command(c.active),
            HotkeyEvent::Down(_) => false,
        },
        control_step(c, settings, ev).0.state == c.state,
        control_step(c, settings, ev).0.active == c.active,
{
}

/// A release finishes the utterance of its own hotkey, and only that: the
/// command hotkey's release finishes an edit or a generate command, the
/// dictation hotkey's release finishes a dictation.
pub proof fn lemma_release_finishes_own_utterance(c: EngineControl, settings: Settings)
    ensures
        control_step(c, settings, HotkeyEvent::Up(HotkeyId::CommandMode)).1 is Finish <==> (c.active
            == Some(UtteranceMode::CommandEdit) || c.active == Some(UtteranceMode::CommandGenerate)),
        control_step(c, settings, HotkeyEvent::Up(HotkeyId::Dictation)).1 is Finish <==> c.active
            == Some(UtteranceMode::Dictation),
{
}

/// Without the keys it needs, a hotkey press is refused at once: nothing
/// starts and the engine state does not change.
pub proof fn lemma_not_ready_refused(c: EngineControl, settings: Settings, id: HotkeyId)
    requires
        c.state == EngineState::Idle,
        readiness(
            settings,
            match id {
                HotkeyId::Dictation => UtteranceMode::Dictation,
                HotkeyId::CommandMode => UtteranceMode::CommandGenerate,
            },
        ) is Err,
    ensures
        control_step(c, settings, HotkeyEvent::Down(id)).1 is Refuse,
        control_step(c, settings, HotkeyEvent::Down(id)).0 == c,
{
}

// ---------------------------------------------------------------------------
// Finishing an utterance
// ---------------------------------------------------------------------------

/// Does a failed request look like it was too large (free-tier limits)?
pub open spec fn too_large(err: Seq<char>) -> bool {
    seq_contains(err, "413"@) || seq_contains(err, "too large"@) || seq_contains(err, "TPM"@)
}

pub fn should_retry_smaller(err: &str) -> (r: bool)
    ensures
        r == too_large(err@),
{
    let e = chars_of(err);
    contains(&e, &chars_of("413")) || contains(&e, &chars_of("too large")) || contains(
        &e,
        &chars_of("TPM"),
    )
}

/// Light safeguards on cleaned dictation: the field text the model echoed
/// back is cut, and output that looks like a rewrite of the field falls back
/// to the raw transcript when field text was sent.
pub open spec fn dictation_output(first: Seq<char>, field_context: Seq<char>, raw: Seq<char>) -> Seq<
    char,
> {
    let stripped = strip_echo_spec(first, field_context);
    let suspicious = is_blank(stripped) || suspicious_spec(stripped, field_context, raw);
    if !suspicious {
        stripped
    } else if field_context.len() > 0 {
        raw
    } else if is_blank(stripped) {
        raw
    } else {
        stripped
    }
}

pub fn choose_dictation_output(first: &str, field_context: &str, raw: &str) -> (r: String)
    ensures
        r@ == dictation_output(first@, field_context@, raw@),
{
    let stripped = strip_context_echo(first, field_context);
    let stripped_blank = blank(&chars_of(stripped.as_str()));
    let suspicious = stripped_blank || dictation_output_suspicious(
        stripped.as_str(),
        field_context,
        raw,
    );
    if !suspicious {
        stripped
    } else if !field_context.is_empty() {
        String::from_str(raw)
    } else if stripped_blank {
        String::from_str(raw)
    } else {
        stripped
    }
}

/// What the finished utterance works with besides the transcript.
#[derive(Debug, Clone)]
pub struct FinishConfig {
    pub cleanup_level: CleanupLevel,
    pub include_field_context: bool,
    pub prompts: PromptsSettings,
    pub app_name: String,
    /// Text near the caret when the utterance started.
    pub field_context: String,
    /// Selection read when the utterance started.
    pub selection: Option<String>,
    /// Dictionary words, starred first.
    pub dictionary: Vec<String>,
}

/// Where the finishing utterance stands.
#[derive(Debug, Clone, Copy, PartialEq, Eq, Structural)]
pub enum FinishStage {
    AwaitTranscript,
    AwaitSelection,
    AwaitCompletion,
    AwaitSelectionCheck,
    AwaitInjection,
    Done,
}

/// How the text was delivered.
#[derive(Debug, Clone, Copy, PartialEq, Eq, Structural)]
pub enum InjectOutcome {
    /// Pasted or typed into another application.
    External,
    /// The focused window is this application's own; it inserts the text itself.
    InApp,
}

/// Results the runtime reports back while an utterance finishes.
#[derive(Debug)]
pub enum FinishEvent {
    /// The committed transcript, or the error's message.
    Transcript(Result<String, String>),
    /// The selection as read now.
    Selection(Option<String>),
    /// The completion text, or the error's message.
    Completion(Result<String, String>),
    /// The selection as read just before inserting.
    SelectionCheck(Option<String>),
    /// The insertion's outcome, or the error's message.
    Injection(Result<InjectOutcome, String>),
    /// The insertion task itself failed.
    InjectionTaskFailed(String),
}

/// Work for the runtime.
#[derive(Debug)]
pub enum FinishAction {
    /// Report the error, drop the utterance, release modifiers, hide the
    /// overlay, go idle.
    Fail(String),
    ReleaseModifiers,
    Toast(String),
    SetState(EngineState),
    HideOverlay,
    /// Read the current selection.
    ReadSelection,
    /// Ask the language model.
    Complete { system: String, user: String, max_tokens: u32 },
    /// Report an error without stopping.
    EmitError(String),
    /// Re-read the selection before inserting.
    CheckSelection,
    /// Insert the text into the focused field.
    Inject(String),
    /// Hand the text to this application's own window.
    EmitAppInsert(String),
    /// Append the history row.
    Record { mode: String, raw_transcript: String, final_text: String, words: u32 },
    /// Report the insertion.
    EmitInjected { words: u32 },
    /// Learn words from the field after insertion.
    AutoLearn(String),
}

pub enum FinishActionView {
    Fail(Seq<char>),
    ReleaseModifiers,
    Toast(Seq<char>),
    SetState(EngineState),
    HideOverlay,
    ReadSelection,
    Complete { system: Seq<char>, user: Seq<char>, max_tokens: u32 },
    EmitError(Seq<char>),
    CheckSelection,
    Inject(Seq<char>),
    EmitAppInsert(Seq<char>),
    Record { mode: Seq<char>, raw_transcript: Seq<char>, final_text: Seq<char>, words: u32 },
    EmitInjected { words: u32 },
    AutoLearn(Seq<char>),
}

impl View for FinishAction {
    type V = FinishActionView;

    open spec fn view(&self) -> FinishActionView {
        match self {
            FinishAction::Fail(m) => FinishActionView::Fail(m@),
            FinishAction::ReleaseModifiers => FinishActionView::ReleaseModifiers,
            FinishAction::Toast(m) => FinishActionView::Toast(m@),
            FinishAction::SetState(s) => FinishActionView::SetState(*s),
            FinishAction::HideOverlay => FinishActionView::HideOverlay,
            FinishAction::ReadSelection => FinishActionView::ReadSelection,
            FinishAction::Complete { system, user, max_tokens } => FinishActionView::Complete {
                system: system@,
                user: user@,
                max_tokens: *max_tokens,
            },
            FinishAction::EmitError(m) => FinishActionView::EmitError(m@),
            FinishAction::CheckSelection => FinishActionView::CheckSelection,
            FinishAction::Inject(t) => FinishActionView::Inject(t@),
            FinishAction::EmitAppInsert(t) => FinishActionView::EmitAppInsert(t@),
            FinishAction::Record { mode, raw_transcript, final_text, words } =>
                FinishActionView::Record {
                mode: mode@,
                raw_transcript: raw_transcript@,
                final_text: final_text@,
                words: *words,
            },
            FinishAction::EmitInjected { words } => FinishActionView::EmitInjected { words: *words },
            FinishAction::AutoLearn(t) => FinishActionView::AutoLearn(t@),
        }
    }
}

pub open spec fn actions_view(v: Seq<FinishAction>) -> Seq<FinishActionView> {
    v.map_values(|a: FinishAction| a@)
}

/// An utterance being finished.
#[derive(Debug)]
pub struct FinishFlow {
    config: FinishConfig,
    mode: UtteranceMode,
    raw: String,
    selection: Option<String>,
    field_context: String,
    system: String,
    user: String,
    retried: bool,
    first_error: String,
    final_text: String,
    stage: FinishStage,
}

pub struct FlowView {
    /// The mode in effect (an edit without a selection becomes a generation).
    pub mode: UtteranceMode,
    pub raw: Seq<char>,
    pub selection: Option<Seq<char>>,
    /// Field text sent to the model.
    pub field_context: Seq<char>,
    pub system: Seq<char>,
    pub user: Seq<char>,
    pub retried: bool,
    pub first_error: Seq<char>,
    pub final_text: Seq<char>,
    pub stage: FinishStage,
}

impl View for FinishFlow {
    type V = FlowView;

    closed spec fn view(&self) -> FlowView {
        FlowView {
            mode: self.mode,
            raw: self.raw@,
            selection: opt_view(self.selection),
            field_context: self.field_context@,
            system: self.system@,
            user: self.user@,
            retried: self.retried,
            first_error: self.first_error@,
            final_text: self.final_text@,
            stage: self.stage,
        }
    }
}

/// Closing actions once the text is in: the history row, the report, word
/// learning, and back to idle.
pub open spec fn record_actions(f: FlowView) -> Seq<FinishActionView> {
    seq![
        FinishActionView::Record {
            mode: history_mode_spec(f.mode),
            raw_transcript: f.raw,
            final_text: f.final_text,
            words: words_in(f.final_text) as u32,
        },
        FinishActionView::EmitInjected { words: words_in(f.final_text) as u32 },
        FinishActionView::AutoLearn(f.final_text),
        FinishActionView::ReleaseModifiers,
        FinishActionView::HideOverlay,
        FinishActionView::SetState(EngineState::Idle),
    ]
}

/// Start inserting.
pub open spec fn inject_step(f: FlowView) -> (FlowView, Seq<FinishActionView>) {
    (
        FlowView { stage: FinishStage::AwaitInjection, ..f },
        seq![
            FinishActionView::SetState(EngineState::Injecting),
            FinishActionView::Inject(f.final_text),
        ],
    )
}

/// Once the text is known: nothing to insert, a selection to re-check, or insert.
pub open spec fn text_ready(f: FlowView) -> (FlowView, Seq<FinishActionView>) {
    if is_blank(f.final_text) {
        (
            FlowView { stage: FinishStage::Done, ..f },
            seq![
                FinishActionView::ReleaseModifiers,
                FinishActionView::Toast("Empty result — nothing inserted"@),
                FinishActionView::SetState(EngineState::Idle),
            ],
        )
    } else if f.mode == UtteranceMode::CommandEdit && nonblank(f.selection) is Some {
        (
            FlowView { stage: FinishStage::AwaitSelectionCheck, ..f },
            seq![FinishActionView::CheckSelection],
        )
    } else {
        inject_step(f)
    }
}

/// Field text sent along: for dictation only when enabled, for commands
/// also whenever text is generated.
pub open spec fn sent_field_context(cfg: FinishConfig, mode: UtteranceMode) -> Seq<char> {
    if cfg.include_field_context || mode == UtteranceMode::CommandGenerate {
        tail_seq(cfg.field_context@, FIELD_CONTEXT_MAX_CHARS as nat)
    } else {
        Seq::empty()
    }
}

/// The first request, or the raw transcript when dictation skips the model.
pub open spec fn plan(cfg: FinishConfig, f: FlowView) -> (FlowView, Seq<FinishActionView>) {
    match f.mode {
        UtteranceMode::Dictation => if cfg.cleanup_level == CleanupLevel::Off {
            text_ready(FlowView { final_text: f.raw, ..f })
        } else {
            let ctx_text = if cfg.include_field_context {
                tail_seq(cfg.field_context@, FIELD_CONTEXT_MAX_CHARS as nat)
            } else {
                Seq::empty()
            };
            let system = dictation_system(
                level_template(cfg.cleanup_level, cfg.prompts)->0,
                cfg.app_name@,
                ctx_text,
                strings_view(cfg.dictionary@),
            );
            (
                FlowView {
                    field_context: ctx_text,
                    system,
                    user: f.raw,
                    stage: FinishStage::AwaitCompletion,
                    ..f
                },
                seq![
                    FinishActionView::Complete {
                        system,
                        user: f.raw,
                        max_tokens: MAX_COMPLETION_TOKENS,
                    },
                ],
            )
        },
        _ => {
            let ctx_text = sent_field_context(cfg, f.mode);
            let (system, user) = if f.mode == UtteranceMode::CommandEdit && nonblank(f.selection) is Some {
                (
                    command_system(cfg.prompts.command@, cfg.app_name@, ctx_text, strings_view(cfg.dictionary@)),
                    command_user(f.raw, nonblank(f.selection)->0),
                )
            } else {
                (
                    dictation_system(
                        cfg.prompts.command_generate@,
                        cfg.app_name@,
                        ctx_text,
                        strings_view(cfg.dictionary@),
                    ),
                    placeholder_value(f.raw),
                )
            };
            (
                FlowView { field_context: ctx_text, system, user, stage: FinishStage::AwaitCompletion, ..f },
                seq![FinishActionView::Complete { system, user, max_tokens: MAX_COMPLETION_TOKENS }],
            )
        },
    }
}

/// Dictation never loses the transcript: when the model fails, the raw
/// transcript goes through the same safeguards instead.
pub open spec fn dictation_fallback(f: FlowView, err: Seq<char>) -> (FlowView, Seq<FinishActionView>) {
    let r = text_ready(FlowView { final_text: dictation_output(f.raw, f.field_context, f.raw), ..f });
    (
        r.0,
        seq![
            FinishActionView::Toast("Cleanup failed — pasted raw transcript"@),
            FinishActionView::EmitError("Groq failed (raw used): "@ + err),
        ] + r.1,
    )
}

pub open spec fn retry(f: FlowView, err: Seq<char>) -> (FlowView, Seq<FinishActionView>) {
    (
        FlowView { retried: true, first_error: err, ..f },
        seq![
            FinishActionView::Complete {
                system: f.system,
                user: f.user,
                max_tokens: RETRY_MAX_COMPLETION_TOKENS,
            },
        ],
    )
}

pub open spec fn fail(f: FlowView, msg: Seq<char>) -> (FlowView, Seq<FinishActionView>) {
    (FlowView { stage: FinishStage::Done, ..f }, seq![FinishActionView::Fail(msg)])
}

/// One step of finishing an utterance.
pub open spec fn finish_step(cfg: FinishConfig, f: FlowView, e: FinishEvent) -> (FlowView, Seq<
    FinishActionView,
>) {
    match (f.stage, e) {
        (FinishStage::AwaitTranscript, FinishEvent::Transcript(Err(m))) => fail(
            f,
            "STT commit failed: "@ + m@,
        ),
        (FinishStage::AwaitTranscript, FinishEvent::Transcript(Ok(raw))) => if is_blank(raw@) {
            (
                FlowView { stage: FinishStage::Done, ..f },
                seq![
                    FinishActionView::ReleaseModifiers,
                    FinishActionView::Toast("No speech detected"@),
                    FinishActionView::SetState(EngineState::Idle),
                ],
            )
        } else if f.mode == UtteranceMode::CommandEdit {
            (
                FlowView { raw: raw@, stage: FinishStage::AwaitSelection, ..f },
                seq![FinishActionView::ReadSelection],
            )
        } else {
            plan(cfg, FlowView { raw: raw@, ..f })
        },
        (FinishStage::AwaitSelection, FinishEvent::Selection(sel)) => match nonblank(opt_view(sel)) {
            Some(s) => plan(cfg, FlowView { selection: Some(s), ..f }),
            None => if nonblank(f.selection) is Some {
                plan(cfg, f)
            } else {
                let r = plan(cfg, FlowView { mode: UtteranceMode::CommandGenerate, ..f });
                (r.0, seq![FinishActionView::Toast("No selection — generating at cursor"@)] + r.1)
            },
        },
        (FinishStage::AwaitCompletion, FinishEvent::Completion(Ok(text))) => if f.mode
            == UtteranceMode::Dictation {
            text_ready(FlowView { final_text: dictation_output(text@, f.field_context, f.raw), ..f })
        } else {
            text_ready(FlowView { final_text: text@, ..f })
        },
        (FinishStage::AwaitCompletion, FinishEvent::Completion(Err(m))) => if !f.retried && too_large(
            m@,
        ) {
            retry(f, m@)
        } else if f.mode == UtteranceMode::Dictation {
            dictation_fallback(f, if f.retried { f.first_error } else { m@ })
        } else {
            fail(f, "Groq failed: "@ + m@)
        },
        (FinishStage::AwaitSelectionCheck, FinishEvent::SelectionCheck(sel)) => {
            let r = inject_step(f);
            if nonblank(opt_view(sel)) is None {
                (r.0, seq![FinishActionView::Toast("Selection lost — inserting at cursor"@)] + r.1)
            } else {
                r
            }
        },
        (FinishStage::AwaitInjection, FinishEvent::Injection(Ok(InjectOutcome::External))) => (
            FlowView { stage: FinishStage::Done, ..f },
            record_actions(f),
        ),
        (FinishStage::AwaitInjection, FinishEvent::Injection(Ok(InjectOutcome::InApp))) => (
            FlowView { stage: FinishStage::Done, ..f },
            seq![FinishActionView::EmitAppInsert(f.final_text)] + record_actions(f),
        ),
        (FinishStage::AwaitInjection, FinishEvent::Injection(Err(m))) => fail(
            f,
            "injection failed: "@ + m@,
        ),
        (FinishStage::AwaitInjection, FinishEvent::InjectionTaskFailed(m)) => fail(
            f,
            "injection task failed: "@ + m@,
        ),
        _ => (f, Seq::empty()),
    }
}

fn lit(s: &str) -> (r: String)
    ensures
        r@ == s@,
{
    String::from_str(s)
}

fn prefixed(prefix: &str, s: &String) -> (r: String)
    ensures
        r@ == prefix@ + s@,
{
    let mut r = String::from_str(prefix);
    r.append(s.as_str());
    r
}

impl FinishFlow {
    /// Start finishing an utterance of `mode`; the transcript is awaited.
    pub fn new(config: FinishConfig, mode: UtteranceMode) -> (f: FinishFlow)
        ensures
            f@.mode == mode,
            f@.selection == opt_view(config.selection),
            f@.stage == FinishStage::AwaitTranscript,
            f@.retried == false,
            f@.raw.len() == 0,
            f@.field_context.len() == 0,
            f@.system.len() == 0,
            f@.user.len() == 0,
            f@.first_error.len() == 0,
            f@.final_text.len() == 0,
            f.config() == config,
    {
        let selection = match &config.selection {
            Some(s) => Some(s.clone()),
            None => None,
        };
        FinishFlow {
            config,
            mode,
            raw: String::new(),
            selection,
            field_context: String::new(),
            system: String::new(),
            user: String::new(),
            retried: false,
            first_error: String::new(),
            final_text: String::new(),
            stage: FinishStage::AwaitTranscript,
        }
    }

    pub closed spec fn config(&self) -> FinishConfig {
        self.config
    }

    /// Has the utterance been settled?
    pub fn is_done(&self) -> (r: bool)
        ensures
            r == (self@.stage == FinishStage::Done),
    {
        self.stage == FinishStage::Done
    }

    /// The mode in effect.
    pub fn mode(&self) -> (r: UtteranceMode)
        ensures
            r == self@.mode,
    {
        self.mode
    }

    fn record(&self, out: &mut Vec<FinishAction>)
        ensures
            actions_view(final(out)@) == actions_view(old(out)@) + record_actions(self@),
    {
        let words = word_count(self.final_text.as_str());
        out.push(
            FinishAction::Record {
                mode: self.mode.history_mode(),
                raw_transcript: self.raw.clone(),
                final_text: self.final_text.clone(),
                words,
            },
        );
        out.push(FinishAction::EmitInjected { words });
        out.push(FinishAction::AutoLearn(self.final_text.clone()));
        out.push(FinishAction::ReleaseModifiers);
        out.push(FinishAction::HideOverlay);
        out.push(FinishAction::SetState(EngineState::Idle));
        assert(actions_view(out@) =~= actions_view(old(out)@) + record_actions(self@));
    }

    fn inject(&mut self, out: &mut Vec<FinishAction>)
        ensures
            final(self).config() == old(self).config(),
            final(self)@ == inject_step(old(self)@).0,
            actions_view(final(out)@) == actions_view(old(out)@) + inject_step(old(self)@).1,
    {
        self.stage = FinishStage::AwaitInjection;
        out.push(FinishAction::SetState(EngineState::Injecting));
        out.push(FinishAction::Inject(self.final_text.clone()));
        assert(actions_view(out@) =~= actions_view(old(out)@) + inject_step(old(self)@).1);
    }

    fn text_ready(&mut self, out: &mut Vec<FinishAction>)
        ensures
            final(self).config() == old(self).config(),
            final(self)@ == text_ready(old(self)@).0,
            actions_view(final(out)@) == actions_view(old(out)@) + text_ready(old(self)@).1,
    {
        if blank(&chars_of(self.final_text.as_str())) {
            self.stage = FinishStage::Done;
            out.push(FinishAction::ReleaseModifiers);
            out.push(FinishAction::Toast(lit("Empty result — nothing inserted")));
            out.push(FinishAction::SetState(EngineState::Idle));
            assert(actions_view(out@) =~= actions_view(old(out)@) + text_ready(old(self)@).1);
            return;
        }
        let has_sel = match &self.selection {
            Some(s) => !blank(&chars_of(s.as_str())),
            None => false,
        };
        if self.mode == UtteranceMode::CommandEdit && has_sel {
            self.stage = FinishStage::AwaitSelectionCheck;
            out.push(FinishAction::CheckSelection);
            assert(actions_view(out@) =~= actions_view(old(out)@) + text_ready(old(self)@).1);
        } else {
            self.inject(out);
        }
    }

    fn plan(&mut self, out: &mut Vec<FinishAction>)
        ensures
            final(self).config() == old(self).config(),
            final(self)@ == plan(old(self).config(), old(self)@).0,
            actions_view(final(out)@) == actions_view(old(out)@) + plan(
                old(self).config(),
                old(self)@,
            ).1,
    {
        if self.mode == UtteranceMode::Dictation {
            if self.config.cleanup_level == CleanupLevel::Off {
                self.final_text = self.raw.clone();
                self.text_ready(out);
                return;
            }
            let ctx_text = if self.config.include_field_context {
                tail_chars(self.config.field_context.as_str(), FIELD_CONTEXT_MAX_CHARS)
            } else {
                String::new()
            };
            let pctx = PromptContext {
                app_name: self.config.app_name.clone(),
                field_context: ctx_text.clone(),
                dictionary: clone_strings(&self.config.dictionary),
            };
            let msgs = build_dictation(
                self.config.cleanup_level,
                &self.config.prompts,
                &pctx,
                self.raw.as_str(),
            );
            match msgs {
                Some(m) => {
                    self.field_context = ctx_text;
                    self.system = m.system.clone();
                    self.user = m.user.clone();
                    self.stage = FinishStage::AwaitCompletion;
                    out.push(
                        FinishAction::Complete {
                            system: m.system,
                            user: m.user,
                            max_tokens: MAX_COMPLETION_TOKENS,
                        },
                    );
                    assert(actions_view(out@) =~= actions_view(old(out)@) + plan(
                        old(self).config(),
                        old(self)@,
                    ).1);
                },
                None => {},
            }
        } else {
            let ctx_text = if self.config.include_field_context || self.mode
                == UtteranceMode::CommandGenerate {
                tail_chars(self.config.field_context.as_str(), FIELD_CONTEXT_MAX_CHARS)
            } else {
                String::new()
            };
            let pctx = PromptContext {
                app_name: self.config.app_name.clone(),
                field_context: ctx_text.clone(),
                dictionary: clone_strings(&self.config.dictionary),
            };
            let sel = match &self.selection {
                Some(s) => if !blank(&chars_of(s.as_str())) {
                    Some(s.as_str())
                } else {
                    None
                },
                None => None,
            };
            let msgs = match sel {
                Some(sel_text) => {
                    if self.mode == UtteranceMode::CommandEdit {
                        build_command(&self.config.prompts, &pctx, self.raw.as_str(), sel_text)
                    } else {
                        build_command_generate(&self.config.prompts, &pctx, self.raw.as_str())
                    }
                },
                None => build_command_generate(&self.config.prompts, &pctx, self.raw.as_str()),
            };
            self.field_context = ctx_text;
            self.system = msgs.system.clone();
            self.user = msgs.user.clone();
            self.stage = FinishStage::AwaitCompletion;
            out.push(
                FinishAction::Complete {
                    system: msgs.system,
                    user: msgs.user,
                    max_tokens: MAX_COMPLETION_TOKENS,
                },
            );
            assert(actions_view(out@) =~= actions_view(old(out)@) + plan(
                old(self).config(),
                old(self)@,
            ).1);
        }
    }

    fn dictation_fallback(&mut self, err: String, out: &mut Vec<FinishAction>)
        requires
            old(self)@.stage == FinishStage::AwaitCompletion,
        ensures
            final(self).config() == old(self).config(),
            final(self)@ == dictation_fallback(old(self)@, err@).0,
            actions_view(final(out)@) == actions_view(old(out)@) + dictation_fallback(
                old(self)@,
                err@,
            ).1,
    {
        out.push(FinishAction::Toast(lit("Cleanup failed — pasted raw transcript")));
        out.push(FinishAction::EmitError(prefixed("Groq failed (raw used): ", &err)));
        let ghost mid = out@;
        self.final_text = choose_dictation_output(
            self.raw.as_str(),
            self.field_context.as_str(),
            self.raw.as_str(),
        );
        self.text_ready(out);
        assert(actions_view(out@) =~= actions_view(old(out)@) + dictation_fallback(
            old(self)@,
            err@,
        ).1);
    }

    fn fail(&mut self, msg: String, out: &mut Vec<FinishAction>)
        ensures
            final(self).config() == old(self).config(),
            final(self)@ == fail(old(self)@, msg@).0,
            actions_view(final(out)@) == actions_view(old(out)@) + fail(old(self)@, msg@).1,
    {
        self.stage = FinishStage::Done;
        out.push(FinishAction::Fail(msg));
        assert(actions_view(out@) =~= actions_view(old(out)@) + fail(old(self)@, msg@).1);
    }

    /// Take one reported result and say what to do next.
    pub fn step(&mut self, event: FinishEvent) -> (actions: Vec<FinishAction>)
        ensures
            final(self).config() == old(self).config(),
            (final(self)@, actions_view(actions@)) == finish_step(
                old(self).config(),
                old(self)@,
                event,
            ),
    {
        let mut out: Vec<FinishAction> = Vec::new();
        assert(actions_view(out@) =~= Seq::<FinishActionView>::empty());
        match (self.stage, event) {
            (FinishStage::AwaitTranscript, FinishEvent::Transcript(Err(m))) => {
                self.fail(prefixed("STT commit failed: ", &m), &mut out);
            },
            (FinishStage::AwaitTranscript, FinishEvent::Transcript(Ok(raw))) => {
                if blank(&chars_of(raw.as_str())) {
                    self.stage = FinishStage::Done;
                    out.push(FinishAction::ReleaseModifiers);
                    out.push(FinishAction::Toast(lit("No speech detected")));
                    out.push(FinishAction::SetState(EngineState::Idle));
                } else if self.mode == UtteranceMode::CommandEdit {
                    self.raw = raw;
                    self.stage = FinishStage::AwaitSelection;
                    out.push(FinishAction::ReadSelection);
                } else {
                    self.raw = raw;
                    self.plan(&mut out);
                }
            },
            (FinishStage::AwaitSelection, FinishEvent::Selection(sel)) => {
                match nonblank_exec(sel) {
                    Some(s) => {
                        self.selection = Some(s);
                        self.plan(&mut out);
                    },
                    None => {
                        let has_stored = match &self.selection {
                            Some(s) => !blank(&chars_of(s.as_str())),
                            None => false,
                        };
                        if has_stored {
                            self.plan(&mut out);
                        } else {
                            out.push(FinishAction::Toast(lit("No selection — generating at cursor")));
                            self.mode = UtteranceMode::CommandGenerate;
                            self.plan(&mut out);
                        }
                    },
                }
            },
            (FinishStage::AwaitCompletion, FinishEvent::Completion(Ok(text))) => {
                if self.mode == UtteranceMode::Dictation {
                    self.final_text = choose_dictation_output(
                        text.as_str(),
                        self.field_context.as_str(),
                        self.raw.as_str(),
                    );
                } else {
                    self.final_text = text;
                }
                self.text_ready(&mut out);
            },
            (FinishStage::AwaitCompletion, FinishEvent::Completion(Err(m))) => {
                if !self.retried && should_retry_smaller(m.as_str()) {
                    self.retried = true;
                    self.first_error = m;
                    out.push(
                        FinishAction::Complete {
                            system: self.system.clone(),
                            user: self.user.clone(),
                            max_tokens: RETRY_MAX_COMPLETION_TOKENS,
                        },
                    );
                } else if self.mode == UtteranceMode::Dictation {
                    let err = if self.retried {
                        self.first_error.clone()
                    } else {
                        m
                    };
                    self.dictation_fallback(err, &mut out);
                } else {
                    self.fail(prefixed("Groq failed: ", &m), &mut out);
                }
            },
            (FinishStage::AwaitSelectionCheck, FinishEvent::SelectionCheck(sel)) => {
                if nonblank_exec(sel).is_none() {
                    out.push(FinishAction::Toast(lit("Selection lost — inserting at cursor")));
                }
                self.inject(&mut out);
            },
            (FinishStage::AwaitInjection, FinishEvent::Injection(Ok(InjectOutcome::External))) => {
                self.stage = FinishStage::Done;
                self.record(&mut out);
            },
            (FinishStage::AwaitInjection, FinishEvent::Injection(Ok(InjectOutcome::InApp))) => {
                self.stage = FinishStage::Done;
                out.push(FinishAction::EmitAppInsert(self.final_text.clone()));
                self.record(&mut out);
            },
            (FinishStage::AwaitInjection, FinishEvent::Injection(Err(m))) => {
                self.fail(prefixed("injection failed: ", &m), &mut out);
            },
            (FinishStage::AwaitInjection, FinishEvent::InjectionTaskFailed(m)) => {
                self.fail(prefixed("injection task failed: ", &m), &mut out);
            },
            _ => {},
        }
        out
    }
}

/// A copy of each string.
fn clone_strings(v: &Vec<String>) -> (r: Vec<String>)
    ensures
        r@ == v@,
{
    let mut r: Vec<String> = Vec::new();
    let mut i: usize = 0;
    while i < v.len()
        invariant
            i <= v.len(),
            r@ == v@.take(i as int),
        decreases v.len() - i,
    {
        r.push(v[i].clone());
        assert(v@.take(i + 1) == v@.take(i as int).push(v@[i as int]));
        i += 1;
    }
    assert(v@.take(v.len() as int) == v@);
    r
}

// ---------------------------------------------------------------------------
// Focus, audio buffering and the command channel
// ---------------------------------------------------------------------------

/// What was focused when the utterance started.
#[derive(Debug, Clone, Default)]
pub struct FocusContext {
    pub app_name: String,
    pub window_title: String,
    /// Text near the caret or the field's value.
    pub field_context: String,
    /// The selection, if any (command mode).
    pub selection: Option<String>,
    /// Foreground window handle at capture time (re-read for auto-learn).
    pub hwnd: isize,
}

/// Audio chunks kept while the speech-to-text session opens.
pub const MAX_PENDING_CHUNKS: usize = 500;

/// How many of the oldest pending chunks to drop so that at most
/// [`MAX_PENDING_CHUNKS`] stay buffered.
pub fn pending_overflow(pending: usize) -> (drop: usize)
    ensures
        drop == (if pending > MAX_PENDING_CHUNKS {
            pending - MAX_PENDING_CHUNKS
        } else {
            0
        }),
        pending - drop <= MAX_PENDING_CHUNKS,
{
    if pending > MAX_PENDING_CHUNKS {
        pending - MAX_PENDING_CHUNKS
    } else {
        0
    }
}

/// The engine's command channel is gone.
#[derive(Debug, Clone, Copy, PartialEq, Eq, Structural)]
pub enum EngineSendError {
    Closed,
}

impl EngineSendError {
    pub fn to_string(&self) -> (r: String)
        ensures
            r@ == "engine command channel closed"@,
    {
        String::from_str("engine command channel closed")
    }
}

/// Why starting an utterance failed.
#[derive(Debug)]
pub enum BeginFailure {
    /// The microphone could not be opened.
    Capture(String),
    /// The speech-to-text session could not be opened.
    SttOpen(String),
}

impl BeginFailure {
    /// The error reported to the user.
    pub fn message(&self) -> (r: String)
        ensures
            r@ == match self {
                BeginFailure::Capture(e) => "audio capture failed: "@ + e@,
                BeginFailure::SttOpen(e) => "STT open failed: "@ + e@,
            },
    {
        match self {
            BeginFailure::Capture(e) => prefixed("audio capture failed: ", e),
            BeginFailure::SttOpen(e) => prefixed("STT open failed: ", e),
        }
    }
}

/// The closing actions of a finished flow: back to idle, or a failure to
/// report (which the caller answers by going back to idle).
pub open spec fn ends_well(acts: Seq<FinishActionView>) -> bool {
    acts.len() > 0 && (acts.last() == FinishActionView::SetState(EngineState::Idle)
        || acts.last() is Fail)
}

proof fn lemma_text_ready_ends(f: FlowView)
    ensures
        text_ready(f).0.stage == FinishStage::Done ==> ends_well(text_ready(f).1),
        text_ready(f).1.len() > 0,
{
}

proof fn lemma_plan_ends(cfg: FinishConfig, f: FlowView)
    ensures
        plan(cfg, f).0.stage == FinishStage::Done ==> ends_well(plan(cfg, f).1),
        plan(cfg, f).1.len() > 0,
{
    lemma_text_ready_ends(FlowView { final_text: f.raw, ..f });
}

proof fn lemma_last_of_concat(a: Seq<FinishActionView>, b: Seq<FinishActionView>)
    requires
        b.len() > 0,
    ensures
        (a + b).len() > 0,
        (a + b).last() == b.last(),
{
}

/// Finishing an utterance ends well: a step that completes the flow closes
/// with going back to idle or with a failure to report.
pub proof fn lemma_finish_ends_idle_or_fails(cfg: FinishConfig, f: FlowView, e: FinishEvent)
    requires
        f.stage != FinishStage::Done,
    ensures
        finish_step(cfg, f, e).0.stage == FinishStage::Done ==> ends_well(finish_step(cfg, f, e).1),
{
    let r = finish_step(cfg, f, e);
    match (f.stage, e) {
        (FinishStage::AwaitTranscript, FinishEvent::Transcript(Ok(raw))) => {
            lemma_plan_ends(cfg, FlowView { raw: raw@, ..f });
        },
        (FinishStage::AwaitSelection, FinishEvent::Selection(sel)) => {
            match nonblank(opt_view(sel)) {
                Some(s) => lemma_plan_ends(cfg, FlowView { selection: Some(s), ..f }),
                None => {
                    lemma_plan_ends(cfg, f);
                    let g = FlowView { mode: UtteranceMode::CommandGenerate, ..f };
                    lemma_plan_ends(cfg, g);
                    lemma_last_of_concat(
                        seq![FinishActionView::Toast("No selection — generating at cursor"@)],
                        plan(cfg, g).1,
                    );
                },
            }
        },
        (FinishStage::AwaitCompletion, FinishEvent::Completion(Ok(text))) => {
            lemma_text_ready_ends(
                FlowView { final_text: dictation_output(text@, f.field_context, f.raw), ..f },
            );
            lemma_text_ready_ends(FlowView { final_text: text@, ..f });
        },
        (FinishStage::AwaitCompletion, FinishEvent::Completion(Err(m))) => {
            let g = FlowView { final_text: dictation_output(f.raw, f.field_context, f.raw), ..f };
            lemma_text_ready_ends(g);
            let err = if f.retried { f.first_error } else { m@ };
            lemma_last_of_concat(
                seq![
                    FinishActionView::Toast("Cleanup failed — pasted raw transcript"@),
                    FinishActionView::EmitError("Groq failed (raw used): "@ + err),
                ],
                text_ready(g).1,
            );
        },
        (FinishStage::AwaitSelectionCheck, FinishEvent::SelectionCheck(sel)) => {},
        (FinishStage::AwaitInjection, FinishEvent::Injection(Ok(InjectOutcome::InApp))) => {
            lemma_last_of_concat(seq![FinishActionView::EmitAppInsert(f.final_text)], record_actions(f));
        },
        _ => {},
    }
}

/// A dictation inserts what the model made of it: when a completion comes
/// back and, with a leading echo of the field text stripped, is neither
/// blank nor suspicious, that stripped completion is the final text and is
/// inserted.
pub proof fn lemma_dictation_inserts_cleaned_completion(cfg: FinishConfig, f: FlowView, t: String)
    requires
        f.stage == FinishStage::AwaitCompletion,
        f.mode == UtteranceMode::Dictation,
    ensures
        ({
            let c = strip_echo_spec(t@, f.field_context);
            let r = finish_step(cfg, f, FinishEvent::Completion(Ok(t)));
            !is_blank(c) && !suspicious_spec(c, f.field_context, f.raw) ==> {
                &&& r.0.final_text == c
                &&& r.0.stage == FinishStage::AwaitInjection
                &&& r.1 == seq![
                    FinishActionView::SetState(EngineState::Injecting),
                    FinishActionView::Inject(c),
                ]
            }
        }),
{
}

/// Dictation never loses the transcript to a failing model: a completion
/// error while cleaning dictation is retried or answered with the raw
/// transcript, never with a failure.
pub proof fn lemma_dictation_survives_model_errors(cfg: FinishConfig, f: FlowView, err: String)
    requires
        f.stage == FinishStage::AwaitCompletion,
        f.mode == UtteranceMode::Dictation,
    ensures
        forall|i: int|
            0 <= i < finish_step(cfg, f, FinishEvent::Completion(Err(err))).1.len() ==> !(
            #[trigger] finish_step(cfg, f, FinishEvent::Completion(Err(err))).1[i] is Fail),
{
    let r = finish_step(cfg, f, FinishEvent::Completion(Err(err)));
    if !f.retried && too_large(err@) {
        assert(r.1 == retry(f, err@).1);
    } else {
        let g = FlowView { final_text: dictation_output(f.raw, f.field_context, f.raw), ..f };
        let t = text_ready(g);
        assert(r.1 == seq![
            FinishActionView::Toast("Cleanup failed — pasted raw transcript"@),
            FinishActionView::EmitError("Groq failed (raw used): "@ + (if f.retried { f.first_error } else { err@ })),
        ] + t.1);
        assert forall|i: int| 0 <= i < t.1.len() implies !(#[trigger] t.1[i] is Fail) by {
            if !is_blank(g.final_text) && !(g.mode == UtteranceMode::CommandEdit && nonblank(g.selection) is Some) {
                assert(t.1 == inject_step(g).1);
            }
        }
        assert forall|i: int| 0 <= i < r.1.len() implies !(#[trigger] r.1[i] is Fail) by {
            if i >= 2 {
                assert(r.1[i] == t.1[i - 2]);
            }
        }
    }
}

} // verus!
