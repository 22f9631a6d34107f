use villflow::engine::{
    check_ready, choose_dictation_output, command_mode_for_selection, pending_overflow,
    should_retry_smaller, tail_chars, word_count, ControlAction, EngineControl, FinishAction,
    FinishConfig, FinishEvent, FinishFlow, InjectOutcome, UtteranceMode, MAX_COMPLETION_TOKENS,
    RETRY_MAX_COMPLETION_TOKENS,
};
use villflow::hotkeys::{HotkeyEvent, HotkeyId};
use villflow::settings::{CleanupLevel, EngineState, PromptsSettings, Settings};

fn ready_settings() -> Settings {
    let mut s = Settings::default();
    s.stt.api_keys = vec!["el".into()];
    s.llm.api_key = "gsk".into();
    s
}

#[test]
fn util_measures() {
    assert_eq!(word_count("  one two\tthree \n"), 3);
    assert_eq!(word_count(""), 0);
    assert_eq!(tail_chars("héllo", 3), "llo");
    assert_eq!(tail_chars("ab", 5), "ab");
    assert_eq!(pending_overflow(503), 3);
    assert_eq!(pending_overflow(10), 0);
}

#[test]
fn readiness_messages() {
    let mut s = Settings::default();
    s.stt.api_keys = vec!["  ".into()];
    assert_eq!(check_ready(&s, UtteranceMode::Dictation).unwrap_err(), "Add your API keys in Setup.");
    s.stt.api_keys = vec!["el".into()];
    s.llm.api_key = " ".into();
    assert_eq!(check_ready(&s, UtteranceMode::CommandEdit).unwrap_err(), "Add your Groq API key in Setup.");
    s.llm.cleanup_level = CleanupLevel::Off;
    assert!(check_ready(&s, UtteranceMode::Dictation).is_ok());
}

#[test]
fn hotkey_control_flow() {
    let s = ready_settings();
    let mut c = EngineControl::new();
    assert_eq!(
        c.on_hotkey(&s, HotkeyEvent::Down(HotkeyId::Dictation)),
        ControlAction::Begin(UtteranceMode::Dictation)
    );
    c.begin(UtteranceMode::Dictation);
    assert_eq!(c.state, EngineState::Connecting);
    // Released while still connecting: remembered.
    assert_eq!(c.on_hotkey(&s, HotkeyEvent::Up(HotkeyId::Dictation)), ControlAction::Nothing);
    assert!(c.pending_finish);
    assert!(c.started(UtteranceMode::Dictation));
    assert_eq!(c.on_hotkey(&s, HotkeyEvent::Up(HotkeyId::Dictation)), ControlAction::Finish);
    // Not idle: a second press does nothing.
    assert_eq!(c.on_hotkey(&s, HotkeyEvent::Down(HotkeyId::CommandMode)), ControlAction::Nothing);
    c.abort();
    assert_eq!(c.on_hotkey(&s, HotkeyEvent::Down(HotkeyId::CommandMode)), ControlAction::BeginCommand);
    let empty = Settings::default();
    assert!(matches!(
        EngineControl::new().on_hotkey(&empty, HotkeyEvent::Down(HotkeyId::Dictation)),
        ControlAction::Refuse(_)
    ));
    assert_eq!(command_mode_for_selection(&Some("text".into())), UtteranceMode::CommandEdit);
    assert_eq!(command_mode_for_selection(&Some("  ".into())), UtteranceMode::CommandGenerate);
    assert_eq!(UtteranceMode::CommandEdit.overlay_label(), "Edit");
    assert_eq!(UtteranceMode::CommandGenerate.history_mode(), "command_generate");
}

#[test]
fn retry_and_output_choice() {
    assert!(should_retry_smaller("Groq API error: HTTP 413 Payload Too Large"));
    assert!(should_retry_smaller("request too large for TPM"));
    assert!(!should_retry_smaller("HTTP 500"));
    assert_eq!(choose_dictation_output("Hello there.", "", "hello there"), "Hello there.");
    assert_eq!(choose_dictation_output("   ", "", "raw words"), "raw words");
}

fn config(level: CleanupLevel) -> FinishConfig {
    FinishConfig {
        cleanup_level: level,
        include_field_context: false,
        prompts: PromptsSettings::default(),
        app_name: "notepad.exe".into(),
        field_context: "earlier text".into(),
        selection: None,
        dictionary: vec!["VillFlow".into()],
    }
}

#[test]
fn dictation_without_cleanup_inserts_raw() {
    let mut f = FinishFlow::new(config(CleanupLevel::Off), UtteranceMode::Dictation);
    let a = f.step(FinishEvent::Transcript(Ok("hello world".into())));
    assert!(matches!(&a[..], [FinishAction::SetState(EngineState::Injecting), FinishAction::Inject(t)] if t == "hello world"));
    let b = f.step(FinishEvent::Injection(Ok(InjectOutcome::External)));
    assert!(matches!(&b[0], FinishAction::Record { mode, words: 2, .. } if mode == "dictation"));
    assert!(matches!(b.last(), Some(FinishAction::SetState(EngineState::Idle))));
    assert!(f.is_done());
}

#[test]
fn blank_transcript_is_not_inserted() {
    let mut f = FinishFlow::new(config(CleanupLevel::Medium), UtteranceMode::Dictation);
    let a = f.step(FinishEvent::Transcript(Ok("   ".into())));
    assert!(matches!(&a[1], FinishAction::Toast(t) if t == "No speech detected"));
    assert!(f.is_done());
}

#[test]
fn dictation_retries_smaller_then_falls_back_to_raw() {
    let mut f = FinishFlow::new(config(CleanupLevel::Medium), UtteranceMode::Dictation);
    let a = f.step(FinishEvent::Transcript(Ok("um hello there".into())));
    assert!(matches!(&a[..], [FinishAction::Complete { user, max_tokens, .. }] if user == "um hello there" && *max_tokens == MAX_COMPLETION_TOKENS));
    let b = f.step(FinishEvent::Completion(Err("HTTP 413".into())));
    assert!(matches!(&b[..], [FinishAction::Complete { max_tokens, .. }] if *max_tokens == RETRY_MAX_COMPLETION_TOKENS));
    let c = f.step(FinishEvent::Completion(Err("HTTP 500".into())));
    assert!(matches!(&c[0], FinishAction::Toast(t) if t == "Cleanup failed — pasted raw transcript"));
    assert!(matches!(&c[1], FinishAction::EmitError(e) if e == "Groq failed (raw used): HTTP 413"));
    assert!(matches!(&c[3], FinishAction::Inject(t) if t == "um hello there"));
}

#[test]
fn command_failure_fails_the_utterance() {
    let mut f = FinishFlow::new(config(CleanupLevel::Medium), UtteranceMode::CommandGenerate);
    f.step(FinishEvent::Transcript(Ok("write a haiku".into())));
    let b = f.step(FinishEvent::Completion(Err("HTTP 500".into())));
    assert!(matches!(&b[..], [FinishAction::Fail(m)] if m == "Groq failed: HTTP 500"));
    assert!(f.is_done());
}

#[test]
fn edit_without_selection_generates() {
    let mut f = FinishFlow::new(config(CleanupLevel::Medium), UtteranceMode::CommandEdit);
    let a = f.step(FinishEvent::Transcript(Ok("make it formal".into())));
    assert!(matches!(&a[..], [FinishAction::ReadSelection]));
    let b = f.step(FinishEvent::Selection(None));
    assert!(matches!(&b[0], FinishAction::Toast(t) if t == "No selection — generating at cursor"));
    assert_eq!(f.mode(), UtteranceMode::CommandGenerate);
    let c = f.step(FinishEvent::Completion(Ok("Dear Sir".into())));
    assert!(matches!(&c[..], [FinishAction::SetState(EngineState::Injecting), FinishAction::Inject(t)] if t == "Dear Sir"));
    let d = f.step(FinishEvent::Injection(Ok(InjectOutcome::InApp)));
    assert!(matches!(&d[0], FinishAction::EmitAppInsert(t) if t == "Dear Sir"));
    assert!(matches!(&d[1], FinishAction::Record { mode, .. } if mode == "command_generate"));
}

#[test]
fn edit_with_selection_rechecks_before_insert() {
    let mut f = FinishFlow::new(config(CleanupLevel::Medium), UtteranceMode::CommandEdit);
    f.step(FinishEvent::Transcript(Ok("shorter".into())));
    let b = f.step(FinishEvent::Selection(Some("a long sentence".into())));
    assert!(matches!(&b[..], [FinishAction::Complete { user, .. }] if user == "INSTRUCTION:\nshorter\n\nTEXT:\na long sentence"));
    let c = f.step(FinishEvent::Completion(Ok("short".into())));
    assert!(matches!(&c[..], [FinishAction::CheckSelection]));
    let d = f.step(FinishEvent::SelectionCheck(None));
    assert!(matches!(&d[0], FinishAction::Toast(t) if t == "Selection lost — inserting at cursor"));
    let e = f.step(FinishEvent::Injection(Err("clipboard busy".into())));
    assert!(matches!(&e[..], [FinishAction::Fail(m)] if m == "injection failed: clipboard busy"));
}

#[test]
fn commit_failure_reported() {
    let mut f = FinishFlow::new(config(CleanupLevel::Medium), UtteranceMode::Dictation);
    let a = f.step(FinishEvent::Transcript(Err("socket closed".into())));
    assert!(matches!(&a[..], [FinishAction::Fail(m)] if m == "STT commit failed: socket closed"));
}
