use villflow::prompt::{build_command, build_dictation, format_dictionary, reset_prompt, resolve_placeholder, PromptContext};
use villflow::settings::{CleanupLevel, PromptsSettings, PROMPT_COMMAND, PROMPT_LIGHT};

fn default_prompts() -> PromptsSettings {
    PromptsSettings::default()
}

#[test]
fn empty_placeholder_becomes_none() {
    assert_eq!(resolve_placeholder(""), "(none)");
    assert_eq!(resolve_placeholder("   "), "(none)");
    assert_eq!(resolve_placeholder("hello"), "hello");
}

#[test]
fn format_dictionary_empty_and_nonempty() {
    assert_eq!(format_dictionary(&[]), "(none)");
    assert_eq!(format_dictionary(&["alpha".into(), "beta".into()]), "alpha, beta");
    assert_eq!(format_dictionary(&["  ".into(), "keep".into(), "".into()]), "keep");
}

#[test]
fn dictation_none_skips_llm() {
    let ctx = PromptContext::default();
    let msgs = build_dictation(CleanupLevel::Off, &default_prompts(), &ctx, "raw transcript");
    assert!(msgs.is_none());
}

#[test]
fn dictation_light_resolves_placeholders_and_user_is_transcript() {
    let prompts = default_prompts();
    let ctx = PromptContext {
        app_name: "notepad.exe".into(),
        field_context: "Hello world".into(),
        dictionary: vec!["VillFlow".into(), "Groq".into()],
    };
    let msgs = build_dictation(CleanupLevel::Light, &prompts, &ctx, "um hello there")
        .expect("light should produce messages");
    assert_eq!(msgs.user, "um hello there");
    assert!(msgs.system.contains("VillFlow, Groq"));
    assert!(msgs.system.contains("notepad.exe"));
    assert!(msgs.system.contains("Hello world"));
    assert!(!msgs.system.contains("{dictionary}"));
    assert!(!msgs.system.contains("{app_name}"));
    assert!(!msgs.system.contains("{field_context}"));
}

#[test]
fn dictation_empty_context_uses_none() {
    let prompts = PromptsSettings { light: PROMPT_LIGHT.to_string(), ..default_prompts() };
    let ctx = PromptContext { app_name: String::new(), field_context: String::new(), dictionary: vec![] };
    let msgs = build_dictation(CleanupLevel::Light, &prompts, &ctx, "hi").unwrap();
    assert!(msgs.system.contains("(none)"));
    assert!(!msgs.system.contains("{dictionary}"));
    assert!(!msgs.system.contains("{app_name}"));
    assert!(!msgs.system.contains("{field_context}"));
}

#[test]
fn command_message_shape() {
    let prompts = PromptsSettings { command: PROMPT_COMMAND.to_string(), ..default_prompts() };
    let ctx = PromptContext { app_name: "Code.exe".into(), field_context: String::new(), dictionary: vec![] };
    let msgs = build_command(&prompts, &ctx, "make formal", "hey there");
    assert!(msgs.system.contains("Code.exe"));
    assert!(!msgs.system.contains("{app_name}"));
    assert_eq!(msgs.user, "INSTRUCTION:\nmake formal\n\nTEXT:\nhey there");
}

#[test]
fn command_empty_instruction_and_selection() {
    let prompts = default_prompts();
    let ctx = PromptContext { app_name: String::new(), ..PromptContext::default() };
    let msgs = build_command(&prompts, &ctx, "", "");
    assert!(msgs.system.contains("(none)"));
    assert_eq!(msgs.user, "INSTRUCTION:\n(none)\n\nTEXT:\n(none)");
}

#[test]
fn medium_and_high_use_respective_templates() {
    let mut prompts = default_prompts();
    prompts.medium = "MED {app_name}".into();
    prompts.high = "HIGH {app_name}".into();
    let ctx = PromptContext { app_name: "x".into(), ..PromptContext::default() };
    let med = build_dictation(CleanupLevel::Medium, &prompts, &ctx, "t").unwrap();
    let high = build_dictation(CleanupLevel::High, &prompts, &ctx, "t").unwrap();
    assert_eq!(med.system, "MED x");
    assert_eq!(high.system, "HIGH x");
}

#[test]
fn reset_prompt_names() {
    assert_eq!(reset_prompt("light").unwrap(), PROMPT_LIGHT);
    assert_eq!(reset_prompt("command").unwrap(), PROMPT_COMMAND);
    assert_eq!(reset_prompt("bogus").unwrap_err(), "Unknown prompt name: bogus");
}

#[test]
fn command_prompt_resolves_the_dictionary() {
    let prompts = default_prompts();
    let ctx = PromptContext {
        app_name: "Code.exe".into(),
        field_context: String::new(),
        dictionary: vec!["VillFlow".into()],
    };
    let msgs = build_command(&prompts, &ctx, "make formal", "hey");
    assert!(!msgs.system.contains("{dictionary}"));
    assert!(msgs.system.contains("VillFlow"));
    let custom = PromptsSettings { command: "D={dictionary} F={field_context}".into(), ..default_prompts() };
    let ctx = PromptContext { app_name: "x".into(), field_context: "ctx".into(), dictionary: vec![] };
    assert_eq!(build_command(&custom, &ctx, "i", "s").system, "D=(none) F=ctx");
}
