use villflow::settings::pick_input_device;
use villflow::settings::{
    default_settings, migrate_settings, CleanupLevel, Settings, LEGACY_PROMPT_COMMAND,
    LEGACY_PROMPT_LIGHT, PROMPT_COMMAND, PROMPT_COMMAND_GENERATE, PROMPT_HIGH, PROMPT_LIGHT,
    PROMPT_MEDIUM, SETTINGS_SCHEMA_VERSION,
};

#[test]
fn default_settings_match_contract() {
    let s = default_settings();
    assert_eq!(s.version, SETTINGS_SCHEMA_VERSION);
    assert_eq!(s.hotkeys.dictation, "Ctrl+Shift+Z");
    assert_eq!(s.audio.input_device, "system_default");
    assert_eq!(s.llm.model, "openai/gpt-oss-120b");
    assert_eq!(s.llm.cleanup_level, CleanupLevel::Medium);
    assert!(!s.llm.include_field_context);
    assert!(!s.dictionary.auto_learn);
    assert_eq!(s.prompts.light, PROMPT_LIGHT);
    assert_eq!(s.prompts.medium, PROMPT_MEDIUM);
    assert_eq!(s.prompts.high, PROMPT_HIGH);
    assert_eq!(s.prompts.command, PROMPT_COMMAND);
    assert_eq!(s.prompts.command_generate, PROMPT_COMMAND_GENERATE);
    assert!(s.prompts.command_generate.contains("no text selected"));
}

#[test]
fn migrate_upgrades_legacy_prompts_only() {
    let mut s = Settings { version: 1, ..Settings::default() };
    s.prompts.light = LEGACY_PROMPT_LIGHT.to_string();
    s.prompts.medium = "my custom medium".into();
    s.prompts.command = LEGACY_PROMPT_COMMAND.to_string();
    s.prompts.command_generate = String::new();

    let (m, changed) = migrate_settings(s);
    assert!(changed);
    assert_eq!(m.version, SETTINGS_SCHEMA_VERSION);
    assert_eq!(m.prompts.light, PROMPT_LIGHT);
    assert_eq!(m.prompts.medium, "my custom medium");
    assert_eq!(m.prompts.command, PROMPT_COMMAND);
    assert_eq!(m.prompts.command_generate, PROMPT_COMMAND_GENERATE);
}

#[test]
fn migrate_noop_when_current() {
    let s = Settings::default();
    let (m, changed) = migrate_settings(s.clone());
    assert!(!changed);
    assert_eq!(m, s);
}

#[test]
fn migrate_twice_changes_nothing_more() {
    let mut s = Settings { version: 1, ..Settings::default() };
    s.prompts.light = LEGACY_PROMPT_LIGHT.to_string();
    let (once, _) = migrate_settings(s);
    let (twice, changed) = migrate_settings(once.clone());
    assert!(!changed);
    assert_eq!(once, twice);
}

#[test]
fn input_device_by_setting() {
    let names = vec![Some("Headset Mic".to_string()), None, Some("USB Mic".to_string()), Some("USB Mic".to_string())];
    assert_eq!(pick_input_device("system_default", &names), Ok(None));
    assert_eq!(pick_input_device("System default", &names), Ok(None));
    assert_eq!(pick_input_device("USB Mic", &names), Ok(Some(2)));
    assert_eq!(pick_input_device("Headset Mic", &names), Ok(Some(0)));
    assert_eq!(
        pick_input_device("Line In", &names),
        Err("input device not found: Line In".to_string())
    );
}
