use villflow::hotkeys::{
    adjust_mods_for_event, combo_involves, hook_decision, update_combos, validate_hotkeys,
    ComboSet, Engaged, HotkeyEvent, HotkeyId, KeyCombo, KeyInput, VK_CONTROL, VK_LSHIFT, VK_SHIFT,
};
use villflow::settings::Settings;

#[test]
fn parse_ctrl_shift_z() {
    let c = KeyCombo::parse("Ctrl+Shift+Z").unwrap();
    assert!(c.ctrl && c.shift && !c.alt && !c.win);
    assert_eq!(c.key_vk, b'Z' as u16);
}

#[test]
fn parse_case_insensitive() {
    let c = KeyCombo::parse("ctrl+shift+x").unwrap();
    assert_eq!(c.key_vk, b'X' as u16);
}

#[test]
fn bare_main_key_should_not_match_modifiers() {
    let c = KeyCombo::parse("Ctrl+Shift+Z").unwrap();
    assert!(!c.matches_modifiers(false, false, false, false));
    assert!(c.matches_modifiers(true, true, false, false));
}

#[test]
fn bare_key_without_modifier_rejected() {
    assert!(KeyCombo::parse("Z").is_none());
    assert!(KeyCombo::parse("Space").is_none());
    assert!(KeyCombo::parse("Ctrl+Z").is_some());
}

#[test]
fn parse_named_keys_and_rejections() {
    let c = KeyCombo::parse(" alt + Space ").unwrap();
    assert!(c.alt && c.has_modifier());
    assert_eq!(c.key_vk, 0x20);
    assert_eq!(KeyCombo::parse("Win+Esc").unwrap().key_vk, 0x1B);
    assert!(KeyCombo::parse("Ctrl+Shift").is_none());
    assert!(KeyCombo::parse("Ctrl+F13").is_none());
    assert!(KeyCombo::parse("Ctrl+é").is_none());
    assert_eq!(KeyCombo::parse("Ctrl++7").unwrap().key_vk, b'7' as u16);
}

#[test]
fn adjust_mods_clears_on_keyup() {
    let (c, s, a, w) = adjust_mods_for_event(VK_CONTROL, true, false, false, false, false);
    assert!(c && !s && !a && !w);
    let (c, s, a, w) = adjust_mods_for_event(VK_CONTROL, false, true, true, false, false);
    assert!(!c && s && !a && !w);
    let (c, s, a, w) = adjust_mods_for_event(VK_LSHIFT, true, false, false, false, false);
    assert!(!c && s && !a && !w);
    let (c, s, a, w) = adjust_mods_for_event(VK_LSHIFT, false, false, true, false, false);
    assert!(!c && !s && !a && !w);
}

fn combos() -> ComboSet {
    update_combos("Ctrl+Shift+Z", "Ctrl+Shift+X").unwrap()
}

fn key(vk: u16, down: bool) -> KeyInput {
    KeyInput { vk, is_down: down, is_up: !down, injected: false }
}

#[test]
fn push_to_talk_press_and_release() {
    let c = combos();
    let mut e = Engaged { dictation: false, command_mode: false };
    let down = hook_decision(&c, &mut e, key(b'Z' as u16, true), true, true, false, false);
    assert!(down.swallow);
    assert_eq!(down.events, vec![HotkeyEvent::Down(HotkeyId::Dictation)]);
    assert!(e.dictation);
    // Key repeat: swallowed, no second Down.
    let again = hook_decision(&c, &mut e, key(b'Z' as u16, true), true, true, false, false);
    assert!(again.swallow);
    assert!(again.events.is_empty());
    // Releasing Shift ends the hold but reaches the system.
    let shift_up = hook_decision(&c, &mut e, key(VK_SHIFT, false), true, true, false, false);
    assert!(!shift_up.swallow);
    assert_eq!(shift_up.events, vec![HotkeyEvent::Up(HotkeyId::Dictation)]);
    assert!(!e.dictation);
}

#[test]
fn bare_key_and_injected_pass_through() {
    let c = combos();
    let mut e = Engaged { dictation: false, command_mode: false };
    let bare = hook_decision(&c, &mut e, key(b'Z' as u16, true), false, false, false, false);
    assert!(!bare.swallow && bare.events.is_empty());
    let injected = KeyInput { vk: b'Z' as u16, is_down: true, is_up: false, injected: true };
    let inj = hook_decision(&c, &mut e, injected, true, true, false, false);
    assert!(!inj.swallow && inj.events.is_empty());
    assert!(combo_involves(&c.dictation, VK_CONTROL));
    assert!(!combo_involves(&c.dictation, b'X' as u16));
}

#[test]
fn update_combos_names_the_invalid_one() {
    assert_eq!(update_combos("Z", "Ctrl+X").unwrap_err(), "invalid dictation hotkey: Z");
    assert_eq!(update_combos("Ctrl+Z", "nope").unwrap_err(), "invalid command_mode hotkey: nope");
}

#[test]
fn validate_hotkeys_rules() {
    let mut s = Settings::default();
    assert!(validate_hotkeys(&s).is_ok());
    s.hotkeys.command_mode = s.hotkeys.dictation.clone();
    assert_eq!(validate_hotkeys(&s).unwrap_err(), "Dictation and command mode hotkeys must be different");
    s.hotkeys.command_mode = "Q".into();
    assert_eq!(validate_hotkeys(&s).unwrap_err(), "Invalid command mode hotkey: Q");
}

#[test]
fn parse_ignores_ascii_case() {
    for s in ["Ctrl+Shift+Z", "ALT+SPACE", "Win+Esc", "ctrl+/", "Shift"] {
        assert_eq!(KeyCombo::parse(s), KeyCombo::parse(&s.to_ascii_lowercase()));
    }
}

#[test]
fn what_does_not_parse() {
    for s in ["Ctrl+Shift", "Ctrl+F1", "Ctrl+/", "Z", "", "Ctrl+Shift+Zz"] {
        assert_eq!(KeyCombo::parse(s), None, "{s}");
    }
    for (s, vk) in [("Ctrl+a", 0x41u16), ("Alt+7", 0x37), ("Win+Space", 0x20), ("Shift+Tab", 0x09), ("Ctrl+Enter", 0x0D), ("Ctrl+Escape", 0x1B)] {
        assert_eq!(KeyCombo::parse(s).map(|c| c.key_vk), Some(vk), "{s}");
    }
}
