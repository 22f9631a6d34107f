use villflow::shell::{app_insert_target, AppWindow, ScratchpadToggle, ScratchpadUi, WindowsSeen};

#[test]
fn scratchpad_toggle_debounces() {
    let mut ui = ScratchpadUi::new();
    assert_eq!(ui.toggle(1_000), ScratchpadToggle::Show);
    assert!(ui.open);
    assert_eq!(ui.toggle(1_050), ScratchpadToggle::Ignore);
    assert!(ui.open);
    assert_eq!(ui.toggle(1_200), ScratchpadToggle::Hide);
    assert!(!ui.open);
    assert_eq!(ui.toggle(900), ScratchpadToggle::Ignore);
}

#[test]
fn insert_goes_to_focused_window_first() {
    let mut w = WindowsSeen {
        scratchpad_exists: true,
        scratchpad_focused: false,
        main_exists: true,
        main_focused: true,
        scratchpad_open: true,
    };
    assert_eq!(app_insert_target(w), Some(AppWindow::Main));
    w.main_focused = false;
    assert_eq!(app_insert_target(w), Some(AppWindow::Scratchpad));
    w.scratchpad_open = false;
    assert_eq!(app_insert_target(w), Some(AppWindow::Main));
    w.main_exists = false;
    assert_eq!(app_insert_target(w), None);
}
