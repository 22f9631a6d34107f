use villflow::focus::{
    exe_name_from_path, reread_target_matches, selection_poll_final, selection_poll_tick,
    text_near_caret, usable_selection, window_is_own, CaretCandidates, PollStep,
};

fn s(t: &str) -> Option<String> {
    Some(t.to_string())
}

fn empty() -> CaretCandidates {
    CaretCandidates { selection: None, document: None, value: None, name: None, children: Vec::new() }
}

#[test]
fn long_selection_is_the_context() {
    let sel = "this selection is certainly longer than forty characters in all";
    let c = CaretCandidates { selection: s(sel), document: s("whole document"), ..empty() };
    assert_eq!(text_near_caret(&c), s(sel));
}

#[test]
fn caret_only_selection_prefers_the_document() {
    let c = CaretCandidates { selection: s("abc"), document: s("whole document"), ..empty() };
    assert_eq!(text_near_caret(&c), s("whole document"));
}

#[test]
fn caret_only_selection_without_document_is_kept() {
    let c = CaretCandidates { selection: s("abc"), document: s(""), ..empty() };
    assert_eq!(text_near_caret(&c), s("abc"));
}

#[test]
fn fallbacks_in_order() {
    let c = CaretCandidates { selection: s(""), document: None, value: s("typed value"), name: s("Name"), ..empty() };
    assert_eq!(text_near_caret(&c), s("typed value"));
    let c = CaretCandidates { value: s(""), name: s("Search box"), ..empty() };
    assert_eq!(text_near_caret(&c), s("Search box"));
    let c = CaretCandidates { children: vec![None, s(""), s("child text"), s("later")], ..empty() };
    assert_eq!(text_near_caret(&c), s("child text"));
    assert_eq!(text_near_caret(&empty()), None);
}

#[test]
fn only_the_first_eight_children_are_searched() {
    let mut children: Vec<Option<String>> = vec![None; 8];
    children.push(s("ninth"));
    let c = CaretCandidates { children, ..empty() };
    assert_eq!(text_near_caret(&c), None);
}

#[test]
fn blank_selection_is_dropped() {
    assert_eq!(usable_selection(s(" \n\t")), None);
    assert_eq!(usable_selection(s("  picked ")), s("  picked "));
    assert_eq!(usable_selection(None), None);
}

#[test]
fn own_windows_by_process_or_title() {
    assert!(window_is_own(42, 42, "Anything"));
    assert!(!window_is_own(0, 0, "Notepad"));
    assert!(window_is_own(7, 42, "VillFlow"));
    assert!(window_is_own(7, 42, "VillFlow Settings"));
    assert!(window_is_own(7, 42, "My SCRATCHPAD"));
    assert!(!window_is_own(7, 42, "VillFlowX"));
    assert!(!window_is_own(7, 42, "Untitled - Notepad"));
    assert!(!window_is_own(7, 42, ""));
}

#[test]
fn exe_name_is_the_last_component() {
    assert_eq!(exe_name_from_path("C:\\Program Files\\Code\\Code.exe"), "Code.exe");
    assert_eq!(exe_name_from_path("/usr/bin/kate"), "kate");
    assert_eq!(exe_name_from_path("C:/mixed\\path/notepad.exe"), "notepad.exe");
    assert_eq!(exe_name_from_path("plain.exe"), "plain.exe");
    assert_eq!(exe_name_from_path("dir\\"), "");
}

#[test]
fn reread_only_in_the_same_window() {
    assert!(reread_target_matches(None, 5));
    assert!(reread_target_matches(Some(0), 5));
    assert!(reread_target_matches(Some(5), 5));
    assert!(!reread_target_matches(Some(6), 5));
}

#[test]
fn clipboard_poll_steps() {
    let marker = "__marker__";
    assert_eq!(selection_poll_tick(false, false, true, s("x"), marker, false), PollStep::Done(None));
    assert_eq!(selection_poll_tick(false, true, true, s("copied"), marker, false), PollStep::Done(s("copied")));
    assert_eq!(
        selection_poll_tick(false, true, true, s(marker), marker, false),
        PollStep::Wait { saw_change: true }
    );
    assert_eq!(selection_poll_tick(false, true, false, None, marker, false), PollStep::Wait { saw_change: false });
    assert_eq!(selection_poll_tick(false, true, false, None, marker, true), PollStep::Done(None));
    assert_eq!(selection_poll_tick(true, true, false, None, marker, true), PollStep::Recheck);
    assert_eq!(selection_poll_final(true, s("late copy"), marker), s("late copy"));
    assert_eq!(selection_poll_final(true, s(marker), marker), None);
    assert_eq!(selection_poll_final(true, s(""), marker), None);
    assert_eq!(selection_poll_final(false, s("late copy"), marker), None);
}
