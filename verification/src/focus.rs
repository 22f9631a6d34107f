//! Decisions over what the focused window offers: which text stands near the
//! caret, whether the foreground window is one of ours, the executable name in
//! a module path, and the clipboard round trip that reads a selection.
//! The reads themselves (UI Automation, clipboard, window queries) are the
//! caller's; these functions decide on what the reads returned.
use vstd::prelude::*;

use crate::stt::opt_view;
use crate::text::{
    ascii_lower_seq, ascii_lowercase_chars, blank, chars_of, contains, eq_lit, is_blank,
    seq_contains, seq_starts_with, starts_with, string_of, sub_vec,
};

verus! {

/// Characters of field text kept as context (from the end).
pub const FIELD_CONTEXT_CAP: usize = 1500;

/// A caret selection shorter than this many characters is taken as "caret
/// only", and the whole document is preferred as context.
pub const SHORT_SELECTION_CHARS: usize = 40;

/// How many child elements are searched for a value.
pub const CHILD_SEARCH_LIMIT: usize = 8;

/// What the focused element offered, each read once.
pub struct CaretCandidates {
    /// Text of the first selection range (the caret's neighbourhood), when the
    /// element has a text pattern with a selection.
    pub selection: Option<String>,
    /// Text of the whole document, when the element has a text pattern.
    pub document: Option<String>,
    /// The element's value pattern text.
    pub value: Option<String>,
    /// The element's name.
    pub name: Option<String>,
    /// Value pattern text of the first children, in order (`None` where a
    /// child has none).
    pub children: Vec<Option<String>>,
}

/// A read that produced text: present and not empty.
pub open spec fn text_of(o: Option<String>) -> Option<Seq<char>> {
    match o {
        Some(s) => if s@.len() > 0 {
            Some(s@)
        } else {
            None
        },
        None => None,
    }
}

/// The first read among `items` that produced text.
pub open spec fn first_text(items: Seq<Option<String>>) -> Option<Seq<char>>
    decreases items.len(),
{
    if items.len() == 0 {
        None
    } else {
        match text_of(items[0]) {
            Some(t) => Some(t),
            None => first_text(items.drop_first()),
        }
    }
}

pub open spec fn searched_children(children: Seq<Option<String>>) -> Seq<Option<String>> {
    if children.len() <= CHILD_SEARCH_LIMIT {
        children
    } else {
        children.take(CHILD_SEARCH_LIMIT as int)
    }
}

/// The text taken as context near the caret: a long enough selection range;
/// the whole document when the selection is only a caret; then the document,
/// the value, the name, and the first child with a value.
pub open spec fn near_caret(c: CaretCandidates) -> Option<Seq<char>> {
    match text_of(c.selection) {
        Some(s) => if s.len() < SHORT_SELECTION_CHARS && text_of(c.document) is Some {
            text_of(c.document)
        } else {
            Some(s)
        },
        None => if text_of(c.document) is Some {
            text_of(c.document)
        } else if text_of(c.value) is Some {
            text_of(c.value)
        } else if text_of(c.name) is Some {
            text_of(c.name)
        } else {
            first_text(searched_children(c.children@))
        },
    }
}

fn char_len(s: &str) -> (n: usize)
    ensures
        n == s@.len(),
{
    chars_of(s).len()
}

fn text_read(o: &Option<String>) -> (r: Option<String>)
    ensures
        opt_view(r) == text_of(*o),
{
    match o {
        Some(s) => {
            if char_len(s.as_str()) > 0 {
                Some(string_of(&chars_of(s.as_str())))
            } else {
                None
            }
        },
        None => None,
    }
}

/// Choose the text near the caret among what the focused element offered.
pub fn text_near_caret(c: &CaretCandidates) -> (r: Option<String>)
    ensures
        opt_view(r) == near_caret(*c),
{
    let document = text_read(&c.document);
    match text_read(&c.selection) {
        Some(s) => {
            if char_len(s.as_str()) < SHORT_SELECTION_CHARS && document.is_some() {
                return document;
            }
            return Some(s);
        },
        None => {},
    }
    if document.is_some() {
        return document;
    }
    let value = text_read(&c.value);
    if value.is_some() {
        return value;
    }
    let name = text_read(&c.name);
    if name.is_some() {
        return name;
    }
    let limit: usize = if c.children.len() <= CHILD_SEARCH_LIMIT {
        c.children.len()
    } else {
        CHILD_SEARCH_LIMIT
    };
    let ghost items = searched_children(c.children@);
    assert(items == c.children@.subrange(0, limit as int));
    let mut i: usize = 0;
    while i < limit
        invariant
            limit <= c.children.len(),
            items == c.children@.subrange(0, limit as int),
            near_caret(*c) == first_text(items),
            i <= limit,
            first_text(items) == first_text(c.children@.subrange(i as int, limit as int)),
        decreases limit - i,
    {
        let ghost rest = c.children@.subrange(i as int, limit as int);
        assert(rest[0] == c.children@[i as int]);
        assert(rest.drop_first() == c.children@.subrange(i + 1, limit as int));
        let t = text_read(&c.children[i]);
        if t.is_some() {
            return t;
        }
        i += 1;
    }
    assert(c.children@.subrange(i as int, limit as int).len() == 0);
    None
}

/// A selection that holds something other than whitespace.
pub open spec fn usable_selection_spec(sel: Option<String>) -> Option<Seq<char>> {
    match sel {
        Some(s) => if is_blank(s@) {
            None
        } else {
            Some(s@)
        },
        None => None,
    }
}

/// Keep a selection only when it is not blank.
pub fn usable_selection(sel: Option<String>) -> (r: Option<String>)
    ensures
        opt_view(r) == usable_selection_spec(sel),
{
    match sel {
        Some(s) => {
            if blank(&chars_of(s.as_str())) {
                None
            } else {
                Some(s)
            }
        },
        None => None,
    }
}

// --- Our own windows ---

/// A lower-cased window title that names one of this application's windows.
pub open spec fn own_title(t: Seq<char>) -> bool {
    ||| seq_contains(t, "scratchpad"@)
    ||| t == "villflow"@
    ||| seq_starts_with(t, "villflow "@)
}

/// Is the foreground window ours: owned by this process, or titled like one
/// of our windows (compared ASCII-case-insensitively)?
pub open spec fn window_is_own_spec(pid: u32, own_pid: u32, title: Seq<char>) -> bool {
    (pid != 0 && pid == own_pid) || own_title(ascii_lower_seq(title))
}

/// Decide whether the foreground window (its process id and title) is one of
/// this application's windows.
pub fn window_is_own(pid: u32, own_pid: u32, title: &str) -> (r: bool)
    ensures
        r == window_is_own_spec(pid, own_pid, title@),
{
    if pid != 0 && pid == own_pid {
        return true;
    }
    let t = ascii_lowercase_chars(&chars_of(title));
    contains(&t, &chars_of("scratchpad")) || eq_lit(&t, "villflow") || starts_with(
        &t,
        &chars_of("villflow "),
    )
}

/// May text be read again from the window now in front, given the window
/// text was inserted into (`None` or 0: any window)?
pub open spec fn reread_allowed(target: Option<isize>, current: isize) -> bool {
    match target {
        Some(want) => want == 0 || current == want,
        None => true,
    }
}

pub fn reread_target_matches(target: Option<isize>, current: isize) -> (r: bool)
    ensures
        r == reread_allowed(target, current),
{
    match target {
        Some(want) => want == 0 || current == want,
        None => true,
    }
}

// --- Executable name ---

pub open spec fn is_path_sep(c: char) -> bool {
    c == '\\' || c == '/'
}

/// Where the last path component starts: just after the last separator.
pub open spec fn component_start(p: Seq<char>) -> int
    decreases p.len(),
{
    if p.len() == 0 {
        0
    } else if is_path_sep(p.last()) {
        p.len() as int
    } else {
        component_start(p.drop_last())
    }
}

/// The file name of a module path: what follows the last `\` or `/`.
pub fn exe_name_from_path(path: &str) -> (r: String)
    ensures
        r@ == path@.skip(component_start(path@)),
{
    let p = chars_of(path);
    let mut i: usize = p.len();
    assert(p@.take(i as int) == p@);
    while i > 0 && !(p[i - 1] == '\\' || p[i - 1] == '/')
        invariant
            i <= p.len(),
            component_start(p@) == component_start(p@.take(i as int)),
        decreases i,
    {
        assert(p@.take(i as int).drop_last() == p@.take(i - 1));
        i -= 1;
    }
    assert(component_start(p@.take(i as int)) == i) by {
        if i > 0 {
            assert(p@.take(i as int).last() == p@[i - 1]);
        }
    }
    let name = sub_vec(&p, i, p.len());
    assert(name@ == p@.skip(i as int));
    string_of(&name)
}

// --- Selection through the clipboard ---

/// What the clipboard poll does next.
#[derive(Debug, PartialEq, Eq)]
pub enum PollStep {
    /// Stop with this selection (`None`: nothing trustworthy was copied).
    Done(Option<String>),
    /// Wait one tick; `saw_change` records whether the clipboard changed yet.
    Wait { saw_change: bool },
    /// The time is up and the clipboard changed: check focus and the clipboard
    /// text one last time.
    Recheck,
}

/// Clipboard text that is the copied selection: not empty and not our marker.
pub open spec fn accepted_copy(text: Seq<char>, marker: Seq<char>) -> bool {
    text.len() > 0 && text != marker
}

pub open spec fn poll_tick_spec(
    saw_change: bool,
    focus_kept: bool,
    seq_changed: bool,
    text: Option<String>,
    marker: Seq<char>,
    deadline_passed: bool,
    r: PollStep,
) -> bool {
    if !focus_kept {
        r matches PollStep::Done(None)
    } else if seq_changed && (text matches Some(t) && accepted_copy(t@, marker)) {
        r matches PollStep::Done(Some(s)) && Some(s) == text
    } else if deadline_passed {
        if saw_change || seq_changed {
            r is Recheck
        } else {
            r matches PollStep::Done(None)
        }
    } else {
        r == (PollStep::Wait { saw_change: saw_change || seq_changed })
    }
}

/// One tick of waiting for the copied selection. `focus_kept`: the window
/// copied from is still in front; `seq_changed`: the clipboard changed since
/// the marker was placed; `text`: the clipboard text read after a change.
pub fn selection_poll_tick(
    saw_change: bool,
    focus_kept: bool,
    seq_changed: bool,
    text: Option<String>,
    marker: &str,
    deadline_passed: bool,
) -> (r: PollStep)
    ensures
        poll_tick_spec(saw_change, focus_kept, seq_changed, text, marker@, deadline_passed, r),
{
    if !focus_kept {
        return PollStep::Done(None);
    }
    if seq_changed {
        match text {
            Some(t) => {
                if char_len(t.as_str()) > 0 && !crate::text::str_eq(t.as_str(), marker) {
                    return PollStep::Done(Some(t));
                }
            },
            None => {},
        }
    }
    let saw = saw_change || seq_changed;
    if deadline_passed {
        if saw {
            PollStep::Recheck
        } else {
            PollStep::Done(None)
        }
    } else {
        PollStep::Wait { saw_change: saw }
    }
}

/// The last check after the time is up: the window must still be in front
/// and the clipboard must hold a copy.
pub fn selection_poll_final(focus_kept: bool, text: Option<String>, marker: &str) -> (r: Option<String>)
    ensures
        r == (if focus_kept && (text matches Some(t) && accepted_copy(t@, marker@)) {
            text
        } else {
            None
        }),
{
    if !focus_kept {
        return None;
    }
    match text {
        Some(t) => {
            if char_len(t.as_str()) > 0 && !crate::text::str_eq(t.as_str(), marker) {
                Some(t)
            } else {
                None
            }
        },
        None => None,
    }
}

} // verus!
