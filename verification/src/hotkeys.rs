//! Global hotkeys: parsing combos such as `Ctrl+Shift+Z`, and what the
//! low-level keyboard hook does with each key event. Push-to-talk needs the
//! key-up, so the hook tracks which combos are held. Only a combo's main key
//! is ever swallowed; modifier presses and releases always reach the system.
use vstd::prelude::*;
use vstd::string::*;
use crate::text::{
    ascii_lower, ascii_lower_seq, ascii_lowercase_chars, ascii_upper, char_is_whitespace, chars_of,
    eq_lit, is_ascii_alnum, split_state, split_words, split_words_chars, to_ascii_upper, trim_chars,
    trim_end_seq, trim_seq, trim_start_seq, seqs_of, WordChars,
};
use crate::prompt::nonempty_trimmed;
use crate::settings::Settings;

verus! {

pub const VK_SHIFT: u16 = 0x10;
pub const VK_CONTROL: u16 = 0x11;
pub const VK_MENU: u16 = 0x12;
pub const VK_LWIN: u16 = 0x5B;
pub const VK_RWIN: u16 = 0x5C;
pub const VK_LSHIFT: u16 = 0xA0;
pub const VK_RSHIFT: u16 = 0xA1;
pub const VK_LCONTROL: u16 = 0xA2;
pub const VK_RCONTROL: u16 = 0xA3;
pub const VK_LMENU: u16 = 0xA4;
pub const VK_RMENU: u16 = 0xA5;

/// Which logical hotkey fired.
#[derive(Debug, Clone, Copy, PartialEq, Eq, Hash, Structural)]
pub enum HotkeyId {
    Dictation,
    CommandMode,
}

/// Edge events from the hook.
#[derive(Debug, Clone, Copy, PartialEq, Eq, Structural)]
pub enum HotkeyEvent {
    /// The combo matched: its main key went down while its modifiers were held.
    Down(HotkeyId),
    /// The combo was released: one of its keys went up while it was engaged.
    Up(HotkeyId),
}

/// A key combination: modifiers and one main key (a virtual-key code).
#[derive(Debug, Clone, Copy, PartialEq, Eq, Structural)]
pub struct KeyCombo {
    pub ctrl: bool,
    pub shift: bool,
    pub alt: bool,
    pub win: bool,
    /// Virtual-key code of the main key (upper-case letter, digit or named key).
    pub key_vk: u16,
}

// ---------------------------------------------------------------------------
// Key classes
// ---------------------------------------------------------------------------

pub open spec fn ctrl_vk(vk: u16) -> bool {
    vk == VK_CONTROL || vk == VK_LCONTROL || vk == VK_RCONTROL
}

pub open spec fn shift_vk(vk: u16) -> bool {
    vk == VK_SHIFT || vk == VK_LSHIFT || vk == VK_RSHIFT
}

pub open spec fn alt_vk(vk: u16) -> bool {
    vk == VK_MENU || vk == VK_LMENU || vk == VK_RMENU
}

pub open spec fn win_vk(vk: u16) -> bool {
    vk == VK_LWIN || vk == VK_RWIN
}

pub open spec fn modifier_vk(vk: u16) -> bool {
    ctrl_vk(vk) || shift_vk(vk) || alt_vk(vk) || win_vk(vk)
}

pub fn is_ctrl_vk(vk: u16) -> (r: bool)
    ensures
        r == ctrl_vk(vk),
{
    vk == VK_CONTROL || vk == VK_LCONTROL || vk == VK_RCONTROL
}

pub fn is_shift_vk(vk: u16) -> (r: bool)
    ensures
        r == shift_vk(vk),
{
    vk == VK_SHIFT || vk == VK_LSHIFT || vk == VK_RSHIFT
}

pub fn is_alt_vk(vk: u16) -> (r: bool)
    ensures
        r == alt_vk(vk),
{
    vk == VK_MENU || vk == VK_LMENU || vk == VK_RMENU
}

pub fn is_win_vk(vk: u16) -> (r: bool)
    ensures
        r == win_vk(vk),
{
    vk == VK_LWIN || vk == VK_RWIN
}

pub fn is_modifier_vk(vk: u16) -> (r: bool)
    ensures
        r == modifier_vk(vk),
{
    is_ctrl_vk(vk) || is_shift_vk(vk) || is_alt_vk(vk) || is_win_vk(vk)
}

// ---------------------------------------------------------------------------
// Parsing
// ---------------------------------------------------------------------------

/// Modifiers and main key gathered so far while reading a combo.
pub struct ComboDraft {
    pub ctrl: bool,
    pub shift: bool,
    pub alt: bool,
    pub win: bool,
    pub key_vk: Option<u16>,
}

pub open spec fn empty_draft() -> ComboDraft {
    ComboDraft { ctrl: false, shift: false, alt: false, win: false, key_vk: None }
}

/// Named main keys.
pub open spec fn named_key(lower: Seq<char>) -> Option<u16> {
    if lower == "space"@ {
        Some(0x20)
    } else if lower == "tab"@ {
        Some(0x09)
    } else if lower == "enter"@ || lower == "return"@ {
        Some(0x0D)
    } else if lower == "esc"@ || lower == "escape"@ {
        Some(0x1B)
    } else {
        None
    }
}

/// Read one (trimmed, non-empty) part of a combo; `None` rejects the combo.
pub open spec fn apply_part(d: ComboDraft, p: Seq<char>) -> Option<ComboDraft> {
    let lower = ascii_lower_seq(p);
    if lower == "ctrl"@ || lower == "control"@ {
        Some(ComboDraft { ctrl: true, ..d })
    } else if lower == "shift"@ {
        Some(ComboDraft { shift: true, ..d })
    } else if lower == "alt"@ || lower == "menu"@ {
        Some(ComboDraft { alt: true, ..d })
    } else if lower == "win"@ || lower == "super"@ || lower == "meta"@ || lower == "cmd"@ {
        Some(ComboDraft { win: true, ..d })
    } else if p.len() == 1 {
        let c = ascii_upper(p[0]);
        if is_ascii_alnum(c) {
            Some(ComboDraft { key_vk: Some((c as u32) as u16), ..d })
        } else {
            None
        }
    } else {
        match named_key(lower) {
            Some(vk) => Some(ComboDraft { key_vk: Some(vk), ..d }),
            None => None,
        }
    }
}

pub open spec fn apply_parts(parts: Seq<Seq<char>>) -> Option<ComboDraft>
    decreases parts.len(),
{
    if parts.len() == 0 {
        Some(empty_draft())
    } else {
        match apply_parts(parts.drop_last()) {
            None => None,
            Some(d) => apply_part(d, parts.last()),
        }
    }
}

/// The `+`-separated parts of a combo, trimmed, empty ones dropped.
pub open spec fn combo_parts(s: Seq<char>) -> Seq<Seq<char>> {
    nonempty_trimmed(split_words(s, WordChars::Except('+')))
}

/// A combo string read case-insensitively; later main keys replace earlier
/// ones, and a combo needs a main key and at least one modifier.
pub open spec fn parse_combo(s: Seq<char>) -> Option<KeyCombo> {
    match apply_parts(combo_parts(s)) {
        None => None,
        Some(d) => if !(d.ctrl || d.shift || d.alt || d.win) {
            None
        } else {
            match d.key_vk {
                None => None,
                Some(k) => Some(
                    KeyCombo { ctrl: d.ctrl, shift: d.shift, alt: d.alt, win: d.win, key_vk: k },
                ),
            }
        },
    }
}

fn named_key_exec(lower: &[char]) -> (r: Option<u16>)
    ensures
        r == named_key(lower@),
{
    if eq_lit(lower, "space") {
        Some(0x20)
    } else if eq_lit(lower, "tab") {
        Some(0x09)
    } else if eq_lit(lower, "enter") || eq_lit(lower, "return") {
        Some(0x0D)
    } else if eq_lit(lower, "esc") || eq_lit(lower, "escape") {
        Some(0x1B)
    } else {
        None
    }
}

fn is_ascii_alnum_char(c: char) -> (r: bool)
    ensures
        r == is_ascii_alnum(c),
{
    ('a' <= c && c <= 'z') || ('A' <= c && c <= 'Z') || ('0' <= c && c <= '9')
}

impl KeyCombo {
    /// Parse strings like `Ctrl+Shift+Z`, case-insensitively. Bare keys are
    /// rejected, so a misconfigured setting cannot swallow every press of a
    /// letter system-wide.
    pub fn parse(s: &str) -> (r: Option<KeyCombo>)
        ensures
            r == parse_combo(s@),
            r matches Some(c) ==> c.has_modifier_spec() && !modifier_vk(c.key_vk),
    {
        let v = chars_of(s);
        let pieces = split_words_chars(&v, WordChars::Except('+'));
        let ghost parts = seqs_of(pieces@);
        let mut ok = true;
        let mut ctrl = false;
        let mut shift = false;
        let mut alt = false;
        let mut win = false;
        let mut key_vk: Option<u16> = None;
        let mut i: usize = 0;
        while i < pieces.len()
            invariant
                i <= pieces.len(),
                parts == seqs_of(pieces@),
                parts == split_words(s@, WordChars::Except('+')),
                apply_parts(nonempty_trimmed(parts.take(i as int))) == (if ok {
                    Some(ComboDraft { ctrl, shift, alt, win, key_vk })
                } else {
                    None
                }),
                key_vk matches Some(k) ==> !modifier_vk(k),
            decreases pieces.len() - i,
        {
            assert(parts.take(i + 1).drop_last() == parts.take(i as int));
            assert(parts.take(i + 1).last() == pieces@[i as int]@);
            let p = trim_chars(&pieces[i]);
            let ghost prev = nonempty_trimmed(parts.take(i as int));
            proof {
                if p@.len() > 0 {
                    assert(prev.push(p@).drop_last() == prev);
                }
            }
            if p.len() > 0 && ok {
                let lower = ascii_lowercase_chars(&p);
                assert(nonempty_trimmed(parts.take(i + 1)) == prev.push(p@));
                if eq_lit(&lower, "ctrl") || eq_lit(&lower, "control") {
                    ctrl = true;
                } else if eq_lit(&lower, "shift") {
                    shift = true;
                } else if eq_lit(&lower, "alt") || eq_lit(&lower, "menu") {
                    alt = true;
                } else if eq_lit(&lower, "win") || eq_lit(&lower, "super") || eq_lit(&lower, "meta")
                    || eq_lit(&lower, "cmd") {
                    win = true;
                } else if p.len() == 1 {
                    let c = to_ascii_upper(p[0]);
                    if is_ascii_alnum_char(c) {
                        key_vk = Some((c as u32) as u16);
                    } else {
                        ok = false;
                    }
                } else {
                    match named_key_exec(&lower) {
                        Some(vk) => {
                            key_vk = Some(vk);
                        },
                        None => {
                            ok = false;
                        },
                    }
                }
            }
            i += 1;
        }
        assert(parts.take(pieces.len() as int) == parts);
        if !ok {
            return None;
        }
        if !(ctrl || shift || alt || win) {
            return None;
        }
        match key_vk {
            None => None,
            Some(k) => Some(KeyCombo { ctrl, shift, alt, win, key_vk: k }),
        }
    }

    pub open spec fn has_modifier_spec(&self) -> bool {
        self.ctrl || self.shift || self.alt || self.win
    }

    /// True when the combo has at least one modifier (Ctrl/Shift/Alt/Win).
    pub fn has_modifier(&self) -> (r: bool)
        ensures
            r == self.has_modifier_spec(),
    {
        self.ctrl || self.shift || self.alt || self.win
    }

    pub open spec fn matches_modifiers_spec(&self, ctrl: bool, shift: bool, alt: bool, win: bool) -> bool {
        self.ctrl == ctrl && self.shift == shift && self.alt == alt && self.win == win
    }

    /// Do the held modifiers equal the combo's, exactly?
    pub fn matches_modifiers(&self, ctrl: bool, shift: bool, alt: bool, win: bool) -> (r: bool)
        ensures
            r == self.matches_modifiers_spec(ctrl, shift, alt, win),
    {
        self.ctrl == ctrl && self.shift == shift && self.alt == alt && self.win == win
    }
}

/// A parsed combo never has a modifier as its main key.
pub proof fn lemma_parsed_main_key_not_modifier(s: Seq<char>)
    ensures
        parse_combo(s) matches Some(c) ==> c.has_modifier_spec() && !modifier_vk(c.key_vk),
    decreases s.len(),
{
    lemma_apply_parts_key(combo_parts(s));
}

// --- Case-insensitivity ---

pub open spec fn lower_all(ws: Seq<Seq<char>>) -> Seq<Seq<char>> {
    ws.map_values(|w: Seq<char>| ascii_lower_seq(w))
}

proof fn lemma_lower_char(c: char)
    ensures
        char_is_whitespace(ascii_lower(c)) == char_is_whitespace(c),
        (ascii_lower(c) == '+') == (c == '+'),
        ascii_lower(ascii_lower(c)) == ascii_lower(c),
        ascii_upper(ascii_lower(c)) == ascii_upper(c),
{
}

proof fn lemma_lower_split_state(s: Seq<char>)
    ensures
        split_state(ascii_lower_seq(s), WordChars::Except('+')).0 == lower_all(
            split_state(s, WordChars::Except('+')).0,
        ),
        split_state(ascii_lower_seq(s), WordChars::Except('+')).1 == ascii_lower_seq(
            split_state(s, WordChars::Except('+')).1,
        ),
    decreases s.len(),
{
    let k = WordChars::Except('+');
    if s.len() == 0 {
        assert(ascii_lower_seq(s) =~= s);
        assert(lower_all(Seq::<Seq<char>>::empty()) =~= Seq::<Seq<char>>::empty());
        assert(ascii_lower_seq(Seq::<char>::empty()) =~= Seq::<char>::empty());
    } else {
        let l = ascii_lower_seq(s);
        lemma_lower_split_state(s.drop_last());
        assert(l.drop_last() =~= ascii_lower_seq(s.drop_last()));
        let c = s.last();
        lemma_lower_char(c);
        let prev = split_state(s.drop_last(), k);
        assert(ascii_lower_seq(prev.1.push(c)) =~= ascii_lower_seq(prev.1).push(ascii_lower(c)));
        assert(lower_all(prev.0.push(prev.1)) =~= lower_all(prev.0).push(ascii_lower_seq(prev.1)));
        assert(ascii_lower_seq(Seq::<char>::empty()) =~= Seq::<char>::empty());
    }
}

proof fn lemma_lower_split_words(s: Seq<char>)
    ensures
        split_words(ascii_lower_seq(s), WordChars::Except('+')) == lower_all(
            split_words(s, WordChars::Except('+')),
        ),
{
    lemma_lower_split_state(s);
    let st = split_state(s, WordChars::Except('+'));
    assert(lower_all(st.0.push(st.1)) =~= lower_all(st.0).push(ascii_lower_seq(st.1)));
}

proof fn lemma_lower_trim_start(w: Seq<char>)
    ensures
        trim_start_seq(ascii_lower_seq(w)) == ascii_lower_seq(trim_start_seq(w)),
    decreases w.len(),
{
    if w.len() > 0 {
        lemma_lower_char(w[0]);
        assert(ascii_lower_seq(w).drop_first() =~= ascii_lower_seq(w.drop_first()));
        lemma_lower_trim_start(w.drop_first());
    }
}

proof fn lemma_lower_trim_end(w: Seq<char>)
    ensures
        trim_end_seq(ascii_lower_seq(w)) == ascii_lower_seq(trim_end_seq(w)),
    decreases w.len(),
{
    if w.len() > 0 {
        lemma_lower_char(w.last());
        assert(ascii_lower_seq(w).drop_last() =~= ascii_lower_seq(w.drop_last()));
        lemma_lower_trim_end(w.drop_last());
    }
}

proof fn lemma_lower_nonempty_trimmed(ws: Seq<Seq<char>>)
    ensures
        nonempty_trimmed(lower_all(ws)) == lower_all(nonempty_trimmed(ws)),
    decreases ws.len(),
{
    if ws.len() == 0 {
        assert(lower_all(ws) =~= ws);
        assert(lower_all(Seq::<Seq<char>>::empty()) =~= Seq::<Seq<char>>::empty());
    } else {
        lemma_lower_nonempty_trimmed(ws.drop_last());
        assert(lower_all(ws).drop_last() =~= lower_all(ws.drop_last()));
        let w = ws.last();
        lemma_lower_trim_start(w);
        lemma_lower_trim_end(trim_start_seq(w));
        assert(trim_seq(ascii_lower_seq(w)) == ascii_lower_seq(trim_seq(w)));
        let prev = nonempty_trimmed(ws.drop_last());
        assert(lower_all(prev.push(trim_seq(w))) =~= lower_all(prev).push(ascii_lower_seq(trim_seq(w))));
    }
}

proof fn lemma_lower_apply_part(d: ComboDraft, p: Seq<char>)
    ensures
        apply_part(d, ascii_lower_seq(p)) == apply_part(d, p),
{
    assert(ascii_lower_seq(ascii_lower_seq(p)) =~= ascii_lower_seq(p)) by {
        assert forall|i: int| 0 <= i < p.len() implies ascii_lower(ascii_lower(p[i])) == ascii_lower(p[i]) by {
            lemma_lower_char(p[i]);
        }
    }
    if p.len() == 1 {
        lemma_lower_char(p[0]);
    }
}

proof fn lemma_lower_apply_parts(ps: Seq<Seq<char>>)
    ensures
        apply_parts(lower_all(ps)) == apply_parts(ps),
    decreases ps.len(),
{
    if ps.len() > 0 {
        assert(lower_all(ps).drop_last() =~= lower_all(ps.drop_last()));
        lemma_lower_apply_parts(ps.drop_last());
        match apply_parts(ps.drop_last()) {
            None => {},
            Some(d) => lemma_lower_apply_part(d, ps.last()),
        }
    }
}

/// Combos are read case-insensitively: a combo string parses as its ASCII
/// lower-case form does.
pub proof fn lemma_parse_ignores_case(s: Seq<char>)
    ensures
        parse_combo(ascii_lower_seq(s)) == parse_combo(s),
{
    lemma_lower_split_words(s);
    lemma_lower_nonempty_trimmed(split_words(s, WordChars::Except('+')));
    lemma_lower_apply_parts(combo_parts(s));
}

// --- What parses ---

/// A modifier's name, lower-cased.
pub open spec fn modifier_name(lower: Seq<char>) -> bool {
    ||| lower == "ctrl"@
    ||| lower == "control"@
    ||| lower == "shift"@
    ||| lower == "alt"@
    ||| lower == "menu"@
    ||| lower == "win"@
    ||| lower == "super"@
    ||| lower == "meta"@
    ||| lower == "cmd"@
}

/// A part names a main key: one ASCII letter or digit, or space, tab,
/// enter/return or esc/escape.
pub open spec fn main_key_part(p: Seq<char>) -> bool {
    !modifier_name(ascii_lower_seq(p)) && ((p.len() == 1 && is_ascii_alnum(ascii_upper(p[0]))) || (p.len()
        != 1 && named_key(ascii_lower_seq(p)) is Some))
}

/// A part that parses: a modifier name or a main key.
pub open spec fn part_ok(p: Seq<char>) -> bool {
    modifier_name(ascii_lower_seq(p)) || main_key_part(p)
}

/// The main-key codes a combo can have: an ASCII digit or upper-case
/// letter, space, tab, enter or escape.
pub open spec fn main_key_code(k: u16) -> bool {
    (0x30 <= k <= 0x39) || (0x41 <= k <= 0x5A) || k == 0x20 || k == 0x09 || k == 0x0D || k == 0x1B
}

proof fn lemma_apply_parts_shape(ps: Seq<Seq<char>>)
    ensures
        apply_parts(ps) is Some <==> forall|k: int| 0 <= k < ps.len() ==> part_ok(#[trigger] ps[k]),
        apply_parts(ps) matches Some(d) ==> {
            &&& (d.key_vk is Some <==> exists|k: int| 0 <= k < ps.len() && main_key_part(#[trigger] ps[k]))
            &&& ((d.ctrl || d.shift || d.alt || d.win) <==> exists|k: int|
                0 <= k < ps.len() && modifier_name(ascii_lower_seq(#[trigger] ps[k])))
            &&& (d.key_vk matches Some(v) ==> main_key_code(v))
        },
    decreases ps.len(),
{
    if ps.len() > 0 {
        let d0 = ps.drop_last();
        lemma_apply_parts_shape(d0);
        let p = ps.last();
        assert forall|k: int| 0 <= k < d0.len() implies #[trigger] d0[k] == ps[k] by {}
        assert(ps[ps.len() - 1] == p);
        if p.len() == 1 {
            let c = ascii_upper(p[0]);
            if is_ascii_alnum(c) {
                assert(main_key_code((c as u32) as u16));
            }
        }
        match apply_parts(d0) {
            None => {
                assert(!(forall|k: int| 0 <= k < d0.len() ==> part_ok(#[trigger] d0[k])));
                let k0 = choose|k: int| 0 <= k < d0.len() && !part_ok(#[trigger] d0[k]);
                assert(!part_ok(ps[k0]));
            },
            Some(d) => {
                if apply_part(d, p) is Some {
                    assert forall|k: int| 0 <= k < ps.len() implies part_ok(#[trigger] ps[k]) by {
                        if k < d0.len() {
                            assert(d0[k] == ps[k]);
                        }
                    }
                    if exists|k: int| 0 <= k < ps.len() && main_key_part(#[trigger] ps[k]) {
                        let k0 = choose|k: int| 0 <= k < ps.len() && main_key_part(#[trigger] ps[k]);
                        if k0 < d0.len() {
                            assert(main_key_part(d0[k0]));
                        }
                    }
                    if exists|k: int| 0 <= k < d0.len() && main_key_part(#[trigger] d0[k]) {
                        let k0 = choose|k: int| 0 <= k < d0.len() && main_key_part(#[trigger] d0[k]);
                        assert(main_key_part(ps[k0]));
                    }
                    if exists|k: int| 0 <= k < ps.len() && modifier_name(ascii_lower_seq(#[trigger] ps[k])) {
                        let k0 = choose|k: int| 0 <= k < ps.len() && modifier_name(ascii_lower_seq(#[trigger] ps[k]));
                        if k0 < d0.len() {
                            assert(modifier_name(ascii_lower_seq(d0[k0])));
                        }
                    }
                    if exists|k: int| 0 <= k < d0.len() && modifier_name(ascii_lower_seq(#[trigger] d0[k])) {
                        let k0 = choose|k: int| 0 <= k < d0.len() && modifier_name(ascii_lower_seq(#[trigger] d0[k]));
                        assert(modifier_name(ascii_lower_seq(ps[k0])));
                    }
                } else {
                    assert(!part_ok(ps[ps.len() - 1]));
                }
            },
        }
    }
}

pub open spec fn names_ctrl(lower: Seq<char>) -> bool {
    lower == "ctrl"@ || lower == "control"@
}

pub open spec fn names_shift(lower: Seq<char>) -> bool {
    lower == "shift"@
}

pub open spec fn names_alt(lower: Seq<char>) -> bool {
    lower == "alt"@ || lower == "menu"@
}

pub open spec fn names_win(lower: Seq<char>) -> bool {
    lower == "win"@ || lower == "super"@ || lower == "meta"@ || lower == "cmd"@
}

/// Does `lower` name modifier `m` (0 Ctrl, 1 Shift, 2 Alt, 3 Win)?
pub open spec fn names_modifier(m: int, lower: Seq<char>) -> bool {
    if m == 0 {
        names_ctrl(lower)
    } else if m == 1 {
        names_shift(lower)
    } else if m == 2 {
        names_alt(lower)
    } else {
        names_win(lower)
    }
}

/// Some part of `ps`, lower-cased, names modifier `m`.
pub open spec fn some_part(ps: Seq<Seq<char>>, m: int) -> bool {
    exists|k: int| 0 <= k < ps.len() && names_modifier(m, ascii_lower_seq(#[trigger] ps[k]))
}

proof fn lemma_some_part_push(ps: Seq<Seq<char>>, p: Seq<char>, m: int)
    ensures
        some_part(ps.push(p), m) <==> (some_part(ps, m) || names_modifier(m, ascii_lower_seq(p))),
{
    let q = ps.push(p);
    if some_part(q, m) {
        let k = choose|k: int| 0 <= k < q.len() && names_modifier(m, ascii_lower_seq(#[trigger] q[k]));
        if k < ps.len() {
            assert(q[k] == ps[k]);
        }
    }
    if some_part(ps, m) {
        let k = choose|k: int| 0 <= k < ps.len() && names_modifier(m, ascii_lower_seq(#[trigger] ps[k]));
        assert(q[k] == ps[k]);
    }
    if names_modifier(m, ascii_lower_seq(p)) {
        assert(q[ps.len() as int] == p);
    }
}

proof fn lemma_modifier_names_differ()
    ensures
        "ctrl"@ != "menu"@,
        "ctrl"@ != "meta"@,
        "shift"@ != "super"@,
        "alt"@ != "win"@,
        "alt"@ != "cmd"@,
        "ctrl"@ != "shift"@ && "ctrl"@ != "alt"@ && "ctrl"@ != "win"@ && "ctrl"@ != "super"@ && "ctrl"@
            != "cmd"@,
        "control"@ != "shift"@ && "control"@ != "alt"@ && "control"@ != "menu"@ && "control"@ != "win"@
            && "control"@ != "super"@ && "control"@ != "meta"@ && "control"@ != "cmd"@,
        "shift"@ != "alt"@ && "shift"@ != "menu"@ && "shift"@ != "win"@ && "shift"@ != "meta"@ && "shift"@
            != "cmd"@,
        "alt"@ != "super"@ && "alt"@ != "meta"@ && "menu"@ != "win"@ && "menu"@ != "super"@ && "menu"@
            != "meta"@ && "menu"@ != "cmd"@,
{
    reveal_strlit("ctrl");
    reveal_strlit("control");
    reveal_strlit("shift");
    reveal_strlit("alt");
    reveal_strlit("menu");
    reveal_strlit("win");
    reveal_strlit("super");
    reveal_strlit("meta");
    reveal_strlit("cmd");
    assert("ctrl"@.len() == 4 && "control"@.len() == 7 && "shift"@.len() == 5 && "alt"@.len() == 3);
    assert("menu"@.len() == 4 && "win"@.len() == 3 && "super"@.len() == 5 && "meta"@.len() == 4);
    assert("cmd"@.len() == 3);
    assert("ctrl"@[0] != "menu"@[0]);
    assert("ctrl"@[0] != "meta"@[0]);
    assert("shift"@[1] != "super"@[1]);
    assert("alt"@[0] != "win"@[0]);
    assert("alt"@[0] != "cmd"@[0]);
    assert("menu"@[2] != "meta"@[2]);
}

proof fn lemma_apply_parts_flags(ps: Seq<Seq<char>>)
    ensures
        apply_parts(ps) matches Some(d) ==> {
            &&& (d.ctrl <==> some_part(ps, 0))
            &&& (d.shift <==> some_part(ps, 1))
            &&& (d.alt <==> some_part(ps, 2))
            &&& (d.win <==> some_part(ps, 3))
        },
    decreases ps.len(),
{
    if ps.len() > 0 {
        let d0 = ps.drop_last();
        let p = ps.last();
        lemma_apply_parts_flags(d0);
        assert(d0.push(p) =~= ps);
        lemma_some_part_push(d0, p, 0);
        lemma_some_part_push(d0, p, 1);
        lemma_some_part_push(d0, p, 2);
        lemma_some_part_push(d0, p, 3);
        let l = ascii_lower_seq(p);
        assert(names_modifier(0, l) == names_ctrl(l));
        assert(names_modifier(1, l) == names_shift(l));
        assert(names_modifier(2, l) == names_alt(l));
        assert(names_modifier(3, l) == names_win(l));
        match apply_parts(d0) {
            None => {},
            Some(d) => {
                assert(apply_parts(ps) == apply_part(d, p));
                lemma_modifier_names_differ();
                if names_ctrl(l) {
                    assert(!names_shift(l) && !names_alt(l) && !names_win(l));
                } else if names_shift(l) {
                    assert(!names_alt(l) && !names_win(l));
                } else if names_alt(l) {
                    assert(!names_win(l));
                } else if names_win(l) {
                } else {
                    match apply_part(d, p) {
                        None => {},
                        Some(e) => {
                            assert(e.ctrl == d.ctrl);
                            assert(e.shift == d.shift);
                            assert(e.alt == d.alt);
                            assert(e.win == d.win);
                        },
                    }
                }
            },
        }
    } else {
        assert(!some_part(ps, 0));
        assert(!some_part(ps, 1));
        assert(!some_part(ps, 2));
        assert(!some_part(ps, 3));
    }
}

/// Each modifier of a parsed combo is held exactly when a part names it:
/// Ctrl for `ctrl`/`control`, Shift for `shift`, Alt for `alt`/`menu`, Win
/// for `win`/`super`/`meta`/`cmd` (any ASCII case).
pub proof fn lemma_parse_modifier_flags(s: Seq<char>)
    ensures
        parse_combo(s) matches Some(c) ==> {
            &&& (c.ctrl <==> exists|k: int|
                0 <= k < combo_parts(s).len() && names_ctrl(ascii_lower_seq(#[trigger] combo_parts(s)[k])))
            &&& (c.shift <==> exists|k: int|
                0 <= k < combo_parts(s).len() && names_shift(ascii_lower_seq(#[trigger] combo_parts(s)[k])))
            &&& (c.alt <==> exists|k: int|
                0 <= k < combo_parts(s).len() && names_alt(ascii_lower_seq(#[trigger] combo_parts(s)[k])))
            &&& (c.win <==> exists|k: int|
                0 <= k < combo_parts(s).len() && names_win(ascii_lower_seq(#[trigger] combo_parts(s)[k])))
        },
{
    lemma_apply_parts_flags(combo_parts(s));
}

/// What parses: a combo parses exactly when every `+`-separated part (after
/// trimming, ignoring empty ones) is a modifier name or a main key, at least
/// one is a modifier and at least one a main key. The main key is then an
/// ASCII digit or upper-case letter code, or space, tab, enter or escape;
/// so `Ctrl+Shift` (no main key), `Ctrl+F1` and `Ctrl+/` (unknown parts)
/// and `Z` (no modifier) give nothing.
pub proof fn lemma_parse_law(s: Seq<char>)
    ensures
        parse_combo(s) is Some <==> {
            &&& forall|k: int| 0 <= k < combo_parts(s).len() ==> part_ok(#[trigger] combo_parts(s)[k])
            &&& exists|k: int| 0 <= k < combo_parts(s).len() && main_key_part(#[trigger] combo_parts(s)[k])
            &&& exists|k: int|
                0 <= k < combo_parts(s).len() && modifier_name(ascii_lower_seq(#[trigger] combo_parts(s)[k]))
        },
        parse_combo(s) matches Some(c) ==> c.has_modifier_spec() && main_key_code(c.key_vk),
{
    lemma_apply_parts_shape(combo_parts(s));
}

proof fn lemma_apply_parts_key(parts: Seq<Seq<char>>)
    ensures
        apply_parts(parts) matches Some(d) ==> (d.key_vk matches Some(k) ==> !modifier_vk(k)),
    decreases parts.len(),
{
    if parts.len() > 0 {
        lemma_apply_parts_key(parts.drop_last());
    }
}

// ---------------------------------------------------------------------------
// The hook
// ---------------------------------------------------------------------------

/// Does a key event touch the combo (its main key or one of its modifiers)?
pub open spec fn involves(combo: KeyCombo, vk: u16) -> bool {
    combo.key_vk == vk || (combo.ctrl && ctrl_vk(vk)) || (combo.shift && shift_vk(vk)) || (
    combo.alt && alt_vk(vk)) || (combo.win && win_vk(vk))
}

pub fn combo_involves(combo: &KeyCombo, vk: u16) -> (r: bool)
    ensures
        r == involves(*combo, vk),
{
    if combo.key_vk == vk {
        return true;
    }
    if combo.ctrl && is_ctrl_vk(vk) {
        return true;
    }
    if combo.shift && is_shift_vk(vk) {
        return true;
    }
    if combo.alt && is_alt_vk(vk) {
        return true;
    }
    if combo.win && is_win_vk(vk) {
        return true;
    }
    false
}

pub open spec fn adjusted(vk: u16, is_down: bool, m: (bool, bool, bool, bool)) -> (
    bool,
    bool,
    bool,
    bool,
) {
    (
        if ctrl_vk(vk) {
            is_down
        } else {
            m.0
        },
        if shift_vk(vk) {
            is_down
        } else {
            m.1
        },
        if alt_vk(vk) {
            is_down
        } else {
            m.2
        },
        if win_vk(vk) {
            is_down
        } else {
            m.3
        },
    )
}

/// Align the sampled modifier state with the key event being processed:
/// the sampled state may lag by one event, so the key in flight decides its
/// own modifier on both press and release.
pub fn adjust_mods_for_event(vk: u16, is_down: bool, ctrl: bool, shift: bool, alt: bool, win: bool) -> (r: (
    bool,
    bool,
    bool,
    bool,
))
    ensures
        r == adjusted(vk, is_down, (ctrl, shift, alt, win)),
{
    let mut ctrl = ctrl;
    let mut shift = shift;
    let mut alt = alt;
    let mut win = win;
    if is_ctrl_vk(vk) {
        ctrl = is_down;
    }
    if is_shift_vk(vk) {
        shift = is_down;
    }
    if is_alt_vk(vk) {
        alt = is_down;
    }
    if is_win_vk(vk) {
        win = is_down;
    }
    (ctrl, shift, alt, win)
}

/// The two configured combos.
#[derive(Debug, Clone, Copy, PartialEq, Eq, Structural)]
pub struct ComboSet {
    pub dictation: KeyCombo,
    pub command_mode: KeyCombo,
}

/// Which combos are currently held.
#[derive(Debug, Clone, Copy, PartialEq, Eq, Structural)]
pub struct Engaged {
    pub dictation: bool,
    pub command_mode: bool,
}

/// A key event as the hook sees it.
#[derive(Debug, Clone, Copy, PartialEq, Eq, Structural)]
pub struct KeyInput {
    pub vk: u16,
    pub is_down: bool,
    pub is_up: bool,
    /// Synthesized by this program (pasting, typing): always passed on.
    pub injected: bool,
}

/// What the hook does with one key event.
#[derive(Debug)]
pub struct HookOutcome {
    /// Keep the event from the rest of the system.
    pub swallow: bool,
    /// Edges to report, in order.
    pub events: Vec<HotkeyEvent>,
}

pub open spec fn combo_of(c: ComboSet, id: HotkeyId) -> KeyCombo {
    match id {
        HotkeyId::Dictation => c.dictation,
        HotkeyId::CommandMode => c.command_mode,
    }
}

pub open spec fn held(e: Engaged, id: HotkeyId) -> bool {
    match id {
        HotkeyId::Dictation => e.dictation,
        HotkeyId::CommandMode => e.command_mode,
    }
}

pub open spec fn set_held(e: Engaged, id: HotkeyId, b: bool) -> Engaged {
    match id {
        HotkeyId::Dictation => Engaged { dictation: b, ..e },
        HotkeyId::CommandMode => Engaged { command_mode: b, ..e },
    }
}

/// State after considering `id` for a press: (engaged, swallow, events).
pub open spec fn press(
    c: ComboSet,
    st: (Engaged, bool, Seq<HotkeyEvent>),
    id: HotkeyId,
    vk: u16,
    m: (bool, bool, bool, bool),
) -> (Engaged, bool, Seq<HotkeyEvent>) {
    let combo = combo_of(c, id);
    if combo.key_vk == vk && combo.matches_modifiers_spec(m.0, m.1, m.2, m.3) {
        if !held(st.0, id) {
            (set_held(st.0, id, true), true, st.2.push(HotkeyEvent::Down(id)))
        } else {
            (st.0, true, st.2)
        }
    } else {
        st
    }
}

/// State after considering `id` for a release.
pub open spec fn release(c: ComboSet, st: (Engaged, bool, Seq<HotkeyEvent>), id: HotkeyId, vk: u16) -> (
    Engaged,
    bool,
    Seq<HotkeyEvent>,
) {
    let combo = combo_of(c, id);
    if held(st.0, id) && involves(combo, vk) {
        (set_held(st.0, id, false), st.1 || combo.key_vk == vk, st.2.push(HotkeyEvent::Up(id)))
    } else {
        st
    }
}

/// A held combo's main key stays swallowed (key repeat, stray presses after
/// a modifier was let go mid-hold).
pub open spec fn keeps_main_key(c: ComboSet, e: Engaged, vk: u16) -> bool {
    (e.dictation && c.dictation.key_vk == vk) || (e.command_mode && c.command_mode.key_vk == vk)
}

/// The hook's decision: (engaged afterwards, swallow, events).
pub open spec fn hook_step(c: ComboSet, e: Engaged, input: KeyInput, sampled: (
    bool,
    bool,
    bool,
    bool,
)) -> (Engaged, bool, Seq<HotkeyEvent>) {
    if input.injected || (!input.is_down && !input.is_up) {
        (e, false, Seq::empty())
    } else {
        let m = adjusted(input.vk, input.is_down, sampled);
        let start = (e, false, Seq::<HotkeyEvent>::empty());
        let after_press = if input.is_down && !modifier_vk(input.vk) {
            press(c, press(c, start, HotkeyId::Dictation, input.vk, m), HotkeyId::CommandMode, input.vk, m)
        } else {
            start
        };
        let after_release = if input.is_up {
            release(c, release(c, after_press, HotkeyId::Dictation, input.vk), HotkeyId::CommandMode, input.vk)
        } else {
            after_press
        };
        (
            after_release.0,
            after_release.1 || keeps_main_key(c, after_release.0, input.vk),
            after_release.2,
        )
    }
}

fn press_one(c: &ComboSet, engaged: &mut Engaged, swallow: &mut bool, events: &mut Vec<HotkeyEvent>, id: HotkeyId, vk: u16, m: (bool, bool, bool, bool))
    ensures
        (*final(engaged), *final(swallow), final(events)@) == press(*c, (*old(engaged), *old(swallow), old(events)@), id, vk, m),
{
    let combo = match id {
        HotkeyId::Dictation => c.dictation,
        HotkeyId::CommandMode => c.command_mode,
    };
    if combo.key_vk == vk && combo.matches_modifiers(m.0, m.1, m.2, m.3) {
        *swallow = true;
        match id {
            HotkeyId::Dictation => {
                if !engaged.dictation {
                    engaged.dictation = true;
                    events.push(HotkeyEvent::Down(id));
                }
            },
            HotkeyId::CommandMode => {
                if !engaged.command_mode {
                    engaged.command_mode = true;
                    events.push(HotkeyEvent::Down(id));
                }
            },
        }
    }
}

fn release_one(c: &ComboSet, engaged: &mut Engaged, swallow: &mut bool, events: &mut Vec<HotkeyEvent>, id: HotkeyId, vk: u16)
    ensures
        (*final(engaged), *final(swallow), final(events)@) == release(*c, (*old(engaged), *old(swallow), old(events)@), id, vk),
{
    let combo = match id {
        HotkeyId::Dictation => c.dictation,
        HotkeyId::CommandMode => c.command_mode,
    };
    let is_held = match id {
        HotkeyId::Dictation => engaged.dictation,
        HotkeyId::CommandMode => engaged.command_mode,
    };
    if is_held && combo_involves(&combo, vk) {
        match id {
            HotkeyId::Dictation => {
                engaged.dictation = false;
            },
            HotkeyId::CommandMode => {
                engaged.command_mode = false;
            },
        }
        events.push(HotkeyEvent::Up(id));
        if combo.key_vk == vk {
            *swallow = true;
        }
    }
}

/// Decide what happens to one key event, given the configured combos, the
/// held combos (updated in place) and the sampled modifier state.
pub fn hook_decision(combos: &ComboSet, engaged: &mut Engaged, input: KeyInput, ctrl: bool, shift: bool, alt: bool, win: bool) -> (r: HookOutcome)
    ensures
        (*final(engaged), r.swallow, r.events@) == hook_step(*combos, *old(engaged), input, (ctrl, shift, alt, win)),
{
    let mut events: Vec<HotkeyEvent> = Vec::new();
    if input.injected || (!input.is_down && !input.is_up) {
        return HookOutcome { swallow: false, events };
    }
    let m = adjust_mods_for_event(input.vk, input.is_down, ctrl, shift, alt, win);
    let mut swallow = false;
    if input.is_down && !is_modifier_vk(input.vk) {
        press_one(combos, engaged, &mut swallow, &mut events, HotkeyId::Dictation, input.vk, m);
        press_one(combos, engaged, &mut swallow, &mut events, HotkeyId::CommandMode, input.vk, m);
    }
    if input.is_up {
        release_one(combos, engaged, &mut swallow, &mut events, HotkeyId::Dictation, input.vk);
        release_one(combos, engaged, &mut swallow, &mut events, HotkeyId::CommandMode, input.vk);
    }
    if (engaged.dictation && combos.dictation.key_vk == input.vk) || (engaged.command_mode
        && combos.command_mode.key_vk == input.vk) {
        swallow = true;
    }
    HookOutcome { swallow, events }
}

/// Modifier events always reach the system: with combos whose main keys are
/// not modifiers (as every parsed combo's), a modifier press or release is
/// never swallowed.
pub proof fn lemma_modifiers_pass_through(c: ComboSet, e: Engaged, input: KeyInput, sampled: (
    bool,
    bool,
    bool,
    bool,
))
    requires
        !modifier_vk(c.dictation.key_vk),
        !modifier_vk(c.command_mode.key_vk),
        modifier_vk(input.vk),
    ensures
        !hook_step(c, e, input, sampled).1,
{
}

/// The target application never receives a matched hotkey: a press of a
/// combo's main key while exactly its modifiers are held is swallowed.
pub proof fn lemma_matched_combo_swallowed(c: ComboSet, e: Engaged, input: KeyInput, sampled: (
    bool,
    bool,
    bool,
    bool,
), id: HotkeyId)
    requires
        !input.injected,
        input.is_down,
        !modifier_vk(input.vk),
        combo_of(c, id).key_vk == input.vk,
        combo_of(c, id).matches_modifiers_spec(sampled.0, sampled.1, sampled.2, sampled.3),
    ensures
        hook_step(c, e, input, sampled).1,
{
}

/// The combos for new hotkey settings; the error names the one that is
/// invalid. The hook keeps using its current combos when this fails.
pub fn update_combos(dictation: &str, command_mode: &str) -> (r: Result<ComboSet, String>)
    ensures
        match (parse_combo(dictation@), parse_combo(command_mode@)) {
            (Some(d), Some(m)) => r == Ok::<ComboSet, String>(ComboSet { dictation: d, command_mode: m }),
            (None, _) => r matches Err(msg) && msg@ == "invalid dictation hotkey: "@ + dictation@,
            (Some(_), None) => r matches Err(msg) && msg@ == "invalid command_mode hotkey: "@ + command_mode@,
        },
{
    let d = match KeyCombo::parse(dictation) {
        Some(d) => d,
        None => {
            let mut m = String::from_str("invalid dictation hotkey: ");
            m.append(dictation);
            return Err(m);
        },
    };
    let c = match KeyCombo::parse(command_mode) {
        Some(c) => c,
        None => {
            let mut m = String::from_str("invalid command_mode hotkey: ");
            m.append(command_mode);
            return Err(m);
        },
    };
    Ok(ComboSet { dictation: d, command_mode: c })
}

/// Checks on hotkey settings before they are saved: each combo parses and
/// has a modifier, and the three combos differ.
pub open spec fn hotkeys_check(d: Seq<char>, c: Seq<char>, p: Seq<char>) -> Result<(), Seq<char>> {
    match (parse_combo(d), parse_combo(c), parse_combo(p)) {
        (None, _, _) => Err("Invalid dictation hotkey: "@ + d),
        (Some(_), None, _) => Err("Invalid command mode hotkey: "@ + c),
        (Some(_), Some(_), None) => Err("Invalid scratchpad hotkey: "@ + p),
        (Some(dk), Some(ck), Some(pk)) => if !dk.has_modifier_spec() {
            Err("Hotkey for dictation must include at least one modifier (Ctrl/Shift/Alt/Win)"@)
        } else if !ck.has_modifier_spec() {
            Err("Hotkey for command mode must include at least one modifier (Ctrl/Shift/Alt/Win)"@)
        } else if !pk.has_modifier_spec() {
            Err("Hotkey for scratchpad must include at least one modifier (Ctrl/Shift/Alt/Win)"@)
        } else if dk == ck {
            Err("Dictation and command mode hotkeys must be different"@)
        } else if dk == pk {
            Err("Dictation and scratchpad hotkeys must be different"@)
        } else if ck == pk {
            Err("Command mode and scratchpad hotkeys must be different"@)
        } else {
            Ok(())
        },
    }
}

fn invalid(prefix: &str, value: &String) -> (r: String)
    ensures
        r@ == prefix@ + value@,
{
    let mut m = String::from_str(prefix);
    m.append(value.as_str());
    m
}

/// Validate the hotkeys of settings about to be saved.
pub fn validate_hotkeys(settings: &Settings) -> (r: Result<(), String>)
    ensures
        match hotkeys_check(
            settings.hotkeys.dictation@,
            settings.hotkeys.command_mode@,
            settings.hotkeys.scratchpad@,
        ) {
            Ok(()) => r is Ok,
            Err(m) => r matches Err(e) && e@ == m,
        },
{
    let h = &settings.hotkeys;
    let dictation = match KeyCombo::parse(h.dictation.as_str()) {
        Some(k) => k,
        None => {
            return Err(invalid("Invalid dictation hotkey: ", &h.dictation));
        },
    };
    let command = match KeyCombo::parse(h.command_mode.as_str()) {
        Some(k) => k,
        None => {
            return Err(invalid("Invalid command mode hotkey: ", &h.command_mode));
        },
    };
    let scratchpad = match KeyCombo::parse(h.scratchpad.as_str()) {
        Some(k) => k,
        None => {
            return Err(invalid("Invalid scratchpad hotkey: ", &h.scratchpad));
        },
    };
    if !dictation.has_modifier() {
        return Err(
            String::from_str(
                "Hotkey for dictation must include at least one modifier (Ctrl/Shift/Alt/Win)",
            ),
        );
    }
    if !command.has_modifier() {
        return Err(
            String::from_str(
                "Hotkey for command mode must include at least one modifier (Ctrl/Shift/Alt/Win)",
            ),
        );
    }
    if !scratchpad.has_modifier() {
        return Err(
            String::from_str(
                "Hotkey for scratchpad must include at least one modifier (Ctrl/Shift/Alt/Win)",
            ),
        );
    }
    if dictation == command {
        return Err(String::from_str("Dictation and command mode hotkeys must be different"));
    }
    if dictation == scratchpad {
        return Err(String::from_str("Dictation and scratchpad hotkeys must be different"));
    }
    if command == scratchpad {
        return Err(String::from_str("Command mode and scratchpad hotkeys must be different"));
    }
    Ok(())
}

} // verus!
