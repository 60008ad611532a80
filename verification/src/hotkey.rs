//! The recorder of key combinations.

use crate::edits::{edit_views, ConfigEdit, EditView};
use vstd::prelude::*;
use vstd::string::*;

verus! {

/// The keys that the recorder tells apart.
#[derive(Debug, Clone, Copy, PartialEq, Eq, Structural)]
pub enum Key {
    A,
    B,
    C,
    D,
    E,
    F,
    G,
    H,
    I,
    J,
    K,
    L,
    M,
    N,
    O,
    P,
    Q,
    R,
    S,
    T,
    U,
    V,
    W,
    X,
    Y,
    Z,
    Num0,
    Num1,
    Num2,
    Num3,
    Num4,
    Num5,
    Num6,
    Num7,
    Num8,
    Num9,
    F1,
    F2,
    F3,
    F4,
    F5,
    F6,
    F7,
    F8,
    F9,
    F10,
    F11,
    F12,
    Space,
    Enter,
    ArrowUp,
    ArrowDown,
    ArrowLeft,
    ArrowRight,
    Home,
    End,
    PageUp,
    PageDown,
    Escape,
    Tab,
    Backspace,
    Delete,
    /// Any key without a name of its own.
    Other,
}

/// The modifiers that are held down with a key.
#[derive(Debug, Clone, Copy, PartialEq, Eq, Structural)]
pub struct Modifiers {
    pub ctrl: bool,
    pub alt: bool,
    pub shift: bool,
    pub mac_cmd: bool,
    pub command: bool,
}

/// A key that goes down or up.
#[derive(Debug, Clone, Copy, PartialEq, Eq, Structural)]
pub struct KeyEvent {
    pub key: Key,
    pub modifiers: Modifiers,
    pub pressed: bool,
}

/// The name of a key in a combination.
pub open spec fn key_text(key: Key) -> Seq<char> {
    match key {
        Key::A => "a"@,
        Key::B => "b"@,
        Key::C => "c"@,
        Key::D => "d"@,
        Key::E => "e"@,
        Key::F => "f"@,
        Key::G => "g"@,
        Key::H => "h"@,
        Key::I => "i"@,
        Key::J => "j"@,
        Key::K => "k"@,
        Key::L => "l"@,
        Key::M => "m"@,
        Key::N => "n"@,
        Key::O => "o"@,
        Key::P => "p"@,
        Key::Q => "q"@,
        Key::R => "r"@,
        Key::S => "s"@,
        Key::T => "t"@,
        Key::U => "u"@,
        Key::V => "v"@,
        Key::W => "w"@,
        Key::X => "x"@,
        Key::Y => "y"@,
        Key::Z => "z"@,
        Key::Num0 => "0"@,
        Key::Num1 => "1"@,
        Key::Num2 => "2"@,
        Key::Num3 => "3"@,
        Key::Num4 => "4"@,
        Key::Num5 => "5"@,
        Key::Num6 => "6"@,
        Key::Num7 => "7"@,
        Key::Num8 => "8"@,
        Key::Num9 => "9"@,
        Key::F1 => "f1"@,
        Key::F2 => "f2"@,
        Key::F3 => "f3"@,
        Key::F4 => "f4"@,
        Key::F5 => "f5"@,
        Key::F6 => "f6"@,
        Key::F7 => "f7"@,
        Key::F8 => "f8"@,
        Key::F9 => "f9"@,
        Key::F10 => "f10"@,
        Key::F11 => "f11"@,
        Key::F12 => "f12"@,
        Key::Space => "space"@,
        Key::Enter => "enter"@,
        Key::ArrowUp => "up"@,
        Key::ArrowDown => "down"@,
        Key::ArrowLeft => "left"@,
        Key::ArrowRight => "right"@,
        Key::Home => "home"@,
        Key::End => "end"@,
        Key::PageUp => "pageup"@,
        Key::PageDown => "pagedown"@,
        _ => "?"@,
    }
}

/// The name of a key in a combination.
pub fn key_name(key: Key) -> (r: &'static str)
    ensures
        r@ == key_text(key),
{
    match key {
        Key::A => "a",
        Key::B => "b",
        Key::C => "c",
        Key::D => "d",
        Key::E => "e",
        Key::F => "f",
        Key::G => "g",
        Key::H => "h",
        Key::I => "i",
        Key::J => "j",
        Key::K => "k",
        Key::L => "l",
        Key::M => "m",
        Key::N => "n",
        Key::O => "o",
        Key::P => "p",
        Key::Q => "q",
        Key::R => "r",
        Key::S => "s",
        Key::T => "t",
        Key::U => "u",
        Key::V => "v",
        Key::W => "w",
        Key::X => "x",
        Key::Y => "y",
        Key::Z => "z",
        Key::Num0 => "0",
        Key::Num1 => "1",
        Key::Num2 => "2",
        Key::Num3 => "3",
        Key::Num4 => "4",
        Key::Num5 => "5",
        Key::Num6 => "6",
        Key::Num7 => "7",
        Key::Num8 => "8",
        Key::Num9 => "9",
        Key::F1 => "f1",
        Key::F2 => "f2",
        Key::F3 => "f3",
        Key::F4 => "f4",
        Key::F5 => "f5",
        Key::F6 => "f6",
        Key::F7 => "f7",
        Key::F8 => "f8",
        Key::F9 => "f9",
        Key::F10 => "f10",
        Key::F11 => "f11",
        Key::F12 => "f12",
        Key::Space => "space",
        Key::Enter => "enter",
        Key::ArrowUp => "up",
        Key::ArrowDown => "down",
        Key::ArrowLeft => "left",
        Key::ArrowRight => "right",
        Key::Home => "home",
        Key::End => "end",
        Key::PageUp => "pageup",
        Key::PageDown => "pagedown",
        _ => "?",
    }
}

/// A part of a combination, where its modifier is held down.
pub open spec fn modifier_text(held: bool, text: Seq<char>) -> Seq<char> {
    if held {
        text
    } else {
        Seq::empty()
    }
}

/// A combination as text: the modifiers and the key, with plus signs between
/// them.
pub open spec fn hotkey_text(key: Key, mods: Modifiers) -> Seq<char> {
    modifier_text(mods.ctrl, "ctrl+"@) + modifier_text(mods.alt, "alt+"@) + modifier_text(
        mods.mac_cmd || mods.command,
        "cmd+"@,
    ) + modifier_text(mods.shift, "shift+"@) + key_text(key)
}

/// Formats a key + modifier combo as a human-readable string (e.g. `"cmd+shift+b"`).
pub fn format_hotkey(key: Key, mods: Modifiers) -> (r: String)
    ensures
        r@ == hotkey_text(key, mods),
{
    let mut s = String::new();
    if mods.ctrl {
        s.append("ctrl+");
    }
    if mods.alt {
        s.append("alt+");
    }
    if mods.mac_cmd || mods.command {
        s.append("cmd+");
    }
    if mods.shift {
        s.append("shift+");
    }
    s.append(key_name(key));
    assert(s@ =~= hotkey_text(key, mods));
    s
}

/// What a key press does while a combination is being recorded.
#[verifier::ext_equal]
pub enum Recording {
    /// Recording goes on.
    GoesOn,
    /// Recording ends, and nothing is stored.
    Cancelled,
    /// Recording ends, and the stored combination is removed.
    Cleared,
    /// Recording ends with a combination.
    Recorded(Seq<char>),
}

/// Escape cancels, Backspace and Delete clear, Tab is left to navigation, and
/// any other key is recorded.
pub open spec fn recording_of(event: KeyEvent) -> Recording {
    match event.key {
        Key::Escape => Recording::Cancelled,
        Key::Backspace => Recording::Cleared,
        Key::Delete => Recording::Cleared,
        Key::Tab => Recording::GoesOn,
        _ => Recording::Recorded(hotkey_text(event.key, event.modifiers)),
    }
}

/// What the events of a frame do from the `i`-th on: the first key that is
/// pressed decides.
pub open spec fn recording_from(events: Seq<KeyEvent>, i: int) -> Recording
    decreases events.len() - i,
{
    if i < 0 || i >= events.len() {
        Recording::GoesOn
    } else if events[i].pressed {
        recording_of(events[i])
    } else {
        recording_from(events, i + 1)
    }
}

/// The edit that the end of a recording asks for.
pub open spec fn recording_edit(path: Seq<char>, recording: Recording) -> Seq<EditView> {
    match recording {
        Recording::GoesOn => Seq::empty(),
        Recording::Cancelled => Seq::empty(),
        Recording::Cleared => seq![EditView::Remove { path }],
        Recording::Recorded(value) => seq![EditView::SetStr { path, value }],
    }
}

/// What happened to a recorder in a frame.
pub struct HotkeyInput {
    /// The box was clicked.
    pub clicked: bool,
    /// The key events of the frame, in order.
    pub events: Vec<KeyEvent>,
    /// The clear button was clicked.
    pub clear_clicked: bool,
}

/// What the events of a frame do to a recorder that is recording.
pub open spec fn frame_recording(recording: bool, input: HotkeyInput) -> Recording {
    if recording {
        recording_from(input.events@, 0)
    } else {
        Recording::GoesOn
    }
}

/// The edits that a frame of the recorder asks for. The clear button is there
/// only while there is a combination.
pub open spec fn hotkey_edits(
    path: Seq<char>,
    recording: bool,
    has_value: bool,
    input: HotkeyInput,
) -> Seq<EditView> {
    let cleared = if has_value && input.clear_clicked {
        seq![EditView::Remove { path }]
    } else {
        Seq::empty()
    };
    recording_edit(path, frame_recording(recording, input)) + cleared
}

/// Whether the recorder records in the next frame: a click turns recording over;
/// the end of a recording and the clear button turn it off.
pub open spec fn records_next(recording: bool, has_value: bool, input: HotkeyInput) -> bool {
    &&& recording != input.clicked
    &&& frame_recording(recording, input) is GoesOn
    &&& !(has_value && input.clear_clicked)
}

/// The index of the first event in which a key is pressed.
fn first_press(events: &Vec<KeyEvent>) -> (r: Option<usize>)
    ensures
        match r {
            Some(i) => i < events.len() && recording_from(events@, 0) == recording_of(
                events@[i as int],
            ),
            None => recording_from(events@, 0) is GoesOn,
        },
{
    let mut i: usize = 0;
    while i < events.len()
        invariant
            i <= events.len(),
            recording_from(events@, 0) == recording_from(events@, i as int),
        decreases events.len() - i,
    {
        if events[i].pressed {
            return Some(i);
        }
        i += 1;
    }
    None
}

/// Applies a frame of the recorder: the edits that follow, and whether it records
/// in the next frame.
pub fn hotkey_frame(path: &str, recording: bool, has_value: bool, input: &HotkeyInput) -> (r: (
    Vec<ConfigEdit>,
    bool,
))
    ensures
        edit_views(r.0@) == hotkey_edits(path@, recording, has_value, *input),
        r.1 == records_next(recording, has_value, *input),
{
    let mut edits: Vec<ConfigEdit> = Vec::new();
    let mut next = recording != input.clicked;
    if recording {
        if let Some(i) = first_press(&input.events) {
            let event = input.events[i];
            match event.key {
                Key::Escape => {
                    next = false;
                },
                Key::Backspace => {
                    edits.push(ConfigEdit::Remove { path: path.to_owned() });
                    next = false;
                },
                Key::Delete => {
                    edits.push(ConfigEdit::Remove { path: path.to_owned() });
                    next = false;
                },
                Key::Tab => {},
                _ => {
                    edits.push(
                        ConfigEdit::SetStr {
                            path: path.to_owned(),
                            value: format_hotkey(event.key, event.modifiers),
                        },
                    );
                    next = false;
                },
            }
        }
    }
    if has_value && input.clear_clicked {
        edits.push(ConfigEdit::Remove { path: path.to_owned() });
        next = false;
    }
    assert(edit_views(edits@) =~= hotkey_edits(path@, recording, has_value, *input));
    (edits, next)
}

/// What the box of a recorder shows.
#[derive(Debug, Clone, Copy, PartialEq, Eq, Structural)]
pub enum HotkeyLabel {
    /// A request to press a key.
    PressKey,
    /// A request to click.
    Placeholder,
    /// The stored combination.
    Value,
}

/// What the box of a recorder shows.
pub fn hotkey_label(recording: bool, has_value: bool) -> (r: HotkeyLabel)
    ensures
        r == if recording {
            HotkeyLabel::PressKey
        } else if has_value {
            HotkeyLabel::Value
        } else {
            HotkeyLabel::Placeholder
        },
{
    if recording {
        HotkeyLabel::PressKey
    } else if has_value {
        HotkeyLabel::Value
    } else {
        HotkeyLabel::Placeholder
    }
}

/// Nothing is stored while nothing is being recorded, whatever keys are pressed.
pub proof fn idle_recorder_ignores_keys(path: Seq<char>, has_value: bool, input: HotkeyInput)
    requires
        !input.clear_clicked,
    ensures
        hotkey_edits(path, false, has_value, input).len() == 0,
        records_next(false, has_value, input) == input.clicked,
{
}

/// A frame in which a key ends the recording leaves the recorder idle.
pub proof fn recording_ends_with_its_key(recording: bool, has_value: bool, input: HotkeyInput)
    requires
        !(frame_recording(recording, input) is GoesOn),
    ensures
        recording,
        !records_next(recording, has_value, input),
{
}

/// Whether a key has a name of its own.
pub open spec fn is_named(key: Key) -> bool {
    key != Key::Escape && key != Key::Tab && key != Key::Backspace && key != Key::Delete && key
        != Key::Other
}

/// Keys with names of their own have different names, and a name holds no plus sign and is
/// that of no modifier.
pub proof fn key_names_tell_keys_apart(a: Key, b: Key)
    ensures
        is_named(a) && is_named(b) && a != b ==> key_text(a) != key_text(b),
        key_text(a).len() > 0,
        !key_text(a).contains('+'),
        key_text(a) != "ctrl"@,
        key_text(a) != "alt"@,
        key_text(a) != "cmd"@,
        key_text(a) != "shift"@,
{
    reveal_strlit("a");
    reveal_strlit("b");
    reveal_strlit("c");
    reveal_strlit("d");
    reveal_strlit("e");
    reveal_strlit("f");
    reveal_strlit("g");
    reveal_strlit("h");
    reveal_strlit("i");
    reveal_strlit("j");
    reveal_strlit("k");
    reveal_strlit("l");
    reveal_strlit("m");
    reveal_strlit("n");
    reveal_strlit("o");
    reveal_strlit("p");
    reveal_strlit("q");
    reveal_strlit("r");
    reveal_strlit("s");
    reveal_strlit("t");
    reveal_strlit("u");
    reveal_strlit("v");
    reveal_strlit("w");
    reveal_strlit("x");
    reveal_strlit("y");
    reveal_strlit("z");
    reveal_strlit("0");
    reveal_strlit("1");
    reveal_strlit("2");
    reveal_strlit("3");
    reveal_strlit("4");
    reveal_strlit("5");
    reveal_strlit("6");
    reveal_strlit("7");
    reveal_strlit("8");
    reveal_strlit("9");
    reveal_strlit("f1");
    reveal_strlit("f2");
    reveal_strlit("f3");
    reveal_strlit("f4");
    reveal_strlit("f5");
    reveal_strlit("f6");
    reveal_strlit("f7");
    reveal_strlit("f8");
    reveal_strlit("f9");
    reveal_strlit("f10");
    reveal_strlit("f11");
    reveal_strlit("f12");
    reveal_strlit("space");
    reveal_strlit("enter");
    reveal_strlit("up");
    reveal_strlit("down");
    reveal_strlit("left");
    reveal_strlit("right");
    reveal_strlit("home");
    reveal_strlit("end");
    reveal_strlit("pageup");
    reveal_strlit("pagedown");
    reveal_strlit("?");
    reveal_strlit("ctrl");
    reveal_strlit("alt");
    reveal_strlit("cmd");
    reveal_strlit("shift");
    let x = key_text(a);
    let y = key_text(b);
    assert(forall|i: int| 0 <= i < x.len() ==> x[i] != '+');
    if is_named(a) && is_named(b) && a != b {
        assert(x.len() != y.len() || x[0] != y[0] || (x.len() > 1 && x[1] != y[1]) || (x.len() > 2
            && x[2] != y[2]));
    }
    assert(x.len() != 4 || x[0] != 'c');
    assert(x.len() != 3 || (x[0] != 'a' && x[0] != 'c'));
    assert(x.len() != 5 || x[0] != 's' || x[1] != 'h');
}

/// Letters and digits are named by their character, function keys by an `f` and their
/// number, and others by a word.
pub proof fn keys_are_named_by_what_they_type()
    ensures
        key_text(Key::A) == seq!['a'],
        key_text(Key::B) == seq!['b'],
        key_text(Key::C) == seq!['c'],
        key_text(Key::D) == seq!['d'],
        key_text(Key::E) == seq!['e'],
        key_text(Key::F) == seq!['f'],
        key_text(Key::G) == seq!['g'],
        key_text(Key::H) == seq!['h'],
        key_text(Key::I) == seq!['i'],
        key_text(Key::J) == seq!['j'],
        key_text(Key::K) == seq!['k'],
        key_text(Key::L) == seq!['l'],
        key_text(Key::M) == seq!['m'],
        key_text(Key::N) == seq!['n'],
        key_text(Key::O) == seq!['o'],
        key_text(Key::P) == seq!['p'],
        key_text(Key::Q) == seq!['q'],
        key_text(Key::R) == seq!['r'],
        key_text(Key::S) == seq!['s'],
        key_text(Key::T) == seq!['t'],
        key_text(Key::U) == seq!['u'],
        key_text(Key::V) == seq!['v'],
        key_text(Key::W) == seq!['w'],
        key_text(Key::X) == seq!['x'],
        key_text(Key::Y) == seq!['y'],
        key_text(Key::Z) == seq!['z'],
        key_text(Key::Num0) == seq!['0'],
        key_text(Key::Num1) == seq!['1'],
        key_text(Key::Num2) == seq!['2'],
        key_text(Key::Num3) == seq!['3'],
        key_text(Key::Num4) == seq!['4'],
        key_text(Key::Num5) == seq!['5'],
        key_text(Key::Num6) == seq!['6'],
        key_text(Key::Num7) == seq!['7'],
        key_text(Key::Num8) == seq!['8'],
        key_text(Key::Num9) == seq!['9'],
        key_text(Key::F1) == seq!['f', '1'],
        key_text(Key::F2) == seq!['f', '2'],
        key_text(Key::F3) == seq!['f', '3'],
        key_text(Key::F4) == seq!['f', '4'],
        key_text(Key::F5) == seq!['f', '5'],
        key_text(Key::F6) == seq!['f', '6'],
        key_text(Key::F7) == seq!['f', '7'],
        key_text(Key::F8) == seq!['f', '8'],
        key_text(Key::F9) == seq!['f', '9'],
        key_text(Key::F10) == seq!['f', '1', '0'],
        key_text(Key::F11) == seq!['f', '1', '1'],
        key_text(Key::F12) == seq!['f', '1', '2'],
        key_text(Key::Space) == "space"@,
        key_text(Key::Enter) == "enter"@,
        key_text(Key::ArrowUp) == "up"@,
        key_text(Key::ArrowDown) == "down"@,
        key_text(Key::ArrowLeft) == "left"@,
        key_text(Key::ArrowRight) == "right"@,
        key_text(Key::Home) == "home"@,
        key_text(Key::End) == "end"@,
        key_text(Key::PageUp) == "pageup"@,
        key_text(Key::PageDown) == "pagedown"@,
        forall|key: Key| !is_named(key) ==> #[trigger] key_text(key) == "?"@,
{
    reveal_strlit("a");
    reveal_strlit("b");
    reveal_strlit("c");
    reveal_strlit("d");
    reveal_strlit("e");
    reveal_strlit("f");
    reveal_strlit("g");
    reveal_strlit("h");
    reveal_strlit("i");
    reveal_strlit("j");
    reveal_strlit("k");
    reveal_strlit("l");
    reveal_strlit("m");
    reveal_strlit("n");
    reveal_strlit("o");
    reveal_strlit("p");
    reveal_strlit("q");
    reveal_strlit("r");
    reveal_strlit("s");
    reveal_strlit("t");
    reveal_strlit("u");
    reveal_strlit("v");
    reveal_strlit("w");
    reveal_strlit("x");
    reveal_strlit("y");
    reveal_strlit("z");
    reveal_strlit("0");
    reveal_strlit("1");
    reveal_strlit("2");
    reveal_strlit("3");
    reveal_strlit("4");
    reveal_strlit("5");
    reveal_strlit("6");
    reveal_strlit("7");
    reveal_strlit("8");
    reveal_strlit("9");
    reveal_strlit("f1");
    reveal_strlit("f2");
    reveal_strlit("f3");
    reveal_strlit("f4");
    reveal_strlit("f5");
    reveal_strlit("f6");
    reveal_strlit("f7");
    reveal_strlit("f8");
    reveal_strlit("f9");
    reveal_strlit("f10");
    reveal_strlit("f11");
    reveal_strlit("f12");
}

/// What stands between the plus signs of a text.
pub open spec fn parts_at_plus(text: Seq<char>) -> Seq<Seq<char>>
    decreases text.len(),
{
    if text.len() == 0 {
        seq![Seq::empty()]
    } else if text.last() == '+' {
        parts_at_plus(text.drop_last()).push(Seq::empty())
    } else {
        let before = parts_at_plus(text.drop_last());
        before.drop_last().push(before.last().push(text.last()))
    }
}

proof fn lemma_single_part(word: Seq<char>)
    requires
        !word.contains('+'),
    ensures
        parts_at_plus(word) == seq![word],
    decreases word.len(),
{
    if word.len() > 0 {
        let rest = word.drop_last();
        assert(word[word.len() - 1] != '+');
        assert(!rest.contains('+')) by {
            if rest.contains('+') {
                let i = choose|i: int| 0 <= i < rest.len() && rest[i] == '+';
                assert(word[i] == '+');
            }
        }
        lemma_single_part(rest);
        assert(rest.push(word.last()) =~= word);
    } else {
        assert(word =~= Seq::<char>::empty());
    }
    assert(parts_at_plus(word) =~= seq![word]);
}

proof fn lemma_parts_not_empty(text: Seq<char>)
    ensures
        parts_at_plus(text).len() > 0,
    decreases text.len(),
{
    if text.len() > 0 {
        lemma_parts_not_empty(text.drop_last());
    }
}

proof fn lemma_first_part(word: Seq<char>, rest: Seq<char>)
    requires
        !word.contains('+'),
    ensures
        parts_at_plus(word.push('+') + rest) == seq![word] + parts_at_plus(rest),
    decreases rest.len(),
{
    let start = word.push('+');
    let text = start + rest;
    if rest.len() == 0 {
        assert(text =~= start);
        assert(start.drop_last() =~= word);
        lemma_single_part(word);
        assert(rest =~= Seq::<char>::empty());
        assert(parts_at_plus(text) =~= seq![word] + parts_at_plus(rest));
    } else {
        let less = rest.drop_last();
        assert(text.drop_last() =~= start + less);
        assert(text.last() == rest.last());
        lemma_first_part(word, less);
        lemma_parts_not_empty(less);
        assert(parts_at_plus(text) =~= seq![word] + parts_at_plus(rest));
    }
}

/// The text with a modifier's name and a plus sign before it has one part more, which
/// comes first.
proof fn lemma_with_modifier(held: bool, name: Seq<char>, text: Seq<char>, rest: Seq<char>)
    requires
        !name.contains('+'),
        text =~= name.push('+'),
    ensures
        parts_at_plus(modifier_text(held, text) + rest) == if held {
            seq![name] + parts_at_plus(rest)
        } else {
            parts_at_plus(rest)
        },
{
    if held {
        lemma_first_part(name, rest);
    } else {
        assert(modifier_text(held, text) + rest =~= rest);
    }
}

/// A combination is written as the names of the modifiers that are held, each whatever
/// else is held and in the order ctrl, alt, cmd, shift, and then the key, with plus signs
/// between them and nothing else.
pub proof fn combinations_name_each_held_modifier(key: Key, mods: Modifiers)
    ensures
        ({
            let parts = parts_at_plus(hotkey_text(key, mods));
            let cmd = mods.mac_cmd || mods.command;
            let at_alt = if mods.ctrl {
                1int
            } else {
                0int
            };
            let at_cmd = at_alt + if mods.alt {
                1int
            } else {
                0int
            };
            let at_shift = at_cmd + if cmd {
                1int
            } else {
                0int
            };
            let at_key = at_shift + if mods.shift {
                1int
            } else {
                0int
            };
            &&& parts.len() == at_key + 1
            &&& parts[at_key] == key_text(key)
            &&& mods.ctrl ==> parts[0] == "ctrl"@
            &&& mods.alt ==> parts[at_alt] == "alt"@
            &&& cmd ==> parts[at_cmd] == "cmd"@
            &&& mods.shift ==> parts[at_shift] == "shift"@
            &&& parts.contains("ctrl"@) <==> mods.ctrl
            &&& parts.contains("alt"@) <==> mods.alt
            &&& parts.contains("cmd"@) <==> cmd
            &&& parts.contains("shift"@) <==> mods.shift
        }),
{
    reveal_strlit("ctrl");
    reveal_strlit("alt");
    reveal_strlit("cmd");
    reveal_strlit("shift");
    reveal_strlit("ctrl+");
    reveal_strlit("alt+");
    reveal_strlit("cmd+");
    reveal_strlit("shift+");
    key_names_tell_keys_apart(key, key);
    let cmd = mods.mac_cmd || mods.command;
    let name = key_text(key);
    let with_shift = modifier_text(mods.shift, "shift+"@) + name;
    let with_cmd = modifier_text(cmd, "cmd+"@) + with_shift;
    let with_alt = modifier_text(mods.alt, "alt+"@) + with_cmd;
    let whole = modifier_text(mods.ctrl, "ctrl+"@) + with_alt;
    assert(hotkey_text(key, mods) =~= whole);
    lemma_single_part(name);
    lemma_with_modifier(mods.shift, "shift"@, "shift+"@, name);
    lemma_with_modifier(cmd, "cmd"@, "cmd+"@, with_shift);
    lemma_with_modifier(mods.alt, "alt"@, "alt+"@, with_cmd);
    lemma_with_modifier(mods.ctrl, "ctrl"@, "ctrl+"@, with_alt);
    let parts = parts_at_plus(whole);
    assert("ctrl"@.len() == 4 && "alt"@.len() == 3 && "cmd"@.len() == 3 && "shift"@.len() == 5);
    assert("alt"@[0] != "cmd"@[0]);
    if mods.ctrl {
        assert(parts[0] == "ctrl"@);
    }
    let at_alt = if mods.ctrl {
        1int
    } else {
        0int
    };
    let at_cmd = at_alt + if mods.alt {
        1int
    } else {
        0int
    };
    let at_shift = at_cmd + if cmd {
        1int
    } else {
        0int
    };
    if mods.alt {
        assert(parts[at_alt] == "alt"@);
    }
    if cmd {
        assert(parts[at_cmd] == "cmd"@);
    }
    if mods.shift {
        assert(parts[at_shift] == "shift"@);
    }
}

/// Combinations that differ in a modifier or in a key with a name of its own are written
/// differently.
pub proof fn combinations_are_told_apart(key: Key, mods: Modifiers, other: Key, other_mods: Modifiers)
    requires
        hotkey_text(key, mods) == hotkey_text(other, other_mods),
    ensures
        mods.ctrl == other_mods.ctrl,
        mods.alt == other_mods.alt,
        mods.shift == other_mods.shift,
        (mods.mac_cmd || mods.command) == (other_mods.mac_cmd || other_mods.command),
        is_named(key) && is_named(other) ==> key == other,
{
    combinations_name_each_held_modifier(key, mods);
    combinations_name_each_held_modifier(other, other_mods);
    key_names_tell_keys_apart(key, other);
}

/// While a combination is recorded, the first key that goes down decides: Escape stores
/// nothing, Backspace and Delete remove what is stored, Tab is passed over, and any other
/// key is stored with its modifiers. All but Tab end the recording.
pub proof fn first_press_decides(path: Seq<char>, has_value: bool, input: HotkeyInput, i: int)
    requires
        0 <= i < input.events@.len(),
        input.events@[i].pressed,
        forall|j: int| 0 <= j < i ==> !(#[trigger] input.events@[j]).pressed,
        !input.clear_clicked || !has_value,
    ensures
        ({
            let event = input.events@[i];
            let edits = hotkey_edits(path, true, has_value, input);
            let records = records_next(true, has_value, input);
            if event.key == Key::Escape {
                edits.len() == 0 && !records
            } else if event.key == Key::Backspace || event.key == Key::Delete {
                edits == seq![EditView::Remove { path }] && !records
            } else if event.key == Key::Tab {
                edits.len() == 0 && records == !input.clicked
            } else {
                edits == seq![
                    EditView::SetStr { path, value: hotkey_text(event.key, event.modifiers) },
                ] && !records
            }
        }),
{
    lemma_first_press(input.events@, 0, i);
    let edits = hotkey_edits(path, true, has_value, input);
    assert(edits =~= recording_edit(path, recording_of(input.events@[i])));
}

proof fn lemma_first_press(events: Seq<KeyEvent>, from: int, i: int)
    requires
        0 <= from <= i < events.len(),
        events[i].pressed,
        forall|j: int| from <= j < i ==> !(#[trigger] events[j]).pressed,
    ensures
        recording_from(events, from) == recording_of(events[i]),
    decreases i - from,
{
    if from < i {
        assert(!events[from].pressed);
        lemma_first_press(events, from + 1, i);
    }
}

proof fn lemma_no_press(events: Seq<KeyEvent>, from: int)
    requires
        0 <= from <= events.len(),
        forall|j: int| from <= j < events.len() ==> !(#[trigger] events[j]).pressed,
    ensures
        recording_from(events, from) is GoesOn,
    decreases events.len() - from,
{
    if from < events.len() {
        assert(!events[from].pressed);
        lemma_no_press(events, from + 1);
    }
}

/// Where no key goes down, or nothing is being recorded, a click turns recording over and
/// nothing is stored.
pub proof fn clicks_turn_recording_over(
    path: Seq<char>,
    recording: bool,
    has_value: bool,
    input: HotkeyInput,
)
    requires
        !recording || forall|j: int|
            0 <= j < input.events@.len() ==> !(#[trigger] input.events@[j]).pressed,
        !input.clear_clicked || !has_value,
    ensures
        hotkey_edits(path, recording, has_value, input).len() == 0,
        records_next(recording, has_value, input) == (recording != input.clicked),
{
    if recording {
        lemma_no_press(input.events@, 0);
    }
}

/// The clear button, which is there while something is stored, removes it and ends the
/// recording, after whatever a key press stored.
pub proof fn clear_button_removes_what_is_stored(
    path: Seq<char>,
    recording: bool,
    input: HotkeyInput,
    without: HotkeyInput,
)
    requires
        input.clear_clicked,
        !without.clear_clicked,
        input.events@ == without.events@,
        input.clicked == without.clicked,
    ensures
        hotkey_edits(path, recording, true, input) == hotkey_edits(
            path,
            recording,
            true,
            without,
        ).push(EditView::Remove { path }),
        !records_next(recording, true, input),
        hotkey_edits(path, recording, false, input) == hotkey_edits(
            path,
            recording,
            false,
            without,
        ),
        records_next(recording, false, input) == records_next(recording, false, without),
{
    assert(hotkey_edits(path, recording, true, input) =~= hotkey_edits(
        path,
        recording,
        true,
        without,
    ).push(EditView::Remove { path }));
}

} // verus!
