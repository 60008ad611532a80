use settings::edits::{ConfigEdit, NumberRepr};
use settings::hotkey::{
    format_hotkey, hotkey_frame, hotkey_label, key_name, HotkeyInput, HotkeyLabel, Key, KeyEvent,
    Modifiers,
};
use settings::kv_map::{KvState, NewRowInput, RowInput};
use settings::model::{Float64, SectionMap, SectionTabStyle};
use settings::paths::{join_path, parent_path};
use settings::sections::{
    add_dialog_frame, delete_confirm_frame, last_set, resolve_sub, route_subtab_clicks, AddDialog,
    DeleteConfirm, SubtabClick,
};
use settings::session::{PickPoll, Session, Variant};
use settings::widgets::{
    field_feedback, field_ring, keeps_focus_after_ime, secret_icon, section_field_path,
    switch_frame, Feedback, FieldRing,
};
use settings::window::Platform;
use std::collections::HashMap;

fn s(text: &str) -> String {
    text.to_owned()
}

fn set(path: &str, value: &str) -> ConfigEdit {
    ConfigEdit::SetStr { path: s(path), value: s(value) }
}

fn remove(path: &str) -> ConfigEdit {
    ConfigEdit::Remove { path: s(path) }
}

fn quiet_row() -> RowInput {
    RowInput { clicked: false, edited: None, gained_focus: false }
}

fn new_row(key: &str, value: &str) -> NewRowInput {
    NewRowInput {
        key: s(key),
        value: s(value),
        enter: false,
        escape: false,
        key_lost_focus: false,
        value_lost_focus: false,
        value_has_focus: false,
    }
}

#[test]
fn paths_go_down_and_up() {
    assert_eq!(join_path("a.b", "c"), "a.b.c");
    assert_eq!(parent_path("a.b.c"), "a.b");
    assert_eq!(parent_path("日.本"), "日");
    assert_eq!(parent_path("plain"), "plain");
    assert_eq!(parent_path("a."), "a");
    assert_eq!(parent_path(&join_path("x.y", "z")), "x.y");
    assert_eq!(section_field_path("profiles", "home", "name"), "profiles.home.name");
}

#[test]
fn rows_are_selected_and_edited() {
    let mut state = KvState::default();
    let keys = vec![s("one"), s("two")];
    let edits = state.rows_frame(
        "env",
        &keys,
        &vec![RowInput { clicked: true, ..quiet_row() }, RowInput { edited: Some(s("2")), ..quiet_row() }],
    );
    assert_eq!(edits, vec![set("env.two", "2")]);
    assert!(state.is_selected("one"));
    assert!(!state.is_selected("two"));
    state.rows_frame("env", &keys, &vec![RowInput { clicked: true, ..quiet_row() }, quiet_row()]);
    assert_eq!(state.selected, None);
    state.rows_frame(
        "env",
        &keys,
        &vec![
            RowInput { clicked: true, ..quiet_row() },
            RowInput { gained_focus: true, ..quiet_row() },
        ],
    );
    assert!(state.is_selected("two"));
}

#[test]
fn a_new_row_is_opened_focused_once_and_stored() {
    let mut state = KvState::default();
    assert!(!state.can_remove());
    assert_eq!(state.footer_frame("env", true, false), None);
    assert!(state.adding && state.can_remove());
    assert!(state.take_focus_request());
    assert!(!state.take_focus_request());
    assert!(state.has_rule_below(0, 1));
    assert_eq!(state.new_row_frame("env", new_row("k", "v")), None);
    assert_eq!((state.new_key.as_str(), state.new_val.as_str()), ("k", "v"));
    let entered = NewRowInput { enter: true, ..new_row("k", "v") };
    assert_eq!(state.new_row_frame("env", entered), Some(set("env.k", "v")));
    assert!(!state.adding && state.new_key.is_empty() && state.new_val.is_empty());
    assert!(!state.has_rule_below(0, 1));
}

#[test]
fn a_new_row_is_dropped_or_kept() {
    let open = || KvState { adding: true, ..KvState::default() };
    let mut state = open();
    let escaped = NewRowInput { escape: true, enter: true, ..new_row("k", "v") };
    assert_eq!(state.new_row_frame("env", escaped), None);
    assert!(!state.adding && state.new_key.is_empty());
    let mut state = open();
    let nameless = NewRowInput { enter: true, ..new_row("", "v") };
    assert_eq!(state.new_row_frame("env", nameless), None);
    assert!(!state.adding);
    let mut state = open();
    let moved = NewRowInput { key_lost_focus: true, value_has_focus: true, ..new_row("k", "") };
    assert_eq!(state.new_row_frame("env", moved), None);
    assert!(state.adding);
    let left = NewRowInput { value_lost_focus: true, ..new_row("k", "v") };
    assert_eq!(state.new_row_frame("env", left), Some(set("env.k", "v")));
    assert!(!state.adding);
    let late = NewRowInput { enter: true, ..new_row("k", "v") };
    assert_eq!(state.new_row_frame("env", late), None);
}

#[test]
fn minus_closes_the_new_row_before_it_removes() {
    let mut state = KvState { selected: Some(s("one")), ..KvState::default() };
    state.footer_frame("env", true, false);
    assert_eq!(state.footer_frame("env", false, true), None);
    assert!(!state.adding && state.is_selected("one"));
    assert_eq!(state.footer_frame("env", false, true), Some(remove("env.one")));
    assert_eq!(state.selected, None);
    assert_eq!(state.footer_frame("env", false, true), None);
}

#[test]
fn sections_are_remembered_and_resolved() {
    let mut subs = HashMap::new();
    assert_eq!(resolve_sub(&mut subs, 3, 2), 0);
    assert_eq!(subs.get(&3), Some(&0));
    subs.insert(3, 5);
    assert_eq!(resolve_sub(&mut subs, 3, 6), 5);
    assert_eq!(resolve_sub(&mut subs, 3, 5), 0);
    subs.insert(3, 5);
    assert_eq!(resolve_sub(&mut subs, 3, 0), 5);
}

#[test]
fn clicks_select_or_remove() {
    let clicks = vec![SubtabClick::OnLabel, SubtabClick::OnClose, SubtabClick::Not];
    assert_eq!(route_subtab_clicks(&clicks, true), (Some(0), Some(1)));
    assert_eq!(route_subtab_clicks(&clicks, false), (Some(1), None));
    assert_eq!(last_set(&vec![true, false, true, false]), Some(2));
    assert_eq!(last_set(&vec![false]), None);
}

#[test]
fn sections_are_added_by_name() {
    let mut dialog = Some(AddDialog::open("profiles"));
    assert_eq!(add_dialog_frame(&mut dialog, s("  \u{3000}"), true, false, "name?"), None);
    assert_eq!(dialog.as_ref().unwrap().error, Some(s("name?")));
    assert_eq!(dialog.as_ref().unwrap().input, "  \u{3000}");
    assert_eq!(add_dialog_frame(&mut dialog, s("typing"), false, false, "name?"), None);
    assert_eq!(dialog.as_ref().unwrap().error, Some(s("name?")));
    assert_eq!(
        add_dialog_frame(&mut dialog, s("\tmy home \u{a0}\n"), true, true, "name?"),
        Some(ConfigEdit::SetTable { path: s("profiles.my home") })
    );
    assert!(dialog.is_none());
    assert_eq!(add_dialog_frame(&mut dialog, s("x"), true, false, "name?"), None);
    let mut cancelled = Some(AddDialog::open("profiles"));
    assert_eq!(add_dialog_frame(&mut cancelled, s(""), true, true, "name?"), None);
    assert!(cancelled.is_none());
}

#[test]
fn sections_are_deleted_once_confirmed() {
    let confirm = DeleteConfirm { key_prefix: s("profiles"), section_key: s("home") };
    let mut subs = HashMap::from([(0, 4)]);
    let mut asked = Some(confirm.clone());
    assert_eq!(delete_confirm_frame(&mut asked, &mut subs, false, false), None);
    assert!(asked.is_some());
    assert_eq!(delete_confirm_frame(&mut asked, &mut subs, false, true), None);
    assert!(asked.is_none());
    assert_eq!(subs.len(), 1);
    let mut asked = Some(confirm);
    assert_eq!(
        delete_confirm_frame(&mut asked, &mut subs, true, false),
        Some(remove("profiles.home"))
    );
    assert!(asked.is_none() && subs.is_empty());
    assert_eq!(resolve_sub(&mut subs, 0, 9), 0);
}

fn section_map(tab_style: SectionTabStyle, allow_add_remove: bool) -> SectionMap {
    SectionMap {
        key_prefix: s("profiles"),
        allow_add_remove,
        fields: Vec::new(),
        tab_style,
        max_width: None,
    }
}

#[test]
fn only_underlined_bars_add_and_remove() {
    let sections = vec![s("home"), s("work")];
    let clicks = vec![SubtabClick::OnClose, SubtabClick::OnLabel];
    let mut session = Session::new();
    session.subtabs_frame(&section_map(SectionTabStyle::Underline, true), &sections, &clicks, true);
    assert_eq!(session.selected_sub.get(&0), Some(&1));
    assert_eq!(session.delete_confirm.as_ref().unwrap().section_key, "home");
    assert_eq!(session.add_dialog.as_ref().unwrap().key_prefix, "profiles");
    let mut session = Session::new();
    session.subtabs_frame(
        &section_map(SectionTabStyle::Segmented, true),
        &sections,
        &vec![SubtabClick::OnClose, SubtabClick::Not],
        true,
    );
    assert_eq!(session.selected_sub.get(&0), Some(&0));
    assert!(session.delete_confirm.is_none() && session.add_dialog.is_none());
    assert_eq!(session.section_to_show(2), 0);
}

#[test]
fn dialogs_of_a_session() {
    let mut session = Session::new();
    session.add_dialog = Some(AddDialog::open("p"));
    assert_eq!(
        session.add_frame(s("x"), true, false, "name?"),
        Some(ConfigEdit::SetTable { path: s("p.x") })
    );
    assert!(session.add_dialog.is_none());
    session.selected_sub.insert(1, 1);
    session.delete_confirm = Some(DeleteConfirm { key_prefix: s("p"), section_key: s("x") });
    assert_eq!(session.delete_frame(true, false), Some(remove("p.x")));
    assert!(session.selected_sub.is_empty());
    assert_eq!(session.delete_frame(true, false), None);
}

#[test]
fn changes_from_outside() {
    let mut session = Session::new();
    assert!(session.watch_frame(true, None, false));
    assert!(!session.watch_frame(true, Some(1999), false));
    assert!(session.watch_frame(true, Some(2000), false));
    assert!(!session.watch_frame(false, None, true));
    assert!(!session.file_conflict);
    assert!(!session.watch_frame(true, Some(1999), true));
    assert!(!session.file_conflict);
    assert!(!session.watch_frame(true, Some(9000), true));
    assert!(session.file_conflict);
    assert!(!session.conflict_frame(false, false));
    assert!(session.file_conflict);
    assert!(session.conflict_frame(true, false));
    assert!(!session.file_conflict);
    assert!(!session.conflict_frame(true, false));
    session.file_conflict = true;
    assert!(!session.conflict_frame(false, true));
    assert!(!session.file_conflict);
}

#[test]
fn one_file_is_picked_at_a_time() {
    let mut session = Session::new();
    assert_eq!(session.pick_frame(PickPoll::Done(Some(s("/x")))), (None, false));
    assert!(session.begin_pick("paths.log"));
    assert!(!session.begin_pick("paths.other"));
    assert_eq!(session.pick_frame(PickPoll::Waiting), (None, true));
    assert_eq!(
        session.pick_frame(PickPoll::Done(Some(s("/tmp/log")))),
        (Some(set("paths.log", "/tmp/log")), true)
    );
    assert_eq!(session.pick_frame(PickPoll::Waiting), (None, false));
    assert!(session.begin_pick("paths.other"));
    assert_eq!(session.pick_frame(PickPoll::Done(None)), (None, true));
    assert_eq!(session.pending_pick, None);
}

#[test]
fn secrets_are_shown_on_request() {
    let mut session = Session::new();
    assert!(!session.shows_secret("token"));
    assert!(session.secret_frame("token", true));
    assert!(session.secret_frame("token", false));
    assert!(session.shows_secret("token"));
    assert!(!session.shows_secret("other"));
    assert!(!session.secret_frame("token", true));
    assert_eq!(secret_icon(true), '\u{e8f4}');
    assert_eq!(secret_icon(false), '\u{e8f5}');
}

#[test]
fn decorations_follow_the_variant() {
    let mut session = Session::new();
    assert!(session.variant_frame(Variant::Dark));
    assert!(!session.variant_frame(Variant::Dark));
    assert!(session.variant_frame(Variant::Light));
}

#[test]
fn tabs_are_selected() {
    let mut session = Session::new();
    session.tabs_frame(&vec![false, true, true]);
    assert_eq!(session.selected_tab, 2);
    session.tabs_frame(&vec![false, false, false]);
    assert_eq!(session.selected_tab, 2);
}

const NONE: Modifiers =
    Modifiers { ctrl: false, alt: false, shift: false, mac_cmd: false, command: false };

fn press(key: Key) -> KeyEvent {
    KeyEvent { key, modifiers: NONE, pressed: true }
}

fn keys(events: Vec<KeyEvent>) -> HotkeyInput {
    HotkeyInput { clicked: false, events, clear_clicked: false }
}

#[test]
fn combinations_read_well() {
    let held = Modifiers { shift: true, mac_cmd: true, ..NONE };
    assert_eq!(format_hotkey(Key::B, held), "cmd+shift+b");
    let all = Modifiers { ctrl: true, alt: true, shift: true, mac_cmd: false, command: true };
    assert_eq!(format_hotkey(Key::F12, all), "ctrl+alt+cmd+shift+f12");
    assert_eq!(format_hotkey(Key::PageUp, NONE), "pageup");
    assert_eq!(key_name(Key::Num0), "0");
    assert_eq!(key_name(Key::ArrowLeft), "left");
    assert_eq!(key_name(Key::Escape), "?");
    assert_eq!(key_name(Key::Other), "?");
}

#[test]
fn the_first_key_that_goes_down_is_recorded() {
    let released = KeyEvent { pressed: false, ..press(Key::A) };
    assert_eq!(
        hotkey_frame("key", true, false, &keys(vec![released, press(Key::B), press(Key::C)])),
        (vec![set("key", "b")], false)
    );
    assert_eq!(hotkey_frame("key", true, true, &keys(vec![released])), (vec![], true));
    assert_eq!(hotkey_frame("key", true, true, &keys(vec![press(Key::Tab), press(Key::B)])), (vec![], true));
    assert_eq!(hotkey_frame("key", false, true, &keys(vec![press(Key::B)])), (vec![], false));
}

#[test]
fn recording_is_cancelled_or_cleared() {
    assert_eq!(hotkey_frame("key", true, true, &keys(vec![press(Key::Escape)])), (vec![], false));
    assert_eq!(
        hotkey_frame("key", true, true, &keys(vec![press(Key::Backspace)])),
        (vec![remove("key")], false)
    );
    assert_eq!(
        hotkey_frame("key", true, false, &keys(vec![press(Key::Delete)])),
        (vec![remove("key")], false)
    );
    let clicked = HotkeyInput { clicked: true, events: vec![], clear_clicked: false };
    assert_eq!(hotkey_frame("key", false, true, &clicked), (vec![], true));
    assert_eq!(hotkey_frame("key", true, true, &clicked), (vec![], false));
    let cleared = HotkeyInput { clicked: true, events: vec![], clear_clicked: true };
    assert_eq!(hotkey_frame("key", false, true, &cleared), (vec![remove("key")], false));
    assert_eq!(hotkey_frame("key", false, false, &cleared), (vec![], true));
}

#[test]
fn the_box_says_what_to_do() {
    assert_eq!(hotkey_label(true, true), HotkeyLabel::PressKey);
    assert_eq!(hotkey_label(false, true), HotkeyLabel::Value);
    assert_eq!(hotkey_label(false, false), HotkeyLabel::Placeholder);
}

#[test]
fn switches_turn_over() {
    assert_eq!(switch_frame("on", None, false), (false, None));
    assert_eq!(
        switch_frame("on", None, true),
        (true, Some(ConfigEdit::SetBool { path: s("on"), value: true }))
    );
    assert_eq!(
        switch_frame("on", Some(true), true),
        (false, Some(ConfigEdit::SetBool { path: s("on"), value: false }))
    );
}

#[test]
fn rings_and_feedback() {
    assert_eq!(field_ring(true, true), FieldRing::Error);
    assert_eq!(field_ring(true, false), FieldRing::Accent);
    assert_eq!(field_ring(false, false), FieldRing::Absent);
    assert_eq!(field_feedback(&vec![s("bad")], Some("hint")), Feedback::Errors);
    assert_eq!(field_feedback(&vec![], Some("hint")), Feedback::Hint);
    assert_eq!(field_feedback(&vec![], None), Feedback::Nothing);
    assert!(keeps_focus_after_ime(Platform::Windows, true, true));
    assert!(!keeps_focus_after_ime(Platform::Linux, true, true));
}

#[test]
fn edits_hold_numbers_by_their_bits() {
    let edit = ConfigEdit::SetNumber {
        path: s("n"),
        value: Float64 { bits: 2.5f64.to_bits() },
        repr: NumberRepr::Float,
    };
    assert_eq!(edit.clone(), edit);
}
