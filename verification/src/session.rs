//! What a running window remembers between frames, and what it does with the
//! events of a frame.

use crate::edits::{edit_view, ConfigEdit, EditView};
use crate::model::{Schema, SectionMap, SectionTabStyle};
use crate::sections::{
    add_dialog_frame, add_dialog_view, delete_confirm_frame, delete_confirm_view, flag_at,
    last_index, last_index_is_last, last_set, removal_at, resolve_sub, route_subtab_clicks, section_name,
    selection_at, shown_sub, AddDialog, AddDialogView, DeleteConfirm, DeleteConfirmView,
    SubtabClick,
};
use crate::paths::child_path;
use crate::text::opt_text;
use crate::window::{Platform, WindowParts};
use std::collections::HashMap;
use vstd::hash_map::StringHashMap;
use vstd::prelude::*;
use vstd::std_specs::hash::*;
use vstd::string::*;

verus! {

/// The color variants.
#[derive(Debug, Clone, Copy, PartialEq, Eq, Structural)]
pub enum Variant {
    Light,
    Dark,
}

/// How long after a save a change of the file counts as the window's own (ms).
pub const OWN_SAVE_WINDOW_MS: u64 = 2000;

/// What the state of a window says.
#[verifier::ext_equal]
pub struct SessionView {
    pub selected_tab: usize,
    pub prev_tab: usize,
    pub selected_sub: Map<usize, usize>,
    pub show_secrets: Map<Seq<char>, bool>,
    pub add_dialog: Option<AddDialogView>,
    pub delete_confirm: Option<DeleteConfirmView>,
    pub applied_variant: Option<Variant>,
    pub pending_pick: Option<Seq<char>>,
    pub file_conflict: bool,
}

/// What a window remembers between frames.
pub struct Session {
    pub selected_tab: usize,
    /// The tab of the frame before, to notice when another one is selected.
    pub prev_tab: usize,
    /// The section that is selected, per tab.
    pub selected_sub: HashMap<usize, usize>,
    /// The secrets that are shown in plain text, by path.
    pub show_secrets: StringHashMap<bool>,
    pub add_dialog: Option<AddDialog>,
    pub delete_confirm: Option<DeleteConfirm>,
    /// The variant that the window decorations were last set to.
    pub applied_variant: Option<Variant>,
    /// The path that a file is being picked for.
    pub pending_pick: Option<String>,
    /// Whether the file was changed from outside while there are unsaved edits.
    pub file_conflict: bool,
}

impl View for Session {
    type V = SessionView;

    open spec fn view(&self) -> SessionView {
        SessionView {
            selected_tab: self.selected_tab,
            prev_tab: self.prev_tab,
            selected_sub: self.selected_sub@,
            show_secrets: self.show_secrets@,
            add_dialog: add_dialog_view(self.add_dialog),
            delete_confirm: delete_confirm_view(self.delete_confirm),
            applied_variant: self.applied_variant,
            pending_pick: opt_text(self.pending_pick),
            file_conflict: self.file_conflict,
        }
    }
}

/// Whether a secret is shown: not until it is asked for.
pub open spec fn secret_shown(show_secrets: Map<Seq<char>, bool>, path: Seq<char>) -> bool {
    show_secrets.contains_key(path) && show_secrets[path]
}

/// What is known of a file dialog.
#[derive(Debug, Clone, PartialEq, Eq)]
pub enum PickPoll {
    /// It is still open.
    Waiting,
    /// It was closed, with the chosen path where there is one.
    Done(Option<String>),
}

/// What a change of the file leads to.
#[derive(Debug, Clone, Copy, PartialEq, Eq, Structural)]
pub enum WatchVerdict {
    /// Nothing.
    Ignore,
    /// The user is asked, since there are unsaved edits.
    Conflict,
    /// The file is read again.
    Reload,
}

/// A change counts as the window's own shortly after a save, and is ignored
/// then. Any other one leads to a reload, or to a conflict where there are
/// unsaved edits.
pub open spec fn watch_verdict(
    changed: bool,
    ms_since_save: Option<u64>,
    dirty: bool,
) -> WatchVerdict {
    let own = ms_since_save matches Some(ms) && ms < OWN_SAVE_WINDOW_MS;
    if !changed || own {
        WatchVerdict::Ignore
    } else if dirty {
        WatchVerdict::Conflict
    } else {
        WatchVerdict::Reload
    }
}

impl Session {
    /// The state of a window that has just opened: on the first tab, with
    /// nothing open and nothing remembered.
    pub fn new() -> (r: Session)
        ensures
            r@ == (SessionView {
                selected_tab: 0,
                prev_tab: usize::MAX,
                selected_sub: Map::empty(),
                show_secrets: Map::empty(),
                add_dialog: None,
                delete_confirm: None,
                applied_variant: None,
                pending_pick: None,
                file_conflict: false,
            }),
    {
        Session {
            selected_tab: 0,
            prev_tab: usize::MAX,
            selected_sub: HashMap::new(),
            show_secrets: StringHashMap::new(),
            add_dialog: None,
            delete_confirm: None,
            applied_variant: None,
            pending_pick: None,
            file_conflict: false,
        }
    }

    /// Applies the variant of this frame: whether the window decorations have to
    /// be set to it.
    pub fn variant_frame(&mut self, variant: Variant) -> (r: bool)
        ensures
            r == (old(self)@.applied_variant != Some(variant)),
            final(self)@ == (SessionView { applied_variant: Some(variant), ..old(self)@ }),
    {
        let changed = match self.applied_variant {
            Some(applied) => applied != variant,
            None => true,
        };
        self.applied_variant = Some(variant);
        changed
    }

    /// Starts picking a file for the path, unless one is being picked already.
    pub fn begin_pick(&mut self, path: &str) -> (r: bool)
        ensures
            r == (old(self)@.pending_pick is None),
            r ==> final(self)@ == (SessionView { pending_pick: Some(path@), ..old(self)@ }),
            !r ==> final(self)@ == old(self)@,
    {
        if self.pending_pick.is_some() {
            return false;
        }
        self.pending_pick = Some(path.to_owned());
        true
    }

    /// Applies what is known of the file dialog: the edit that follows, and
    /// whether the window is to be drawn again soon. The chosen path is stored;
    /// a dialog that was closed without a choice changes nothing.
    pub fn pick_frame(&mut self, poll: PickPoll) -> (r: (Option<ConfigEdit>, bool))
        ensures
            match (old(self)@.pending_pick, poll) {
                (None, _) => r.0 is None && !r.1 && final(self)@ == old(self)@,
                (Some(_), PickPoll::Waiting) => r.0 is None && r.1 && final(self)@ == old(self)@,
                (Some(path), PickPoll::Done(chosen)) => r.1 && final(self)@ == (SessionView {
                    pending_pick: None,
                    ..old(self)@
                }) && edit_view(r.0) == match opt_text(chosen) {
                    Some(value) => Some(EditView::SetStr { path, value }),
                    None => None,
                },
            },
    {
        match poll {
            PickPoll::Waiting => (None, self.pending_pick.is_some()),
            PickPoll::Done(chosen) => {
                match self.pending_pick.take() {
                    Some(path) => {
                        let edit = match chosen {
                            Some(value) => Some(ConfigEdit::SetStr { path, value }),
                            None => None,
                        };
                        (edit, true)
                    },
                    None => (None, false),
                }
            },
        }
    }

    /// Applies a change of the file: whether it is to be read again.
    pub fn watch_frame(&mut self, changed: bool, ms_since_save: Option<u64>, dirty: bool) -> (r:
        bool)
        ensures
            r == (watch_verdict(changed, ms_since_save, dirty) == WatchVerdict::Reload),
            final(self)@ == (SessionView {
                file_conflict: old(self)@.file_conflict || watch_verdict(
                    changed,
                    ms_since_save,
                    dirty,
                ) == WatchVerdict::Conflict,
                ..old(self)@
            }),
    {
        let own = match ms_since_save {
            Some(ms) => ms < OWN_SAVE_WINDOW_MS,
            None => false,
        };
        if !changed || own {
            return false;
        }
        if dirty {
            self.file_conflict = true;
            return false;
        }
        true
    }

    /// Applies a frame of the conflict dialog: whether the file is to be read
    /// again. Either answer closes the dialog.
    pub fn conflict_frame(&mut self, reload: bool, keep: bool) -> (r: bool)
        ensures
            r == (old(self)@.file_conflict && reload),
            final(self)@ == (SessionView {
                file_conflict: old(self)@.file_conflict && !reload && !keep,
                ..old(self)@
            }),
    {
        let asked = self.file_conflict;
        self.file_conflict = asked && !reload && !keep;
        asked && reload
    }

    /// Applies clicks on the main tabs: the last one that was clicked is
    /// selected.
    pub fn tabs_frame(&mut self, clicks: &Vec<bool>)
        ensures
            final(self)@ == (SessionView {
                selected_tab: match last_index(clicks@.len(), flag_at(clicks@)) {
                    Some(i) => i,
                    None => old(self)@.selected_tab,
                },
                ..old(self)@
            }),
            old(self)@.selected_tab < clicks.len() ==> final(self)@.selected_tab < clicks.len(),
    {
        proof {
            assert(clicks@.len() == clicks.len());
            last_index_is_last(clicks@.len(), flag_at(clicks@));
        }
        if let Some(i) = last_set(clicks) {
            self.selected_tab = i;
        }
    }

    /// What the window is to be resized to, if another tab is shown than in the
    /// frame before.
    pub fn resize_frame(&mut self, schema: &Schema, icons_at_hand: bool, platform: Platform) -> (r:
        Option<WindowParts>)
        requires
            old(self)@.selected_tab < schema.tabs.len(),
        ensures
            r == if old(self)@.prev_tab != old(self)@.selected_tab {
                Some(
                    schema.parts_on_tab(old(self)@.selected_tab as int, icons_at_hand, platform),
                )
            } else {
                None
            },
            final(self)@ == (SessionView { prev_tab: old(self)@.selected_tab, ..old(self)@ }),
    {
        if self.prev_tab != self.selected_tab {
            self.prev_tab = self.selected_tab;
            Some(schema.tab_window_parts(self.selected_tab, icons_at_hand, platform))
        } else {
            None
        }
    }

    /// The section of the selected tab that is shown, of `count` sections.
    pub fn section_to_show(&mut self, count: usize) -> (r: usize)
        ensures
            r == shown_sub(old(self)@.selected_sub, old(self)@.selected_tab, count as nat),
            final(self)@ == (SessionView {
                selected_sub: old(self)@.selected_sub.insert(old(self)@.selected_tab, r),
                ..old(self)@
            }),
            count > 0 ==> r < count,
    {
        resolve_sub(&mut self.selected_sub, self.selected_tab, count)
    }

    /// Applies clicks on the tabs of the sections, and on the plus behind them.
    /// Sections can be added and removed on an underlined bar, where the schema
    /// allows it.
    pub fn subtabs_frame(
        &mut self,
        map: &SectionMap,
        sections: &Vec<String>,
        clicks: &Vec<SubtabClick>,
        plus: bool,
    )
        requires
            sections.len() == clicks.len(),
        ensures
            ({
                let allow = map.allow_add_remove && map.tab_style == SectionTabStyle::Underline;
                final(self)@ == (SessionView {
                    selected_sub: match last_index(clicks@.len(), selection_at(clicks@, allow)) {
                        Some(i) => old(self)@.selected_sub.insert(
                            old(self)@.selected_tab,
                            i,
                        ),
                        None => old(self)@.selected_sub,
                    },
                    delete_confirm: match last_index(clicks@.len(), removal_at(clicks@, allow)) {
                        Some(i) => Some(
                            DeleteConfirmView {
                                key_prefix: map.key_prefix@,
                                section_key: sections@[i as int]@,
                            },
                        ),
                        None => old(self)@.delete_confirm,
                    },
                    add_dialog: if plus && allow {
                        Some(
                            AddDialogView {
                                key_prefix: map.key_prefix@,
                                input: Seq::empty(),
                                error: None,
                            },
                        )
                    } else {
                        old(self)@.add_dialog
                    },
                    ..old(self)@
                })
            }),
    {
        broadcast use group_hash_axioms;

        let underlined = matches!(map.tab_style, SectionTabStyle::Underline);
        let allow = map.allow_add_remove && underlined;
        proof {
            last_index_is_last(clicks@.len(), removal_at(clicks@, allow));
        }
        let (select, remove) = route_subtab_clicks(clicks, allow);
        if plus && allow {
            self.add_dialog = Some(AddDialog::open(map.key_prefix.as_str()));
        }
        if let Some(i) = select {
            self.selected_sub.insert(self.selected_tab, i);
        }
        if let Some(i) = remove {
            self.delete_confirm = Some(
                DeleteConfirm {
                    key_prefix: map.key_prefix.clone(),
                    section_key: sections[i].clone(),
                },
            );
        }
    }

    /// Applies a frame of the add dialog (see [`add_dialog_frame`]).
    pub fn add_frame(&mut self, input: String, add: bool, cancel: bool, enter_name: &str) -> (r:
        Option<ConfigEdit>)
        ensures
            match old(self)@.add_dialog {
                None => r is None && final(self)@ == old(self)@,
                Some(dialog) => {
                    let name = section_name(input@);
                    if add && name.len() > 0 {
                        edit_view(r) == Some(
                            EditView::SetTable { path: child_path(dialog.key_prefix, name) },
                        ) && final(self)@ == (SessionView { add_dialog: None, ..old(self)@ })
                    } else if cancel {
                        r is None && final(self)@ == (SessionView { add_dialog: None, ..old(self)@ })
                    } else {
                        r is None && final(self)@ == (SessionView {
                            add_dialog: Some(
                                AddDialogView {
                                    key_prefix: dialog.key_prefix,
                                    input: input@,
                                    error: if add {
                                        Some(enter_name@)
                                    } else {
                                        dialog.error
                                    },
                                },
                            ),
                            ..old(self)@
                        })
                    }
                },
            },
    {
        add_dialog_frame(&mut self.add_dialog, input, add, cancel, enter_name)
    }

    /// Applies a frame of the delete dialog (see [`delete_confirm_frame`]).
    pub fn delete_frame(&mut self, delete: bool, cancel: bool) -> (r: Option<ConfigEdit>)
        ensures
            match old(self)@.delete_confirm {
                Some(confirm) if delete => edit_view(r) == Some(
                    EditView::Remove { path: child_path(confirm.key_prefix, confirm.section_key) },
                ) && final(self)@ == (SessionView {
                    delete_confirm: None,
                    selected_sub: Map::empty(),
                    ..old(self)@
                }),
                Some(_) if cancel => r is None && final(self)@ == (SessionView {
                    delete_confirm: None,
                    ..old(self)@
                }),
                _ => r is None && final(self)@ == old(self)@,
            },
    {
        delete_confirm_frame(&mut self.delete_confirm, &mut self.selected_sub, delete, cancel)
    }

    /// Whether the secret at the path is shown.
    pub fn shows_secret(&self, path: &str) -> (r: bool)
        ensures
            r == secret_shown(self@.show_secrets, path@),
    {
        match self.show_secrets.get(path) {
            Some(shown) => *shown,
            None => false,
        }
    }

    /// Applies a frame of the eye button: whether the secret is shown from now
    /// on. A click turns it over.
    pub fn secret_frame(&mut self, path: &str, clicked: bool) -> (r: bool)
        ensures
            r == (secret_shown(old(self)@.show_secrets, path@) != clicked),
            final(self)@ == (SessionView {
                show_secrets: old(self)@.show_secrets.insert(path@, r),
                ..old(self)@
            }),
    {
        let shown = self.shows_secret(path) != clicked;
        self.show_secrets.insert(path.to_owned(), shown);
        shown
    }
}

/// Unsaved edits are never lost to a change from outside: the file is read
/// again by itself only where there are none.
pub proof fn unsaved_edits_survive_outside_changes(changed: bool, ms_since_save: Option<u64>)
    ensures
        watch_verdict(changed, ms_since_save, true) != WatchVerdict::Reload,
{
}

/// What follows a save of the window itself is never taken for a change from
/// outside.
pub proof fn own_saves_are_ignored(changed: bool, ms_since_save: u64, dirty: bool)
    requires
        ms_since_save < OWN_SAVE_WINDOW_MS,
    ensures
        watch_verdict(changed, Some(ms_since_save), dirty) == WatchVerdict::Ignore,
{
}

/// A secret that is turned over twice is as it was, and so are all others.
pub proof fn turning_a_secret_over_twice(
    show_secrets: Map<Seq<char>, bool>,
    path: Seq<char>,
    other: Seq<char>,
)
    ensures
        ({
            let once = show_secrets.insert(path, !secret_shown(show_secrets, path));
            let twice = once.insert(path, !secret_shown(once, path));
            secret_shown(twice, other) == secret_shown(show_secrets, other)
        }),
{
}

/// A change of the file that is not the window's own is never missed: from two seconds
/// after a save on, and where nothing was saved yet, it leads to a question where there
/// are unsaved edits, and to a reload where there are none.
pub proof fn outside_changes_are_never_missed(ms_since_save: Option<u64>)
    requires
        ms_since_save matches Some(ms) ==> ms >= 2000,
    ensures
        watch_verdict(true, ms_since_save, true) == WatchVerdict::Conflict,
        watch_verdict(true, ms_since_save, false) == WatchVerdict::Reload,
{
}

/// Where the file has not changed, or only by a save less than two seconds ago, nothing
/// happens.
pub proof fn nothing_happens_without_an_outside_change(
    changed: bool,
    ms_since_save: Option<u64>,
    dirty: bool,
)
    requires
        !changed || (ms_since_save matches Some(ms) && ms < 2000),
    ensures
        watch_verdict(changed, ms_since_save, dirty) == WatchVerdict::Ignore,
{
}

/// No secret is shown until it is asked for, and showing or hiding one leaves all others
/// as they are.
pub proof fn secrets_are_shown_on_request(
    show_secrets: Map<Seq<char>, bool>,
    path: Seq<char>,
    other: Seq<char>,
    shown: bool,
)
    ensures
        !secret_shown(Map::empty(), path),
        !show_secrets.contains_key(path) ==> !secret_shown(show_secrets, path),
        secret_shown(show_secrets.insert(path, shown), path) == shown,
        other != path ==> secret_shown(show_secrets.insert(path, shown), other) == secret_shown(
            show_secrets,
            other,
        ),
{
}

/// What is known of a session is what it holds.
pub proof fn sessions_say_what_they_hold(session: Session)
    ensures
        session@.selected_tab == session.selected_tab,
        session@.prev_tab == session.prev_tab,
        session@.selected_sub == session.selected_sub@,
        session@.show_secrets == session.show_secrets@,
        session@.applied_variant == session.applied_variant,
        session@.file_conflict == session.file_conflict,
        session@.pending_pick is Some <==> session.pending_pick is Some,
        session.pending_pick matches Some(path) ==> session@.pending_pick == Some(path@),
        session@.add_dialog is Some <==> session.add_dialog is Some,
        session.add_dialog matches Some(dialog) ==> session@.add_dialog->0.key_prefix
            == dialog.key_prefix@ && session@.add_dialog->0.input == dialog.input@ && (
        session@.add_dialog->0.error is Some <==> dialog.error is Some),
        session@.delete_confirm is Some <==> session.delete_confirm is Some,
        session.delete_confirm matches Some(confirm) ==> session@.delete_confirm->0.key_prefix
            == confirm.key_prefix@ && session@.delete_confirm->0.section_key
            == confirm.section_key@,
{
}

} // verus!
