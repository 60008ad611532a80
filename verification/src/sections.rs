//! Tabs whose content is repeated for each sub-table of the configuration:
//! which sub-table is shown, and the dialogs that add and remove one.

use crate::edits::{edit_view, ConfigEdit, EditView};
use crate::paths::{child_path, join_path};
use crate::text::{
    is_white_space, opt_text, trimmed_end, trimmed_start, trimming_takes_white_space_from_both_ends,
};
use std::collections::HashMap;
use vstd::prelude::*;
use vstd::std_specs::hash::*;
use vstd::string::*;

verus! {

/// What an open add dialog says.
#[verifier::ext_equal]
pub struct AddDialogView {
    pub key_prefix: Seq<char>,
    pub input: Seq<char>,
    pub error: Option<Seq<char>>,
}

/// The dialog that asks for the name of a new section.
#[derive(Debug, Clone)]
pub struct AddDialog {
    pub key_prefix: String,
    pub input: String,
    pub error: Option<String>,
}

impl View for AddDialog {
    type V = AddDialogView;

    open spec fn view(&self) -> AddDialogView {
        AddDialogView {
            key_prefix: self.key_prefix@,
            input: self.input@,
            error: opt_text(self.error),
        }
    }
}

/// What an add dialog says, if one is open.
pub open spec fn add_dialog_view(dialog: Option<AddDialog>) -> Option<AddDialogView> {
    match dialog {
        Some(dialog) => Some(dialog@),
        None => None,
    }
}

impl AddDialog {
    /// A dialog for a new section below `key_prefix`, with nothing typed yet.
    pub fn open(key_prefix: &str) -> (r: AddDialog)
        ensures
            r@ == (AddDialogView { key_prefix: key_prefix@, input: Seq::empty(), error: None }),
    {
        AddDialog { key_prefix: key_prefix.to_owned(), input: String::new(), error: None }
    }
}

/// What a delete dialog says.
#[verifier::ext_equal]
pub struct DeleteConfirmView {
    pub key_prefix: Seq<char>,
    pub section_key: Seq<char>,
}

/// The dialog that asks whether a section is to be removed.
#[derive(Debug, Clone)]
pub struct DeleteConfirm {
    pub key_prefix: String,
    pub section_key: String,
}

impl View for DeleteConfirm {
    type V = DeleteConfirmView;

    open spec fn view(&self) -> DeleteConfirmView {
        DeleteConfirmView { key_prefix: self.key_prefix@, section_key: self.section_key@ }
    }
}

/// What a delete dialog says, if one is open.
pub open spec fn delete_confirm_view(confirm: Option<DeleteConfirm>) -> Option<DeleteConfirmView> {
    match confirm {
        Some(confirm) => Some(confirm@),
        None => None,
    }
}

/// The section that is remembered for a tab: the first one, to begin with.
pub open spec fn remembered_sub(selected_sub: Map<usize, usize>, tab: usize) -> usize {
    if selected_sub.contains_key(tab) {
        selected_sub[tab]
    } else {
        0
    }
}

/// The section that is shown of `count` sections: the remembered one, or the
/// first where that one is gone.
pub open spec fn shown_sub(selected_sub: Map<usize, usize>, tab: usize, count: nat) -> usize {
    let remembered = remembered_sub(selected_sub, tab);
    if count > 0 && remembered >= count {
        0
    } else {
        remembered
    }
}

/// The section of a tab that is shown, of `count` sections. It is remembered.
pub fn resolve_sub(selected_sub: &mut HashMap<usize, usize>, tab: usize, count: usize) -> (r: usize)
    ensures
        r == shown_sub(old(selected_sub)@, tab, count as nat),
        final(selected_sub)@ == old(selected_sub)@.insert(tab, r),
        count > 0 ==> r < count,
{
    broadcast use group_hash_axioms;

    let remembered: usize = match selected_sub.get(&tab) {
        Some(sub) => *sub,
        None => 0,
    };
    let sub: usize = if count > 0 && remembered >= count {
        0
    } else {
        remembered
    };
    selected_sub.insert(tab, sub);
    sub
}

/// A click on a section's tab.
#[derive(Debug, Clone, Copy, PartialEq, Eq, Structural)]
pub enum SubtabClick {
    /// The tab was not clicked.
    Not,
    /// The tab was clicked away from its close icon.
    OnLabel,
    /// The tab was clicked where its close icon is.
    OnClose,
}

/// Whether a click asks for the section to be removed.
pub open spec fn asks_removal(click: SubtabClick, allow_add_remove: bool) -> bool {
    click == SubtabClick::OnClose && allow_add_remove
}

/// Whether a click asks for the section to be shown.
pub open spec fn asks_selection(click: SubtabClick, allow_add_remove: bool) -> bool {
    click != SubtabClick::Not && !asks_removal(click, allow_add_remove)
}

/// The last index below `n` at which `holds`, if there is one.
pub open spec fn last_index(n: nat, holds: spec_fn(int) -> bool) -> Option<usize>
    decreases n,
{
    if n == 0 {
        None
    } else if holds(n - 1) {
        Some((n - 1) as usize)
    } else {
        last_index((n - 1) as nat, holds)
    }
}

/// The last index is one at which `holds`, and there is none after it.
pub proof fn last_index_is_last(n: nat, holds: spec_fn(int) -> bool)
    requires
        n <= usize::MAX,
    ensures
        match last_index(n, holds) {
            Some(i) => i < n && holds(i as int) && forall|j: int|
                i < j < n ==> !#[trigger] holds(j),
            None => forall|j: int| 0 <= j < n ==> !#[trigger] holds(j),
        },
    decreases n,
{
    if n > 0 && !holds(n - 1) {
        last_index_is_last((n - 1) as nat, holds);
    }
}

/// Which of the clicks ask for selection.
pub open spec fn selection_at(clicks: Seq<SubtabClick>, allow: bool) -> spec_fn(int) -> bool {
    |i: int| asks_selection(clicks[i], allow)
}

/// Which of the clicks ask for removal.
pub open spec fn removal_at(clicks: Seq<SubtabClick>, allow: bool) -> spec_fn(int) -> bool {
    |i: int| asks_removal(clicks[i], allow)
}

/// Which sections the clicks on an underlined bar select and ask to remove. The
/// close icons are there only where sections may be added and removed.
pub fn route_subtab_clicks(clicks: &Vec<SubtabClick>, allow_add_remove: bool) -> (r: (
    Option<usize>,
    Option<usize>,
))
    ensures
        r.0 == last_index(clicks@.len(), selection_at(clicks@, allow_add_remove)),
        r.1 == last_index(clicks@.len(), removal_at(clicks@, allow_add_remove)),
{
    let ghost selects = selection_at(clicks@, allow_add_remove);
    let ghost removes = removal_at(clicks@, allow_add_remove);
    let mut select: Option<usize> = None;
    let mut remove: Option<usize> = None;
    let mut i: usize = 0;
    while i < clicks.len()
        invariant
            i <= clicks.len(),
            selects == selection_at(clicks@, allow_add_remove),
            removes == removal_at(clicks@, allow_add_remove),
            select == last_index(i as nat, selects),
            remove == last_index(i as nat, removes),
        decreases clicks.len() - i,
    {
        match clicks[i] {
            SubtabClick::Not => {},
            SubtabClick::OnLabel => {
                select = Some(i);
            },
            SubtabClick::OnClose => {
                if allow_add_remove {
                    remove = Some(i);
                } else {
                    select = Some(i);
                }
            },
        }
        i += 1;
    }
    (select, remove)
}

/// Which of the flags hold.
pub open spec fn flag_at(flags: Seq<bool>) -> spec_fn(int) -> bool {
    |i: int| flags[i]
}

/// The last of `flags` that is set.
pub fn last_set(flags: &Vec<bool>) -> (r: Option<usize>)
    ensures
        r == last_index(flags@.len(), flag_at(flags@)),
{
    let ghost holds = flag_at(flags@);
    let mut last: Option<usize> = None;
    let mut i: usize = 0;
    while i < flags.len()
        invariant
            i <= flags.len(),
            holds == flag_at(flags@),
            last == last_index(i as nat, holds),
        decreases flags.len() - i,
    {
        if flags[i] {
            last = Some(i);
        }
        i += 1;
    }
    last
}

/// The name that an input stands for: the white space around it does not count.
pub open spec fn section_name(input: Seq<char>) -> Seq<char> {
    trimmed_end(trimmed_start(input))
}

/// Applies a frame of the add dialog, in which `input` is what has been typed,
/// and returns the edit that follows. Adding under a name makes the section and
/// closes the dialog; adding without one shows `enter_name`; cancelling closes
/// the dialog.
pub fn add_dialog_frame(
    add_dialog: &mut Option<AddDialog>,
    input: String,
    add: bool,
    cancel: bool,
    enter_name: &str,
) -> (r: Option<ConfigEdit>)
    ensures
        match add_dialog_view(*old(add_dialog)) {
            None => r is None && *final(add_dialog) is None,
            Some(dialog) => {
                let name = section_name(input@);
                if add && name.len() > 0 {
                    edit_view(r) == Some(
                        EditView::SetTable { path: child_path(dialog.key_prefix, name) },
                    ) && *final(add_dialog) is None
                } else if cancel {
                    r is None && *final(add_dialog) is None
                } else {
                    r is None && add_dialog_view(*final(add_dialog)) == Some(
                        AddDialogView {
                            key_prefix: dialog.key_prefix,
                            input: input@,
                            error: if add {
                                Some(enter_name@)
                            } else {
                                dialog.error
                            },
                        },
                    )
                }
            },
        },
{
    let taken = add_dialog.take();
    let mut dialog = match taken {
        None => {
            return None;
        },
        Some(dialog) => dialog,
    };
    if add {
        let name = input.as_str().trim();
        if name.is_empty() {
            dialog.error = Some(enter_name.to_owned());
        } else {
            return Some(
                ConfigEdit::SetTable { path: join_path(dialog.key_prefix.as_str(), name) },
            );
        }
    }
    if cancel {
        return None;
    }
    dialog.input = input;
    *add_dialog = Some(dialog);
    None
}

/// Applies a frame of the delete dialog, and returns the edit that follows.
/// Deleting removes the section, closes the dialog and forgets which sections
/// are shown; cancelling closes the dialog.
pub fn delete_confirm_frame(
    delete_confirm: &mut Option<DeleteConfirm>,
    selected_sub: &mut HashMap<usize, usize>,
    delete: bool,
    cancel: bool,
) -> (r: Option<ConfigEdit>)
    ensures
        match delete_confirm_view(*old(delete_confirm)) {
            Some(confirm) if delete => edit_view(r) == Some(
                EditView::Remove { path: child_path(confirm.key_prefix, confirm.section_key) },
            ) && *final(delete_confirm) is None && final(selected_sub)@ == Map::<
                usize,
                usize,
            >::empty(),
            Some(_) if cancel => r is None && *final(delete_confirm) is None
                && final(selected_sub)@ == old(selected_sub)@,
            _ => r is None && *final(delete_confirm) == *old(delete_confirm)
                && final(selected_sub)@ == old(selected_sub)@,
        },
{
    broadcast use group_hash_axioms;

    if delete {
        match delete_confirm.take() {
            Some(confirm) => {
                selected_sub.clear();
                return Some(
                    ConfigEdit::Remove {
                        path: join_path(
                            confirm.key_prefix.as_str(),
                            confirm.section_key.as_str(),
                        ),
                    },
                );
            },
            None => {
                return None;
            },
        }
    }
    if cancel {
        *delete_confirm = None;
    }
    None
}

/// Resolving once more, with as many sections, shows the same section.
pub proof fn resolving_settles(selected_sub: Map<usize, usize>, tab: usize, count: nat)
    ensures
        ({
            let sub = shown_sub(selected_sub, tab, count);
            shown_sub(selected_sub.insert(tab, sub), tab, count) == sub
        }),
{
}

/// A click does one thing at most.
pub proof fn click_selects_or_removes(click: SubtabClick, allow_add_remove: bool)
    ensures
        !(asks_selection(click, allow_add_remove) && asks_removal(click, allow_add_remove)),
        click != SubtabClick::Not ==> asks_selection(click, allow_add_remove) || asks_removal(
            click,
            allow_add_remove,
        ),
        !allow_add_remove ==> !asks_removal(click, allow_add_remove),
{
}

/// Once a section has been deleted, every tab shows its first section.
pub proof fn deleting_goes_back_to_the_first_section(tab: usize, count: nat)
    ensures
        shown_sub(Map::<usize, usize>::empty(), tab, count) == 0,
{
}

/// The last flag that is set is found, whichever it is, and none where none is set.
pub proof fn last_set_flag_is_found(flags: Seq<bool>, i: usize)
    requires
        flags.len() <= usize::MAX,
    ensures
        i < flags.len() && flags[i as int] && (forall|j: int|
            i < j < flags.len() ==> !#[trigger] flags[j]) ==> last_index(
            flags.len(),
            flag_at(flags),
        ) == Some(i),
        (forall|j: int| 0 <= j < flags.len() ==> !#[trigger] flags[j]) ==> last_index(
            flags.len(),
            flag_at(flags),
        ) is None,
{
    let holds = flag_at(flags);
    last_index_is_last(flags.len(), holds);
    if let Some(k) = last_index(flags.len(), holds) {
        assert(holds(k as int) == flags[k as int]);
    }
    assert(forall|j: int| #[trigger] holds(j) == flags[j]);
    assert(i < flags.len() && flags[i as int] ==> holds(i as int));
}

/// What a click on a section's tab asks for: on the close icon, removal where sections
/// may be removed; anywhere else, selection; and nothing where there was no click.
pub proof fn close_icon_removes_and_label_selects(allow_add_remove: bool)
    ensures
        asks_removal(SubtabClick::OnClose, true),
        !asks_selection(SubtabClick::OnClose, true),
        asks_selection(SubtabClick::OnClose, false),
        !asks_removal(SubtabClick::OnClose, false),
        asks_selection(SubtabClick::OnLabel, allow_add_remove),
        !asks_removal(SubtabClick::OnLabel, allow_add_remove),
        !asks_selection(SubtabClick::Not, allow_add_remove),
        !asks_removal(SubtabClick::Not, allow_add_remove),
{
}

/// The last tab that was clicked on its label is selected, and the last one that was
/// clicked on its close icon is to be removed.
pub proof fn last_click_of_each_kind_counts(clicks: Seq<SubtabClick>, i: usize)
    requires
        clicks.len() <= usize::MAX,
        i < clicks.len(),
    ensures
        clicks[i as int] == SubtabClick::OnLabel && (forall|j: int|
            i < j < clicks.len() ==> #[trigger] clicks[j] != SubtabClick::OnLabel) ==> last_index(
            clicks.len(),
            selection_at(clicks, true),
        ) == Some(i),
        clicks[i as int] == SubtabClick::OnClose && (forall|j: int|
            i < j < clicks.len() ==> #[trigger] clicks[j] != SubtabClick::OnClose) ==> last_index(
            clicks.len(),
            removal_at(clicks, true),
        ) == Some(i),
        clicks[i as int] != SubtabClick::Not && (forall|j: int|
            i < j < clicks.len() ==> #[trigger] clicks[j] == SubtabClick::Not) ==> last_index(
            clicks.len(),
            selection_at(clicks, false),
        ) == Some(i),
        last_index(clicks.len(), removal_at(clicks, false)) is None,
        (forall|j: int| 0 <= j < clicks.len() ==> #[trigger] clicks[j] == SubtabClick::Not)
            ==> last_index(clicks.len(), selection_at(clicks, true)) is None && last_index(
            clicks.len(),
            removal_at(clicks, true),
        ) is None,
{
    let selects = selection_at(clicks, true);
    let removes = removal_at(clicks, true);
    let shows = selection_at(clicks, false);
    let never = removal_at(clicks, false);
    last_index_is_last(clicks.len(), selects);
    last_index_is_last(clicks.len(), removes);
    last_index_is_last(clicks.len(), shows);
    last_index_is_last(clicks.len(), never);
    assert(forall|j: int| #[trigger] selects(j) == (clicks[j] == SubtabClick::OnLabel));
    assert(forall|j: int| #[trigger] removes(j) == (clicks[j] == SubtabClick::OnClose));
    assert(forall|j: int| #[trigger] shows(j) == (clicks[j] != SubtabClick::Not));
    assert(forall|j: int| !#[trigger] never(j));
    assert(selects(i as int) == (clicks[i as int] == SubtabClick::OnLabel));
    assert(removes(i as int) == (clicks[i as int] == SubtabClick::OnClose));
    assert(shows(i as int) == (clicks[i as int] != SubtabClick::Not));
}

/// The section that was shown last is shown again while it is there; without one, and
/// once it is gone, the first is. Other tabs do not matter.
pub proof fn remembered_section_is_shown_while_it_is_there(
    selected_sub: Map<usize, usize>,
    tab: usize,
    other: usize,
    sub: usize,
    count: nat,
)
    ensures
        sub < count ==> shown_sub(selected_sub.insert(tab, sub), tab, count) == sub,
        0 < count <= sub ==> shown_sub(selected_sub.insert(tab, sub), tab, count) == 0,
        !selected_sub.contains_key(tab) ==> shown_sub(selected_sub, tab, count) == 0,
        count == 0 ==> shown_sub(selected_sub.insert(tab, sub), tab, count) == sub,
        other != tab ==> shown_sub(selected_sub.insert(other, sub), tab, count) == shown_sub(
            selected_sub,
            tab,
            count,
        ),
{
}

/// The name of a section is what was typed, without the white space at its ends.
pub proof fn section_name_is_trimmed(input: Seq<char>)
    ensures
        exists|start: int, end: int|
            {
                &&& 0 <= start <= end <= input.len()
                &&& section_name(input) == #[trigger] input.subrange(start, end)
                &&& forall|i: int| 0 <= i < start ==> is_white_space(#[trigger] input[i])
                &&& forall|i: int| end <= i < input.len() ==> is_white_space(#[trigger] input[i])
            },
        section_name(input).len() > 0 ==> !is_white_space(section_name(input)[0])
            && !is_white_space(section_name(input).last()),
{
    let (start, end) = trimming_takes_white_space_from_both_ends(input);
    assert(section_name(input) == input.subrange(start, end));
}

} // verus!
