//! The editor of a table of string keys and string values.

use crate::edits::{edit_view, edit_views, lemma_edit_views_push, ConfigEdit, EditView};
use crate::lang::{ActiveLang, LocalizedString};
use crate::model::Field;
use crate::paths::{child_path, join_path};
use crate::text::{gather, opt_text};
use vstd::prelude::*;
use vstd::string::*;

verus! {

/// What the state of an editor says.
#[verifier::ext_equal]
pub struct KvView {
    pub selected: Option<Seq<char>>,
    pub adding: bool,
    pub new_key: Seq<char>,
    pub new_val: Seq<char>,
    pub focus_key: bool,
}

/// What an editor remembers between frames.
#[derive(Debug, Clone)]
pub struct KvState {
    /// The key of the selected row.
    pub selected: Option<String>,
    /// Whether the row for a new entry is open.
    pub adding: bool,
    /// The key typed into that row.
    pub new_key: String,
    /// The value typed into that row.
    pub new_val: String,
    /// Whether the key input of that row is to be focused when it first opens.
    pub focus_key: bool,
}

impl View for KvState {
    type V = KvView;

    open spec fn view(&self) -> KvView {
        KvView {
            selected: opt_text(self.selected),
            adding: self.adding,
            new_key: self.new_key@,
            new_val: self.new_val@,
            focus_key: self.focus_key,
        }
    }
}

impl KvView {
    /// Nothing is left over in the inputs while no row is being added.
    pub open spec fn blank_when_idle(self) -> bool {
        !self.adding ==> self.new_key.len() == 0 && self.new_val.len() == 0
    }

    /// The state with the row for a new entry closed and emptied.
    pub open spec fn closed_row(self) -> KvView {
        KvView { adding: false, new_key: Seq::empty(), new_val: Seq::empty(), ..self }
    }
}

/// What happened to one row in a frame.
#[derive(Debug, Clone)]
pub struct RowInput {
    /// The key column was clicked.
    pub clicked: bool,
    /// The new value, if it was edited.
    pub edited: Option<String>,
    /// The value input gained the keyboard focus.
    pub gained_focus: bool,
}

/// What happened to the row for a new entry in a frame.
#[derive(Debug, Clone)]
pub struct NewRowInput {
    /// The text of the key input.
    pub key: String,
    /// The text of the value input.
    pub value: String,
    /// Enter was pressed while one of the inputs had the focus.
    pub enter: bool,
    /// Escape was pressed.
    pub escape: bool,
    /// The key input lost the focus.
    pub key_lost_focus: bool,
    /// The value input lost the focus.
    pub value_lost_focus: bool,
    /// The value input has the focus.
    pub value_has_focus: bool,
}

/// The edit that a row asks for: the new value, where it was edited.
pub open spec fn row_edit(
    key_path: Seq<char>,
    keys: Seq<String>,
    rows: Seq<RowInput>,
) -> spec_fn(int) -> Seq<EditView> {
    |i: int|
        match opt_text(rows[i].edited) {
            Some(value) => seq![
                EditView::SetStr { path: child_path(key_path, keys[i]@), value },
            ],
            None => Seq::empty(),
        }
}

/// The selection that a row asks for, if any: focusing its value selects it, and
/// clicking its key selects it or, where it is selected, nothing.
pub open spec fn row_choice(selected: Option<Seq<char>>, key: Seq<char>, row: RowInput) -> Option<
    Option<Seq<char>>,
> {
    if row.gained_focus {
        Some(Some(key))
    } else if row.clicked {
        Some(
            if selected == Some(key) {
                None
            } else {
                Some(key)
            },
        )
    } else {
        None
    }
}

/// The selection after the first `n` rows: that of the last row which asks for
/// one, or the old one.
pub open spec fn selection_after(
    selected: Option<Seq<char>>,
    keys: Seq<String>,
    rows: Seq<RowInput>,
    n: nat,
) -> Option<Seq<char>>
    decreases n,
{
    if n == 0 {
        selected
    } else {
        match row_choice(selected, keys[n - 1]@, rows[n - 1]) {
            Some(choice) => choice,
            None => selection_after(selected, keys, rows, (n - 1) as nat),
        }
    }
}

/// What becomes of the row for a new entry.
#[derive(Debug, Clone, Copy, PartialEq, Eq, Structural)]
pub enum NewRowFate {
    /// It stays open.
    Open,
    /// It is closed and dropped.
    Dropped,
    /// It is closed and stored.
    Stored,
}

/// Escape drops the row. Enter stores it, or drops it where it has no key. A row
/// with a key is also stored when the focus leaves it, though not when the focus
/// merely moves from the key to the value.
pub open spec fn new_row_fate(input: NewRowInput) -> NewRowFate {
    if input.escape {
        NewRowFate::Dropped
    } else if input.enter {
        if input.key@.len() == 0 {
            NewRowFate::Dropped
        } else {
            NewRowFate::Stored
        }
    } else if (input.value_lost_focus || input.key_lost_focus) && input.key@.len() > 0 && !(
    input.key_lost_focus && input.value_has_focus) {
        NewRowFate::Stored
    } else {
        NewRowFate::Open
    }
}

impl Default for KvState {
    fn default() -> (r: KvState)
        ensures
            r@ == (KvView {
                selected: None,
                adding: false,
                new_key: Seq::empty(),
                new_val: Seq::empty(),
                focus_key: false,
            }),
            r@.blank_when_idle(),
    {
        KvState {
            selected: None,
            adding: false,
            new_key: String::new(),
            new_val: String::new(),
            focus_key: false,
        }
    }
}

impl KvState {
    /// Whether the row of `key` is the selected one.
    pub fn is_selected(&self, key: &str) -> (r: bool)
        ensures
            r == (self@.selected == Some(key@)),
    {
        match &self.selected {
            Some(selected) => *selected.as_str() == *key,
            None => false,
        }
    }

    /// Applies what happened to the rows of `keys`, and returns the edits that
    /// follow.
    pub fn rows_frame(&mut self, key_path: &str, keys: &Vec<String>, rows: &Vec<RowInput>) -> (r:
        Vec<ConfigEdit>)
        requires
            keys.len() == rows.len(),
        ensures
            edit_views(r@) == gather(keys@.len(), row_edit(key_path@, keys@, rows@)),
            final(self)@ == (KvView {
                selected: selection_after(old(self)@.selected, keys@, rows@, keys@.len()),
                ..old(self)@
            }),
            old(self)@.blank_when_idle() ==> final(self)@.blank_when_idle(),
    {
        let ghost part = row_edit(key_path@, keys@, rows@);
        let ghost before = self@.selected;
        let mut edits: Vec<ConfigEdit> = Vec::new();
        let mut choice: Option<Option<String>> = None;
        let mut i: usize = 0;
        assert(edit_views(edits@) =~= gather(0, part));
        while i < keys.len()
            invariant
                i <= keys.len(),
                keys.len() == rows.len(),
                *self == *old(self),
                before == self@.selected,
                part == row_edit(key_path@, keys@, rows@),
                edit_views(edits@) == gather(i as nat, part),
                selection_after(before, keys@, rows@, i as nat) == match choice {
                    Some(choice) => opt_text(choice),
                    None => before,
                },
            decreases keys.len() - i,
        {
            let key = &keys[i];
            let row = &rows[i];
            if row.clicked {
                choice = Some(
                    if self.is_selected(key.as_str()) {
                        None
                    } else {
                        Some(key.clone())
                    },
                );
            }
            let ghost old_edits = edits@;
            if let Some(value) = &row.edited {
                let edit = ConfigEdit::SetStr {
                    path: join_path(key_path, key.as_str()),
                    value: value.clone(),
                };
                edits.push(edit);
                proof {
                    lemma_edit_views_push(old_edits, edit);
                }
            }
            if row.gained_focus {
                choice = Some(Some(key.clone()));
            }
            assert(edit_views(edits@) =~= gather((i + 1) as nat, part));
            i += 1;
        }
        if let Some(selected) = choice {
            self.selected = selected;
        }
        edits
    }

    /// Whether the key input of the row for a new entry is to be focused now.
    /// The request is made once.
    pub fn take_focus_request(&mut self) -> (r: bool)
        ensures
            r == (old(self).adding && old(self).focus_key),
            final(self)@ == (KvView {
                focus_key: old(self)@.focus_key && !old(self)@.adding,
                ..old(self)@
            }),
            old(self)@.blank_when_idle() ==> final(self)@.blank_when_idle(),
    {
        if self.adding && self.focus_key {
            self.focus_key = false;
            true
        } else {
            false
        }
    }

    fn close_row(&mut self)
        ensures
            final(self)@ == old(self)@.closed_row(),
    {
        self.new_key = String::new();
        self.new_val = String::new();
        self.adding = false;
    }

    /// Applies what happened to the row for a new entry, and returns the edit
    /// that follows. Without such a row nothing happens.
    pub fn new_row_frame(&mut self, key_path: &str, input: NewRowInput) -> (r: Option<ConfigEdit>)
        ensures
            !old(self)@.adding ==> r is None && final(self)@ == old(self)@,
            old(self)@.adding ==> match new_row_fate(input) {
                NewRowFate::Open => r is None && final(self)@ == (KvView {
                    new_key: input.key@,
                    new_val: input.value@,
                    ..old(self)@
                }),
                NewRowFate::Dropped => r is None && final(self)@ == old(self)@.closed_row(),
                NewRowFate::Stored => final(self)@ == old(self)@.closed_row() && edit_view(r)
                    == Some(
                    EditView::SetStr {
                        path: child_path(key_path@, input.key@),
                        value: input.value@,
                    },
                ),
            },
            old(self)@.blank_when_idle() ==> final(self)@.blank_when_idle(),
    {
        if !self.adding {
            return None;
        }
        let has_key = !input.key.as_str().is_empty();
        if input.escape || (input.enter && !has_key) {
            self.close_row();
            None
        } else if input.enter || ((input.value_lost_focus || input.key_lost_focus) && has_key && !(
        input.key_lost_focus && input.value_has_focus)) {
            let edit = ConfigEdit::SetStr {
                path: join_path(key_path, input.key.as_str()),
                value: input.value,
            };
            self.close_row();
            Some(edit)
        } else {
            self.new_key = input.key;
            self.new_val = input.value;
            None
        }
    }

    /// Whether the minus button does anything.
    pub fn can_remove(&self) -> (r: bool)
        ensures
            r == (self@.selected is Some || self@.adding),
    {
        self.selected.is_some() || self.adding
    }

    /// Applies clicks on the plus and minus buttons, and returns the edit that
    /// follows. Plus opens the row for a new entry. Minus closes that row, or
    /// removes the selected entry.
    pub fn footer_frame(&mut self, key_path: &str, plus: bool, minus: bool) -> (r: Option<
        ConfigEdit,
    >)
        ensures
            ({
                let opened = if plus {
                    KvView { adding: true, focus_key: true, ..old(self)@ }
                } else {
                    old(self)@
                };
                if !minus || !(old(self)@.selected is Some || old(self)@.adding) {
                    r is None && final(self)@ == opened
                } else if opened.adding {
                    r is None && final(self)@ == opened.closed_row()
                } else {
                    final(self)@ == (KvView { selected: None, ..opened }) && edit_view(r) == Some(
                        EditView::Remove { path: child_path(key_path@, opened.selected->0) },
                    )
                }
            }),
            old(self)@.blank_when_idle() ==> final(self)@.blank_when_idle(),
    {
        let can_remove = self.can_remove();
        if plus {
            self.adding = true;
            self.focus_key = true;
        }
        if minus && can_remove {
            if self.adding {
                self.close_row();
                return None;
            }
            let edit = match &self.selected {
                Some(key) => Some(ConfigEdit::Remove { path: join_path(key_path, key.as_str()) }),
                None => None,
            };
            self.selected = None;
            return edit;
        }
        None
    }

    /// Whether a rule is drawn below the `i`-th of `n` rows: below each but the
    /// last.
    pub fn has_rule_below(&self, i: usize, n: usize) -> (r: bool)
        requires
            i < n,
        ensures
            r == (i + 1 != n || self@.adding),
    {
        i + 1 != n || self.adding
    }
}

/// A label, or what stands in for it.
fn label_or<'a>(label: &'a Option<LocalizedString>, default: &'a str, lang: &ActiveLang) -> (r:
    &'a str)
    ensures
        r@ == match *label {
            Some(label) => label@.text_for(lang.active_code()),
            None => default@,
        },
{
    match label {
        Some(label) => label.get(lang),
        None => default,
    }
}

impl Field {
    /// The header of the key column.
    pub fn key_column_label(&self, lang: &ActiveLang) -> (r: &str)
        ensures
            r@ == match self.key_label {
                Some(label) => label@.text_for(lang.active_code()),
                None => "Key"@,
            },
    {
        label_or(&self.key_label, "Key", lang)
    }

    /// The header of the value column.
    pub fn value_column_label(&self, lang: &ActiveLang) -> (r: &str)
        ensures
            r@ == match self.value_label {
                Some(label) => label@.text_for(lang.active_code()),
                None => "Value"@,
            },
    {
        label_or(&self.value_label, "Value", lang)
    }
}

/// An entry is stored only under a key that is not empty.
pub proof fn stored_rows_have_a_key(input: NewRowInput)
    ensures
        new_row_fate(input) == NewRowFate::Stored ==> input.key@.len() > 0 && !input.escape,
{
}

/// The selection is the old one, none, or the key of one of the rows.
pub proof fn selection_stays_among_the_keys(
    selected: Option<Seq<char>>,
    keys: Seq<String>,
    rows: Seq<RowInput>,
    n: nat,
)
    requires
        n <= keys.len(),
        keys.len() == rows.len(),
    ensures
        ({
            let after = selection_after(selected, keys, rows, n);
            after == selected || after is None || exists|i: int|
                0 <= i < n && after == Some((#[trigger] keys[i])@)
        }),
    decreases n,
{
    if n > 0 {
        selection_stays_among_the_keys(selected, keys, rows, (n - 1) as nat);
        assert(keys[n - 1]@ == keys[n - 1]@);
    }
}

/// What the last row that was clicked or focused does to the selection: focusing its
/// value selects it, clicking its key selects it too, and clicking the key of the row that
/// was selected leaves none selected.
pub proof fn last_touched_row_decides_the_selection(
    selected: Option<Seq<char>>,
    keys: Seq<String>,
    rows: Seq<RowInput>,
    n: nat,
    i: int,
)
    requires
        keys.len() == rows.len(),
        0 <= i < n <= keys.len(),
        rows[i].clicked || rows[i].gained_focus,
        forall|j: int| i < j < n ==> !(#[trigger] rows[j]).clicked && !rows[j].gained_focus,
    ensures
        rows[i].gained_focus || selected != Some(keys[i]@) ==> selection_after(
            selected,
            keys,
            rows,
            n,
        ) == Some(keys[i]@),
        !rows[i].gained_focus && selected == Some(keys[i]@) ==> selection_after(
            selected,
            keys,
            rows,
            n,
        ) is None,
    decreases n,
{
    if i < n - 1 {
        assert(!rows[n - 1].clicked && !rows[n - 1].gained_focus);
        last_touched_row_decides_the_selection(selected, keys, rows, (n - 1) as nat, i);
    }
}

/// The selection stays as it is while no row is clicked or focused.
pub proof fn untouched_rows_keep_the_selection(
    selected: Option<Seq<char>>,
    keys: Seq<String>,
    rows: Seq<RowInput>,
    n: nat,
)
    requires
        keys.len() == rows.len(),
        n <= keys.len(),
        forall|j: int| 0 <= j < n ==> !(#[trigger] rows[j]).clicked && !rows[j].gained_focus,
    ensures
        selection_after(selected, keys, rows, n) == selected,
    decreases n,
{
    if n > 0 {
        assert(!rows[n - 1].clicked && !rows[n - 1].gained_focus);
        untouched_rows_keep_the_selection(selected, keys, rows, (n - 1) as nat);
    }
}

/// A selection is lost only through a click on the row that was selected.
pub proof fn only_its_own_row_unselects(
    selected: Option<Seq<char>>,
    keys: Seq<String>,
    rows: Seq<RowInput>,
    n: nat,
)
    requires
        keys.len() == rows.len(),
        n <= keys.len(),
        selected is Some,
        selection_after(selected, keys, rows, n) is None,
    ensures
        exists|i: int|
            0 <= i < n && (#[trigger] rows[i]).clicked && selected == Some(keys[i]@),
    decreases n,
{
    if n > 0 {
        if rows[n - 1].clicked || rows[n - 1].gained_focus {
            assert(rows[n - 1].clicked);
        } else {
            only_its_own_row_unselects(selected, keys, rows, (n - 1) as nat);
        }
    }
}

/// Each row whose value was edited adds one edit, which stores the new value under the
/// row's key, and other rows add none. So the edits stand in the order of the rows.
pub proof fn each_edited_row_adds_its_edit(
    key_path: Seq<char>,
    keys: Seq<String>,
    rows: Seq<RowInput>,
    n: nat,
)
    requires
        keys.len() == rows.len(),
        n < keys.len(),
    ensures
        ({
            let before = gather(n, row_edit(key_path, keys, rows));
            let after = gather(n + 1, row_edit(key_path, keys, rows));
            match rows[n as int].edited {
                Some(value) => after.len() == before.len() + 1 && after.drop_last() == before
                    && after.last() == (EditView::SetStr {
                    path: child_path(key_path, keys[n as int]@),
                    value: value@,
                }),
                None => after == before,
            }
        }),
        gather(0, row_edit(key_path, keys, rows)).len() == 0,
{
    let before = gather(n, row_edit(key_path, keys, rows));
    let after = gather(n + 1, row_edit(key_path, keys, rows));
    if rows[n as int].edited is Some {
        assert(after.drop_last() =~= before);
    } else {
        assert(after =~= before);
    }
}

/// Escape drops the row for a new entry, whatever else happens.
pub proof fn escape_drops_the_new_row(input: NewRowInput)
    requires
        input.escape,
    ensures
        new_row_fate(input) == NewRowFate::Dropped,
{
}

/// Enter always closes the row for a new entry: it is stored where it has a key, and
/// dropped where it has none.
pub proof fn enter_stores_a_row_with_a_key(input: NewRowInput)
    requires
        input.enter,
        !input.escape,
    ensures
        input.key@.len() > 0 ==> new_row_fate(input) == NewRowFate::Stored,
        input.key@.len() == 0 ==> new_row_fate(input) == NewRowFate::Dropped,
{
}

/// Without Enter and Escape a row is stored exactly when it has a key and the focus
/// leaves it; it stays open while the focus stays in it, moves from the key to the value,
/// or there is no key.
pub proof fn leaving_a_row_with_a_key_stores_it(input: NewRowInput)
    requires
        !input.enter,
        !input.escape,
    ensures
        input.key@.len() > 0 && input.key_lost_focus && !input.value_has_focus ==> new_row_fate(
            input,
        ) == NewRowFate::Stored,
        input.key@.len() > 0 && input.value_lost_focus && !input.key_lost_focus ==> new_row_fate(
            input,
        ) == NewRowFate::Stored,
        input.key_lost_focus && input.value_has_focus ==> new_row_fate(input) == NewRowFate::Open,
        !input.key_lost_focus && !input.value_lost_focus ==> new_row_fate(input)
            == NewRowFate::Open,
        input.key@.len() == 0 ==> new_row_fate(input) == NewRowFate::Open,
{
}

/// Closing the row for a new entry empties it and leaves everything else as it is.
pub proof fn closing_empties_the_new_row(state: KvView)
    ensures
        !state.closed_row().adding,
        state.closed_row().new_key.len() == 0,
        state.closed_row().new_val.len() == 0,
        state.closed_row().selected == state.selected,
        state.closed_row().focus_key == state.focus_key,
        state.closed_row().blank_when_idle(),
        state.blank_when_idle() <==> (state.adding || (state.new_key.len() == 0
            && state.new_val.len() == 0)),
{
}

/// What is known of an editor is what it holds.
pub proof fn editors_say_what_they_hold(state: KvState)
    ensures
        state@.selected is Some <==> state.selected is Some,
        state.selected matches Some(key) ==> state@.selected == Some(key@),
        state@.adding == state.adding,
        state@.new_key == state.new_key@,
        state@.new_val == state.new_val@,
        state@.focus_key == state.focus_key,
{
}

} // verus!
