//! What a frame of the window changes in the configuration.

use crate::model::Float64;
use vstd::prelude::*;
use vstd::string::*;

verus! {

/// How a number is written.
#[derive(Debug, Clone, Copy, PartialEq, Eq, Structural)]
pub enum NumberRepr {
    /// Whole numbers are written without a fraction.
    Integer,
    /// Numbers are written as floats.
    Float,
}

/// What an edit says.
#[verifier::ext_equal]
#[allow(inconsistent_fields)]
pub enum EditView {
    SetStr { path: Seq<char>, value: Seq<char> },
    SetBool { path: Seq<char>, value: bool },
    SetNumber { path: Seq<char>, value: Float64, repr: NumberRepr },
    SetTable { path: Seq<char> },
    Remove { path: Seq<char> },
}

/// One change to the configuration, by dotted path.
#[derive(Debug, Clone, PartialEq, Eq)]
#[allow(inconsistent_fields)]
pub enum ConfigEdit {
    /// Store a string.
    SetStr { path: String, value: String },
    /// Store a truth value.
    SetBool { path: String, value: bool },
    /// Store a number.
    SetNumber { path: String, value: Float64, repr: NumberRepr },
    /// Make sure that there is a table.
    SetTable { path: String },
    /// Remove the key.
    Remove { path: String },
}

impl View for ConfigEdit {
    type V = EditView;

    open spec fn view(&self) -> EditView {
        match *self {
            ConfigEdit::SetStr { path, value } => EditView::SetStr { path: path@, value: value@ },
            ConfigEdit::SetBool { path, value } => EditView::SetBool { path: path@, value },
            ConfigEdit::SetNumber { path, value, repr } => EditView::SetNumber {
                path: path@,
                value,
                repr,
            },
            ConfigEdit::SetTable { path } => EditView::SetTable { path: path@ },
            ConfigEdit::Remove { path } => EditView::Remove { path: path@ },
        }
    }
}

/// What a list of edits says, in order.
pub open spec fn edit_views(edits: Seq<ConfigEdit>) -> Seq<EditView> {
    edits.map_values(|e: ConfigEdit| e@)
}

/// What an optional edit says.
pub open spec fn edit_view(edit: Option<ConfigEdit>) -> Option<EditView> {
    match edit {
        Some(edit) => Some(edit@),
        None => None,
    }
}

/// The edit that stores a text, if the user changed it.
pub fn text_edit(path: &str, changed: Option<String>) -> (r: Option<ConfigEdit>)
    ensures
        edit_view(r) == match changed {
            Some(value) => Some(EditView::SetStr { path: path@, value: value@ }),
            None => None,
        },
{
    match changed {
        Some(value) => Some(ConfigEdit::SetStr { path: path.to_owned(), value }),
        None => None,
    }
}

/// The edit that stores a number, if the user changed it.
pub fn numeric_edit(path: &str, changed: Option<Float64>, repr: NumberRepr) -> (r: Option<
    ConfigEdit,
>)
    ensures
        edit_view(r) == match changed {
            Some(value) => Some(EditView::SetNumber { path: path@, value, repr }),
            None => None,
        },
{
    match changed {
        Some(value) => Some(ConfigEdit::SetNumber { path: path.to_owned(), value, repr }),
        None => None,
    }
}

/// Appending an edit appends what it says.
pub(crate) proof fn lemma_edit_views_push(edits: Seq<ConfigEdit>, e: ConfigEdit)
    ensures
        edit_views(edits.push(e)) == edit_views(edits) + seq![e@],
{
    assert(edit_views(edits.push(e)) =~= edit_views(edits) + seq![e@]);
}

/// What a list of edits says is what its edits say, one by one.
pub proof fn edits_are_read_one_by_one(edits: Seq<ConfigEdit>, i: int, one: Option<ConfigEdit>)
    ensures
        edit_views(edits).len() == edits.len(),
        0 <= i < edits.len() ==> edit_views(edits)[i] == edits[i]@,
        one matches Some(edit) ==> edit_view(one) == Some(edit@),
        one is None ==> edit_view(one) is None,
{
}

/// An edit says what it does, at which path, and with which value.
pub proof fn edits_say_what_they_do(edit: ConfigEdit)
    ensures
        match edit {
            ConfigEdit::SetStr { path, value } => edit@ matches EditView::SetStr {
                path: p,
                value: v,
            } && p == path@ && v == value@,
            ConfigEdit::SetBool { path, value } => edit@ matches EditView::SetBool {
                path: p,
                value: v,
            } && p == path@ && v == value,
            ConfigEdit::SetNumber { path, value, repr } => edit@ matches EditView::SetNumber {
                path: p,
                value: v,
                repr: n,
            } && p == path@ && v == value && n == repr,
            ConfigEdit::SetTable { path } => edit@ matches EditView::SetTable { path: p } && p
                == path@,
            ConfigEdit::Remove { path } => edit@ matches EditView::Remove { path: p } && p == path@,
        },
{
}

} // verus!
