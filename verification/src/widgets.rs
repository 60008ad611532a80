//! What the widgets of fields show, and what they change.

use crate::codepoints::IconMap;
use crate::edits::{edit_view, ConfigEdit, EditView};
use crate::lang::ActiveLang;
use crate::model::{Field, Float64, Tab, WidgetKind};
use crate::paths::{child_path, join_path};
use crate::text::{copy_texts, texts};
use crate::window::Platform;
use vstd::prelude::*;
use vstd::string::*;

verus! {

/// Where a widget anchors its value text vertically, used to place the field
/// label's baseline on the matching line.
#[derive(Debug, Clone, Copy, PartialEq, Eq, Structural)]
pub enum LabelAnchor {
    /// The value text is vertically centered within the widget. The label is
    /// centered on the same row.
    Center,
    /// The widget is a tall stack whose first row carries the meaningful text.
    /// The label aligns to that first line instead of the vertical middle of the
    /// whole widget.
    FirstLine,
}

/// Classifies how a widget positions its value text so the label can match it.
pub fn label_anchor(kind: &WidgetKind) -> (r: LabelAnchor)
    ensures
        r == if *kind == WidgetKind::ExclusiveRadio || *kind == WidgetKind::Multiline {
            LabelAnchor::FirstLine
        } else {
            LabelAnchor::Center
        },
{
    match kind {
        WidgetKind::ExclusiveRadio => LabelAnchor::FirstLine,
        WidgetKind::Multiline => LabelAnchor::FirstLine,
        _ => LabelAnchor::Center,
    }
}

/// The ring that is drawn around an input.
#[derive(Debug, Clone, Copy, PartialEq, Eq, Structural)]
pub enum FieldRing {
    /// None.
    Absent,
    /// In the accent color.
    Accent,
    /// In the error color.
    Error,
}

/// The ring around an input: an invalid value is marked whether or not the input
/// has the focus.
pub fn field_ring(has_focus: bool, invalid: bool) -> (r: FieldRing)
    ensures
        r == if invalid {
            FieldRing::Error
        } else if has_focus {
            FieldRing::Accent
        } else {
            FieldRing::Absent
        },
{
    if invalid {
        FieldRing::Error
    } else if has_focus {
        FieldRing::Accent
    } else {
        FieldRing::Absent
    }
}

/// What is shown below a field.
#[derive(Debug, Clone, Copy, PartialEq, Eq, Structural)]
pub enum Feedback {
    Nothing,
    Errors,
    Hint,
}

/// What is shown below a field: its errors, or else its hint.
pub fn field_feedback(errors: &Vec<String>, hint: Option<&str>) -> (r: Feedback)
    ensures
        r == if errors.len() > 0 {
            Feedback::Errors
        } else if hint is Some {
            Feedback::Hint
        } else {
            Feedback::Nothing
        },
{
    if errors.len() > 0 {
        Feedback::Errors
    } else if hint.is_some() {
        Feedback::Hint
    } else {
        Feedback::Nothing
    }
}

/// What a checkbox or toggle shows: what is not stored counts as off, and a
/// click turns it over.
pub open spec fn switch_value(stored: Option<bool>, clicked: bool) -> bool {
    (stored == Some(true)) != clicked
}

/// Applies a frame of a checkbox or toggle: what it shows from now on, and the
/// edit that follows.
pub fn switch_frame(path: &str, stored: Option<bool>, clicked: bool) -> (r: (
    bool,
    Option<ConfigEdit>,
))
    ensures
        r.0 == switch_value(stored, clicked),
        edit_view(r.1) == if clicked {
            Some(EditView::SetBool { path: path@, value: r.0 })
        } else {
            None
        },
{
    let value = match stored {
        Some(value) => value,
        None => false,
    };
    if clicked {
        (!value, Some(ConfigEdit::SetBool { path: path.to_owned(), value: !value }))
    } else {
        (value, None)
    }
}

/// Whether an input is to take the focus back. On Windows, confirming an input
/// method's candidate takes the focus away with it.
pub fn keeps_focus_after_ime(platform: Platform, lost_focus: bool, committed: bool) -> (r: bool)
    ensures
        r == (platform == Platform::Windows && lost_focus && committed),
{
    platform == Platform::Windows && lost_focus && committed
}

/// The icon of the button that shows and hides a secret.
pub fn secret_icon(shown: bool) -> (r: char)
    ensures
        r == if shown {
            '\u{e8f4}'
        } else {
            '\u{e8f5}'
        },
{
    if shown {
        '\u{e8f4}'
    } else {
        '\u{e8f5}'
    }
}

/// The bit pattern of 100, the greatest number where none is given.
pub const DEFAULT_MAX_BITS: u64 = 0x4059_0000_0000_0000;

/// The bit pattern of 1, the step between numbers where none is given.
pub const DEFAULT_STEP_BITS: u64 = 0x3ff0_0000_0000_0000;

/// The range and the value of a numeric field.
#[derive(Debug, Clone, Copy, PartialEq, Eq, Structural)]
pub struct NumericSettings {
    pub min: Float64,
    pub max: Float64,
    pub step: Float64,
    pub value: Float64,
}

/// A number, or what stands in for it.
pub open spec fn number_or(number: Option<Float64>, default_bits: u64) -> Float64 {
    match number {
        Some(number) => number,
        None => Float64 { bits: default_bits },
    }
}

fn pick_number(number: Option<Float64>, default_bits: u64) -> (r: Float64)
    ensures
        r == number_or(number, default_bits),
{
    match number {
        Some(number) => number,
        None => Float64 { bits: default_bits },
    }
}

impl Field {
    /// The number of rows that are visible of a multiline input.
    pub fn visible_rows(&self) -> (r: usize)
        ensures
            r == match self.rows {
                Some(rows) => rows,
                None => 4usize,
            },
    {
        match self.rows {
            Some(rows) => rows,
            None => 4,
        }
    }

    /// The range of a numeric field, and its value: the stored one, or the least.
    pub fn numeric_settings(&self, stored: Option<Float64>) -> (r: NumericSettings)
        ensures
            r.min == number_or(self.min, 0),
            r.max == number_or(self.max, DEFAULT_MAX_BITS),
            r.step == number_or(self.step, DEFAULT_STEP_BITS),
            r.value == match stored {
                Some(value) => value,
                None => r.min,
            },
    {
        let min = pick_number(self.min, 0);
        NumericSettings {
            min,
            max: pick_number(self.max, DEFAULT_MAX_BITS),
            step: pick_number(self.step, DEFAULT_STEP_BITS),
            value: match stored {
                Some(value) => value,
                None => min,
            },
        }
    }
}

/// The path of a field in a section of a section map.
pub fn section_field_path(key_prefix: &str, section: &str, key: &str) -> (r: String)
    ensures
        r@ == child_path(child_path(key_prefix@, section@), key@),
{
    let section_path = join_path(key_prefix, section);
    join_path(section_path.as_str(), key)
}

/// The character that a tab's icon is drawn with, if it is known.
pub fn tab_icon(tab: &Tab, icons: &IconMap) -> (r: Option<char>)
    ensures
        r == match tab.icon {
            Some(name) if icons@.contains_key(name@) => Some(icons@[name@]),
            _ => None,
        },
{
    match &tab.icon {
        Some(name) => icons.get(name.as_str()),
        None => None,
    }
}

/// A filter of a file dialog, as it reads.
#[verifier::ext_equal]
pub struct FilterView {
    pub name: Seq<char>,
    pub extensions: Seq<Seq<char>>,
}

/// A filter of a file dialog.
#[derive(Debug, Clone)]
pub struct FileFilter {
    pub name: String,
    pub extensions: Vec<String>,
}

impl View for FileFilter {
    type V = FilterView;

    open spec fn view(&self) -> FilterView {
        FilterView { name: self.name@, extensions: texts(self.extensions@) }
    }
}

/// What a list of filters says, in order.
pub open spec fn filter_views(filters: Seq<FileFilter>) -> Seq<FilterView> {
    filters.map_values(|f: FileFilter| f@)
}

impl Field {
    /// The filters of the field's file dialog in the language `code`: the
    /// field's own, and one for all files. macOS has no way to choose between
    /// them, and gets none.
    pub open spec fn filters_for(
        self,
        platform: Platform,
        code: Seq<char>,
        all_files: Seq<char>,
    ) -> Seq<FilterView> {
        match (self.file_filter, self.file_extensions) {
            (Some(filter), Some(extensions)) if !self.is_directory && platform
                != Platform::MacOs => seq![
                FilterView { name: filter@.text_for(code), extensions: texts(extensions@) },
                FilterView { name: all_files, extensions: seq!["*"@] },
            ],
            _ => Seq::empty(),
        }
    }

    /// The filters of the field's file dialog.
    pub fn dialog_filters(&self, platform: Platform, lang: &ActiveLang, all_files: &str) -> (r: Vec<
        FileFilter,
    >)
        ensures
            filter_views(r@) == self.filters_for(platform, lang.active_code(), all_files@),
    {
        let mut filters: Vec<FileFilter> = Vec::new();
        if self.is_directory || platform == Platform::MacOs {
            assert(filter_views(filters@) =~= Seq::<FilterView>::empty());
            return filters;
        }
        if let Some(filter) = &self.file_filter {
            if let Some(extensions) = &self.file_extensions {
                filters.push(
                    FileFilter {
                        name: filter.get(lang).to_owned(),
                        extensions: copy_texts(extensions),
                    },
                );
                let mut any: Vec<String> = Vec::new();
                any.push("*".to_owned());
                assert(texts(any@) =~= seq!["*"@]);
                filters.push(FileFilter { name: all_files.to_owned(), extensions: any });
            }
        }
        assert(filter_views(filters@) =~= self.filters_for(platform, lang.active_code(), all_files@));
        filters
    }
}

/// A switch that is clicked twice, with what it stored in between, is as it was.
pub proof fn switching_twice(stored: Option<bool>)
    ensures
        switch_value(Some(switch_value(stored, true)), true) == switch_value(stored, false),
{
}

/// Without a click a switch shows what is stored, a click shows the opposite, and what is
/// not stored counts as off.
pub proof fn switches_show_what_is_stored_until_clicked(on: bool)
    ensures
        switch_value(Some(on), false) == on,
        switch_value(Some(on), true) == !on,
        switch_value(None, false) == switch_value(Some(false), false),
        switch_value(None, true) == switch_value(Some(false), true),
{
}

/// A number that is given is taken as it is, and otherwise the default is.
pub proof fn given_numbers_come_first(number: Float64, default_bits: u64)
    ensures
        number_or(Some(number), default_bits) == number,
        number_or(None, default_bits).bits == default_bits,
{
}

/// A field with a filter and extensions offers these first and all files second, in every
/// language, except on macOS and for directories.
pub proof fn own_filter_comes_before_all_files(
    field: Field,
    platform: Platform,
    code: Seq<char>,
    all_files: Seq<char>,
)
    ensures
        ({
            let filters = field.filters_for(platform, code, all_files);
            let offered = field.file_filter is Some && field.file_extensions is Some
                && !field.is_directory && (platform == Platform::Windows || platform
                == Platform::Linux || platform == Platform::Other);
            &&& filters.len() == if offered {
                2nat
            } else {
                0nat
            }
            &&& offered ==> filters[0].name == field.file_filter->0@.text_for(code)
            &&& offered ==> filters[0].extensions.len() == field.file_extensions->0@.len()
            &&& offered ==> forall|i: int|
                0 <= i < field.file_extensions->0@.len() ==> #[trigger] filters[0].extensions[i]
                    == field.file_extensions->0@[i]@
            &&& offered ==> filters[1].name == all_files
            &&& offered ==> filters[1].extensions == seq!["*"@]
        }),
{
}

/// What a list of filters says is what its filters say, one by one.
pub proof fn filters_are_read_one_by_one(filters: Seq<FileFilter>, i: int)
    ensures
        filter_views(filters).len() == filters.len(),
        0 <= i < filters.len() ==> filter_views(filters)[i].name == filters[i].name@
            && filter_views(filters)[i].extensions == texts(filters[i].extensions@),
{
}

} // verus!
