//! The schema that describes a settings window.

use crate::lang::{LangMode, LocalizedString, LocalizedView};
use vstd::prelude::*;
use vstd::string::*;

verus! {

/// A single-precision number, held by its IEEE 754 bit pattern.
#[derive(Debug, Clone, Copy, PartialEq, Eq, Structural)]
pub struct Float32 {
    pub bits: u32,
}

/// A double-precision number, held by its IEEE 754 bit pattern.
#[derive(Debug, Clone, Copy, PartialEq, Eq, Structural)]
pub struct Float64 {
    pub bits: u64,
}

/// Controls whether a Save button is shown or changes are written automatically.
#[derive(Debug, PartialEq, Eq, Structural, Clone, Copy)]
pub enum SaveButtonMode {
    /// Platform default: show a Save button on Windows/Linux, auto-save on macOS.
    Os,
    /// Always show a Save button; changes are written only when it is pressed.
    Show,
    /// Never show a Save button; changes are written immediately on every edit.
    Hide,
}

impl Default for SaveButtonMode {
    fn default() -> (r: SaveButtonMode)
        ensures
            r == SaveButtonMode::Os,
    {
        SaveButtonMode::Os
    }
}

/// A single config schema migration step (`[[migration]]` in TOML).
///
/// Applied when the config file's recorded version is below `version` and
/// `version` is at most [`Schema::schema_version`].
#[derive(Debug, Clone, PartialEq, Eq)]
pub struct Migration {
    /// Version this step brings the config file up to. Must be unique across
    /// migrations and not exceed [`Schema::schema_version`].
    pub version: u32,
    /// Move a value from one dotted path to another (same or different table).
    pub rename: Vec<Rename>,
    /// Remove a key entirely.
    pub delete: Vec<Delete>,
    /// Move a value while converting it (see [`TransformKind`]).
    pub transform: Vec<Transform>,
}

/// Move a value between dotted paths without changing it.
#[derive(Debug, Clone, PartialEq, Eq)]
pub struct Rename {
    pub from: String,
    pub to: String,
}

/// Remove a key by dotted path.
#[derive(Debug, Clone, PartialEq, Eq)]
pub struct Delete {
    pub key: String,
}

/// Move a value from `from` to `to`, converting it per `kind`.
#[derive(Debug, Clone, PartialEq, Eq)]
pub struct Transform {
    pub from: String,
    pub to: String,
    pub kind: TransformKind,
    /// Source string that maps to `true` for [`TransformKind::EnumToBool`].
    /// Required for `enum_to_bool`; ignored otherwise.
    pub match_value: Option<String>,
}

/// Value conversion applied by a [`Transform`].
#[derive(Debug, Clone, PartialEq, Eq, Structural)]
pub enum TransformKind {
    /// Move the value unchanged (equivalent to [`Rename`]).
    Rename,
    /// Write `true` when the source string equals `match`, else `false`.
    EnumToBool,
}

/// A named CEL constraint (`[[constraints]]` in the schema).
#[derive(Debug, Clone, PartialEq, Eq)]
pub struct Constraint {
    /// Stable identifier unique within the schema.
    pub id: String,
    /// CEL expression; must evaluate to `bool`.
    pub expr: String,
    /// Shown below the field when referenced from [`Field::validate`] and the
    /// expression is false. Not required for [`OptionState::when`] usage.
    pub message: Option<LocalizedString>,
}

/// One entry in a field's `validate` list: a [`Constraint`] id or an inline rule.
#[derive(Debug, Clone, PartialEq, Eq)]
pub enum ValidateEntry {
    /// Reference to a top-level [`Constraint`] by `id`.
    Ref(String),
    /// Inline CEL rule with a mandatory localized message.
    Inline(InlineValidate),
}

/// A field's `validate` value as it may be written: a list of entries, or one
/// entry on its own.
#[derive(Debug, PartialEq, Eq)]
pub enum ValidateValue {
    Many(Vec<ValidateEntry>),
    One(ValidateEntry),
}

impl ValidateValue {
    /// The entries of the value; a lone entry counts as a list of one.
    pub fn into_entries(self) -> (r: Vec<ValidateEntry>)
        ensures
            r@ == match self {
                ValidateValue::Many(entries) => entries@,
                ValidateValue::One(entry) => seq![entry],
            },
    {
        match self {
            ValidateValue::Many(entries) => entries,
            ValidateValue::One(entry) => {
                let mut entries: Vec<ValidateEntry> = Vec::new();
                entries.push(entry);
                assert(entries@ =~= seq![entry]);
                entries
            },
        }
    }
}

/// What an inline rule says.
#[verifier::ext_equal]
pub struct InlineView {
    pub expr: Seq<char>,
    pub message: LocalizedView,
}

/// Inline field validation rule (CEL + message).
#[derive(Debug, PartialEq, Eq)]
pub struct InlineValidate {
    pub expr: String,
    pub message: LocalizedString,
}

impl View for InlineValidate {
    type V = InlineView;

    open spec fn view(&self) -> InlineView {
        InlineView { expr: self.expr@, message: self.message@ }
    }
}

impl Clone for InlineValidate {
    fn clone(&self) -> (r: InlineValidate)
        ensures
            r@ == self@,
    {
        InlineValidate { expr: self.expr.clone(), message: self.message.clone() }
    }
}

/// Per-option enablement for `segmented_control` and `select`.
#[derive(Debug, Clone, PartialEq, Eq)]
pub struct OptionState {
    /// Option value as written in `options` (always a string).
    pub value: String,
    /// Constraint id: enabled iff the constraint's `expr` is true when this
    /// field is hypothetically set to `value`.
    pub when: Option<String>,
    /// Explicit CEL expression: enabled when this evaluates to `true`.
    pub enabled: Option<String>,
}

/// What a resolved rule says.
#[verifier::ext_equal]
pub enum RuleView {
    Named { id: Seq<char>, expr: Seq<char>, message: LocalizedView },
    Inline(InlineView),
}

/// Resolved validation rule with expression and message materialized.
#[derive(Debug, Clone, PartialEq, Eq)]
pub enum ResolvedValidateRule {
    Named { id: String, expr: String, message: LocalizedString },
    Inline(InlineValidate),
}

impl View for ResolvedValidateRule {
    type V = RuleView;

    open spec fn view(&self) -> RuleView {
        match *self {
            ResolvedValidateRule::Named { id, expr, message } => RuleView::Named {
                id: id@,
                expr: expr@,
                message: message@,
            },
            ResolvedValidateRule::Inline(inline) => RuleView::Inline(inline@),
        }
    }
}

/// Which color variant the UI should display.
#[derive(Debug, PartialEq, Eq, Structural, Clone, Copy)]
pub enum ThemeMode {
    /// Follow the operating system's light/dark setting (default).
    Os,
    Light,
    Dark,
}

impl Default for ThemeMode {
    fn default() -> (r: ThemeMode)
        ensures
            r == ThemeMode::Os,
    {
        ThemeMode::Os
    }
}

/// Optional overrides for built-in UI chrome strings, supplied via a
/// `[ui_strings]` table in the schema. Each field replaces the corresponding
/// built-in string for the active language. Omitted fields keep the built-in
/// translation (or English when no built-in translation exists for the language).
#[derive(Debug, Default)]
pub struct UiStrings {
    pub ok: Option<String>,
    pub apply: Option<String>,
    pub no_sections: Option<String>,
    pub add_section: Option<String>,
    pub section_name_label: Option<String>,
    pub add: Option<String>,
    pub cancel: Option<String>,
    pub enter_name: Option<String>,
    pub delete: Option<String>,
    /// Template for the delete confirmation dialog; use `{}` as a placeholder
    /// for the item name (e.g. `"Delete \"{}\"?"`).
    pub delete_confirm: Option<String>,
    pub browse: Option<String>,
    pub all_files: Option<String>,
    pub click_to_input: Option<String>,
    pub press_key: Option<String>,
    pub clear: Option<String>,
    pub show: Option<String>,
    pub hide: Option<String>,
    /// Body text of the external-change conflict dialog.
    pub file_changed: Option<String>,
    /// "Reload" button label in the conflict dialog.
    pub reload: Option<String>,
    /// "Keep Editing" button label in the conflict dialog.
    pub keep_editing: Option<String>,
    /// Window title bar text.
    pub window_title: Option<String>,
}

/// High-level color overrides shared by the light and dark variants. Each field
/// is an optional CSS hex string; `None` falls back to the built-in palette.
#[derive(Debug, Default)]
pub struct ColorOverrides {
    /// Panel and window background color (CSS hex, e.g. `"#ffffff"`).
    pub background_color: Option<String>,
    /// Accent color for the selected tab and interactive highlights (CSS hex).
    pub accent_color: Option<String>,
    /// Primary text color for labels and input text (CSS hex).
    pub text_color: Option<String>,
    /// Color of unselected tab icons and labels (CSS hex).
    pub tab_text_color: Option<String>,
    /// Background fill of the selected-tab highlight (CSS hex).
    /// Defaults to the accent color at reduced opacity when omitted.
    pub selection_bg_color: Option<String>,
}

/// The whole description of a settings window.
#[derive(Debug)]
pub struct Schema {
    /// Reusable named CEL constraints (`[[constraints]]` in TOML).
    pub constraints: Vec<Constraint>,
    pub tabs: Vec<Tab>,
    /// Icon variant to use for Material Symbols ("rounded" | "outlined" | "sharp").
    pub icon_style: Option<String>,
    /// Which color variant to display.
    pub theme: ThemeMode,
    /// UI chrome language.
    pub lang: LangMode,
    /// Dot-separated path to the config key that stores the parent application's
    /// language (e.g. `"display.language"`).
    pub lang_key: Option<String>,
    /// Light-variant color overrides.
    pub colors_light: ColorOverrides,
    /// Dark-variant color overrides, supplied via a `[dark]` table.
    pub colors_dark: ColorOverrides,
    /// Save button visibility / auto-save behavior.
    pub save_button: SaveButtonMode,
    /// Optional overrides for built-in UI chrome strings (`[ui_strings]` table).
    pub ui_strings: UiStrings,
    /// Width of the content area in logical pixels (excludes title bar, tab bar,
    /// and bottom button bar). Defaults to 700 when omitted.
    pub content_width: Option<Float32>,
    /// Height of the content area in logical pixels (excludes title bar, tab bar,
    /// and bottom button bar). Defaults to 370 when omitted.
    pub content_height: Option<Float32>,
    /// Target config schema version. When set, Settings migrates the config file
    /// up to this version at startup (see [`Migration`]). Omit to disable migration.
    pub schema_version: Option<u32>,
    /// Config key that records the applied migration version. Defaults to
    /// `"schema_version"`. Override when the parent app already uses that key.
    pub migration_version_key: Option<String>,
    /// Ordered migration steps (`[[migration]]` in TOML). Applied in ascending
    /// `version` order for versions above the config file's recorded version.
    pub migrations: Vec<Migration>,
}

impl Schema {
    /// Config key used to record the applied migration version.
    /// Falls back to `"schema_version"` when the schema does not override it.
    pub fn version_key(&self) -> (r: &str)
        ensures
            r@ == match self.migration_version_key {
                Some(key) => key@,
                None => "schema_version"@,
            },
    {
        match &self.migration_version_key {
            Some(key) => key.as_str(),
            None => "schema_version",
        }
    }
}

/// One tab of the window.
#[derive(Debug)]
pub struct Tab {
    /// Stable tab identifier.
    pub id: String,
    pub label: LocalizedString,
    /// Material Symbol icon name (e.g. `"settings"`, `"translate"`).
    pub icon: Option<String>,
    /// Per-tab content width override in logical pixels.
    /// Falls back to [`Schema::content_width`] when omitted.
    pub content_width: Option<Float32>,
    /// Per-tab content height override in logical pixels.
    /// Falls back to [`Schema::content_height`] when omitted.
    pub content_height: Option<Float32>,
    /// Flat field list (mutually exclusive with `section_map`).
    pub fields: Option<Vec<Field>>,
    /// Sub-section map (mutually exclusive with `fields`).
    pub section_map: Option<SectionMap>,
}

/// Visual style of the sub-section tab bar inside a `section_map`.
#[derive(Debug, PartialEq, Eq, Structural, Clone)]
pub enum SectionTabStyle {
    /// Underline style: accent-colored thick underline on active tab,
    /// thin grey underline on inactive tabs (default).
    Underline,
    /// Segmented-control style: all tabs rendered as a single pill-based
    /// segmented control (best for a small, fixed number of sections).
    Segmented,
}

impl Default for SectionTabStyle {
    fn default() -> (r: SectionTabStyle)
        ensures
            r == SectionTabStyle::Underline,
    {
        SectionTabStyle::Underline
    }
}

/// A tab whose sub-tabs are the sub-tables of one config table.
#[derive(Debug)]
pub struct SectionMap {
    pub key_prefix: String,
    pub allow_add_remove: bool,
    pub fields: Vec<Field>,
    /// Visual style of the sub-tab bar. Defaults to `"underline"`.
    pub tab_style: SectionTabStyle,
    /// Maximum width of the segmented control (px). Has no effect on underline style.
    pub max_width: Option<Float32>,
}

/// One setting and the widget that edits it.
#[derive(Debug)]
pub struct Field {
    pub key: String,
    pub label: LocalizedString,
    /// Declared TOML value type (`string` by default). Drives read/write for
    /// `segmented_control` (`string` vs `number`).
    pub field_type: FieldType,
    pub widget: WidgetKind,
    /// Generic one-line hint shown below the widget.
    pub hint: Option<LocalizedString>,
    /// Hint shown for the "direct" variant of an exclusive_radio field.
    pub hint_direct: Option<LocalizedString>,
    /// Hint shown for the "env" variant of an exclusive_radio field.
    pub hint_env: Option<LocalizedString>,
    /// Static option list for `select` widgets.
    pub options: Option<Vec<String>>,
    /// Reference to a section_map whose keys become the option list at render time.
    pub options_from: Option<String>,
    /// Inline description placed to the right of the widget.
    pub sublabel: Option<LocalizedString>,
    /// Minimum widget width (logical px). No constraint when omitted.
    pub min_width: Option<Float32>,
    /// Maximum widget width (logical px). Full available width when omitted.
    pub max_width: Option<Float32>,
    /// Number of visible rows for `multiline` widgets. Defaults to 4 when omitted.
    pub rows: Option<usize>,
    /// Minimum numeric value for `slider` and `drag_value` widgets.
    pub min: Option<Float64>,
    /// Maximum numeric value for `slider` and `drag_value` widgets.
    pub max: Option<Float64>,
    /// Step increment for `slider` and `drag_value` widgets. Defaults to 1 when omitted.
    pub step: Option<Float64>,
    /// Suffix string appended to the displayed number (e.g. `" px"`, `" pt"`).
    pub suffix: Option<String>,
    /// Present only when `widget = "exclusive_radio"`.
    pub exclusive: Option<ExclusiveConfig>,
    /// Field validation rules (CEL). Evaluation order follows declaration order.
    pub validate: Vec<ValidateEntry>,
    /// Per-option enablement for `segmented_control` and `select`.
    pub option_states: Vec<OptionState>,
    /// If `true`, the file dialog picks a directory instead of a file.
    pub is_directory: bool,
    /// Filter label shown in the file dialog (e.g. `"TOML files"`).
    pub file_filter: Option<LocalizedString>,
    /// File extensions shown by the filter (e.g. `["toml", "txt"]`).
    pub file_extensions: Option<Vec<String>>,
    /// Header text for the key column. Defaults to `"Key"`.
    pub key_label: Option<LocalizedString>,
    /// Header text for the value column. Defaults to `"Value"`.
    pub value_label: Option<LocalizedString>,
}

/// The widgets that a field can be edited with.
#[derive(Debug, PartialEq, Eq, Structural, Clone)]
pub enum WidgetKind {
    TextInput,
    SecretInput,
    Multiline,
    Checkbox,
    Toggle,
    Select,
    SegmentedControl,
    ExclusiveRadio,
    Hotkey,
    /// Horizontal slider with numeric value display.
    Slider,
    /// Drag-to-change numeric input (click to type directly).
    DragValue,
    /// A full-width horizontal rule. No key, label, or type needed in the schema.
    Separator,
    /// Text input + "Browse" button that opens a native file/directory dialog.
    FilePath,
    /// Color swatch that opens an inline color picker popup. Stored as `"#rrggbb"` in TOML.
    ColorPicker,
    /// Editable table of string key to string value pairs.
    KeyValueMap,
}

/// The name of a widget in a schema file.
pub open spec fn widget_name(widget: WidgetKind) -> Seq<char> {
    match widget {
        WidgetKind::TextInput => "text_input"@,
        WidgetKind::SecretInput => "secret_input"@,
        WidgetKind::Multiline => "multiline"@,
        WidgetKind::Checkbox => "checkbox"@,
        WidgetKind::Toggle => "toggle"@,
        WidgetKind::Select => "select"@,
        WidgetKind::SegmentedControl => "segmented_control"@,
        WidgetKind::ExclusiveRadio => "exclusive_radio"@,
        WidgetKind::Hotkey => "hotkey"@,
        WidgetKind::Slider => "slider"@,
        WidgetKind::DragValue => "drag_value"@,
        WidgetKind::Separator => "separator"@,
        WidgetKind::FilePath => "file_path"@,
        WidgetKind::ColorPicker => "color_picker"@,
        WidgetKind::KeyValueMap => "key_value_map"@,
    }
}

/// The name of a widget in a schema file.
pub fn widget_kind_name(widget: &WidgetKind) -> (r: &'static str)
    ensures
        r@ == widget_name(*widget),
{
    match widget {
        WidgetKind::TextInput => "text_input",
        WidgetKind::SecretInput => "secret_input",
        WidgetKind::Multiline => "multiline",
        WidgetKind::Checkbox => "checkbox",
        WidgetKind::Toggle => "toggle",
        WidgetKind::Select => "select",
        WidgetKind::SegmentedControl => "segmented_control",
        WidgetKind::ExclusiveRadio => "exclusive_radio",
        WidgetKind::Hotkey => "hotkey",
        WidgetKind::Slider => "slider",
        WidgetKind::DragValue => "drag_value",
        WidgetKind::Separator => "separator",
        WidgetKind::FilePath => "file_path",
        WidgetKind::ColorPicker => "color_picker",
        WidgetKind::KeyValueMap => "key_value_map",
    }
}

/// Different kinds of widgets have different names.
pub proof fn widget_names_differ(a: WidgetKind, b: WidgetKind)
    requires
        a != b,
    ensures
        widget_name(a) != widget_name(b),
{
    reveal_strlit("text_input");
    reveal_strlit("secret_input");
    reveal_strlit("multiline");
    reveal_strlit("checkbox");
    reveal_strlit("toggle");
    reveal_strlit("select");
    reveal_strlit("segmented_control");
    reveal_strlit("exclusive_radio");
    reveal_strlit("hotkey");
    reveal_strlit("slider");
    reveal_strlit("drag_value");
    reveal_strlit("separator");
    reveal_strlit("file_path");
    reveal_strlit("color_picker");
    reveal_strlit("key_value_map");
    let x = widget_name(a);
    let y = widget_name(b);
    assert(x.len() != y.len() || x[0] != y[0] || x[1] != y[1]);
}

impl WidgetKind {
    /// Whether single options of the widget can be enabled and disabled.
    pub open spec fn has_option_states(self) -> bool {
        self == WidgetKind::SegmentedControl || self == WidgetKind::Select
    }

    /// Whether `option_states` may be given for the widget.
    pub fn supports_option_states(&self) -> (r: bool)
        ensures
            r == self.has_option_states(),
    {
        matches!(self, WidgetKind::SegmentedControl | WidgetKind::Select)
    }
}

/// The declared type of a field's value.
#[derive(Debug, PartialEq, Eq, Structural, Clone)]
pub enum FieldType {
    String,
    Bool,
    Number,
}

impl Default for FieldType {
    fn default() -> (r: FieldType)
        ensures
            r == FieldType::String,
    {
        FieldType::String
    }
}

/// Configuration of an `exclusive_radio` field.
#[derive(Debug, Clone)]
pub struct ExclusiveConfig {
    pub mode_key: String,
    pub mode_default: String,
    pub variants: Vec<ExclusiveVariant>,
}

/// One choice of an `exclusive_radio` field.
#[derive(Debug, Clone)]
pub struct ExclusiveVariant {
    pub value: String,
    pub label: LocalizedString,
    pub field_key: String,
    pub widget: WidgetKind,
}

/// Segmented controls and selects have options that can be enabled one by one, and no
/// other widget has.
pub proof fn two_widgets_have_option_states(widget: WidgetKind)
    ensures
        widget.has_option_states() <==> widget == WidgetKind::SegmentedControl || widget
            == WidgetKind::Select,
{
}

} // verus!
