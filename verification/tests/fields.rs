use settings::codepoints::{parse_codepoints, IconMap};
use settings::color::{color_edit, hex_is_readable, hex_to_rgb, rgb_to_hex, shown_color};
use settings::edits::{numeric_edit, text_edit, ConfigEdit, NumberRepr};
use settings::exclusive::field_hint;
use settings::fonts::{
    add_cjk_face, bold_family, cjk_bold_font_candidates, cjk_font_candidates,
    cjk_y_offset_for_en_or_ja, is_japanese, latin_bold_font_candidates,
};
use settings::lang::{set_active_lang_code, ActiveLang, LangMode, LocalizedString};
use settings::model::{
    ColorOverrides, ExclusiveConfig, ExclusiveVariant, Field, FieldType, Float32, Float64,
    SaveButtonMode, Schema, Tab, ThemeMode, UiStrings, WidgetKind,
};
use settings::segments::{
    chosen_segment, current_number, part_numeric_options, segmented_control_options, select_edit,
    NumericOption, SegmentedSegments, SegmentedWrite,
};
use settings::session::Session;
use settings::widgets::{label_anchor, tab_icon, LabelAnchor};
use settings::window::{
    apply_enabled, auto_save_due, bar_frame, bottom_bar_height, compute_window_size,
    opening_tab_bar_height,
    draws_icon_tabs, ok_enabled,
    saves_automatically, shows_save_button, tab_bar_height, BarStep, Platform, WindowParts,
};

fn s(text: &str) -> String {
    text.to_owned()
}

fn list(items: &[&str]) -> Vec<String> {
    items.iter().map(|i| s(i)).collect()
}

fn f32_of(value: f32) -> Float32 {
    Float32 { bits: value.to_bits() }
}

fn f64_of(value: f64) -> Float64 {
    Float64 { bits: value.to_bits() }
}

fn plain(text: &str) -> LocalizedString {
    LocalizedString::from_plain(s(text))
}

fn field(widget: WidgetKind) -> Field {
    Field {
        key: s("k"),
        label: plain("K"),
        field_type: FieldType::default(),
        widget,
        hint: None,
        hint_direct: None,
        hint_env: None,
        options: None,
        options_from: None,
        sublabel: None,
        min_width: None,
        max_width: None,
        rows: None,
        min: None,
        max: None,
        step: None,
        suffix: None,
        exclusive: None,
        validate: Vec::new(),
        option_states: Vec::new(),
        is_directory: false,
        file_filter: None,
        file_extensions: None,
        key_label: None,
        value_label: None,
    }
}

fn tab(icon: Option<&str>) -> Tab {
    Tab {
        id: s("t"),
        label: plain("T"),
        icon: icon.map(s),
        content_width: None,
        content_height: None,
        fields: None,
        section_map: None,
    }
}

fn schema(tabs: Vec<Tab>, save_button: SaveButtonMode) -> Schema {
    Schema {
        constraints: Vec::new(),
        tabs,
        icon_style: None,
        theme: ThemeMode::default(),
        lang: LangMode::default(),
        lang_key: None,
        colors_light: ColorOverrides::default(),
        colors_dark: ColorOverrides::default(),
        save_button,
        ui_strings: UiStrings::default(),
        content_width: None,
        content_height: None,
        schema_version: None,
        migration_version_key: None,
        migrations: Vec::new(),
    }
}

#[test]
fn colors_are_read() {
    assert_eq!(hex_to_rgb("#ff8000"), Some([255, 128, 0]));
    assert_eq!(hex_to_rgb("FF80aB"), Some([255, 128, 171]));
    assert_eq!(hex_to_rgb("#+f0102"), Some([15, 1, 2]));
    assert_eq!(hex_to_rgb("##ff800"), None);
    assert_eq!(hex_to_rgb("#ff800"), None);
    assert_eq!(hex_to_rgb("#ff80000"), None);
    assert_eq!(hex_to_rgb("#ff80g0"), None);
    assert_eq!(hex_to_rgb("#-f8000"), None);
    assert_eq!(hex_to_rgb("#é1234"), None);
    assert_eq!(hex_to_rgb(""), None);
}

#[test]
fn some_texts_cannot_be_cut() {
    assert!(hex_is_readable("#ff8000"));
    assert!(hex_is_readable("日本語のテキスト"));
    assert!(hex_is_readable("é1234"));
    assert!(!hex_is_readable("aé123"));
    assert!(!hex_is_readable("#日本"));
    assert!(!hex_is_readable("#0fa\u{e9}1"));
    assert!(hex_is_readable("zza\u{e9}1"));
}

#[test]
fn colors_are_written() {
    assert_eq!(rgb_to_hex([255, 10, 0]), "#ff0a00");
    for c in 0..=255u8 {
        let rgb = [c, 255 - c, c / 2];
        assert_eq!(hex_to_rgb(&rgb_to_hex(rgb)), Some(rgb));
    }
    assert_eq!(rgb_to_hex(hex_to_rgb("#0a1b2c").unwrap()), "#0a1b2c");
    assert_eq!(shown_color(None), [0, 0, 0]);
    assert_eq!(shown_color(Some("red")), [0, 0, 0]);
    assert_eq!(shown_color(Some("#010203")), [1, 2, 3]);
    assert_eq!(
        color_edit("c", Some([1, 2, 3])),
        Some(ConfigEdit::SetStr { path: s("c"), value: s("#010203") })
    );
    assert_eq!(color_edit("c", None), None);
}

#[test]
fn codepoints_are_read_line_by_line() {
    let src = "settings e8b8\r\ntranslate\tE8E2 more words\n\nbad zz\nalone\n big 110000\nsur d800\nover 100000000\nplus +41\nzero 0000000000000042\nsettings 43";
    let map = parse_codepoints(src);
    assert_eq!(map.get("settings"), Some('C'));
    assert_eq!(map.get("translate"), Some('\u{e8e2}'));
    assert_eq!(map.get("plus"), Some('A'));
    assert_eq!(map.get("zero"), Some('B'));
    for missing in ["bad", "alone", "big", "sur", "over", "more", ""] {
        assert_eq!(map.get(missing), None);
    }
    assert!(!map.is_empty() && IconMap::empty().is_empty());
    assert!(parse_codepoints("").is_empty());
    assert!(parse_codepoints("a +").is_empty());
    assert_eq!(parse_codepoints("a 10ffff").get("a"), Some('\u{10ffff}'));
}

#[test]
fn icons_of_tabs() {
    let icons = parse_codepoints("settings e8b8");
    assert_eq!(tab_icon(&tab(Some("settings")), &icons), Some('\u{e8b8}'));
    assert_eq!(tab_icon(&tab(Some("other")), &icons), None);
    assert_eq!(tab_icon(&tab(None), &icons), None);
}

#[test]
fn fonts_per_platform() {
    assert_eq!(cjk_font_candidates(Platform::Windows)[0], "C:\\Windows\\Fonts\\meiryo.ttc");
    assert_eq!(
        cjk_font_candidates(Platform::MacOs)[0],
        "/System/Library/Fonts/ヒラギノ角ゴシック W3.ttc"
    );
    assert_eq!(cjk_font_candidates(Platform::Linux).len(), 3);
    assert_eq!(cjk_font_candidates(Platform::Other), cjk_font_candidates(Platform::Linux));
    assert_eq!(cjk_bold_font_candidates(Platform::Linux).len(), 2);
    assert_eq!(cjk_bold_font_candidates(Platform::MacOs).len(), 1);
    assert_eq!(
        latin_bold_font_candidates(Platform::MacOs)[0],
        ("/System/Library/Fonts/Helvetica.ttc", 1)
    );
    assert_eq!(latin_bold_font_candidates(Platform::Windows)[1].1, 0);
}

#[test]
fn cjk_faces_are_shifted() {
    assert_eq!(cjk_y_offset_for_en_or_ja(Platform::Linux, "ja"), 0);
    assert_eq!(cjk_y_offset_for_en_or_ja(Platform::Linux, "en"), 0);
    assert_eq!(cjk_y_offset_for_en_or_ja(Platform::MacOs, "ja"), 2);
    assert_eq!(cjk_y_offset_for_en_or_ja(Platform::Windows, "ja"), 2);
    assert_eq!(cjk_y_offset_for_en_or_ja(Platform::Windows, "en"), 1);
    assert_eq!(cjk_y_offset_for_en_or_ja(Platform::MacOs, "en"), 3);
    assert!(is_japanese("ja") && !is_japanese("en"));
}

#[test]
fn faces_in_their_order() {
    assert_eq!(add_cjk_face(list(&["a", "b"]), false), list(&["a", "b", "cjk"]));
    assert_eq!(add_cjk_face(list(&["a", "cjk", "b"]), true), list(&["cjk", "a", "b"]));
    assert_eq!(bold_family(true, true, true, true), list(&["cjk_bold", "Ubuntu-Light"]));
    assert_eq!(
        bold_family(false, true, true, false),
        list(&["latin_bold", "cjk", "Ubuntu-Light"])
    );
    assert_eq!(bold_family(false, false, false, false), list(&["Ubuntu-Light"]));
}

#[test]
fn options_come_from_a_list_or_a_section() {
    let keys = list(&["home", "work"]);
    let mut choice = field(WidgetKind::Select);
    assert!(choice.select_options(keys.clone()).is_empty());
    choice.options_from = Some(s("profiles"));
    assert_eq!(choice.select_options(keys.clone()), keys);
    assert_eq!(segmented_control_options(&choice, keys.clone()), keys);
    choice.field_type = FieldType::Number;
    assert!(segmented_control_options(&choice, keys.clone()).is_empty());
    assert_eq!(choice.select_options(keys.clone()), keys);
    choice.options = Some(list(&["1"]));
    assert_eq!(segmented_control_options(&choice, keys.clone()), list(&["1"]));
    assert_eq!(choice.select_options(keys), list(&["1"]));
}

#[test]
fn numeric_options_are_parted() {
    let options = list(&["1", "x", "2.5"]);
    let numbers = vec![Some(f64_of(1.0)), None, Some(f64_of(2.5))];
    let (parsed, invalid) = part_numeric_options(&options, &numbers);
    assert_eq!(invalid, list(&["x"]));
    assert_eq!(parsed.len(), 2);
    assert_eq!((parsed[1].label.as_str(), parsed[1].value), ("2.5", f64_of(2.5)));
    assert_eq!(NumberRepr::from_options(&options), NumberRepr::Float);
    assert_eq!(NumberRepr::from_options(&list(&["1", "-2"])), NumberRepr::Integer);
    assert_eq!(current_number(Some(f64_of(9.0)), Some(f64_of(1.0)), &parsed), f64_of(9.0));
    assert_eq!(current_number(None, Some(f64_of(3.0)), &parsed), f64_of(3.0));
    assert_eq!(current_number(None, None, &parsed), f64_of(1.0));
    assert_eq!(current_number(None, None, &Vec::new()), f64_of(0.0));
}

#[test]
fn segments_store_texts_or_numbers() {
    let texts = SegmentedSegments::of_texts(list(&["a", "b"]), "b");
    assert_eq!(texts.selected, vec![false, true]);
    assert_eq!(texts.choice("k", 0), ConfigEdit::SetStr { path: s("k"), value: s("a") });
    let options = vec![
        NumericOption { label: s("1"), value: f64_of(1.0) },
        NumericOption { label: s("2"), value: f64_of(2.0) },
    ];
    let numbers = SegmentedSegments::of_numbers(&options, vec![true, false], NumberRepr::Integer);
    assert_eq!(numbers.labels, list(&["1", "2"]));
    assert_eq!(
        numbers.on_select[0],
        SegmentedWrite::Number { value: f64_of(1.0), repr: NumberRepr::Integer }
    );
    assert_eq!(
        numbers.choice("k", 1),
        ConfigEdit::SetNumber { path: s("k"), value: f64_of(2.0), repr: NumberRepr::Integer }
    );
    assert_eq!(chosen_segment(&vec![true, true, false], &vec![true, false, true]), Some(0));
    assert_eq!(chosen_segment(&vec![false], &vec![true]), None);
    assert_eq!(select_edit("k", "a", "a"), None);
    assert_eq!(
        select_edit("k", "a", "b"),
        Some(ConfigEdit::SetStr { path: s("k"), value: s("b") })
    );
}

fn exclusive() -> ExclusiveConfig {
    let variant = |value: &str, key: &str, widget: WidgetKind| ExclusiveVariant {
        value: s(value),
        label: plain(value),
        field_key: s(key),
        widget,
    };
    ExclusiveConfig {
        mode_key: s("key_mode"),
        mode_default: s("direct"),
        variants: vec![
            variant("direct", "api_key", WidgetKind::SecretInput),
            variant("env", "api_key_env", WidgetKind::TextInput),
        ],
    }
}

#[test]
fn modes_change_with_their_values() {
    let config = exclusive();
    assert_eq!(config.mode_path("llm.key"), "llm.key_mode");
    assert_eq!(config.mode_path("key"), "key.key_mode");
    assert_eq!(config.current_mode(None), "direct");
    assert_eq!(config.current_mode(Some("env")), "env");
    assert_eq!(config.chosen_mode("direct", &vec![false, false]), "direct");
    assert_eq!(config.chosen_mode("direct", &vec![true, true]), "env");
    assert_eq!(config.chosen_mode("env", &vec![true]), "direct");
    assert_eq!(config.chosen_mode("env", &Vec::new()), "env");
    assert!(config.is_next_marked("direct", &Vec::new()));
    assert!(!config.is_next_marked("direct", &vec![false]));
    assert!(config.is_next_marked("env", &vec![false]));
    assert!(!config.is_next_marked("env", &vec![true]));
    let shown = config.variant_of("direct").unwrap();
    assert!(shown.is_secret());
    assert_eq!(shown.path("llm.key"), "llm.api_key");
    assert!(config.variant_of("other").is_none());
    assert_eq!(
        config.mode_change("llm.key", "direct", "env"),
        vec![
            ConfigEdit::Remove { path: s("llm.api_key") },
            ConfigEdit::SetStr { path: s("llm.key_mode"), value: s("env") },
        ]
    );
    assert!(config.mode_change("llm.key", "env", "env").is_empty());
}

#[test]
fn hints_follow_the_mode() {
    let lang = ActiveLang::new();
    let mut radio = field(WidgetKind::ExclusiveRadio);
    assert_eq!(field_hint(&radio, Some("env"), &lang), None);
    radio.exclusive = Some(exclusive());
    radio.hint_direct = Some(plain("type it"));
    radio.hint_env = Some(plain("name it"));
    assert_eq!(field_hint(&radio, None, &lang), Some("type it"));
    assert_eq!(field_hint(&radio, Some("env"), &lang), Some("name it"));
    assert_eq!(field_hint(&radio, Some("other"), &lang), None);
    radio.widget = WidgetKind::TextInput;
    assert_eq!(field_hint(&radio, None, &lang), None);
    radio.hint = Some(plain("always"));
    assert_eq!(field_hint(&radio, Some("env"), &lang), Some("always"));
}

#[test]
fn file_dialogs_and_their_filters() {
    let lang = ActiveLang::new();
    let mut path = field(WidgetKind::FilePath);
    assert!(path.dialog_filters(Platform::Linux, &lang, "All").is_empty());
    path.file_filter = Some(plain("TOML"));
    assert!(path.dialog_filters(Platform::Linux, &lang, "All").is_empty());
    path.file_extensions = Some(list(&["toml", "txt"]));
    let filters = path.dialog_filters(Platform::Linux, &lang, "All");
    assert_eq!(filters.len(), 2);
    assert_eq!((filters[0].name.as_str(), filters[0].extensions.len()), ("TOML", 2));
    assert_eq!((filters[1].name.as_str(), filters[1].extensions[0].as_str()), ("All", "*"));
    assert!(path.dialog_filters(Platform::MacOs, &lang, "All").is_empty());
    path.is_directory = true;
    assert!(path.dialog_filters(Platform::Linux, &lang, "All").is_empty());
}

#[test]
fn numbers_and_rows_have_defaults() {
    let mut number = field(WidgetKind::Slider);
    let settings = number.numeric_settings(None);
    assert_eq!(settings.min, f64_of(0.0));
    assert_eq!(settings.max, f64_of(100.0));
    assert_eq!(settings.step, f64_of(1.0));
    assert_eq!(settings.value, f64_of(0.0));
    number.min = Some(f64_of(5.0));
    assert_eq!(number.numeric_settings(None).value, f64_of(5.0));
    assert_eq!(number.numeric_settings(Some(f64_of(7.0))).value, f64_of(7.0));
    assert_eq!(number.visible_rows(), 4);
    number.rows = Some(9);
    assert_eq!(number.visible_rows(), 9);
}

#[test]
fn columns_and_labels() {
    let mut german = ActiveLang::new();
    set_active_lang_code(&mut german, s("de"));
    let mut map = field(WidgetKind::KeyValueMap);
    assert_eq!(map.key_column_label(&german), "Key");
    assert_eq!(map.value_column_label(&german), "Value");
    map.key_label = Some(LocalizedString::from_variants(vec![(s("de"), s("Name"))]));
    map.value_label = Some(plain("Wert"));
    assert_eq!(map.key_column_label(&german), "Name");
    assert_eq!(map.value_column_label(&german), "Wert");
    assert_eq!(label_anchor(&WidgetKind::Multiline), LabelAnchor::FirstLine);
    assert_eq!(label_anchor(&WidgetKind::ExclusiveRadio), LabelAnchor::FirstLine);
    assert_eq!(label_anchor(&WidgetKind::TextInput), LabelAnchor::Center);
}

#[test]
fn inputs_are_stored_when_they_change() {
    assert_eq!(
        text_edit("a.b", Some(s("new"))),
        Some(ConfigEdit::SetStr { path: s("a.b"), value: s("new") })
    );
    assert_eq!(text_edit("a.b", None), None);
    let half = Float64 { bits: 0.5f64.to_bits() };
    assert_eq!(
        numeric_edit("n", Some(half), NumberRepr::Float),
        Some(ConfigEdit::SetNumber { path: s("n"), value: half, repr: NumberRepr::Float })
    );
    assert_eq!(numeric_edit("n", None, NumberRepr::Integer), None);
}

#[test]
fn bars_around_the_content() {
    let none = vec![tab(None)];
    let texts = vec![tab(None), tab(None)];
    let icons = vec![tab(None), tab(Some("x"))];
    assert_eq!(tab_bar_height(&Vec::new(), true), 0);
    assert_eq!(tab_bar_height(&none, true), 0);
    assert_eq!(tab_bar_height(&texts, true), 40);
    assert_eq!(tab_bar_height(&icons, true), 64);
    assert_eq!(tab_bar_height(&icons, false), 40);
    assert_eq!(opening_tab_bar_height(&Vec::new(), true), 0);
    assert_eq!(opening_tab_bar_height(&none, true), 40);
    assert_eq!(opening_tab_bar_height(&texts, true), 40);
    assert_eq!(opening_tab_bar_height(&icons, true), 64);
    assert_eq!(opening_tab_bar_height(&icons, false), 40);
    assert!(draws_icon_tabs(&icons, true) && !draws_icon_tabs(&texts, true));
    assert_eq!(bottom_bar_height(SaveButtonMode::Show, Platform::MacOs), 40);
    assert_eq!(bottom_bar_height(SaveButtonMode::Hide, Platform::Linux), 0);
    assert_eq!(bottom_bar_height(SaveButtonMode::Os, Platform::MacOs), 0);
    assert_eq!(bottom_bar_height(SaveButtonMode::Os, Platform::Windows), 40);
    assert!(shows_save_button(SaveButtonMode::Os, Platform::Linux));
    assert!(saves_automatically(SaveButtonMode::Os, Platform::MacOs));
}

#[test]
fn windows_fit_their_tabs() {
    let mut wide = tab(Some("x"));
    wide.content_width = Some(f32_of(900.0));
    let mut sized = schema(vec![tab(None), wide], SaveButtonMode::Show);
    assert_eq!(
        compute_window_size(&sized, true, Platform::Linux),
        WindowParts {
            content_width: f32_of(700.0),
            content_height: f32_of(370.0),
            tab_bar_height: 64,
            bottom_bar_height: 40,
        }
    );
    sized.content_height = Some(f32_of(500.0));
    let mut session = Session::new();
    let opened = session.resize_frame(&sized, false, Platform::Linux).unwrap();
    assert_eq!(opened.content_width, f32_of(700.0));
    assert_eq!(opened.content_height, f32_of(500.0));
    assert_eq!(session.resize_frame(&sized, false, Platform::Linux), None);
    session.tabs_frame(&vec![false, true]);
    let resized = session.resize_frame(&sized, false, Platform::Linux).unwrap();
    assert_eq!(resized.content_width, f32_of(900.0));
    assert_eq!(resized.tab_bar_height, 40);
}

#[test]
fn a_window_with_a_single_tab_opens_with_room_for_its_bar() {
    let single = schema(vec![tab(None)], SaveButtonMode::Hide);
    let parts = compute_window_size(&single, true, Platform::Linux);
    assert_eq!(
        parts,
        WindowParts {
            content_width: f32_of(700.0),
            content_height: f32_of(370.0),
            tab_bar_height: 40,
            bottom_bar_height: 0,
        }
    );
    let height = parts.tab_bar_height as f32 + f32::from_bits(parts.content_height.bits);
    assert_eq!([f32::from_bits(parts.content_width.bits), height], [700.0, 410.0]);
    let empty = schema(Vec::new(), SaveButtonMode::Show);
    let parts = compute_window_size(&empty, true, Platform::Linux);
    assert_eq!((parts.tab_bar_height, parts.bottom_bar_height), (0, 40));
    let shown = single.tab_window_parts(0, true, Platform::Linux);
    assert_eq!(shown.tab_bar_height, 0);
}

#[test]
fn fields_scroll_within_the_content_height() {
    let mut own = tab(None);
    own.content_height = Some(f32_of(200.0));
    let mut sized = schema(vec![tab(None), own], SaveButtonMode::Show);
    assert_eq!(sized.tab_scroll_height(0), f32_of(440.0));
    assert_eq!(sized.tab_scroll_height(1), f32_of(200.0));
    sized.content_height = Some(f32_of(300.0));
    assert_eq!(sized.tab_scroll_height(0), f32_of(300.0));
    assert_eq!(sized.tab_scroll_height(1), f32_of(200.0));
}

#[test]
fn buttons_save_what_is_valid() {
    assert_eq!(bar_frame(true, true, true, false, false), vec![BarStep::Save]);
    assert_eq!(bar_frame(true, false, true, false, true), vec![]);
    assert_eq!(bar_frame(false, true, true, false, false), vec![]);
    assert_eq!(bar_frame(true, true, false, false, true), vec![BarStep::Save, BarStep::Close]);
    assert_eq!(bar_frame(false, true, false, false, true), vec![BarStep::Close]);
    assert_eq!(bar_frame(true, false, false, true, false), vec![BarStep::Close]);
    assert!(apply_enabled(true, true) && !apply_enabled(true, false) && !apply_enabled(false, true));
    assert!(ok_enabled(true) && !ok_enabled(false));
    assert!(auto_save_due(SaveButtonMode::Hide, Platform::Linux, true, true));
    assert!(!auto_save_due(SaveButtonMode::Hide, Platform::Linux, true, false));
    assert!(!auto_save_due(SaveButtonMode::Show, Platform::Linux, true, true));
}
