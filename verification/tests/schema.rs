use settings::errors::SchemaValidationError;
use settings::lang::{LangMode, LocalizedString};
use settings::model::{
    ColorOverrides, Constraint, Delete, Field, FieldType, InlineValidate, Migration, OptionState,
    Rename, SaveButtonMode, Schema, SectionMap, SectionTabStyle, Tab, ThemeMode, Transform,
    TransformKind, UiStrings, ValidateEntry, ValidateValue, WidgetKind,
};
use toml::{Table, Value};

fn text(table: &Table, key: &str) -> Option<String> {
    table.get(key).and_then(Value::as_str).map(str::to_owned)
}

fn tables(table: &Table, key: &str) -> Vec<Table> {
    match table.get(key).and_then(Value::as_array) {
        Some(items) => items.iter().map(|v| v.as_table().unwrap().clone()).collect(),
        None => Vec::new(),
    }
}

fn localized(value: &Value) -> LocalizedString {
    match value {
        Value::String(s) => LocalizedString::from_plain(s.clone()),
        other => LocalizedString::from_variants(
            other
                .as_table()
                .unwrap()
                .iter()
                .map(|(k, v)| (k.clone(), v.as_str().unwrap().to_owned()))
                .collect(),
        ),
    }
}

fn validate_entry(value: &Value) -> ValidateEntry {
    match value {
        Value::String(id) => ValidateEntry::Ref(id.clone()),
        other => {
            let table = other.as_table().unwrap();
            ValidateEntry::Inline(InlineValidate {
                expr: text(table, "expr").unwrap(),
                message: localized(&table["message"]),
            })
        }
    }
}

fn validate_entries(value: Option<&Value>) -> Vec<ValidateEntry> {
    match value {
        None => Vec::new(),
        Some(Value::Array(items)) => {
            ValidateValue::Many(items.iter().map(validate_entry).collect()).into_entries()
        }
        Some(one) => ValidateValue::One(validate_entry(one)).into_entries(),
    }
}

fn field(table: &Table) -> Field {
    Field {
        key: text(table, "key").unwrap(),
        label: localized(&table["label"]),
        field_type: match text(table, "type").as_deref() {
            None | Some("string") => FieldType::String,
            Some("bool") => FieldType::Bool,
            Some("number") => FieldType::Number,
            Some(other) => panic!("type {other}"),
        },
        widget: match text(table, "widget").unwrap().as_str() {
            "text_input" => WidgetKind::TextInput,
            "select" => WidgetKind::Select,
            "segmented_control" => WidgetKind::SegmentedControl,
            other => panic!("widget {other}"),
        },
        hint: None,
        hint_direct: None,
        hint_env: None,
        options: table.get("options").map(|options| {
            let items = options.as_array().unwrap();
            items.iter().map(|o| o.as_str().unwrap().to_owned()).collect()
        }),
        options_from: text(table, "options_from"),
        sublabel: None,
        min_width: None,
        max_width: None,
        rows: None,
        min: None,
        max: None,
        step: None,
        suffix: None,
        exclusive: None,
        validate: validate_entries(table.get("validate")),
        option_states: tables(table, "option_states")
            .iter()
            .map(|state| OptionState {
                value: text(state, "value").unwrap(),
                when: text(state, "when"),
                enabled: text(state, "enabled"),
            })
            .collect(),
        is_directory: false,
        file_filter: None,
        file_extensions: None,
        key_label: None,
        value_label: None,
    }
}

fn tab(table: &Table) -> Tab {
    Tab {
        id: text(table, "id").unwrap(),
        label: localized(&table["label"]),
        icon: text(table, "icon"),
        content_width: None,
        content_height: None,
        fields: table.get("fields").map(|_| tables(table, "fields").iter().map(field).collect()),
        section_map: table.get("section_map").map(|map| {
            let map = map.as_table().unwrap();
            SectionMap {
                key_prefix: text(map, "key_prefix").unwrap(),
                allow_add_remove: map["allow_add_remove"].as_bool().unwrap(),
                fields: tables(map, "fields").iter().map(field).collect(),
                tab_style: SectionTabStyle::default(),
                max_width: None,
            }
        }),
    }
}

fn migration(table: &Table) -> Migration {
    Migration {
        version: table["version"].as_integer().unwrap() as u32,
        rename: tables(table, "rename")
            .iter()
            .map(|r| Rename { from: text(r, "from").unwrap(), to: text(r, "to").unwrap() })
            .collect(),
        delete: tables(table, "delete")
            .iter()
            .map(|d| Delete { key: text(d, "key").unwrap() })
            .collect(),
        transform: tables(table, "transform")
            .iter()
            .map(|t| Transform {
                from: text(t, "from").unwrap(),
                to: text(t, "to").unwrap(),
                kind: match text(t, "type").unwrap().as_str() {
                    "rename" => TransformKind::Rename,
                    "enum_to_bool" => TransformKind::EnumToBool,
                    other => panic!("kind {other}"),
                },
                match_value: text(t, "match"),
            })
            .collect(),
    }
}

fn parse(src: &str) -> Schema {
    let table = src.parse::<Table>().expect("TOML parse");
    Schema {
        constraints: tables(&table, "constraints")
            .iter()
            .map(|c| Constraint {
                id: text(c, "id").unwrap(),
                expr: text(c, "expr").unwrap(),
                message: c.get("message").map(localized),
            })
            .collect(),
        tabs: tables(&table, "tabs").iter().map(tab).collect(),
        icon_style: None,
        theme: ThemeMode::default(),
        lang: LangMode::default(),
        lang_key: None,
        colors_light: ColorOverrides::default(),
        colors_dark: ColorOverrides::default(),
        save_button: SaveButtonMode::default(),
        ui_strings: UiStrings::default(),
        content_width: None,
        content_height: None,
        schema_version: table.get("schema_version").map(|v| v.as_integer().unwrap() as u32),
        migration_version_key: text(&table, "migration_version_key"),
        migrations: tables(&table, "migration").iter().map(migration).collect(),
    }
}

fn parse_and_validate(src: &str) -> Result<Schema, Vec<SchemaValidationError>> {
    let schema = parse(src);
    schema.validate().map(|()| schema)
}

#[test]
fn parse_validate_single_ref() {
    let src = r#"
[[constraints]]
id = "non_empty"
expr = "x.size() > 0"
message = "Required"

[[tabs]]
id = "main"
label = "Main"

[[tabs.fields]]
key = "x"
label = "X"
widget = "text_input"
validate = "non_empty"
"#;
    let schema = parse(src);
    assert_eq!(schema.constraints.len(), 1);
    assert_eq!(schema.tabs[0].fields.as_ref().unwrap()[0].validate.len(), 1);
    assert!(matches!(
        schema.tabs[0].fields.as_ref().unwrap()[0].validate[0],
        ValidateEntry::Ref(ref id) if id == "non_empty"
    ));
    schema.validate().unwrap();
}

#[test]
fn parse_validate_inline_array() {
    let src = r#"
[[tabs]]
id = "main"
label = "Main"

[[tabs.fields]]
key = "email"
label = "Email"
widget = "text_input"
validate = [
  "fmt",
  { expr = "email.size() > 0", message = "Required" },
]
[[constraints]]
id = "fmt"
expr = "true"
message = "bad format"
"#;
    let schema = parse(src);
    let field = &schema.tabs[0].fields.as_ref().unwrap()[0];
    assert_eq!(
        field.validate.len(),
        2,
        "validate entries: {:?}",
        field.validate
    );
    schema.validate().unwrap();
    let rules = field.resolved_validate_rules(&schema).unwrap();
    assert_eq!(rules.len(), 2);
}

#[test]
fn parse_validate_subtable_form() {
    let src = r#"
[[tabs]]
id = "main"
label = "Main"

[[tabs.fields]]
key = "name"
label = "Name"
widget = "text_input"

[[tabs.fields.validate]]
expr = "name.size() > 0"
message = "Required"
"#;
    let schema = parse(src);
    assert!(matches!(
        schema.tabs[0].fields.as_ref().unwrap()[0].validate[0],
        ValidateEntry::Inline(_)
    ));
    schema.validate().unwrap();
}

#[test]
fn parse_option_states_when() {
    let src = r#"
[[constraints]]
id = "min_one"
expr = "a + b >= 1"

[[tabs]]
id = "main"
label = "Main"

[[tabs.fields]]
key = "a"
label = "A"
type = "number"
widget = "segmented_control"
options = ["0", "1"]

[[tabs.fields.option_states]]
value = "0"
when = "min_one"

[[tabs.fields]]
key = "b"
label = "B"
type = "number"
widget = "segmented_control"
options = ["0", "1"]

[[tabs.fields.option_states]]
value = "0"
when = "min_one"
"#;
    parse_and_validate(src).unwrap();
}

#[test]
fn error_duplicate_constraint_id() {
    let src = r#"
[[constraints]]
id = "dup"
expr = "true"
message = "a"

[[constraints]]
id = "dup"
expr = "false"
message = "b"

[[tabs]]
id = "main"
label = "Main"
"#;
    let errs = parse(src).validate().unwrap_err();
    assert!(errs.iter().any(|e| matches!(e, SchemaValidationError::DuplicateConstraintId { id } if id == "dup")));
}

#[test]
fn error_unknown_validate_ref() {
    let src = r#"
[[tabs]]
id = "main"
label = "Main"

[[tabs.fields]]
key = "x"
label = "X"
widget = "text_input"
validate = "missing"
"#;
    let errs = parse(src).validate().unwrap_err();
    assert!(errs.iter().any(|e| matches!(
        e,
        SchemaValidationError::UnknownConstraintRef { id, .. } if id == "missing"
    )));
}

#[test]
fn error_missing_constraint_message() {
    let src = r#"
[[constraints]]
id = "no_msg"
expr = "true"

[[tabs]]
id = "main"
label = "Main"

[[tabs.fields]]
key = "x"
label = "X"
widget = "text_input"
validate = "no_msg"
"#;
    let errs = parse(src).validate().unwrap_err();
    assert!(errs.iter().any(|e| matches!(
        e,
        SchemaValidationError::MissingConstraintMessage { id, .. } if id == "no_msg"
    )));
}

#[test]
fn error_option_states_on_text_input() {
    let src = r#"
[[tabs]]
id = "main"
label = "Main"

[[tabs.fields]]
key = "host"
label = "Host"
widget = "text_input"

[[tabs.fields.option_states]]
value = "0"
when = "x"
"#;
    let errs = parse(src).validate().unwrap_err();
    assert!(errs.iter().any(|e| matches!(
        e,
        SchemaValidationError::OptionStatesUnsupportedWidget { widget, .. } if widget == "text_input"
    )));
}

#[test]
fn error_option_state_conflict() {
    let src = r#"
[[constraints]]
id = "c"
expr = "true"

[[tabs]]
id = "main"
label = "Main"

[[tabs.fields]]
key = "mode"
label = "Mode"
widget = "select"
options = ["a", "b"]

[[tabs.fields.option_states]]
value = "a"
when = "c"
enabled = "true"
"#;
    let errs = parse(src).validate().unwrap_err();
    assert!(errs.iter().any(|e| matches!(
        e,
        SchemaValidationError::OptionStateConflict { value, .. } if value == "a"
    )));
}

#[test]
fn error_option_state_missing_rule() {
    let src = r#"
[[tabs]]
id = "main"
label = "Main"

[[tabs.fields]]
key = "mode"
label = "Mode"
widget = "select"
options = ["a"]

[[tabs.fields.option_states]]
value = "a"
"#;
    let errs = parse(src).validate().unwrap_err();
    assert!(errs.iter().any(|e| matches!(
        e,
        SchemaValidationError::OptionStateMissingRule { value, .. } if value == "a"
    )));
}

#[test]
fn error_duplicate_option_state_value() {
    let src = r#"
[[constraints]]
id = "c"
expr = "true"

[[tabs]]
id = "main"
label = "Main"

[[tabs.fields]]
key = "n"
label = "N"
widget = "segmented_control"
options = ["0", "1"]

[[tabs.fields.option_states]]
value = "0"
when = "c"

[[tabs.fields.option_states]]
value = "0"
enabled = "true"
"#;
    let errs = parse(src).validate().unwrap_err();
    assert!(errs.iter().any(|e| matches!(
        e,
        SchemaValidationError::DuplicateOptionStateValue { value, .. } if value == "0"
    )));
}

#[test]
fn error_unknown_option_value() {
    let src = r#"
[[constraints]]
id = "c"
expr = "true"

[[tabs]]
id = "main"
label = "Main"

[[tabs.fields]]
key = "n"
label = "N"
widget = "segmented_control"
options = ["1", "2"]

[[tabs.fields.option_states]]
value = "0"
when = "c"
"#;
    let errs = parse(src).validate().unwrap_err();
    assert!(errs.iter().any(|e| matches!(
        e,
        SchemaValidationError::UnknownOptionValue { value, .. } if value == "0"
    )));
}

#[test]
fn validate_section_map_field() {
    let src = r#"
[[constraints]]
id = "c"
expr = "true"
message = "nope"

[[tabs]]
id = "main"
label = "Main"

[tabs.section_map]
key_prefix = "profiles"
allow_add_remove = false

[[tabs.section_map.fields]]
key = "name"
label = "Name"
widget = "text_input"
validate = "c"
"#;
    parse_and_validate(src).unwrap();
}

#[test]
fn parse_migration_block() {
    let src = r#"
schema_version = 2

[[migration]]
version = 2

  [[migration.rename]]
  from = "display.font_size"
  to   = "general.font_size"

  [[migration.delete]]
  key = "display.tick_rate"

  [[migration.transform]]
  from  = "mode"
  to    = "vivarium.enabled"
  type  = "enum_to_bool"
  match = "vivarium"

[[tabs]]
id = "main"
label = "Main"
"#;
    let schema = parse_and_validate(src).unwrap();
    assert_eq!(schema.schema_version, Some(2));
    assert_eq!(schema.version_key(), "schema_version");
    assert_eq!(schema.migrations.len(), 1);
    let m = &schema.migrations[0];
    assert_eq!(m.rename.len(), 1);
    assert_eq!(m.delete.len(), 1);
    assert_eq!(m.transform.len(), 1);
    assert_eq!(m.transform[0].kind, TransformKind::EnumToBool);
    assert_eq!(m.transform[0].match_value.as_deref(), Some("vivarium"));
}

#[test]
fn migration_version_key_override() {
    let src = r#"
schema_version = 1
migration_version_key = "config_schema_version"

[[migration]]
version = 1

[[tabs]]
id = "main"
label = "Main"
"#;
    let schema = parse_and_validate(src).unwrap();
    assert_eq!(schema.version_key(), "config_schema_version");
}

#[test]
fn error_duplicate_migration_version() {
    let src = r#"
schema_version = 2

[[migration]]
version = 2

[[migration]]
version = 2

[[tabs]]
id = "main"
label = "Main"
"#;
    let errs = parse(src).validate().unwrap_err();
    assert!(errs.iter().any(|e| matches!(
        e,
        SchemaValidationError::DuplicateMigrationVersion { version } if *version == 2
    )));
}

#[test]
fn error_migration_version_exceeds_target() {
    let src = r#"
schema_version = 1

[[migration]]
version = 2

[[tabs]]
id = "main"
label = "Main"
"#;
    let errs = parse(src).validate().unwrap_err();
    assert!(errs.iter().any(|e| matches!(
        e,
        SchemaValidationError::MigrationVersionExceedsTarget { version, target }
            if *version == 2 && *target == 1
    )));
}

#[test]
fn error_migrations_without_schema_version() {
    let src = r#"
[[migration]]
version = 1

[[tabs]]
id = "main"
label = "Main"
"#;
    let errs = parse(src).validate().unwrap_err();
    assert!(errs
        .iter()
        .any(|e| matches!(e, SchemaValidationError::MigrationsWithoutSchemaVersion)));
}

#[test]
fn error_transform_missing_match() {
    let src = r#"
schema_version = 1

[[migration]]
version = 1

  [[migration.transform]]
  from = "mode"
  to   = "vivarium.enabled"
  type = "enum_to_bool"

[[tabs]]
id = "main"
label = "Main"
"#;
    let errs = parse(src).validate().unwrap_err();
    assert!(errs
        .iter()
        .any(|e| matches!(e, SchemaValidationError::TransformMissingMatch { .. })));
}

#[test]
fn transform_rename_kind_allows_missing_match() {
    let src = r#"
schema_version = 1

[[migration]]
version = 1

  [[migration.transform]]
  from = "old.key"
  to   = "new.key"
  type = "rename"

[[tabs]]
id = "main"
label = "Main"
"#;
    parse_and_validate(src).unwrap();
}

#[test]
fn error_invalid_cel_expression() {
    let src = r#"
[[constraints]]
id = "bad"
expr = "1 + "
message = "nope"

[[tabs]]
id = "main"
label = "Main"
"#;
    let errs = parse(src).validate().unwrap_err();
    assert!(errs.iter().any(|e| matches!(
        e,
        SchemaValidationError::InvalidCelExpression { .. }
    )));
}
