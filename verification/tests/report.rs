use settings::errors::{
    format_validation_errors, parse_failure, read_failure, SchemaValidationError,
};
use settings::text::{contains_text, push_debug, push_decimal, string_of, to_chars};

fn s(text: &str) -> String {
    text.to_owned()
}

#[test]
fn summaries_quote_what_they_name() {
    let cases = vec![
        (SchemaValidationError::DuplicateConstraintId { id: s("a\"b") }, r#"duplicate constraint id "a\"b""#),
        (
            SchemaValidationError::UnknownConstraintRef { id: s("x"), location: s("here") },
            r#"unknown constraint id "x""#,
        ),
        (
            SchemaValidationError::MissingConstraintMessage { id: s("x"), location: s("here") },
            r#"constraint "x" is referenced but has no `message`"#,
        ),
        (
            SchemaValidationError::OptionStatesUnsupportedWidget {
                location: s("here"),
                widget: s("text_input"),
            },
            r#"option_states is only allowed on segmented_control and select (found widget="text_input")"#,
        ),
        (
            SchemaValidationError::OptionStateConflict { location: s("here"), value: s("1") },
            r#"option_states entry for value "1" must set either `when` or `enabled`, not both"#,
        ),
        (
            SchemaValidationError::OptionStateMissingRule { location: s("here"), value: s("1") },
            r#"option_states entry for value "1" must set `when` or `enabled`"#,
        ),
        (
            SchemaValidationError::DuplicateOptionStateValue { location: s("here"), value: s("1") },
            r#"duplicate option_states value "1""#,
        ),
        (
            SchemaValidationError::UnknownOptionValue { location: s("here"), value: s("1") },
            r#"option_states value "1" is not listed in `options`"#,
        ),
        (
            SchemaValidationError::InvalidCelExpression {
                location: s("here"),
                expr: s("1 +"),
                detail: s("bad"),
            },
            "invalid CEL expression: bad",
        ),
        (
            SchemaValidationError::DuplicateMigrationVersion { version: 107 },
            "duplicate migration version 107",
        ),
        (
            SchemaValidationError::MigrationVersionExceedsTarget { version: 20, target: 0 },
            "migration version 20 exceeds schema_version 0",
        ),
        (
            SchemaValidationError::MigrationsWithoutSchemaVersion,
            "[[migration]] entries require a top-level schema_version",
        ),
        (
            SchemaValidationError::TransformMissingMatch { location: s("here") },
            r#"transform type "enum_to_bool" requires a `match` value"#,
        ),
    ];
    for (error, summary) in cases {
        assert_eq!(error.summary(), summary);
    }
}

#[test]
fn contexts_name_the_table_or_the_place() {
    assert_eq!(
        SchemaValidationError::DuplicateConstraintId { id: s("a") }.context(),
        Some("[[constraints]]")
    );
    assert_eq!(SchemaValidationError::MigrationsWithoutSchemaVersion.context(), Some("[[migration]]"));
    assert_eq!(
        SchemaValidationError::MigrationVersionExceedsTarget { version: 2, target: 1 }.context(),
        Some("[[migration]]")
    );
    assert_eq!(
        SchemaValidationError::TransformMissingMatch { location: s("there") }.context(),
        Some("there")
    );
    assert_eq!(
        SchemaValidationError::OptionStateConflict { location: s("there"), value: s("v") }.context(),
        Some("there")
    );
}

#[test]
fn helps_say_what_to_do() {
    assert_eq!(
        SchemaValidationError::DuplicateConstraintId { id: s("a") }.help(),
        "use a unique `id` for each [[constraints]] entry"
    );
    assert_eq!(
        SchemaValidationError::TransformMissingMatch { location: s("there") }.help(),
        r#"add `match = "..."` or change the transform type"#
    );
    assert_eq!(
        SchemaValidationError::UnknownOptionValue { location: s("there"), value: s("v") }.help(),
        "use a value that appears in the field's `options` list"
    );
}

#[test]
fn only_expressions_have_detail_lines() {
    let error = SchemaValidationError::InvalidCelExpression {
        location: s("here"),
        expr: s("a == \"b\""),
        detail: s("bad"),
    };
    assert_eq!(error.detail_lines(), vec![s(r#"expr = "a == \"b\"""#)]);
    let other = SchemaValidationError::DuplicateMigrationVersion { version: 1 };
    assert!(other.detail_lines().is_empty());
}

#[test]
fn report_of_one_error() {
    let errors = vec![SchemaValidationError::InvalidCelExpression {
        location: s("constraints id=\"bad\""),
        expr: s("1 +"),
        detail: s("oops"),
    }];
    assert_eq!(
        format_validation_errors(Some("my.toml"), "dir/my.toml", &errors),
        "error: invalid CEL expression: oops\n  --> my.toml (constraints id=\"bad\")\n      expr = \"1 +\"\nhelp: fix the CEL syntax or use a supported function\nhelp: fix all reported issues, then run `settings-schema-checker dir/my.toml`\n"
    );
}

#[test]
fn report_of_two_errors_counts_them() {
    let errors = vec![
        SchemaValidationError::MigrationsWithoutSchemaVersion,
        SchemaValidationError::DuplicateMigrationVersion { version: 3 },
    ];
    assert_eq!(
        format_validation_errors(None, "..", &errors),
        "error: [[migration]] entries require a top-level schema_version\n  --> schema.toml ([[migration]])\nhelp: add a top-level `schema_version` equal to the highest migration version\n\nerror: duplicate migration version 3\n  --> schema.toml ([[migration]])\nhelp: use a unique `version` for each [[migration]] entry\n\nerror: 2 validation errors in ..\nhelp: fix all reported issues, then run `settings-schema-checker ..`\n"
    );
}

#[test]
fn report_of_no_error() {
    assert_eq!(
        format_validation_errors(Some("a"), "b", &[]),
        "help: fix all reported issues, then run `settings-schema-checker b`\n"
    );
}

#[test]
fn failures_before_validation() {
    assert_eq!(read_failure("a.toml", "no such file"), "error: cannot read schema file a.toml: no such file");
    assert_eq!(parse_failure("a.toml", "bad"), "error: TOML parse failed in a.toml\n  bad");
}

#[test]
fn numbers_and_quotes() {
    let mut out = s("n=");
    push_decimal(&mut out, 0);
    push_decimal(&mut out, 18446744073709551615);
    push_debug(&mut out, "tab\there\n");
    assert_eq!(out, "n=018446744073709551615\"tab\\there\\n\"");
}

#[test]
fn characters_and_lists() {
    let chars = to_chars("aé日");
    assert_eq!(chars, vec!['a', 'é', '日']);
    assert_eq!(string_of(&chars, 1, 3), "é日");
    assert_eq!(string_of(&chars, 2, 2), "");
    assert!(contains_text(&vec![s("a"), s("b")], "b"));
    assert!(!contains_text(&vec![s("a"), s("b")], "B"));
}
