use settings::check::{check_schema, check_schema_with};
use settings::context::FieldContext;
use settings::errors::{format_validation_errors, SchemaValidationError};
use settings::expressions::{
    are_compilable, collect_field_cel_exprs, compile_sites, is_compilable, report_cel_outcomes,
    CelSite,
};
use settings::lang::{ActiveLang, LangMode, LocalizedString};
use settings::model::{
    widget_kind_name, ColorOverrides, Constraint, Field, FieldType, InlineValidate, Migration,
    OptionState, ResolvedValidateRule, SaveButtonMode, Schema, SectionMap, SectionTabStyle, Tab,
    ThemeMode, Transform, TransformKind, UiStrings, ValidateEntry, ValidateValue, WidgetKind,
};
use settings::rules::find_constraint;
use settings::validate::{validate_field, validate_migrations};

fn s(text: &str) -> String {
    text.to_owned()
}

fn plain(text: &str) -> LocalizedString {
    LocalizedString::from_plain(s(text))
}

fn field(key: &str, widget: WidgetKind) -> Field {
    Field {
        key: s(key),
        label: plain(key),
        field_type: FieldType::default(),
        widget,
        hint: None,
        hint_direct: None,
        hint_env: None,
        options: None,
        options_from: None,
        sublabel: None,
        min_width: None,
        max_width: None,
        rows: None,
        min: None,
        max: None,
        step: None,
        suffix: None,
        exclusive: None,
        validate: Vec::new(),
        option_states: Vec::new(),
        is_directory: false,
        file_filter: None,
        file_extensions: None,
        key_label: None,
        value_label: None,
    }
}

fn tab(id: &str, fields: Vec<Field>) -> Tab {
    Tab {
        id: s(id),
        label: plain(id),
        icon: None,
        content_width: None,
        content_height: None,
        fields: Some(fields),
        section_map: None,
    }
}

fn schema(constraints: Vec<Constraint>, tabs: Vec<Tab>) -> Schema {
    Schema {
        constraints,
        tabs,
        icon_style: None,
        theme: ThemeMode::default(),
        lang: LangMode::default(),
        lang_key: None,
        colors_light: ColorOverrides::default(),
        colors_dark: ColorOverrides::default(),
        save_button: SaveButtonMode::default(),
        ui_strings: UiStrings::default(),
        content_width: None,
        content_height: None,
        schema_version: None,
        migration_version_key: None,
        migrations: Vec::new(),
    }
}

fn constraint(id: &str, expr: &str, message: Option<&str>) -> Constraint {
    Constraint { id: s(id), expr: s(expr), message: message.map(plain) }
}

fn state(value: &str, when: Option<&str>, enabled: Option<&str>) -> OptionState {
    OptionState { value: s(value), when: when.map(s), enabled: enabled.map(s) }
}

fn inline(expr: &str) -> ValidateEntry {
    ValidateEntry::Inline(InlineValidate { expr: s(expr), message: plain("no") })
}

fn migration(version: u32, transform: Vec<Transform>) -> Migration {
    Migration { version, rename: Vec::new(), delete: Vec::new(), transform }
}

fn to_bool(match_value: Option<&str>) -> Transform {
    Transform {
        from: s("a.b"),
        to: s("c"),
        kind: TransformKind::EnumToBool,
        match_value: match_value.map(s),
    }
}

#[test]
fn all_errors_come_at_once_and_in_order() {
    let mut first = field("first", WidgetKind::TextInput);
    first.validate = vec![ValidateEntry::Ref(s("gone")), ValidateEntry::Ref(s("quiet"))];
    first.option_states = vec![state("0", None, Some("1 +"))];
    let mut second = field("second", WidgetKind::Select);
    second.options = Some(vec![s("a")]);
    second.option_states = vec![
        state("a", Some("quiet"), Some("true")),
        state("a", None, None),
        state("b", Some("gone"), None),
    ];
    let mut third = field("third", WidgetKind::TextInput);
    third.validate = vec![inline("1 +")];
    let mut sections = tab("more", Vec::new());
    sections.fields = None;
    sections.section_map = Some(SectionMap {
        key_prefix: s("profiles"),
        allow_add_remove: true,
        fields: vec![third],
        tab_style: SectionTabStyle::Segmented,
        max_width: None,
    });
    let mut all = schema(
        vec![constraint("quiet", "true", None), constraint("quiet", "false", None)],
        vec![tab("main", vec![first, second]), sections],
    );
    all.schema_version = Some(1);
    all.migrations = vec![migration(2, vec![to_bool(None)]), migration(2, Vec::new())];

    let first_place = s(r#"tabs[0].id="main".fields[0] key="first""#);
    let second_place = s(r#"tabs[0].id="main".fields[1] key="second""#);
    let third_place = s(
        r#"tabs[1].id="more".section_map.key_prefix="profiles".fields[0] key="third""#,
    );
    let bad = settings_detail("1 +");
    let errors = all.validate().unwrap_err();
    assert_eq!(
        errors,
        vec![
            SchemaValidationError::DuplicateConstraintId { id: s("quiet") },
            SchemaValidationError::UnknownConstraintRef {
                id: s("gone"),
                location: first_place.clone()
            },
            SchemaValidationError::MissingConstraintMessage {
                id: s("quiet"),
                location: first_place.clone()
            },
            SchemaValidationError::OptionStatesUnsupportedWidget {
                location: first_place.clone(),
                widget: s("text_input")
            },
            SchemaValidationError::OptionStateConflict {
                location: second_place.clone(),
                value: s("a")
            },
            SchemaValidationError::OptionStateMissingRule {
                location: second_place.clone(),
                value: s("a")
            },
            SchemaValidationError::DuplicateOptionStateValue {
                location: second_place.clone(),
                value: s("a")
            },
            SchemaValidationError::UnknownConstraintRef {
                id: s("gone"),
                location: second_place.clone()
            },
            SchemaValidationError::UnknownOptionValue { location: second_place, value: s("b") },
            SchemaValidationError::InvalidCelExpression {
                location: first_place + r#" option_states value="0""#,
                expr: s("1 +"),
                detail: bad.clone()
            },
            SchemaValidationError::InvalidCelExpression {
                location: third_place,
                expr: s("1 +"),
                detail: bad
            },
            SchemaValidationError::MigrationVersionExceedsTarget { version: 2, target: 1 },
            SchemaValidationError::TransformMissingMatch {
                location: s(r#"migration version=2 transform from="a.b" to="c""#)
            },
            SchemaValidationError::DuplicateMigrationVersion { version: 2 },
            SchemaValidationError::MigrationVersionExceedsTarget { version: 2, target: 1 },
        ]
    );
    assert_eq!(all.validate_if_compilable(), Some(Err(errors)));
}

fn settings_detail(expr: &str) -> String {
    cel::Program::compile(expr).map(|_| ()).unwrap_err().to_string()
}

#[test]
fn migrations_without_a_target_are_checked_all_the_same() {
    let mut old = schema(Vec::new(), vec![tab("main", Vec::new())]);
    old.migrations = vec![migration(4, Vec::new()), migration(4, vec![to_bool(None)])];
    let mut errors = Vec::new();
    validate_migrations(&old, &mut errors);
    assert_eq!(
        errors,
        vec![
            SchemaValidationError::MigrationsWithoutSchemaVersion,
            SchemaValidationError::DuplicateMigrationVersion { version: 4 },
            SchemaValidationError::TransformMissingMatch {
                location: s(r#"migration version=4 transform from="a.b" to="c""#)
            },
        ]
    );
    old.migrations.clear();
    assert_eq!(old.validate(), Ok(()));
}

#[test]
fn a_migration_up_to_the_target_is_fine() {
    let mut good = schema(Vec::new(), vec![tab("main", Vec::new())]);
    good.schema_version = Some(3);
    good.migrations = vec![migration(3, vec![to_bool(Some("on"))]), migration(1, Vec::new())];
    assert_eq!(good.validate(), Ok(()));
}

#[test]
fn outcomes_decide_which_expressions_are_reported() {
    let mut checked = field("x", WidgetKind::TextInput);
    checked.validate = vec![inline("x > 0"), ValidateEntry::Ref(s("c")), inline("y > 0")];
    let given = schema(vec![constraint("c", "true", Some("m"))], vec![tab("main", vec![checked])]);
    let place = s(r#"tabs[0].id="main".fields[0] key="x""#);
    assert_eq!(
        given.cel_sites(),
        vec![
            CelSite { location: s(r#"constraints id="c""#), expr: s("true") },
            CelSite { location: place.clone(), expr: s("x > 0") },
            CelSite { location: place.clone(), expr: s("y > 0") },
        ]
    );
    assert_eq!(given.validate_with(&vec![Ok(()), Ok(()), Ok(())]), Ok(()));
    assert_eq!(
        given.validate_with(&vec![Err(s("one")), Ok(()), Err(s("three"))]),
        Err(vec![
            SchemaValidationError::InvalidCelExpression {
                location: s(r#"constraints id="c""#),
                expr: s("true"),
                detail: s("one")
            },
            SchemaValidationError::InvalidCelExpression {
                location: place,
                expr: s("y > 0"),
                detail: s("three")
            },
        ])
    );
}

#[test]
fn fields_in_a_section_map_are_validated_alike() {
    let lists = || {
        let mut checked = field("x", WidgetKind::TextInput);
        checked.validate = vec![inline("1 +"), ValidateEntry::Ref(s("gone"))];
        let mut choice = field("y", WidgetKind::Select);
        choice.option_states = vec![state("a", None, Some("+"))];
        vec![checked, choice]
    };
    let own = schema(
        vec![constraint("c", "2 +", None)],
        vec![tab("a", lists()), tab("b", lists()), tab("c", lists())],
    );
    let mut moved = schema(
        vec![constraint("c", "2 +", None)],
        vec![tab("a", lists()), tab("b", Vec::new()), tab("c", lists())],
    );
    moved.tabs[1].fields = None;
    moved.tabs[1].section_map = Some(SectionMap {
        key_prefix: s("p\"q"),
        allow_add_remove: false,
        fields: lists(),
        tab_style: SectionTabStyle::Segmented,
        max_width: None,
    });
    let start = r#"tabs[1].id="b".fields["#;
    let moved_start = r#"tabs[1].id="b".section_map.key_prefix="p\"q".fields["#;
    let restarted = |place: &str| match place.strip_prefix(start) {
        Some(rest) => format!("{moved_start}{rest}"),
        None => s(place),
    };
    let before = own.validate().unwrap_err();
    let after = moved.validate().unwrap_err();
    assert_eq!(before.len(), 10);
    assert_eq!(before.len(), after.len());
    let mut changed = 0;
    for (old, new) in before.iter().zip(&after) {
        assert_eq!(old.summary(), new.summary());
        assert_eq!(new.context().map(s), old.context().map(restarted));
        if old != new {
            changed += 1;
        }
    }
    assert_eq!(changed, 3);
}

#[test]
fn expressions_are_compiled() {
    let sites = vec![
        CelSite { location: s("a"), expr: s("1 + 1") },
        CelSite { location: s("b"), expr: s("1 + ") },
        CelSite { location: s("c"), expr: s("[1, 2].all(x, x > 0)") },
    ];
    assert!(are_compilable(&sites));
    let outcomes = compile_sites(&sites);
    assert_eq!(outcomes, vec![Ok(()), Err(settings_detail("1 + ")), Ok(())]);
    let mut errors = Vec::new();
    report_cel_outcomes(&sites, &outcomes, &mut errors);
    assert_eq!(errors.len(), 1);
    assert_eq!(errors[0].context(), Some("b"));
    assert!(errors[0].summary().starts_with("invalid CEL expression: ERROR: <input>:1:"));
}

#[test]
fn expressions_that_need_too_much_stack_are_told_apart() {
    assert!(is_compilable("1 +"));
    assert!(is_compilable(""));
    let chain = |marks: usize| format!("name{}", " . member".repeat((marks - 1) / 2));
    assert!(is_compilable(&chain(1535)));
    assert!(!is_compilable(&chain(1537)));
    let nested = |open: &str, close: &str, depth: usize| {
        format!("{}a{}", open.repeat(depth), close.repeat(depth))
    };
    for (open, close) in
        [("(", ")"), ("[", "]"), ("f(", ")"), ("a[", "]"), ("{b: ", "}"), ("(b ? ", " : c)")]
    {
        let levels = if open.contains('?') { 3 } else { 7 };
        assert!(is_compilable(&nested(open, close, levels)), "{open}");
        assert!(!is_compilable(&nested(open, close, levels + 1)), "{open}");
    }
}

#[test]
fn brackets_side_by_side_do_not_nest() {
    assert!(is_compilable("f()+f()+f()+f()+f()+f()+f()+f() "));
    for term in [
        "x.size() > 0 && ",
        "size(x.trim()) > size(y[0]) || ",
        r"a.matches('^[(\\d{1,3}]+$') && ",
        r"a.matches(r'^\(\d') && ",
        "[1.5, 2, -3].exists(i, i == x[0]) && ",
        "{'k': [v], 'l': {}}.k == [] || ",
        "(a ? b : c) + ",
        "f(a b, + c) ",
    ] {
        let terms = term.repeat(20) + "d";
        assert!(is_compilable(&terms), "{terms}");
    }
}

#[test]
fn misplaced_brackets_close_nothing() {
    for unit in [
        "(", "[", "{", "a?", "()", "(in)", "(1in)", "{a}", "(a]", "(+)", "&f()", r"('a\')", "a.(b)",
        "1(a)", "{+:a}", "(a?b)", "f(a,)", "//(\n)", "'''(a)", "(a) @",
    ] {
        assert!(!is_compilable(&unit.repeat(9)), "{unit}");
    }
}

#[test]
fn long_lines_cannot_be_reported() {
    let text = |length: usize| format!("'{}'", "x".repeat(length));
    assert!(is_compilable(&text(65532)));
    assert!(!is_compilable(&text(65533)));
    assert!(is_compilable(&format!("{}\n+\n{}", text(65532), text(65532))));
    assert!(is_compilable(&format!("'{}'", "\u{20ac}".repeat(21844))));
    assert!(!is_compilable(&format!("'{}'", "\u{20ac}".repeat(21845))));
    for end in ["+", ".all(1, 2)"] {
        let bad = format!("{}{end}", text(65532 - end.len()));
        let sites = vec![CelSite { location: s("a"), expr: bad.clone() }];
        assert!(are_compilable(&sites));
        assert_eq!(compile_sites(&sites), vec![Err(settings_detail(&bad))]);
    }
}

#[test]
fn expressions_at_the_bound_compile() {
    let longest = |unit: &str| {
        let mut expr = s("a");
        while is_compilable(&format!("{expr}{unit}")) {
            expr.push_str(unit);
        }
        expr
    };
    for unit in [
        "+1", ".a", "<1", "&&a", " in a", ".f(b)", "+(a)", "[0]", ".map(x,x)", "&&{b:c}", ".f()",
        "+f(g(h))", "*(a?b:c)", "==[]",
    ] {
        let expr = longest(unit);
        let sites = vec![CelSite { location: s("a"), expr: expr.clone() }];
        assert!(are_compilable(&sites));
        assert_eq!(compile_sites(&sites), vec![Ok(())], "{expr}");
    }
    for unit in [
        "(", "[", "{", "(a b)", "()", "!", " in()", "f(", "1in(a)", "&f()", "(in)", "{a}:", "(a?b):",
    ] {
        let sites = vec![CelSite { location: s("a"), expr: longest(unit) }];
        assert!(are_compilable(&sites));
        assert!(compile_sites(&sites)[0].is_err(), "{unit}");
    }
    for depth in 1..8 {
        let expr = format!("{}a{}", "(".repeat(depth), ")".repeat(depth));
        let sites = vec![CelSite { location: s("a"), expr }];
        assert!(are_compilable(&sites));
        assert_eq!(compile_sites(&sites), vec![Ok(())]);
    }
}

#[test]
fn schemas_with_large_expressions_are_told_apart() {
    let large = schema(vec![constraint("c", &"1+".repeat(800), None)], Vec::new());
    assert_eq!(large.validate_if_compilable(), None);
    let small = schema(vec![constraint("c", "1+1", None)], Vec::new());
    assert_eq!(small.validate_if_compilable(), Some(Ok(())));
    assert_eq!(large.validate_with(&vec![Ok(())]), Ok(()));
}

#[test]
fn files_are_checked() {
    let good = schema(vec![constraint("c", "1+1", None)], Vec::new());
    let bad = schema(vec![constraint("c", "1", None), constraint("c", "2", None)], Vec::new());
    let report = format_validation_errors(
        Some("a.toml"),
        "x/a.toml",
        &[SchemaValidationError::DuplicateConstraintId { id: s("c") }],
    );
    assert_eq!(
        check_schema(Some("a.toml"), "x/a.toml", Err(s("gone"))),
        Err(s("error: cannot read schema file x/a.toml: gone"))
    );
    assert_eq!(
        check_schema(Some("a.toml"), "x/a.toml", Ok(Err(s("bad")))),
        Err(s("error: TOML parse failed in x/a.toml\n  bad"))
    );
    assert_eq!(check_schema(None, "x/a.toml", Ok(Ok(good))), Ok(()));
    let outcomes = vec![Ok(()), Ok(())];
    assert_eq!(
        check_schema_with(Some("a.toml"), "x/a.toml", &bad, &outcomes),
        Err(report.clone())
    );
    assert_eq!(check_schema(Some("a.toml"), "x/a.toml", Ok(Ok(bad))), Err(report));
}

#[test]
fn the_last_constraint_of_an_id_counts() {
    let constraints = vec![constraint("c", "1", Some("old")), constraint("c", "2", None)];
    assert_eq!(find_constraint(&constraints, "c").map(|c| c.expr.as_str()), Some("2"));
    assert!(find_constraint(&constraints, "d").is_none());
}

#[test]
fn rules_resolve_in_order() {
    let mut checked = field("x", WidgetKind::TextInput);
    checked.validate = vec![inline("x > 0"), ValidateEntry::Ref(s("c"))];
    let known = schema(vec![constraint("c", "x < 9", Some("too big"))], Vec::new());
    let rules = checked.resolved_validate_rules(&known).unwrap();
    assert_eq!(
        rules,
        vec![
            ResolvedValidateRule::Inline(InlineValidate { expr: s("x > 0"), message: plain("no") }),
            ResolvedValidateRule::Named { id: s("c"), expr: s("x < 9"), message: plain("too big") },
        ]
    );
}

#[test]
fn resolving_stops_at_the_first_bad_entry() {
    let mut checked = field("x", WidgetKind::TextInput);
    checked.validate = vec![ValidateEntry::Ref(s("quiet")), ValidateEntry::Ref(s("gone"))];
    let known = schema(vec![constraint("quiet", "true", None)], Vec::new());
    assert_eq!(
        checked.resolved_validate_rules(&known),
        Err(SchemaValidationError::MissingConstraintMessage {
            id: s("quiet"),
            location: s(r#"field key="x""#)
        })
    );
    let unknown = schema(Vec::new(), Vec::new());
    assert_eq!(
        checked.resolved_validate_rules(&unknown),
        Err(SchemaValidationError::UnknownConstraintRef {
            id: s("quiet"),
            location: s(r#"field key="x""#)
        })
    );
}

#[test]
fn rules_of_a_validated_schema_resolve() {
    let mut checked = field("x", WidgetKind::TextInput);
    checked.validate = vec![ValidateEntry::Ref(s("c")), inline("true")];
    let valid = schema(
        vec![constraint("c", "true", Some("m"))],
        vec![tab("main", vec![checked])],
    );
    assert_eq!(valid.validate(), Ok(()));
    let fields = valid.tabs[0].fields.as_ref().unwrap();
    assert_eq!(fields[0].resolved_validate_rules(&valid).unwrap().len(), 2);
}

#[test]
fn one_field_at_a_time() {
    let mut control = field("n", WidgetKind::SegmentedControl);
    control.option_states = vec![state("9", Some("gone"), None)];
    let place = r#"tabs[7].id="t".fields[12] key="n""#;
    let ctx = FieldContext {
        tab_index: 7,
        tab_id: "t",
        field_index: 12,
        field: &control,
        section_prefix: None,
    };
    assert_eq!(ctx.location(), place);
    let mut sites = Vec::new();
    collect_field_cel_exprs(&mut sites, &ctx);
    assert!(sites.is_empty());
    let mut errors = vec![SchemaValidationError::MigrationsWithoutSchemaVersion];
    validate_field(&mut errors, &Vec::new(), ctx);
    assert_eq!(
        errors,
        vec![
            SchemaValidationError::MigrationsWithoutSchemaVersion,
            SchemaValidationError::UnknownConstraintRef { id: s("gone"), location: s(place) },
        ]
    );
}

#[test]
fn a_lone_entry_is_a_list_of_one() {
    assert_eq!(ValidateValue::One(inline("a")).into_entries(), vec![inline("a")]);
    assert_eq!(
        ValidateValue::Many(vec![inline("a"), inline("b")]).into_entries(),
        vec![inline("a"), inline("b")]
    );
}

#[test]
fn each_widget_has_a_name_of_its_own() {
    let kinds = [
        WidgetKind::TextInput,
        WidgetKind::SecretInput,
        WidgetKind::Multiline,
        WidgetKind::Checkbox,
        WidgetKind::Toggle,
        WidgetKind::Select,
        WidgetKind::SegmentedControl,
        WidgetKind::ExclusiveRadio,
        WidgetKind::Hotkey,
        WidgetKind::Slider,
        WidgetKind::DragValue,
        WidgetKind::Separator,
        WidgetKind::FilePath,
        WidgetKind::ColorPicker,
        WidgetKind::KeyValueMap,
    ];
    for a in &kinds {
        for b in &kinds {
            assert_eq!(widget_kind_name(a) == widget_kind_name(b), a == b);
        }
    }
}

#[test]
fn widgets_and_their_names() {
    assert_eq!(widget_kind_name(&WidgetKind::SegmentedControl), "segmented_control");
    assert_eq!(widget_kind_name(&WidgetKind::KeyValueMap), "key_value_map");
    assert!(WidgetKind::Select.supports_option_states());
    assert!(WidgetKind::SegmentedControl.supports_option_states());
    assert!(!WidgetKind::ExclusiveRadio.supports_option_states());
}

#[test]
fn defaults_follow_the_system() {
    assert_eq!(SaveButtonMode::default(), SaveButtonMode::Os);
    assert_eq!(ThemeMode::default(), ThemeMode::Os);
    assert_eq!(SectionTabStyle::default(), SectionTabStyle::Underline);
    assert_eq!(FieldType::default(), FieldType::String);
    assert_eq!(plain("x").get(&ActiveLang::new()), "x");
}
