//! Validation of a schema: cross-references, field rules, expressions and
//! migrations.

use crate::context::{
    field_part, over_own_fields, over_section_fields, over_tabs, tab_part, FieldContext,
};
use crate::errors::{error_views, lemma_error_views_push, ErrorView, SchemaValidationError};
use crate::expressions::{
    all_compilable, are_compilable, cel_errors, compile_sites, outcome_views, report_cel_outcomes,
    site_outcomes, site_views,
};
use crate::model::{
    widget_kind_name, widget_name, Constraint, Field, Migration, OptionState, Schema, Tab, Transform,
    TransformKind, ValidateEntry,
};
use crate::rules::{constraint_for, find_constraint};
use crate::text::{
    contains_text, debug_text, decimal, gather, opt_text, push_debug,
    push_decimal, texts,
};
use vstd::prelude::*;
use vstd::string::*;

verus! {

/// Whether the `i`-th element of a sequence also occurs before it.
pub open spec fn repeats<T>(s: Seq<T>, i: int) -> bool {
    exists|j: int| 0 <= j < i && #[trigger] s[j] == s[i]
}

/// A sequence has no duplicates exactly when none of its elements repeats an
/// earlier one.
pub proof fn distinct_iff_nothing_repeats<T>(s: Seq<T>)
    ensures
        s.no_duplicates() <==> forall|i: int| 0 <= i < s.len() ==> !#[trigger] repeats(s, i),
{
    if s.no_duplicates() {
        assert forall|i: int| 0 <= i < s.len() implies !#[trigger] repeats(s, i) by {
            if repeats(s, i) {
                let j = choose|j: int| 0 <= j < i && #[trigger] s[j] == s[i];
                assert(s[j] != s[i]);
            }
        }
    }
    if forall|i: int| 0 <= i < s.len() ==> !#[trigger] repeats(s, i) {
        assert forall|i: int, j: int|
            0 <= i < s.len() && 0 <= j < s.len() && i != j implies s[i] != s[j] by {
            assert(!repeats(s, i));
            assert(!repeats(s, j));
        }
    }
}

/// The ids of the constraints, in order.
pub open spec fn constraint_ids(constraints: Seq<Constraint>) -> Seq<Seq<char>> {
    constraints.map_values(|c: Constraint| c.id@)
}

/// The values of the option states, in order.
pub open spec fn state_values(states: Seq<OptionState>) -> Seq<Seq<char>> {
    states.map_values(|s: OptionState| s.value@)
}

/// The versions of the migrations, in order.
pub open spec fn migration_versions(migrations: Seq<Migration>) -> Seq<u32> {
    migrations.map_values(|m: Migration| m.version)
}

fn constraint_id_repeats(constraints: &Vec<Constraint>, i: usize) -> (r: bool)
    requires
        i < constraints.len(),
    ensures
        r == repeats(constraint_ids(constraints@), i as int),
{
    let ghost ids = constraint_ids(constraints@);
    let mut j: usize = 0;
    while j < i
        invariant
            j <= i < constraints.len(),
            ids == constraint_ids(constraints@),
            forall|k: int| 0 <= k < j ==> #[trigger] ids[k] != ids[i as int],
        decreases i - j,
    {
        assert(ids[j as int] == constraints@[j as int].id@);
        if *constraints[j].id.as_str() == *constraints[i].id.as_str() {
            return true;
        }
        j += 1;
    }
    false
}

fn state_value_repeats(states: &Vec<OptionState>, i: usize) -> (r: bool)
    requires
        i < states.len(),
    ensures
        r == repeats(state_values(states@), i as int),
{
    let ghost values = state_values(states@);
    let mut j: usize = 0;
    while j < i
        invariant
            j <= i < states.len(),
            values == state_values(states@),
            forall|k: int| 0 <= k < j ==> #[trigger] values[k] != values[i as int],
        decreases i - j,
    {
        assert(values[j as int] == states@[j as int].value@);
        if *states[j].value.as_str() == *states[i].value.as_str() {
            return true;
        }
        j += 1;
    }
    false
}

fn migration_version_repeats(migrations: &Vec<Migration>, i: usize) -> (r: bool)
    requires
        i < migrations.len(),
    ensures
        r == repeats(migration_versions(migrations@), i as int),
{
    let ghost versions = migration_versions(migrations@);
    let mut j: usize = 0;
    while j < i
        invariant
            j <= i < migrations.len(),
            versions == migration_versions(migrations@),
            forall|k: int| 0 <= k < j ==> #[trigger] versions[k] != versions[i as int],
        decreases i - j,
    {
        assert(versions[j as int] == migrations@[j as int].version);
        if migrations[j].version == migrations[i].version {
            return true;
        }
        j += 1;
    }
    false
}

/// The error of the `i`-th constraint, if an earlier one has the same id.
pub open spec fn id_error(constraints: Seq<Constraint>) -> spec_fn(int) -> Seq<ErrorView> {
    |i: int|
        if repeats(constraint_ids(constraints), i) {
            seq![ErrorView::DuplicateConstraintId { id: constraints[i].id@ }]
        } else {
            Seq::empty()
        }
}

/// The error of the `i`-th `validate` entry, if it refers to a constraint that
/// is missing or has no message.
pub open spec fn ref_error(
    constraints: Seq<Constraint>,
    location: Seq<char>,
    entries: Seq<ValidateEntry>,
) -> spec_fn(int) -> Seq<ErrorView> {
    |i: int|
        match entries[i] {
            ValidateEntry::Ref(id) => match constraint_for(constraints, id@) {
                None => seq![ErrorView::UnknownConstraintRef { id: id@, location }],
                Some(constraint) => if constraint.message is None {
                    seq![ErrorView::MissingConstraintMessage { id: id@, location }]
                } else {
                    Seq::empty()
                },
            },
            ValidateEntry::Inline(_) => Seq::empty(),
        }
}

/// The error of an option state that has two rules or none.
pub open spec fn rule_count_error(location: Seq<char>, state: OptionState) -> Seq<ErrorView> {
    if state.when is Some && state.enabled is Some {
        seq![ErrorView::OptionStateConflict { location, value: state.value@ }]
    } else if state.when is None && state.enabled is None {
        seq![ErrorView::OptionStateMissingRule { location, value: state.value@ }]
    } else {
        Seq::empty()
    }
}

/// The error of an option state that refers to a missing constraint.
pub open spec fn when_error(
    constraints: Seq<Constraint>,
    location: Seq<char>,
    state: OptionState,
) -> Seq<ErrorView> {
    match opt_text(state.when) {
        Some(id) if constraint_for(constraints, id) is None => seq![
            ErrorView::UnknownConstraintRef { id, location },
        ],
        _ => Seq::empty(),
    }
}

/// The error of the `i`-th option state, if an earlier one has the same value.
pub open spec fn repeated_value_error(
    location: Seq<char>,
    states: Seq<OptionState>,
    i: int,
) -> Seq<ErrorView> {
    if repeats(state_values(states), i) {
        seq![ErrorView::DuplicateOptionStateValue { location, value: states[i].value@ }]
    } else {
        Seq::empty()
    }
}

/// The error of an option state whose value is not among the field's options.
pub open spec fn option_error(
    location: Seq<char>,
    options: Option<Vec<String>>,
    state: OptionState,
) -> Seq<ErrorView> {
    match options {
        Some(options) => if texts(options@).contains(state.value@) {
            Seq::empty()
        } else {
            seq![ErrorView::UnknownOptionValue { location, value: state.value@ }]
        },
        None => Seq::empty(),
    }
}

/// The errors of the `i`-th option state of a field.
pub open spec fn state_errors(
    constraints: Seq<Constraint>,
    location: Seq<char>,
    field: Field,
) -> spec_fn(int) -> Seq<ErrorView> {
    |i: int|
        {
            let state = field.option_states@[i];
            rule_count_error(location, state) + when_error(constraints, location, state)
                + repeated_value_error(location, field.option_states@, i) + option_error(
                location,
                field.options,
                state,
            )
        }
}

/// The errors of a field's option states.
pub open spec fn option_states_errors(
    constraints: Seq<Constraint>,
    location: Seq<char>,
    field: Field,
) -> Seq<ErrorView> {
    if field.option_states@.len() == 0 {
        Seq::empty()
    } else if !field.widget.has_option_states() {
        seq![
            ErrorView::OptionStatesUnsupportedWidget {
                location,
                widget: widget_name(field.widget),
            },
        ]
    } else {
        gather(field.option_states@.len(), state_errors(constraints, location, field))
    }
}

/// The errors of a field, expressions aside.
pub open spec fn field_errors(
    constraints: Seq<Constraint>,
    location: Seq<char>,
    field: Field,
) -> Seq<ErrorView> {
    gather(field.validate@.len(), ref_error(constraints, location, field.validate@))
        + option_states_errors(constraints, location, field)
}

/// [`field_errors`] as a function of a place and a field.
pub open spec fn per_field_errors(constraints: Seq<Constraint>) -> spec_fn(
    Seq<char>,
    Field,
) -> Seq<ErrorView> {
    |location: Seq<char>, field: Field| field_errors(constraints, location, field)
}

/// The place of a transform that is named in errors.
pub open spec fn transform_place(version: u32, transform: Transform) -> Seq<char> {
    "migration version="@ + decimal(version as nat) + " transform from="@ + debug_text(
        transform.from@,
    ) + " to="@ + debug_text(transform.to@)
}

/// The error of the `i`-th transform of a migration, if it lacks its match.
pub open spec fn transform_error(migration: Migration) -> spec_fn(int) -> Seq<ErrorView> {
    |i: int|
        {
            let transform = migration.transform@[i];
            if transform.kind == TransformKind::EnumToBool && transform.match_value is None {
                seq![
                    ErrorView::TransformMissingMatch {
                        location: transform_place(migration.version, transform),
                    },
                ]
            } else {
                Seq::empty()
            }
        }
}

/// The errors of the `i`-th migration, measured against the target version
/// where there is one.
pub open spec fn migration_error(migrations: Seq<Migration>, target: Option<u32>) -> spec_fn(
    int,
) -> Seq<ErrorView> {
    |i: int|
        {
            let version = migrations[i].version;
            let repeated = if repeats(migration_versions(migrations), i) {
                seq![ErrorView::DuplicateMigrationVersion { version }]
            } else {
                Seq::empty()
            };
            let beyond = match target {
                Some(target) if version > target => seq![
                    ErrorView::MigrationVersionExceedsTarget { version, target },
                ],
                _ => Seq::empty(),
            };
            repeated + beyond + gather(
                migrations[i].transform@.len(),
                transform_error(migrations[i]),
            )
        }
}

/// The errors of the migrations.
pub open spec fn migration_errors(migrations: Seq<Migration>, target: Option<u32>) -> Seq<
    ErrorView,
> {
    let no_target = if migrations.len() > 0 && target is None {
        seq![ErrorView::MigrationsWithoutSchemaVersion]
    } else {
        Seq::empty()
    };
    no_target + gather(migrations.len(), migration_error(migrations, target))
}

impl Schema {
    /// The errors of the schema's constraints and fields, expressions aside.
    pub open spec fn reference_errors(self) -> Seq<ErrorView> {
        gather(self.constraints@.len(), id_error(self.constraints@)) + over_tabs(
            self.tabs@,
            per_field_errors(self.constraints@),
        )
    }

    /// All errors of the schema, where compiling its expressions reports
    /// `outcomes`.
    pub open spec fn errors_given(self, outcomes: Seq<Option<Seq<char>>>) -> Seq<ErrorView> {
        self.reference_errors() + cel_errors(self.all_sites(), outcomes) + migration_errors(
            self.migrations@,
            self.schema_version,
        )
    }

    /// All errors of the schema.
    pub open spec fn all_errors(self) -> Seq<ErrorView> {
        self.errors_given(site_outcomes(self.all_sites()))
    }
}

/// Appends the errors of a field's `validate` references.
fn validate_refs(
    errors: &mut Vec<SchemaValidationError>,
    constraints: &Vec<Constraint>,
    location: &String,
    field: &Field,
)
    ensures
        error_views(final(errors)@) == error_views(old(errors)@) + gather(
            field.validate@.len(),
            ref_error(constraints@, location@, field.validate@),
        ),
{
    let ghost start = error_views(errors@);
    let ghost part = ref_error(constraints@, location@, field.validate@);
    let mut i: usize = 0;
    assert(start + gather(0, part) =~= start);
    while i < field.validate.len()
        invariant
            i <= field.validate.len(),
            part == ref_error(constraints@, location@, field.validate@),
            error_views(errors@) == start + gather(i as nat, part),
        decreases field.validate.len() - i,
    {
        let ghost before = errors@;
        if let ValidateEntry::Ref(id) = &field.validate[i] {
            match find_constraint(constraints, id.as_str()) {
                None => {
                    let e = SchemaValidationError::UnknownConstraintRef {
                        id: id.clone(),
                        location: location.clone(),
                    };
                    errors.push(e);
                    proof {
                        lemma_error_views_push(before, e);
                    }
                },
                Some(constraint) => {
                    if constraint.message.is_none() {
                        let e = SchemaValidationError::MissingConstraintMessage {
                            id: id.clone(),
                            location: location.clone(),
                        };
                        errors.push(e);
                        proof {
                            lemma_error_views_push(before, e);
                        }
                    }
                },
            }
        }
        assert(error_views(errors@) =~= start + gather((i + 1) as nat, part));
        i += 1;
    }
}

/// Appends the errors of the `i`-th option state of a field.
fn validate_state(
    errors: &mut Vec<SchemaValidationError>,
    constraints: &Vec<Constraint>,
    location: &String,
    field: &Field,
    i: usize,
)
    requires
        i < field.option_states.len(),
    ensures
        error_views(final(errors)@) == error_views(old(errors)@) + state_errors(
            constraints@,
            location@,
            *field,
        )(i as int),
{
    let ghost start = error_views(errors@);
    let state = &field.option_states[i];
    let ghost before = errors@;
    let has_when = state.when.is_some();
    let has_enabled = state.enabled.is_some();
    if has_when && has_enabled {
        let e = SchemaValidationError::OptionStateConflict {
            location: location.clone(),
            value: state.value.clone(),
        };
        errors.push(e);
        proof {
            lemma_error_views_push(before, e);
        }
    } else if !has_when && !has_enabled {
        let e = SchemaValidationError::OptionStateMissingRule {
            location: location.clone(),
            value: state.value.clone(),
        };
        errors.push(e);
        proof {
            lemma_error_views_push(before, e);
        }
    }
    let ghost first = rule_count_error(location@, *state);
    assert(error_views(errors@) =~= start + first);

    let ghost before = errors@;
    if let Some(id) = &state.when {
        if find_constraint(constraints, id.as_str()).is_none() {
            let e = SchemaValidationError::UnknownConstraintRef {
                id: id.clone(),
                location: location.clone(),
            };
            errors.push(e);
            proof {
                lemma_error_views_push(before, e);
            }
        }
    }
    let ghost second = when_error(constraints@, location@, *state);
    assert(error_views(errors@) =~= start + first + second);

    let ghost before = errors@;
    if state_value_repeats(&field.option_states, i) {
        let e = SchemaValidationError::DuplicateOptionStateValue {
            location: location.clone(),
            value: state.value.clone(),
        };
        errors.push(e);
        proof {
            lemma_error_views_push(before, e);
        }
    }
    let ghost third = repeated_value_error(location@, field.option_states@, i as int);
    assert(error_views(errors@) =~= start + first + second + third);

    let ghost before = errors@;
    if let Some(options) = &field.options {
        if !contains_text(options, state.value.as_str()) {
            let e = SchemaValidationError::UnknownOptionValue {
                location: location.clone(),
                value: state.value.clone(),
            };
            errors.push(e);
            proof {
                lemma_error_views_push(before, e);
            }
        }
    }
    let ghost fourth = option_error(location@, field.options, *state);
    assert(error_views(errors@) =~= start + first + second + third + fourth);
    assert(error_views(errors@) =~= start + (first + second + third + fourth));
}

/// Appends the errors of a field, expressions aside.
pub fn validate_field(
    errors: &mut Vec<SchemaValidationError>,
    constraints: &Vec<Constraint>,
    ctx: FieldContext<'_>,
)
    ensures
        error_views(final(errors)@) == error_views(old(errors)@) + field_errors(
            constraints@,
            ctx.place(),
            *ctx.field,
        ),
{
    let location = ctx.location();
    let field = ctx.field;
    let ghost start = error_views(errors@);
    validate_refs(errors, constraints, &location, field);
    let ghost middle = error_views(errors@);
    let ghost refs = gather(
        field.validate@.len(),
        ref_error(constraints@, location@, field.validate@),
    );
    if field.option_states.len() == 0 {
        assert(error_views(errors@) =~= start + (refs + Seq::<ErrorView>::empty()));
        return;
    }
    if !field.widget.supports_option_states() {
        let ghost before = errors@;
        let e = SchemaValidationError::OptionStatesUnsupportedWidget {
            location,
            widget: widget_kind_name(&field.widget).to_owned(),
        };
        errors.push(e);
        proof {
            lemma_error_views_push(before, e);
            assert(error_views(errors@) =~= start + (refs + seq![e@]));
        }
        return;
    }
    let ghost part = state_errors(constraints@, location@, *field);
    let mut i: usize = 0;
    assert(middle + gather(0, part) =~= middle);
    while i < field.option_states.len()
        invariant
            i <= field.option_states.len(),
            part == state_errors(constraints@, location@, *field),
            error_views(errors@) == middle + gather(i as nat, part),
        decreases field.option_states.len() - i,
    {
        validate_state(errors, constraints, &location, field, i);
        assert(error_views(errors@) =~= middle + gather((i + 1) as nat, part));
        i += 1;
    }
    assert(error_views(errors@) =~= start + (refs + gather(field.option_states@.len(), part)));
}

/// Appends the errors of a list of fields in a tab.
fn validate_list(
    errors: &mut Vec<SchemaValidationError>,
    constraints: &Vec<Constraint>,
    tab_index: usize,
    tab: &Tab,
    section_prefix: Option<&str>,
    fields: &Vec<Field>,
)
    ensures
        error_views(final(errors)@) == error_views(old(errors)@) + gather(
            fields@.len(),
            field_part(
                tab_index as nat,
                *tab,
                match section_prefix {
                    Some(prefix) => Some(prefix@),
                    None => None,
                },
                fields@,
                per_field_errors(constraints@),
            ),
        ),
{
    let ghost prefix = match section_prefix {
        Some(prefix) => Some(prefix@),
        None => None,
    };
    let ghost per = per_field_errors(constraints@);
    let ghost part = field_part(tab_index as nat, *tab, prefix, fields@, per);
    let ghost start = error_views(errors@);
    let mut i: usize = 0;
    assert(start + gather(0, part) =~= start);
    while i < fields.len()
        invariant
            i <= fields.len(),
            prefix == match section_prefix {
                Some(prefix) => Some(prefix@),
                None => None,
            },
            per == per_field_errors(constraints@),
            part == field_part(tab_index as nat, *tab, prefix, fields@, per),
            error_views(errors@) == start + gather(i as nat, part),
        decreases fields.len() - i,
    {
        let ctx = FieldContext {
            tab_index,
            tab_id: tab.id.as_str(),
            field_index: i,
            field: &fields[i],
            section_prefix,
        };
        let ghost place = ctx.place();
        validate_field(errors, constraints, ctx);
        assert(part(i as int) == field_errors(constraints@, place, fields@[i as int]));
        assert(error_views(errors@) =~= start + gather((i + 1) as nat, part));
        i += 1;
    }
}

/// Appends the errors of the migrations.
pub fn validate_migrations(schema: &Schema, errors: &mut Vec<SchemaValidationError>)
    ensures
        error_views(final(errors)@) == error_views(old(errors)@) + migration_errors(
            schema.migrations@,
            schema.schema_version,
        ),
{
    let ghost start = error_views(errors@);
    let migrations = &schema.migrations;
    let ghost before = errors@;
    if migrations.len() > 0 && schema.schema_version.is_none() {
        let e = SchemaValidationError::MigrationsWithoutSchemaVersion;
        errors.push(e);
        proof {
            lemma_error_views_push(before, e);
        }
    }
    let ghost middle = error_views(errors@);
    let ghost part = migration_error(migrations@, schema.schema_version);
    let mut i: usize = 0;
    assert(middle + gather(0, part) =~= middle);
    while i < migrations.len()
        invariant
            i <= migrations.len(),
            migrations@ == schema.migrations@,
            part == migration_error(migrations@, schema.schema_version),
            error_views(errors@) == middle + gather(i as nat, part),
        decreases migrations.len() - i,
    {
        let ghost base = error_views(errors@);
        validate_migration(migrations, i, schema.schema_version, errors);
        assert(error_views(errors@) =~= middle + gather((i + 1) as nat, part));
        i += 1;
    }
    assert(error_views(errors@) =~= start + migration_errors(migrations@, schema.schema_version));
}

/// Appends the errors of the `i`-th migration.
fn validate_migration(
    migrations: &Vec<Migration>,
    i: usize,
    target: Option<u32>,
    errors: &mut Vec<SchemaValidationError>,
)
    requires
        i < migrations.len(),
    ensures
        error_views(final(errors)@) == error_views(old(errors)@) + migration_error(
            migrations@,
            target,
        )(i as int),
{
    let ghost start = error_views(errors@);
    let migration = &migrations[i];
    let version: u32 = migration.version;
    let ghost before = errors@;
    if migration_version_repeats(migrations, i) {
        let e = SchemaValidationError::DuplicateMigrationVersion { version };
        errors.push(e);
        proof {
            lemma_error_views_push(before, e);
        }
    }
    let ghost before = errors@;
    if let Some(target) = target {
        if version > target {
            let e = SchemaValidationError::MigrationVersionExceedsTarget { version, target };
            errors.push(e);
            proof {
                lemma_error_views_push(before, e);
            }
        }
    }
    let ghost middle = error_views(errors@);
    let ghost part = transform_error(*migration);
    let mut j: usize = 0;
    assert(middle + gather(0, part) =~= middle);
    while j < migration.transform.len()
        invariant
            j <= migration.transform.len(),
            version == migration.version,
            part == transform_error(*migration),
            error_views(errors@) == middle + gather(j as nat, part),
        decreases migration.transform.len() - j,
    {
        let ghost before = errors@;
        let transform = &migration.transform[j];
        if matches!(transform.kind, TransformKind::EnumToBool) && transform.match_value.is_none() {
            let mut location = "migration version=".to_owned();
            push_decimal(&mut location, version as u64);
            location.append(" transform from=");
            push_debug(&mut location, transform.from.as_str());
            location.append(" to=");
            push_debug(&mut location, transform.to.as_str());
            let e = SchemaValidationError::TransformMissingMatch { location };
            errors.push(e);
            proof {
                lemma_error_views_push(before, e);
            }
        }
        assert(error_views(errors@) =~= middle + gather((j + 1) as nat, part));
        j += 1;
    }
    assert(error_views(errors@) =~= start + migration_error(migrations@, target)(i as int));
}

impl Schema {
    /// Appends the errors of the schema's constraints and fields, expressions
    /// aside.
    fn validate_references(&self, errors: &mut Vec<SchemaValidationError>)
        ensures
            error_views(final(errors)@) == error_views(old(errors)@) + self.reference_errors(),
    {
        let ghost start = error_views(errors@);
        let ghost ids = id_error(self.constraints@);
        let mut c: usize = 0;
        assert(start + gather(0, ids) =~= start);
        while c < self.constraints.len()
            invariant
                c <= self.constraints.len(),
                ids == id_error(self.constraints@),
                error_views(errors@) == start + gather(c as nat, ids),
            decreases self.constraints.len() - c,
        {
            let ghost before = errors@;
            if constraint_id_repeats(&self.constraints, c) {
                let e = SchemaValidationError::DuplicateConstraintId {
                    id: self.constraints[c].id.clone(),
                };
                errors.push(e);
                proof {
                    lemma_error_views_push(before, e);
                }
            }
            assert(error_views(errors@) =~= start + gather((c + 1) as nat, ids));
            c += 1;
        }
        let ghost middle = error_views(errors@);
        let ghost per = per_field_errors(self.constraints@);
        let ghost part = tab_part(self.tabs@, per);
        let mut t: usize = 0;
        assert(middle + gather(0, part) =~= middle);
        while t < self.tabs.len()
            invariant
                t <= self.tabs.len(),
                per == per_field_errors(self.constraints@),
                part == tab_part(self.tabs@, per),
                error_views(errors@) == middle + gather(t as nat, part),
            decreases self.tabs.len() - t,
        {
            let tab = &self.tabs[t];
            let ghost before = error_views(errors@);
            if let Some(fields) = &tab.fields {
                validate_list(errors, &self.constraints, t, tab, None, fields);
            }
            let ghost own = over_own_fields(t as nat, *tab, per);
            assert(error_views(errors@) =~= before + own);
            if let Some(map) = &tab.section_map {
                validate_list(
                    errors,
                    &self.constraints,
                    t,
                    tab,
                    Some(map.key_prefix.as_str()),
                    &map.fields,
                );
            }
            let ghost sections = over_section_fields(t as nat, *tab, per);
            assert(error_views(errors@) =~= before + own + sections);
            assert(error_views(errors@) =~= middle + gather((t + 1) as nat, part));
            t += 1;
        }
        assert(error_views(errors@) =~= start + self.reference_errors());
    }

    /// Validate the schema, where compiling the expressions that
    /// [`Schema::cel_sites`] lists has had the given outcomes. This serves schemas with
    /// expressions that are too large to be compiled here, too.
    pub fn validate_with(&self, outcomes: &Vec<Result<(), String>>) -> (r: Result<
        (),
        Vec<SchemaValidationError>,
    >)
        requires
            outcomes.len() == self.all_sites().len(),
        ensures
            match r {
                Ok(()) => self.errors_given(outcome_views(outcomes@)).len() == 0,
                Err(errors) => error_views(errors@) == self.errors_given(outcome_views(outcomes@))
                    && errors.len() > 0,
            },
    {
        let sites = self.cel_sites();
        assert(sites@.len() == site_views(sites@).len());
        let mut errors: Vec<SchemaValidationError> = Vec::new();
        let ghost none = error_views(errors@);
        self.validate_references(&mut errors);
        assert(error_views(errors@) =~= self.reference_errors());
        report_cel_outcomes(&sites, outcomes, &mut errors);
        validate_migrations(self, &mut errors);
        assert(error_views(errors@) == self.errors_given(outcome_views(outcomes@)));
        assert(errors@.len() == error_views(errors@).len());
        if errors.len() == 0 {
            Ok(())
        } else {
            Err(errors)
        }
    }

    /// Validate cross-references and field/rule consistency.
    ///
    /// Returns all errors at once so schema authors can fix them in one pass.
    pub fn validate(&self) -> (r: Result<(), Vec<SchemaValidationError>>)
        requires
            all_compilable(self.all_sites()),
        ensures
            match r {
                Ok(()) => self.all_errors().len() == 0,
                Err(errors) => error_views(errors@) == self.all_errors() && errors.len() > 0,
            },
    {
        let sites = self.cel_sites();
        let outcomes = compile_sites(&sites);
        assert(outcomes@.len() == outcome_views(outcomes@).len());
        self.validate_with(&outcomes)
    }

    /// [`Schema::validate`] for any schema: `None` where the schema holds an
    /// expression that is too large to be compiled.
    pub fn validate_if_compilable(&self) -> (r: Option<Result<(), Vec<SchemaValidationError>>>)
        ensures
            match r {
                None => !all_compilable(self.all_sites()),
                Some(Ok(())) => all_compilable(self.all_sites()) && self.all_errors().len() == 0,
                Some(Err(errors)) => all_compilable(self.all_sites()) && error_views(errors@)
                    == self.all_errors() && errors.len() > 0,
            },
    {
        let sites = self.cel_sites();
        if are_compilable(&sites) {
            Some(self.validate())
        } else {
            None
        }
    }
}

} // verus!
