//! That validation reports everything that is wrong with a schema, and nothing else: for
//! each kind of error, when it is reported.

use crate::context::{
    lemma_gather_agrees, over_tabs, place_of, stands_in, walk_holds_what_fields_yield,
};
use crate::errors::ErrorView;
use crate::expressions::{
    cel_accepts, cel_complaint, cel_errors, cel_outcome, constraint_site, enabled_site, field_sites,
    inline_site, per_field_sites, site_error, site_outcomes, SiteView,
};
use crate::model::{
    widget_name, Constraint, Field, OptionState, Schema, TransformKind, ValidateEntry, WidgetKind,
};
use crate::rules::{
    constraint_for, constraint_for_is_defined_iff_listed, id_stands_for_its_last_constraint,
    lemma_last_constraint,
};
use crate::text::{
    debug_text, decimal, gather, gather_holds_what_its_parts_hold, gather_keeps_order,
    lemma_either_holds, lemma_one_held, texts,
};
use crate::validate::{
    constraint_ids, field_errors, id_error, migration_error, migration_errors, migration_versions,
    option_error, option_states_errors, per_field_errors, ref_error, repeated_value_error, repeats,
    rule_count_error, state_errors, state_values, transform_error, when_error,
};
use vstd::prelude::*;
use vstd::string::*;

verus! {

/// Whether some field of the schema is at the place, and something holds of it.
pub open spec fn some_field(
    schema: Schema,
    location: Seq<char>,
    holds: spec_fn(Field) -> bool,
) -> bool {
    exists|t: int, m: bool, i: int, field: Field|
        #![trigger stands_in(schema.tabs@[t], m, i, field)]
        0 <= t < schema.tabs@.len() && stands_in(schema.tabs@[t], m, i, field) && location
            == place_of(schema.tabs@, t, m, i, field) && holds(field)
}

/// Whether the id is that of a constraint.
pub open spec fn is_listed(constraints: Seq<Constraint>, id: Seq<char>) -> bool {
    exists|i: int| 0 <= i < constraints.len() && (#[trigger] constraints[i]).id@ == id
}

/// Whether the id stands for a constraint, and the last one with that id has no message.
pub open spec fn lacks_message(constraints: Seq<Constraint>, id: Seq<char>) -> bool {
    exists|i: int|
        {
            &&& 0 <= i < constraints.len()
            &&& (#[trigger] constraints[i]).id@ == id
            &&& constraints[i].message is None
            &&& forall|j: int| i < j < constraints.len() ==> (#[trigger] constraints[j]).id@ != id
        }
}

/// Whether a `validate` entry of the field refers to the id.
pub open spec fn validates_by(field: Field, id: Seq<char>) -> bool {
    exists|k: int|
        0 <= k < field.validate@.len() && ((#[trigger] field.validate@[k]) matches ValidateEntry::Ref(
            r,
        ) && r@ == id)
}

/// Whether something holds of one of the field's option states, where its widget has them.
pub open spec fn some_state(field: Field, holds: spec_fn(int, OptionState) -> bool) -> bool {
    (field.widget == WidgetKind::SegmentedControl || field.widget == WidgetKind::Select)
        && exists|k: int|
        0 <= k < field.option_states@.len() && #[trigger] holds(k, field.option_states@[k])
}

proof fn lemma_four_hold<E>(a: Seq<E>, b: Seq<E>, c: Seq<E>, d: Seq<E>, e: E)
    ensures
        (a + b + c + d).contains(e) <==> a.contains(e) || b.contains(e) || c.contains(e)
            || d.contains(e),
{
    lemma_either_holds(a, b, e);
    lemma_either_holds(a + b, c, e);
    lemma_either_holds(a + b + c, d, e);
}

/// What the errors of a field hold.
proof fn lemma_field_holds(
    constraints: Seq<Constraint>,
    location: Seq<char>,
    field: Field,
    e: ErrorView,
)
    ensures
        field_errors(constraints, location, field).contains(e) <==> {
            ||| exists|k: int|
                0 <= k < field.validate@.len() && (#[trigger] ref_error(
                    constraints,
                    location,
                    field.validate@,
                )(k)).contains(e)
            ||| field.option_states@.len() > 0 && !field.widget.has_option_states() && e == (
            ErrorView::OptionStatesUnsupportedWidget { location, widget: widget_name(field.widget) })
            ||| field.widget.has_option_states() && exists|k: int|
                0 <= k < field.option_states@.len() && (#[trigger] state_errors(
                    constraints,
                    location,
                    field,
                )(k)).contains(e)
        },
{
    let refs = ref_error(constraints, location, field.validate@);
    let states = state_errors(constraints, location, field);
    gather_holds_what_its_parts_hold(field.validate@.len(), refs, e);
    gather_holds_what_its_parts_hold(field.option_states@.len(), states, e);
    lemma_either_holds(
        gather(field.validate@.len(), refs),
        option_states_errors(constraints, location, field),
        e,
    );
    lemma_one_held(
        ErrorView::OptionStatesUnsupportedWidget { location, widget: widget_name(field.widget) },
        e,
    );
}

/// What the errors of an option state hold.
proof fn lemma_state_holds(
    constraints: Seq<Constraint>,
    location: Seq<char>,
    field: Field,
    k: int,
    e: ErrorView,
)
    requires
        0 <= k < field.option_states@.len(),
    ensures
        ({
            let state = field.option_states@[k];
            let value = state.value@;
            state_errors(constraints, location, field)(k).contains(e) <==> {
                ||| state.when is Some && state.enabled is Some && e == (
                ErrorView::OptionStateConflict { location, value })
                ||| state.when is None && state.enabled is None && e == (
                ErrorView::OptionStateMissingRule { location, value })
                ||| (state.when matches Some(id) && constraint_for(constraints, id@) is None && e
                    == (ErrorView::UnknownConstraintRef { id: id@, location }))
                ||| repeats(state_values(field.option_states@), k) && e == (
                ErrorView::DuplicateOptionStateValue { location, value })
                ||| (field.options matches Some(options) && !texts(options@).contains(
                    value,
                ) && e == (ErrorView::UnknownOptionValue { location, value }))
            }
        }),
{
    let state = field.option_states@[k];
    let value = state.value@;
    let a = rule_count_error(location, state);
    let b = when_error(constraints, location, state);
    let c = repeated_value_error(location, field.option_states@, k);
    let d = option_error(location, field.options, state);
    lemma_four_hold(a, b, c, d, e);
    lemma_one_held(ErrorView::OptionStateConflict { location, value }, e);
    lemma_one_held(ErrorView::OptionStateMissingRule { location, value }, e);
    if let Some(id) = state.when {
        lemma_one_held(ErrorView::UnknownConstraintRef { id: id@, location }, e);
    }
    lemma_one_held(ErrorView::DuplicateOptionStateValue { location, value }, e);
    lemma_one_held(ErrorView::UnknownOptionValue { location, value }, e);
}

/// What the `k`-th `validate` entry reports.
proof fn lemma_ref_holds(
    constraints: Seq<Constraint>,
    location: Seq<char>,
    field: Field,
    k: int,
    e: ErrorView,
)
    requires
        0 <= k < field.validate@.len(),
    ensures
        ref_error(constraints, location, field.validate@)(k).contains(e) <==> (
        field.validate@[k] matches ValidateEntry::Ref(id) && {
            ||| constraint_for(constraints, id@) is None && e == (ErrorView::UnknownConstraintRef {
                id: id@,
                location,
            })
            ||| (constraint_for(constraints, id@) matches Some(c) && c.message is None && e == (
            ErrorView::MissingConstraintMessage { id: id@, location }))
        }),
{
    if let ValidateEntry::Ref(id) = field.validate@[k] {
        lemma_one_held(ErrorView::UnknownConstraintRef { id: id@, location }, e);
        lemma_one_held(ErrorView::MissingConstraintMessage { id: id@, location }, e);
    }
}

/// Whether the error is about a field, expressions aside.
spec fn is_field_error(e: ErrorView) -> bool {
    match e {
        ErrorView::UnknownConstraintRef { .. } => true,
        ErrorView::MissingConstraintMessage { .. } => true,
        ErrorView::OptionStatesUnsupportedWidget { .. } => true,
        ErrorView::OptionStateConflict { .. } => true,
        ErrorView::OptionStateMissingRule { .. } => true,
        ErrorView::DuplicateOptionStateValue { .. } => true,
        ErrorView::UnknownOptionValue { .. } => true,
        _ => false,
    }
}

spec fn is_migration_error(e: ErrorView) -> bool {
    match e {
        ErrorView::DuplicateMigrationVersion { .. } => true,
        ErrorView::MigrationVersionExceedsTarget { .. } => true,
        ErrorView::MigrationsWithoutSchemaVersion => true,
        ErrorView::TransformMissingMatch { .. } => true,
        _ => false,
    }
}

proof fn lemma_ids_hold(constraints: Seq<Constraint>, e: ErrorView)
    ensures
        gather(constraints.len(), id_error(constraints)).contains(e) <==> exists|j: int|
            0 <= j < constraints.len() && repeats(constraint_ids(constraints), j) && e == (
            ErrorView::DuplicateConstraintId { id: (#[trigger] constraints[j]).id@ }),
{
    let part = id_error(constraints);
    gather_holds_what_its_parts_hold(constraints.len(), part, e);
    assert forall|j: int| 0 <= j < constraints.len() implies ((#[trigger] part(j)).contains(e)
        <==> repeats(constraint_ids(constraints), j) && e == (ErrorView::DuplicateConstraintId {
        id: constraints[j].id@,
    })) by {
        lemma_one_held(ErrorView::DuplicateConstraintId { id: constraints[j].id@ }, e);
    }
    if exists|j: int|
        0 <= j < constraints.len() && repeats(constraint_ids(constraints), j) && e == (
        ErrorView::DuplicateConstraintId { id: (#[trigger] constraints[j]).id@ }) {
        let j = choose|j: int|
            0 <= j < constraints.len() && repeats(constraint_ids(constraints), j) && e == (
            ErrorView::DuplicateConstraintId { id: (#[trigger] constraints[j]).id@ });
        assert(part(j).contains(e));
    }
}

proof fn lemma_cel_holds(schema: Schema, e: ErrorView)
    ensures
        cel_errors(schema.all_sites(), site_outcomes(schema.all_sites())).contains(e) <==> (
        e matches ErrorView::InvalidCelExpression { location, expr, detail } && !cel_accepts(expr)
            && detail == cel_complaint(expr) && schema.all_sites().contains(
            (SiteView { location, expr }),
        )),
{
    let sites = schema.all_sites();
    let part = site_error(sites, site_outcomes(sites));
    gather_holds_what_its_parts_hold(sites.len(), part, e);
    assert forall|i: int| 0 <= i < sites.len() implies ((#[trigger] part(i)).contains(e) <==> (
    !cel_accepts(sites[i].expr) && e == (ErrorView::InvalidCelExpression {
        location: sites[i].location,
        expr: sites[i].expr,
        detail: cel_complaint(sites[i].expr),
    }))) by {
        assert(site_outcomes(sites)[i] == cel_outcome(sites[i].expr));
        lemma_one_held(
            ErrorView::InvalidCelExpression {
                location: sites[i].location,
                expr: sites[i].expr,
                detail: cel_complaint(sites[i].expr),
            },
            e,
        );
    }
    if let ErrorView::InvalidCelExpression { location, expr, detail } = e {
        let site = SiteView { location, expr };
        if sites.contains(site) && !cel_accepts(expr) && detail == cel_complaint(expr) {
            let i = choose|i: int| 0 <= i < sites.len() && sites[i] == site;
            assert(part(i).contains(e));
        }
        if exists|i: int| 0 <= i < sites.len() && (#[trigger] part(i)).contains(e) {
            let i = choose|i: int| 0 <= i < sites.len() && (#[trigger] part(i)).contains(e);
            assert(sites[i] == site);
        }
    }
}

proof fn lemma_migrations_hold(schema: Schema, e: ErrorView)
    ensures
        migration_errors(schema.migrations@, schema.schema_version).contains(e) <==> {
            ||| schema.migrations@.len() > 0 && schema.schema_version is None && e
                == ErrorView::MigrationsWithoutSchemaVersion
            ||| exists|i: int|
                0 <= i < schema.migrations@.len() && (#[trigger] migration_error(
                    schema.migrations@,
                    schema.schema_version,
                )(i)).contains(e)
        },
{
    let part = migration_error(schema.migrations@, schema.schema_version);
    gather_holds_what_its_parts_hold(schema.migrations@.len(), part, e);
    lemma_one_held(ErrorView::MigrationsWithoutSchemaVersion, e);
    let first = if schema.migrations@.len() > 0 && schema.schema_version is None {
        seq![ErrorView::MigrationsWithoutSchemaVersion]
    } else {
        Seq::empty()
    };
    lemma_either_holds(first, gather(schema.migrations@.len(), part), e);
}

/// What a migration reports.
proof fn lemma_migration_holds(schema: Schema, i: int, e: ErrorView)
    requires
        0 <= i < schema.migrations@.len(),
    ensures
        ({
            let version = schema.migrations@[i].version;
            let transforms = schema.migrations@[i].transform@;
            migration_error(schema.migrations@, schema.schema_version)(i).contains(e) <==> {
                ||| repeats(migration_versions(schema.migrations@), i) && e == (
                ErrorView::DuplicateMigrationVersion { version })
                ||| (schema.schema_version matches Some(target) && version > target && e == (
                ErrorView::MigrationVersionExceedsTarget { version, target }))
                ||| exists|j: int|
                    0 <= j < transforms.len() && (#[trigger] transforms[j]).kind
                        == TransformKind::EnumToBool && transforms[j].match_value is None && e == (
                    ErrorView::TransformMissingMatch {
                        location: "migration version="@ + decimal(version as nat)
                            + " transform from="@ + debug_text(transforms[j].from@) + " to="@
                            + debug_text(transforms[j].to@),
                    })
            }
        }),
{
    let migrations = schema.migrations@;
    let version = migrations[i].version;
    let transforms = migrations[i].transform@;
    let repeated = if repeats(migration_versions(migrations), i) {
        seq![ErrorView::DuplicateMigrationVersion { version }]
    } else {
        Seq::empty()
    };
    let beyond = match schema.schema_version {
        Some(target) if version > target => seq![
            ErrorView::MigrationVersionExceedsTarget { version, target },
        ],
        _ => Seq::empty(),
    };
    let part = transform_error(migrations[i]);
    let rest = gather(transforms.len(), part);
    assert(migration_error(migrations, schema.schema_version)(i) == repeated + beyond + rest);
    lemma_either_holds(repeated, beyond, e);
    lemma_either_holds(repeated + beyond, rest, e);
    lemma_one_held(ErrorView::DuplicateMigrationVersion { version }, e);
    if let Some(target) = schema.schema_version {
        lemma_one_held(ErrorView::MigrationVersionExceedsTarget { version, target }, e);
    }
    gather_holds_what_its_parts_hold(transforms.len(), part, e);
    assert forall|j: int| 0 <= j < transforms.len() implies ((#[trigger] part(j)).contains(e) <==> (
    transforms[j].kind == TransformKind::EnumToBool && transforms[j].match_value is None && e == (
    ErrorView::TransformMissingMatch {
        location: "migration version="@ + decimal(version as nat) + " transform from="@
            + debug_text(transforms[j].from@) + " to="@ + debug_text(transforms[j].to@),
    }))) by {
        lemma_one_held(
            ErrorView::TransformMissingMatch {
                location: "migration version="@ + decimal(version as nat) + " transform from="@
                    + debug_text(transforms[j].from@) + " to="@ + debug_text(transforms[j].to@),
            },
            e,
        );
    }
    if exists|j: int|
        0 <= j < transforms.len() && (#[trigger] transforms[j]).kind == TransformKind::EnumToBool
            && transforms[j].match_value is None && e == (ErrorView::TransformMissingMatch {
            location: "migration version="@ + decimal(version as nat) + " transform from="@
                + debug_text(transforms[j].from@) + " to="@ + debug_text(transforms[j].to@),
        }) {
        let j = choose|j: int|
            0 <= j < transforms.len() && (#[trigger] transforms[j]).kind
                == TransformKind::EnumToBool && transforms[j].match_value is None && e == (
            ErrorView::TransformMissingMatch {
                location: "migration version="@ + decimal(version as nat) + " transform from="@
                    + debug_text(transforms[j].from@) + " to="@ + debug_text(transforms[j].to@),
            });
        assert(part(j).contains(e));
    }
}

/// The errors of a schema are those of its ids, its fields, its expressions and its
/// migrations.
proof fn lemma_errors_hold(schema: Schema, e: ErrorView)
    ensures
        schema.all_errors().contains(e) <==> {
            ||| gather(schema.constraints@.len(), id_error(schema.constraints@)).contains(e)
            ||| over_tabs(schema.tabs@, per_field_errors(schema.constraints@)).contains(e)
            ||| cel_errors(schema.all_sites(), site_outcomes(schema.all_sites())).contains(e)
            ||| migration_errors(schema.migrations@, schema.schema_version).contains(e)
        },
{
    lemma_four_hold(
        gather(schema.constraints@.len(), id_error(schema.constraints@)),
        over_tabs(schema.tabs@, per_field_errors(schema.constraints@)),
        cel_errors(schema.all_sites(), site_outcomes(schema.all_sites())),
        migration_errors(schema.migrations@, schema.schema_version),
        e,
    );
}

/// The kinds of errors come from their own parts of the schema alone.
proof fn lemma_kinds(constraints: Seq<Constraint>, location: Seq<char>, field: Field, e: ErrorView)
    ensures
        field_errors(constraints, location, field).contains(e) ==> is_field_error(e),
{
    lemma_field_holds(constraints, location, field, e);
    if field_errors(constraints, location, field).contains(e) {
        if exists|k: int|
            0 <= k < field.validate@.len() && (#[trigger] ref_error(
                constraints,
                location,
                field.validate@,
            )(k)).contains(e) {
            let k = choose|k: int|
                0 <= k < field.validate@.len() && (#[trigger] ref_error(
                    constraints,
                    location,
                    field.validate@,
                )(k)).contains(e);
            lemma_ref_holds(constraints, location, field, k, e);
        } else if field.widget.has_option_states() {
            let k = choose|k: int|
                0 <= k < field.option_states@.len() && (#[trigger] state_errors(
                    constraints,
                    location,
                    field,
                )(k)).contains(e);
            lemma_state_holds(constraints, location, field, k, e);
        }
    }
}

proof fn lemma_migration_kinds(schema: Schema, e: ErrorView)
    ensures
        migration_errors(schema.migrations@, schema.schema_version).contains(e)
            ==> is_migration_error(e),
{
    lemma_migrations_hold(schema, e);
    let part = migration_error(schema.migrations@, schema.schema_version);
    if exists|i: int| 0 <= i < schema.migrations@.len() && (#[trigger] part(i)).contains(e) {
        let i = choose|i: int|
            0 <= i < schema.migrations@.len() && (#[trigger] part(i)).contains(e);
        lemma_migration_holds(schema, i, e);
    }
}

proof fn lemma_walk_kinds(schema: Schema, e: ErrorView)
    ensures
        over_tabs(schema.tabs@, per_field_errors(schema.constraints@)).contains(e)
            ==> is_field_error(e),
{
    let per = per_field_errors(schema.constraints@);
    walk_holds_what_fields_yield(schema.tabs@, per, e);
    if over_tabs(schema.tabs@, per).contains(e) {
        let (t, m, i, field) = choose|t: int, m: bool, i: int, field: Field|
            #![trigger stands_in(schema.tabs@[t], m, i, field)]
            0 <= t < schema.tabs@.len() && stands_in(schema.tabs@[t], m, i, field) && per(
                place_of(schema.tabs@, t, m, i, field),
                field,
            ).contains(e);
        lemma_kinds(schema.constraints@, place_of(schema.tabs@, t, m, i, field), field, e);
    }
}

/// An error about a field is reported exactly when there is such a field.
proof fn lemma_field_error_reported(
    schema: Schema,
    e: ErrorView,
    location: Seq<char>,
    holds: spec_fn(Field) -> bool,
)
    requires
        is_field_error(e),
        forall|place: Seq<char>, field: Field|
            #[trigger] field_errors(schema.constraints@, place, field).contains(e) <==> place
                == location && holds(field),
    ensures
        schema.all_errors().contains(e) <==> some_field(schema, location, holds),
{
    let per = per_field_errors(schema.constraints@);
    lemma_errors_hold(schema, e);
    lemma_ids_hold(schema.constraints@, e);
    lemma_cel_holds(schema, e);
    lemma_migration_kinds(schema, e);
    walk_holds_what_fields_yield(schema.tabs@, per, e);
    assert forall|t: int, m: bool, i: int, field: Field|
        0 <= t < schema.tabs@.len() && #[trigger] stands_in(schema.tabs@[t], m, i, field) implies (
    per(place_of(schema.tabs@, t, m, i, field), field).contains(e) <==> location == place_of(
        schema.tabs@,
        t,
        m,
        i,
        field,
    ) && holds(field)) by {
        assert(field_errors(
            schema.constraints@,
            place_of(schema.tabs@, t, m, i, field),
            field,
        ).contains(e) <==> place_of(schema.tabs@, t, m, i, field) == location && holds(field));
    }
    if some_field(schema, location, holds) {
        let (t, m, i, field) = choose|t: int, m: bool, i: int, field: Field|
            #![trigger stands_in(schema.tabs@[t], m, i, field)]
            0 <= t < schema.tabs@.len() && stands_in(schema.tabs@[t], m, i, field) && location
                == place_of(schema.tabs@, t, m, i, field) && holds(field);
        assert(stands_in(schema.tabs@[t], m, i, field));
    }
    if over_tabs(schema.tabs@, per).contains(e) {
        let (t, m, i, field) = choose|t: int, m: bool, i: int, field: Field|
            #![trigger stands_in(schema.tabs@[t], m, i, field)]
            0 <= t < schema.tabs@.len() && stands_in(schema.tabs@[t], m, i, field) && per(
                place_of(schema.tabs@, t, m, i, field),
                field,
            ).contains(e);
        assert(stands_in(schema.tabs@[t], m, i, field));
    }
}

/// A duplicate id is reported exactly when two constraints carry it.
pub proof fn duplicate_ids_are_reported(schema: Schema, id: Seq<char>)
    ensures
        schema.all_errors().contains(ErrorView::DuplicateConstraintId { id }) <==> exists|
            i: int,
            j: int,
        |
            0 <= i < j < schema.constraints@.len() && (#[trigger] schema.constraints@[i]).id@ == id
                && (#[trigger] schema.constraints@[j]).id@ == id,
{
    let e = ErrorView::DuplicateConstraintId { id };
    let constraints = schema.constraints@;
    let ids = constraint_ids(constraints);
    lemma_errors_hold(schema, e);
    lemma_ids_hold(constraints, e);
    lemma_cel_holds(schema, e);
    lemma_migration_kinds(schema, e);
    lemma_walk_kinds(schema, e);
    if schema.all_errors().contains(e) {
        let j = choose|j: int|
            0 <= j < constraints.len() && repeats(ids, j) && e == (
            ErrorView::DuplicateConstraintId { id: (#[trigger] constraints[j]).id@ });
        let i = choose|i: int| 0 <= i < j && #[trigger] ids[i] == ids[j];
        assert(constraints[i].id@ == id && constraints[j].id@ == id);
    }
    if exists|i: int, j: int|
        0 <= i < j < constraints.len() && (#[trigger] constraints[i]).id@ == id && (
        #[trigger] constraints[j]).id@ == id {
        let (i, j) = choose|i: int, j: int|
            0 <= i < j < constraints.len() && (#[trigger] constraints[i]).id@ == id && (
            #[trigger] constraints[j]).id@ == id;
        assert(ids[i] == ids[j]);
        assert(repeats(ids, j));
    }
}

proof fn lemma_listed(constraints: Seq<Constraint>, id: Seq<char>)
    ensures
        constraint_for(constraints, id) is Some <==> is_listed(constraints, id),
        (constraint_for(constraints, id) matches Some(c) && c.message is None) <==> lacks_message(
            constraints,
            id,
        ),
{
    constraint_for_is_defined_iff_listed(constraints, id);
    if constraint_for(constraints, id) is Some {
        let i = lemma_last_constraint(constraints, id);
        assert(constraints[i].id@ == id);
    }
    if lacks_message(constraints, id) {
        let i = choose|i: int|
            {
                &&& 0 <= i < constraints.len()
                &&& (#[trigger] constraints[i]).id@ == id
                &&& constraints[i].message is None
                &&& forall|j: int|
                    i < j < constraints.len() ==> (#[trigger] constraints[j]).id@ != id
            };
        id_stands_for_its_last_constraint(constraints, id, i);
    }
}

/// A reference is reported as unknown exactly when no constraint carries its id, and a
/// field at that place refers to it in `validate` or in the `when` of an option state.
pub proof fn unknown_references_are_reported(schema: Schema, id: Seq<char>, location: Seq<char>)
    ensures
        schema.all_errors().contains(ErrorView::UnknownConstraintRef { id, location })
            <==> !is_listed(schema.constraints@, id) && some_field(
            schema,
            location,
            |field: Field|
                validates_by(field, id) || some_state(
                    field,
                    |k: int, state: OptionState| state.when matches Some(w) && w@ == id,
                ),
        ),
{
    let e = ErrorView::UnknownConstraintRef { id, location };
    let constraints = schema.constraints@;
    let referred = |k: int, state: OptionState| state.when matches Some(w) && w@ == id;
    let cause = |field: Field| validates_by(field, id) || some_state(field, referred);
    let holds = |field: Field| !is_listed(constraints, id) && cause(field);
    lemma_listed(constraints, id);
    assert forall|place: Seq<char>, field: Field| #[trigger]
        field_errors(constraints, place, field).contains(e) <==> place == location && holds(
        field,
    ) by {
        let refs = ref_error(constraints, place, field.validate@);
        let states = state_errors(constraints, place, field);
        lemma_field_holds(constraints, place, field, e);
        assert forall|k: int| 0 <= k < field.validate@.len() implies ((#[trigger] refs(
            k,
        )).contains(e) <==> (field.validate@[k] matches ValidateEntry::Ref(r) && r@ == id
            && !is_listed(constraints, id) && place == location)) by {
            lemma_ref_holds(constraints, place, field, k, e);
            if let ValidateEntry::Ref(r) = field.validate@[k] {
                lemma_listed(constraints, r@);
            }
        }
        assert forall|k: int| 0 <= k < field.option_states@.len() implies ((#[trigger] states(
            k,
        )).contains(e) <==> referred(k, field.option_states@[k]) && !is_listed(constraints, id)
            && place == location) by {
            lemma_state_holds(constraints, place, field, k, e);
            if let Some(w) = field.option_states@[k].when {
                lemma_listed(constraints, w@);
            }
        }
        if place == location && holds(field) {
            if validates_by(field, id) {
                let k = choose|k: int|
                    0 <= k < field.validate@.len() && ((
                    #[trigger] field.validate@[k]) matches ValidateEntry::Ref(r) && r@ == id);
                assert(refs(k).contains(e));
            } else {
                let k = choose|k: int|
                    0 <= k < field.option_states@.len() && #[trigger] referred(
                        k,
                        field.option_states@[k],
                    );
                assert(states(k).contains(e));
            }
        }
        if field_errors(constraints, place, field).contains(e) {
            if exists|k: int| 0 <= k < field.validate@.len() && (#[trigger] refs(k)).contains(e) {
                let k = choose|k: int|
                    0 <= k < field.validate@.len() && (#[trigger] refs(k)).contains(e);
                assert(field.validate@[k] is Ref);
                assert(validates_by(field, id));
            } else {
                let k = choose|k: int|
                    0 <= k < field.option_states@.len() && (#[trigger] states(k)).contains(e);
                assert(referred(k, field.option_states@[k]));
                assert(some_state(field, referred));
            }
        }
    }
    lemma_field_error_reported(schema, e, location, holds);
    lemma_same_fields(schema, location, holds, cause, !is_listed(constraints, id));
}

/// A condition that does not depend on the field can be stated before it.
proof fn lemma_same_fields(
    schema: Schema,
    location: Seq<char>,
    holds: spec_fn(Field) -> bool,
    cause: spec_fn(Field) -> bool,
    always: bool,
)
    requires
        forall|field: Field| #[trigger] holds(field) <==> always && cause(field),
    ensures
        some_field(schema, location, holds) <==> always && some_field(schema, location, cause),
{
    if some_field(schema, location, holds) {
        let (t, m, i, field) = choose|t: int, m: bool, i: int, field: Field|
            #![trigger stands_in(schema.tabs@[t], m, i, field)]
            0 <= t < schema.tabs@.len() && stands_in(schema.tabs@[t], m, i, field) && location
                == place_of(schema.tabs@, t, m, i, field) && holds(field);
        assert(stands_in(schema.tabs@[t], m, i, field) && cause(field));
    }
    if always && some_field(schema, location, cause) {
        let (t, m, i, field) = choose|t: int, m: bool, i: int, field: Field|
            #![trigger stands_in(schema.tabs@[t], m, i, field)]
            0 <= t < schema.tabs@.len() && stands_in(schema.tabs@[t], m, i, field) && location
                == place_of(schema.tabs@, t, m, i, field) && cause(field);
        assert(stands_in(schema.tabs@[t], m, i, field) && holds(field));
    }
}

/// A missing message is reported exactly when a field at that place refers, in `validate`,
/// to an id whose last constraint has none.
pub proof fn missing_messages_are_reported(schema: Schema, id: Seq<char>, location: Seq<char>)
    ensures
        schema.all_errors().contains(ErrorView::MissingConstraintMessage { id, location })
            <==> lacks_message(schema.constraints@, id) && some_field(
            schema,
            location,
            |field: Field| validates_by(field, id),
        ),
{
    let e = ErrorView::MissingConstraintMessage { id, location };
    let constraints = schema.constraints@;
    let cause = |field: Field| validates_by(field, id);
    let holds = |field: Field| lacks_message(constraints, id) && cause(field);
    lemma_listed(constraints, id);
    assert forall|place: Seq<char>, field: Field| #[trigger]
        field_errors(constraints, place, field).contains(e) <==> place == location && holds(
        field,
    ) by {
        let refs = ref_error(constraints, place, field.validate@);
        lemma_field_holds(constraints, place, field, e);
        assert forall|k: int| 0 <= k < field.validate@.len() implies ((#[trigger] refs(
            k,
        )).contains(e) <==> (field.validate@[k] matches ValidateEntry::Ref(r) && r@ == id
            && lacks_message(constraints, id) && place == location)) by {
            lemma_ref_holds(constraints, place, field, k, e);
            if let ValidateEntry::Ref(r) = field.validate@[k] {
                lemma_listed(constraints, r@);
            }
        }
        assert forall|k: int| 0 <= k < field.option_states@.len() implies !(
        #[trigger] state_errors(constraints, place, field)(k)).contains(e) by {
            lemma_state_holds(constraints, place, field, k, e);
        }
        if place == location && holds(field) {
            let k = choose|k: int|
                0 <= k < field.validate@.len() && ((
                #[trigger] field.validate@[k]) matches ValidateEntry::Ref(r) && r@ == id);
            assert(refs(k).contains(e));
        }
        if field_errors(constraints, place, field).contains(e) {
            let k = choose|k: int|
                0 <= k < field.validate@.len() && (#[trigger] refs(k)).contains(e);
            assert(field.validate@[k] is Ref);
        }
    }
    lemma_field_error_reported(schema, e, location, holds);
    lemma_same_fields(schema, location, holds, cause, lacks_message(constraints, id));
}

/// Option states are reported as out of place exactly when a field at that place has some
/// and its widget is neither a segmented control nor a select.
pub proof fn misplaced_option_states_are_reported(
    schema: Schema,
    location: Seq<char>,
    widget: Seq<char>,
)
    ensures
        schema.all_errors().contains(ErrorView::OptionStatesUnsupportedWidget { location, widget })
            <==> some_field(
            schema,
            location,
            |field: Field|
                field.option_states@.len() > 0 && field.widget != WidgetKind::SegmentedControl
                    && field.widget != WidgetKind::Select && widget == widget_name(field.widget),
        ),
{
    let e = ErrorView::OptionStatesUnsupportedWidget { location, widget };
    let constraints = schema.constraints@;
    let holds = |field: Field|
        field.option_states@.len() > 0 && field.widget != WidgetKind::SegmentedControl
            && field.widget != WidgetKind::Select && widget == widget_name(field.widget);
    assert forall|place: Seq<char>, field: Field| #[trigger]
        field_errors(constraints, place, field).contains(e) <==> place == location && holds(
        field,
    ) by {
        lemma_field_holds(constraints, place, field, e);
        assert forall|k: int| 0 <= k < field.validate@.len() implies !(#[trigger] ref_error(
            constraints,
            place,
            field.validate@,
        )(k)).contains(e) by {
            lemma_ref_holds(constraints, place, field, k, e);
        }
        assert forall|k: int| 0 <= k < field.option_states@.len() implies !(
        #[trigger] state_errors(constraints, place, field)(k)).contains(e) by {
            lemma_state_holds(constraints, place, field, k, e);
        }
    }
    lemma_field_error_reported(schema, e, location, holds);
}

/// An error about an option state is reported exactly when there is such a state.
proof fn lemma_state_error_reported(
    schema: Schema,
    e: ErrorView,
    location: Seq<char>,
    holds: spec_fn(Field) -> spec_fn(int, OptionState) -> bool,
)
    requires
        is_field_error(e),
        !(e is UnknownConstraintRef) && !(e is MissingConstraintMessage) && !(
        e is OptionStatesUnsupportedWidget),
        forall|place: Seq<char>, field: Field, k: int|
            0 <= k < field.option_states@.len() ==> ((#[trigger] state_errors(
                schema.constraints@,
                place,
                field,
            )(k)).contains(e) <==> place == location && holds(field)(k, field.option_states@[k])),
    ensures
        schema.all_errors().contains(e) <==> some_field(
            schema,
            location,
            |field: Field| some_state(field, holds(field)),
        ),
{
    let constraints = schema.constraints@;
    let cause = |field: Field| some_state(field, holds(field));
    assert forall|place: Seq<char>, field: Field| #[trigger]
        field_errors(constraints, place, field).contains(e) <==> place == location && cause(
        field,
    ) by {
        let states = state_errors(constraints, place, field);
        lemma_field_holds(constraints, place, field, e);
        assert forall|k: int| 0 <= k < field.validate@.len() implies !(#[trigger] ref_error(
            constraints,
            place,
            field.validate@,
        )(k)).contains(e) by {
            lemma_ref_holds(constraints, place, field, k, e);
        }
        let state_holds = holds(field);
        if place == location && cause(field) {
            let k = choose|k: int|
                0 <= k < field.option_states@.len() && #[trigger] state_holds(
                    k,
                    field.option_states@[k],
                );
            assert(states(k).contains(e));
        }
        if field_errors(constraints, place, field).contains(e) {
            let k = choose|k: int|
                0 <= k < field.option_states@.len() && (#[trigger] states(k)).contains(e);
            assert(state_holds(k, field.option_states@[k]));
        }
    }
    lemma_field_error_reported(schema, e, location, cause);
}

/// An option state with two rules is reported exactly when one at that place has both
/// `when` and `enabled`.
pub proof fn conflicting_option_states_are_reported(
    schema: Schema,
    location: Seq<char>,
    value: Seq<char>,
)
    ensures
        schema.all_errors().contains(ErrorView::OptionStateConflict { location, value })
            <==> some_field(
            schema,
            location,
            |field: Field|
                some_state(
                    field,
                    |k: int, state: OptionState|
                        state.value@ == value && state.when is Some && state.enabled is Some,
                ),
        ),
{
    let e = ErrorView::OptionStateConflict { location, value };
    let holds = |field: Field|
        |k: int, state: OptionState|
            state.value@ == value && state.when is Some && state.enabled is Some;
    assert forall|place: Seq<char>, field: Field, k: int|
        0 <= k < field.option_states@.len() implies ((#[trigger] state_errors(
        schema.constraints@,
        place,
        field,
    )(k)).contains(e) <==> place == location && holds(field)(k, field.option_states@[k])) by {
        lemma_state_holds(schema.constraints@, place, field, k, e);
    }
    lemma_state_error_reported(schema, e, location, holds);
}

/// An option state without a rule is reported exactly when one at that place has neither
/// `when` nor `enabled`.
pub proof fn option_states_without_a_rule_are_reported(
    schema: Schema,
    location: Seq<char>,
    value: Seq<char>,
)
    ensures
        schema.all_errors().contains(ErrorView::OptionStateMissingRule { location, value })
            <==> some_field(
            schema,
            location,
            |field: Field|
                some_state(
                    field,
                    |k: int, state: OptionState|
                        state.value@ == value && state.when is None && state.enabled is None,
                ),
        ),
{
    let e = ErrorView::OptionStateMissingRule { location, value };
    let holds = |field: Field|
        |k: int, state: OptionState|
            state.value@ == value && state.when is None && state.enabled is None;
    assert forall|place: Seq<char>, field: Field, k: int|
        0 <= k < field.option_states@.len() implies ((#[trigger] state_errors(
        schema.constraints@,
        place,
        field,
    )(k)).contains(e) <==> place == location && holds(field)(k, field.option_states@[k])) by {
        lemma_state_holds(schema.constraints@, place, field, k, e);
    }
    lemma_state_error_reported(schema, e, location, holds);
}

/// A duplicate value is reported exactly when two option states at that place have it.
pub proof fn duplicate_option_values_are_reported(
    schema: Schema,
    location: Seq<char>,
    value: Seq<char>,
)
    ensures
        schema.all_errors().contains(ErrorView::DuplicateOptionStateValue { location, value })
            <==> some_field(
            schema,
            location,
            |field: Field|
                some_state(
                    field,
                    |k: int, state: OptionState|
                        state.value@ == value && exists|j: int|
                            0 <= j < k && (#[trigger] field.option_states@[j]).value@ == value,
                ),
        ),
{
    let e = ErrorView::DuplicateOptionStateValue { location, value };
    let holds = |field: Field|
        |k: int, state: OptionState|
            state.value@ == value && exists|j: int|
                0 <= j < k && (#[trigger] field.option_states@[j]).value@ == value;
    assert forall|place: Seq<char>, field: Field, k: int|
        0 <= k < field.option_states@.len() implies ((#[trigger] state_errors(
        schema.constraints@,
        place,
        field,
    )(k)).contains(e) <==> place == location && holds(field)(k, field.option_states@[k])) by {
        lemma_state_holds(schema.constraints@, place, field, k, e);
        let values = state_values(field.option_states@);
        if repeats(values, k) {
            let j = choose|j: int| 0 <= j < k && #[trigger] values[j] == values[k];
            assert(field.option_states@[j].value@ == values[k]);
        }
        if holds(field)(k, field.option_states@[k]) {
            let j = choose|j: int|
                0 <= j < k && (#[trigger] field.option_states@[j]).value@ == value;
            assert(values[j] == values[k]);
        }
    }
    lemma_state_error_reported(schema, e, location, holds);
}

/// A value is reported as unknown exactly when an option state at that place has it and
/// the field lists options without it.
pub proof fn unknown_option_values_are_reported(
    schema: Schema,
    location: Seq<char>,
    value: Seq<char>,
)
    ensures
        schema.all_errors().contains(ErrorView::UnknownOptionValue { location, value })
            <==> some_field(
            schema,
            location,
            |field: Field|
                some_state(
                    field,
                    |k: int, state: OptionState|
                        state.value@ == value && (field.options matches Some(options) && forall|
                            j: int,
                        |
                            0 <= j < options@.len() ==> (#[trigger] options@[j])@ != value),
                ),
        ),
{
    let e = ErrorView::UnknownOptionValue { location, value };
    let holds = |field: Field|
        |k: int, state: OptionState|
            state.value@ == value && (field.options matches Some(options) && forall|j: int|
                0 <= j < options@.len() ==> (#[trigger] options@[j])@ != value);
    assert forall|place: Seq<char>, field: Field, k: int|
        0 <= k < field.option_states@.len() implies ((#[trigger] state_errors(
        schema.constraints@,
        place,
        field,
    )(k)).contains(e) <==> place == location && holds(field)(k, field.option_states@[k])) by {
        lemma_state_holds(schema.constraints@, place, field, k, e);
        if let Some(options) = field.options {
            let listed = texts(options@);
            if listed.contains(value) {
                let j = choose|j: int| 0 <= j < listed.len() && listed[j] == value;
                assert(options@[j]@ == value);
            }
            if exists|j: int| 0 <= j < options@.len() && (#[trigger] options@[j])@ == value {
                let j = choose|j: int| 0 <= j < options@.len() && (#[trigger] options@[j])@ == value;
                assert(listed[j] == value);
            }
        }
    }
    lemma_state_error_reported(schema, e, location, holds);
}

proof fn lemma_sites_hold(schema: Schema, site: SiteView)
    ensures
        schema.all_sites().contains(site) <==> {
            ||| exists|i: int|
                0 <= i < schema.constraints@.len() && site == (SiteView {
                    location: "constraints id="@ + debug_text(
                        (#[trigger] schema.constraints@[i]).id@,
                    ),
                    expr: schema.constraints@[i].expr@,
                })
            ||| over_tabs(schema.tabs@, per_field_sites()).contains(site)
        },
{
    let constraints = schema.constraints@;
    let named = constraint_site(constraints);
    gather_holds_what_its_parts_hold(constraints.len(), named, site);
    lemma_either_holds(
        gather(constraints.len(), named),
        over_tabs(schema.tabs@, per_field_sites()),
        site,
    );
    assert forall|i: int| 0 <= i < constraints.len() implies ((#[trigger] named(i)).contains(site)
        <==> site == (SiteView {
        location: "constraints id="@ + debug_text(constraints[i].id@),
        expr: constraints[i].expr@,
    })) by {
        lemma_one_held(
            SiteView {
                location: "constraints id="@ + debug_text(constraints[i].id@),
                expr: constraints[i].expr@,
            },
            site,
        );
    }
    if exists|i: int|
        0 <= i < constraints.len() && site == (SiteView {
            location: "constraints id="@ + debug_text((#[trigger] constraints[i]).id@),
            expr: constraints[i].expr@,
        }) {
        let i = choose|i: int|
            0 <= i < constraints.len() && site == (SiteView {
                location: "constraints id="@ + debug_text((#[trigger] constraints[i]).id@),
                expr: constraints[i].expr@,
            });
        assert(named(i).contains(site));
    }
}

/// Whether the expression is that of an inline rule of the field, or of one of its option
/// states, and the location is the field's place, with the option's value in the second
/// case.
pub open spec fn is_expression_of(
    field: Field,
    place: Seq<char>,
    location: Seq<char>,
    expr: Seq<char>,
) -> bool {
    ||| location == place && exists|k: int|
        0 <= k < field.validate@.len() && ((
        #[trigger] field.validate@[k]) matches ValidateEntry::Inline(inline) && inline.expr@
            == expr)
    ||| exists|k: int|
        0 <= k < field.option_states@.len() && ((
        #[trigger] field.option_states@[k]).enabled matches Some(enabled) && enabled@ == expr)
            && location == place + " option_states value="@ + debug_text(
            field.option_states@[k].value@,
        )
}

proof fn lemma_field_sites_hold(field: Field, place: Seq<char>, site: SiteView)
    ensures
        field_sites(place, field).contains(site) <==> is_expression_of(
            field,
            place,
            site.location,
            site.expr,
        ),
{
    let inlines = inline_site(place, field.validate@);
    let enableds = enabled_site(place, field.option_states@);
    gather_holds_what_its_parts_hold(field.validate@.len(), inlines, site);
    gather_holds_what_its_parts_hold(field.option_states@.len(), enableds, site);
    lemma_either_holds(
        gather(field.validate@.len(), inlines),
        gather(field.option_states@.len(), enableds),
        site,
    );
    assert forall|k: int| 0 <= k < field.validate@.len() implies ((#[trigger] inlines(k)).contains(
        site,
    ) <==> (field.validate@[k] matches ValidateEntry::Inline(inline) && inline.expr@ == site.expr
        && site.location == place)) by {
        if let ValidateEntry::Inline(inline) = field.validate@[k] {
            lemma_one_held(SiteView { location: place, expr: inline.expr@ }, site);
        }
    }
    assert forall|k: int| 0 <= k < field.option_states@.len() implies ((#[trigger] enableds(
        k,
    )).contains(site) <==> (field.option_states@[k].enabled matches Some(enabled) && enabled@
        == site.expr && site.location == place + " option_states value="@ + debug_text(
        field.option_states@[k].value@,
    ))) by {
        if let Some(enabled) = field.option_states@[k].enabled {
            lemma_one_held(
                SiteView {
                    location: place + " option_states value="@ + debug_text(
                        field.option_states@[k].value@,
                    ),
                    expr: enabled@,
                },
                site,
            );
        }
    }
    if is_expression_of(field, place, site.location, site.expr) {
        if site.location == place && exists|k: int|
            0 <= k < field.validate@.len() && ((
            #[trigger] field.validate@[k]) matches ValidateEntry::Inline(inline) && inline.expr@
                == site.expr) {
            let k = choose|k: int|
                0 <= k < field.validate@.len() && ((
                #[trigger] field.validate@[k]) matches ValidateEntry::Inline(inline)
                    && inline.expr@ == site.expr);
            assert(inlines(k).contains(site));
        } else {
            let k = choose|k: int|
                0 <= k < field.option_states@.len() && ((
                #[trigger] field.option_states@[k]).enabled matches Some(enabled) && enabled@
                    == site.expr) && site.location == place + " option_states value="@
                    + debug_text(field.option_states@[k].value@);
            assert(enableds(k).contains(site));
        }
    }
    if field_sites(place, field).contains(site) {
        if exists|k: int| 0 <= k < field.validate@.len() && (#[trigger] inlines(k)).contains(
            site,
        ) {
            let k = choose|k: int|
                0 <= k < field.validate@.len() && (#[trigger] inlines(k)).contains(site);
            assert(field.validate@[k] is Inline);
        } else {
            let k = choose|k: int|
                0 <= k < field.option_states@.len() && (#[trigger] enableds(k)).contains(site);
            assert(field.option_states@[k].enabled is Some);
        }
    }
}

/// The expression of every constraint is compiled: they come first, in the order of the
/// constraints, each under the id of its constraint.
pub proof fn every_constraint_is_compiled(schema: Schema, i: int)
    requires
        0 <= i < schema.constraints@.len(),
    ensures
        i < schema.all_sites().len(),
        schema.all_sites()[i].expr == schema.constraints@[i].expr@,
        schema.all_sites()[i].location == "constraints id="@ + debug_text(
            schema.constraints@[i].id@,
        ),
        schema.is_valid() ==> cel_accepts(schema.constraints@[i].expr@),
{
    let named = constraint_site(schema.constraints@);
    lemma_one_site_each(schema.constraints@, schema.constraints@.len());
    lemma_one_site_each(schema.constraints@, i as nat);
    gather_keeps_order(schema.constraints@.len(), named, i as nat);
    let all = gather(schema.constraints@.len(), named);
    assert(all.subrange(i, i + 1)[0] == all[i]);
    assert(schema.all_sites()[i] == all[i]);
}

proof fn lemma_one_site_each(constraints: Seq<Constraint>, n: nat)
    ensures
        gather(n, constraint_site(constraints)).len() == n,
    decreases n,
{
    if n > 0 {
        lemma_one_site_each(constraints, (n - 1) as nat);
    }
}

/// The expressions of every field, among a tab's own fields as well as in a section map,
/// are compiled: those of its inline rules and those of its option states.
pub proof fn every_expression_of_a_field_is_compiled(
    schema: Schema,
    t: int,
    i: int,
    in_section_map: bool,
    field: Field,
    k: int,
)
    requires
        0 <= t < schema.tabs@.len(),
        in_section_map ==> (schema.tabs@[t].section_map matches Some(map) && 0 <= i
            < map.fields@.len() && map.fields@[i] == field),
        !in_section_map ==> (schema.tabs@[t].fields matches Some(fields) && 0 <= i < fields@.len()
            && fields@[i] == field),
    ensures
        0 <= k < field.validate@.len() && field.validate@[k] is Inline ==> ({
            let expr = field.validate@[k]->Inline_0.expr@;
            let location = place_of(schema.tabs@, t, in_section_map, i, field);
            &&& schema.all_sites().contains((SiteView { location, expr }))
            &&& schema.is_valid() ==> cel_accepts(expr)
        }),
        0 <= k < field.option_states@.len() && field.option_states@[k].enabled is Some ==> ({
            let expr = field.option_states@[k].enabled->0@;
            let location = place_of(schema.tabs@, t, in_section_map, i, field)
                + " option_states value="@ + debug_text(field.option_states@[k].value@);
            &&& schema.all_sites().contains((SiteView { location, expr }))
            &&& schema.is_valid() ==> cel_accepts(expr)
        }),
{
    let place = place_of(schema.tabs@, t, in_section_map, i, field);
    let sites = schema.all_sites();
    assert(stands_in(schema.tabs@[t], in_section_map, i, field));
    if 0 <= k < field.validate@.len() && field.validate@[k] is Inline {
        let expr = field.validate@[k]->Inline_0.expr@;
        let site = SiteView { location: place, expr };
        lemma_field_sites_hold(field, place, site);
        walk_holds_what_fields_yield(schema.tabs@, per_field_sites(), site);
        lemma_sites_hold(schema, site);
        assert(sites.contains(site));
        let n = choose|n: int| 0 <= n < sites.len() && sites[n] == site;
        assert(sites[n].expr == expr);
    }
    if 0 <= k < field.option_states@.len() && field.option_states@[k].enabled is Some {
        let expr = field.option_states@[k].enabled->0@;
        let location = place + " option_states value="@ + debug_text(
            field.option_states@[k].value@,
        );
        let site = SiteView { location, expr };
        lemma_field_sites_hold(field, place, site);
        walk_holds_what_fields_yield(schema.tabs@, per_field_sites(), site);
        lemma_sites_hold(schema, site);
        assert(sites.contains(site));
        let n = choose|n: int| 0 <= n < sites.len() && sites[n] == site;
        assert(sites[n].expr == expr);
    }
}

/// Whether the expression is one of the schema's, and the location is that of its
/// constraint or of its field.
pub open spec fn is_expression_at(
    schema: Schema,
    location: Seq<char>,
    expr: Seq<char>,
) -> bool {
    ||| exists|i: int|
        0 <= i < schema.constraints@.len() && (#[trigger] schema.constraints@[i]).expr@ == expr
            && location == "constraints id="@ + debug_text(schema.constraints@[i].id@)
    ||| exists|t: int, m: bool, i: int, field: Field|
        #![trigger stands_in(schema.tabs@[t], m, i, field)]
        0 <= t < schema.tabs@.len() && stands_in(schema.tabs@[t], m, i, field)
            && is_expression_of(field, place_of(schema.tabs@, t, m, i, field), location, expr)
}

/// The expressions of the schema are compiled, each at its place, and nothing else is.
pub proof fn exactly_the_expressions_are_compiled(
    schema: Schema,
    location: Seq<char>,
    expr: Seq<char>,
)
    ensures
        schema.all_sites().contains((SiteView { location, expr })) <==> is_expression_at(
            schema,
            location,
            expr,
        ),
{
    let site = SiteView { location, expr };
    let per = per_field_sites();
    lemma_sites_hold(schema, site);
    walk_holds_what_fields_yield(schema.tabs@, per, site);
    assert forall|t: int, m: bool, i: int, field: Field|
        0 <= t < schema.tabs@.len() && #[trigger] stands_in(schema.tabs@[t], m, i, field) implies (
    per(place_of(schema.tabs@, t, m, i, field), field).contains(site) <==> is_expression_of(
        field,
        place_of(schema.tabs@, t, m, i, field),
        location,
        expr,
    )) by {
        lemma_field_sites_hold(field, place_of(schema.tabs@, t, m, i, field), site);
    }
    if over_tabs(schema.tabs@, per).contains(site) {
        let (t, m, i, field) = choose|t: int, m: bool, i: int, field: Field|
            #![trigger stands_in(schema.tabs@[t], m, i, field)]
            0 <= t < schema.tabs@.len() && stands_in(schema.tabs@[t], m, i, field) && per(
                place_of(schema.tabs@, t, m, i, field),
                field,
            ).contains(site);
        assert(stands_in(schema.tabs@[t], m, i, field));
    }
    if exists|t: int, m: bool, i: int, field: Field|
        #![trigger stands_in(schema.tabs@[t], m, i, field)]
        0 <= t < schema.tabs@.len() && stands_in(schema.tabs@[t], m, i, field) && is_expression_of(
            field,
            place_of(schema.tabs@, t, m, i, field),
            location,
            expr,
        ) {
        let (t, m, i, field) = choose|t: int, m: bool, i: int, field: Field|
            #![trigger stands_in(schema.tabs@[t], m, i, field)]
            0 <= t < schema.tabs@.len() && stands_in(schema.tabs@[t], m, i, field)
                && is_expression_of(
                field,
                place_of(schema.tabs@, t, m, i, field),
                location,
                expr,
            );
        assert(stands_in(schema.tabs@[t], m, i, field));
    }
    if exists|i: int|
        0 <= i < schema.constraints@.len() && (#[trigger] schema.constraints@[i]).expr@ == expr
            && location == "constraints id="@ + debug_text(schema.constraints@[i].id@) {
        let i = choose|i: int|
            0 <= i < schema.constraints@.len() && (#[trigger] schema.constraints@[i]).expr@ == expr
                && location == "constraints id="@ + debug_text(schema.constraints@[i].id@);
        assert(schema.constraints@[i].expr@ == expr);
    }
}

/// An expression is reported exactly when it is one of the schema's at that place and does
/// not compile, and what is reported is what compiling it complains of.
pub proof fn broken_expressions_are_reported(
    schema: Schema,
    location: Seq<char>,
    expr: Seq<char>,
    detail: Seq<char>,
)
    ensures
        schema.all_errors().contains(ErrorView::InvalidCelExpression { location, expr, detail })
            <==> !cel_accepts(expr) && detail == cel_complaint(expr) && is_expression_at(
            schema,
            location,
            expr,
        ),
{
    let e = ErrorView::InvalidCelExpression { location, expr, detail };
    lemma_errors_hold(schema, e);
    lemma_ids_hold(schema.constraints@, e);
    lemma_walk_kinds(schema, e);
    lemma_migration_kinds(schema, e);
    lemma_cel_holds(schema, e);
    exactly_the_expressions_are_compiled(schema, location, expr);
}

/// A duplicate version is reported exactly when two migrations have it.
pub proof fn duplicate_versions_are_reported(schema: Schema, version: u32)
    ensures
        schema.all_errors().contains(ErrorView::DuplicateMigrationVersion { version })
            <==> exists|i: int, j: int|
            0 <= i < j < schema.migrations@.len() && (#[trigger] schema.migrations@[i]).version
                == version && (#[trigger] schema.migrations@[j]).version == version,
{
    let e = ErrorView::DuplicateMigrationVersion { version };
    let migrations = schema.migrations@;
    let versions = migration_versions(migrations);
    lemma_only_from_migrations(schema, e);
    let part = migration_error(migrations, schema.schema_version);
    if schema.all_errors().contains(e) {
        let j = choose|j: int| 0 <= j < migrations.len() && (#[trigger] part(j)).contains(e);
        lemma_migration_holds(schema, j, e);
        let i = choose|i: int| 0 <= i < j && #[trigger] versions[i] == versions[j];
        assert(migrations[i].version == version && migrations[j].version == version);
    }
    if exists|i: int, j: int|
        0 <= i < j < migrations.len() && (#[trigger] migrations[i]).version == version && (
        #[trigger] migrations[j]).version == version {
        let (i, j) = choose|i: int, j: int|
            0 <= i < j < migrations.len() && (#[trigger] migrations[i]).version == version && (
            #[trigger] migrations[j]).version == version;
        assert(versions[i] == versions[j]);
        assert(repeats(versions, j));
        lemma_migration_holds(schema, j, e);
        assert(part(j).contains(e));
    }
}

proof fn lemma_only_from_migrations(schema: Schema, e: ErrorView)
    requires
        is_migration_error(e),
    ensures
        schema.all_errors().contains(e) <==> {
            ||| schema.migrations@.len() > 0 && schema.schema_version is None && e
                == ErrorView::MigrationsWithoutSchemaVersion
            ||| exists|i: int|
                0 <= i < schema.migrations@.len() && (#[trigger] migration_error(
                    schema.migrations@,
                    schema.schema_version,
                )(i)).contains(e)
        },
{
    lemma_errors_hold(schema, e);
    lemma_ids_hold(schema.constraints@, e);
    lemma_walk_kinds(schema, e);
    lemma_cel_holds(schema, e);
    lemma_migrations_hold(schema, e);
}

/// A version beyond the target is reported exactly when a migration has it and the schema
/// has a smaller version.
pub proof fn versions_beyond_the_target_are_reported(schema: Schema, version: u32, target: u32)
    ensures
        schema.all_errors().contains(ErrorView::MigrationVersionExceedsTarget { version, target })
            <==> schema.schema_version == Some(target) && version > target && exists|i: int|
            0 <= i < schema.migrations@.len() && (#[trigger] schema.migrations@[i]).version
                == version,
{
    let e = ErrorView::MigrationVersionExceedsTarget { version, target };
    let migrations = schema.migrations@;
    lemma_only_from_migrations(schema, e);
    let part = migration_error(migrations, schema.schema_version);
    if schema.all_errors().contains(e) {
        let i = choose|i: int| 0 <= i < migrations.len() && (#[trigger] part(i)).contains(e);
        lemma_migration_holds(schema, i, e);
        assert(migrations[i].version == version);
    }
    if schema.schema_version == Some(target) && version > target && exists|i: int|
        0 <= i < migrations.len() && (#[trigger] migrations[i]).version == version {
        let i = choose|i: int|
            0 <= i < migrations.len() && (#[trigger] migrations[i]).version == version;
        lemma_migration_holds(schema, i, e);
        assert(part(i).contains(e));
    }
}

/// That a version is missing is reported exactly when there are migrations and the schema
/// has no version.
pub proof fn missing_schema_version_is_reported(schema: Schema)
    ensures
        schema.all_errors().contains(ErrorView::MigrationsWithoutSchemaVersion)
            <==> schema.migrations@.len() > 0 && schema.schema_version is None,
{
    let e = ErrorView::MigrationsWithoutSchemaVersion;
    lemma_only_from_migrations(schema, e);
    let part = migration_error(schema.migrations@, schema.schema_version);
    if exists|i: int| 0 <= i < schema.migrations@.len() && (#[trigger] part(i)).contains(e) {
        let i = choose|i: int|
            0 <= i < schema.migrations@.len() && (#[trigger] part(i)).contains(e);
        lemma_migration_holds(schema, i, e);
    }
}

/// That a transform lacks its match is reported exactly when a transform to a truth value
/// at that place has none.
pub proof fn transforms_without_a_match_are_reported(schema: Schema, location: Seq<char>)
    ensures
        schema.all_errors().contains(ErrorView::TransformMissingMatch { location }) <==> exists|
            i: int,
            j: int,
        |
            {
                &&& 0 <= i < schema.migrations@.len()
                &&& 0 <= j < schema.migrations@[i].transform@.len()
                &&& (#[trigger] schema.migrations@[i].transform@[j]).kind
                    == TransformKind::EnumToBool
                &&& schema.migrations@[i].transform@[j].match_value is None
                &&& location == "migration version="@ + decimal(
                    schema.migrations@[i].version as nat,
                ) + " transform from="@ + debug_text(schema.migrations@[i].transform@[j].from@)
                    + " to="@ + debug_text(schema.migrations@[i].transform@[j].to@)
            },
{
    let e = ErrorView::TransformMissingMatch { location };
    let migrations = schema.migrations@;
    lemma_only_from_migrations(schema, e);
    let part = migration_error(migrations, schema.schema_version);
    if schema.all_errors().contains(e) {
        let i = choose|i: int| 0 <= i < migrations.len() && (#[trigger] part(i)).contains(e);
        lemma_migration_holds(schema, i, e);
        let transforms = migrations[i].transform@;
        let j = choose|j: int|
            0 <= j < transforms.len() && (#[trigger] transforms[j]).kind
                == TransformKind::EnumToBool && transforms[j].match_value is None && e == (
            ErrorView::TransformMissingMatch {
                location: "migration version="@ + decimal(migrations[i].version as nat)
                    + " transform from="@ + debug_text(transforms[j].from@) + " to="@
                    + debug_text(transforms[j].to@),
            });
        assert(migrations[i].transform@[j].kind == TransformKind::EnumToBool);
    }
    if exists|i: int, j: int|
        {
            &&& 0 <= i < migrations.len()
            &&& 0 <= j < migrations[i].transform@.len()
            &&& (#[trigger] migrations[i].transform@[j]).kind == TransformKind::EnumToBool
            &&& migrations[i].transform@[j].match_value is None
            &&& location == "migration version="@ + decimal(migrations[i].version as nat)
                + " transform from="@ + debug_text(migrations[i].transform@[j].from@) + " to="@
                + debug_text(migrations[i].transform@[j].to@)
        } {
        let (i, j) = choose|i: int, j: int|
            {
                &&& 0 <= i < migrations.len()
                &&& 0 <= j < migrations[i].transform@.len()
                &&& (#[trigger] migrations[i].transform@[j]).kind == TransformKind::EnumToBool
                &&& migrations[i].transform@[j].match_value is None
                &&& location == "migration version="@ + decimal(migrations[i].version as nat)
                    + " transform from="@ + debug_text(migrations[i].transform@[j].from@)
                    + " to="@ + debug_text(migrations[i].transform@[j].to@)
            };
        lemma_migration_holds(schema, i, e);
        assert(part(i).contains(e));
    }
}

/// What a kind of error is about: ids, fields, expressions, or migrations.
pub open spec fn subject_of(e: ErrorView) -> int {
    match e {
        ErrorView::DuplicateConstraintId { .. } => 0,
        ErrorView::InvalidCelExpression { .. } => 2,
        ErrorView::DuplicateMigrationVersion { .. } => 3,
        ErrorView::MigrationVersionExceedsTarget { .. } => 3,
        ErrorView::MigrationsWithoutSchemaVersion => 3,
        ErrorView::TransformMissingMatch { .. } => 3,
        _ => 1,
    }
}

/// Errors about ids come first, then those about fields, then those about expressions, and
/// those about migrations last.
pub proof fn errors_come_subject_by_subject(schema: Schema, a: int, b: int)
    requires
        0 <= a < b < schema.all_errors().len(),
    ensures
        subject_of(schema.all_errors()[a]) <= subject_of(schema.all_errors()[b]),
{
    let ids = gather(schema.constraints@.len(), id_error(schema.constraints@));
    let fields = over_tabs(schema.tabs@, per_field_errors(schema.constraints@));
    let cel = cel_errors(schema.all_sites(), site_outcomes(schema.all_sites()));
    let migrations = migration_errors(schema.migrations@, schema.schema_version);
    let all = schema.all_errors();
    assert forall|k: int| 0 <= k < ids.len() implies subject_of(#[trigger] ids[k]) == 0 by {
        assert(ids.contains(ids[k]));
        lemma_ids_hold(schema.constraints@, ids[k]);
    }
    assert forall|k: int| 0 <= k < fields.len() implies subject_of(#[trigger] fields[k]) == 1 by {
        assert(fields.contains(fields[k]));
        lemma_walk_kinds(schema, fields[k]);
    }
    assert forall|k: int| 0 <= k < cel.len() implies subject_of(#[trigger] cel[k]) == 2 by {
        assert(cel.contains(cel[k]));
        lemma_cel_holds(schema, cel[k]);
    }
    assert forall|k: int| 0 <= k < migrations.len() implies subject_of(#[trigger] migrations[k])
        == 3 by {
        assert(migrations.contains(migrations[k]));
        lemma_migration_kinds(schema, migrations[k]);
    }
    assert(all == ids + fields + cel + migrations);
    let to_cel = ids.len() + fields.len();
    let to_end = to_cel + cel.len();
    assert(all[a] == if a < ids.len() {
        ids[a]
    } else if a < to_cel {
        fields[a - ids.len()]
    } else if a < to_end {
        cel[a - to_cel]
    } else {
        migrations[a - to_end]
    });
    assert(all[b] == if b < ids.len() {
        ids[b]
    } else if b < to_cel {
        fields[b - ids.len()]
    } else if b < to_end {
        cel[b - to_cel]
    } else {
        migrations[b - to_end]
    });
}

/// Each constraint whose id an earlier one carries is reported once, in the order of the
/// constraints, and no other is.
pub proof fn each_repeated_id_is_reported_once(constraints: Seq<Constraint>, n: nat)
    requires
        n < constraints.len(),
    ensures
        ({
            let before = gather(n, id_error(constraints));
            let after = gather(n + 1, id_error(constraints));
            if exists|i: int| 0 <= i < n && (#[trigger] constraints[i]).id@ == constraints[n as int].id@ {
                after == before.push(
                    ErrorView::DuplicateConstraintId { id: constraints[n as int].id@ },
                )
            } else {
                after == before
            }
        }),
{
    let ids = constraint_ids(constraints);
    let before = gather(n, id_error(constraints));
    let after = gather(n + 1, id_error(constraints));
    if repeats(ids, n as int) {
        let i = choose|i: int| 0 <= i < n && #[trigger] ids[i] == ids[n as int];
        assert(constraints[i].id@ == constraints[n as int].id@);
        assert(after =~= before.push(
            ErrorView::DuplicateConstraintId { id: constraints[n as int].id@ },
        ));
    } else {
        assert forall|i: int| 0 <= i < n implies (#[trigger] constraints[i]).id@
            != constraints[n as int].id@ by {
            assert(ids[i] != ids[n as int]);
        }
        assert(after =~= before);
    }
}

/// Each expression that was rejected is reported once, in the order of the expressions,
/// with what was said of it, and no other is.
pub proof fn each_rejected_expression_is_reported_once(
    sites: Seq<SiteView>,
    outcomes: Seq<Option<Seq<char>>>,
    n: nat,
)
    requires
        n < sites.len(),
        sites.len() == outcomes.len(),
    ensures
        ({
            let before = cel_errors(sites.take(n as int), outcomes.take(n as int));
            let after = cel_errors(sites.take(n as int + 1), outcomes.take(n as int + 1));
            match outcomes[n as int] {
                Some(detail) => after == before.push(
                    ErrorView::InvalidCelExpression {
                        location: sites[n as int].location,
                        expr: sites[n as int].expr,
                        detail,
                    },
                ),
                None => after == before,
            }
        }),
        cel_errors(sites.take(0), outcomes.take(0)).len() == 0,
{
    let less = site_error(sites.take(n as int), outcomes.take(n as int));
    let more = site_error(sites.take(n as int + 1), outcomes.take(n as int + 1));
    lemma_gather_agrees(n, less, more);
    let before = gather(n, less);
    let after = gather(n + 1, more);
    match outcomes[n as int] {
        Some(detail) => assert(after =~= before.push(
            ErrorView::InvalidCelExpression {
                location: sites[n as int].location,
                expr: sites[n as int].expr,
                detail,
            },
        )),
        None => assert(after =~= before),
    }
}

/// A field reports what is wrong with its references first, in their order and once each,
/// and then what is wrong with its option states, in theirs.
pub proof fn references_are_reported_before_option_states(
    constraints: Seq<Constraint>,
    location: Seq<char>,
    field: Field,
)
    ensures
        ({
            let refs = ref_error(constraints, location, field.validate@);
            let states = state_errors(constraints, location, field);
            &&& field.widget.has_option_states() || field.option_states@.len() == 0
                ==> field_errors(constraints, location, field) == gather(
                field.validate@.len(),
                refs,
            ) + gather(field.option_states@.len(), states)
            &&& forall|k: int| 0 <= k < field.validate@.len() ==> (#[trigger] refs(k)).len() <= 1
            &&& forall|k: int|
                0 <= k < field.option_states@.len() ==> (#[trigger] states(k)).no_duplicates()
        }),
{
    let refs = ref_error(constraints, location, field.validate@);
    let states = state_errors(constraints, location, field);
    if field.option_states@.len() == 0 {
        assert(gather(0, states) =~= Seq::<ErrorView>::empty());
    }
    assert forall|k: int| 0 <= k < field.option_states@.len() implies (#[trigger] states(
        k,
    )).no_duplicates() by {
        let state = field.option_states@[k];
        let a = rule_count_error(location, state);
        let b = when_error(constraints, location, state);
        let c = repeated_value_error(location, field.option_states@, k);
        let d = option_error(location, field.options, state);
        assert(a.len() <= 1 && b.len() <= 1 && c.len() <= 1 && d.len() <= 1);
        assert(states(k) == a + b + c + d);
        assert(forall|i: int|
            0 <= i < states(k).len() ==> (#[trigger] states(k)[i] == if i < a.len() {
                a[i]
            } else if i < a.len() + b.len() {
                b[i - a.len()]
            } else if i < a.len() + b.len() + c.len() {
                c[i - a.len() - b.len()]
            } else {
                d[i - a.len() - b.len() - c.len()]
            }));
    }
}

/// A migration reports that its version repeats an earlier one, then that it is beyond the
/// target, and then its transforms, in their order and once each.
pub proof fn migrations_report_in_order(schema: Schema, i: int)
    requires
        0 <= i < schema.migrations@.len(),
    ensures
        ({
            let migration = schema.migrations@[i];
            let reported = migration_error(schema.migrations@, schema.schema_version)(i);
            let repeated = exists|j: int|
                0 <= j < i && (#[trigger] schema.migrations@[j]).version == migration.version;
            let beyond = schema.schema_version matches Some(target) && migration.version > target;
            let before = (if repeated {
                1int
            } else {
                0int
            }) + if beyond {
                1int
            } else {
                0int
            };
            &&& repeated ==> reported.len() > 0 && reported[0] == (
            ErrorView::DuplicateMigrationVersion { version: migration.version })
            &&& beyond ==> reported.len() >= before && reported[before - 1] == (
            ErrorView::MigrationVersionExceedsTarget {
                version: migration.version,
                target: schema.schema_version->0,
            })
            &&& reported.len() >= before
            &&& reported.skip(before) == gather(
                migration.transform@.len(),
                transform_error(migration),
            )
            &&& forall|k: int|
                0 <= k < migration.transform@.len() ==> (#[trigger] transform_error(migration)(
                    k,
                )).len() <= 1
        }),
{
    let migrations = schema.migrations@;
    let versions = migration_versions(migrations);
    let migration = migrations[i];
    let reported = migration_error(migrations, schema.schema_version)(i);
    let rest = gather(migration.transform@.len(), transform_error(migration));
    let repeated = exists|j: int|
        0 <= j < i && (#[trigger] migrations[j]).version == migration.version;
    let beyond = schema.schema_version matches Some(target) && migration.version > target;
    let before = (if repeated {
        1int
    } else {
        0int
    }) + if beyond {
        1int
    } else {
        0int
    };
    assert(repeats(versions, i) == repeated) by {
        if repeats(versions, i) {
            let j = choose|j: int| 0 <= j < i && #[trigger] versions[j] == versions[i];
            assert(migrations[j].version == migration.version);
        }
        if repeated {
            let j = choose|j: int|
                0 <= j < i && (#[trigger] migrations[j]).version == migration.version;
            assert(versions[j] == versions[i]);
        }
    }
    assert(reported.skip(before) =~= rest);
}

/// Migrations report in their order, after the note that a version is missing.
pub proof fn missing_version_is_reported_before_migrations(schema: Schema)
    ensures
        ({
            let reported = migration_errors(schema.migrations@, schema.schema_version);
            let rest = gather(
                schema.migrations@.len(),
                migration_error(schema.migrations@, schema.schema_version),
            );
            if schema.migrations@.len() > 0 && schema.schema_version is None {
                reported == seq![ErrorView::MigrationsWithoutSchemaVersion] + rest
            } else {
                reported == rest
            }
        }),
{
    let rest = gather(
        schema.migrations@.len(),
        migration_error(schema.migrations@, schema.schema_version),
    );
    assert(Seq::<ErrorView>::empty() + rest =~= rest);
}

} // verus!
