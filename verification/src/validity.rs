//! What it means for a schema to be valid, and that validation decides it.

use crate::context::{
    field_part, location_text, over_tabs, place_of, stands_in, tab_part,
    walk_is_empty_iff_no_field_yields,
};
use crate::errors::ErrorView;
use crate::expressions::{
    all_compilable, cel_accepts, cel_errors, cel_outcome, compilable, constraint_site, enabled_site,
    field_sites, inline_site, per_field_sites, site_error, site_outcomes, SiteView,
};
use crate::model::{
    Constraint, Field, Migration, OptionState, RuleView, Schema, Transform, TransformKind,
    ValidateEntry,
};
use crate::rules::{constraint_for, resolve_entry};
use crate::text::{
    debug_text, decimal, gather, lemma_gather_empty, lemma_gather_map, lemma_numerals_differ,
    opt_text, texts,
};
use crate::validate::{
    constraint_ids, distinct_iff_nothing_repeats, field_errors, id_error, migration_error,
    migration_errors, migration_versions, option_error, option_states_errors, per_field_errors,
    ref_error, repeated_value_error, repeats, rule_count_error, state_errors, state_values,
    transform_error, transform_place, when_error,
};
use vstd::prelude::*;
use vstd::string::*;

verus! {

/// Whether a `validate` entry can be shown to users: an inline rule, or a
/// reference to a constraint that has a message.
pub open spec fn entry_ok(constraints: Seq<Constraint>, entry: ValidateEntry) -> bool {
    entry matches ValidateEntry::Ref(id) ==> (constraint_for(constraints, id@) matches Some(c)
        && c.message is Some)
}

/// Whether an option state has exactly one rule, refers to nothing unknown, and
/// is about one of the field's options.
pub open spec fn state_ok(
    constraints: Seq<Constraint>,
    options: Option<Vec<String>>,
    state: OptionState,
) -> bool {
    &&& (state.when is Some) != (state.enabled is Some)
    &&& opt_text(state.when) matches Some(id) ==> constraint_for(constraints, id) is Some
    &&& options matches Some(options) ==> texts(options@).contains(state.value@)
}

/// Whether a field's rules and option states are consistent.
pub open spec fn field_ok(constraints: Seq<Constraint>, field: Field) -> bool {
    let entries = field.validate@;
    let states = field.option_states@;
    &&& forall|i: int| 0 <= i < entries.len() ==> entry_ok(constraints, #[trigger] entries[i])
    &&& states.len() > 0 ==> field.widget.has_option_states()
    &&& forall|i: int|
        0 <= i < states.len() ==> state_ok(constraints, field.options, #[trigger] states[i])
    &&& state_values(states).no_duplicates()
}

/// Whether a transform has all that its kind asks for.
pub open spec fn transform_ok(transform: Transform) -> bool {
    transform.kind == TransformKind::EnumToBool ==> transform.match_value is Some
}

/// Whether the migrations lead up to the target version.
pub open spec fn migrations_ok(migrations: Seq<Migration>, target: Option<u32>) -> bool {
    &&& migrations.len() > 0 ==> target is Some
    &&& migration_versions(migrations).no_duplicates()
    &&& forall|i: int|
        0 <= i < migrations.len() && target is Some ==> (#[trigger] migrations[i]).version
            <= target->0
    &&& forall|i: int, j: int|
        0 <= i < migrations.len() && 0 <= j < migrations[i].transform@.len() ==> transform_ok(
            #[trigger] migrations[i].transform@[j],
        )
}

impl Schema {
    /// Whether every field of every tab is consistent.
    pub open spec fn fields_ok(self) -> bool {
        forall|t: int, m: bool, i: int, field: Field|
            0 <= t < self.tabs@.len() && #[trigger] stands_in(self.tabs@[t], m, i, field)
                ==> field_ok(self.constraints@, field)
    }

    /// Whether every expression compiles.
    pub open spec fn expressions_ok(self) -> bool {
        forall|i: int|
            0 <= i < self.all_sites().len() ==> cel_accepts((#[trigger] self.all_sites()[i]).expr)
    }

    /// Whether the schema is valid: constraint ids are unique, fields are
    /// consistent, expressions compile, and migrations lead up to the target
    /// version.
    pub open spec fn is_valid(self) -> bool {
        &&& constraint_ids(self.constraints@).no_duplicates()
        &&& self.fields_ok()
        &&& self.expressions_ok()
        &&& migrations_ok(self.migrations@, self.schema_version)
    }
}

proof fn lemma_state_errors(constraints: Seq<Constraint>, location: Seq<char>, field: Field, i: int)
    requires
        0 <= i < field.option_states@.len(),
    ensures
        state_errors(constraints, location, field)(i).len() == 0 <==> state_ok(
            constraints,
            field.options,
            field.option_states@[i],
        ) && !repeats(state_values(field.option_states@), i),
{
    let state = field.option_states@[i];
    let a = rule_count_error(location, state);
    let b = when_error(constraints, location, state);
    let c = repeated_value_error(location, field.option_states@, i);
    let d = option_error(location, field.options, state);
    assert(state_errors(constraints, location, field)(i) == a + b + c + d);
}

proof fn lemma_field_errors(constraints: Seq<Constraint>, location: Seq<char>, field: Field)
    ensures
        field_errors(constraints, location, field).len() == 0 <==> field_ok(constraints, field),
{
    let entries = field.validate@;
    let states = field.option_states@;
    let refs = ref_error(constraints, location, entries);
    let parts = state_errors(constraints, location, field);
    lemma_gather_empty(entries.len(), refs);
    lemma_gather_empty(states.len(), parts);
    distinct_iff_nothing_repeats(state_values(states));
    assert forall|i: int| 0 <= i < entries.len() implies (#[trigger] refs(i).len() == 0
        <==> entry_ok(constraints, entries[i])) by {}
    assert forall|i: int| 0 <= i < states.len() implies (#[trigger] parts(i).len() == 0 <==> (
    state_ok(constraints, field.options, states[i]) && !repeats(state_values(states), i))) by {
        lemma_state_errors(constraints, location, field, i);
    }
    let rest = option_states_errors(constraints, location, field);
    assert(field_errors(constraints, location, field).len() == gather(entries.len(), refs).len()
        + rest.len());
    if field_errors(constraints, location, field).len() == 0 {
        assert forall|i: int| 0 <= i < entries.len() implies entry_ok(
            constraints,
            #[trigger] entries[i],
        ) by {
            assert(refs(i).len() == 0);
        }
        assert forall|i: int| 0 <= i < states.len() implies state_ok(
            constraints,
            field.options,
            #[trigger] states[i],
        ) by {
            assert(parts(i).len() == 0);
        }
        assert forall|i: int| 0 <= i < state_values(states).len() implies !#[trigger] repeats(
            state_values(states),
            i,
        ) by {
            assert(parts(i).len() == 0);
        }
    }
    if field_ok(constraints, field) {
        assert forall|i: int| 0 <= i < entries.len() implies (#[trigger] refs(i)).len() == 0 by {
            assert(entry_ok(constraints, entries[i]));
        }
        assert forall|i: int| 0 <= i < states.len() implies (#[trigger] parts(i)).len() == 0 by {
            assert(state_ok(constraints, field.options, states[i]));
            assert(!repeats(state_values(states), i));
        }
    }
}

proof fn lemma_migration_errors(migrations: Seq<Migration>, target: Option<u32>)
    ensures
        migration_errors(migrations, target).len() == 0 <==> migrations_ok(migrations, target),
{
    let part = migration_error(migrations, target);
    let versions = migration_versions(migrations);
    lemma_gather_empty(migrations.len(), part);
    distinct_iff_nothing_repeats(versions);
    let good = |i: int|
        {
            &&& !repeats(versions, i)
            &&& target is Some ==> migrations[i].version <= target->0
            &&& forall|j: int|
                0 <= j < migrations[i].transform@.len() ==> transform_ok(
                    #[trigger] migrations[i].transform@[j],
                )
        };
    assert forall|i: int| 0 <= i < migrations.len() implies (#[trigger] part(i).len() == 0
        <==> good(i)) by {
        let transforms = migrations[i].transform@;
        let inner = transform_error(migrations[i]);
        lemma_gather_empty(transforms.len(), inner);
        assert(forall|j: int|
            0 <= j < transforms.len() ==> (#[trigger] inner(j).len() == 0 <==> transform_ok(
                transforms[j],
            )));
        if part(i).len() == 0 {
            assert(gather(transforms.len(), inner).len() == 0);
            assert forall|j: int| 0 <= j < transforms.len() implies transform_ok(
                #[trigger] transforms[j],
            ) by {
                assert(inner(j).len() == 0);
            }
        }
        if good(i) {
            assert forall|j: int| 0 <= j < transforms.len() implies (#[trigger] inner(j)).len()
                == 0 by {
                assert(transform_ok(transforms[j]));
            }
        }
    }
    if migration_errors(migrations, target).len() == 0 {
        assert(gather(migrations.len(), part).len() == 0);
        assert forall|i: int| 0 <= i < migrations.len() implies #[trigger] good(i) by {
            assert(part(i).len() == 0);
        }
        assert(forall|i: int| 0 <= i < versions.len() ==> good(i) ==> !#[trigger] repeats(versions, i));
        assert forall|i: int| 0 <= i < migrations.len() && target is Some implies (
        #[trigger] migrations[i]).version <= target->0 by {
            assert(good(i));
        }
        assert forall|i: int, j: int|
            0 <= i < migrations.len() && 0 <= j < migrations[i].transform@.len() implies transform_ok(
            #[trigger] migrations[i].transform@[j],
        ) by {
            assert(good(i));
        }
    }
    if migrations_ok(migrations, target) {
        assert forall|i: int| 0 <= i < migrations.len() implies (#[trigger] part(i)).len() == 0 by {
            assert(!repeats(versions, i));
            assert(good(i));
        }
    }
}

proof fn lemma_cel_errors(schema: Schema)
    ensures
        cel_errors(schema.all_sites(), site_outcomes(schema.all_sites())).len() == 0
            <==> schema.expressions_ok(),
{
    let sites = schema.all_sites();
    let part = site_error(sites, site_outcomes(sites));
    lemma_gather_empty(sites.len(), part);
    assert forall|i: int| 0 <= i < sites.len() implies (#[trigger] part(i).len() == 0
        <==> cel_accepts(sites[i].expr)) by {
        assert(site_outcomes(sites)[i] == cel_outcome(sites[i].expr));
    }
    if schema.expressions_ok() {
        assert forall|i: int| 0 <= i < sites.len() implies (#[trigger] part(i)).len() == 0 by {
            assert(cel_accepts(sites[i].expr));
        }
    }
    if cel_errors(sites, site_outcomes(sites)).len() == 0 {
        assert forall|i: int| 0 <= i < sites.len() implies cel_accepts(
            (#[trigger] sites[i]).expr,
        ) by {
            assert(part(i).len() == 0);
        }
    }
}

/// Validation is sound and complete: it finds nothing to report exactly when
/// the schema is valid.
pub proof fn no_errors_iff_valid(schema: Schema)
    ensures
        schema.all_errors().len() == 0 <==> schema.is_valid(),
{
    let constraints = schema.constraints@;
    let ids = id_error(constraints);
    lemma_gather_empty(constraints.len(), ids);
    distinct_iff_nothing_repeats(constraint_ids(constraints));
    assert(gather(constraints.len(), ids).len() == 0 <==> constraint_ids(
        constraints,
    ).no_duplicates()) by {
        assert(forall|i: int|
            0 <= i < constraints.len() ==> (#[trigger] ids(i).len() == 0 <==> !repeats(
                constraint_ids(constraints),
                i,
            )));
        if gather(constraints.len(), ids).len() == 0 {
            assert forall|i: int|
                0 <= i < constraint_ids(constraints).len() implies !#[trigger] repeats(
                constraint_ids(constraints),
                i,
            ) by {
                assert(ids(i).len() == 0);
            }
        }
        if constraint_ids(constraints).no_duplicates() {
            assert forall|i: int| 0 <= i < constraints.len() implies (#[trigger] ids(i)).len()
                == 0 by {
                assert(!repeats(constraint_ids(constraints), i));
            }
        }
    }
    let per = per_field_errors(constraints);
    walk_is_empty_iff_no_field_yields(schema.tabs@, per);
    assert(over_tabs(schema.tabs@, per).len() == 0 <==> schema.fields_ok()) by {
        assert forall|location: Seq<char>, field: Field| (#[trigger] per(location, field)).len()
            == 0 <==> field_ok(constraints, field) by {
            lemma_field_errors(constraints, location, field);
        }
        if over_tabs(schema.tabs@, per).len() == 0 {
            assert forall|t: int, m: bool, i: int, field: Field|
                0 <= t < schema.tabs@.len() && #[trigger] stands_in(
                    schema.tabs@[t],
                    m,
                    i,
                    field,
                ) implies field_ok(constraints, field) by {
                assert(per(place_of(schema.tabs@, t, m, i, field), field).len() == 0);
            }
        }
    }
    lemma_cel_errors(schema);
    lemma_migration_errors(schema.migrations@, schema.schema_version);
}

/// In a valid schema every field's rules resolve: there is no entry that
/// resolving could stop at.
pub proof fn rules_of_a_valid_schema_resolve(
    schema: Schema,
    tab_index: int,
    in_section_map: bool,
    field_index: int,
    field: Field,
)
    requires
        schema.is_valid(),
        0 <= tab_index < schema.tabs@.len(),
        stands_in(schema.tabs@[tab_index], in_section_map, field_index, field),
    ensures
        forall|e: ErrorView| !#[trigger] field.first_unresolved(schema.constraints@, e),
{
    assert(field_ok(schema.constraints@, field));
    assert forall|e: ErrorView| !#[trigger] field.first_unresolved(schema.constraints@, e) by {
        if field.first_unresolved(schema.constraints@, e) {
            let i = choose|i: int|
                0 <= i < field.validate@.len() && resolve_entry(
                    schema.constraints@,
                    field.key@,
                    #[trigger] field.validate@[i],
                ) == Err::<RuleView, ErrorView>(e);
            assert(entry_ok(schema.constraints@, field.validate@[i]));
        }
    }
}

/// How the places of a tab's own fields begin.
pub open spec fn own_start(tab_index: nat, tab_id: Seq<char>) -> Seq<char> {
    "tabs["@ + decimal(tab_index) + "].id="@ + debug_text(tab_id) + ".fields["@
}

/// How the places of the fields of a tab's section map begin.
pub open spec fn section_start(tab_index: nat, tab_id: Seq<char>, prefix: Seq<char>) -> Seq<char> {
    "tabs["@ + decimal(tab_index) + "].id="@ + debug_text(tab_id) + ".section_map.key_prefix="@
        + debug_text(prefix) + ".fields["@
}

/// The text with another beginning, if it begins with `from`.
pub open spec fn restarted(text: Seq<char>, from: Seq<char>, to: Seq<char>) -> Seq<char> {
    if from.is_prefix_of(text) {
        to + text.skip(from.len() as int)
    } else {
        text
    }
}

/// The error with another beginning of its place, if that begins with `from`.
pub open spec fn restarted_error(from: Seq<char>, to: Seq<char>) -> spec_fn(ErrorView) -> ErrorView {
    |error: ErrorView|
        match error {
            ErrorView::UnknownConstraintRef { id, location } => ErrorView::UnknownConstraintRef {
                id,
                location: restarted(location, from, to),
            },
            ErrorView::MissingConstraintMessage {
                id,
                location,
            } => ErrorView::MissingConstraintMessage { id, location: restarted(location, from, to) },
            ErrorView::OptionStatesUnsupportedWidget {
                location,
                widget,
            } => ErrorView::OptionStatesUnsupportedWidget {
                location: restarted(location, from, to),
                widget,
            },
            ErrorView::OptionStateConflict { location, value } => ErrorView::OptionStateConflict {
                location: restarted(location, from, to),
                value,
            },
            ErrorView::OptionStateMissingRule {
                location,
                value,
            } => ErrorView::OptionStateMissingRule {
                location: restarted(location, from, to),
                value,
            },
            ErrorView::DuplicateOptionStateValue {
                location,
                value,
            } => ErrorView::DuplicateOptionStateValue {
                location: restarted(location, from, to),
                value,
            },
            ErrorView::UnknownOptionValue { location, value } => ErrorView::UnknownOptionValue {
                location: restarted(location, from, to),
                value,
            },
            ErrorView::InvalidCelExpression {
                location,
                expr,
                detail,
            } => ErrorView::InvalidCelExpression {
                location: restarted(location, from, to),
                expr,
                detail,
            },
            ErrorView::TransformMissingMatch { location } => ErrorView::TransformMissingMatch {
                location: restarted(location, from, to),
            },
            ErrorView::DuplicateConstraintId { .. } => error,
            ErrorView::DuplicateMigrationVersion { .. } => error,
            ErrorView::MigrationVersionExceedsTarget { .. } => error,
            ErrorView::MigrationsWithoutSchemaVersion => error,
        }
}

/// The expression with another beginning of its place, if that begins with `from`.
pub open spec fn restarted_site(from: Seq<char>, to: Seq<char>) -> spec_fn(SiteView) -> SiteView {
    |site: SiteView| SiteView { location: restarted(site.location, from, to), expr: site.expr }
}

/// Whether the own fields of a tab of the one schema make up the section map of that tab
/// in the other, and the schemas are otherwise the same, as far as validation goes.
pub open spec fn fields_moved(before: Schema, after: Schema, tab: int, prefix: Seq<char>) -> bool {
    &&& before.constraints@ == after.constraints@
    &&& before.migrations@ == after.migrations@
    &&& before.schema_version == after.schema_version
    &&& before.tabs@.len() == after.tabs@.len()
    &&& 0 <= tab < before.tabs@.len()
    &&& forall|j: int|
        0 <= j < before.tabs@.len() && j != tab ==> #[trigger] before.tabs@[j] == after.tabs@[j]
    &&& before.tabs@[tab].id@ == after.tabs@[tab].id@
    &&& before.tabs@[tab].fields is Some
    &&& before.tabs@[tab].section_map is None
    &&& after.tabs@[tab].fields is None
    &&& after.tabs@[tab].section_map matches Some(map) && map.key_prefix@ == prefix
        && map.fields@ == before.tabs@[tab].fields->0@
}

/// Whether a place, and whatever else begins with it, gets the other as its beginning.
spec fn follows(place: Seq<char>, moved: Seq<char>, from: Seq<char>, to: Seq<char>) -> bool {
    forall|rest: Seq<char>| restarted(#[trigger] (place + rest), from, to) == moved + rest
}

proof fn lemma_follows(place: Seq<char>, moved: Seq<char>, from: Seq<char>, to: Seq<char>)
    requires
        follows(place, moved, from, to),
    ensures
        restarted(place, from, to) == moved,
{
    let rest = Seq::<char>::empty();
    assert(place + rest =~= place);
    assert(moved + rest =~= moved);
    assert(restarted(place + rest, from, to) == moved + rest);
}

/// A text that begins with `from` follows.
proof fn lemma_beginning_follows(tail: Seq<char>, from: Seq<char>, to: Seq<char>)
    ensures
        follows(from + tail, to + tail, from, to),
{
    assert forall|rest: Seq<char>| restarted(
        #[trigger] (from + tail + rest),
        from,
        to,
    ) == to + tail + rest by {
        let text = from + tail + rest;
        assert(from =~= text.subrange(0, from.len() as int));
        assert(to + text.skip(from.len() as int) =~= to + tail + rest);
    }
}

/// A text that differs from `from` stays as it is.
proof fn lemma_other_stays(place: Seq<char>, from: Seq<char>, to: Seq<char>, i: int)
    requires
        0 <= i < place.len(),
        i < from.len(),
        place[i] != from[i],
    ensures
        follows(place, place, from, to),
{
    assert forall|rest: Seq<char>| restarted(#[trigger] (place + rest), from, to) == place
        + rest by {
        let text = place + rest;
        if from.is_prefix_of(text) {
            assert(from[i] == text.subrange(0, from.len() as int)[i]);
        }
    }
}

/// The places of another tab's fields stay as they are.
proof fn lemma_other_tab_stays(
    tab_index: nat,
    tab_id: Seq<char>,
    other: nat,
    other_id: Seq<char>,
    section_prefix: Option<Seq<char>>,
    field_index: nat,
    key: Seq<char>,
    to: Seq<char>,
)
    requires
        other != tab_index,
    ensures
        ({
            let place = location_text(other, other_id, section_prefix, field_index, key);
            follows(place, place, own_start(tab_index, tab_id), to)
        }),
{
    reveal_strlit("tabs[");
    reveal_strlit("].id=");
    let place = location_text(other, other_id, section_prefix, field_index, key);
    let from = own_start(tab_index, tab_id);
    let i = lemma_numerals_differ(other, tab_index);
    let x = decimal(other).push(']');
    let y = decimal(tab_index).push(']');
    let k = i + "tabs["@.len();
    assert(place[k] == x[i]);
    assert(from[k] == y[i]);
    lemma_other_stays(place, from, to, k);
}

proof fn lemma_field_errors_follow(
    constraints: Seq<Constraint>,
    place: Seq<char>,
    moved: Seq<char>,
    field: Field,
    from: Seq<char>,
    to: Seq<char>,
)
    requires
        follows(place, moved, from, to),
    ensures
        field_errors(constraints, moved, field) == field_errors(
            constraints,
            place,
            field,
        ).map_values(restarted_error(from, to)),
{
    lemma_follows(place, moved, from, to);
    let map = restarted_error(from, to);
    let entries = field.validate@;
    let states = field.option_states@;
    let refs = ref_error(constraints, place, entries);
    let moved_refs = ref_error(constraints, moved, entries);
    assert forall|i: int| 0 <= i < entries.len() implies (#[trigger] moved_refs(i)) == refs(
        i,
    ).map_values(map) by {
        assert(moved_refs(i) =~= refs(i).map_values(map));
    }
    lemma_gather_map(entries.len(), refs, moved_refs, map);
    let parts = state_errors(constraints, place, field);
    let moved_parts = state_errors(constraints, moved, field);
    assert forall|i: int| 0 <= i < states.len() implies (#[trigger] moved_parts(i)) == parts(
        i,
    ).map_values(map) by {
        let state = states[i];
        assert(rule_count_error(moved, state) =~= rule_count_error(place, state).map_values(map));
        assert(when_error(constraints, moved, state) =~= when_error(
            constraints,
            place,
            state,
        ).map_values(map));
        assert(repeated_value_error(moved, states, i) =~= repeated_value_error(
            place,
            states,
            i,
        ).map_values(map));
        assert(option_error(moved, field.options, state) =~= option_error(
            place,
            field.options,
            state,
        ).map_values(map));
        assert(moved_parts(i) =~= parts(i).map_values(map));
    }
    lemma_gather_map(states.len(), parts, moved_parts, map);
    assert(option_states_errors(constraints, moved, field) =~= option_states_errors(
        constraints,
        place,
        field,
    ).map_values(map));
    assert(field_errors(constraints, moved, field) =~= field_errors(
        constraints,
        place,
        field,
    ).map_values(map));
}

proof fn lemma_field_sites_follow(
    place: Seq<char>,
    moved: Seq<char>,
    field: Field,
    from: Seq<char>,
    to: Seq<char>,
)
    requires
        follows(place, moved, from, to),
    ensures
        field_sites(moved, field) == field_sites(place, field).map_values(restarted_site(from, to)),
{
    lemma_follows(place, moved, from, to);
    let map = restarted_site(from, to);
    let entries = field.validate@;
    let states = field.option_states@;
    let inlines = inline_site(place, entries);
    let moved_inlines = inline_site(moved, entries);
    assert forall|i: int| 0 <= i < entries.len() implies (#[trigger] moved_inlines(i)) == inlines(
        i,
    ).map_values(map) by {
        assert(moved_inlines(i) =~= inlines(i).map_values(map));
    }
    lemma_gather_map(entries.len(), inlines, moved_inlines, map);
    let enableds = enabled_site(place, states);
    let moved_enableds = enabled_site(moved, states);
    assert forall|i: int| 0 <= i < states.len() implies (#[trigger] moved_enableds(i)) == enableds(
        i,
    ).map_values(map) by {
        let rest = " option_states value="@ + debug_text(states[i].value@);
        assert(place + rest =~= place + " option_states value="@ + debug_text(states[i].value@));
        assert(moved + rest =~= moved + " option_states value="@ + debug_text(states[i].value@));
        assert(restarted(place + rest, from, to) == moved + rest);
        assert(moved_enableds(i) =~= enableds(i).map_values(map));
    }
    lemma_gather_map(states.len(), enableds, moved_enableds, map);
    assert(field_sites(moved, field) =~= field_sites(place, field).map_values(map));
}

/// A walk over the fields yields the same, mapped, after the move.
proof fn lemma_walk_follows<E>(
    before: Schema,
    after: Schema,
    tab: int,
    prefix: Seq<char>,
    per: spec_fn(Seq<char>, Field) -> Seq<E>,
    map: spec_fn(E) -> E,
)
    requires
        fields_moved(before, after, tab, prefix),
        forall|place: Seq<char>, moved: Seq<char>, field: Field|
            follows(
                place,
                moved,
                own_start(tab as nat, before.tabs@[tab].id@),
                section_start(tab as nat, before.tabs@[tab].id@, prefix),
            ) ==> #[trigger] per(moved, field) == (#[trigger] per(place, field)).map_values(map),
    ensures
        over_tabs(after.tabs@, per) == over_tabs(before.tabs@, per).map_values(map),
{
    let id = before.tabs@[tab].id@;
    let from = own_start(tab as nat, id);
    let to = section_start(tab as nat, id, prefix);
    let parts = tab_part(before.tabs@, per);
    let moved_parts = tab_part(after.tabs@, per);
    assert forall|t: int| 0 <= t < before.tabs@.len() implies (#[trigger] moved_parts(t)) == parts(
        t,
    ).map_values(map) by {
        let old_tab = before.tabs@[t];
        let new_tab = after.tabs@[t];
        if t == tab {
            let fields = old_tab.fields->0@;
            let own = field_part(t as nat, old_tab, None, fields, per);
            let sections = field_part(t as nat, new_tab, Some(prefix), fields, per);
            assert forall|i: int| 0 <= i < fields.len() implies (#[trigger] sections(i)) == own(
                i,
            ).map_values(map) by {
                let key = fields[i].key@;
                let tail = decimal(i as nat) + "] key="@ + debug_text(key);
                let place = location_text(t as nat, id, None, i as nat, key);
                let moved = location_text(t as nat, id, Some(prefix), i as nat, key);
                lemma_beginning_follows(tail, from, to);
                assert(place =~= from + tail);
                assert(moved =~= to + tail);
                assert(per(moved, fields[i]) == per(place, fields[i]).map_values(map));
            }
            lemma_gather_map(fields.len(), own, sections, map);
            assert(moved_parts(t) =~= parts(t).map_values(map));
        } else {
            assert(old_tab == new_tab);
            if let Some(fields) = old_tab.fields {
                let own = field_part(t as nat, old_tab, None, fields@, per);
                assert forall|i: int| 0 <= i < fields@.len() implies (#[trigger] own(i)) == own(
                    i,
                ).map_values(map) by {
                    let key = fields@[i].key@;
                    let place = location_text(t as nat, old_tab.id@, None, i as nat, key);
                    lemma_other_tab_stays(
                        tab as nat,
                        id,
                        t as nat,
                        old_tab.id@,
                        None,
                        i as nat,
                        key,
                        to,
                    );
                    assert(per(place, fields@[i]) == per(place, fields@[i]).map_values(map));
                }
                lemma_gather_map(fields@.len(), own, own, map);
            }
            if let Some(sections) = old_tab.section_map {
                let list = sections.fields@;
                let own = Some(sections.key_prefix@);
                let part = field_part(t as nat, old_tab, own, list, per);
                assert forall|i: int| 0 <= i < list.len() implies (#[trigger] part(i)) == part(
                    i,
                ).map_values(map) by {
                    let key = list[i].key@;
                    let place = location_text(t as nat, old_tab.id@, own, i as nat, key);
                    lemma_other_tab_stays(
                        tab as nat,
                        id,
                        t as nat,
                        old_tab.id@,
                        own,
                        i as nat,
                        key,
                        to,
                    );
                    assert(per(place, list[i]) == per(place, list[i]).map_values(map));
                }
                lemma_gather_map(list.len(), part, part, map);
            }
            assert(moved_parts(t) =~= parts(t).map_values(map));
        }
    }
    lemma_gather_map(before.tabs@.len(), parts, moved_parts, map);
}

/// The expressions are the same after the move, in the same order, but for their places.
proof fn lemma_sites_follow(before: Schema, after: Schema, tab: int, prefix: Seq<char>)
    requires
        fields_moved(before, after, tab, prefix),
    ensures
        ({
            let id = before.tabs@[tab].id@;
            let from = own_start(tab as nat, id);
            let to = section_start(tab as nat, id, prefix);
            after.all_sites() == before.all_sites().map_values(restarted_site(from, to))
        }),
{
    let id = before.tabs@[tab].id@;
    let from = own_start(tab as nat, id);
    let to = section_start(tab as nat, id, prefix);
    let map = restarted_site(from, to);
    let constraints = before.constraints@;
    let named = constraint_site(constraints);
    assert forall|i: int| 0 <= i < constraints.len() implies (#[trigger] named(i)) == named(
        i,
    ).map_values(map) by {
        reveal_strlit("constraints id=");
        reveal_strlit("tabs[");
        let place = "constraints id="@ + debug_text(constraints[i].id@);
        assert(place[0] == 'c' && from[0] == 't');
        lemma_other_stays(place, from, to, 0);
        lemma_follows(place, place, from, to);
        assert(named(i) =~= named(i).map_values(map));
    }
    lemma_gather_map(constraints.len(), named, named, map);
    let per = per_field_sites();
    assert forall|place: Seq<char>, moved: Seq<char>, field: Field|
        follows(place, moved, from, to) implies #[trigger] per(moved, field) == (#[trigger] per(
        place,
        field,
    )).map_values(map) by {
        lemma_field_sites_follow(place, moved, field, from, to);
    }
    lemma_walk_follows(before, after, tab, prefix, per, map);
    assert(after.all_sites() =~= before.all_sites().map_values(map));
}

/// The errors of migrations name no place that moves.
proof fn lemma_migration_errors_stay(
    migrations: Seq<Migration>,
    target: Option<u32>,
    from: Seq<char>,
    to: Seq<char>,
)
    requires
        from.len() > 0,
        from[0] == 't',
    ensures
        migration_errors(migrations, target) == migration_errors(migrations, target).map_values(
            restarted_error(from, to),
        ),
{
    let map = restarted_error(from, to);
    let part = migration_error(migrations, target);
    assert forall|i: int| 0 <= i < migrations.len() implies (#[trigger] part(i)) == part(
        i,
    ).map_values(map) by {
        let inner = transform_error(migrations[i]);
        let transforms = migrations[i].transform@;
        assert forall|j: int| 0 <= j < transforms.len() implies (#[trigger] inner(j)) == inner(
            j,
        ).map_values(map) by {
            reveal_strlit("migration version=");
            let place = transform_place(migrations[i].version, transforms[j]);
            assert(place[0] == 'm');
            lemma_other_stays(place, from, to, 0);
            lemma_follows(place, place, from, to);
            assert(inner(j) =~= inner(j).map_values(map));
        }
        lemma_gather_map(transforms.len(), inner, inner, map);
        assert(part(i) =~= part(i).map_values(map));
    }
    lemma_gather_map(migrations.len(), part, part, map);
    assert(migration_errors(migrations, target) =~= migration_errors(
        migrations,
        target,
    ).map_values(map));
}

/// Moving the own fields of a tab into a section map, under any key prefix, changes
/// nothing about validation but places: the same expressions are compiled, in the same
/// order, and the same errors are found, in the same order, whatever compiling reports.
/// A place that began as those of the tab's own fields begins as those of its section map
/// instead. So the one schema is valid exactly when the other is.
pub proof fn moving_fields_into_a_section_map_changes_only_places(
    before: Schema,
    after: Schema,
    tab: int,
    prefix: Seq<char>,
)
    requires
        fields_moved(before, after, tab, prefix),
    ensures
        ({
            let id = before.tabs@[tab].id@;
            let from = own_start(tab as nat, id);
            let to = section_start(tab as nat, id, prefix);
            &&& after.all_sites() == before.all_sites().map_values(restarted_site(from, to))
            &&& all_compilable(after.all_sites()) <==> all_compilable(before.all_sites())
            &&& forall|outcomes: Seq<Option<Seq<char>>>| #[trigger]
                after.errors_given(outcomes) == before.errors_given(outcomes).map_values(
                    restarted_error(from, to),
                )
            &&& after.all_errors() == before.all_errors().map_values(restarted_error(from, to))
        }),
        after.is_valid() <==> before.is_valid(),
{
    let id = before.tabs@[tab].id@;
    let from = own_start(tab as nat, id);
    let to = section_start(tab as nat, id, prefix);
    let map = restarted_error(from, to);
    let constraints = before.constraints@;
    let old_sites = before.all_sites();
    let new_sites = after.all_sites();
    lemma_sites_follow(before, after, tab, prefix);
    assert(forall|i: int|
        0 <= i < old_sites.len() ==> (#[trigger] new_sites[i]).expr == (#[trigger] old_sites[i]).expr);
    assert(all_compilable(new_sites) <==> all_compilable(old_sites)) by {
        if all_compilable(old_sites) {
            assert forall|i: int| 0 <= i < new_sites.len() implies compilable(
                (#[trigger] new_sites[i]).expr,
            ) by {
                assert(compilable(old_sites[i].expr));
            }
        }
        if all_compilable(new_sites) {
            assert forall|i: int| 0 <= i < old_sites.len() implies compilable(
                (#[trigger] old_sites[i]).expr,
            ) by {
                assert(compilable(new_sites[i].expr));
            }
        }
    }
    let ids = id_error(constraints);
    assert forall|i: int| 0 <= i < constraints.len() implies (#[trigger] ids(i)) == ids(
        i,
    ).map_values(map) by {
        assert(ids(i) =~= ids(i).map_values(map));
    }
    lemma_gather_map(constraints.len(), ids, ids, map);
    let per = per_field_errors(constraints);
    assert forall|place: Seq<char>, moved: Seq<char>, field: Field|
        follows(place, moved, from, to) implies #[trigger] per(moved, field) == (#[trigger] per(
        place,
        field,
    )).map_values(map) by {
        lemma_field_errors_follow(constraints, place, moved, field, from, to);
    }
    lemma_walk_follows(before, after, tab, prefix, per, map);
    assert(after.reference_errors() =~= before.reference_errors().map_values(map));
    assert(from[0] == 't') by {
        reveal_strlit("tabs[");
    }
    assert(from.len() > 0) by {
        reveal_strlit("tabs[");
    }
    lemma_migration_errors_stay(before.migrations@, before.schema_version, from, to);
    assert forall|outcomes: Seq<Option<Seq<char>>>| #[trigger]
        after.errors_given(outcomes) == before.errors_given(outcomes).map_values(map) by {
        let part = site_error(old_sites, outcomes);
        let moved_part = site_error(new_sites, outcomes);
        assert forall|i: int| 0 <= i < old_sites.len() implies (#[trigger] moved_part(i)) == part(
            i,
        ).map_values(map) by {
            assert(new_sites[i] == restarted_site(from, to)(old_sites[i]));
            assert(moved_part(i) =~= part(i).map_values(map));
        }
        lemma_gather_map(old_sites.len(), part, moved_part, map);
        assert(after.errors_given(outcomes) =~= before.errors_given(outcomes).map_values(map));
    }
    assert(site_outcomes(new_sites) =~= site_outcomes(old_sites));
    assert(after.all_errors() == before.all_errors().map_values(map));
    no_errors_iff_valid(before);
    no_errors_iff_valid(after);
}

} // verus!
