//! The CEL expressions of a schema, and what compiling them reports.

use crate::context::{
    field_part, over_own_fields, over_section_fields, over_tabs, tab_part, FieldContext,
};
use crate::errors::{error_views, lemma_error_views_push, ErrorView, SchemaValidationError};
use crate::model::{Constraint, Field, OptionState, Schema, ValidateEntry};
use crate::nesting::{
    nesting, nesting_is_bounded_by_openers, openers_from, plain_expressions_do_not_nest,
    read_nesting,
};
use crate::text::{code_point, debug_text, gather, opt_text, push_debug, to_chars};
use vstd::prelude::*;
use vstd::string::*;

verus! {

/// Whether `cel::Program::compile` accepts an expression.
pub uninterp spec fn cel_accepts(expr: Seq<char>) -> bool;

/// What `cel::ParseErrors` prints for an expression that
/// `cel::Program::compile` rejects.
pub uninterp spec fn cel_complaint(expr: Seq<char>) -> Seq<char>;

/// The most stack that an expression may need to be compiled, in units of what a
/// mark of a flat chain of operators needs.
pub const LARGEST_NEED: usize = 1536;

/// What a level of nesting needs, in the same units.
pub const LEVEL_NEED: usize = 192;

/// The longest line whose errors can be printed, in bytes.
pub const LONGEST_LINE: usize = 65534;

/// How many bytes a character takes.
pub open spec fn char_width(c: char) -> nat {
    if (c as int) < 0x80 {
        1
    } else if (c as int) < 0x800 {
        2
    } else if (c as int) < 0x10000 {
        3
    } else {
        4
    }
}

/// How many bytes of its line stand before the index.
pub open spec fn column(expr: Seq<char>, i: int) -> nat
    decreases i,
{
    if i <= 0 || expr[i - 1] == '\n' {
        0
    } else {
        column(expr, i - 1) + char_width(expr[i - 1])
    }
}

/// Whether an expression can be compiled on the stack of an ordinary thread, and its
/// errors printed.
pub open spec fn compilable(expr: Seq<char>) -> bool {
    &&& nesting(expr).marks + LEVEL_NEED * nesting(expr).deepest <= LARGEST_NEED
    &&& forall|i: int| 0 <= i <= expr.len() ==> #[trigger] column(expr, i) <= LONGEST_LINE
}

/// What compiling an expression reports, if anything.
pub open spec fn cel_outcome(expr: Seq<char>) -> Option<Seq<char>> {
    if cel_accepts(expr) {
        None
    } else {
        Some(cel_complaint(expr))
    }
}

/// What an outcome of compiling says.
pub open spec fn outcome_view(outcome: Result<(), String>) -> Option<Seq<char>> {
    match outcome {
        Ok(_) => None,
        Err(detail) => Some(detail@),
    }
}

/// `cel::Program::compile`, and `Display` of `cel::ParseErrors` where it
/// rejects `expr`. Whether it does is named by [`cel_accepts`] and what is
/// printed by [`cel_complaint`]; both depend on the source text alone.
///
/// The parser, what walks its tree and what drops it recurse for each level of brackets
/// and for each link of a chain of operators, selections or calls. The parser gives up
/// at a depth of brackets of its own, but chains go on, and a stack that is used up ends
/// the process. The bound keeps unoptimized code within the two megabytes that a
/// thread gets by default. Each error is printed with a line that is padded to its column,
/// and std's formatting panics on a width above 65535: hence the bound on lines.
#[verifier::external_body]
pub(crate) fn try_compile_cel(expr: &str) -> (r: Result<(), String>)
    requires
        compilable(expr@),
    ensures
        match r {
            Ok(_) => cel_accepts(expr@),
            Err(detail) => !cel_accepts(expr@) && detail@ == cel_complaint(expr@),
        },
{
    cel::Program::compile(expr).map(|_| ()).map_err(|e| e.to_string())
}

fn width_of(c: char) -> (r: usize)
    ensures
        r == char_width(c),
{
    let code: u32 = code_point(c);
    if code < 0x80 {
        1
    } else if code < 0x800 {
        2
    } else if code < 0x10000 {
        3
    } else {
        4
    }
}

fn lines_are_short(expr: &str) -> (r: bool)
    ensures
        r == forall|i: int| 0 <= i <= expr@.len() ==> #[trigger] column(expr@, i) <= LONGEST_LINE,
{
    let chars = to_chars(expr);
    let mut before: usize = 0;
    let mut i: usize = 0;
    while i < chars.len()
        invariant
            i <= chars.len(),
            chars@ == expr@,
            before == column(expr@, i as int),
            forall|j: int| 0 <= j <= i ==> #[trigger] column(expr@, j) <= LONGEST_LINE,
        decreases chars.len() - i,
    {
        if chars[i] == '\n' {
            before = 0;
        } else {
            before += width_of(chars[i]);
        }
        i += 1;
        assert(before == column(expr@, i as int));
        if before > LONGEST_LINE {
            return false;
        }
    }
    true
}

/// Whether an expression can be compiled.
pub fn is_compilable(expr: &str) -> (r: bool)
    ensures
        r == compilable(expr@),
{
    let read = read_nesting(expr);
    let marks: usize = read.marks();
    let deepest: usize = read.deepest();
    deepest <= 8 && marks <= LARGEST_NEED && marks + LEVEL_NEED * deepest <= LARGEST_NEED
        && lines_are_short(expr)
}

proof fn lemma_column(expr: Seq<char>, i: int)
    requires
        0 <= i <= expr.len(),
    ensures
        column(expr, i) <= 4 * i,
    decreases i,
{
    if i > 0 {
        lemma_column(expr, i - 1);
    }
}

/// An expression of moderate length without brackets and conditionals can be compiled.
pub proof fn plain_expressions_are_compilable(expr: Seq<char>)
    requires
        expr.len() <= LARGEST_NEED,
        forall|i: int|
            0 <= i < expr.len() ==> (#[trigger] expr[i]) != '(' && expr[i] != '[' && expr[i] != '{'
                && expr[i] != '?',
    ensures
        compilable(expr),
{
    plain_expressions_do_not_nest(expr);
    assert forall|i: int| 0 <= i <= expr.len() implies #[trigger] column(expr, i)
        <= LONGEST_LINE by {
        lemma_column(expr, i);
    }
}

/// What an expression site says.
#[verifier::ext_equal]
pub struct SiteView {
    pub location: Seq<char>,
    pub expr: Seq<char>,
}

/// A CEL expression and the place that is named in errors about it.
#[derive(Debug, Clone, PartialEq, Eq)]
pub struct CelSite {
    pub location: String,
    pub expr: String,
}

impl View for CelSite {
    type V = SiteView;

    open spec fn view(&self) -> SiteView {
        SiteView { location: self.location@, expr: self.expr@ }
    }
}

/// What a list of sites says, in order.
pub open spec fn site_views(sites: Seq<CelSite>) -> Seq<SiteView> {
    sites.map_values(|s: CelSite| s@)
}

proof fn lemma_site_views_push(sites: Seq<CelSite>, s: CelSite)
    ensures
        site_views(sites.push(s)) == site_views(sites) + seq![s@],
{
    assert(site_views(sites.push(s)) =~= site_views(sites) + seq![s@]);
}

/// The expression of a named constraint.
pub open spec fn constraint_site(constraints: Seq<Constraint>) -> spec_fn(int) -> Seq<SiteView> {
    |i: int|
        seq![
            SiteView {
                location: "constraints id="@ + debug_text(constraints[i].id@),
                expr: constraints[i].expr@,
            },
        ]
}

/// The expression of a `validate` entry, if it is an inline rule.
pub open spec fn inline_site(location: Seq<char>, entries: Seq<ValidateEntry>) -> spec_fn(
    int,
) -> Seq<SiteView> {
    |i: int|
        match entries[i] {
            ValidateEntry::Inline(inline) => seq![SiteView { location, expr: inline.expr@ }],
            ValidateEntry::Ref(_) => Seq::empty(),
        }
}

/// The expression of an `option_states` entry, if it has one of its own.
pub open spec fn enabled_site(location: Seq<char>, states: Seq<OptionState>) -> spec_fn(
    int,
) -> Seq<SiteView> {
    |i: int|
        match opt_text(states[i].enabled) {
            Some(expr) => seq![
                SiteView {
                    location: location + " option_states value="@ + debug_text(states[i].value@),
                    expr,
                },
            ],
            None => Seq::empty(),
        }
}

/// The expressions of a field: its inline rules, then its option states.
pub open spec fn field_sites(location: Seq<char>, field: Field) -> Seq<SiteView> {
    gather(field.validate@.len(), inline_site(location, field.validate@)) + gather(
        field.option_states@.len(),
        enabled_site(location, field.option_states@),
    )
}

/// [`field_sites`] as a function of a place and a field.
pub open spec fn per_field_sites() -> spec_fn(Seq<char>, Field) -> Seq<SiteView> {
    |location: Seq<char>, field: Field| field_sites(location, field)
}

impl Schema {
    /// All expressions of the schema: those of its constraints, then those of
    /// the fields of its tabs.
    pub open spec fn all_sites(self) -> Seq<SiteView> {
        gather(self.constraints@.len(), constraint_site(self.constraints@)) + over_tabs(
            self.tabs@,
            per_field_sites(),
        )
    }
}

/// Appends the expressions of a field.
pub fn collect_field_cel_exprs(sites: &mut Vec<CelSite>, ctx: &FieldContext<'_>)
    ensures
        site_views(final(sites)@) == site_views(old(sites)@) + field_sites(ctx.place(), *ctx.field),
{
    let location = ctx.location();
    let field = ctx.field;
    let ghost place = ctx.place();
    let ghost start = site_views(sites@);
    let ghost inlines = inline_site(place, field.validate@);
    let mut i: usize = 0;
    assert(start + gather(0, inlines) =~= start);
    while i < field.validate.len()
        invariant
            i <= field.validate.len(),
            location@ == place,
            inlines == inline_site(place, field.validate@),
            site_views(sites@) == start + gather(i as nat, inlines),
        decreases field.validate.len() - i,
    {
        let ghost before = sites@;
        if let ValidateEntry::Inline(inline) = &field.validate[i] {
            let site = CelSite { location: location.clone(), expr: inline.expr.clone() };
            sites.push(site);
            proof {
                lemma_site_views_push(before, site);
            }
        }
        assert(site_views(sites@) =~= start + gather((i + 1) as nat, inlines));
        i += 1;
    }
    let ghost middle = site_views(sites@);
    let ghost enableds = enabled_site(place, field.option_states@);
    let mut j: usize = 0;
    assert(middle + gather(0, enableds) =~= middle);
    while j < field.option_states.len()
        invariant
            j <= field.option_states.len(),
            location@ == place,
            enableds == enabled_site(place, field.option_states@),
            site_views(sites@) == middle + gather(j as nat, enableds),
        decreases field.option_states.len() - j,
    {
        let ghost before = sites@;
        let state = &field.option_states[j];
        if let Some(expr) = &state.enabled {
            let mut loc = location.clone();
            loc.append(" option_states value=");
            push_debug(&mut loc, state.value.as_str());
            let site = CelSite { location: loc, expr: expr.clone() };
            sites.push(site);
            proof {
                lemma_site_views_push(before, site);
            }
        }
        assert(site_views(sites@) =~= middle + gather((j + 1) as nat, enableds));
        j += 1;
    }
    assert(site_views(sites@) =~= start + field_sites(place, *field));
}

/// Appends the expressions of a list of fields in a tab.
fn collect_list(
    sites: &mut Vec<CelSite>,
    tab_index: usize,
    tab: &crate::model::Tab,
    section_prefix: Option<&str>,
    fields: &Vec<Field>,
)
    ensures
        site_views(final(sites)@) == site_views(old(sites)@) + gather(
            fields@.len(),
            field_part(
                tab_index as nat,
                *tab,
                match section_prefix {
                    Some(prefix) => Some(prefix@),
                    None => None,
                },
                fields@,
                per_field_sites(),
            ),
        ),
{
    let ghost prefix = match section_prefix {
        Some(prefix) => Some(prefix@),
        None => None,
    };
    let ghost part = field_part(tab_index as nat, *tab, prefix, fields@, per_field_sites());
    let ghost start = site_views(sites@);
    let mut i: usize = 0;
    assert(start + gather(0, part) =~= start);
    while i < fields.len()
        invariant
            i <= fields.len(),
            prefix == match section_prefix {
                Some(prefix) => Some(prefix@),
                None => None,
            },
            part == field_part(tab_index as nat, *tab, prefix, fields@, per_field_sites()),
            site_views(sites@) == start + gather(i as nat, part),
        decreases fields.len() - i,
    {
        let ctx = FieldContext {
            tab_index,
            tab_id: tab.id.as_str(),
            field_index: i,
            field: &fields[i],
            section_prefix,
        };
        collect_field_cel_exprs(sites, &ctx);
        assert(part(i as int) == field_sites(ctx.place(), fields@[i as int]));
        assert(site_views(sites@) =~= start + gather((i + 1) as nat, part));
        i += 1;
    }
}

impl Schema {
    /// All expressions of the schema: those of its constraints, then those of
    /// the fields of its tabs.
    pub fn cel_sites(&self) -> (r: Vec<CelSite>)
        ensures
            site_views(r@) == self.all_sites(),
    {
        let mut sites: Vec<CelSite> = Vec::new();
        let ghost named = constraint_site(self.constraints@);
        let mut c: usize = 0;
        assert(site_views(sites@) =~= gather(0, named));
        while c < self.constraints.len()
            invariant
                c <= self.constraints.len(),
                named == constraint_site(self.constraints@),
                site_views(sites@) == gather(c as nat, named),
            decreases self.constraints.len() - c,
        {
            let ghost before = sites@;
            let constraint = &self.constraints[c];
            let mut location = "constraints id=".to_owned();
            push_debug(&mut location, constraint.id.as_str());
            let site = CelSite { location, expr: constraint.expr.clone() };
            sites.push(site);
            proof {
                lemma_site_views_push(before, site);
                assert(named(c as int) =~= seq![site@]);
            }
            c += 1;
        }
        let ghost start = site_views(sites@);
        let ghost part = tab_part(self.tabs@, per_field_sites());
        let mut t: usize = 0;
        assert(start + gather(0, part) =~= start);
        while t < self.tabs.len()
            invariant
                t <= self.tabs.len(),
                part == tab_part(self.tabs@, per_field_sites()),
                site_views(sites@) == start + gather(t as nat, part),
            decreases self.tabs.len() - t,
        {
            let tab = &self.tabs[t];
            let ghost before = site_views(sites@);
            if let Some(fields) = &tab.fields {
                collect_list(&mut sites, t, tab, None, fields);
            }
            assert(site_views(sites@) =~= before + over_own_fields(
                t as nat,
                *tab,
                per_field_sites(),
            ));
            let ghost between = site_views(sites@);
            if let Some(map) = &tab.section_map {
                collect_list(&mut sites, t, tab, Some(map.key_prefix.as_str()), &map.fields);
            }
            assert(site_views(sites@) =~= between + over_section_fields(
                t as nat,
                *tab,
                per_field_sites(),
            ));
            assert(site_views(sites@) =~= start + gather((t + 1) as nat, part));
            t += 1;
        }
        sites
    }
}

/// The outcome of compiling each of `sites`.
pub open spec fn site_outcomes(sites: Seq<SiteView>) -> Seq<Option<Seq<char>>> {
    sites.map_values(|s: SiteView| cel_outcome(s.expr))
}

/// What a list of outcomes says, in order.
pub open spec fn outcome_views(outcomes: Seq<Result<(), String>>) -> Seq<Option<Seq<char>>> {
    outcomes.map_values(|o: Result<(), String>| outcome_view(o))
}

/// Whether each of `sites` can be compiled.
pub open spec fn all_compilable(sites: Seq<SiteView>) -> bool {
    forall|i: int| 0 <= i < sites.len() ==> compilable((#[trigger] sites[i]).expr)
}

/// Whether each of `sites` can be compiled.
pub fn are_compilable(sites: &Vec<CelSite>) -> (r: bool)
    ensures
        r == all_compilable(site_views(sites@)),
{
    let mut i: usize = 0;
    while i < sites.len()
        invariant
            i <= sites.len(),
            forall|j: int| 0 <= j < i ==> compilable((#[trigger] site_views(sites@)[j]).expr),
        decreases sites.len() - i,
    {
        assert(site_views(sites@)[i as int].expr == sites@[i as int].expr@);
        if !is_compilable(sites[i].expr.as_str()) {
            return false;
        }
        i += 1;
    }
    true
}

/// Compiles each of `sites`.
pub fn compile_sites(sites: &Vec<CelSite>) -> (r: Vec<Result<(), String>>)
    requires
        all_compilable(site_views(sites@)),
    ensures
        outcome_views(r@) == site_outcomes(site_views(sites@)),
{
    let mut outcomes: Vec<Result<(), String>> = Vec::new();
    let mut i: usize = 0;
    while i < sites.len()
        invariant
            i <= sites.len(),
            all_compilable(site_views(sites@)),
            outcomes.len() == i,
            forall|j: int|
                0 <= j < i ==> outcome_view(#[trigger] outcomes@[j]) == cel_outcome(
                    sites@[j].expr@,
                ),
        decreases sites.len() - i,
    {
        assert(site_views(sites@)[i as int].expr == sites@[i as int].expr@);
        outcomes.push(try_compile_cel(sites[i].expr.as_str()));
        i += 1;
    }
    assert(outcome_views(outcomes@) =~= site_outcomes(site_views(sites@)));
    outcomes
}

/// What the outcome of compiling a site adds to the errors.
pub open spec fn site_error(sites: Seq<SiteView>, outcomes: Seq<Option<Seq<char>>>) -> spec_fn(
    int,
) -> Seq<ErrorView> {
    |i: int|
        match outcomes[i] {
            None => Seq::empty(),
            Some(detail) => seq![
                ErrorView::InvalidCelExpression {
                    location: sites[i].location,
                    expr: sites[i].expr,
                    detail,
                },
            ],
        }
}

/// What the outcomes of compiling add to the errors: one for each expression
/// that was rejected.
pub open spec fn cel_errors(sites: Seq<SiteView>, outcomes: Seq<Option<Seq<char>>>) -> Seq<
    ErrorView,
> {
    gather(sites.len(), site_error(sites, outcomes))
}

/// Appends an error for each expression that was rejected.
pub fn report_cel_outcomes(
    sites: &Vec<CelSite>,
    outcomes: &Vec<Result<(), String>>,
    errors: &mut Vec<SchemaValidationError>,
)
    requires
        outcomes.len() == sites.len(),
    ensures
        error_views(final(errors)@) == error_views(old(errors)@) + cel_errors(
            site_views(sites@),
            outcome_views(outcomes@),
        ),
{
    let ghost start = error_views(errors@);
    let ghost part = site_error(site_views(sites@), outcome_views(outcomes@));
    let mut i: usize = 0;
    assert(start + gather(0, part) =~= start);
    while i < sites.len()
        invariant
            i <= sites.len(),
            outcomes.len() == sites.len(),
            part == site_error(site_views(sites@), outcome_views(outcomes@)),
            error_views(errors@) == start + gather(i as nat, part),
        decreases sites.len() - i,
    {
        let ghost before = errors@;
        assert(outcome_views(outcomes@)[i as int] == outcome_view(outcomes@[i as int]));
        assert(site_views(sites@)[i as int] == sites@[i as int]@);
        if let Err(detail) = &outcomes[i] {
            let e = SchemaValidationError::InvalidCelExpression {
                location: sites[i].location.clone(),
                expr: sites[i].expr.clone(),
                detail: detail.clone(),
            };
            errors.push(e);
            proof {
                lemma_error_views_push(before, e);
            }
        }
        assert(error_views(errors@) =~= start + gather((i + 1) as nat, part));
        i += 1;
    }
}

/// What lists of sites and outcomes say is what their members say, one by one.
pub proof fn sites_and_outcomes_are_read_one_by_one(
    sites: Seq<CelSite>,
    outcomes: Seq<Result<(), String>>,
    i: int,
)
    ensures
        site_views(sites).len() == sites.len(),
        0 <= i < sites.len() ==> site_views(sites)[i].location == sites[i].location@ && site_views(
            sites,
        )[i].expr == sites[i].expr@,
        outcome_views(outcomes).len() == outcomes.len(),
        0 <= i < outcomes.len() && outcomes[i] is Ok ==> outcome_views(outcomes)[i] is None,
        0 <= i < outcomes.len() ==> (outcomes[i] matches Err(detail) ==> outcome_views(outcomes)[i]
            == Some(detail@)),
{
}

/// Compiling an expression reports something exactly when it is not accepted, and then
/// what is wrong with it, whatever its place is.
pub proof fn outcomes_follow_the_expressions(sites: Seq<SiteView>, i: int)
    requires
        0 <= i < sites.len(),
    ensures
        site_outcomes(sites).len() == sites.len(),
        cel_accepts(sites[i].expr) ==> site_outcomes(sites)[i] is None,
        !cel_accepts(sites[i].expr) ==> site_outcomes(sites)[i] == Some(
            cel_complaint(sites[i].expr),
        ),
{
}

/// The expressions of a field come in the order of its inline rules, each once, and then in
/// that of its option states.
pub proof fn inline_rules_come_before_option_states(location: Seq<char>, field: Field)
    ensures
        ({
            let inlines = inline_site(location, field.validate@);
            let enableds = enabled_site(location, field.option_states@);
            &&& field_sites(location, field) == gather(field.validate@.len(), inlines) + gather(
                field.option_states@.len(),
                enableds,
            )
            &&& forall|k: int|
                0 <= k < field.validate@.len() ==> (#[trigger] inlines(k)).len()
                    == if field.validate@[k] is Inline {
                    1nat
                } else {
                    0nat
                }
            &&& forall|k: int|
                0 <= k < field.option_states@.len() ==> (#[trigger] enableds(k)).len()
                    == if field.option_states@[k].enabled is Some {
                    1nat
                } else {
                    0nat
                }
        }),
{
}

/// An expression that is short, counted in characters and with each opening bracket and
/// question mark at what a level needs, can be compiled.
pub proof fn short_expressions_are_compilable(expr: Seq<char>)
    requires
        expr.len() + 192 * openers_from(expr, 0) <= 1536,
    ensures
        compilable(expr),
{
    nesting_is_bounded_by_openers(expr);
    assert forall|i: int| 0 <= i <= expr.len() implies #[trigger] column(expr, i)
        <= LONGEST_LINE by {
        lemma_column(expr, i);
    }
}

} // verus!
