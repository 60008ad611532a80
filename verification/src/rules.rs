//! Constraint lookup, and the rules that a field's `validate` list stands for.

use crate::errors::{ErrorView, SchemaValidationError};
use crate::model::{Constraint, Field, ResolvedValidateRule, RuleView, Schema, ValidateEntry};
use crate::text::{debug_text, push_debug};
use vstd::prelude::*;
use vstd::string::*;

verus! {

/// The constraint that an id stands for: the last one that carries it.
pub open spec fn constraint_for(constraints: Seq<Constraint>, id: Seq<char>) -> Option<Constraint>
    decreases constraints.len(),
{
    if constraints.len() == 0 {
        None
    } else if constraints.last().id@ == id {
        Some(constraints.last())
    } else {
        constraint_for(constraints.drop_last(), id)
    }
}

/// An id stands for something exactly when some constraint carries it, and what
/// it stands for carries it.
pub proof fn constraint_for_is_defined_iff_listed(constraints: Seq<Constraint>, id: Seq<char>)
    ensures
        constraint_for(constraints, id) is Some <==> exists|i: int|
            0 <= i < constraints.len() && (#[trigger] constraints[i]).id@ == id,
        constraint_for(constraints, id) matches Some(c) ==> c.id@ == id && constraints.contains(c),
    decreases constraints.len(),
{
    if constraints.len() > 0 {
        let rest = constraints.drop_last();
        let n = rest.len() as int;
        constraint_for_is_defined_iff_listed(rest, id);
        if constraints.last().id@ == id {
            assert(constraints[n].id@ == id);
        } else {
            if exists|i: int| 0 <= i < constraints.len() && (#[trigger] constraints[i]).id@ == id {
                let i = choose|i: int|
                    0 <= i < constraints.len() && (#[trigger] constraints[i]).id@ == id;
                assert(rest[i].id@ == id);
            }
            if let Some(c) = constraint_for(rest, id) {
                let i = choose|i: int| 0 <= i < rest.len() && rest[i] == c;
                assert(constraints[i] == c);
            }
        }
    }
}

/// Looks up the constraint that `id` stands for.
pub fn find_constraint<'a>(constraints: &'a Vec<Constraint>, id: &str) -> (r: Option<&'a Constraint>)
    ensures
        match r {
            Some(c) => constraint_for(constraints@, id@) == Some(*c),
            None => constraint_for(constraints@, id@) is None,
        },
{
    let mut i: usize = constraints.len();
    assert(constraints@.take(i as int) =~= constraints@);
    while i > 0
        invariant
            i <= constraints.len(),
            constraint_for(constraints@, id@) == constraint_for(constraints@.take(i as int), id@),
        decreases i,
    {
        assert(constraints@.take(i as int).drop_last() =~= constraints@.take(i - 1));
        i -= 1;
        if *constraints[i].id.as_str() == *id {
            return Some(&constraints[i]);
        }
    }
    None
}

/// The place that is named in errors about a field on its own.
pub open spec fn field_place(key: Seq<char>) -> Seq<char> {
    "field key="@ + debug_text(key)
}

/// What one `validate` entry of the field `key` resolves to.
pub open spec fn resolve_entry(
    constraints: Seq<Constraint>,
    key: Seq<char>,
    entry: ValidateEntry,
) -> Result<RuleView, ErrorView> {
    match entry {
        ValidateEntry::Ref(id) => match constraint_for(constraints, id@) {
            None => Err(
                ErrorView::UnknownConstraintRef { id: id@, location: field_place(key) },
            ),
            Some(constraint) => match constraint.message {
                None => Err(
                    ErrorView::MissingConstraintMessage { id: id@, location: field_place(key) },
                ),
                Some(message) => Ok(
                    RuleView::Named { id: id@, expr: constraint.expr@, message: message@ },
                ),
            },
        },
        ValidateEntry::Inline(inline) => Ok(RuleView::Inline(inline@)),
    }
}

/// What a list of rules says, in order.
pub open spec fn rule_views(rules: Seq<ResolvedValidateRule>) -> Seq<RuleView> {
    rules.map_values(|r: ResolvedValidateRule| r@)
}

impl Field {
    /// Whether `rules` are the field's `validate` entries, resolved one by one.
    pub open spec fn resolves_to(self, constraints: Seq<Constraint>, rules: Seq<RuleView>) -> bool {
        &&& rules.len() == self.validate@.len()
        &&& forall|i: int|
            0 <= i < rules.len() ==> resolve_entry(
                constraints,
                self.key@,
                #[trigger] self.validate@[i],
            ) == Ok::<RuleView, ErrorView>(rules[i])
    }

    /// Whether `e` is the error of the field's first `validate` entry that does
    /// not resolve.
    pub open spec fn first_unresolved(self, constraints: Seq<Constraint>, e: ErrorView) -> bool {
        exists|i: int|
            {
                &&& 0 <= i < self.validate@.len()
                &&& resolve_entry(constraints, self.key@, #[trigger] self.validate@[i]) == Err::<
                    RuleView,
                    ErrorView,
                >(e)
                &&& forall|j: int|
                    0 <= j < i ==> resolve_entry(
                        constraints,
                        self.key@,
                        #[trigger] self.validate@[j],
                    ) is Ok
            }
    }

    /// Expand `validate` entries against top-level [`Constraint`]s, preserving order.
    pub fn resolved_validate_rules(&self, schema: &Schema) -> (r: Result<
        Vec<ResolvedValidateRule>,
        SchemaValidationError,
    >)
        ensures
            match r {
                Ok(rules) => self.resolves_to(schema.constraints@, rule_views(rules@)),
                Err(e) => self.first_unresolved(schema.constraints@, e@),
            },
    {
        let ghost constraints = schema.constraints@;
        let mut rules: Vec<ResolvedValidateRule> = Vec::with_capacity(self.validate.len());
        let mut i: usize = 0;
        while i < self.validate.len()
            invariant
                i <= self.validate.len(),
                constraints == schema.constraints@,
                rules.len() == i,
                forall|j: int|
                    0 <= j < i ==> resolve_entry(
                        constraints,
                        self.key@,
                        #[trigger] self.validate@[j],
                    ) == Ok::<RuleView, ErrorView>(rules@[j]@),
            decreases self.validate.len() - i,
        {
            let ghost before = rules@;
            match &self.validate[i] {
                ValidateEntry::Ref(id) => {
                    let mut place = "field key=".to_owned();
                    push_debug(&mut place, self.key.as_str());
                    match find_constraint(&schema.constraints, id.as_str()) {
                        None => {
                            let e = SchemaValidationError::UnknownConstraintRef {
                                id: id.clone(),
                                location: place,
                            };
                            assert(resolve_entry(
                                constraints,
                                self.key@,
                                self.validate@[i as int],
                            ) == Err::<RuleView, ErrorView>(e@));
                            return Err(e);
                        },
                        Some(constraint) => match &constraint.message {
                            None => {
                                let e = SchemaValidationError::MissingConstraintMessage {
                                    id: id.clone(),
                                    location: place,
                                };
                                assert(resolve_entry(
                                    constraints,
                                    self.key@,
                                    self.validate@[i as int],
                                ) == Err::<RuleView, ErrorView>(e@));
                                return Err(e);
                            },
                            Some(message) => {
                                rules.push(
                                    ResolvedValidateRule::Named {
                                        id: id.clone(),
                                        expr: constraint.expr.clone(),
                                        message: message.clone(),
                                    },
                                );
                            },
                        },
                    }
                },
                ValidateEntry::Inline(inline) => {
                    rules.push(ResolvedValidateRule::Inline(inline.clone()));
                },
            }
            assert(rules@.drop_last() =~= before);
            assert forall|j: int| 0 <= j < i + 1 implies resolve_entry(
                constraints,
                self.key@,
                #[trigger] self.validate@[j],
            ) == Ok::<RuleView, ErrorView>(rules@[j]@) by {
                if j < i {
                    assert(rules@[j] == before[j]);
                }
            }
            i += 1;
        }
        Ok(rules)
    }
}

/// An id stands for the last of the constraints that carry it.
pub proof fn id_stands_for_its_last_constraint(
    constraints: Seq<Constraint>,
    id: Seq<char>,
    i: int,
)
    requires
        0 <= i < constraints.len(),
        constraints[i].id@ == id,
        forall|j: int| i < j < constraints.len() ==> (#[trigger] constraints[j]).id@ != id,
    ensures
        constraint_for(constraints, id) == Some(constraints[i]),
    decreases constraints.len(),
{
    let n = constraints.len() - 1;
    if i < n {
        assert(constraints[n].id@ != id);
        let rest = constraints.drop_last();
        assert forall|j: int| i < j < rest.len() implies (#[trigger] rest[j]).id@ != id by {
            assert(constraints[j].id@ != id);
        }
        id_stands_for_its_last_constraint(rest, id, i);
    }
}

/// What an id stands for is the last constraint that carries it.
pub proof fn lemma_last_constraint(constraints: Seq<Constraint>, id: Seq<char>) -> (i: int)
    requires
        constraint_for(constraints, id) is Some,
    ensures
        0 <= i < constraints.len(),
        constraints[i].id@ == id,
        constraint_for(constraints, id) == Some(constraints[i]),
        forall|j: int| i < j < constraints.len() ==> (#[trigger] constraints[j]).id@ != id,
    decreases constraints.len(),
{
    let n = constraints.len() - 1;
    if constraints[n].id@ == id {
        n
    } else {
        let rest = constraints.drop_last();
        let i = lemma_last_constraint(rest, id);
        assert forall|j: int| i < j < constraints.len() implies (
        #[trigger] constraints[j]).id@ != id by {
            if j < n {
                assert(rest[j].id@ != id);
            }
        }
        i
    }
}

/// A reference resolves to the id, the expression and the message of the last constraint
/// with that id. It does not resolve where there is none, or where that one has no message.
pub proof fn references_resolve_to_the_last_constraint(
    constraints: Seq<Constraint>,
    key: Seq<char>,
    entry: ValidateEntry,
    id: Seq<char>,
    i: int,
)
    requires
        entry matches ValidateEntry::Ref(r) && r@ == id,
        0 <= i < constraints.len(),
        constraints[i].id@ == id,
        forall|j: int| i < j < constraints.len() ==> (#[trigger] constraints[j]).id@ != id,
    ensures
        match constraints[i].message {
            Some(message) => resolve_entry(constraints, key, entry) == Ok::<RuleView, ErrorView>(
                RuleView::Named { id, expr: constraints[i].expr@, message: message@ },
            ),
            None => resolve_entry(constraints, key, entry) == Err::<RuleView, ErrorView>(
                ErrorView::MissingConstraintMessage {
                    id,
                    location: "field key="@ + debug_text(key),
                },
            ),
        },
{
    id_stands_for_its_last_constraint(constraints, id, i);
}

/// A reference to an id that no constraint carries does not resolve, and an inline rule
/// stands for itself.
pub proof fn unknown_references_do_not_resolve(
    constraints: Seq<Constraint>,
    key: Seq<char>,
    entry: ValidateEntry,
)
    ensures
        match entry {
            ValidateEntry::Ref(id) => (forall|i: int|
                0 <= i < constraints.len() ==> (#[trigger] constraints[i]).id@ != id@)
                ==> resolve_entry(constraints, key, entry) == Err::<RuleView, ErrorView>(
                ErrorView::UnknownConstraintRef {
                    id: id@,
                    location: "field key="@ + debug_text(key),
                },
            ),
            ValidateEntry::Inline(inline) => resolve_entry(constraints, key, entry) == Ok::<
                RuleView,
                ErrorView,
            >(RuleView::Inline(inline@)),
        },
{
    if let ValidateEntry::Ref(id) = entry {
        constraint_for_is_defined_iff_listed(constraints, id@);
    }
}

/// The rules that a field resolves to are those of its entries, one by one and in their
/// order. A field whose entries all resolve has no unresolved one, and the error of a field
/// is that of its first entry which does not resolve.
pub proof fn entries_resolve_one_by_one(
    field: Field,
    constraints: Seq<Constraint>,
    rules: Seq<RuleView>,
    e: ErrorView,
    i: int,
)
    ensures
        field.resolves_to(constraints, rules) ==> rules.len() == field.validate@.len(),
        field.resolves_to(constraints, rules) && 0 <= i < rules.len() ==> resolve_entry(
            constraints,
            field.key@,
            field.validate@[i],
        ) == Ok::<RuleView, ErrorView>(rules[i]),
        field.resolves_to(constraints, rules) ==> !field.first_unresolved(constraints, e),
        0 <= i < field.validate@.len() && resolve_entry(
            constraints,
            field.key@,
            field.validate@[i],
        ) is Err && (forall|j: int|
            0 <= j < i ==> resolve_entry(
                constraints,
                field.key@,
                #[trigger] field.validate@[j],
            ) is Ok) ==> (field.first_unresolved(constraints, e) <==> resolve_entry(
            constraints,
            field.key@,
            field.validate@[i],
        ) == Err::<RuleView, ErrorView>(e)),
{
    if field.first_unresolved(constraints, e) {
        let k = choose|k: int|
            {
                &&& 0 <= k < field.validate@.len()
                &&& resolve_entry(constraints, field.key@, #[trigger] field.validate@[k]) == Err::<
                    RuleView,
                    ErrorView,
                >(e)
                &&& forall|j: int|
                    0 <= j < k ==> resolve_entry(
                        constraints,
                        field.key@,
                        #[trigger] field.validate@[j],
                    ) is Ok
            };
        assert(resolve_entry(constraints, field.key@, field.validate@[k]) is Err);
        if 0 <= i < field.validate@.len() {
            assert(resolve_entry(constraints, field.key@, field.validate@[i]) is Ok
                || resolve_entry(constraints, field.key@, field.validate@[i]) is Err);
        }
    }
}

} // verus!
