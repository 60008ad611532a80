//! Where a field stands in a schema, and walks over all fields.

use crate::model::{Field, Tab};
use crate::text::{
    debug_text, decimal, gather, gather_holds_what_its_parts_hold, gather_keeps_order,
    lemma_either_holds, lemma_gather_empty, push_debug, push_decimal,
};
use vstd::prelude::*;
use vstd::string::*;

verus! {

/// The place that is named in errors about a field of a tab.
pub open spec fn location_text(
    tab_index: nat,
    tab_id: Seq<char>,
    section_prefix: Option<Seq<char>>,
    field_index: nat,
    key: Seq<char>,
) -> Seq<char> {
    match section_prefix {
        Some(prefix) => "tabs["@ + decimal(tab_index) + "].id="@ + debug_text(tab_id)
            + ".section_map.key_prefix="@ + debug_text(prefix) + ".fields["@ + decimal(field_index)
            + "] key="@ + debug_text(key),
        None => "tabs["@ + decimal(tab_index) + "].id="@ + debug_text(tab_id) + ".fields["@
            + decimal(field_index) + "] key="@ + debug_text(key),
    }
}

/// A field together with where it stands.
pub struct FieldContext<'a> {
    pub tab_index: usize,
    pub tab_id: &'a str,
    pub field_index: usize,
    pub field: &'a Field,
    pub section_prefix: Option<&'a str>,
}

impl FieldContext<'_> {
    /// The place that is named in errors about the field.
    pub open spec fn place(self) -> Seq<char> {
        location_text(
            self.tab_index as nat,
            self.tab_id@,
            match self.section_prefix {
                Some(prefix) => Some(prefix@),
                None => None,
            },
            self.field_index as nat,
            self.field.key@,
        )
    }

    /// The place that is named in errors about the field.
    pub fn location(&self) -> (r: String)
        ensures
            r@ == self.place(),
    {
        let mut s = "tabs[".to_owned();
        push_decimal(&mut s, self.tab_index as u64);
        s.append("].id=");
        push_debug(&mut s, self.tab_id);
        if let Some(prefix) = self.section_prefix {
            s.append(".section_map.key_prefix=");
            push_debug(&mut s, prefix);
        }
        s.append(".fields[");
        push_decimal(&mut s, self.field_index as u64);
        s.append("] key=");
        push_debug(&mut s, self.field.key.as_str());
        s
    }
}

/// What `per` yields for the `i`-th field of a list in a tab.
pub open spec fn field_part<E>(
    tab_index: nat,
    tab: Tab,
    section_prefix: Option<Seq<char>>,
    fields: Seq<Field>,
    per: spec_fn(Seq<char>, Field) -> Seq<E>,
) -> spec_fn(int) -> Seq<E> {
    |i: int|
        per(
            location_text(tab_index, tab.id@, section_prefix, i as nat, fields[i].key@),
            fields[i],
        )
}

/// What `per` yields for the fields of a tab that stand on their own.
pub open spec fn over_own_fields<E>(
    tab_index: nat,
    tab: Tab,
    per: spec_fn(Seq<char>, Field) -> Seq<E>,
) -> Seq<E> {
    match tab.fields {
        Some(fields) => gather(
            fields@.len(),
            field_part(tab_index, tab, None, fields@, per),
        ),
        None => Seq::empty(),
    }
}

/// What `per` yields for the fields of a tab's section map.
pub open spec fn over_section_fields<E>(
    tab_index: nat,
    tab: Tab,
    per: spec_fn(Seq<char>, Field) -> Seq<E>,
) -> Seq<E> {
    match tab.section_map {
        Some(map) => gather(
            map.fields@.len(),
            field_part(tab_index, tab, Some(map.key_prefix@), map.fields@, per),
        ),
        None => Seq::empty(),
    }
}

/// What `per` yields for all fields of the `i`-th tab.
pub open spec fn tab_part<E>(
    tabs: Seq<Tab>,
    per: spec_fn(Seq<char>, Field) -> Seq<E>,
) -> spec_fn(int) -> Seq<E> {
    |i: int| over_own_fields(i as nat, tabs[i], per) + over_section_fields(i as nat, tabs[i], per)
}

/// What `per`, called with each field and its place, yields for all fields of
/// all tabs, in the order of the schema.
pub open spec fn over_tabs<E>(tabs: Seq<Tab>, per: spec_fn(Seq<char>, Field) -> Seq<E>) -> Seq<E> {
    gather(tabs.len(), tab_part(tabs, per))
}

/// Whether `field` is the `field_index`-th of its list in the tab: of the tab's
/// own fields, or of its section map.
pub open spec fn stands_in(
    tab: Tab,
    in_section_map: bool,
    field_index: int,
    field: Field,
) -> bool {
    if in_section_map {
        tab.section_map matches Some(map) && 0 <= field_index < map.fields@.len()
            && map.fields@[field_index] == field
    } else {
        tab.fields matches Some(fields) && 0 <= field_index < fields@.len()
            && fields@[field_index] == field
    }
}

/// The place of a field that stands in a tab.
pub open spec fn place_of(
    tabs: Seq<Tab>,
    tab_index: int,
    in_section_map: bool,
    field_index: int,
    field: Field,
) -> Seq<char> {
    location_text(
        tab_index as nat,
        tabs[tab_index].id@,
        match tabs[tab_index].section_map {
            Some(map) if in_section_map => Some(map.key_prefix@),
            _ => None,
        },
        field_index as nat,
        field.key@,
    )
}

/// A walk over all fields yields nothing exactly when no field yields anything.
pub proof fn walk_is_empty_iff_no_field_yields<E>(
    tabs: Seq<Tab>,
    per: spec_fn(Seq<char>, Field) -> Seq<E>,
)
    ensures
        over_tabs(tabs, per).len() == 0 <==> forall|t: int, m: bool, i: int, field: Field|
            0 <= t < tabs.len() && #[trigger] stands_in(tabs[t], m, i, field) ==> per(
                place_of(tabs, t, m, i, field),
                field,
            ).len() == 0,
{
    lemma_gather_empty(tabs.len(), tab_part(tabs, per));
    let quiet = |t: int|
        forall|m: bool, i: int, field: Field| #[trigger]
            stands_in(tabs[t], m, i, field) ==> per(
                place_of(tabs, t, m, i, field),
                field,
            ).len() == 0;
    assert forall|t: int| 0 <= t < tabs.len() implies (#[trigger] tab_part(tabs, per)(t).len() == 0
        <==> quiet(t)) by {
        let tab = tabs[t];
        if let Some(fields) = tab.fields {
            lemma_gather_empty(
                fields@.len(),
                field_part(t as nat, tab, None, fields@, per),
            );
        }
        if let Some(map) = tab.section_map {
            lemma_gather_empty(
                map.fields@.len(),
                field_part(t as nat, tab, Some(map.key_prefix@), map.fields@, per),
            );
        }
        if tab_part(tabs, per)(t).len() == 0 {
            assert(over_own_fields(t as nat, tab, per).len() == 0);
            assert(over_section_fields(t as nat, tab, per).len() == 0);
            assert forall|m: bool, i: int, field: Field| #[trigger]
                stands_in(tab, m, i, field) implies per(
                place_of(tabs, t, m, i, field),
                field,
            ).len() == 0 by {
                if m {
                    let map = tab.section_map->0;
                    assert(field_part(
                        t as nat,
                        tab,
                        Some(map.key_prefix@),
                        map.fields@,
                        per,
                    )(i).len() == 0);
                } else {
                    let fields = tab.fields->0;
                    assert(field_part(t as nat, tab, None, fields@, per)(i).len() == 0);
                }
            }
        }
        if quiet(t) {
            if let Some(fields) = tab.fields {
                assert forall|i: int| 0 <= i < fields@.len() implies (#[trigger] field_part(
                    t as nat,
                    tab,
                    None,
                    fields@,
                    per,
                )(i)).len() == 0 by {
                    assert(stands_in(tab, false, i, fields@[i]));
                }
            }
            if let Some(map) = tab.section_map {
                assert forall|i: int| 0 <= i < map.fields@.len() implies (#[trigger] field_part(
                    t as nat,
                    tab,
                    Some(map.key_prefix@),
                    map.fields@,
                    per,
                )(i)).len() == 0 by {
                    assert(stands_in(tab, true, i, map.fields@[i]));
                }
            }
        }
    }
    if over_tabs(tabs, per).len() == 0 {
        assert forall|t: int, m: bool, i: int, field: Field|
            0 <= t < tabs.len() && #[trigger] stands_in(tabs[t], m, i, field) implies per(
            place_of(tabs, t, m, i, field),
            field,
        ).len() == 0 by {
            assert(tab_part(tabs, per)(t).len() == 0);
            assert(quiet(t));
        }
    }
    if forall|t: int, m: bool, i: int, field: Field|
        0 <= t < tabs.len() && #[trigger] stands_in(tabs[t], m, i, field) ==> per(
            place_of(tabs, t, m, i, field),
            field,
        ).len() == 0 {
        assert forall|t: int| 0 <= t < tabs.len() implies (#[trigger] tab_part(tabs, per)(
            t,
        )).len() == 0 by {
            assert(quiet(t));
        }
    }
}

/// The fields of a tab are those of its own list and those of its section map, each at its
/// position there.
pub proof fn fields_stand_where_they_are_listed(tab: Tab, i: int, field: Field)
    ensures
        stands_in(tab, false, i, field) <==> (tab.fields matches Some(fields) && 0 <= i
            < fields@.len() && fields@[i] == field),
        stands_in(tab, true, i, field) <==> (tab.section_map matches Some(map) && 0 <= i
            < map.fields@.len() && map.fields@[i] == field),
{
}

/// The place of a field names its tab by index and id, its section map by its prefix, and
/// the field by index and key.
pub proof fn places_name_tab_and_field(tabs: Seq<Tab>, t: nat, i: nat, field: Field)
    requires
        t < tabs.len(),
    ensures
        place_of(tabs, t as int, false, i as int, field) == "tabs["@ + decimal(t) + "].id="@
            + debug_text(tabs[t as int].id@) + ".fields["@ + decimal(i) + "] key="@ + debug_text(
            field.key@,
        ),
        tabs[t as int].section_map matches Some(map) ==> place_of(
            tabs,
            t as int,
            true,
            i as int,
            field,
        ) == "tabs["@ + decimal(t) + "].id="@ + debug_text(tabs[t as int].id@)
            + ".section_map.key_prefix="@ + debug_text(map.key_prefix@) + ".fields["@ + decimal(i)
            + "] key="@ + debug_text(field.key@),
{
}

/// A walk over all fields yields exactly what is yielded for some field, at its place.
pub proof fn walk_holds_what_fields_yield<E>(
    tabs: Seq<Tab>,
    per: spec_fn(Seq<char>, Field) -> Seq<E>,
    e: E,
)
    ensures
        over_tabs(tabs, per).contains(e) <==> exists|t: int, m: bool, i: int, field: Field|
            #![trigger stands_in(tabs[t], m, i, field)]
            0 <= t < tabs.len() && stands_in(tabs[t], m, i, field) && per(
                place_of(tabs, t, m, i, field),
                field,
            ).contains(e),
{
    let parts = tab_part(tabs, per);
    gather_holds_what_its_parts_hold(tabs.len(), parts, e);
    assert forall|t: int| 0 <= t < tabs.len() implies ((#[trigger] parts(t)).contains(e)
        <==> exists|m: bool, i: int, field: Field|
        #![trigger stands_in(tabs[t], m, i, field)]
        stands_in(tabs[t], m, i, field) && per(
            place_of(tabs, t, m, i, field),
            field,
        ).contains(e)) by {
        lemma_tab_holds_what_fields_yield(tabs, t, per, e);
    }
    if over_tabs(tabs, per).contains(e) {
        let t = choose|t: int| 0 <= t < tabs.len() && (#[trigger] parts(t)).contains(e);
        let (m, i, field) = choose|m: bool, i: int, field: Field|
            #![trigger stands_in(tabs[t], m, i, field)]
            stands_in(tabs[t], m, i, field) && per(
                place_of(tabs, t, m, i, field),
                field,
            ).contains(e);
        assert(stands_in(tabs[t], m, i, field));
    }
    if exists|t: int, m: bool, i: int, field: Field|
        #![trigger stands_in(tabs[t], m, i, field)]
        0 <= t < tabs.len() && stands_in(tabs[t], m, i, field) && per(
            place_of(tabs, t, m, i, field),
            field,
        ).contains(e) {
        let (t, m, i, field) = choose|t: int, m: bool, i: int, field: Field|
            #![trigger stands_in(tabs[t], m, i, field)]
            0 <= t < tabs.len() && stands_in(tabs[t], m, i, field) && per(
                place_of(tabs, t, m, i, field),
                field,
            ).contains(e);
        assert(stands_in(tabs[t], m, i, field));
        assert(parts(t).contains(e));
    }
}

proof fn lemma_tab_holds_what_fields_yield<E>(
    tabs: Seq<Tab>,
    t: int,
    per: spec_fn(Seq<char>, Field) -> Seq<E>,
    e: E,
)
    requires
        0 <= t < tabs.len(),
    ensures
        tab_part(tabs, per)(t).contains(e) <==> exists|m: bool, i: int, field: Field|
            #![trigger stands_in(tabs[t], m, i, field)]
            stands_in(tabs[t], m, i, field) && per(
                place_of(tabs, t, m, i, field),
                field,
            ).contains(e),
{
    let tab = tabs[t];
    let own = over_own_fields(t as nat, tab, per);
    let sections = over_section_fields(t as nat, tab, per);
    lemma_either_holds(own, sections, e);
    if let Some(fields) = tab.fields {
        let part = field_part(t as nat, tab, None, fields@, per);
        gather_holds_what_its_parts_hold(fields@.len(), part, e);
        if own.contains(e) {
            let i = choose|i: int| 0 <= i < fields@.len() && (#[trigger] part(i)).contains(e);
            assert(stands_in(tab, false, i, fields@[i]));
        }
    }
    if let Some(map) = tab.section_map {
        let list = map.fields@;
        let part = field_part(t as nat, tab, Some(map.key_prefix@), list, per);
        gather_holds_what_its_parts_hold(list.len(), part, e);
        if sections.contains(e) {
            let i = choose|i: int| 0 <= i < list.len() && (#[trigger] part(i)).contains(e);
            assert(stands_in(tab, true, i, list[i]));
        }
    }
    if exists|m: bool, i: int, field: Field|
        #![trigger stands_in(tab, m, i, field)]
        stands_in(tab, m, i, field) && per(place_of(tabs, t, m, i, field), field).contains(e) {
        let (m, i, field) = choose|m: bool, i: int, field: Field|
            #![trigger stands_in(tab, m, i, field)]
            stands_in(tab, m, i, field) && per(place_of(tabs, t, m, i, field), field).contains(e);
        if m {
            let map = tab.section_map->0;
            let part = field_part(t as nat, tab, Some(map.key_prefix@), map.fields@, per);
            assert(part(i).contains(e));
        } else {
            let fields = tab.fields->0;
            let part = field_part(t as nat, tab, None, fields@, per);
            assert(part(i).contains(e));
        }
    }
}

/// A walk goes from tab to tab in the order of the schema.
pub proof fn walk_goes_tab_by_tab<E>(
    tabs: Seq<Tab>,
    per: spec_fn(Seq<char>, Field) -> Seq<E>,
    t: nat,
)
    requires
        t < tabs.len(),
    ensures
        over_tabs(tabs.take(t as int + 1), per) == over_tabs(tabs.take(t as int), per) + over_own_fields(
            t,
            tabs[t as int],
            per,
        ) + over_section_fields(t, tabs[t as int], per),
        over_tabs(Seq::empty(), per).len() == 0,
{
    let all = tab_part(tabs, per);
    let more = tab_part(tabs.take(t as int + 1), per);
    let less = tab_part(tabs.take(t as int), per);
    lemma_gather_agrees(t + 1, more, all);
    lemma_gather_agrees(t, less, all);
    assert(over_tabs(tabs.take(t as int + 1), per) =~= over_tabs(tabs.take(t as int), per)
        + over_own_fields(t, tabs[t as int], per) + over_section_fields(t, tabs[t as int], per));
}

pub(crate) proof fn lemma_gather_agrees<E>(n: nat, f: spec_fn(int) -> Seq<E>, g: spec_fn(int) -> Seq<E>)
    requires
        forall|i: int| 0 <= i < n ==> #[trigger] f(i) == g(i),
    ensures
        gather(n, f) == gather(n, g),
    decreases n,
{
    if n > 0 {
        assert(f(n - 1) == g(n - 1));
        lemma_gather_agrees((n - 1) as nat, f, g);
    }
}

/// Within a tab a walk yields what its own fields yield, from the first to the last, and
/// then what the fields of its section map do.
pub proof fn walk_goes_field_by_field<E>(
    t: nat,
    tab: Tab,
    per: spec_fn(Seq<char>, Field) -> Seq<E>,
    i: nat,
)
    ensures
        tab.fields is None ==> over_own_fields(t, tab, per).len() == 0,
        tab.section_map is None ==> over_section_fields(t, tab, per).len() == 0,
        tab.fields matches Some(fields) ==> i < fields@.len() ==> ({
            let part = field_part(t, tab, None, fields@, per);
            let start = gather(i, part).len() as int;
            let own = per(
                location_text(t, tab.id@, None, i, fields@[i as int].key@),
                fields@[i as int],
            );
            &&& start + own.len() <= over_own_fields(t, tab, per).len()
            &&& over_own_fields(t, tab, per).subrange(start, start + own.len()) == own
            &&& gather(i + 1, part).len() == start + own.len()
            &&& gather(fields@.len(), part).len() == over_own_fields(t, tab, per).len()
        }),
        tab.section_map matches Some(map) ==> i < map.fields@.len() ==> ({
            let prefix = Some(map.key_prefix@);
            let part = field_part(t, tab, prefix, map.fields@, per);
            let start = gather(i, part).len() as int;
            let own = per(
                location_text(t, tab.id@, prefix, i, map.fields@[i as int].key@),
                map.fields@[i as int],
            );
            &&& start + own.len() <= over_section_fields(t, tab, per).len()
            &&& over_section_fields(t, tab, per).subrange(start, start + own.len()) == own
            &&& gather(i + 1, part).len() == start + own.len()
            &&& gather(map.fields@.len(), part).len() == over_section_fields(t, tab, per).len()
        }),
{
    if let Some(fields) = tab.fields {
        if i < fields@.len() {
            let part = field_part(t, tab, None, fields@, per);
            gather_keeps_order(fields@.len(), part, i);
        }
    }
    if let Some(map) = tab.section_map {
        if i < map.fields@.len() {
            let part = field_part(t, tab, Some(map.key_prefix@), map.fields@, per);
            gather_keeps_order(map.fields@.len(), part, i);
        }
    }
}

} // verus!
