//! Option lists, and the segments of a segmented control.

use crate::edits::{ConfigEdit, EditView, NumberRepr};
use crate::model::{Field, FieldType, Float64};
use crate::sections::{last_index, last_index_is_last};
use crate::text::{copy_texts, gather, lemma_texts_push, texts};
use vstd::prelude::*;
use vstd::string::*;

verus! {

impl Field {
    /// The options of a `select`: the listed ones, or the keys of the section map
    /// that the field refers to.
    pub open spec fn select_texts(self, section_keys: Seq<Seq<char>>) -> Seq<Seq<char>> {
        match self.options {
            Some(options) => texts(options@),
            None => if self.options_from is Some {
                section_keys
            } else {
                Seq::empty()
            },
        }
    }

    /// The options of a `segmented_control`: as those of a `select`, save that
    /// numbers have to be listed.
    pub open spec fn segment_texts(self, section_keys: Seq<Seq<char>>) -> Seq<Seq<char>> {
        if self.field_type == FieldType::Number && self.options is None {
            Seq::empty()
        } else {
            self.select_texts(section_keys)
        }
    }

    /// The options of a `select`, where `section_keys` are the keys of the
    /// section map that the field refers to.
    pub fn select_options(&self, section_keys: Vec<String>) -> (r: Vec<String>)
        ensures
            texts(r@) == self.select_texts(texts(section_keys@)),
    {
        match &self.options {
            Some(options) => copy_texts(options),
            None => {
                if self.options_from.is_some() {
                    section_keys
                } else {
                    let none: Vec<String> = Vec::new();
                    assert(texts(none@) =~= Seq::<Seq<char>>::empty());
                    none
                }
            },
        }
    }
}

/// The options of a `segmented_control`, where `section_keys` are the keys of
/// the section map that the field refers to.
pub fn segmented_control_options(field: &Field, section_keys: Vec<String>) -> (r: Vec<String>)
    ensures
        texts(r@) == field.segment_texts(texts(section_keys@)),
{
    if matches!(field.field_type, FieldType::Number) && field.options.is_none() {
        let none: Vec<String> = Vec::new();
        assert(texts(none@) =~= Seq::<Seq<char>>::empty());
        return none;
    }
    field.select_options(section_keys)
}

/// An option that is a number.
#[verifier::ext_equal]
pub struct NumericView {
    pub label: Seq<char>,
    pub value: Float64,
}

/// An option that is a number.
#[derive(Debug, Clone)]
pub struct NumericOption {
    pub label: String,
    pub value: Float64,
}

impl View for NumericOption {
    type V = NumericView;

    open spec fn view(&self) -> NumericView {
        NumericView { label: self.label@, value: self.value }
    }
}

/// What a list of numeric options says, in order.
pub open spec fn numeric_views(options: Seq<NumericOption>) -> Seq<NumericView> {
    options.map_values(|o: NumericOption| o@)
}

/// The `i`-th option with its number, if it is one.
pub open spec fn numeric_at(options: Seq<String>, numbers: Seq<Option<Float64>>) -> spec_fn(
    int,
) -> Seq<NumericView> {
    |i: int|
        match numbers[i] {
            Some(value) => seq![NumericView { label: options[i]@, value }],
            None => Seq::empty(),
        }
}

/// The `i`-th option, if it is not a number.
pub open spec fn invalid_at(options: Seq<String>, numbers: Seq<Option<Float64>>) -> spec_fn(
    int,
) -> Seq<Seq<char>> {
    |i: int|
        if numbers[i] is None {
            seq![options[i]@]
        } else {
            Seq::empty()
        }
}

/// Parts options into those that are numbers and those that are not, where
/// `numbers` holds what each of them is read as.
pub fn part_numeric_options(options: &Vec<String>, numbers: &Vec<Option<Float64>>) -> (r: (
    Vec<NumericOption>,
    Vec<String>,
))
    requires
        options.len() == numbers.len(),
    ensures
        numeric_views(r.0@) == gather(options@.len(), numeric_at(options@, numbers@)),
        texts(r.1@) == gather(options@.len(), invalid_at(options@, numbers@)),
{
    let ghost good = numeric_at(options@, numbers@);
    let ghost bad = invalid_at(options@, numbers@);
    let mut parsed: Vec<NumericOption> = Vec::new();
    let mut invalid: Vec<String> = Vec::new();
    let mut i: usize = 0;
    assert(numeric_views(parsed@) =~= gather(0, good));
    assert(texts(invalid@) =~= gather(0, bad));
    while i < options.len()
        invariant
            i <= options.len(),
            options.len() == numbers.len(),
            good == numeric_at(options@, numbers@),
            bad == invalid_at(options@, numbers@),
            numeric_views(parsed@) == gather(i as nat, good),
            texts(invalid@) == gather(i as nat, bad),
        decreases options.len() - i,
    {
        let label = options[i].clone();
        match numbers[i] {
            Some(value) => {
                parsed.push(NumericOption { label, value });
            },
            None => {
                invalid.push(label);
            },
        }
        assert(numeric_views(parsed@) =~= gather((i + 1) as nat, good));
        assert(texts(invalid@) =~= gather((i + 1) as nat, bad));
        i += 1;
    }
    (parsed, invalid)
}

/// Whether some option is written with a fraction.
pub open spec fn some_has_fraction(options: Seq<Seq<char>>) -> bool {
    exists|i: int| 0 <= i < options.len() && (#[trigger] options[i]).contains('.')
}

fn has_dot(s: &str) -> (r: bool)
    ensures
        r == s@.contains('.'),
{
    for c in it: s.chars()
        invariant
            it.seq() == s@,
            forall|j: int| 0 <= j < it.index() ==> s@[j] != '.',
    {
        if c == '.' {
            assert(s@[it.index()] == '.');
            return true;
        }
    }
    false
}

impl NumberRepr {
    /// How the numbers of a segmented control are written: as integers where
    /// every option omits the dot, else as floats.
    pub fn from_options(options: &Vec<String>) -> (r: NumberRepr)
        ensures
            r == if some_has_fraction(texts(options@)) {
                NumberRepr::Float
            } else {
                NumberRepr::Integer
            },
    {
        let mut i: usize = 0;
        while i < options.len()
            invariant
                i <= options.len(),
                forall|j: int| 0 <= j < i ==> !(#[trigger] texts(options@)[j]).contains('.'),
            decreases options.len() - i,
        {
            assert(texts(options@)[i as int] == options@[i as int]@);
            if has_dot(options[i].as_str()) {
                return NumberRepr::Float;
            }
            i += 1;
        }
        NumberRepr::Integer
    }
}

/// The number that a control shows: the stored one, or the least one, or the
/// first option, or zero.
pub open spec fn number_shown(
    stored: Option<Float64>,
    min: Option<Float64>,
    options: Seq<NumericView>,
) -> Float64 {
    match stored {
        Some(value) => value,
        None => match min {
            Some(value) => value,
            None => if options.len() > 0 {
                options[0].value
            } else {
                Float64 { bits: 0 }
            },
        },
    }
}

/// The number that a control shows.
pub fn current_number(
    stored: Option<Float64>,
    min: Option<Float64>,
    options: &Vec<NumericOption>,
) -> (r: Float64)
    ensures
        r == number_shown(stored, min, numeric_views(options@)),
{
    match stored {
        Some(value) => value,
        None => match min {
            Some(value) => value,
            None => {
                if options.len() > 0 {
                    assert(numeric_views(options@)[0] == options@[0]@);
                    options[0].value
                } else {
                    Float64 { bits: 0 }
                }
            },
        },
    }
}

/// What choosing a segment stores.
#[derive(Debug, Clone, Copy, PartialEq, Eq, Structural)]
pub enum SegmentedWrite {
    /// The label.
    Text,
    /// A number.
    Number { value: Float64, repr: NumberRepr },
}

/// The segments of a control.
#[derive(Debug, Clone)]
pub struct SegmentedSegments {
    pub labels: Vec<String>,
    pub selected: Vec<bool>,
    pub on_select: Vec<SegmentedWrite>,
}

/// Which of the options is the stored one.
pub open spec fn text_selection(options: Seq<Seq<char>>, current: Seq<char>) -> Seq<bool> {
    options.map_values(|o: Seq<char>| o == current)
}

impl SegmentedSegments {
    /// There is one of each per segment.
    pub open spec fn well_formed(self) -> bool {
        self.selected@.len() == self.labels@.len() && self.on_select@.len() == self.labels@.len()
    }

    /// The segments of a control that stores strings.
    pub fn of_texts(options: Vec<String>, current: &str) -> (r: SegmentedSegments)
        ensures
            r.well_formed(),
            r.labels@ == options@,
            r.selected@ == text_selection(texts(options@), current@),
            r.on_select@ == Seq::new(options@.len(), |i: int| SegmentedWrite::Text),
    {
        let mut selected: Vec<bool> = Vec::new();
        let mut on_select: Vec<SegmentedWrite> = Vec::new();
        let mut i: usize = 0;
        while i < options.len()
            invariant
                i <= options.len(),
                selected@ == text_selection(texts(options@), current@).take(i as int),
                on_select@ == Seq::new(i as nat, |j: int| SegmentedWrite::Text),
            decreases options.len() - i,
        {
            let is_current = *options[i].as_str() == *current;
            selected.push(is_current);
            on_select.push(SegmentedWrite::Text);
            assert(texts(options@)[i as int] == options@[i as int]@);
            assert(selected@ =~= text_selection(texts(options@), current@).take(i + 1));
            assert(on_select@ =~= Seq::new((i + 1) as nat, |j: int| SegmentedWrite::Text));
            i += 1;
        }
        assert(selected@ =~= text_selection(texts(options@), current@));
        SegmentedSegments { labels: options, selected, on_select }
    }

    /// The segments of a control that stores numbers, where `matching` says which
    /// of the options is the number shown.
    pub fn of_numbers(options: &Vec<NumericOption>, matching: Vec<bool>, repr: NumberRepr) -> (r:
        SegmentedSegments)
        requires
            matching.len() == options.len(),
        ensures
            r.well_formed(),
            texts(r.labels@) == numeric_views(options@).map_values(|o: NumericView| o.label),
            r.selected@ == matching@,
            r.on_select@ == numeric_views(options@).map_values(
                |o: NumericView| SegmentedWrite::Number { value: o.value, repr },
            ),
    {
        let mut labels: Vec<String> = Vec::new();
        let mut on_select: Vec<SegmentedWrite> = Vec::new();
        let ghost names = numeric_views(options@).map_values(|o: NumericView| o.label);
        let ghost writes = numeric_views(options@).map_values(
            |o: NumericView| SegmentedWrite::Number { value: o.value, repr },
        );
        let mut i: usize = 0;
        assert(texts(labels@) =~= names.take(0));
        while i < options.len()
            invariant
                i <= options.len(),
                names == numeric_views(options@).map_values(|o: NumericView| o.label),
                writes == numeric_views(options@).map_values(
                    |o: NumericView| SegmentedWrite::Number { value: o.value, repr },
                ),
                texts(labels@) == names.take(i as int),
                on_select@ == writes.take(i as int),
            decreases options.len() - i,
        {
            let ghost before = labels@;
            let label = options[i].label.clone();
            labels.push(label);
            on_select.push(SegmentedWrite::Number { value: options[i].value, repr });
            proof {
                lemma_texts_push(before, label);
            }
            assert(numeric_views(options@)[i as int] == options@[i as int]@);
            assert(texts(labels@) =~= names.take(i + 1));
            assert(on_select@ =~= writes.take(i + 1));
            i += 1;
        }
        assert(texts(labels@) =~= names);
        assert(on_select@ =~= writes);
        assert(labels@.len() == texts(labels@).len());
        SegmentedSegments { labels, selected: matching, on_select }
    }

    /// The edit that choosing the `i`-th segment asks for.
    pub fn choice(&self, key_path: &str, i: usize) -> (r: ConfigEdit)
        requires
            self.well_formed(),
            i < self.labels.len(),
        ensures
            r@ == match self.on_select@[i as int] {
                SegmentedWrite::Text => EditView::SetStr {
                    path: key_path@,
                    value: self.labels@[i as int]@,
                },
                SegmentedWrite::Number { value, repr } => EditView::SetNumber {
                    path: key_path@,
                    value,
                    repr,
                },
            },
    {
        match self.on_select[i] {
            SegmentedWrite::Text => ConfigEdit::SetStr {
                path: key_path.to_owned(),
                value: self.labels[i].clone(),
            },
            SegmentedWrite::Number { value, repr } => ConfigEdit::SetNumber {
                path: key_path.to_owned(),
                value,
                repr,
            },
        }
    }
}

/// Whether the `i`-th segment was clicked and can be.
pub open spec fn choosable_at(enabled: Seq<bool>, clicked: Seq<bool>) -> spec_fn(int) -> bool {
    |i: int| enabled[i] && clicked[i]
}

/// The segment that was chosen: the last one that was clicked and is enabled.
pub fn chosen_segment(enabled: &Vec<bool>, clicked: &Vec<bool>) -> (r: Option<usize>)
    requires
        enabled.len() == clicked.len(),
    ensures
        r == last_index(enabled@.len(), choosable_at(enabled@, clicked@)),
        r matches Some(i) ==> i < enabled.len() && enabled@[i as int],
{
    let ghost holds = choosable_at(enabled@, clicked@);
    let mut last: Option<usize> = None;
    let mut i: usize = 0;
    while i < enabled.len()
        invariant
            i <= enabled.len(),
            enabled.len() == clicked.len(),
            holds == choosable_at(enabled@, clicked@),
            last == last_index(i as nat, holds),
        decreases enabled.len() - i,
    {
        if enabled[i] && clicked[i] {
            last = Some(i);
        }
        i += 1;
    }
    proof {
        last_index_is_last(enabled@.len(), holds);
    }
    last
}

/// The edit that a `select` asks for: the chosen option, where it is another one
/// than the stored one.
pub fn select_edit(key_path: &str, current: &str, chosen: &str) -> (r: Option<ConfigEdit>)
    ensures
        match r {
            Some(edit) => chosen@ != current@ && edit@ == (EditView::SetStr {
                path: key_path@,
                value: chosen@,
            }),
            None => chosen@ == current@,
        },
{
    if *chosen == *current {
        None
    } else {
        Some(ConfigEdit::SetStr { path: key_path.to_owned(), value: chosen.to_owned() })
    }
}

/// The option that was stored by choosing it is the selected one; others are
/// selected only where they read the same.
pub proof fn chosen_option_is_selected(options: Seq<Seq<char>>, i: int, j: int)
    requires
        0 <= i < options.len(),
        0 <= j < options.len(),
    ensures
        text_selection(options, options[i])[i],
        text_selection(options, options[i])[j] <==> options[j] == options[i],
{
}

/// No option is lost: each is either taken as a number or reported.
pub proof fn every_option_is_taken_or_reported(
    options: Seq<String>,
    numbers: Seq<Option<Float64>>,
    n: nat,
)
    requires
        n <= options.len(),
        options.len() == numbers.len(),
    ensures
        gather(n, numeric_at(options, numbers)).len() + gather(
            n,
            invalid_at(options, numbers),
        ).len() == n,
    decreases n,
{
    if n > 0 {
        every_option_is_taken_or_reported(options, numbers, (n - 1) as nat);
    }
}

/// Listed options are offered as they are listed, whatever the sections are; options from
/// a section map are its sections; and a field with neither has none. Numbers have to be
/// listed.
pub proof fn listed_options_go_before_sections(field: Field, section_keys: Seq<Seq<char>>, i: int)
    ensures
        field.options matches Some(options) ==> field.select_texts(section_keys).len()
            == options@.len() && (0 <= i < options@.len() ==> field.select_texts(section_keys)[i]
            == options@[i]@),
        field.options is None && field.options_from is Some ==> field.select_texts(section_keys)
            == section_keys,
        field.options is None && field.options_from is None ==> field.select_texts(
            section_keys,
        ).len() == 0,
        field.options is Some || field.field_type != FieldType::Number ==> field.segment_texts(
            section_keys,
        ) == field.select_texts(section_keys),
        field.options is None && field.field_type == FieldType::Number ==> field.segment_texts(
            section_keys,
        ).len() == 0,
{
}

/// Each option that is a number is taken with its label and value, each other one is
/// reported, and both keep the order of the options.
pub proof fn each_option_is_taken_or_reported_as_it_is(
    options: Seq<String>,
    numbers: Seq<Option<Float64>>,
    n: nat,
)
    requires
        n < options.len(),
        options.len() == numbers.len(),
    ensures
        ({
            let taken = gather(n, numeric_at(options, numbers));
            let reported = gather(n, invalid_at(options, numbers));
            let more_taken = gather(n + 1, numeric_at(options, numbers));
            let more_reported = gather(n + 1, invalid_at(options, numbers));
            match numbers[n as int] {
                Some(value) => more_reported == reported && more_taken == taken.push(
                    NumericView { label: options[n as int]@, value },
                ),
                None => more_taken == taken && more_reported == reported.push(
                    options[n as int]@,
                ),
            }
        }),
        gather(0, numeric_at(options, numbers)).len() == 0,
        gather(0, invalid_at(options, numbers)).len() == 0,
{
    let taken = gather(n, numeric_at(options, numbers));
    let reported = gather(n, invalid_at(options, numbers));
    let more_taken = gather(n + 1, numeric_at(options, numbers));
    let more_reported = gather(n + 1, invalid_at(options, numbers));
    match numbers[n as int] {
        Some(value) => {
            assert(more_reported =~= reported);
            assert(more_taken =~= taken.push(NumericView { label: options[n as int]@, value }));
        },
        None => {
            assert(more_taken =~= taken);
            assert(more_reported =~= reported.push(options[n as int]@));
        },
    }
}

/// A stored number is shown whatever else is given; then the least one, then the first
/// option, then zero.
pub proof fn stored_number_is_shown_first(
    stored: Float64,
    min: Float64,
    options: Seq<NumericView>,
    other: Option<Float64>,
)
    ensures
        number_shown(Some(stored), other, options) == stored,
        number_shown(None, Some(min), options) == min,
        options.len() > 0 ==> number_shown(None, None, options) == options[0].value,
        options.len() == 0 ==> number_shown(None, None, options).bits == 0,
{
}

/// Exactly the options that read as what is stored are selected.
pub proof fn stored_option_is_selected(options: Seq<Seq<char>>, current: Seq<char>, i: int)
    requires
        0 <= i < options.len(),
    ensures
        text_selection(options, current).len() == options.len(),
        text_selection(options, current)[i] <==> options[i] == current,
{
}

/// One option with a dot, whichever it is, makes all numbers floats, and none does not.
pub proof fn any_dot_is_a_fraction(options: Seq<Seq<char>>, i: int, k: int)
    ensures
        0 <= i < options.len() && 0 <= k < options[i].len() && options[i][k] == '.'
            ==> some_has_fraction(options),
        (forall|j: int, l: int|
            0 <= j < options.len() && 0 <= l < options[j].len() ==> #[trigger] options[j][l] != '.')
            ==> !some_has_fraction(options),
{
    if 0 <= i < options.len() && 0 <= k < options[i].len() && options[i][k] == '.' {
        assert(options[i].contains('.'));
    }
    if some_has_fraction(options) {
        let j = choose|j: int| 0 <= j < options.len() && (#[trigger] options[j]).contains('.');
        let option = options[j];
        let l = choose|l: int| 0 <= l < option.len() && option[l] == '.';
        assert(options[j][l] == '.');
    }
}

/// The last segment that is enabled and was clicked is chosen, and a disabled one never is.
pub proof fn last_enabled_click_is_chosen(enabled: Seq<bool>, clicked: Seq<bool>, i: usize)
    requires
        enabled.len() == clicked.len(),
        enabled.len() <= usize::MAX,
    ensures
        i < enabled.len() && enabled[i as int] && clicked[i as int] && (forall|j: int|
            i < j < enabled.len() ==> !(#[trigger] enabled[j] && clicked[j])) ==> last_index(
            enabled.len(),
            choosable_at(enabled, clicked),
        ) == Some(i),
        (forall|j: int| 0 <= j < enabled.len() ==> !(#[trigger] enabled[j] && clicked[j]))
            ==> last_index(enabled.len(), choosable_at(enabled, clicked)) is None,
{
    let holds = choosable_at(enabled, clicked);
    last_index_is_last(enabled.len(), holds);
    assert(forall|j: int| #[trigger] holds(j) == (enabled[j] && clicked[j]));
    if let Some(k) = last_index(enabled.len(), holds) {
        assert(enabled[k as int] && clicked[k as int]);
    }
    assert(i < enabled.len() && enabled[i as int] && clicked[i as int] ==> holds(i as int));
}

/// What a list of numeric options says is what its options say, one by one.
pub proof fn numeric_options_are_read_one_by_one(options: Seq<NumericOption>, i: int)
    ensures
        numeric_views(options).len() == options.len(),
        0 <= i < options.len() ==> numeric_views(options)[i].label == options[i].label@
            && numeric_views(options)[i].value == options[i].value,
{
}

} // verus!
