//! Fields that hold one of several values, each under a key of its own, with the
//! choice kept in a mode.

use crate::edits::{edit_views, lemma_edit_views_push, ConfigEdit, EditView};
use crate::lang::ActiveLang;
use crate::model::{ExclusiveConfig, ExclusiveVariant, Field, WidgetKind};
use crate::paths::{child_path, join_path, parent_of, parent_of_child, parent_path};
use crate::text::{gather, gather_holds_what_its_parts_hold, lemma_either_holds};
use vstd::prelude::*;
use vstd::string::*;

verus! {

/// The path under which the mode of the field at `key_path` is kept.
pub open spec fn mode_path_of(config: ExclusiveConfig, key_path: Seq<char>) -> Seq<char> {
    child_path(parent_of(key_path), config.mode_key@)
}

/// The path of a variant's value, for the field at `key_path`.
pub open spec fn variant_path_of(variant: ExclusiveVariant, key_path: Seq<char>) -> Seq<char> {
    child_path(parent_of(key_path), variant.field_key@)
}

/// The mode of a field: the stored one, or the default.
pub open spec fn mode_of(config: ExclusiveConfig, stored: Option<Seq<char>>) -> Seq<char> {
    match stored {
        Some(mode) => mode,
        None => config.mode_default@,
    }
}

/// The mode after the first `n` variants could be clicked: the value of the last
/// one that was, or the old mode.
pub open spec fn mode_after(
    variants: Seq<ExclusiveVariant>,
    clicks: Seq<bool>,
    mode: Seq<char>,
    n: nat,
) -> Seq<char>
    decreases n,
{
    if n == 0 {
        mode
    } else if clicks[n - 1] {
        variants[n - 1].value@
    } else {
        mode_after(variants, clicks, mode, (n - 1) as nat)
    }
}

/// The first variant with the value `mode`, from the `i`-th on.
pub open spec fn variant_from(variants: Seq<ExclusiveVariant>, mode: Seq<char>, i: int) -> Option<
    ExclusiveVariant,
>
    decreases variants.len() - i,
{
    if i < 0 || i >= variants.len() {
        None
    } else if variants[i].value@ == mode {
        Some(variants[i])
    } else {
        variant_from(variants, mode, i + 1)
    }
}

/// The removal of the `i`-th variant's value, if it is one of `mode`.
pub open spec fn variant_removal(
    variants: Seq<ExclusiveVariant>,
    key_path: Seq<char>,
    mode: Seq<char>,
) -> spec_fn(int) -> Seq<EditView> {
    |i: int|
        if variants[i].value@ == mode {
            seq![EditView::Remove { path: variant_path_of(variants[i], key_path) }]
        } else {
            Seq::empty()
        }
}

/// The edits that a change of mode asks for: the value of the old mode is
/// removed, and the new mode is stored.
pub open spec fn mode_edits(
    config: ExclusiveConfig,
    key_path: Seq<char>,
    old_mode: Seq<char>,
    new_mode: Seq<char>,
) -> Seq<EditView> {
    if new_mode == old_mode {
        Seq::empty()
    } else {
        gather(config.variants@.len(), variant_removal(config.variants@, key_path, old_mode))
            + seq![EditView::SetStr { path: mode_path_of(config, key_path), value: new_mode }]
    }
}

impl ExclusiveConfig {
    /// The path under which the mode of the field at `key_path` is kept.
    pub fn mode_path(&self, key_path: &str) -> (r: String)
        ensures
            r@ == mode_path_of(*self, key_path@),
    {
        join_path(parent_path(key_path), self.mode_key.as_str())
    }

    /// The mode of the field: the stored one, or the default.
    pub fn current_mode<'a>(&'a self, stored: Option<&'a str>) -> (r: &'a str)
        ensures
            r@ == mode_of(
                *self,
                match stored {
                    Some(mode) => Some(mode@),
                    None => None,
                },
            ),
    {
        match stored {
            Some(mode) => mode,
            None => self.mode_default.as_str(),
        }
    }

    /// The mode after the first variants could be clicked.
    pub fn chosen_mode(&self, mode: &str, clicks: &Vec<bool>) -> (r: String)
        requires
            clicks.len() <= self.variants.len(),
        ensures
            r@ == mode_after(self.variants@, clicks@, mode@, clicks@.len()),
    {
        let mut chosen = mode.to_owned();
        let mut i: usize = 0;
        while i < clicks.len()
            invariant
                i <= clicks.len(),
                clicks.len() <= self.variants.len(),
                chosen@ == mode_after(self.variants@, clicks@, mode@, i as nat),
            decreases clicks.len() - i,
        {
            if clicks[i] {
                chosen = self.variants[i].value.clone();
            }
            i += 1;
        }
        chosen
    }

    /// Whether the next variant is marked, after those before it could be clicked: a
    /// click counts at once.
    pub fn is_next_marked(&self, mode: &str, clicks: &Vec<bool>) -> (r: bool)
        requires
            clicks.len() < self.variants.len(),
        ensures
            r == (self.variants@[clicks@.len() as int].value@ == mode_after(
                self.variants@,
                clicks@,
                mode@,
                clicks@.len(),
            )),
    {
        let chosen = self.chosen_mode(mode, clicks);
        *self.variants[clicks.len()].value.as_str() == *chosen.as_str()
    }

    /// The variant that is edited in the mode.
    pub fn variant_of(&self, mode: &str) -> (r: Option<&ExclusiveVariant>)
        ensures
            match r {
                Some(variant) => variant_from(self.variants@, mode@, 0) == Some(*variant),
                None => variant_from(self.variants@, mode@, 0) is None,
            },
    {
        let mut i: usize = 0;
        while i < self.variants.len()
            invariant
                i <= self.variants.len(),
                variant_from(self.variants@, mode@, 0) == variant_from(
                    self.variants@,
                    mode@,
                    i as int,
                ),
            decreases self.variants.len() - i,
        {
            if *self.variants[i].value.as_str() == *mode {
                return Some(&self.variants[i]);
            }
            i += 1;
        }
        None
    }

    /// The edits that a change of mode asks for.
    pub fn mode_change(&self, key_path: &str, old_mode: &str, new_mode: &str) -> (r: Vec<
        ConfigEdit,
    >)
        ensures
            edit_views(r@) == mode_edits(*self, key_path@, old_mode@, new_mode@),
    {
        let mut edits: Vec<ConfigEdit> = Vec::new();
        if *new_mode == *old_mode {
            assert(edit_views(edits@) =~= Seq::<EditView>::empty());
            return edits;
        }
        let ghost part = variant_removal(self.variants@, key_path@, old_mode@);
        let mut i: usize = 0;
        assert(edit_views(edits@) =~= gather(0, part));
        while i < self.variants.len()
            invariant
                i <= self.variants.len(),
                part == variant_removal(self.variants@, key_path@, old_mode@),
                edit_views(edits@) == gather(i as nat, part),
            decreases self.variants.len() - i,
        {
            let ghost before = edits@;
            let variant = &self.variants[i];
            if *variant.value.as_str() == *old_mode {
                let edit = ConfigEdit::Remove { path: variant.path(key_path) };
                edits.push(edit);
                proof {
                    lemma_edit_views_push(before, edit);
                }
            }
            assert(edit_views(edits@) =~= gather((i + 1) as nat, part));
            i += 1;
        }
        let ghost before = edits@;
        let edit = ConfigEdit::SetStr {
            path: self.mode_path(key_path),
            value: new_mode.to_owned(),
        };
        edits.push(edit);
        proof {
            lemma_edit_views_push(before, edit);
        }
        edits
    }
}

impl ExclusiveVariant {
    /// The path of the variant's value, for the field at `key_path`.
    pub fn path(&self, key_path: &str) -> (r: String)
        ensures
            r@ == variant_path_of(*self, key_path@),
    {
        join_path(parent_path(key_path), self.field_key.as_str())
    }

    /// Whether the variant's value is edited as a secret.
    pub fn is_secret(&self) -> (r: bool)
        ensures
            r == (self.widget == WidgetKind::SecretInput),
    {
        matches!(self.widget, WidgetKind::SecretInput)
    }
}

impl Field {
    /// The hint of the field in the language `code`, where `stored_mode` is the
    /// mode that is stored for it: its own, or that of its mode.
    pub open spec fn hint_text(self, stored_mode: Option<Seq<char>>, code: Seq<char>) -> Option<
        Seq<char>,
    > {
        match self.hint {
            Some(hint) => Some(hint@.text_for(code)),
            None => match self.exclusive {
                Some(config) if self.widget == WidgetKind::ExclusiveRadio => {
                    let mode = mode_of(config, stored_mode);
                    let hint = if mode == "direct"@ {
                        self.hint_direct
                    } else if mode == "env"@ {
                        self.hint_env
                    } else {
                        None
                    };
                    match hint {
                        Some(hint) => Some(hint@.text_for(code)),
                        None => None,
                    }
                },
                _ => None,
            },
        }
    }
}

/// The hint that is shown below a field, where `stored_mode` is what is stored
/// under the path of its mode.
pub fn field_hint<'a>(field: &'a Field, stored_mode: Option<&str>, lang: &ActiveLang) -> (r: Option<
    &'a str,
>)
    ensures
        match r {
            Some(hint) => field.hint_text(
                match stored_mode {
                    Some(mode) => Some(mode@),
                    None => None,
                },
                lang.active_code(),
            ) == Some(hint@),
            None => field.hint_text(
                match stored_mode {
                    Some(mode) => Some(mode@),
                    None => None,
                },
                lang.active_code(),
            ) is None,
        },
{
    if let Some(hint) = &field.hint {
        return Some(hint.get(lang));
    }
    if !matches!(field.widget, WidgetKind::ExclusiveRadio) {
        return None;
    }
    match &field.exclusive {
        None => None,
        Some(config) => {
            let mode: &str = match stored_mode {
                Some(mode) => mode,
                None => config.mode_default.as_str(),
            };
            proof {
                reveal_strlit("direct");
                reveal_strlit("env");
            }
            if *mode == *"direct" {
                match &field.hint_direct {
                    Some(hint) => Some(hint.get(lang)),
                    None => None,
                }
            } else if *mode == *"env" {
                match &field.hint_env {
                    Some(hint) => Some(hint.get(lang)),
                    None => None,
                }
            } else {
                None
            }
        },
    }
}

/// The mode stays as it is while nothing is clicked, and nothing is edited then.
pub proof fn no_click_no_change(
    config: ExclusiveConfig,
    key_path: Seq<char>,
    clicks: Seq<bool>,
    mode: Seq<char>,
    n: nat,
)
    requires
        n <= clicks.len(),
        forall|i: int| 0 <= i < n ==> !#[trigger] clicks[i],
    ensures
        mode_after(config.variants@, clicks, mode, n) == mode,
        mode_edits(
            config,
            key_path,
            mode,
            mode_after(config.variants@, clicks, mode, n),
        ).len() == 0,
    decreases n,
{
    if n > 0 {
        assert(!clicks[n - 1]);
        no_click_no_change(config, key_path, clicks, mode, (n - 1) as nat);
    }
}

/// A change of mode stores the new mode last, and before that removes values of
/// the old mode only.
pub proof fn mode_change_removes_the_old_value(
    config: ExclusiveConfig,
    key_path: Seq<char>,
    old_mode: Seq<char>,
    new_mode: Seq<char>,
    k: int,
)
    requires
        old_mode != new_mode,
        0 <= k < mode_edits(config, key_path, old_mode, new_mode).len(),
    ensures
        ({
            let edits = mode_edits(config, key_path, old_mode, new_mode);
            if k == edits.len() - 1 {
                edits[k] == (EditView::SetStr {
                    path: mode_path_of(config, key_path),
                    value: new_mode,
                })
            } else {
                exists|i: int|
                    0 <= i < config.variants@.len() && (#[trigger] config.variants@[i]).value@
                        == old_mode && edits[k] == (EditView::Remove {
                        path: variant_path_of(config.variants@[i], key_path),
                    })
            }
        }),
{
    let removals = gather(
        config.variants@.len(),
        variant_removal(config.variants@, key_path, old_mode),
    );
    let edits = mode_edits(config, key_path, old_mode, new_mode);
    if k < removals.len() {
        assert(edits[k] == removals[k]);
        let i = lemma_removed_variant(
            config.variants@,
            key_path,
            old_mode,
            config.variants@.len(),
            k,
        );
        assert(config.variants@[i].value@ == old_mode);
    }
}

proof fn lemma_removed_variant(
    variants: Seq<ExclusiveVariant>,
    key_path: Seq<char>,
    mode: Seq<char>,
    n: nat,
    k: int,
) -> (i: int)
    requires
        n <= variants.len(),
        0 <= k < gather(n, variant_removal(variants, key_path, mode)).len(),
    ensures
        0 <= i < n,
        variants[i].value@ == mode,
        gather(n, variant_removal(variants, key_path, mode))[k] == (EditView::Remove {
            path: variant_path_of(variants[i], key_path),
        }),
    decreases n,
{
    let before = gather((n - 1) as nat, variant_removal(variants, key_path, mode));
    if k < before.len() {
        lemma_removed_variant(variants, key_path, mode, (n - 1) as nat, k)
    } else {
        n - 1
    }
}

/// The last variant that was clicked gives the mode.
pub proof fn last_clicked_variant_gives_the_mode(
    variants: Seq<ExclusiveVariant>,
    clicks: Seq<bool>,
    mode: Seq<char>,
    n: nat,
    i: int,
)
    requires
        0 <= i < n <= clicks.len(),
        clicks[i],
        forall|j: int| i < j < n ==> !#[trigger] clicks[j],
    ensures
        mode_after(variants, clicks, mode, n) == variants[i].value@,
    decreases n,
{
    if i < n - 1 {
        assert(!clicks[n - 1]);
        last_clicked_variant_gives_the_mode(variants, clicks, mode, (n - 1) as nat, i);
    }
}

/// The mode of a field is the stored one where there is one, and its default otherwise.
pub proof fn stored_mode_goes_before_the_default(config: ExclusiveConfig, mode: Seq<char>)
    ensures
        mode_of(config, Some(mode)) == mode,
        mode_of(config, None) == config.mode_default@,
{
}

/// The first variant with the value of the mode is edited, and none where there is none.
pub proof fn first_variant_of_the_mode_is_edited(
    variants: Seq<ExclusiveVariant>,
    mode: Seq<char>,
    i: int,
)
    ensures
        0 <= i < variants.len() && variants[i].value@ == mode && (forall|j: int|
            0 <= j < i ==> (#[trigger] variants[j]).value@ != mode) ==> variant_from(
            variants,
            mode,
            0,
        ) == Some(variants[i]),
        (forall|j: int| 0 <= j < variants.len() ==> (#[trigger] variants[j]).value@ != mode)
            ==> variant_from(variants, mode, 0) is None,
{
    if 0 <= i < variants.len() && variants[i].value@ == mode && (forall|j: int|
        0 <= j < i ==> (#[trigger] variants[j]).value@ != mode) {
        lemma_variant_found(variants, mode, 0, i);
    }
    if forall|j: int| 0 <= j < variants.len() ==> (#[trigger] variants[j]).value@ != mode {
        lemma_no_variant(variants, mode, 0);
    }
}

proof fn lemma_variant_found(
    variants: Seq<ExclusiveVariant>,
    mode: Seq<char>,
    from: int,
    i: int,
)
    requires
        0 <= from <= i < variants.len(),
        variants[i].value@ == mode,
        forall|j: int| from <= j < i ==> (#[trigger] variants[j]).value@ != mode,
    ensures
        variant_from(variants, mode, from) == Some(variants[i]),
    decreases i - from,
{
    if from < i {
        assert(variants[from].value@ != mode);
        lemma_variant_found(variants, mode, from + 1, i);
    }
}

proof fn lemma_no_variant(variants: Seq<ExclusiveVariant>, mode: Seq<char>, from: int)
    requires
        0 <= from <= variants.len(),
        forall|j: int| from <= j < variants.len() ==> (#[trigger] variants[j]).value@ != mode,
    ensures
        variant_from(variants, mode, from) is None,
    decreases variants.len() - from,
{
    if from < variants.len() {
        assert(variants[from].value@ != mode);
        lemma_no_variant(variants, mode, from + 1);
    }
}

/// A change of mode removes the value of every variant of the old mode, stores the new
/// mode once, at the end, and does nothing else; no change asks for no edit.
pub proof fn mode_change_removes_every_old_value(
    config: ExclusiveConfig,
    key_path: Seq<char>,
    old_mode: Seq<char>,
    new_mode: Seq<char>,
    i: int,
)
    ensures
        mode_edits(config, key_path, old_mode, old_mode).len() == 0,
        old_mode != new_mode ==> mode_edits(config, key_path, old_mode, new_mode).len() > 0
            && mode_edits(config, key_path, old_mode, new_mode).last() == (EditView::SetStr {
            path: child_path(parent_of(key_path), config.mode_key@),
            value: new_mode,
        }),
        old_mode != new_mode && 0 <= i < config.variants@.len() && config.variants@[i].value@
            == old_mode ==> mode_edits(config, key_path, old_mode, new_mode).contains(
            EditView::Remove {
                path: child_path(parent_of(key_path), config.variants@[i].field_key@),
            },
        ),
{
    if old_mode != new_mode && 0 <= i < config.variants@.len() && config.variants@[i].value@
        == old_mode {
        let part = variant_removal(config.variants@, key_path, old_mode);
        let e = EditView::Remove {
            path: child_path(parent_of(key_path), config.variants@[i].field_key@),
        };
        assert(part(i)[0] == e);
        assert(part(i).contains(e));
        gather_holds_what_its_parts_hold(config.variants@.len(), part, e);
        lemma_either_holds(
            gather(config.variants@.len(), part),
            seq![EditView::SetStr { path: mode_path_of(config, key_path), value: new_mode }],
            e,
        );
    }
}

/// The mode and the values of the variants are kept in the table that holds the field,
/// each under its own key.
pub proof fn modes_and_values_stand_beside_the_field(
    config: ExclusiveConfig,
    variant: ExclusiveVariant,
    parent: Seq<char>,
    key: Seq<char>,
)
    requires
        !key.contains('.'),
    ensures
        mode_path_of(config, child_path(parent, key)) == child_path(parent, config.mode_key@),
        variant_path_of(variant, child_path(parent, key)) == child_path(
            parent,
            variant.field_key@,
        ),
{
    parent_of_child(parent, key);
}

/// A field's own hint is shown whatever its mode. Without one, an exclusive field shows
/// the hint of its mode, and other fields and other modes show none.
pub proof fn hints_follow_the_mode(
    field: Field,
    stored_mode: Option<Seq<char>>,
    code: Seq<char>,
)
    ensures
        field.hint matches Some(hint) ==> field.hint_text(stored_mode, code) == Some(
            hint@.text_for(code),
        ),
        field.hint is None && (field.widget != WidgetKind::ExclusiveRadio || field.exclusive is None)
            ==> field.hint_text(stored_mode, code) is None,
        field.hint is None && field.widget == WidgetKind::ExclusiveRadio && field.exclusive is Some
            ==> ({
            let mode = match stored_mode {
                Some(mode) => mode,
                None => field.exclusive->0.mode_default@,
            };
            &&& mode == "direct"@ && field.hint_direct is Some ==> field.hint_text(
                stored_mode,
                code,
            ) == Some(field.hint_direct->0@.text_for(code))
            &&& mode == "direct"@ && field.hint_direct is None ==> field.hint_text(
                stored_mode,
                code,
            ) is None
            &&& mode == "env"@ && field.hint_env is Some ==> field.hint_text(stored_mode, code)
                == Some(field.hint_env->0@.text_for(code))
            &&& mode == "env"@ && field.hint_env is None ==> field.hint_text(
                stored_mode,
                code,
            ) is None
            &&& mode != "direct"@ && mode != "env"@ ==> field.hint_text(stored_mode, code) is None
        }),
{
    reveal_strlit("direct");
    reveal_strlit("env");
    assert("direct"@.len() != "env"@.len());
}

} // verus!
