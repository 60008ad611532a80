//! Languages: localized strings, the active UI language and the language mode.

use crate::text::{code_point, opt_text, to_chars};
use vstd::prelude::*;
use vstd::string::*;

verus! {

/// Whether `a` comes strictly before `b` in the order of their code points,
/// character by character (the order of strings in std).
pub open spec fn text_less(a: Seq<char>, b: Seq<char>) -> bool
    decreases a.len(),
{
    if b.len() == 0 {
        false
    } else if a.len() == 0 {
        true
    } else if a[0] == b[0] {
        text_less(a.drop_first(), b.drop_first())
    } else {
        (a[0] as int) < (b[0] as int)
    }
}

proof fn lemma_text_less_irreflexive(a: Seq<char>)
    ensures
        !text_less(a, a),
    decreases a.len(),
{
    if a.len() > 0 {
        lemma_text_less_irreflexive(a.drop_first());
    }
}

proof fn lemma_text_less_total(a: Seq<char>, b: Seq<char>)
    ensures
        a == b || text_less(a, b) || text_less(b, a),
    decreases a.len(),
{
    if a.len() > 0 && b.len() > 0 && a[0] == b[0] {
        lemma_text_less_total(a.drop_first(), b.drop_first());
        if a.drop_first() == b.drop_first() {
            assert(a =~= seq![a[0]] + a.drop_first());
            assert(b =~= seq![b[0]] + b.drop_first());
        }
    } else if a.len() == 0 && b.len() == 0 {
        assert(a =~= b);
    }
}

proof fn lemma_text_less_transitive(a: Seq<char>, b: Seq<char>, c: Seq<char>)
    requires
        text_less(a, b),
        text_less(b, c),
    ensures
        text_less(a, c),
    decreases a.len(),
{
    if a.len() > 0 && a[0] == b[0] && b[0] == c[0] {
        lemma_text_less_transitive(a.drop_first(), b.drop_first(), c.drop_first());
    }
}

/// Whether `a` comes strictly before `b`.
fn precedes(a: &str, b: &str) -> (r: bool)
    ensures
        r == text_less(a@, b@),
{
    let x = to_chars(a);
    let y = to_chars(b);
    let mut i: usize = 0;
    assert(a@.skip(0) =~= a@);
    assert(b@.skip(0) =~= b@);
    while i < x.len() && i < y.len()
        invariant
            x@ == a@,
            y@ == b@,
            i <= x.len(),
            i <= y.len(),
            text_less(a@, b@) == text_less(a@.skip(i as int), b@.skip(i as int)),
        decreases x.len() - i,
    {
        let c: char = x[i];
        let d: char = y[i];
        if c != d {
            return code_point(c) < code_point(d);
        }
        assert(a@.skip(i as int).drop_first() =~= a@.skip(i + 1));
        assert(b@.skip(i as int).drop_first() =~= b@.skip(i + 1));
        i += 1;
    }
    i < y.len()
}

/// The map that a list of key/value entries describes; of two entries with the
/// same key the later one counts.
pub open spec fn entries_map(e: Seq<(String, String)>) -> Map<Seq<char>, Seq<char>>
    decreases e.len(),
{
    if e.len() == 0 {
        Map::empty()
    } else {
        entries_map(e.drop_last()).insert(e.last().0@, e.last().1@)
    }
}

/// Whether `k` is the first key of `m` in the order of strings.
pub open spec fn is_least_key(m: Map<Seq<char>, Seq<char>>, k: Seq<char>) -> bool {
    &&& m.contains_key(k)
    &&& forall|j: Seq<char>| #[trigger] m.contains_key(j) ==> k == j || text_less(k, j)
}

/// The text that stands in for a language without an entry of its own: the
/// English entry, else the entry with the first key, else the empty text.
pub open spec fn fallback_of(m: Map<Seq<char>, Seq<char>>) -> Seq<char> {
    if m.contains_key("en"@) {
        m["en"@]
    } else if exists|k: Seq<char>| m.contains_key(k) {
        m[choose|k: Seq<char>| is_least_key(m, k)]
    } else {
        Seq::empty()
    }
}

spec fn sorted(e: Seq<(String, String)>) -> bool {
    forall|i: int, j: int| 0 <= i < j < e.len() ==> text_less(#[trigger] e[i].0@, #[trigger] e[j].0@)
}

proof fn lemma_entries_domain(e: Seq<(String, String)>, k: Seq<char>)
    ensures
        entries_map(e).contains_key(k) <==> exists|i: int| 0 <= i < e.len() && #[trigger] e[i].0@ == k,
    decreases e.len(),
{
    if e.len() > 0 {
        lemma_entries_domain(e.drop_last(), k);
        if entries_map(e).contains_key(k) && e.last().0@ != k {
            let i = choose|i: int| 0 <= i < e.drop_last().len() && #[trigger] e.drop_last()[i].0@ == k;
            assert(e[i].0@ == k);
        }
        if exists|i: int| 0 <= i < e.len() && #[trigger] e[i].0@ == k {
            let i = choose|i: int| 0 <= i < e.len() && #[trigger] e[i].0@ == k;
            if i < e.len() - 1 {
                assert(e.drop_last()[i].0@ == k);
            }
        }
    }
}

proof fn lemma_entries_value(e: Seq<(String, String)>, i: int)
    requires
        sorted(e),
        0 <= i < e.len(),
    ensures
        entries_map(e).contains_key(e[i].0@),
        entries_map(e)[e[i].0@] == e[i].1@,
    decreases e.len(),
{
    if i < e.len() - 1 {
        assert(e.drop_last()[i] == e[i]);
        lemma_entries_value(e.drop_last(), i);
        lemma_text_less_irreflexive(e[i].0@);
        assert(text_less(e[i].0@, e[e.len() - 1].0@));
    }
}

/// Enters a value under a key, replacing the value that was there.
fn put_entry(e: &mut Vec<(String, String)>, key: String, value: String)
    requires
        sorted(old(e)@),
    ensures
        sorted(final(e)@),
        entries_map(final(e)@) == entries_map(old(e)@).insert(key@, value@),
{
    let ghost before = e@;
    let ghost k = key@;
    let ghost v = value@;
    let mut i: usize = 0;
    while i < e.len() && precedes(e[i].0.as_str(), key.as_str())
        invariant
            e@ == before,
            k == key@,
            i <= e.len(),
            forall|j: int| 0 <= j < i ==> text_less(#[trigger] e@[j].0@, k),
        decreases e.len() - i,
    {
        i += 1;
    }
    let same = i < e.len() && *e[i].0.as_str() == *key.as_str();
    if same {
        e.remove(i);
        proof {
            assert forall|j: int| i <= j < e@.len() implies text_less(k, #[trigger] e@[j].0@) by {
                assert(e@[j] == before[j + 1]);
                assert(text_less(before[i as int].0@, before[j + 1].0@));
            }
            assert forall|a: int, b: int| 0 <= a < b < e@.len() implies text_less(
                #[trigger] e@[a].0@,
                #[trigger] e@[b].0@,
            ) by {
                let a0 = if a < i { a } else { a + 1 };
                let b0 = if b < i { b } else { b + 1 };
                assert(e@[a] == before[a0] && e@[b] == before[b0]);
                assert(text_less(before[a0].0@, before[b0].0@));
            }
        }
    } else {
        proof {
            assert forall|j: int| i <= j < e@.len() implies text_less(k, #[trigger] e@[j].0@) by {
                lemma_text_less_total(before[i as int].0@, k);
                if j > i {
                    assert(text_less(before[i as int].0@, before[j].0@));
                    lemma_text_less_transitive(k, before[i as int].0@, before[j].0@);
                }
            }
        }
    }
    let ghost rest = e@;
    e.insert(i, (key, value));
    proof {
        assert forall|a: int, b: int| 0 <= a < b < e@.len() implies text_less(
            #[trigger] e@[a].0@,
            #[trigger] e@[b].0@,
        ) by {
            if a < i && b > i {
                assert(e@[a] == rest[a] && e@[b] == rest[b - 1]);
                assert(text_less(rest[a].0@, rest[b - 1].0@));
            } else if b < i {
                assert(e@[a] == rest[a] && e@[b] == rest[b]);
            } else if a > i {
                assert(e@[a] == rest[a - 1] && e@[b] == rest[b - 1]);
            } else if b == i {
                assert(e@[a] == rest[a]);
            } else {
                assert(e@[b] == rest[b - 1]);
            }
        }
        let m = entries_map(e@);
        let want = entries_map(before).insert(k, v);
        assert(e@[i as int].0@ == k);
        lemma_entries_value(e@, i as int);
        assert forall|x: Seq<char>| #[trigger] m.contains_key(x) == want.contains_key(x) by {
            lemma_entries_domain(e@, x);
            lemma_entries_domain(before, x);
            if m.contains_key(x) && x != k {
                let j = choose|j: int| 0 <= j < e@.len() && #[trigger] e@[j].0@ == x;
                let j1 = if j < i { j } else { j - 1 };
                let j0 = if j < i || !same { j1 } else { j1 + 1 };
                assert(e@[j] == rest[j1]);
                assert(rest[j1] == before[j0]);
                assert(before[j0].0@ == x);
            }
            if entries_map(before).contains_key(x) && x != k {
                let j0 = choose|j: int| 0 <= j < before.len() && #[trigger] before[j].0@ == x;
                let j1 = if j0 < i || !same { j0 } else { j0 - 1 };
                let j = if j1 < i { j1 } else { j1 + 1 };
                assert(rest[j1] == before[j0]);
                assert(e@[j] == rest[j1]);
                assert(e@[j].0@ == x);
            }
        }
        assert forall|x: Seq<char>| #[trigger] m.contains_key(x) implies m[x] == want[x] by {
            if x != k {
                lemma_entries_domain(e@, x);
                let j = choose|j: int| 0 <= j < e@.len() && #[trigger] e@[j].0@ == x;
                let j1 = if j < i { j } else { j - 1 };
                let j0 = if j < i || !same { j1 } else { j1 + 1 };
                assert(e@[j] == rest[j1]);
                assert(rest[j1] == before[j0]);
                lemma_entries_value(e@, j);
                lemma_entries_value(before, j0);
            }
        }
        assert(m =~= want);
    }
}

/// Where the entry with the given key stands.
fn find_entry(e: &Vec<(String, String)>, key: &str) -> (r: Option<usize>)
    requires
        sorted(e@),
    ensures
        match r {
            Some(i) => i < e.len() && entries_map(e@).contains_key(key@) && entries_map(e@)[key@]
                == e@[i as int].1@,
            None => !entries_map(e@).contains_key(key@),
        },
{
    let mut i: usize = 0;
    while i < e.len()
        invariant
            i <= e.len(),
            sorted(e@),
            forall|j: int| 0 <= j < i ==> (#[trigger] e@[j]).0@ != key@,
        decreases e.len() - i,
    {
        if *e[i].0.as_str() == *key {
            proof {
                lemma_entries_value(e@, i as int);
            }
            return Some(i);
        }
        i += 1;
    }
    proof {
        lemma_entries_domain(e@, key@);
    }
    None
}

/// What a localized string says, language by language.
#[verifier::ext_equal]
pub struct LocalizedView {
    /// Text for a language without an entry.
    pub fallback: Seq<char>,
    /// Texts by language code.
    pub variants: Map<Seq<char>, Seq<char>>,
}

impl LocalizedView {
    /// The text for one language.
    pub open spec fn text_for(self, code: Seq<char>) -> Seq<char> {
        if self.variants.contains_key(code) {
            self.variants[code]
        } else {
            self.fallback
        }
    }

    /// A text that is the same in every language.
    pub open spec fn plain(s: Seq<char>) -> LocalizedView {
        LocalizedView { fallback: s, variants: Map::empty() }
    }

    /// A text that is written down per language.
    pub open spec fn table(m: Map<Seq<char>, Seq<char>>) -> LocalizedView {
        LocalizedView { fallback: fallback_of(m), variants: m }
    }
}

/// A user-facing string in the schema that may be authored either as a single
/// bare value (used regardless of language) or as a per-language table, e.g.
///
/// ```toml
/// label = "Name"                       # language-agnostic
/// label = { en = "Name", de = "Name" } # localized
/// ```
#[derive(Debug, PartialEq, Eq)]
pub struct LocalizedString {
    /// Value returned when the active language has no dedicated entry.
    fallback: String,
    /// Per-language variants, in strictly ascending order of language code.
    variants: Vec<(String, String)>,
}

impl View for LocalizedString {
    type V = LocalizedView;

    closed spec fn view(&self) -> LocalizedView {
        LocalizedView { fallback: self.fallback@, variants: entries_map(self.variants@) }
    }
}

impl LocalizedString {
    #[verifier::type_invariant]
    spec fn codes_ascend(self) -> bool {
        sorted(self.variants@)
    }

    /// A string that reads the same in every language.
    pub fn from_plain(text: String) -> (r: LocalizedString)
        ensures
            r@ == LocalizedView::plain(text@),
    {
        LocalizedString { fallback: text, variants: Vec::new() }
    }

    /// A string given per language code. The English entry, else the one with
    /// the first code, serves the languages without an entry.
    pub fn from_variants(entries: Vec<(String, String)>) -> (r: LocalizedString)
        ensures
            r@ == LocalizedView::table(entries_map(entries@)),
    {
        let mut variants: Vec<(String, String)> = Vec::new();
        let mut i: usize = 0;
        while i < entries.len()
            invariant
                i <= entries.len(),
                sorted(variants@),
                entries_map(variants@) == entries_map(entries@.take(i as int)),
            decreases entries.len() - i,
        {
            put_entry(&mut variants, entries[i].0.clone(), entries[i].1.clone());
            assert(entries@.take(i + 1).drop_last() =~= entries@.take(i as int));
            i += 1;
        }
        assert(entries@.take(entries@.len() as int) =~= entries@);
        let ghost m = entries_map(entries@);
        let mut fallback = String::new();
        if variants.len() > 0 {
            fallback = variants[0].1.clone();
            proof {
                lemma_entries_value(variants@, 0);
                let first = variants@[0].0@;
                assert(is_least_key(m, first)) by {
                    assert forall|k: Seq<char>| #[trigger] m.contains_key(k) implies first == k
                        || text_less(first, k) by {
                        lemma_entries_domain(variants@, k);
                        let j = choose|j: int| 0 <= j < variants@.len() && #[trigger] variants@[j].0@ == k;
                        if j > 0 {
                            assert(text_less(variants@[0].0@, variants@[j].0@));
                        }
                    }
                }
                let least = choose|k: Seq<char>| is_least_key(m, k);
                assert(is_least_key(m, least));
                if least != first {
                    lemma_text_less_transitive(first, least, first);
                    lemma_text_less_irreflexive(first);
                }
            }
        } else {
            assert forall|k: Seq<char>| !m.contains_key(k) by {
                lemma_entries_domain(variants@, k);
            }
        }
        if let Some(j) = find_entry(&variants, "en") {
            fallback = variants[j].1.clone();
        }
        LocalizedString { fallback, variants }
    }

    /// Returns the variant for the active UI language, falling back to the
    /// language-agnostic value (or the `en` entry) when no exact match exists.
    pub fn get(&self, lang: &ActiveLang) -> (r: &str)
        ensures
            r@ == self@.text_for(lang.active_code()),
    {
        proof {
            use_type_invariant(self);
        }
        match find_entry(&self.variants, lang.code()) {
            Some(i) => self.variants[i].1.as_str(),
            None => self.fallback.as_str(),
        }
    }
}

impl Default for LocalizedString {
    /// The empty text.
    fn default() -> (r: LocalizedString)
        ensures
            r@ == LocalizedView::plain(Seq::empty()),
    {
        LocalizedString { fallback: String::new(), variants: Vec::new() }
    }
}

impl Clone for LocalizedString {
    fn clone(&self) -> (r: LocalizedString)
        ensures
            r@ == self@,
    {
        proof {
            use_type_invariant(self);
        }
        let mut variants: Vec<(String, String)> = Vec::new();
        let mut i: usize = 0;
        while i < self.variants.len()
            invariant
                i <= self.variants.len(),
                variants@ == self.variants@.take(i as int),
            decreases self.variants.len() - i,
        {
            variants.push((self.variants[i].0.clone(), self.variants[i].1.clone()));
            assert(self.variants@.take(i + 1) =~= self.variants@.take(i as int).push(
                self.variants@[i as int],
            ));
            i += 1;
        }
        assert(self.variants@.take(self.variants@.len() as int) =~= self.variants@);
        LocalizedString { fallback: self.fallback.clone(), variants }
    }
}

/// The language code in which localized strings are read. It is set at most
/// once; until then it is `"en"`.
#[derive(Debug)]
pub struct ActiveLang {
    code: Option<String>,
}

impl View for ActiveLang {
    type V = Option<Seq<char>>;

    closed spec fn view(&self) -> Option<Seq<char>> {
        opt_text(self.code)
    }
}

impl ActiveLang {
    /// The code of the active language: the chosen one, or `"en"`.
    pub open spec fn active_code(&self) -> Seq<char> {
        match self@ {
            Some(code) => code,
            None => "en"@,
        }
    }

    /// No language chosen yet.
    pub fn new() -> (r: ActiveLang)
        ensures
            r@ is None,
    {
        ActiveLang { code: None }
    }

    /// The code of the active language.
    pub fn code(&self) -> (r: &str)
        ensures
            r@ == self.active_code(),
    {
        match &self.code {
            Some(code) => code.as_str(),
            None => "en",
        }
    }
}

/// Sets the language code used by [`LocalizedString::get`]. Only the first
/// choice counts; later ones are ignored.
pub fn set_active_lang_code(lang: &mut ActiveLang, code: String)
    ensures
        final(lang)@ == match old(lang)@ {
            Some(chosen) => Some(chosen),
            None => Some(code@),
        },
{
    if lang.code.is_none() {
        lang.code = Some(code);
    }
}

/// Which language the built-in UI chrome should use.
///
/// `"os"` (default) follows the OS locale. Any BCP-47 base language code
/// (e.g. `"en"`, `"ja"`, `"de"`) selects that language explicitly.
#[derive(Debug, PartialEq, Eq, Clone)]
pub enum LangMode {
    /// Follow the operating system locale (default).
    Os,
    /// Use the specified BCP-47 language code (e.g. `"en"`, `"ja"`, `"de"`).
    Fixed(String),
}

/// Whether a text is `os`, in any mix of upper and lower case.
pub open spec fn names_os(s: Seq<char>) -> bool {
    s.len() == 2 && (s[0] == 'o' || s[0] == 'O') && (s[1] == 's' || s[1] == 'S')
}

impl LangMode {
    /// The mode that a schema's `lang` value stands for.
    pub fn from_code(code: String) -> (r: LangMode)
        ensures
            r == (if names_os(code@) {
                LangMode::Os
            } else {
                LangMode::Fixed(code)
            }),
    {
        let c = to_chars(code.as_str());
        if c.len() == 2 && (c[0] == 'o' || c[0] == 'O') && (c[1] == 's' || c[1] == 'S') {
            LangMode::Os
        } else {
            LangMode::Fixed(code)
        }
    }
}

impl Default for LangMode {
    fn default() -> (r: LangMode)
        ensures
            r == LangMode::Os,
    {
        LangMode::Os
    }
}

/// A bare value is used regardless of language.
pub proof fn plain_text_in_every_language(s: Seq<char>, code: Seq<char>)
    ensures
        LocalizedView::plain(s).text_for(code) == s,
{
}

/// A table answers with its own entry where it has one for the language, and
/// with its English entry where it has none but speaks English.
pub proof fn table_prefers_own_entry_then_english(m: Map<Seq<char>, Seq<char>>, code: Seq<char>)
    ensures
        m.contains_key(code) ==> LocalizedView::table(m).text_for(code) == m[code],
        !m.contains_key(code) && m.contains_key("en"@) ==> LocalizedView::table(m).text_for(code)
            == m["en"@],
{
}

/// A table with any entry at all never answers with a text it does not hold.
pub proof fn table_answers_from_its_entries(entries: Seq<(String, String)>, code: Seq<char>)
    requires
        entries.len() > 0,
    ensures
        exists|k: Seq<char>|
            #![trigger entries_map(entries).contains_key(k)]
            entries_map(entries).contains_key(k) && LocalizedView::table(
                entries_map(entries),
            ).text_for(code) == entries_map(entries)[k],
    decreases entries.len(),
{
    let m = entries_map(entries);
    if m.contains_key(code) {
    } else if m.contains_key("en"@) {
    } else {
        assert(m.contains_key(entries.last().0@));
        lemma_has_least_key(entries);
        let least = choose|k: Seq<char>| is_least_key(m, k);
        assert(is_least_key(m, least));
        assert(m.contains_key(least));
    }
}

proof fn lemma_has_least_key(e: Seq<(String, String)>)
    requires
        e.len() > 0,
    ensures
        exists|k: Seq<char>| is_least_key(entries_map(e), k),
    decreases e.len(),
{
    let m = entries_map(e);
    let last = e.last().0@;
    let rest = entries_map(e.drop_last());
    if e.len() == 1 {
        assert(is_least_key(m, last));
    } else {
        lemma_has_least_key(e.drop_last());
        let k = choose|k: Seq<char>| is_least_key(rest, k);
        lemma_text_less_total(k, last);
        if text_less(last, k) {
            assert forall|j: Seq<char>| #[trigger] m.contains_key(j) implies last == j || text_less(
                last,
                j,
            ) by {
                if j != last && j != k {
                    assert(rest.contains_key(j));
                    lemma_text_less_transitive(last, k, j);
                }
            }
            assert(is_least_key(m, last));
        } else {
            assert forall|j: Seq<char>| #[trigger] m.contains_key(j) implies k == j || text_less(k, j) by {
                if j != last {
                    assert(rest.contains_key(j));
                }
            }
            assert(is_least_key(m, k));
        }
    }
}

/// Texts are ordered by the first character in which they differ, and a text that begins
/// another comes before it.
pub proof fn texts_are_ordered_by_their_first_difference(a: Seq<char>, b: Seq<char>, i: int)
    requires
        0 <= i <= a.len(),
        i <= b.len(),
        forall|j: int| 0 <= j < i ==> #[trigger] a[j] == b[j],
    ensures
        i < a.len() && i < b.len() && a[i] != b[i] ==> (text_less(a, b) <==> (a[i] as int) < (
        b[i] as int)),
        i == a.len() && i < b.len() ==> text_less(a, b),
        i == b.len() ==> !text_less(a, b),
    decreases i,
{
    if i > 0 {
        assert(a[0] == b[0]);
        let x = a.drop_first();
        let y = b.drop_first();
        assert forall|j: int| 0 <= j < i - 1 implies #[trigger] x[j] == y[j] by {
            assert(a[j + 1] == b[j + 1]);
        }
        texts_are_ordered_by_their_first_difference(x, y, i - 1);
    }
}

/// A table given as a list holds the last entry of each code, and no other codes.
pub proof fn last_entry_of_a_code_counts(entries: Seq<(String, String)>, i: int, code: Seq<char>)
    ensures
        0 <= i < entries.len() && entries[i].0@ == code && (forall|j: int|
            i < j < entries.len() ==> (#[trigger] entries[j]).0@ != code) ==> entries_map(
            entries,
        ).contains_key(code) && entries_map(entries)[code] == entries[i].1@,
        (forall|j: int| 0 <= j < entries.len() ==> (#[trigger] entries[j]).0@ != code)
            ==> !entries_map(entries).contains_key(code),
    decreases entries.len(),
{
    if entries.len() > 0 {
        let rest = entries.drop_last();
        let n = entries.len() - 1;
        assert(forall|j: int| 0 <= j < n ==> rest[j] == entries[j]);
        last_entry_of_a_code_counts(rest, i, code);
        if forall|j: int| 0 <= j < entries.len() ==> (#[trigger] entries[j]).0@ != code {
            assert(entries[n].0@ != code);
            assert forall|j: int| 0 <= j < rest.len() implies (#[trigger] rest[j]).0@ != code by {
                assert(entries[j].0@ != code);
            }
        }
        if 0 <= i < entries.len() && entries[i].0@ == code && (forall|j: int|
            i < j < entries.len() ==> (#[trigger] entries[j]).0@ != code) && i < n {
            assert(entries[n].0@ != code);
            assert forall|j: int| i < j < rest.len() implies (#[trigger] rest[j]).0@ != code by {
                assert(entries[j].0@ != code);
            }
        }
    }
}

/// A table without English answers, in a language that it has no entry for, with the entry
/// of its first code.
pub proof fn first_code_stands_in_without_english(
    m: Map<Seq<char>, Seq<char>>,
    first: Seq<char>,
    code: Seq<char>,
)
    requires
        !m.contains_key("en"@),
        !m.contains_key(code),
        m.contains_key(first),
        forall|k: Seq<char>| #[trigger] m.contains_key(k) && k != first ==> text_less(first, k),
    ensures
        LocalizedView::table(m).text_for(code) == m[first],
{
    assert(is_least_key(m, first));
    let least = choose|k: Seq<char>| is_least_key(m, k);
    assert(is_least_key(m, least));
    if least != first {
        assert(text_less(first, least));
        assert(text_less(least, first));
        lemma_text_less_transitive(first, least, first);
        lemma_text_less_irreflexive(first);
    }
}

/// A table without entries says nothing in any language.
pub proof fn empty_table_says_nothing(code: Seq<char>)
    ensures
        LocalizedView::table(Map::empty()).text_for(code).len() == 0,
{
}

/// A text names the operating system's language exactly when it is `os` in any case.
pub proof fn os_is_named_in_any_case(s: Seq<char>)
    ensures
        names_os(s) <==> s == seq!['o', 's'] || s == seq!['o', 'S'] || s == seq!['O', 's'] || s
            == seq!['O', 'S'],
{
    if s.len() == 2 {
        assert(s =~= seq![s[0], s[1]]);
    }
}

/// Until a language is chosen, English is active.
pub proof fn english_is_active_until_another_is_chosen(lang: ActiveLang)
    ensures
        lang@ is None ==> lang.active_code() == "en"@,
        lang@ matches Some(code) ==> lang.active_code() == code,
{
}

} // verus!
