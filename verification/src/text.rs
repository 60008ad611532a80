//! Building blocks for the texts that the library reads and produces.

use vstd::prelude::*;
use vstd::string::*;

verus! {

/// `<str as PartialEq>::eq`: two string slices are equal exactly when they hold
/// the same characters in the same order.
pub assume_specification[ <str as PartialEq>::eq ](a: &str, b: &str) -> (res: bool)
    ensures
        res == (a@ == b@),
;

/// `String::push`: the character is appended at the end, nothing else changes.
pub assume_specification[ std::string::String::push ](s: &mut std::string::String, c: char)
    ensures
        final(s)@ == old(s)@.push(c),
;

/// The characters with the Unicode property White_Space.
pub open spec fn is_white_space(c: char) -> bool {
    let n = c as int;
    ||| 0x9 <= n <= 0xd
    ||| n == 0x20
    ||| n == 0x85
    ||| n == 0xa0
    ||| n == 0x1680
    ||| 0x2000 <= n <= 0x200a
    ||| n == 0x2028
    ||| n == 0x2029
    ||| n == 0x202f
    ||| n == 0x205f
    ||| n == 0x3000
}

/// A text without the white space at its start.
pub open spec fn trimmed_start(s: Seq<char>) -> Seq<char>
    decreases s.len(),
{
    if s.len() > 0 && is_white_space(s[0]) {
        trimmed_start(s.drop_first())
    } else {
        s
    }
}

/// A text without the white space at its end.
pub open spec fn trimmed_end(s: Seq<char>) -> Seq<char>
    decreases s.len(),
{
    if s.len() > 0 && is_white_space(s.last()) {
        trimmed_end(s.drop_last())
    } else {
        s
    }
}

/// `str::trim`: the text without the white space at both ends, where white
/// space is the Unicode property White_Space.
pub assume_specification[ str::trim ](s: &str) -> (r: &str)
    ensures
        r@ == trimmed_end(trimmed_start(s@)),
;

/// The text that `{:?}` prints for a string: the string in double quotes, with
/// the escapes that std's `Debug` for `str` uses.
pub uninterp spec fn debug_text(s: Seq<char>) -> Seq<char>;

/// `<str as Debug>::fmt`, run through `format!`. The result is named by
/// [`debug_text`]: it depends on the characters of `s` alone.
#[verifier::external_body]
pub(crate) fn debug_string(s: &str) -> (r: String)
    ensures
        r@ == debug_text(s@),
{
    format!("{:?}", s)
}

/// The decimal digit with value `d`.
pub open spec fn digit_char(d: nat) -> char {
    (48 + d) as char
}

/// The decimal numeral of `n`, without leading zeros.
pub open spec fn decimal(n: nat) -> Seq<char>
    decreases n,
{
    if n < 10 {
        seq![digit_char(n)]
    } else {
        decimal(n / 10).push(digit_char(n % 10))
    }
}

/// A numeral is made of digits.
proof fn lemma_decimal_digits(n: nat)
    ensures
        decimal(n).len() > 0,
        forall|i: int| 0 <= i < decimal(n).len() ==> '0' <= #[trigger] decimal(n)[i] <= '9',
    decreases n,
{
    if n >= 10 {
        lemma_decimal_digits(n / 10);
    }
}

/// Different numbers have different numerals.
proof fn lemma_decimal_injective(a: nat, b: nat)
    requires
        decimal(a) == decimal(b),
    ensures
        a == b,
    decreases a,
{
    lemma_decimal_digits(a / 10);
    lemma_decimal_digits(b / 10);
    assert(decimal(a).last() == digit_char(a % 10));
    assert(decimal(b).last() == digit_char(b % 10));
    assert(a % 10 == b % 10);
    if a >= 10 && b >= 10 {
        assert(decimal(a / 10) =~= decimal(a).drop_last());
        assert(decimal(b / 10) =~= decimal(b).drop_last());
        lemma_decimal_injective(a / 10, b / 10);
    }
}

/// The numerals of different numbers, each with a bracket behind it, differ somewhere:
/// neither begins the other.
pub proof fn lemma_numerals_differ(a: nat, b: nat) -> (i: int)
    requires
        a != b,
    ensures
        0 <= i < decimal(a).len() + 1,
        i < decimal(b).len() + 1,
        decimal(a).push(']')[i] != decimal(b).push(']')[i],
{
    lemma_decimal_digits(a);
    lemma_decimal_digits(b);
    let x = decimal(a).push(']');
    let y = decimal(b).push(']');
    if forall|i: int| 0 <= i < x.len() && i < y.len() ==> x[i] == y[i] {
        if x.len() < y.len() {
            assert(x[x.len() - 1] == y[x.len() - 1]);
            assert(y[x.len() - 1] == decimal(b)[x.len() - 1]);
        } else if y.len() < x.len() {
            assert(x[y.len() - 1] == y[y.len() - 1]);
            assert(x[y.len() - 1] == decimal(a)[y.len() - 1]);
        } else {
            assert forall|i: int| 0 <= i < decimal(a).len() implies decimal(a)[i] == decimal(
                b,
            )[i] by {
                assert(x[i] == y[i]);
            }
            assert(decimal(a) =~= decimal(b));
            lemma_decimal_injective(a, b);
        }
    }
    choose|i: int| 0 <= i < x.len() && i < y.len() && x[i] != y[i]
}

/// Appends the decimal numeral of `n`.
pub fn push_decimal(out: &mut String, n: u64)
    ensures
        final(out)@ == old(out)@ + decimal(n as nat),
    decreases n,
{
    if n >= 10 {
        push_decimal(out, n / 10);
    }
    let d: u8 = (n % 10) as u8;
    out.push((48u8 + d) as char);
    assert(out@ =~= old(out)@ + decimal(n as nat));
}

/// Appends `s` as `{:?}` prints it.
pub fn push_debug(out: &mut String, s: &str)
    ensures
        final(out)@ == old(out)@ + debug_text(s@),
{
    out.append(debug_string(s).as_str());
}

/// The text of an optional string.
pub open spec fn opt_text(s: Option<String>) -> Option<Seq<char>> {
    match s {
        Some(s) => Some(s@),
        None => None,
    }
}

/// The texts of a sequence of strings, in order.
pub open spec fn texts(s: Seq<String>) -> Seq<Seq<char>> {
    s.map_values(|x: String| x@)
}

/// Appending a string appends its text.
pub(crate) proof fn lemma_texts_push(s: Seq<String>, x: String)
    ensures
        texts(s.push(x)) == texts(s).push(x@),
{
    assert(texts(s.push(x)) =~= texts(s).push(x@));
}

/// The code point of a character.
pub fn code_point(c: char) -> (r: u32)
    ensures
        r as int == c as int,
{
    c as u32
}

/// The characters of `s`, in order.
pub fn to_chars(s: &str) -> (r: Vec<char>)
    ensures
        r@ == s@,
{
    let mut r: Vec<char> = Vec::new();
    for c in it: s.chars()
        invariant
            it.seq() == s@,
            r@ == s@.take(it.index()),
    {
        r.push(c);
        assert(s@.take(it.index() + 1) =~= s@.take(it.index()).push(c));
    }
    assert(s@.take(s@.len() as int) =~= s@);
    r
}

/// The string that holds `chars[from..to]`.
pub fn string_of(chars: &Vec<char>, from: usize, to: usize) -> (r: String)
    requires
        from <= to <= chars.len(),
    ensures
        r@ == chars@.subrange(from as int, to as int),
{
    let mut r = String::new();
    let mut i: usize = from;
    while i < to
        invariant
            from <= i <= to <= chars.len(),
            r@ == chars@.subrange(from as int, i as int),
        decreases to - i,
    {
        r.push(chars[i]);
        assert(chars@.subrange(from as int, i + 1) =~= chars@.subrange(
            from as int,
            i as int,
        ).push(chars@[i as int]));
        i += 1;
    }
    r
}

/// Whether `list` holds the text of `s`.
pub fn contains_text(list: &Vec<String>, s: &str) -> (r: bool)
    ensures
        r == texts(list@).contains(s@),
{
    let mut i: usize = 0;
    while i < list.len()
        invariant
            i <= list.len(),
            forall|j: int| 0 <= j < i ==> list@[j]@ != s@,
        decreases list.len() - i,
    {
        if *list[i].as_str() == *s {
            assert(texts(list@)[i as int] == s@);
            return true;
        }
        i += 1;
    }
    assert(forall|j: int| 0 <= j < texts(list@).len() ==> texts(list@)[j] == list@[j]@);
    false
}

/// An independent copy of a list of strings.
pub fn copy_texts(list: &Vec<String>) -> (r: Vec<String>)
    ensures
        r@ == list@,
{
    let mut r: Vec<String> = Vec::new();
    let mut i: usize = 0;
    while i < list.len()
        invariant
            i <= list.len(),
            r@ == list@.take(i as int),
        decreases list.len() - i,
    {
        r.push(list[i].clone());
        assert(list@.take(i + 1) =~= list@.take(i as int).push(list@[i as int]));
        i += 1;
    }
    assert(list@.take(list@.len() as int) =~= list@);
    r
}

/// What an indexed family of sequences yields one after the other, for the
/// first `n` indices.
pub open spec fn gather<E>(n: nat, f: spec_fn(int) -> Seq<E>) -> Seq<E>
    decreases n,
{
    if n == 0 {
        Seq::empty()
    } else {
        gather((n - 1) as nat, f) + f(n - 1)
    }
}

/// A family whose members are those of another, mapped, yields what the other yields,
/// mapped.
pub proof fn lemma_gather_map<E>(
    n: nat,
    f: spec_fn(int) -> Seq<E>,
    g: spec_fn(int) -> Seq<E>,
    map: spec_fn(E) -> E,
)
    requires
        forall|i: int| 0 <= i < n ==> (#[trigger] g(i)) == f(i).map_values(map),
    ensures
        gather(n, g) == gather(n, f).map_values(map),
    decreases n,
{
    if n > 0 {
        lemma_gather_map((n - 1) as nat, f, g, map);
        assert(g(n - 1) == f(n - 1).map_values(map));
    }
    assert(gather(n, g) =~= gather(n, f).map_values(map));
}

/// A family yields nothing exactly when none of its members does.
pub proof fn lemma_gather_empty<E>(n: nat, f: spec_fn(int) -> Seq<E>)
    ensures
        gather(n, f).len() == 0 <==> forall|i: int| 0 <= i < n ==> (#[trigger] f(i)).len() == 0,
    decreases n,
{
    if n > 0 {
        lemma_gather_empty((n - 1) as nat, f);
        let m = (n - 1) as nat;
        if gather(n, f).len() == 0 {
            assert(gather(m, f).len() == 0);
            assert(f(n - 1).len() == 0);
        } else if forall|i: int| 0 <= i < n ==> (#[trigger] f(i)).len() == 0 {
            assert(forall|i: int| 0 <= i < m ==> (#[trigger] f(i)).len() == 0);
            assert(f(n - 1).len() == 0);
        }
    }
}

/// A family yields exactly what its members hold.
pub proof fn gather_holds_what_its_parts_hold<E>(n: nat, f: spec_fn(int) -> Seq<E>, e: E)
    ensures
        gather(n, f).contains(e) <==> exists|i: int| 0 <= i < n && (#[trigger] f(i)).contains(e),
    decreases n,
{
    if n > 0 {
        let before = gather((n - 1) as nat, f);
        let all = gather(n, f);
        gather_holds_what_its_parts_hold((n - 1) as nat, f, e);
        if all.contains(e) {
            let k = choose|k: int| 0 <= k < all.len() && all[k] == e;
            if k < before.len() {
                assert(before[k] == e);
                assert(before.contains(e));
            } else {
                assert(f(n - 1)[k - before.len()] == e);
                assert(f(n - 1).contains(e));
            }
        }
        if exists|i: int| 0 <= i < n && (#[trigger] f(i)).contains(e) {
            let i = choose|i: int| 0 <= i < n && (#[trigger] f(i)).contains(e);
            if i < n - 1 {
                assert(before.contains(e));
                let k = choose|k: int| 0 <= k < before.len() && before[k] == e;
                assert(all[k] == e);
            } else {
                let part = f(i);
                let k = choose|k: int| 0 <= k < part.len() && part[k] == e;
                assert(all[before.len() + k] == e);
            }
        }
    }
}

/// What the members of a family yield stands in the order of the members, with nothing
/// in between.
pub proof fn gather_keeps_order<E>(n: nat, f: spec_fn(int) -> Seq<E>, i: nat)
    requires
        i < n,
    ensures
        gather(i, f).len() + f(i as int).len() <= gather(n, f).len(),
        gather(n, f).take(gather(i, f).len() as int) == gather(i, f),
        gather(n, f).subrange(
            gather(i, f).len() as int,
            (gather(i, f).len() + f(i as int).len()) as int,
        ) == f(i as int),
        gather(0, f).len() == 0,
    decreases n,
{
    let last = (n - 1) as nat;
    if i < last {
        gather_keeps_order(last, f, i);
    }
    let start = gather(i, f).len() as int;
    let end = start + f(i as int).len();
    let all = gather(n, f);
    let before = gather(last, f);
    if i < last {
        assert(all.take(start) =~= before.take(start));
        assert(all.subrange(start, end) =~= before.subrange(start, end));
    } else {
        assert(all.take(start) =~= gather(i, f));
        assert(all.subrange(start, end) =~= f(i as int));
    }
}

/// The number that a sequence of decimal digits stands for.
pub open spec fn numeral_value(s: Seq<char>) -> int
    decreases s.len(),
{
    if s.len() == 0 {
        0
    } else {
        numeral_value(s.drop_last()) * 10 + (s.last() as int - '0' as int)
    }
}

/// A numeral stands for its number, is made of digits, and has no leading zero.
pub proof fn numeral_stands_for_its_number(n: nat)
    ensures
        numeral_value(decimal(n)) == n,
        decimal(n).len() > 0,
        forall|i: int| 0 <= i < decimal(n).len() ==> '0' <= #[trigger] decimal(n)[i] <= '9',
        decimal(n)[0] == '0' ==> n == 0 && decimal(n).len() == 1,
    decreases n,
{
    lemma_decimal_digits(n);
    if n >= 10 {
        numeral_stands_for_its_number(n / 10);
        assert(decimal(n).drop_last() =~= decimal(n / 10));
        assert(decimal(n)[0] == decimal(n / 10)[0]);
        assert(decimal(n).last() as int - '0' as int == n % 10);
    } else {
        assert(decimal(n).drop_last() =~= Seq::<char>::empty());
        assert(numeral_value(Seq::<char>::empty()) == 0);
        assert(decimal(n).last() as int - '0' as int == n);
    }
}

/// Trimming takes white space, and nothing else, from both ends, and leaves none there.
pub proof fn trimming_takes_white_space_from_both_ends(s: Seq<char>) -> (cut: (int, int))
    ensures
        ({
            let trimmed = trimmed_end(trimmed_start(s));
            let (start, end) = cut;
            &&& 0 <= start <= end <= s.len()
            &&& trimmed == s.subrange(start, end)
            &&& forall|i: int| 0 <= i < start ==> is_white_space(#[trigger] s[i])
            &&& forall|i: int| end <= i < s.len() ==> is_white_space(#[trigger] s[i])
            &&& trimmed.len() > 0 ==> !is_white_space(trimmed[0]) && !is_white_space(
                trimmed.last(),
            )
        }),
{
    let start = lemma_trimmed_start(s);
    let rest = trimmed_start(s);
    let kept = lemma_trimmed_end(rest);
    assert(s.subrange(start, start + kept) =~= rest.take(kept));
    assert forall|i: int| start + kept <= i < s.len() implies is_white_space(#[trigger] s[i]) by {
        assert(s[i] == rest[i - start]);
    }
    (start, start + kept)
}

proof fn lemma_trimmed_start(s: Seq<char>) -> (cut: int)
    ensures
        0 <= cut <= s.len(),
        trimmed_start(s) == s.skip(cut),
        forall|i: int| 0 <= i < cut ==> is_white_space(#[trigger] s[i]),
        trimmed_start(s).len() > 0 ==> !is_white_space(trimmed_start(s)[0]),
    decreases s.len(),
{
    if s.len() > 0 && is_white_space(s[0]) {
        let cut = lemma_trimmed_start(s.drop_first());
        assert(s.drop_first().skip(cut) =~= s.skip(cut + 1));
        assert forall|i: int| 0 <= i < cut + 1 implies is_white_space(#[trigger] s[i]) by {
            if i > 0 {
                assert(s[i] == s.drop_first()[i - 1]);
            }
        }
        cut + 1
    } else {
        assert(s.skip(0) =~= s);
        0
    }
}

proof fn lemma_trimmed_end(s: Seq<char>) -> (kept: int)
    ensures
        0 <= kept <= s.len(),
        trimmed_end(s) == s.take(kept),
        forall|i: int| kept <= i < s.len() ==> is_white_space(#[trigger] s[i]),
        kept > 0 ==> !is_white_space(s[kept - 1]),
        s.len() > 0 && !is_white_space(s[0]) ==> kept > 0,
    decreases s.len(),
{
    if s.len() > 0 && is_white_space(s.last()) {
        let kept = lemma_trimmed_end(s.drop_last());
        assert(s.drop_last().take(kept) =~= s.take(kept));
        assert forall|i: int| kept <= i < s.len() implies is_white_space(#[trigger] s[i]) by {
            if i < s.len() - 1 {
                assert(s[i] == s.drop_last()[i]);
            }
        }
        kept
    } else {
        assert(s.take(s.len() as int) =~= s);
        s.len() as int
    }
}

/// Two sequences one after the other hold what either of them holds.
pub proof fn lemma_either_holds<E>(a: Seq<E>, b: Seq<E>, e: E)
    ensures
        (a + b).contains(e) <==> a.contains(e) || b.contains(e),
{
    let both = a + b;
    if both.contains(e) {
        let k = choose|k: int| 0 <= k < both.len() && both[k] == e;
        if k < a.len() {
            assert(a[k] == e);
        } else {
            assert(b[k - a.len()] == e);
        }
    }
    if a.contains(e) {
        let k = choose|k: int| 0 <= k < a.len() && a[k] == e;
        assert(both[k] == e);
    }
    if b.contains(e) {
        let k = choose|k: int| 0 <= k < b.len() && b[k] == e;
        assert(both[a.len() + k] == e);
    }
}

/// A sequence of one element holds that element alone.
pub proof fn lemma_one_held<E>(x: E, e: E)
    ensures
        seq![x].contains(e) <==> x == e,
{
    assert(seq![x][0] == x);
}

/// The texts of a list of strings are those of its strings, one by one.
pub proof fn texts_are_taken_one_by_one(s: Seq<String>, i: int, one: Option<String>)
    ensures
        texts(s).len() == s.len(),
        0 <= i < s.len() ==> texts(s)[i] == s[i]@,
        one matches Some(text) ==> opt_text(one) == Some(text@),
        one is None ==> opt_text(one) is None,
{
}

} // verus!
