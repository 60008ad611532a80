//! The names of icons and the characters that they are drawn with.

use crate::color::{digit_value, hex_value};
use crate::text::{code_point, string_of, to_chars};
use vstd::hash_map::StringHashMap;
use vstd::prelude::*;
use vstd::string::*;

verus! {

/// Whether a number is the code point of a character: not too large, and no
/// surrogate.
pub open spec fn is_code_point(n: nat) -> bool {
    n <= 0x10ffff && !(0xd800 <= n <= 0xdfff)
}

/// `char::from_u32`: the character with the code point `n`, where there is one.
pub assume_specification[ char::from_u32 ](n: u32) -> (r: Option<char>)
    ensures
        match r {
            Some(c) => is_code_point(n as nat) && c as int == n as int,
            None => !is_code_point(n as nat),
        },
;

/// The ASCII white space characters.
pub open spec fn is_ascii_space(c: char) -> bool {
    c == ' ' || c == '\t' || c == '\n' || c == '\x0c' || c == '\r'
}

/// The first index from `i` on at which no white space stands.
pub open spec fn after_space(s: Seq<char>, i: int) -> int
    decreases s.len() - i,
{
    if 0 <= i < s.len() && is_ascii_space(s[i]) {
        after_space(s, i + 1)
    } else {
        i
    }
}

/// The first index from `i` on at which white space stands, or the end.
pub open spec fn after_word(s: Seq<char>, i: int) -> int
    decreases s.len() - i,
{
    if 0 <= i < s.len() && !is_ascii_space(s[i]) {
        after_word(s, i + 1)
    } else {
        i
    }
}

/// The value of a hexadecimal digit.
pub open spec fn hex_digit(c: char) -> Option<nat> {
    if c as int <= 127 {
        match hex_value(c as u8) {
            Some(value) => Some(value as nat),
            None => None,
        }
    } else {
        None
    }
}

/// The value of a sequence of hexadecimal digits.
pub open spec fn hex_digits(s: Seq<char>) -> Option<nat>
    decreases s.len(),
{
    if s.len() == 0 {
        Some(0)
    } else {
        match (hex_digits(s.drop_last()), hex_digit(s.last())) {
            (Some(high), Some(low)) => Some(high * 16 + low),
            _ => None,
        }
    }
}

/// The 32-bit number that a text stands for in base sixteen: at least one digit,
/// after an optional plus sign.
pub open spec fn hex_number(s: Seq<char>) -> Option<nat> {
    let digits = if s.len() > 0 && s[0] == '+' {
        s.drop_first()
    } else {
        s
    };
    match hex_digits(digits) {
        Some(n) if digits.len() > 0 && n <= u32::MAX => Some(n),
        _ => None,
    }
}

/// The character that a text names by its code point in base sixteen.
pub open spec fn named_char(s: Seq<char>) -> Option<char> {
    match hex_number(s) {
        Some(n) if is_code_point(n) => Some(n as char),
        _ => None,
    }
}

/// The entry of a line: the first word is a name, and the second names its
/// character.
pub open spec fn line_entry(line: Seq<char>) -> Option<(Seq<char>, char)> {
    let name_start = after_space(line, 0);
    let name_end = after_word(line, name_start);
    let hex_start = after_space(line, name_end);
    let hex_end = after_word(line, hex_start);
    if hex_start >= line.len() {
        None
    } else {
        match named_char(line.subrange(hex_start, hex_end)) {
            Some(c) => Some((line.subrange(name_start, name_end), c)),
            None => None,
        }
    }
}

/// A table with the entry of a line added, if the line has one.
pub open spec fn with_line(table: Map<Seq<char>, char>, line: Seq<char>) -> Map<Seq<char>, char> {
    match line_entry(line) {
        Some((name, c)) => table.insert(name, c),
        None => table,
    }
}

/// The first index from `i` on at which a line ends.
pub open spec fn line_end(src: Seq<char>, i: int) -> int
    decreases src.len() - i,
{
    if 0 <= i < src.len() && src[i] != '\n' {
        line_end(src, i + 1)
    } else {
        i
    }
}

/// A table with the entries of the lines from the index `i` on added in order.
pub open spec fn with_lines(table: Map<Seq<char>, char>, src: Seq<char>, i: int) -> Map<
    Seq<char>,
    char,
>
    decreases src.len() + 1 - i,
{
    if i < 0 || i >= src.len() {
        table
    } else {
        proof {
            lemma_line_end(src, i);
        }
        with_lines(
            with_line(table, src.subrange(i, line_end(src, i))),
            src,
            line_end(src, i) + 1,
        )
    }
}

/// The table of a whole file.
pub open spec fn codepoint_table(src: Seq<char>) -> Map<Seq<char>, char> {
    with_lines(Map::empty(), src, 0)
}

/// A line ends where it starts or later, at a line feed or at the end.
pub proof fn lemma_line_end(src: Seq<char>, i: int)
    ensures
        line_end(src, i) >= i,
        0 <= i <= src.len() ==> line_end(src, i) <= src.len(),
        0 <= i <= src.len() && line_end(src, i) < src.len() ==> src[line_end(src, i)] == '\n',
    decreases src.len() - i,
{
    if 0 <= i < src.len() && src[i] != '\n' {
        lemma_line_end(src, i + 1);
    }
}

proof fn lemma_hex_prefix(s: Seq<char>, i: int)
    requires
        0 <= i <= s.len(),
        hex_digits(s) is Some,
    ensures
        hex_digits(s.take(i)) is Some,
        hex_digits(s.take(i))->0 <= hex_digits(s)->0,
    decreases s.len(),
{
    if i == s.len() {
        assert(s.take(i) =~= s);
    } else {
        assert(s.drop_last().take(i) =~= s.take(i));
        lemma_hex_prefix(s.drop_last(), i);
    }
}

fn is_space(c: char) -> (r: bool)
    ensures
        r == is_ascii_space(c),
{
    c == ' ' || c == '\t' || c == '\n' || c == '\x0c' || c == '\r'
}

fn digit_of(c: char) -> (r: Option<u32>)
    ensures
        match r {
            Some(d) => hex_digit(c) == Some(d as nat) && d < 16,
            None => hex_digit(c) is None,
        },
{
    let n: u32 = code_point(c);
    if n > 127 {
        return None;
    }
    match digit_value(n as u8) {
        Some(value) => Some(value as u32),
        None => None,
    }
}

/// The end of the run that starts at `from` in the line from `start` to `end`: a
/// run of characters other than white space (`word`), or of white space.
fn skip_run(chars: &Vec<char>, start: usize, end: usize, from: usize, word: bool) -> (r: usize)
    requires
        start <= from <= end <= chars.len(),
    ensures
        from <= r <= end,
        ({
            let line = chars@.subrange(start as int, end as int);
            r - start == if word {
                after_word(line, from - start)
            } else {
                after_space(line, from - start)
            }
        }),
{
    let ghost line = chars@.subrange(start as int, end as int);
    let mut i: usize = from;
    while i < end && is_space(chars[i]) != word
        invariant
            start <= from <= i <= end <= chars.len(),
            line == chars@.subrange(start as int, end as int),
            word ==> after_word(line, from - start) == after_word(line, i - start),
            !word ==> after_space(line, from - start) == after_space(line, i - start),
        decreases end - i,
    {
        assert(line[i - start] == chars@[i as int]);
        i += 1;
    }
    assert(i < end ==> line[i - start] == chars@[i as int]);
    i
}

/// Reads a stretch of characters as a number in base sixteen.
fn read_hex(chars: &Vec<char>, from: usize, to: usize) -> (r: Option<u32>)
    requires
        from <= to <= chars.len(),
    ensures
        match r {
            Some(n) => hex_number(chars@.subrange(from as int, to as int)) == Some(n as nat),
            None => hex_number(chars@.subrange(from as int, to as int)) is None,
        },
{
    let ghost text = chars@.subrange(from as int, to as int);
    let mut start: usize = from;
    if from < to && chars[from] == '+' {
        start = from + 1;
    }
    let ghost digits = chars@.subrange(start as int, to as int);
    assert(digits =~= if text.len() > 0 && text[0] == '+' {
        text.drop_first()
    } else {
        text
    });
    if start == to {
        return None;
    }
    let mut value: u32 = 0;
    let mut i: usize = start;
    assert(digits.take(0) =~= Seq::<char>::empty());
    while i < to
        invariant
            from <= start <= i <= to <= chars.len(),
            start < to,
            text == chars@.subrange(from as int, to as int),
            digits == chars@.subrange(start as int, to as int),
            hex_number(text) == (match hex_digits(digits) {
                Some(n) if n <= u32::MAX => Some(n),
                _ => None,
            }),
            hex_digits(digits.take(i - start)) == Some(value as nat),
        decreases to - i,
    {
        proof {
            let next = digits.take(i + 1 - start);
            assert(next.drop_last() =~= digits.take(i - start));
            assert(next.last() == chars@[i as int]);
            if hex_digits(digits) is Some {
                lemma_hex_prefix(digits, i + 1 - start);
            }
        }
        match digit_of(chars[i]) {
            None => {
                return None;
            },
            Some(d) => {
                let wide: u64 = value as u64 * 16 + d as u64;
                if wide > 0xffff_ffff {
                    return None;
                }
                value = wide as u32;
            },
        }
        i += 1;
    }
    assert(digits.take(to - start) =~= digits);
    Some(value)
}

/// The characters of icons, by name.
pub struct IconMap {
    entries: StringHashMap<char>,
}

impl View for IconMap {
    type V = Map<Seq<char>, char>;

    closed spec fn view(&self) -> Map<Seq<char>, char> {
        self.entries@
    }
}

impl IconMap {
    /// A map without icons.
    pub fn empty() -> (r: IconMap)
        ensures
            r@ == Map::<Seq<char>, char>::empty(),
    {
        IconMap { entries: StringHashMap::new() }
    }

    /// The character of an icon, if it is known.
    pub fn get(&self, name: &str) -> (r: Option<char>)
        ensures
            r == if self@.contains_key(name@) {
                Some(self@[name@])
            } else {
                None
            },
    {
        match self.entries.get(name) {
            Some(c) => Some(*c),
            None => None,
        }
    }

    /// Whether no icon is known.
    pub fn is_empty(&self) -> (r: bool)
        ensures
            r == self@.is_empty(),
    {
        self.entries.is_empty()
    }
}

/// Adds the entry of a line, if it has one.
fn add_line(table: &mut StringHashMap<char>, chars: &Vec<char>, start: usize, end: usize)
    requires
        start <= end <= chars.len(),
    ensures
        final(table)@ == with_line(old(table)@, chars@.subrange(start as int, end as int)),
{
    let ghost line = chars@.subrange(start as int, end as int);
    let name_start: usize = skip_run(chars, start, end, start, false);
    let name_end: usize = skip_run(chars, start, end, name_start, true);
    let hex_start: usize = skip_run(chars, start, end, name_end, false);
    let hex_end: usize = skip_run(chars, start, end, hex_start, true);
    if hex_start >= end {
        return;
    }
    assert(chars@.subrange(hex_start as int, hex_end as int) =~= line.subrange(
        hex_start - start,
        hex_end - start,
    ));
    assert(chars@.subrange(name_start as int, name_end as int) =~= line.subrange(
        name_start - start,
        name_end - start,
    ));
    if let Some(n) = read_hex(chars, hex_start, hex_end) {
        if let Some(c) = char::from_u32(n) {
            assert(c == (n as nat) as char);
            table.insert(string_of(chars, name_start, name_end), c);
        }
    }
}

/// Parses a Material Symbols `.codepoints` file into a name to char map.
/// Each line has the format: `icon_name HEXCODEPOINT`
pub fn parse_codepoints(src: &str) -> (r: IconMap)
    ensures
        r@ == codepoint_table(src@),
{
    let chars = to_chars(src);
    let n: usize = chars.len();
    let mut table: StringHashMap<char> = StringHashMap::new();
    let mut start: usize = 0;
    while start < n
        invariant
            n == chars.len(),
            chars@ == src@,
            start <= n,
            with_lines(table@, src@, start as int) == codepoint_table(src@),
        decreases n - start,
    {
        let mut end: usize = start;
        while end < n && chars[end] != '\n'
            invariant
                start <= end <= n,
                n == chars.len(),
                chars@ == src@,
                line_end(src@, start as int) == line_end(src@, end as int),
            decreases n - end,
        {
            end += 1;
        }
        proof {
            lemma_line_end(src@, start as int);
        }
        add_line(&mut table, &chars, start, end);
        assert(with_lines(table@, src@, end + 1) == codepoint_table(src@));
        if end == n {
            return IconMap { entries: table };
        }
        start = end + 1;
    }
    IconMap { entries: table }
}

/// Whether a text is one word: not empty, and without white space.
pub open spec fn is_word(s: Seq<char>) -> bool {
    s.len() > 0 && forall|i: int| 0 <= i < s.len() ==> !is_ascii_space(#[trigger] s[i])
}

proof fn lemma_word_runs(s: Seq<char>, i: int, end: int)
    requires
        0 <= i <= end <= s.len(),
        forall|j: int| i <= j < end ==> !is_ascii_space(#[trigger] s[j]),
        end < s.len() ==> is_ascii_space(s[end]),
    ensures
        after_word(s, i) == end,
    decreases end - i,
{
    if i < end {
        lemma_word_runs(s, i + 1, end);
    }
}

/// A line of the documented format, a name and a code point in base sixteen,
/// stands for that name and that character.
pub proof fn name_and_codepoint_are_read(name: Seq<char>, hex: Seq<char>)
    requires
        is_word(name),
        is_word(hex),
    ensures
        line_entry(name + seq![' '] + hex) == match named_char(hex) {
            Some(c) => Some((name, c)),
            None => None,
        },
{
    let line = name + seq![' '] + hex;
    let n = name.len() as int;
    assert(forall|j: int| 0 <= j < n ==> line[j] == name[j]);
    assert(line[n] == ' ');
    assert(forall|j: int| n < j < line.len() ==> line[j] == hex[j - n - 1]);
    assert(!is_ascii_space(name[0]));
    assert(after_space(line, 0) == 0);
    lemma_word_runs(line, 0, n);
    assert(!is_ascii_space(hex[0]));
    assert(line[n + 1] == hex[0]);
    assert(after_space(line, n + 1) == n + 1);
    assert(after_space(line, n) == n + 1);
    lemma_word_runs(line, n + 1, line.len() as int);
    assert(line.subrange(0, n) =~= name);
    assert(line.subrange(n + 1, line.len() as int) =~= hex);
}

proof fn lemma_line_end_at(src: Seq<char>, i: int, end: int)
    requires
        0 <= i <= end <= src.len(),
        forall|j: int| i <= j < end ==> #[trigger] src[j] != '\n',
        end < src.len() ==> src[end] == '\n',
    ensures
        line_end(src, i) == end,
    decreases end - i,
{
    if i < end {
        lemma_line_end_at(src, i + 1, end);
    }
}

proof fn lemma_no_line_feed_before_end(src: Seq<char>, i: int)
    requires
        0 <= i <= src.len(),
    ensures
        forall|j: int| i <= j < line_end(src, i) ==> #[trigger] src[j] != '\n',
    decreases src.len() - i,
{
    if i < src.len() && src[i] != '\n' {
        lemma_no_line_feed_before_end(src, i + 1);
    }
}

proof fn lemma_last_line(table: Map<Seq<char>, char>, src: Seq<char>, line: Seq<char>, i: int)
    requires
        0 <= i <= src.len(),
        !line.contains('\n'),
    ensures
        with_lines(table, src + seq!['\n'] + line, i) == with_line(
            with_lines(table, src, i),
            line,
        ),
    decreases src.len() - i,
{
    let whole = src + seq!['\n'] + line;
    let n = src.len() as int;
    assert(forall|j: int| 0 <= j < n ==> whole[j] == src[j]);
    assert(whole[n] == '\n');
    assert(forall|j: int| n < j < whole.len() ==> whole[j] == line[j - n - 1]);
    lemma_line_end(src, i);
    lemma_no_line_feed_before_end(src, i);
    let end = line_end(src, i);
    lemma_line_end_at(whole, i, end);
    assert(whole.subrange(i, end) =~= src.subrange(i, end));
    let next = with_line(table, src.subrange(i, end));
    assert(with_lines(table, whole, i) == with_lines(next, whole, end + 1));
    if end < n {
        assert(with_lines(table, src, i) == with_lines(next, src, end + 1));
        lemma_last_line(next, src, line, end + 1);
    } else {
        assert(line_entry(Seq::<char>::empty()) is None);
        if i == n {
            assert(src.subrange(i, end) =~= Seq::<char>::empty());
        } else {
            assert(with_lines(table, src, i) == with_lines(next, src, n + 1));
        }
        assert(with_lines(table, src, i) == next);
        if line.len() > 0 {
            assert forall|j: int| n < j < whole.len() implies #[trigger] whole[j] != '\n' by {
                assert(line.contains(line[j - n - 1]));
            }
            lemma_line_end_at(whole, n + 1, whole.len() as int);
            assert(whole.subrange(n + 1, whole.len() as int) =~= line);
            assert(with_lines(next, whole, n + 1) == with_lines(
                with_line(next, line),
                whole,
                (whole.len() + 1) as int,
            ));
        } else {
            assert(line =~= Seq::<char>::empty());
        }
    }
}

/// A line at the end of a file adds its entry to those of the lines before, and
/// takes the place of an earlier one with the same name.
pub proof fn last_line_wins(src: Seq<char>, line: Seq<char>)
    requires
        !line.contains('\n'),
    ensures
        codepoint_table(src + seq!['\n'] + line) == with_line(codepoint_table(src), line),
{
    lemma_last_line(Map::empty(), src, line, 0);
}

/// The value of a sequence of hexadecimal digits grows by a place with each digit, and a
/// sequence with anything else in it has none.
pub proof fn hex_digits_are_read_place_by_place(s: Seq<char>, c: char)
    ensures
        hex_digits(Seq::empty()) == Some(0nat),
        '0' <= c <= '9' && hex_digits(s) is Some ==> hex_digits(s.push(c)) == Some(
            (hex_digits(s)->0 * 16 + (c as int - '0' as int)) as nat,
        ),
        'a' <= c <= 'f' && hex_digits(s) is Some ==> hex_digits(s.push(c)) == Some(
            (hex_digits(s)->0 * 16 + (c as int - 'a' as int) + 10) as nat,
        ),
        'A' <= c <= 'F' && hex_digits(s) is Some ==> hex_digits(s.push(c)) == Some(
            (hex_digits(s)->0 * 16 + (c as int - 'A' as int) + 10) as nat,
        ),
        hex_digits(s) is None ==> hex_digits(s.push(c)) is None,
        !('0' <= c <= '9') && !('a' <= c <= 'f') && !('A' <= c <= 'F') ==> hex_digits(
            s.push(c),
        ) is None,
{
    assert(s.push(c).drop_last() =~= s);
    assert(s.push(c).last() == c);
}

/// A text of hexadecimal digits names the character with that code point, with or without a
/// plus sign before it. There is no such character for surrogates and above 10ffff, nor
/// for a text without digits.
pub proof fn digits_name_the_character_of_their_value(s: Seq<char>)
    requires
        s.len() > 0 ==> s[0] != '+',
    ensures
        s.len() == 0 ==> named_char(s) is None,
        hex_digits(s) is None ==> named_char(s) is None,
        s.len() > 0 && hex_digits(s) is Some ==> ({
            let n = hex_digits(s)->0;
            if n <= 0x10ffff && !(0xd800 <= n <= 0xdfff) {
                named_char(s) matches Some(c) && c as int == n
            } else {
                named_char(s) is None
            }
        }),
        named_char(seq!['+'] + s) == named_char(s),
{
    let plus = seq!['+'] + s;
    assert(plus.drop_first() =~= s);
}

/// A file without lines has no entries, and a file of one line has the entry of that line.
pub proof fn one_line_gives_its_entry(line: Seq<char>)
    requires
        !line.contains('\n'),
    ensures
        codepoint_table(Seq::empty()) == Map::<Seq<char>, char>::empty(),
        codepoint_table(line) == match line_entry(line) {
            Some((name, c)) => Map::<Seq<char>, char>::empty().insert(name, c),
            None => Map::<Seq<char>, char>::empty(),
        },
{
    if line.len() == 0 {
        assert(line_entry(line) is None);
    } else {
        assert forall|j: int| 0 <= j < line.len() implies #[trigger] line[j] != '\n' by {
            assert(line.contains(line[j]));
        }
        lemma_line_end_at(line, 0, line.len() as int);
        assert(line.subrange(0, line.len() as int) =~= line);
        let table = with_line(Map::empty(), line);
        assert(with_lines(table, line, line.len() as int + 1) == table);
    }
}

/// An entry of a line is added to a table under its name, and takes the place of what was
/// there; other names are as they were.
pub proof fn a_line_changes_its_own_name_alone(
    table: Map<Seq<char>, char>,
    line: Seq<char>,
    name: Seq<char>,
)
    ensures
        match line_entry(line) {
            Some((own, c)) => with_line(table, line).contains_key(own) && with_line(
                table,
                line,
            )[own] == c && (name != own ==> with_line(table, line).contains_key(name)
                == table.contains_key(name) && with_line(table, line)[name] == table[name]),
            None => with_line(table, line) == table,
        },
{
}

/// What stands before the name, between the name and the code point as further white
/// space, and behind the code point does not matter.
pub proof fn further_words_and_spaces_do_not_matter(
    name: Seq<char>,
    hex: Seq<char>,
    rest: Seq<char>,
)
    requires
        is_word(name),
        is_word(hex),
    ensures
        line_entry(seq![' '] + name + seq!['\t', ' '] + hex + seq![' '] + rest) == match named_char(
            hex,
        ) {
            Some(c) => Some((name, c)),
            None => None,
        },
        line_entry(name) is None,
{
    let line = seq![' '] + name + seq!['\t', ' '] + hex + seq![' '] + rest;
    let n = name.len() as int;
    let h = hex.len() as int;
    assert(line[0] == ' ');
    assert(forall|j: int| 1 <= j < n + 1 ==> line[j] == name[j - 1]);
    assert(line[n + 1] == '\t' && line[n + 2] == ' ');
    assert(forall|j: int| n + 3 <= j < n + 3 + h ==> line[j] == hex[j - n - 3]);
    assert(line[n + 3 + h] == ' ');
    assert(!is_ascii_space(name[0]));
    assert(line[1] == name[0]);
    assert(after_space(line, 1) == 1);
    assert(after_space(line, 0) == 1);
    lemma_word_runs(line, 1, n + 1);
    assert(!is_ascii_space(hex[0]));
    assert(line[n + 3] == hex[0]);
    assert(after_space(line, n + 3) == n + 3);
    assert(after_space(line, n + 2) == n + 3);
    assert(after_space(line, n + 1) == n + 3);
    lemma_word_runs(line, n + 3, n + 3 + h);
    assert(line.subrange(1, n + 1) =~= name);
    assert(line.subrange(n + 3, n + 3 + h) =~= hex);
    assert(after_space(name, 0) == 0);
    lemma_word_runs(name, 0, n);
    assert(after_space(name, n) == n);
}

/// White space is the tab, the line feed, the form feed, the carriage return and the space.
pub proof fn five_characters_are_white_space(c: char)
    ensures
        is_ascii_space(c) <==> c as int == 9 || c as int == 10 || c as int == 12 || c as int == 13
            || c as int == 32,
{
}

} // verus!
