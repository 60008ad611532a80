//! How deeply an expression nests: a reading of its brackets that never finds less
//! nesting than a parser does.
//!
//! As long as brackets stand where the grammar of expressions has them, each closes
//! where it is closed. A parser that recovers from an error may skip a closing bracket,
//! so after the first bracket, colon or character that is out of place nothing closes.

use crate::text::to_chars;
use vstd::prelude::*;
use vstd::string::*;

verus! {

/// The kinds of marks that an expression is read as.
#[derive(Debug, Clone, Copy, PartialEq, Eq, Structural)]
pub enum Mark {
    /// What stands between marks.
    Blank,
    /// A name that can be called.
    Name,
    /// A number, a string or another constant.
    Value,
    /// The point before a member.
    Dot,
    /// An operator, in front of its operand or between two.
    Operator,
    Comma,
    Colon,
    Question,
    /// An opening bracket.
    Open,
    /// A closing bracket.
    Close,
    /// Anything else.
    Unknown,
}

/// The digits of numbers.
pub open spec fn is_digit(c: char) -> bool {
    '0' <= c <= '9'
}

/// The characters that names and numbers are made of.
pub open spec fn is_name_char(c: char) -> bool {
    'a' <= c <= 'z' || 'A' <= c <= 'Z' || is_digit(c) || c == '_'
}

/// The quotes of strings.
pub open spec fn is_quote(c: char) -> bool {
    c == '\'' || c == '"'
}

/// What stands before the quote of a string in which backslashes do not count.
pub open spec fn is_raw_prefix(c: char) -> bool {
    c == 'r' || c == 'R'
}

/// What may stand behind a backslash in a string, on its own.
pub open spec fn is_escape(c: char) -> bool {
    c == 'a' || c == 'b' || c == 'f' || c == 'n' || c == 'r' || c == 't' || c == 'v' || c == '"'
        || c == '\'' || c == '\\' || c == '?' || c == '`'
}

/// Whether `c` stands at the index.
pub open spec fn has_at(expr: Seq<char>, i: int, c: char) -> bool {
    0 <= i < expr.len() && expr[i] == c
}

/// Where the word that begins at the index ends.
pub open spec fn word_end(expr: Seq<char>, i: int) -> int
    decreases expr.len() - i,
{
    if 0 <= i < expr.len() && is_name_char(expr[i]) {
        word_end(expr, i + 1)
    } else {
        i
    }
}

/// Where the number that begins at the index ends, with the digits behind its point.
pub open spec fn number_end(expr: Seq<char>, i: int) -> int {
    let end = word_end(expr, i);
    if has_at(expr, end, '.') && end + 1 < expr.len() && is_digit(expr[end + 1]) {
        word_end(expr, end + 1)
    } else {
        end
    }
}

/// Whether what ends at the index may end with the operator `in`.
pub open spec fn ends_in(expr: Seq<char>, end: int) -> bool {
    has_at(expr, end - 2, 'i') && has_at(expr, end - 1, 'n')
}

/// Where a string goes on until, from the index on: behind its closing quote, if that
/// comes before the line ends. Without `raw`, backslashes count; without `escapes`, there
/// may be none.
pub open spec fn text_end(
    expr: Seq<char>,
    quote: char,
    raw: bool,
    escapes: bool,
    i: int,
) -> Option<int>
    decreases expr.len() - i,
{
    if i < 0 || i >= expr.len() || expr[i] == '\n' || expr[i] == '\r' {
        None
    } else if expr[i] == quote {
        Some(i + 1)
    } else if raw || expr[i] != '\\' {
        text_end(expr, quote, raw, escapes, i + 1)
    } else if escapes && i + 1 < expr.len() && is_escape(expr[i + 1]) {
        text_end(expr, quote, raw, escapes, i + 2)
    } else {
        None
    }
}

/// The string whose opening quote stands at the index, and where it ends. Three quotes
/// in a row are not read.
pub open spec fn text_mark(expr: Seq<char>, i: int, raw: bool, escapes: bool) -> (Mark, int) {
    match text_end(expr, expr[i], raw, escapes, i + 1) {
        Some(end) if !(end == i + 2 && has_at(expr, end, expr[i])) => (Mark::Value, end),
        _ => (Mark::Unknown, i + 1),
    }
}

/// The word or number that begins at the index, and where it ends.
pub open spec fn word_mark(expr: Seq<char>, i: int) -> (Mark, int) {
    let end = word_end(expr, i);
    let word = expr.subrange(i, end);
    if is_digit(expr[i]) {
        if ends_in(expr, end) || ends_in(expr, number_end(expr, i)) {
            (Mark::Unknown, end)
        } else {
            (Mark::Value, number_end(expr, i))
        }
    } else if end == i + 1 && end < expr.len() && is_quote(expr[end]) && (is_raw_prefix(expr[i])
        || expr[i] == 'b' || expr[i] == 'B') {
        text_mark(expr, end, is_raw_prefix(expr[i]), true)
    } else if word == "in"@ {
        (Mark::Operator, end)
    } else if word == "true"@ || word == "false"@ || word == "null"@ {
        (Mark::Value, end)
    } else {
        (Mark::Name, end)
    }
}

/// Whether an operator of two characters stands at the index.
pub open spec fn is_double_operator(expr: Seq<char>, i: int) -> bool {
    ||| expr[i] == '&' && has_at(expr, i + 1, '&')
    ||| expr[i] == '|' && has_at(expr, i + 1, '|')
    ||| (expr[i] == '=' || expr[i] == '!' || expr[i] == '<' || expr[i] == '>') && has_at(
        expr,
        i + 1,
        '=',
    )
}

/// What a character is on its own.
pub open spec fn sign_mark(c: char) -> Mark {
    if c == '+' || c == '-' || c == '*' || c == '/' || c == '%' || c == '<' || c == '>' || c
        == '!' {
        Mark::Operator
    } else if c == '.' {
        Mark::Dot
    } else if c == ',' {
        Mark::Comma
    } else if c == ':' {
        Mark::Colon
    } else if c == ')' || c == ']' || c == '}' {
        Mark::Close
    } else {
        Mark::Unknown
    }
}

/// The mark that begins at the index, and where it ends. Without `regular`, only what
/// opens is told apart.
pub open spec fn mark_at(expr: Seq<char>, i: int, regular: bool) -> (Mark, int) {
    let c = expr[i];
    if c == ' ' || c == '\t' || c == '\r' || c == '\n' {
        (Mark::Blank, i + 1)
    } else if c == '(' || c == '[' || c == '{' {
        (Mark::Open, i + 1)
    } else if c == '?' {
        (Mark::Question, i + 1)
    } else if !regular {
        (Mark::Unknown, i + 1)
    } else if is_name_char(c) {
        word_mark(expr, i)
    } else if is_quote(c) {
        text_mark(expr, i, false, !(i > 0 && is_raw_prefix(expr[i - 1])))
    } else if is_double_operator(expr, i) {
        (Mark::Operator, i + 2)
    } else if c == '/' && has_at(expr, i + 1, '/') {
        (Mark::Unknown, i + 1)
    } else {
        (sign_mark(c), i + 1)
    }
}

/// What has been read of an expression: how many marks, what is open, how much was open
/// at most, the last mark, and whether all brackets stood where they belong.
///
/// Open are groups `(`, calls `f`, lists `[`, indices `i`, maps `{` before a colon and `m`
/// behind it, and conditionals `?` before their colon and `:` behind it.
#[verifier::ext_equal]
pub struct NestingView {
    pub marks: nat,
    pub open: Seq<char>,
    pub deepest: nat,
    pub last: Mark,
    pub regular: bool,
}

/// Before anything is read.
pub open spec fn unread() -> NestingView {
    NestingView {
        marks: 0,
        open: Seq::empty(),
        deepest: 0,
        last: Mark::Operator,
        regular: true,
    }
}

/// Whether an operand ends with the mark.
pub open spec fn ends_operand(mark: Mark) -> bool {
    mark == Mark::Name || mark == Mark::Value || mark == Mark::Close
}

/// What is open without the conditionals that a comma, a colon or a closing bracket ends.
pub open spec fn settled(open: Seq<char>) -> Seq<char>
    decreases open.len(),
{
    if open.len() > 0 && open.last() == ':' {
        settled(open.drop_last())
    } else {
        open
    }
}

/// Whether `c` was opened last.
pub open spec fn within(open: Seq<char>, c: char) -> bool {
    open.len() > 0 && open.last() == c
}

/// Whether the bracket `c` closes what was opened last.
pub open spec fn closes(open: Seq<char>, last: Mark, c: char) -> bool {
    if c == ')' {
        (within(open, 'f') && (ends_operand(last) || last == Mark::Open)) || (within(open, '(')
            && ends_operand(last))
    } else if c == ']' {
        (within(open, '[') && (ends_operand(last) || last == Mark::Open)) || (within(open, 'i')
            && ends_operand(last))
    } else {
        (within(open, 'm') && ends_operand(last)) || (within(open, '{') && last == Mark::Open)
    }
}

impl NestingView {
    /// Whether brackets still stand where they belong after another mark, which begins
    /// with `c`.
    pub open spec fn stays_regular(self, mark: Mark, c: char) -> bool {
        let operand = ends_operand(self.last);
        let inner = settled(self.open);
        self.regular && match mark {
            Mark::Blank => true,
            Mark::Name => true,
            Mark::Value => self.last != Mark::Dot,
            Mark::Operator => self.last != Mark::Dot,
            Mark::Comma => self.last != Mark::Dot,
            Mark::Dot => operand,
            Mark::Colon => operand && (within(inner, '?') || within(inner, '{')),
            Mark::Question => operand && !within(self.open, '?'),
            Mark::Open => self.last != Mark::Dot && (c == '[' || !operand || (c == '('
                && self.last == Mark::Name)),
            Mark::Close => closes(inner, self.last, c),
            Mark::Unknown => false,
        }
    }

    /// What is open after another mark, which begins with `c`.
    pub open spec fn open_after(self, mark: Mark, c: char) -> Seq<char> {
        let operand = ends_operand(self.last);
        let inner = settled(self.open);
        if !self.stays_regular(mark, c) {
            if mark == Mark::Open || mark == Mark::Question {
                self.open.push(c)
            } else {
                self.open
            }
        } else {
            match mark {
                Mark::Comma => if within(inner, 'm') {
                    inner.drop_last().push('{')
                } else {
                    inner
                },
                Mark::Colon => inner.drop_last().push(
                    if within(inner, '?') {
                        ':'
                    } else {
                        'm'
                    },
                ),
                Mark::Question => self.open.push('?'),
                Mark::Open => self.open.push(
                    if !operand {
                        c
                    } else if c == '(' {
                        'f'
                    } else {
                        'i'
                    },
                ),
                Mark::Close => inner.drop_last(),
                _ => self.open,
            }
        }
    }

    /// After another mark, which begins with `c`.
    pub open spec fn read(self, mark: Mark, c: char) -> NestingView {
        let open = self.open_after(mark, c);
        if mark == Mark::Blank {
            self
        } else {
            NestingView {
                marks: self.marks + 1,
                open,
                deepest: if open.len() > self.deepest {
                    open.len()
                } else {
                    self.deepest
                },
                last: mark,
                regular: self.stays_regular(mark, c),
            }
        }
    }
}

/// The expression read to its end, from the index on.
pub open spec fn read_from(expr: Seq<char>, i: int, so_far: NestingView) -> NestingView
    decreases expr.len() - i,
{
    if 0 <= i < expr.len() {
        let (mark, end) = mark_at(expr, i, so_far.regular);
        if i < end <= expr.len() {
            read_from(expr, end, so_far.read(mark, expr[i]))
        } else {
            so_far
        }
    } else {
        so_far
    }
}

/// How an expression nests.
pub open spec fn nesting(expr: Seq<char>) -> NestingView {
    read_from(expr, 0, unread())
}

fn name_char(c: char) -> (r: bool)
    ensures
        r == is_name_char(c),
{
    ('a' <= c && c <= 'z') || ('A' <= c && c <= 'Z') || ('0' <= c && c <= '9') || c == '_'
}

fn found_at(chars: &Vec<char>, i: usize, c: char) -> (r: bool)
    ensures
        r == has_at(chars@, i as int, c),
{
    i < chars.len() && chars[i] == c
}

fn find_word_end(chars: &Vec<char>, start: usize) -> (r: usize)
    requires
        start <= chars.len(),
    ensures
        r == word_end(chars@, start as int),
        start <= r <= chars.len(),
        start < chars.len() && is_name_char(chars@[start as int]) ==> start < r,
{
    let mut i: usize = start;
    while i < chars.len() && name_char(chars[i])
        invariant
            start <= i <= chars.len(),
            word_end(chars@, start as int) == word_end(chars@, i as int),
        decreases chars.len() - i,
    {
        i += 1;
    }
    i
}

fn find_number_end(chars: &Vec<char>, start: usize) -> (r: usize)
    requires
        start < chars.len(),
        is_name_char(chars@[start as int]),
    ensures
        r == number_end(chars@, start as int),
        start < r <= chars.len(),
{
    let end: usize = find_word_end(chars, start);
    if found_at(chars, end, '.') && end + 1 < chars.len() && '0' <= chars[end + 1] && chars[end
        + 1] <= '9' {
        find_word_end(chars, end + 1)
    } else {
        end
    }
}

fn in_before(chars: &Vec<char>, end: usize) -> (r: bool)
    requires
        end <= chars.len(),
    ensures
        r == ends_in(chars@, end as int),
{
    end >= 2 && chars[end - 2] == 'i' && chars[end - 1] == 'n'
}

fn escape_char(c: char) -> (r: bool)
    ensures
        r == is_escape(c),
{
    c == 'a' || c == 'b' || c == 'f' || c == 'n' || c == 'r' || c == 't' || c == 'v' || c == '"'
        || c == '\'' || c == '\\' || c == '?' || c == '`'
}

fn find_text_end(chars: &Vec<char>, quote: char, raw: bool, escapes: bool, start: usize) -> (r:
    Option<usize>)
    ensures
        match r {
            Some(end) => text_end(chars@, quote, raw, escapes, start as int) == Some(end as int)
                && start < end <= chars.len(),
            None => text_end(chars@, quote, raw, escapes, start as int) is None,
        },
{
    let mut i: usize = start;
    while i < chars.len()
        invariant
            start <= i,
            text_end(chars@, quote, raw, escapes, start as int) == text_end(
                chars@,
                quote,
                raw,
                escapes,
                i as int,
            ),
        decreases chars.len() - i,
    {
        let c = chars[i];
        if c == '\n' || c == '\r' {
            return None;
        }
        if c == quote {
            return Some(i + 1);
        }
        if raw || c != '\\' {
            i += 1;
        } else if escapes && i + 1 < chars.len() && escape_char(chars[i + 1]) {
            i += 2;
        } else {
            return None;
        }
    }
    None
}

fn text_at(chars: &Vec<char>, i: usize, raw: bool, escapes: bool) -> (r: (Mark, usize))
    requires
        i < chars.len(),
    ensures
        (r.0, r.1 as int) == text_mark(chars@, i as int, raw, escapes),
        i < r.1 <= chars.len(),
{
    match find_text_end(chars, chars[i], raw, escapes, i + 1) {
        Some(end) => if end == i + 2 && found_at(chars, end, chars[i]) {
            (Mark::Unknown, i + 1)
        } else {
            (Mark::Value, end)
        },
        None => (Mark::Unknown, i + 1),
    }
}

fn word_is(chars: &Vec<char>, start: usize, end: usize, word: &str) -> (r: bool)
    requires
        start <= end <= chars.len(),
    ensures
        r == (chars@.subrange(start as int, end as int) == word@),
{
    let letters = to_chars(word);
    if end - start != letters.len() {
        return false;
    }
    let mut i: usize = 0;
    while i < letters.len()
        invariant
            i <= letters.len(),
            start <= end <= chars.len(),
            end - start == letters.len(),
            letters@ == word@,
            forall|j: int| 0 <= j < i ==> chars@[start + j] == #[trigger] letters@[j],
        decreases letters.len() - i,
    {
        if chars[start + i] != letters[i] {
            assert(chars@.subrange(start as int, end as int)[i as int] != word@[i as int]);
            return false;
        }
        i += 1;
    }
    assert(chars@.subrange(start as int, end as int) =~= word@);
    true
}

fn word_at(chars: &Vec<char>, i: usize) -> (r: (Mark, usize))
    requires
        i < chars.len(),
        is_name_char(chars@[i as int]),
    ensures
        (r.0, r.1 as int) == word_mark(chars@, i as int),
        i < r.1 <= chars.len(),
{
    let end: usize = find_word_end(chars, i);
    let c = chars[i];
    if '0' <= c && c <= '9' {
        let whole: usize = find_number_end(chars, i);
        if in_before(chars, end) || in_before(chars, whole) {
            (Mark::Unknown, end)
        } else {
            (Mark::Value, whole)
        }
    } else if end == i + 1 && end < chars.len() && (chars[end] == '\'' || chars[end] == '"') && (c
        == 'r' || c == 'R' || c == 'b' || c == 'B') {
        text_at(chars, end, c == 'r' || c == 'R', true)
    } else if word_is(chars, i, end, "in") {
        (Mark::Operator, end)
    } else if word_is(chars, i, end, "true") || word_is(chars, i, end, "false") || word_is(
        chars,
        i,
        end,
        "null",
    ) {
        (Mark::Value, end)
    } else {
        (Mark::Name, end)
    }
}

fn double_operator_at(chars: &Vec<char>, i: usize) -> (r: bool)
    requires
        i < chars.len(),
    ensures
        r == is_double_operator(chars@, i as int),
{
    let c = chars[i];
    (c == '&' && found_at(chars, i + 1, '&')) || (c == '|' && found_at(chars, i + 1, '|')) || ((c
        == '=' || c == '!' || c == '<' || c == '>') && found_at(chars, i + 1, '='))
}

fn sign(c: char) -> (r: Mark)
    ensures
        r == sign_mark(c),
{
    if c == '+' || c == '-' || c == '*' || c == '/' || c == '%' || c == '<' || c == '>' || c
        == '!' {
        Mark::Operator
    } else if c == '.' {
        Mark::Dot
    } else if c == ',' {
        Mark::Comma
    } else if c == ':' {
        Mark::Colon
    } else if c == ')' || c == ']' || c == '}' {
        Mark::Close
    } else {
        Mark::Unknown
    }
}

fn next_mark(chars: &Vec<char>, i: usize, regular: bool) -> (r: (Mark, usize))
    requires
        i < chars.len(),
    ensures
        (r.0, r.1 as int) == mark_at(chars@, i as int, regular),
        i < r.1 <= chars.len(),
{
    let c = chars[i];
    if c == ' ' || c == '\t' || c == '\r' || c == '\n' {
        (Mark::Blank, i + 1)
    } else if c == '(' || c == '[' || c == '{' {
        (Mark::Open, i + 1)
    } else if c == '?' {
        (Mark::Question, i + 1)
    } else if !regular {
        (Mark::Unknown, i + 1)
    } else if name_char(c) {
        word_at(chars, i)
    } else if c == '\'' || c == '"' {
        text_at(chars, i, false, !(i > 0 && (chars[i - 1] == 'r' || chars[i - 1] == 'R')))
    } else if double_operator_at(chars, i) {
        (Mark::Operator, i + 2)
    } else if c == '/' && found_at(chars, i + 1, '/') {
        (Mark::Unknown, i + 1)
    } else {
        (sign(c), i + 1)
    }
}

/// What has been read of an expression.
pub struct Nesting {
    marks: usize,
    open: Vec<char>,
    deepest: usize,
    last: Mark,
    regular: bool,
}

impl View for Nesting {
    type V = NestingView;

    closed spec fn view(&self) -> NestingView {
        NestingView {
            marks: self.marks as nat,
            open: self.open@,
            deepest: self.deepest as nat,
            last: self.last,
            regular: self.regular,
        }
    }
}

fn operand_end(mark: Mark) -> (r: bool)
    ensures
        r == ends_operand(mark),
{
    matches!(mark, Mark::Name | Mark::Value | Mark::Close)
}

/// How much of what is open is left when conditionals end.
fn settled_depth(open: &Vec<char>) -> (r: usize)
    ensures
        r <= open.len(),
        settled(open@) == open@.take(r as int),
{
    let mut depth: usize = open.len();
    assert(open@.take(depth as int) =~= open@);
    while depth > 0 && open[depth - 1] == ':'
        invariant
            depth <= open.len(),
            settled(open@) == settled(open@.take(depth as int)),
        decreases depth,
    {
        assert(open@.take(depth as int).drop_last() =~= open@.take(depth - 1));
        depth -= 1;
    }
    depth
}

fn is_within(open: &Vec<char>, depth: usize, c: char) -> (r: bool)
    requires
        depth <= open.len(),
    ensures
        r == within(open@.take(depth as int), c),
{
    depth > 0 && open[depth - 1] == c
}

fn is_closed_by(open: &Vec<char>, depth: usize, last: Mark, c: char) -> (r: bool)
    requires
        depth <= open.len(),
    ensures
        r == closes(open@.take(depth as int), last, c),
{
    let operand = operand_end(last);
    let empty = matches!(last, Mark::Open);
    if c == ')' {
        (is_within(open, depth, 'f') && (operand || empty)) || (is_within(open, depth, '(')
            && operand)
    } else if c == ']' {
        (is_within(open, depth, '[') && (operand || empty)) || (is_within(open, depth, 'i')
            && operand)
    } else {
        (is_within(open, depth, 'm') && operand) || (is_within(open, depth, '{') && empty)
    }
}

impl Nesting {
    fn new() -> (r: Nesting)
        ensures
            r@ == unread(),
    {
        let r = Nesting {
            marks: 0,
            open: Vec::new(),
            deepest: 0,
            last: Mark::Operator,
            regular: true,
        };
        assert(r@ =~= unread());
        r
    }

    fn keeps_regular(&self, mark: Mark, c: char, depth: usize) -> (r: bool)
        requires
            depth <= self.open.len(),
            settled(self.open@) == self.open@.take(depth as int),
        ensures
            r == self@.stays_regular(mark, c),
    {
        let operand = operand_end(self.last);
        let member = matches!(self.last, Mark::Dot);
        assert(self.open@.take(self.open.len() as int) =~= self.open@);
        self.regular && match mark {
            Mark::Blank => true,
            Mark::Name => true,
            Mark::Value => !member,
            Mark::Operator => !member,
            Mark::Comma => !member,
            Mark::Dot => operand,
            Mark::Colon => operand && (is_within(&self.open, depth, '?') || is_within(
                &self.open,
                depth,
                '{',
            )),
            Mark::Question => operand && !is_within(&self.open, self.open.len(), '?'),
            Mark::Open => !member && (c == '[' || !operand || (c == '(' && matches!(
                self.last,
                Mark::Name
            ))),
            Mark::Close => is_closed_by(&self.open, depth, self.last, c),
            Mark::Unknown => false,
        }
    }

    fn take(&mut self, mark: Mark, c: char)
        requires
            old(self)@.marks < usize::MAX,
        ensures
            final(self)@ == old(self)@.read(mark, c),
    {
        if matches!(mark, Mark::Blank) {
            return;
        }
        let ghost before = self@;
        let operand = operand_end(self.last);
        let depth: usize = settled_depth(&self.open);
        let ghost inner = settled(self.open@);
        let regular = self.keeps_regular(mark, c, depth);
        if !regular {
            if matches!(mark, Mark::Open | Mark::Question) {
                self.open.push(c);
            }
        } else {
            match mark {
                Mark::Comma => {
                    self.open.truncate(depth);
                    if is_within(&self.open, depth, 'm') {
                        self.open.pop();
                        self.open.push('{');
                    }
                },
                Mark::Colon => {
                    let branch = is_within(&self.open, depth, '?');
                    self.open.truncate(depth);
                    self.open.pop();
                    self.open.push(
                        if branch {
                            ':'
                        } else {
                            'm'
                        },
                    );
                },
                Mark::Question => self.open.push('?'),
                Mark::Open => self.open.push(
                    if !operand {
                        c
                    } else if c == '(' {
                        'f'
                    } else {
                        'i'
                    },
                ),
                Mark::Close => {
                    self.open.truncate(depth);
                    self.open.pop();
                },
                _ => (),
            }
        }
        assert(self.open@ =~= before.open_after(mark, c));
        self.marks += 1;
        if self.open.len() > self.deepest {
            self.deepest = self.open.len();
        }
        self.last = mark;
        self.regular = regular;
        assert(self@ =~= before.read(mark, c));
    }

    /// How many marks were read.
    pub fn marks(&self) -> (r: usize)
        ensures
            r == self@.marks,
    {
        self.marks
    }

    /// How much was open at most.
    pub fn deepest(&self) -> (r: usize)
        ensures
            r == self@.deepest,
    {
        self.deepest
    }
}

/// Reads an expression.
pub fn read_nesting(expr: &str) -> (r: Nesting)
    ensures
        r@ == nesting(expr@),
{
    let chars = to_chars(expr);
    let mut read = Nesting::new();
    let mut i: usize = 0;
    while i < chars.len()
        invariant
            i <= chars.len(),
            read@.marks <= i,
            nesting(chars@) == read_from(chars@, i as int, read@),
        decreases chars.len() - i,
    {
        let (mark, end) = next_mark(&chars, i, read.regular);
        read.take(mark, chars[i]);
        i = end;
    }
    read
}

/// An expression without brackets and conditionals does not nest, and has no more marks
/// than characters.
pub proof fn plain_expressions_do_not_nest(expr: Seq<char>)
    requires
        forall|i: int|
            0 <= i < expr.len() ==> (#[trigger] expr[i]) != '(' && expr[i] != '[' && expr[i] != '{'
                && expr[i] != '?',
    ensures
        nesting(expr).deepest == 0,
        nesting(expr).marks <= expr.len(),
{
    lemma_plain_rest(expr, 0, unread());
}

proof fn lemma_plain_rest(expr: Seq<char>, i: int, so_far: NestingView)
    requires
        forall|j: int|
            0 <= j < expr.len() ==> (#[trigger] expr[j]) != '(' && expr[j] != '[' && expr[j] != '{'
                && expr[j] != '?',
        so_far.open.len() == 0,
        so_far.deepest == 0,
        0 <= i <= expr.len(),
    ensures
        read_from(expr, i, so_far).deepest == 0,
        read_from(expr, i, so_far).marks <= so_far.marks + expr.len() - i,
    decreases expr.len() - i,
{
    if i < expr.len() {
        let (mark, end) = mark_at(expr, i, so_far.regular);
        if i < end <= expr.len() {
            let next = so_far.read(mark, expr[i]);
            assert(expr[i] != '(' && expr[i] != '[');
            assert(mark != Mark::Open && mark != Mark::Question) by {
                lemma_mark_opens(expr, i, so_far.regular);
            }
            assert(settled(so_far.open) =~= so_far.open);
            lemma_plain_rest(expr, end, next);
        }
    }
}

/// Only brackets and question marks open anything.
proof fn lemma_mark_opens(expr: Seq<char>, i: int, regular: bool)
    requires
        0 <= i < expr.len(),
    ensures
        mark_at(expr, i, regular).0 == Mark::Open ==> expr[i] == '(' || expr[i] == '[' || expr[i]
            == '{',
        mark_at(expr, i, regular).0 == Mark::Question ==> expr[i] == '?',
{
}

/// How many characters from the index on may open something.
pub open spec fn openers_from(expr: Seq<char>, i: int) -> nat
    decreases expr.len() - i,
{
    if 0 <= i < expr.len() {
        openers_from(expr, i + 1) + if expr[i] == '(' || expr[i] == '[' || expr[i] == '{' || expr[i]
            == '?' {
            1nat
        } else {
            0nat
        }
    } else {
        0
    }
}

proof fn lemma_openers_shrink(expr: Seq<char>, i: int, j: int)
    requires
        0 <= i <= j,
    ensures
        openers_from(expr, j) <= openers_from(expr, i),
    decreases j - i,
{
    if i < j {
        lemma_openers_shrink(expr, i + 1, j);
    }
}

proof fn lemma_settled_shrinks(open: Seq<char>)
    ensures
        settled(open).len() <= open.len(),
    decreases open.len(),
{
    if open.len() > 0 && open.last() == ':' {
        lemma_settled_shrinks(open.drop_last());
    }
}

proof fn lemma_rest_nests_by_its_openers(expr: Seq<char>, i: int, so_far: NestingView)
    requires
        0 <= i <= expr.len(),
        so_far.open.len() <= so_far.deepest,
    ensures
        read_from(expr, i, so_far).deepest <= so_far.deepest + openers_from(expr, i),
        read_from(expr, i, so_far).marks <= so_far.marks + expr.len() - i,
    decreases expr.len() - i,
{
    if i < expr.len() {
        let (mark, end) = mark_at(expr, i, so_far.regular);
        if i < end <= expr.len() {
            let next = so_far.read(mark, expr[i]);
            lemma_mark_opens(expr, i, so_far.regular);
            lemma_settled_shrinks(so_far.open);
            lemma_openers_shrink(expr, i + 1, end);
            lemma_rest_nests_by_its_openers(expr, end, next);
        }
    }
}

/// An expression nests at most as deeply as it has opening brackets and question marks,
/// and has no more marks than characters.
pub proof fn nesting_is_bounded_by_openers(expr: Seq<char>)
    ensures
        nesting(expr).deepest <= openers_from(expr, 0),
        nesting(expr).marks <= expr.len(),
{
    lemma_rest_nests_by_its_openers(expr, 0, unread());
}

} // verus!
