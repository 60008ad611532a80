//! Colors as CSS hex strings.

use crate::edits::{edit_view, ConfigEdit, EditView};
use vstd::prelude::*;
use vstd::string::*;
use vstd::utf8::*;

verus! {

/// The value of a hexadecimal digit.
pub open spec fn hex_value(b: u8) -> Option<u8> {
    if 48 <= b <= 57 {
        Some((b - 48) as u8)
    } else if 97 <= b <= 102 {
        Some((b - 87) as u8)
    } else if 65 <= b <= 70 {
        Some((b - 55) as u8)
    } else {
        None
    }
}

/// The value of two characters that are read as a number in base sixteen: two
/// digits, or a plus sign and a digit.
pub open spec fn pair_value(a: u8, b: u8) -> Option<u8> {
    match hex_value(b) {
        None => None,
        Some(low) => if a == 43 {
            Some(low)
        } else {
            match hex_value(a) {
                Some(high) => Some((high * 16 + low) as u8),
                None => None,
            }
        },
    }
}

/// A text, in bytes, without the `#` at its start.
pub open spec fn without_hash(bytes: Seq<u8>) -> Seq<u8> {
    if bytes.len() > 0 && bytes[0] == 35 {
        bytes.drop_first()
    } else {
        bytes
    }
}

/// The color that a text stands for, in bytes: six characters of two per
/// component, after an optional `#`.
pub open spec fn color_of(bytes: Seq<u8>) -> Option<[u8; 3]> {
    let s = without_hash(bytes);
    if s.len() != 6 {
        None
    } else {
        match (pair_value(s[0], s[1]), pair_value(s[2], s[3]), pair_value(s[4], s[5])) {
            (Some(r), Some(g), Some(b)) => Some([r, g, b]),
            _ => None,
        }
    }
}

/// Whether a character starts at the byte.
pub open spec fn starts_char(b: u8) -> bool {
    !(128 <= b < 192)
}

/// Whether the components of a text, in bytes, can be read one after the other
/// without cutting through a character.
pub open spec fn cuts_no_char(bytes: Seq<u8>) -> bool {
    let s = without_hash(bytes);
    s.len() == 6 ==> starts_char(s[2]) && (pair_value(s[0], s[1]) is Some ==> starts_char(s[4]))
}

/// The value of a hexadecimal digit.
pub(crate) fn digit_value(b: u8) -> (r: Option<u8>)
    ensures
        r == hex_value(b),
{
    if 48 <= b && b <= 57 {
        Some(b - 48)
    } else if 97 <= b && b <= 102 {
        Some(b - 87)
    } else if 65 <= b && b <= 70 {
        Some(b - 55)
    } else {
        None
    }
}

fn read_pair(a: u8, b: u8) -> (r: Option<u8>)
    ensures
        r == pair_value(a, b),
{
    match digit_value(b) {
        None => None,
        Some(low) => if a == 43 {
            Some(low)
        } else {
            match digit_value(a) {
                Some(high) => Some(high * 16 + low),
                None => None,
            }
        },
    }
}

/// Where the six characters start, if there are six bytes after an optional `#`.
fn component_start(bytes: &[u8]) -> (r: Option<usize>)
    ensures
        match r {
            Some(at) => at <= 1 && at + 6 == bytes@.len() && without_hash(bytes@) == bytes@.skip(at as int),
            None => without_hash(bytes@).len() != 6,
        },
{
    let n: usize = bytes.len();
    assert(bytes@.skip(0) =~= bytes@);
    assert(n > 0 ==> bytes@.skip(1) =~= bytes@.drop_first());
    if n == 7 && bytes[0] == 35 {
        Some(1)
    } else if n == 6 && bytes[0] != 35 {
        Some(0)
    } else {
        None
    }
}

/// Whether [`hex_to_rgb`] can read the text: none of its components cuts through
/// a character.
pub fn hex_is_readable(hex: &str) -> (r: bool)
    ensures
        r == cuts_no_char(encode_utf8(hex@)),
{
    let bytes = hex.as_bytes();
    match component_start(bytes) {
        None => true,
        Some(at) => {
            assert(forall|i: int| 0 <= i < 6 ==> bytes@.skip(at as int)[i] == bytes@[at + i]);
            let third: u8 = bytes[at + 2];
            let fifth: u8 = bytes[at + 4];
            if 128 <= third && third < 192 {
                return false;
            }
            read_pair(bytes[at], bytes[at + 1]).is_none() || !(128 <= fifth && fifth < 192)
        },
    }
}

/// The color that a text stands for: `#rrggbb` or `rrggbb`.
pub fn hex_to_rgb(hex: &str) -> (r: Option<[u8; 3]>)
    requires
        cuts_no_char(encode_utf8(hex@)),
    ensures
        r == color_of(encode_utf8(hex@)),
{
    let bytes = hex.as_bytes();
    let at: usize = match component_start(bytes) {
        None => {
            return None;
        },
        Some(at) => at,
    };
    assert(forall|i: int| 0 <= i < 6 ==> bytes@.skip(at as int)[i] == bytes@[at + i]);
    let r: u8 = match read_pair(bytes[at], bytes[at + 1]) {
        Some(r) => r,
        None => {
            return None;
        },
    };
    let g: u8 = match read_pair(bytes[at + 2], bytes[at + 3]) {
        Some(g) => g,
        None => {
            return None;
        },
    };
    let b: u8 = match read_pair(bytes[at + 4], bytes[at + 5]) {
        Some(b) => b,
        None => {
            return None;
        },
    };
    Some([r, g, b])
}

/// The lower-case hexadecimal digit with value `v`.
pub open spec fn hex_char(v: u8) -> char {
    if v < 10 {
        (48 + v) as char
    } else {
        (87 + v) as char
    }
}

/// The hex string of a color.
pub open spec fn color_text(rgb: [u8; 3]) -> Seq<char> {
    seq![
        '#',
        hex_char(rgb[0] / 16),
        hex_char(rgb[0] % 16),
        hex_char(rgb[1] / 16),
        hex_char(rgb[1] % 16),
        hex_char(rgb[2] / 16),
        hex_char(rgb[2] % 16),
    ]
}

fn push_hex_digit(out: &mut String, v: u8)
    requires
        v < 16,
    ensures
        final(out)@ == old(out)@.push(hex_char(v)),
{
    if v < 10 {
        out.push((48u8 + v) as char);
    } else {
        out.push((87u8 + v) as char);
    }
}

/// The hex string of a color, in lower case.
pub fn rgb_to_hex(rgb: [u8; 3]) -> (r: String)
    ensures
        r@ == color_text(rgb),
{
    let mut s = String::new();
    s.push('#');
    push_hex_digit(&mut s, rgb[0] / 16);
    push_hex_digit(&mut s, rgb[0] % 16);
    push_hex_digit(&mut s, rgb[1] / 16);
    push_hex_digit(&mut s, rgb[1] % 16);
    push_hex_digit(&mut s, rgb[2] / 16);
    push_hex_digit(&mut s, rgb[2] % 16);
    assert(s@ =~= color_text(rgb));
    s
}

/// A text of ASCII characters can always be read.
pub proof fn ascii_text_is_readable(text: Seq<char>)
    requires
        is_ascii_chars(text),
    ensures
        cuts_no_char(encode_utf8(text)),
{
    is_ascii_chars_encode_utf8(text);
    let bytes = encode_utf8(text);
    assert forall|i: int| 0 <= i < bytes.len() implies starts_char(#[trigger] bytes[i]) by {
        assert(text[i] as u8 == bytes[i]);
    }
}

/// The color that a picker shows: black where nothing is stored, or nothing that
/// stands for a color.
pub open spec fn picker_color(stored: Option<Seq<char>>) -> [u8; 3] {
    match stored {
        Some(hex) => match color_of(encode_utf8(hex)) {
            Some(rgb) => rgb,
            None => [0, 0, 0],
        },
        None => [0, 0, 0],
    }
}

/// The color that a picker shows.
pub fn shown_color(stored: Option<&str>) -> (r: [u8; 3])
    requires
        stored matches Some(hex) ==> cuts_no_char(encode_utf8(hex@)),
    ensures
        r == picker_color(
            match stored {
                Some(hex) => Some(hex@),
                None => None,
            },
        ),
{
    match stored {
        Some(hex) => match hex_to_rgb(hex) {
            Some(rgb) => rgb,
            None => [0, 0, 0],
        },
        None => [0, 0, 0],
    }
}

/// The edit that stores a color, if the user picked one.
pub fn color_edit(path: &str, picked: Option<[u8; 3]>) -> (r: Option<ConfigEdit>)
    ensures
        edit_view(r) == match picked {
            Some(rgb) => Some(EditView::SetStr { path: path@, value: color_text(rgb) }),
            None => None,
        },
{
    match picked {
        Some(rgb) => Some(ConfigEdit::SetStr { path: path.to_owned(), value: rgb_to_hex(rgb) }),
        None => None,
    }
}

proof fn lemma_pair_of_digits(v: u8)
    ensures
        pair_value(hex_char(v / 16) as u8, hex_char(v % 16) as u8) == Some(v),
        '0' <= hex_char(v / 16) <= 'f',
        '0' <= hex_char(v % 16) <= 'f',
{
    let high = v / 16;
    let low = v % 16;
    assert(high < 16 && low < 16 && high * 16 + low == v);
}

/// A color that is written down is read back as it was.
pub proof fn color_survives_writing(rgb: [u8; 3])
    ensures
        cuts_no_char(encode_utf8(color_text(rgb))),
        color_of(encode_utf8(color_text(rgb))) == Some(rgb),
{
    let text = color_text(rgb);
    let bytes = encode_utf8(text);
    lemma_pair_of_digits(rgb[0]);
    lemma_pair_of_digits(rgb[1]);
    lemma_pair_of_digits(rgb[2]);
    assert(is_ascii_chars(text));
    is_ascii_chars_encode_utf8(text);
    assert(forall|i: int| 0 <= i < 7 ==> text[i] as u8 == bytes[i]);
    let s = without_hash(bytes);
    assert(s =~= bytes.drop_first());
    assert(forall|i: int| 0 <= i < 6 ==> s[i] == text[i + 1] as u8);
    let read = color_of(bytes)->0;
    assert(read@ =~= rgb@);
}

/// Whether a text is written as colors are: `#` and six lower-case digits.
pub open spec fn is_color_text(text: Seq<char>) -> bool {
    &&& text.len() == 7
    &&& text[0] == '#'
    &&& forall|i: int|
        1 <= i < 7 ==> '0' <= (#[trigger] text[i]) <= '9' || 'a' <= text[i] <= 'f'
}

proof fn lemma_digits_of_pair(a: char, b: char)
    requires
        '0' <= a <= '9' || 'a' <= a <= 'f',
        '0' <= b <= '9' || 'a' <= b <= 'f',
    ensures
        pair_value(a as u8, b as u8) matches Some(v) && hex_char(v / 16) == a && hex_char(v % 16)
            == b,
{
    let high = hex_value(a as u8)->0;
    let low = hex_value(b as u8)->0;
    let v = (high * 16 + low) as u8;
    assert(high < 16 && low < 16);
    assert(v / 16 == high && v % 16 == low);
}

/// A text that is written as colors are stands for a color, and that color is
/// written as the text.
pub proof fn color_text_survives_reading(text: Seq<char>)
    requires
        is_color_text(text),
    ensures
        cuts_no_char(encode_utf8(text)),
        color_of(encode_utf8(text)) matches Some(rgb) && color_text(rgb) == text,
{
    let bytes = encode_utf8(text);
    assert(is_ascii_chars(text));
    is_ascii_chars_encode_utf8(text);
    assert(forall|i: int| 0 <= i < 7 ==> text[i] as u8 == bytes[i]);
    let s = without_hash(bytes);
    assert(s =~= bytes.drop_first());
    assert(forall|i: int| 0 <= i < 6 ==> s[i] == text[i + 1] as u8);
    lemma_digits_of_pair(text[1], text[2]);
    lemma_digits_of_pair(text[3], text[4]);
    lemma_digits_of_pair(text[5], text[6]);
    let rgb = color_of(bytes)->0;
    assert(color_text(rgb) =~= text);
}

/// A hexadecimal digit is a decimal digit, or one of six letters in either case, and its
/// value is its place among them.
pub proof fn hex_digits_count_from_zero_to_fifteen(v: u8)
    ensures
        v < 10 ==> hex_value((48 + v) as u8) == Some(v),
        10 <= v < 16 ==> hex_value((87 + v) as u8) == Some(v) && hex_value((55 + v) as u8) == Some(
            v,
        ),
        !('0' as u8 <= v <= '9' as u8) && !('a' as u8 <= v <= 'f' as u8) && !('A' as u8 <= v
            <= 'F' as u8) ==> hex_value(v) is None,
{
}

/// A color reads the same with and without its `#`.
pub proof fn hash_is_optional(bytes: Seq<u8>)
    requires
        bytes.len() > 0 ==> bytes[0] != '#' as u8,
    ensures
        color_of(seq!['#' as u8] + bytes) == color_of(bytes),
        cuts_no_char(seq!['#' as u8] + bytes) == cuts_no_char(bytes),
{
    let marked = seq!['#' as u8] + bytes;
    assert(marked.drop_first() =~= bytes);
    assert(without_hash(marked) == bytes);
}

/// Six hexadecimal digits, in either case, are the components of a color: two digits each,
/// the higher one first. Anything but six characters behind the `#` is no color, and nor
/// is anything whose components end in another character.
pub proof fn two_digits_make_a_component(bytes: Seq<u8>, i: int)
    requires
        bytes.len() > 0 ==> bytes[0] != '#' as u8,
    ensures
        bytes.len() != 6 ==> color_of(bytes) is None,
        bytes.len() == 6 && 0 <= i < 3 && hex_value(bytes[2 * i + 1]) is None ==> color_of(
            bytes,
        ) is None,
        bytes.len() == 6 && 0 <= i < 3 && hex_value(bytes[2 * i]) is None && bytes[2 * i]
            != '+' as u8 ==> color_of(bytes) is None,
        bytes.len() == 6 && (forall|k: int| 0 <= k < 6 ==> hex_value(#[trigger] bytes[k]) is Some)
            && 0 <= i < 3 ==> (color_of(bytes) matches Some(rgb) && rgb[i] == hex_value(
            bytes[2 * i],
        )->0 * 16 + hex_value(bytes[2 * i + 1])->0),
{
    assert(without_hash(bytes) == bytes);
    if bytes.len() == 6 && (forall|k: int| 0 <= k < 6 ==> hex_value(#[trigger] bytes[k]) is Some)
        && 0 <= i < 3 {
        assert(hex_value(bytes[0]) is Some && hex_value(bytes[1]) is Some && hex_value(
            bytes[2],
        ) is Some);
        assert(hex_value(bytes[3]) is Some && hex_value(bytes[4]) is Some && hex_value(
            bytes[5],
        ) is Some);
    }
}

/// A picker shows the stored color, and black where there is none.
pub proof fn picker_shows_the_stored_color(hex: Seq<char>)
    ensures
        color_of(encode_utf8(hex)) matches Some(rgb) ==> picker_color(Some(hex)) == rgb,
        color_of(encode_utf8(hex)) is None ==> picker_color(Some(hex)) == [0u8, 0u8, 0u8],
        picker_color(None) == [0u8, 0u8, 0u8],
{
}

/// A text can be read unless it has six bytes behind the `#` and a component begins inside
/// a character: the second one, or the third one where the first is a number.
pub proof fn only_cut_characters_are_unreadable(bytes: Seq<u8>)
    requires
        bytes.len() > 0 ==> bytes[0] != '#' as u8,
    ensures
        bytes.len() != 6 ==> cuts_no_char(bytes),
        bytes.len() == 6 && !(128 <= bytes[2] < 192) && !(128 <= bytes[4] < 192) ==> cuts_no_char(
            bytes,
        ),
        bytes.len() == 6 && 128 <= bytes[2] < 192 ==> !cuts_no_char(bytes),
        bytes.len() == 6 && 128 <= bytes[4] < 192 && hex_value(bytes[0]) is Some && hex_value(
            bytes[1],
        ) is Some ==> !cuts_no_char(bytes),
        bytes.len() == 6 && !(128 <= bytes[2] < 192) && hex_value(bytes[1]) is None
            ==> cuts_no_char(bytes),
{
    assert(without_hash(bytes) == bytes);
}

/// A plus sign before a single digit counts as nothing.
pub proof fn plus_sign_counts_as_nothing(bytes: Seq<u8>, i: int)
    requires
        bytes.len() == 6,
        0 <= i < 3,
        bytes[2 * i] == '+' as u8,
        color_of(bytes) is Some,
    ensures
        hex_value(bytes[2 * i + 1]) == Some(color_of(bytes)->0[i]),
{
    assert(without_hash(bytes) == bytes || bytes[0] == '#' as u8);
}

} // verus!
