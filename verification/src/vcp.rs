//! Setting codes, the text forms in which codes and values are handed to
//! the control utility, and the reply to a value query.

use crate::text::{
    all_digits, chars_of, decimal, decimal_u32, find, is_digit, find_slice, lemma_span, lines, parse_decimal, push_char, span,
    span_len, split_first_line, trim, trim_slice, Stop,
};
use vstd::prelude::*;
use vstd::slice::*;

verus! {

/// The digit that stands for `n` in lower-case hexadecimal.
pub open spec fn digit_char(n: int) -> char {
    if n == 0 {
        '0'
    } else if n == 1 {
        '1'
    } else if n == 2 {
        '2'
    } else if n == 3 {
        '3'
    } else if n == 4 {
        '4'
    } else if n == 5 {
        '5'
    } else if n == 6 {
        '6'
    } else if n == 7 {
        '7'
    } else if n == 8 {
        '8'
    } else if n == 9 {
        '9'
    } else if n == 10 {
        'a'
    } else if n == 11 {
        'b'
    } else if n == 12 {
        'c'
    } else if n == 13 {
        'd'
    } else if n == 14 {
        'e'
    } else {
        'f'
    }
}

/// The text of a setting code: `0x` and two lower-case hexadecimal digits.
pub open spec fn code_text(code: u8) -> Seq<char> {
    seq!['0', 'x', digit_char(code as int / 16), digit_char(code as int % 16)]
}

/// The decimal numeral of `n`, without leading zeros.
pub open spec fn decimal_text(n: nat) -> Seq<char>
    decreases n,
{
    if n < 10 {
        seq![digit_char(n as int)]
    } else {
        decimal_text(n / 10).push(digit_char(n as int % 10))
    }
}

/// The codes of the settings whose values are fetched for every display,
/// in the order in which they are asked for.
pub open spec fn prefetch_codes() -> Seq<u8> {
    seq![0x10u8, 0x12u8, 0x16u8, 0x18u8, 0x1au8]
}

/// The text that announces the value in a reply to a value query.
pub open spec fn value_marker() -> Seq<char> {
    "current value ="@
}

/// The value that one line of a reply states: the numeral that follows the
/// first marker of the line, white space between them passed over. None
/// if the line has no marker, if no digit follows it, or if the numeral
/// does not fit a `u32`.
pub open spec fn line_value(line: Seq<char>) -> Option<u32> {
    match find(line, value_marker()) {
        Some(at) => {
            let tail = trim(line.skip(at + value_marker().len()));
            decimal_u32(tail.take(span(tail, Stop::NonDigit) as int))
        },
        None => None,
    }
}

/// The value of the first of the lines `ls` that states one.
pub open spec fn first_value(ls: Seq<Seq<char>>) -> Option<u32>
    decreases ls.len(),
{
    if ls.len() == 0 {
        None
    } else {
        match line_value(ls[0]) {
            Some(v) => Some(v),
            None => first_value(ls.drop_first()),
        }
    }
}

/// The value that the reply `text` states: that of its first line that
/// states one.
pub open spec fn current_value(text: Seq<char>) -> Option<u32> {
    first_value(lines(text))
}

/// The numeral written for a value reads back as that value.
pub proof fn lemma_decimal_round_trip(n: nat)
    ensures
        decimal_text(n).len() > 0,
        all_digits(decimal_text(n)),
        decimal(decimal_text(n)) == n,
        n <= u32::MAX ==> decimal_u32(decimal_text(n)) == Some(n as u32),
    decreases n,
{
    if n < 10 {
        let s = decimal_text(n);
        assert(s.drop_last() =~= Seq::<char>::empty());
        assert(decimal(s.drop_last()) == 0);
    } else {
        lemma_decimal_round_trip(n / 10);
        let s = decimal_text(n);
        let front = decimal_text(n / 10);
        assert(s.drop_last() =~= front);
        assert(s.last() == digit_char(n as int % 10));
        assert forall|i: int| 0 <= i < s.len() implies is_digit(#[trigger] s[i]) by {
            if i < front.len() {
                assert(s[i] == front[i]);
            }
        }
    }
}

/// Executable form of [`digit_char`].
fn digit(n: u8) -> (c: char)
    requires
        n < 16,
    ensures
        c == digit_char(n as int),
{
    match n {
        0 => '0',
        1 => '1',
        2 => '2',
        3 => '3',
        4 => '4',
        5 => '5',
        6 => '6',
        7 => '7',
        8 => '8',
        9 => '9',
        10 => 'a',
        11 => 'b',
        12 => 'c',
        13 => 'd',
        14 => 'e',
        _ => 'f',
    }
}

/// The text of a setting code, as the control utility takes it.
pub fn format_code(code: u8) -> (s: String)
    ensures
        s@ == code_text(code),
{
    let mut s = String::new();
    push_char(&mut s, '0');
    push_char(&mut s, 'x');
    push_char(&mut s, digit(code / 16));
    push_char(&mut s, digit(code % 16));
    assert(s@ =~= code_text(code));
    s
}

/// Appends the decimal numeral of `n` to `s`.
fn push_decimal(s: &mut String, n: u32)
    ensures
        final(s)@ == old(s)@ + decimal_text(n as nat),
    decreases n,
{
    if n >= 10 {
        push_decimal(s, n / 10);
    }
    push_char(s, digit((n % 10) as u8));
    assert(s@ =~= old(s)@ + decimal_text(n as nat));
}

/// The decimal numeral of a setting value, as the control utility takes it.
pub fn format_value(value: u32) -> (s: String)
    ensures
        s@ == decimal_text(value as nat),
{
    let mut s = String::new();
    push_decimal(&mut s, value);
    assert(s@ =~= decimal_text(value as nat));
    s
}

/// The codes of the settings whose values are fetched for every display,
/// in the order in which they are asked for.
pub fn prefetch_code_list() -> (codes: Vec<u8>)
    ensures
        codes@ == prefetch_codes(),
{
    let mut codes: Vec<u8> = Vec::new();
    codes.push(0x10);
    codes.push(0x12);
    codes.push(0x16);
    codes.push(0x18);
    codes.push(0x1a);
    assert(codes@ =~= prefetch_codes());
    codes
}

/// The value that one line of a reply states.
fn parse_line_value(line: &[char], marker: &[char]) -> (r: Option<u32>)
    requires
        marker@ == value_marker(),
    ensures
        r == line_value(line@),
{
    let end = line.len();
    match find_slice(line, marker) {
        Some(at) => {
            let tail = trim_slice(slice_subrange(line, at + marker.len(), end));
            let n = span_len(tail, Stop::NonDigit);
            parse_decimal(slice_subrange(tail, 0, n))
        },
        None => None,
    }
}

/// Reads the reply to a query for the value of one setting.
///
/// The reply is searched line by line for the marker `current value =`;
/// the first line in which a numeral that fits a `u32` follows the marker
/// gives the value. A reply without such a line has no value, which is
/// not an error. The reply to a query names one setting only, so
/// `expected_code`, the setting asked for, does not enter the result.
pub fn parse_current_value(text: &str, expected_code: u8) -> (r: Option<u32>)
    ensures
        r == current_value(text@),
{
    let chars = chars_of(text);
    let marker = chars_of("current value =");
    let mut rest: &[char] = chars.as_slice();
    while rest.len() > 0
        invariant
            marker@ == value_marker(),
            first_value(lines(rest@)) == current_value(text@),
        decreases rest@.len(),
    {
        let (line, tail) = split_first_line(rest);
        proof {
            lemma_span(rest@, Stop::LineFeed);
            assert(lines(rest@).drop_first() =~= lines(tail@));
        }
        match parse_line_value(line, marker.as_slice()) {
            Some(v) => {
                return Some(v);
            },
            None => {},
        }
        rest = tail;
    }
    None
}

} // verus!
