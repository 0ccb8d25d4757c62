//! Character-level text primitives shared by the parsers.
//!
//! Text is modelled as `Seq<char>`. The executable functions work on
//! `&[char]` and return sub-slices, so that every parser above them is a
//! composition of slice operations whose meaning is a spec function here.

use vstd::prelude::*;
use vstd::slice::*;

verus! {

/// Whether `c` has the Unicode `White_Space` property.
pub open spec fn is_space(c: char) -> bool {
    let u = c as u32;
    (0x09 <= u <= 0x0d) || u == 0x20 || u == 0x85 || u == 0xa0 || u == 0x1680 || (0x2000 <= u
        <= 0x200a) || u == 0x2028 || u == 0x2029 || u == 0x202f || u == 0x205f || u == 0x3000
}

/// The text of an optional string.
pub open spec fn opt_text(o: Option<String>) -> Option<Seq<char>> {
    match o {
        Some(s) => Some(s@),
        None => None,
    }
}

/// Whether `c` is one of the ASCII decimal digits.
pub open spec fn is_digit(c: char) -> bool {
    '0' <= c <= '9'
}

/// A class of characters at which a scan stops.
#[derive(Clone, Copy, Debug)]
pub enum Stop {
    /// The line feed character.
    LineFeed,
    /// Any white space.
    Space,
    /// Anything but a decimal digit.
    NonDigit,
}

/// Whether a scan that stops at `at` stops in front of `c`.
pub open spec fn stops(at: Stop, c: char) -> bool {
    match at {
        Stop::LineFeed => c == '\n',
        Stop::Space => is_space(c),
        Stop::NonDigit => !is_digit(c),
    }
}

/// Length of the longest prefix of `s` that holds no character of `at`.
pub open spec fn span(s: Seq<char>, at: Stop) -> nat
    decreases s.len(),
{
    if s.len() == 0 || stops(at, s[0]) {
        0
    } else {
        1 + span(s.drop_first(), at)
    }
}

/// `s` without its leading white space.
pub open spec fn trim_start(s: Seq<char>) -> Seq<char>
    decreases s.len(),
{
    if s.len() > 0 && is_space(s[0]) {
        trim_start(s.drop_first())
    } else {
        s
    }
}

/// `s` without its trailing white space.
pub open spec fn trim_end(s: Seq<char>) -> Seq<char>
    decreases s.len(),
{
    if s.len() > 0 && is_space(s.last()) {
        trim_end(s.drop_last())
    } else {
        s
    }
}

/// `s` without leading and trailing white space.
pub open spec fn trim(s: Seq<char>) -> Seq<char> {
    trim_end(trim_start(s))
}

/// The first white-space-separated word of `s`, empty if there is none.
pub open spec fn first_word(s: Seq<char>) -> Seq<char> {
    let t = trim_start(s);
    t.take(span(t, Stop::Space) as int)
}

/// The first line of `s`, without its line feed.
pub open spec fn first_line(s: Seq<char>) -> Seq<char> {
    s.take(span(s, Stop::LineFeed) as int)
}

/// What follows the first line of `s` and its line feed.
pub open spec fn after_first_line(s: Seq<char>) -> Seq<char> {
    let n = span(s, Stop::LineFeed);
    if n < s.len() {
        s.skip(n as int + 1)
    } else {
        Seq::empty()
    }
}

/// The lines of `s`: the pieces between line feeds. A line feed at the very
/// end opens no further line, and the empty text has no line.
pub open spec fn lines(s: Seq<char>) -> Seq<Seq<char>>
    decreases s.len(),
{
    if s.len() == 0 {
        Seq::empty()
    } else {
        seq![first_line(s)] + lines(after_first_line(s))
    }
}

/// Index of the first occurrence of `needle` in `hay` at or after `from`.
pub open spec fn find_from(hay: Seq<char>, needle: Seq<char>, from: int) -> Option<int>
    decreases hay.len() - from + 1,
{
    if from < 0 || from + needle.len() > hay.len() {
        None
    } else if hay.subrange(from, from + needle.len()) == needle {
        Some(from)
    } else {
        find_from(hay, needle, from + 1)
    }
}

/// Index of the first occurrence of `needle` in `hay`.
pub open spec fn find(hay: Seq<char>, needle: Seq<char>) -> Option<int> {
    find_from(hay, needle, 0)
}

/// Value of the decimal digit `c`.
pub open spec fn digit_value(c: char) -> nat {
    (c as u32 - '0' as u32) as nat
}

/// Value of `s` read as a decimal numeral.
pub open spec fn decimal(s: Seq<char>) -> nat
    decreases s.len(),
{
    if s.len() == 0 {
        0
    } else {
        decimal(s.drop_last()) * 10 + digit_value(s.last())
    }
}

/// Whether every character of `s` is a decimal digit.
pub open spec fn all_digits(s: Seq<char>) -> bool {
    forall|i: int| 0 <= i < s.len() ==> is_digit(#[trigger] s[i])
}

/// The `u32` that the numeral `s` denotes: none if `s` is empty, holds
/// anything but digits, or denotes more than `u32::MAX`.
pub open spec fn decimal_u32(s: Seq<char>) -> Option<u32> {
    if s.len() > 0 && all_digits(s) && decimal(s) <= u32::MAX {
        Some(decimal(s) as u32)
    } else {
        None
    }
}

/// A numeral denotes at least what any of its prefixes denotes.
pub proof fn lemma_decimal_monotonic(s: Seq<char>, n: int)
    requires
        0 <= n <= s.len(),
    ensures
        decimal(s.take(n)) <= decimal(s),
    decreases s.len(),
{
    if n < s.len() {
        lemma_decimal_monotonic(s.drop_last(), n);
        assert(s.drop_last().take(n) == s.take(n));
    } else {
        assert(s.take(n) == s);
    }
}

/// The span of a text is within the text, no character inside it stops the
/// scan, and the character after it, if there is one, does.
pub proof fn lemma_span(s: Seq<char>, at: Stop)
    ensures
        span(s, at) <= s.len(),
        forall|i: int| 0 <= i < span(s, at) ==> !stops(at, #[trigger] s[i]),
        span(s, at) < s.len() ==> stops(at, s[span(s, at) as int]),
    decreases s.len(),
{
    if s.len() == 0 || stops(at, s[0]) {
    } else {
        let t = s.drop_first();
        lemma_span(t, at);
        assert forall|i: int| 0 <= i < span(s, at) implies !stops(at, #[trigger] s[i]) by {
            if i > 0 {
                assert(s[i] == t[i - 1]);
            }
        }
        if span(s, at) < s.len() {
            assert(s[span(s, at) as int] == t[span(t, at) as int]);
        }
    }
}

/// Executable test for the Unicode `White_Space` property.
pub fn char_is_space(c: char) -> (r: bool)
    ensures
        r == is_space(c),
{
    let u: u32 = c as u32;
    (0x09 <= u && u <= 0x0d) || u == 0x20 || u == 0x85 || u == 0xa0 || u == 0x1680 || (0x2000 <= u
        && u <= 0x200a) || u == 0x2028 || u == 0x2029 || u == 0x202f || u == 0x205f || u == 0x3000
}

/// Executable form of [`stops`].
pub fn char_stops(at: Stop, c: char) -> (r: bool)
    ensures
        r == stops(at, c),
{
    match at {
        Stop::LineFeed => c == '\n',
        Stop::Space => char_is_space(c),
        Stop::NonDigit => !('0' <= c && c <= '9'),
    }
}

/// Length of the longest prefix of `s` that holds no character of `at`.
pub fn span_len(s: &[char], at: Stop) -> (n: usize)
    ensures
        n == span(s@, at),
        n <= s@.len(),
{
    let mut i: usize = 0;
    proof {
        assert(s@.skip(0) == s@);
    }
    while i < s.len() && !char_stops(at, s[i])
        invariant
            i <= s.len(),
            i + span(s@.skip(i as int), at) == span(s@, at),
        decreases s.len() - i,
    {
        proof {
            assert(s@.skip(i as int).drop_first() == s@.skip(i + 1));
        }
        i += 1;
    }
    i
}

/// The characters of `s`, in order.
pub fn chars_of(s: &str) -> (v: Vec<char>)
    ensures
        v@ == s@,
{
    let mut v: Vec<char> = Vec::new();
    for c in it: s.chars()
        invariant
            v@ == it.seq().take(it.index() as int),
    {
        v.push(c);
    }
    v
}

/// Whether `a` and `b` hold the same text.
pub fn same_text(a: &str, b: &str) -> (r: bool)
    ensures
        r == (a@ == b@),
{
    a.to_owned() == b.to_owned()
}

/// Appends `c` to `s`: std's `String::push`, which adds the character at the
/// end and leaves the rest as it was.
#[verifier::external_body]
pub(crate) fn push_char(s: &mut String, c: char)
    ensures
        final(s)@ == old(s)@.push(c),
{
    s.push(c);
}

/// Appends the characters of `tail` to `s`.
pub fn push_chars(s: &mut String, tail: &[char])
    ensures
        final(s)@ == old(s)@ + tail@,
{
    let mut i: usize = 0;
    while i < tail.len()
        invariant
            i <= tail.len(),
            s@ == old(s)@ + tail@.take(i as int),
        decreases tail.len() - i,
    {
        push_char(s, tail[i]);
        proof {
            assert(tail@.take(i + 1) == tail@.take(i as int).push(tail@[i as int]));
        }
        i += 1;
    }
    proof {
        assert(tail@.take(i as int) == tail@);
    }
}

/// A string that holds the characters of `s`.
pub fn string_of(s: &[char]) -> (r: String)
    ensures
        r@ == s@,
{
    let mut r = String::new();
    push_chars(&mut r, s);
    r
}

/// `s` without its leading white space.
pub fn trim_start_slice(s: &[char]) -> (r: &[char])
    ensures
        r@ == trim_start(s@),
{
    let mut i: usize = 0;
    proof {
        assert(s@.skip(0) == s@);
    }
    while i < s.len() && char_is_space(s[i])
        invariant
            i <= s.len(),
            trim_start(s@.skip(i as int)) == trim_start(s@),
        decreases s.len() - i,
    {
        proof {
            assert(s@.skip(i as int).drop_first() == s@.skip(i + 1));
        }
        i += 1;
    }
    slice_subrange(s, i, s.len())
}

/// `s` without leading and trailing white space.
pub fn trim_slice(s: &[char]) -> (r: &[char])
    ensures
        r@ == trim(s@),
{
    let t = trim_start_slice(s);
    let mut n: usize = t.len();
    proof {
        assert(t@.take(n as int) == t@);
    }
    while n > 0 && char_is_space(t[n - 1])
        invariant
            n <= t.len(),
            trim_end(t@.take(n as int)) == trim_end(t@),
        decreases n,
    {
        proof {
            assert(t@.take(n as int).drop_last() == t@.take(n - 1));
        }
        n -= 1;
    }
    slice_subrange(t, 0, n)
}

/// The first white-space-separated word of `s`, empty if there is none.
pub fn first_word_slice(s: &[char]) -> (r: &[char])
    ensures
        r@ == first_word(s@),
{
    let t = trim_start_slice(s);
    let n = span_len(t, Stop::Space);
    slice_subrange(t, 0, n)
}

/// The first line of `s`, and what follows it and its line feed.
pub fn split_first_line(s: &[char]) -> (r: (&[char], &[char]))
    ensures
        r.0@ == first_line(s@),
        r.1@ == after_first_line(s@),
{
    let n = span_len(s, Stop::LineFeed);
    let line = slice_subrange(s, 0, n);
    if n < s.len() {
        (line, slice_subrange(s, n + 1, s.len()))
    } else {
        (line, slice_subrange(s, n, n))
    }
}

/// What follows the prefix `p` in `s`, if `s` starts with `p`.
pub fn strip_prefix<'a>(s: &'a [char], p: &[char]) -> (r: Option<&'a [char]>)
    ensures
        match r {
            Some(t) => p@.is_prefix_of(s@) && t@ == s@.skip(p@.len() as int),
            None => !p@.is_prefix_of(s@),
        },
{
    if p.len() > s.len() {
        return None;
    }
    let mut i: usize = 0;
    while i < p.len()
        invariant
            i <= p.len() <= s.len(),
            s@.take(i as int) == p@.take(i as int),
        decreases p.len() - i,
    {
        if s[i] != p[i] {
            proof {
                assert(s@.subrange(0, p@.len() as int)[i as int] != p@[i as int]);
            }
            return None;
        }
        proof {
            assert(s@.take(i + 1) == s@.take(i as int).push(s@[i as int]));
            assert(p@.take(i + 1) == p@.take(i as int).push(p@[i as int]));
        }
        i += 1;
    }
    proof {
        assert(p@.take(i as int) == p@);
    }
    Some(slice_subrange(s, p.len(), s.len()))
}

/// Index of the first occurrence of `needle` in `hay`.
pub fn find_slice(hay: &[char], needle: &[char]) -> (r: Option<usize>)
    ensures
        match r {
            Some(i) => find(hay@, needle@) == Some(i as int) && i + needle@.len() <= hay@.len(),
            None => find(hay@, needle@) is None,
        },
{
    if needle.len() > hay.len() {
        return None;
    }
    let last: usize = hay.len() - needle.len();
    let mut i: usize = 0;
    while i <= last
        invariant
            last + needle@.len() == hay@.len(),
            hay@.len() <= usize::MAX,
            i <= last + 1,
            find_from(hay@, needle@, i as int) == find(hay@, needle@),
        decreases last + 1 - i,
    {
        let window = slice_subrange(hay, i, i + needle.len());
        proof {
            assert(window@.subrange(0, needle@.len() as int) == window@);
        }
        if strip_prefix(window, needle).is_some() {
            return Some(i);
        }
        i += 1;
    }
    None
}

/// Reads `s` as a decimal numeral that fits a `u32`.
pub fn parse_decimal(s: &[char]) -> (r: Option<u32>)
    ensures
        r == decimal_u32(s@),
{
    if s.len() == 0 {
        return None;
    }
    let mut acc: u64 = 0;
    let mut i: usize = 0;
    while i < s.len()
        invariant
            i <= s.len(),
            all_digits(s@.take(i as int)),
            acc == decimal(s@.take(i as int)),
            acc <= u32::MAX,
        decreases s.len() - i,
    {
        let c = s[i];
        if !('0' <= c && c <= '9') {
            return None;
        }
        let d: u64 = (c as u32 - '0' as u32) as u64;
        proof {
            assert(s@.take(i + 1).drop_last() == s@.take(i as int));
            assert(s@.take(i + 1).last() == c);
        }
        acc = acc * 10 + d;
        if acc > 0xffff_ffff {
            proof {
                lemma_decimal_monotonic(s@, i + 1);
            }
            return None;
        }
        proof {
            assert forall|j: int| 0 <= j < i + 1 implies is_digit(#[trigger] s@.take(i + 1)[j]) by {
                if j < i {
                    assert(s@.take(i + 1)[j] == s@.take(i as int)[j]);
                }
            }
        }
        i += 1;
    }
    proof {
        assert(s@.take(i as int) == s@);
    }
    Some(acc as u32)
}

} // verus!
