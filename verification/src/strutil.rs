//! Small verified string helpers: conversion between `&str`, `Vec<char>` and
//! `String`, character-wise equality, and substring search.

use vstd::prelude::*;

verus! {

/// Relies on `alloc::string::String::push`: appends one character.
#[verifier::external_body]
pub fn push_char(s: &mut String, c: char)
    ensures
        final (s)@ == old(s)@.push(c),
{
    s.push(c)
}

/// Collects the characters of a string slice into a vector.
pub fn to_chars(s: &str) -> (r: Vec<char>)
    ensures
        r@ == s@,
{
    let n: usize = s.unicode_len();
    let mut r: Vec<char> = Vec::new();
    let mut i: usize = 0;
    while i < n
        invariant
            n == s@.len(),
            i <= n,
            r@ == s@.take(i as int),
        decreases n - i,
    {
        let c = s.get_char(i);
        r.push(c);
        i = i + 1;
        proof {
            assert(r@ =~= s@.take(i as int));
        }
    }
    proof {
        assert(r@ =~= s@);
    }
    r
}

/// Builds an owned string out of a character vector.
pub fn chars_to_string(v: &Vec<char>) -> (r: String)
    ensures
        r@ == v@,
{
    let mut r = String::new();
    let mut i: usize = 0;
    while i < v.len()
        invariant
            i <= v@.len(),
            r@ == v@.take(i as int),
        decreases v@.len() - i,
    {
        push_char(&mut r, v[i]);
        i = i + 1;
        proof {
            assert(r@ =~= v@.take(i as int));
        }
    }
    proof {
        assert(r@ =~= v@);
    }
    r
}

/// Copies a character vector.
pub fn clone_chars(v: &Vec<char>) -> (r: Vec<char>)
    ensures
        r@ == v@,
{
    let mut r: Vec<char> = Vec::new();
    let mut i: usize = 0;
    while i < v.len()
        invariant
            i <= v@.len(),
            r@ == v@.take(i as int),
        decreases v@.len() - i,
    {
        r.push(v[i]);
        proof {
            assert(r@ =~= v@.take(i + 1));
        }
        i = i + 1;
    }
    proof {
        assert(r@ =~= v@);
    }
    r
}

/// Compares a character vector against a string slice.
pub fn chars_eq_str(v: &Vec<char>, s: &str) -> (r: bool)
    ensures
        r == (v@ == s@),
{
    let n: usize = s.unicode_len();
    if v.len() != n {
        return false;
    }
    let mut i: usize = 0;
    while i < n
        invariant
            n == s@.len(),
            v@.len() == n,
            i <= n,
            forall|j: int| 0 <= j < i ==> v@[j] == s@[j],
        decreases n - i,
    {
        if v[i] != s.get_char(i) {
            return false;
        }
        i = i + 1;
    }
    proof {
        assert(v@ =~= s@);
    }
    true
}

/// Compares a string against a string slice, character by character.
pub fn str_equals(a: &str, b: &str) -> (r: bool)
    ensures
        r == (a@ == b@),
{
    let ac = to_chars(a);
    chars_eq_str(&ac, b)
}

/// Compares two character vectors.
pub fn chars_eq(a: &Vec<char>, b: &Vec<char>) -> (r: bool)
    ensures
        r == (a@ == b@),
{
    if a.len() != b.len() {
        return false;
    }
    let mut i: usize = 0;
    while i < a.len()
        invariant
            a@.len() == b@.len(),
            i <= a@.len(),
            forall|j: int| 0 <= j < i ==> a@[j] == b@[j],
        decreases a@.len() - i,
    {
        if a[i] != b[i] {
            return false;
        }
        i = i + 1;
    }
    proof {
        assert(a@ =~= b@);
    }
    true
}

/// One ASCII letter uppercased, everything else unchanged.
pub open spec fn upper_char(c: char) -> char {
    match c {
        'a' => 'A', 'b' => 'B', 'c' => 'C', 'd' => 'D', 'e' => 'E', 'f' => 'F',
        'g' => 'G', 'h' => 'H', 'i' => 'I', 'j' => 'J', 'k' => 'K', 'l' => 'L',
        'm' => 'M', 'n' => 'N', 'o' => 'O', 'p' => 'P', 'q' => 'Q', 'r' => 'R',
        's' => 'S', 't' => 'T', 'u' => 'U', 'v' => 'V', 'w' => 'W', 'x' => 'X',
        'y' => 'Y', 'z' => 'Z',
        _ => c,
    }
}

/// A whole sequence uppercased, ASCII-wise.
pub open spec fn upper_seq(s: Seq<char>) -> Seq<char> {
    s.map(|i: int, c: char| upper_char(c))
}

/// Uppercases one ASCII letter, leaving everything else unchanged.
pub fn ascii_upper_char(c: char) -> (r: char)
    ensures
        r == upper_char(c),
{
    match c {
        'a' => 'A', 'b' => 'B', 'c' => 'C', 'd' => 'D', 'e' => 'E', 'f' => 'F',
        'g' => 'G', 'h' => 'H', 'i' => 'I', 'j' => 'J', 'k' => 'K', 'l' => 'L',
        'm' => 'M', 'n' => 'N', 'o' => 'O', 'p' => 'P', 'q' => 'Q', 'r' => 'R',
        's' => 'S', 't' => 'T', 'u' => 'U', 'v' => 'V', 'w' => 'W', 'x' => 'X',
        'y' => 'Y', 'z' => 'Z',
        _ => c,
    }
}

/// Uppercases a whole character vector, ASCII-wise.
pub fn ascii_upper_chars(v: &Vec<char>) -> (r: Vec<char>)
    ensures
        r@ == upper_seq(v@),
        r@.len() == v@.len(),
{
    let mut out: Vec<char> = Vec::new();
    let mut i: usize = 0;
    while i < v.len()
        invariant
            i <= v@.len(),
            out@ == upper_seq(v@).take(i as int),
        decreases v@.len() - i,
    {
        out.push(ascii_upper_char(v[i]));
        i = i + 1;
        proof {
            assert(out@ =~= upper_seq(v@).take(i as int));
        }
    }
    proof {
        assert(out@ =~= upper_seq(v@));
    }
    out
}

/// Lowercases a whole character vector, ASCII-wise.
pub fn ascii_lower_chars(v: &Vec<char>) -> (r: Vec<char>)
    ensures
        r@ == crate::store::ascii_lower_seq(v@),
        r@.len() == v@.len(),
{
    let mut out: Vec<char> = Vec::new();
    let mut i: usize = 0;
    while i < v.len()
        invariant
            i <= v@.len(),
            out@ == crate::store::ascii_lower_seq(v@).take(i as int),
        decreases v@.len() - i,
    {
        out.push(crate::store::ascii_lower_char(v[i]));
        i = i + 1;
        proof {
            assert(out@ =~= crate::store::ascii_lower_seq(v@).take(i as int));
        }
    }
    proof {
        assert(out@ =~= crate::store::ascii_lower_seq(v@));
    }
    out
}

/// Whether a character is an ASCII letter or digit.
pub fn is_ascii_alnum(c: char) -> (r: bool)
    ensures
        r == ((0x41 <= c as int <= 0x5A) || (0x61 <= c as int <= 0x7A) || (0x30 <= c as int
            <= 0x39)),
{
    let u = c as u32;
    (0x41 <= u && u <= 0x5A) || (0x61 <= u && u <= 0x7A) || (0x30 <= u && u <= 0x39)
}

/// Whether a character is an ASCII capital letter.
pub fn is_ascii_upper_char(c: char) -> (r: bool)
    ensures
        r == (0x41 <= c as int <= 0x5A),
{
    let u = c as u32;
    0x41 <= u && u <= 0x5A
}

/// Whether a character is an ASCII digit.
pub fn is_ascii_digit_char(c: char) -> (r: bool)
    ensures
        r == (0x30 <= c as int <= 0x39),
{
    let u = c as u32;
    0x30 <= u && u <= 0x39
}

/// The numeric value of one decimal digit character.
pub fn digit_of(c: char) -> (r: u32)
    requires
        0x30 <= c as int <= 0x39,
    ensures
        r as int == c as int - 0x30,
        r <= 9,
{
    (c as u32) - 0x30
}

/// The run parsed so far, continued from position `i` with accumulator
/// `val`: `None` on a non-digit or on overflow.
pub open spec fn parse_u32_from(v: Seq<char>, i: int, to: int, val: u32) -> Option<u32>
    decreases to - i,
    when 0 <= i <= to <= v.len()
{
    if i >= to {
        Option::Some(val)
    } else if !(0x30 <= v[i] as int <= 0x39) {
        Option::None
    } else {
        let d = (v[i] as int - 0x30) as u32;
        if val > (u32::MAX - d) / 10 {
            Option::None
        } else {
            parse_u32_from(v, i + 1, to, (val * 10 + d) as u32)
        }
    }
}

/// The decimal number a digit run reads as: `None` when the run is
/// empty, holds a non-digit, or overflows.
pub open spec fn spec_parse_u32(v: Seq<char>, from: int, to: int) -> Option<u32> {
    if from >= to {
        Option::None
    } else {
        parse_u32_from(v, from, to, 0)
    }
}

/// Parses an unsigned decimal number out of a digit run; `None` when the
/// run is empty, holds a non-digit, or overflows.
pub fn parse_u32_chars(v: &Vec<char>, from: usize, to: usize) -> (r: Option<u32>)
    requires
        from <= to <= v@.len(),
    ensures
        r == spec_parse_u32(v@, from as int, to as int),
{
    if from >= to {
        return Option::None;
    }
    let mut val: u32 = 0;
    let mut i: usize = from;
    while i < to
        invariant
            from <= i <= to,
            to <= v@.len(),
            spec_parse_u32(v@, from as int, to as int) == parse_u32_from(
                v@,
                i as int,
                to as int,
                val,
            ),
        decreases to - i,
    {
        let c = v[i];
        if !is_ascii_digit_char(c) {
            return Option::None;
        }
        let d: u32 = digit_of(c);
        if val > (u32::MAX - d) / 10 {
            return Option::None;
        }
        val = val * 10 + d;
        i = i + 1;
    }
    Option::Some(val)
}

/// Renders an unsigned number in decimal.
pub fn u32_to_string(x: u32) -> (r: String)
    ensures
        r@.len() >= 1,
{
    if x == 0 {
        let mut z: Vec<char> = Vec::new();
        z.push('0');
        return chars_to_string(&z);
    }
    let mut digits: Vec<char> = Vec::new();
    let mut rest: u32 = x;
    while rest > 0
        invariant
            digits@.len() >= 1 || rest == x,
        decreases rest,
    {
        let d: u32 = rest % 10;
        let c: char = if d == 0 {
            '0'
        } else if d == 1 {
            '1'
        } else if d == 2 {
            '2'
        } else if d == 3 {
            '3'
        } else if d == 4 {
            '4'
        } else if d == 5 {
            '5'
        } else if d == 6 {
            '6'
        } else if d == 7 {
            '7'
        } else if d == 8 {
            '8'
        } else {
            '9'
        };
        digits.push(c);
        rest = rest / 10;
    }
    let mut out: Vec<char> = Vec::new();
    let mut i: usize = digits.len();
    while i > 0
        invariant
            i <= digits@.len(),
            out@.len() == digits@.len() - i,
        decreases i,
    {
        i = i - 1;
        out.push(digits[i]);
    }
    chars_to_string(&out)
}

/// String lists as their character sequences, in order.
pub open spec fn str_views(xs: Seq<String>) -> Seq<Seq<char>> {
    xs.map(|q: int, x: String| x@)
}

/// `needle` occurs as a contiguous run inside `hay`.
pub open spec fn contains_seq(hay: Seq<char>, needle: Seq<char>) -> bool {
    exists|i: int|
        0 <= i && i + needle.len() <= hay.len() && #[trigger] hay.subrange(i, i + needle.len())
            == needle
}

/// Whether `hay` matches `needle` at offset `at`.
fn matches_at(hay: &Vec<char>, needle: &Vec<char>, at: usize) -> (r: bool)
    requires
        at + needle@.len() <= hay@.len(),
    ensures
        r == (hay@.subrange(at as int, at + needle@.len()) == needle@),
{
    let hn: usize = hay.len();
    let nn: usize = needle.len();
    let mut i: usize = 0;
    while i < nn
        invariant
            hn == hay@.len(),
            nn == needle@.len(),
            at + nn <= hn,
            i <= nn,
            forall|j: int| 0 <= j < i ==> hay@[at + j] == needle@[j],
        decreases nn - i,
    {
        if hay[at + i] != needle[i] {
            proof {
                assert(hay@.subrange(at as int, at + needle@.len())[i as int] != needle@[i as int]);
            }
            return false;
        }
        i = i + 1;
    }
    proof {
        assert(hay@.subrange(at as int, at + needle@.len()) =~= needle@);
    }
    true
}

/// Naive substring search.
pub fn contains_chars(hay: &Vec<char>, needle: &Vec<char>) -> (r: bool)
    ensures
        r == contains_seq(hay@, needle@),
{
    if needle.len() > hay.len() {
        proof {
            assert(!contains_seq(hay@, needle@));
        }
        return false;
    }
    if needle.len() == 0 {
        proof {
            assert(hay@.subrange(0, 0 + needle@.len() as int) =~= needle@);
            assert(contains_seq(hay@, needle@));
        }
        return true;
    }
    let last: usize = hay.len() - needle.len();
    let mut i: usize = 0;
    while i <= last
        invariant
            hay@.len() <= usize::MAX,
            1 <= needle@.len() <= hay@.len(),
            last == hay@.len() - needle@.len(),
            i <= last + 1,
            forall|j: int|
                0 <= j < i ==> #[trigger] hay@.subrange(j, j + needle@.len()) != needle@,
        decreases last + 1 - i,
    {
        if matches_at(hay, needle, i) {
            return true;
        }
        i = i + 1;
    }
    proof {
        assert(!contains_seq(hay@, needle@));
    }
    false
}

} // verus!
