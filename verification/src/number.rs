//! The numbers that a model file holds: one-based indices, read as unsigned
//! integers, and coordinates, kept as decimal text.
use crate::text::{
    chars_of, is_digit, scan, scan_to, segments_of, slice, split_segments, texts, Stop,
};
use vstd::prelude::*;

verus! {

/// The value of a decimal digit.
pub open spec fn digit_value(c: char) -> nat {
    (c as u32 - '0' as u32) as nat
}

/// The number that a text of decimal digits denotes.
pub open spec fn decimal_value(s: Seq<char>) -> nat
    decreases s.len(),
{
    if s.len() == 0 {
        0
    } else {
        decimal_value(s.drop_last()) * 10 + digit_value(s.last())
    }
}

/// Whether `s` holds decimal digits only.
pub open spec fn all_digits(s: Seq<char>) -> bool {
    forall|i: int| 0 <= i < s.len() ==> is_digit(#[trigger] s[i])
}

/// The digits of an unsigned integer, which may follow one plus sign.
pub open spec fn unsigned_digits(s: Seq<char>) -> Seq<char> {
    if s.len() > 0 && s[0] == '+' {
        s.drop_first()
    } else {
        s
    }
}

/// The index that a text denotes: an optional plus sign and at least one
/// decimal digit, with a value that the machine's word holds.
pub open spec fn index_of(s: Seq<char>) -> Option<usize> {
    let d = unsigned_digits(s);
    if d.len() > 0 && all_digits(d) && decimal_value(d) <= usize::MAX {
        Some(decimal_value(d) as usize)
    } else {
        None
    }
}

/// The indices of a face corner: one for each part of the token between
/// slashes, absent where the part denotes no index.
pub open spec fn indices_of(token: Seq<char>) -> Seq<Option<usize>> {
    segments_of(token).map_values(|part: Seq<char>| index_of(part))
}

/// A text of digits denotes at least what each of its prefixes denotes.
pub proof fn lemma_prefix_value(s: Seq<char>, k: int)
    requires
        0 <= k <= s.len(),
    ensures
        decimal_value(s.subrange(0, k)) <= decimal_value(s),
    decreases s.len(),
{
    if k == s.len() {
        assert(s.subrange(0, k) =~= s);
    } else {
        lemma_prefix_value(s.drop_last(), k);
        assert(s.drop_last().subrange(0, k) =~= s.subrange(0, k));
    }
}

/// Reads an index.
pub fn parse_index(s: &Vec<char>) -> (r: Option<usize>)
    ensures
        r == index_of(s@),
{
    let start: usize = if s.len() > 0 && s[0] == '+' {
        1
    } else {
        0
    };
    let ghost d = unsigned_digits(s@);
    assert(d =~= s@.subrange(start as int, s.len() as int));
    if start == s.len() {
        return None;
    }
    let mut acc: usize = 0;
    let mut k: usize = start;
    while k < s.len()
        invariant
            start <= k <= s.len(),
            d == s@.subrange(start as int, s.len() as int),
            d == unsigned_digits(s@),
            acc == decimal_value(d.subrange(0, k - start)),
            forall|i: int| 0 <= i < k - start ==> is_digit(#[trigger] d[i]),
        decreases s.len() - k,
    {
        let c = s[k];
        if !('0' <= c && c <= '9') {
            assert(!is_digit(d[k - start]));
            return None;
        }
        let v: usize = (c as u32 - '0' as u32) as usize;
        proof {
            assert(d.subrange(0, k - start + 1).drop_last() =~= d.subrange(0, k - start));
            assert(d.subrange(0, k - start + 1).last() == c);
            assert(decimal_value(d.subrange(0, k - start + 1)) == acc * 10 + v);
            lemma_prefix_value(d, k - start + 1);
        }
        let next = match acc.checked_mul(10) {
            Some(m) => m.checked_add(v),
            None => None,
        };
        match next {
            Some(n) => {
                acc = n;
            },
            None => {
                return None;
            },
        }
        k += 1;
    }
    assert(d.subrange(0, k - start) =~= d);
    Some(acc)
}

/// Reads the indices of a face corner from its token as a list of characters.
pub fn parse_token_indices(token: &Vec<char>) -> (r: Vec<Option<usize>>)
    ensures
        r@ == indices_of(token@),
{
    let parts = split_segments(token);
    let mut r: Vec<Option<usize>> = Vec::new();
    let mut k: usize = 0;
    while k < parts.len()
        invariant
            k <= parts.len(),
            texts(parts@) == segments_of(token@),
            r@.len() == k,
            forall|i: int| 0 <= i < k ==> r@[i] == index_of(#[trigger] parts@[i]@),
        decreases parts.len() - k,
    {
        r.push(parse_index(&parts[k]));
        k += 1;
    }
    assert(r@ =~= indices_of(token@)) by {
        assert forall|i: int| 0 <= i < r@.len() implies r@[i] == indices_of(token@)[i] by {
            assert(texts(parts@)[i] == parts@[i]@);
        }
    }
    r
}

/// Reads the indices of a face corner: the token is split at its slashes,
/// and each part gives an index, or none where it does not denote one.
pub fn parse_indices(string: &str) -> (r: Vec<Option<usize>>)
    ensures
        r@ == indices_of(string@),
{
    let token = chars_of(string);
    parse_token_indices(&token)
}

/// Whether `c` is a plus or a minus sign.
pub open spec fn is_sign(c: char) -> bool {
    c == '+' || c == '-'
}

/// Whether `c` is the lower-case letter `l` or its capital.
pub open spec fn is_letter(c: char, l: char) -> bool {
    c == l || c as u32 + 32 == l as u32
}

/// Whether `t` spells an infinity, in letters of either case.
pub open spec fn is_infinite(t: Seq<char>) -> bool {
    &&& t.len() == 3 || t.len() == 8
    &&& is_letter(t[0], 'i')
    &&& is_letter(t[1], 'n')
    &&& is_letter(t[2], 'f')
    &&& t.len() == 8 ==> {
        &&& is_letter(t[3], 'i')
        &&& is_letter(t[4], 'n')
        &&& is_letter(t[5], 'i')
        &&& is_letter(t[6], 't')
        &&& is_letter(t[7], 'y')
    }
}

/// Whether `t` spells "nan", in letters of either case.
pub open spec fn is_nan(t: Seq<char>) -> bool {
    &&& t.len() == 3
    &&& is_letter(t[0], 'n')
    &&& is_letter(t[1], 'a')
    &&& is_letter(t[2], 'n')
}

/// Whether `t`, from position `i` to its end, is an exponent's value: an
/// optional sign and at least one digit.
pub open spec fn is_exponent(t: Seq<char>, i: int) -> bool {
    let d = if i < t.len() && is_sign(t[i]) {
        i + 1
    } else {
        i
    };
    d < t.len() && scan(t, d, Stop::NonDigit) == t.len()
}

/// Whether `t` is an unsigned decimal number: digits with at most one point
/// among them, at least one digit in all, and then an exponent or nothing.
pub open spec fn is_decimal(t: Seq<char>) -> bool {
    let b = scan(t, 0, Stop::NonDigit);
    let point = b < t.len() && t[b] == '.';
    let c = if point {
        scan(t, b + 1, Stop::NonDigit)
    } else {
        b
    };
    let digits = if point {
        c - 1
    } else {
        c
    };
    &&& digits > 0
    &&& c == t.len() || ((t[c] == 'e' || t[c] == 'E') && is_exponent(t, c + 1))
}

/// What follows the optional sign of a number.
pub open spec fn magnitude(s: Seq<char>) -> Seq<char> {
    if s.len() > 0 && is_sign(s[0]) {
        s.drop_first()
    } else {
        s
    }
}

/// Whether `s` is a decimal floating-point literal: an optional sign, then
/// an infinity, "nan", or a decimal number.
pub open spec fn is_number(s: Seq<char>) -> bool {
    let t = magnitude(s);
    is_infinite(t) || is_nan(t) || is_decimal(t)
}

/// Decides `is_letter`.
fn letter(c: char, l: char) -> (r: bool)
    ensures
        r == is_letter(c, l),
{
    c == l || c as u32 + 32 == l as u32
}

/// Decides `is_infinite`.
fn infinite(t: &Vec<char>) -> (r: bool)
    ensures
        r == is_infinite(t@),
{
    let n = t.len();
    (n == 3 || n == 8) && letter(t[0], 'i') && letter(t[1], 'n') && letter(t[2], 'f') && (n == 3
        || (letter(t[3], 'i') && letter(t[4], 'n') && letter(t[5], 'i') && letter(t[6], 't')
        && letter(t[7], 'y')))
}

/// Decides `is_nan`.
fn nan(t: &Vec<char>) -> (r: bool)
    ensures
        r == is_nan(t@),
{
    t.len() == 3 && letter(t[0], 'n') && letter(t[1], 'a') && letter(t[2], 'n')
}

/// Decides `is_exponent`.
fn exponent(t: &Vec<char>, i: usize) -> (r: bool)
    requires
        i <= t.len(),
    ensures
        r == is_exponent(t@, i as int),
{
    let d = if i < t.len() && (t[i] == '+' || t[i] == '-') {
        i + 1
    } else {
        i
    };
    d < t.len() && scan_to(t, d, Stop::NonDigit) == t.len()
}

/// Decides `is_decimal`.
fn decimal(t: &Vec<char>) -> (r: bool)
    ensures
        r == is_decimal(t@),
{
    let b = scan_to(t, 0, Stop::NonDigit);
    let point = b < t.len() && t[b] == '.';
    let c = if point {
        scan_to(t, b + 1, Stop::NonDigit)
    } else {
        b
    };
    let digits = if point {
        c - 1
    } else {
        c
    };
    if digits == 0 {
        false
    } else if c == t.len() {
        true
    } else {
        (t[c] == 'e' || t[c] == 'E') && exponent(t, c + 1)
    }
}

/// Decides `is_number`.
pub fn number(s: &Vec<char>) -> (r: bool)
    ensures
        r == is_number(s@),
{
    let start: usize = if s.len() > 0 && (s[0] == '+' || s[0] == '-') {
        1
    } else {
        0
    };
    let t = slice(s, start, s.len());
    assert(t@ =~= magnitude(s@));
    infinite(&t) || nan(&t) || decimal(&t)
}

} // verus!
