//! Characters, lines and tokens.
use vstd::prelude::*;
use vstd::std_specs::iter::IteratorSpec;

verus! {

/// Whether `c` has the Unicode property `White_Space`.
pub open spec fn is_space(c: char) -> bool {
    let n = c as u32;
    (0x09 <= n <= 0x0D) || n == 0x20 || n == 0x85 || n == 0xA0 || n == 0x1680 || (0x2000 <= n
        <= 0x200A) || n == 0x2028 || n == 0x2029 || n == 0x202F || n == 0x205F || n == 0x3000
}

/// Whether `c` is one of the ten decimal digits.
pub open spec fn is_digit(c: char) -> bool {
    '0' <= c <= '9'
}

/// The classes of character at which a scan stops.
#[derive(Clone, Copy, Debug)]
pub enum Stop {
    /// A white-space character.
    Space,
    /// Any character but white space.
    Ink,
    /// The line feed.
    LineFeed,
    /// The slash that separates the indices of a face corner.
    Slash,
    /// Any character but a decimal digit.
    NonDigit,
}

impl Stop {
    /// Whether a scan of this class stops at `c`.
    pub open spec fn at(self, c: char) -> bool {
        match self {
            Stop::Space => is_space(c),
            Stop::Ink => !is_space(c),
            Stop::LineFeed => c == '\n',
            Stop::Slash => c == '/',
            Stop::NonDigit => !is_digit(c),
        }
    }

    /// Decides `at`.
    pub fn stops_at(self, c: char) -> (r: bool)
        ensures
            r == self.at(c),
    {
        match self {
            Stop::Space => space(c),
            Stop::Ink => !space(c),
            Stop::LineFeed => c == '\n',
            Stop::Slash => c == '/',
            Stop::NonDigit => !('0' <= c && c <= '9'),
        }
    }
}

/// Decides `is_space`.
pub fn space(c: char) -> (r: bool)
    ensures
        r == is_space(c),
{
    let n: u32 = c as u32;
    (0x09 <= n && n <= 0x0D) || n == 0x20 || n == 0x85 || n == 0xA0 || n == 0x1680 || (0x2000 <= n
        && n <= 0x200A) || n == 0x2028 || n == 0x2029 || n == 0x202F || n == 0x205F || n == 0x3000
}

/// How many characters of `s`, from position `i` on, come before the first
/// one of the class `stop`.
pub open spec fn run(s: Seq<char>, i: int, stop: Stop) -> nat
    decreases s.len() - i,
{
    if i < 0 || i >= s.len() || stop.at(s[i]) {
        0
    } else {
        1 + run(s, i + 1, stop)
    }
}

/// The first position at or after `i` where `s` holds a character of the
/// class `stop`, or the length of `s` if there is none.
pub open spec fn scan(s: Seq<char>, i: int, stop: Stop) -> int {
    i + run(s, i, stop)
}

/// `scan` stays within the text, passes over no stopping character, and
/// ends on one or at the end.
pub proof fn lemma_scan(s: Seq<char>, i: int, stop: Stop)
    requires
        0 <= i <= s.len(),
    ensures
        i <= scan(s, i, stop) <= s.len(),
        forall|k: int| i <= k < scan(s, i, stop) ==> !stop.at(#[trigger] s[k]),
        scan(s, i, stop) < s.len() ==> stop.at(s[scan(s, i, stop)]),
    decreases s.len() - i,
{
    if i < s.len() && !stop.at(s[i]) {
        lemma_scan(s, i + 1, stop);
    }
}

/// Finds `scan(s@, i, stop)`.
pub fn scan_to(s: &Vec<char>, i: usize, stop: Stop) -> (j: usize)
    requires
        i <= s.len(),
    ensures
        j as int == scan(s@, i as int, stop),
        i <= j <= s.len(),
{
    let mut j: usize = i;
    while j < s.len() && !stop.stops_at(s[j])
        invariant
            i <= j <= s.len(),
            scan(s@, i as int, stop) == scan(s@, j as int, stop),
        decreases s.len() - j,
    {
        j += 1;
    }
    j
}

/// The characters of `s` from `from` up to `to`, as a text of their own.
pub fn slice(s: &Vec<char>, from: usize, to: usize) -> (r: Vec<char>)
    requires
        from <= to <= s.len(),
    ensures
        r@ == s@.subrange(from as int, to as int),
{
    let mut r: Vec<char> = Vec::new();
    let mut k: usize = from;
    while k < to
        invariant
            from <= k <= to <= s.len(),
            r@ == s@.subrange(from as int, k as int),
        decreases to - k,
    {
        r.push(s[k]);
        k += 1;
        assert(r@ =~= s@.subrange(from as int, k as int));
    }
    r
}

/// The characters of a string slice.
pub fn chars_of(s: &str) -> (r: Vec<char>)
    ensures
        r@ == s@,
{
    broadcast use {vstd::string::next_postcondition, vstd::string::axiom_spec_iter};

    let mut it = s.chars();
    let mut r: Vec<char> = Vec::new();
    loop
        invariant
            it.obeys_prophetic_iter_laws(),
            it.decrease() is Some,
            r@ + it.remaining() == s@,
        decreases it.decrease()->0,
    {
        let ghost before = it.remaining();
        let ghost done = r@;
        match it.next() {
            Some(c) => {
                r.push(c);
                assert(r@ + it.remaining() =~= done + before);
            },
            None => {
                assert(r@ + it.remaining() =~= r@);
                return r;
            },
        }
    }
}

/// The texts that a vector of texts holds.
pub open spec fn texts(v: Seq<Vec<char>>) -> Seq<Seq<char>> {
    Seq::new(v.len(), |i: int| v[i]@)
}

/// The line that starts at `i` and whose line feed, if it has one, is at
/// `e`: a carriage return just before the line feed is no part of it.
pub open spec fn line_text(s: Seq<char>, i: int, e: int) -> Seq<char> {
    if i < e < s.len() && s[e - 1] == '\r' {
        s.subrange(i, e - 1)
    } else {
        s.subrange(i, e)
    }
}

/// The lines of `s` from position `i` on.
pub open spec fn lines_from(s: Seq<char>, i: int) -> Seq<Seq<char>>
    decreases s.len() - i,
{
    if i < 0 || i >= s.len() {
        Seq::empty()
    } else {
        let e = scan(s, i, Stop::LineFeed);
        if e >= s.len() {
            seq![line_text(s, i, e)]
        } else {
            seq![line_text(s, i, e)] + lines_from(s, e + 1)
        }
    }
}

/// The lines of a text: each ends with a line feed, but for the last, which
/// may end with the text. An empty text has no line.
pub open spec fn lines_of(s: Seq<char>) -> Seq<Seq<char>> {
    lines_from(s, 0)
}

/// The tokens of `s` from position `i` on.
pub open spec fn tokens_from(s: Seq<char>, i: int) -> Seq<Seq<char>>
    decreases s.len() - i,
{
    let a = scan(s, i, Stop::Ink);
    if i < 0 || a >= s.len() {
        Seq::empty()
    } else {
        let b = scan(s, a, Stop::Space);
        if b >= s.len() {
            seq![s.subrange(a, b)]
        } else {
            seq![s.subrange(a, b)] + tokens_from(s, b + 1)
        }
    }
}

/// The tokens of a line: its longest runs of characters without white space.
pub open spec fn tokens_of(s: Seq<char>) -> Seq<Seq<char>> {
    tokens_from(s, 0)
}

/// The parts of `s` from position `i` on that slashes separate.
pub open spec fn segments_from(s: Seq<char>, i: int) -> Seq<Seq<char>>
    decreases s.len() - i,
{
    let e = scan(s, i, Stop::Slash);
    if i < 0 || i > s.len() {
        Seq::empty()
    } else if e >= s.len() {
        seq![s.subrange(i, s.len() as int)]
    } else {
        seq![s.subrange(i, e)] + segments_from(s, e + 1)
    }
}

/// The parts of a token that slashes separate: one more than it has slashes.
pub open spec fn segments_of(s: Seq<char>) -> Seq<Seq<char>> {
    segments_from(s, 0)
}

/// Splits a text into its lines.
pub fn split_lines(s: &Vec<char>) -> (r: Vec<Vec<char>>)
    ensures
        texts(r@) == lines_of(s@),
{
    let mut r: Vec<Vec<char>> = Vec::new();
    let mut i: usize = 0;
    while i < s.len()
        invariant
            i <= s.len(),
            lines_of(s@) == texts(r@) + lines_from(s@, i as int),
        decreases s.len() - i,
    {
        let e = scan_to(s, i, Stop::LineFeed);
        let end = if i < e && e < s.len() && s[e - 1] == '\r' {
            e - 1
        } else {
            e
        };
        let line = slice(s, i, end);
        let ghost before = texts(r@);
        let ghost rest = lines_from(s@, e as int + 1);
        r.push(line);
        assert(texts(r@) =~= before.push(line@));
        if e >= s.len() {
            assert(before.push(line@) =~= before + seq![line@]);
            return r;
        }
        assert(before.push(line@) + rest =~= before + (seq![line@] + rest));
        i = e + 1;
    }
    assert(texts(r@) + Seq::<Seq<char>>::empty() =~= texts(r@));
    r
}

/// Splits a line into its tokens.
pub fn split_tokens(s: &Vec<char>) -> (r: Vec<Vec<char>>)
    ensures
        texts(r@) == tokens_of(s@),
{
    let mut r: Vec<Vec<char>> = Vec::new();
    let mut i: usize = 0;
    loop
        invariant
            i <= s.len(),
            tokens_of(s@) == texts(r@) + tokens_from(s@, i as int),
        decreases s.len() - i,
    {
        let a = scan_to(s, i, Stop::Ink);
        if a >= s.len() {
            assert(texts(r@) + Seq::<Seq<char>>::empty() =~= texts(r@));
            return r;
        }
        let b = scan_to(s, a, Stop::Space);
        let token = slice(s, a, b);
        let ghost before = texts(r@);
        let ghost rest = tokens_from(s@, b as int + 1);
        r.push(token);
        assert(texts(r@) =~= before.push(token@));
        if b >= s.len() {
            assert(before.push(token@) =~= before + seq![token@]);
            return r;
        }
        assert(before.push(token@) + rest =~= before + (seq![token@] + rest));
        i = b + 1;
    }
}

/// Splits a token at its slashes.
pub fn split_segments(s: &Vec<char>) -> (r: Vec<Vec<char>>)
    ensures
        texts(r@) == segments_of(s@),
{
    let mut r: Vec<Vec<char>> = Vec::new();
    let mut i: usize = 0;
    loop
        invariant
            i <= s.len(),
            segments_of(s@) == texts(r@) + segments_from(s@, i as int),
        decreases s.len() - i,
    {
        let e = scan_to(s, i, Stop::Slash);
        let part = slice(s, i, e);
        let ghost before = texts(r@);
        r.push(part);
        assert(texts(r@) =~= before.push(part@));
        if e >= s.len() {
            assert(before.push(part@) =~= before + seq![part@]);
            return r;
        }
        assert(before.push(part@) + segments_from(s@, e as int + 1) =~= before + (seq![part@]
            + segments_from(s@, e as int + 1)));
        i = e + 1;
    }
}

} // verus!
