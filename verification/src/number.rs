//! Numbers as the interpreter holds them, and the two literal grammars that
//! decide whether a word of the source text is a number.
use vstd::prelude::*;
use crate::text::{string_of, upper_of, upper};

verus! {

/// A number of the language. The interpreter never computes with numbers
/// itself: it keeps a literal as it was written and a computed value as the
/// bit pattern of a single-precision value, and leaves the arithmetic to its
/// host.
#[derive(Debug, Clone, PartialEq)]
pub enum Number {
    /// An integer literal.
    Int(i32),
    /// A literal with a fraction or an exponent, or a whole number too large
    /// for an integer literal, as written (upper-cased). A well-formed one
    /// satisfies [`is_decimal`].
    Decimal(String),
    /// A computed value: the bits of a single-precision number.
    Real(u32),
}

/// The mathematical picture of a [`Number`].
pub enum NumberModel {
    Int(i32),
    Decimal(Seq<char>),
    Real(u32),
}

impl View for Number {
    type V = NumberModel;

    open spec fn view(&self) -> NumberModel {
        match self {
            Number::Int(i) => NumberModel::Int(*i),
            Number::Decimal(s) => NumberModel::Decimal(s@),
            Number::Real(b) => NumberModel::Real(*b),
        }
    }
}

impl NumberModel {
    /// A decimal literal must follow the decimal grammar; the other forms
    /// are always sound.
    pub open spec fn well_formed(self) -> bool {
        match self {
            NumberModel::Decimal(s) => is_decimal(s),
            _ => true,
        }
    }
}

impl Number {
    /// The bits of the single-precision value zero.
    pub const ZERO_BITS: u32 = 0;

    /// The bits of the single-precision value one.
    pub const ONE_BITS: u32 = 0x3f80_0000;

    /// A copy of this number.
    pub fn copy(&self) -> (r: Number)
        ensures
            r@ == self@,
    {
        match self {
            Number::Int(i) => Number::Int(*i),
            Number::Decimal(s) => Number::Decimal(s.clone()),
            Number::Real(b) => Number::Real(*b),
        }
    }
}

pub open spec fn is_digit(c: char) -> bool {
    '0' <= c <= '9'
}

pub open spec fn is_sign(c: char) -> bool {
    c == '+' || c == '-'
}

pub open spec fn digit_value(c: char) -> int {
    (c as u32) as int - 48
}

/// The value of a run of decimal digits, most significant first.
pub open spec fn digits_value(s: Seq<char>) -> int
    decreases s.len(),
{
    if s.len() == 0 {
        0
    } else {
        digits_value(s.drop_last()) * 10 + digit_value(s.last())
    }
}

pub open spec fn all_digits(s: Seq<char>) -> bool {
    forall|i: int| 0 <= i < s.len() ==> is_digit(#[trigger] s[i])
}

/// The integer that a word denotes: an optional sign, then one or more
/// digits, with a value that fits in 32 bits. Any other word denotes none.
pub open spec fn integer_of(s: Seq<char>) -> Option<i32> {
    let signed = s.len() > 0 && is_sign(s[0]);
    let body = if signed { s.skip(1) } else { s };
    let value = if s.len() > 0 && s[0] == '-' { -digits_value(body) } else { digits_value(body) };
    if body.len() > 0 && all_digits(body) && i32::MIN <= value <= i32::MAX {
        Some(value as i32)
    } else {
        None
    }
}

proof fn lemma_digits_value_push(s: Seq<char>, k: int)
    requires
        0 <= k < s.len(),
    ensures
        digits_value(s.take(k + 1)) == digits_value(s.take(k)) * 10 + digit_value(s[k]),
{
    assert(s.take(k + 1).drop_last() =~= s.take(k));
}

/// Reads a word as an integer literal.
pub fn parse_int(word: &Vec<char>) -> (r: Option<i32>)
    ensures
        r == integer_of(word@),
{
    let n = word.len();
    if n == 0 {
        return None;
    }
    let negative = word[0] == '-';
    let start: usize = if word[0] == '-' || word[0] == '+' { 1 } else { 0 };
    let ghost body = word@.skip(start as int);
    assert(start == 0 ==> body =~= word@);
    if start == n {
        return None;
    }
    let mut acc: u64 = 0;
    let mut big = false;
    let mut i: usize = start;
    while i < n
        invariant
            start <= i <= n,
            n == word.len(),
            body == word@.skip(start as int),
            body == (if word@.len() > 0 && is_sign(word@[0]) {
                word@.skip(1)
            } else {
                word@
            }),
            all_digits(body.take(i - start)),
            !big ==> acc == digits_value(body.take(i - start)) && acc <= 0x8000_0000,
            big ==> digits_value(body.take(i - start)) > 0x8000_0000,
        decreases n - i,
    {
        let c = word[i];
        assert(body[i - start] == c);
        if !('0' <= c && c <= '9') {
            assert(!is_digit(body[i - start]));
            return None;
        }
        let d: u64 = ((c as u8) - 48) as u64;
        proof {
            lemma_digits_value_push(body, i - start);
            assert(body[i - start] == c);
        }
        if !big {
            acc = acc * 10 + d;
            if acc > 0x8000_0000 {
                big = true;
            }
        }
        i = i + 1;
        assert(all_digits(body.take(i - start))) by {
            assert forall|j: int| 0 <= j < i - start implies is_digit(
                #[trigger] body.take(i - start)[j],
            ) by {
                if j < i - start - 1 {
                    assert(body.take(i - start - 1)[j] == body[j]);
                }
            }
        }
    }
    assert(body.take(n - start) =~= body);
    if big {
        None
    } else if negative {
        let v: i64 = -(acc as i64);
        Some(v as i32)
    } else if acc > 0x7fff_ffff {
        None
    } else {
        Some(acc as i32)
    }
}

/// Where the run of digits that starts at `from` ends.
pub open spec fn digits_end(s: Seq<char>, from: int) -> int
    decreases s.len() - from,
{
    if 0 <= from < s.len() && is_digit(s[from]) {
        digits_end(s, from + 1)
    } else {
        from
    }
}

/// From `at` to the end stands an exponent: the letter E in either case, an
/// optional sign, and one or more digits.
pub open spec fn is_exponent(s: Seq<char>, at: int) -> bool {
    let d = if at + 1 < s.len() && is_sign(s[at + 1]) { at + 2 } else { at + 1 };
    &&& 0 <= at < s.len()
    &&& upper_of(s[at]) == 'E'
    &&& d < s.len()
    &&& digits_end(s, d) == s.len()
}

/// From `from` to the end stands a number: digits with at most one point
/// among them, at least one digit in all, and an optional exponent.
pub open spec fn is_plain_number(s: Seq<char>, from: int) -> bool {
    let a = digits_end(s, from);
    let dot = a < s.len() && s[a] == '.';
    let b = if dot { digits_end(s, a + 1) } else { a };
    let count = (a - from) + (if dot { b - a - 1 } else { 0 });
    count > 0 && (b == s.len() || is_exponent(s, b))
}

/// The decimal grammar: an optional sign, then a number. A word of letters
/// alone is never a number. Every word of this grammar is one that the
/// standard library reads as a single-precision literal, so a host can
/// turn it into a value.
pub open spec fn is_decimal(s: Seq<char>) -> bool {
    let from: int = if s.len() > 0 && is_sign(s[0]) { 1 } else { 0 };
    is_plain_number(s, from)
}

/// The empty word is no decimal literal.
pub proof fn lemma_decimal_nonempty(s: Seq<char>)
    requires
        is_decimal(s),
    ensures
        s.len() > 0,
{
    if s.len() == 0 {
        assert(digits_end(s, 0) == 0);
    }
}

/// A word without a digit is no number: a word of letters is a name,
/// whatever it spells.
pub proof fn lemma_number_has_digit(s: Seq<char>)
    requires
        forall|i: int| 0 <= i < s.len() ==> !is_digit(#[trigger] s[i]),
    ensures
        integer_of(s) is None,
        !is_decimal(s),
        number_of(s) is None,
{
    let signed = s.len() > 0 && is_sign(s[0]);
    let body = if signed { s.skip(1) } else { s };
    if body.len() > 0 {
        assert(body[0] == s[if signed { 1int } else { 0int }]);
        assert(!is_digit(body[0]));
    }
    let from: int = if signed { 1 } else { 0 };
    let a = digits_end(s, from);
    assert(a == from);
    if a < s.len() && s[a] == '.' {
        assert(digits_end(s, a + 1) == a + 1) by {
            if a + 1 < s.len() {
                assert(!is_digit(s[a + 1]));
            }
        }
    }
}

fn scan_digits(word: &Vec<char>, from: usize) -> (end: usize)
    requires
        from <= word.len(),
    ensures
        end == digits_end(word@, from as int),
        from <= end <= word.len(),
{
    let mut i = from;
    while i < word.len() && '0' <= word[i] && word[i] <= '9'
        invariant
            from <= i <= word.len(),
            digits_end(word@, from as int) == digits_end(word@, i as int),
        decreases word.len() - i,
    {
        i = i + 1;
    }
    i
}

fn exponent_at(word: &Vec<char>, at: usize) -> (b: bool)
    requires
        at < word.len(),
    ensures
        b == is_exponent(word@, at as int),
{
    if upper(word[at]) != 'E' {
        return false;
    }
    let n = word.len();
    let d: usize = if at + 1 < n && (word[at + 1] == '+' || word[at + 1] == '-') {
        at + 2
    } else {
        at + 1
    };
    if d >= n {
        return false;
    }
    scan_digits(word, d) == n
}

fn plain_number_at(word: &Vec<char>, from: usize) -> (b: bool)
    requires
        from <= word.len(),
    ensures
        b == is_plain_number(word@, from as int),
{
    let n = word.len();
    let a = scan_digits(word, from);
    let dot = a < n && word[a] == '.';
    let b = if dot { scan_digits(word, a + 1) } else { a };
    let count = (a - from) + (if dot { b - a - 1 } else { 0 });
    if count == 0 {
        false
    } else if b == n {
        true
    } else {
        exponent_at(word, b)
    }
}

/// Says whether a word follows the decimal grammar.
pub fn is_decimal_word(word: &Vec<char>) -> (b: bool)
    ensures
        b == is_decimal(word@),
{
    let from: usize = if word.len() > 0 && (word[0] == '+' || word[0] == '-') { 1 } else { 0 };
    plain_number_at(word, from)
}

/// The number that a word of the source text denotes, if it denotes one:
/// an integer where the integer grammar accepts it, else a decimal where the
/// decimal grammar does.
pub open spec fn number_of(word: Seq<char>) -> Option<NumberModel> {
    match integer_of(word) {
        Some(i) => Some(NumberModel::Int(i)),
        None => if is_decimal(word) {
            Some(NumberModel::Decimal(word))
        } else {
            None
        },
    }
}

/// Reads a word as a number literal.
pub fn parse_number(word: &Vec<char>) -> (r: Option<Number>)
    ensures
        match number_of(word@) {
            Some(m) => r is Some && r->Some_0@ == m && m.well_formed(),
            None => r is None,
        },
{
    match parse_int(word) {
        Some(i) => Some(Number::Int(i)),
        None => {
            if is_decimal_word(word) {
                Some(Number::Decimal(string_of(word)))
            } else {
                None
            }
        },
    }
}

} // verus!
