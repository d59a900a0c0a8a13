//! Number literals: which characters a literal takes in, which texts are
//! well formed, and what they are worth.

use vstd::prelude::*;
use vstd::slice::slice_subrange;
use crate::chars::{decimal_digit, digit_of, hex_letter};
use crate::chars::{digit_value, is_decimal_digit, is_hex_digit, is_hex_letter, unicode_numeric};
use crate::token::NumberView;

verus! {

/// A digit of the given radix.
pub open spec fn is_digit_in(c: char, radix: nat) -> bool {
    is_hex_digit(c) && digit_value(c) < radix
}

/// Every character is a decimal digit.
pub open spec fn all_decimal_digits(s: Seq<char>) -> bool {
    forall|i: int| 0 <= i < s.len() ==> is_decimal_digit(#[trigger] s[i])
}

/// Every character is a digit of the given radix.
pub open spec fn all_digits_in(s: Seq<char>, radix: nat) -> bool {
    forall|i: int| 0 <= i < s.len() ==> is_digit_in(#[trigger] s[i], radix)
}

/// The number that the digits denote in the given radix, the most significant
/// digit first.
pub open spec fn radix_value(s: Seq<char>, radix: nat) -> nat
    decreases s.len(),
{
    if s.len() == 0 {
        0
    } else {
        radix_value(s.drop_last(), radix) * radix + digit_value(s.last())
    }
}

/// The value of an unsigned integer written in the given radix: there is one
/// when the text is a non-empty run of digits whose value fits in 64 bits.
pub open spec fn integer_value(s: Seq<char>, radix: nat) -> Option<u64> {
    if s.len() > 0 && all_digits_in(s, radix) && radix_value(s, radix) <= u64::MAX {
        Some(radix_value(s, radix) as u64)
    } else {
        None
    }
}

/// The mantissa of a decimal literal: decimal digits, at least one, with at
/// most one point among, before or after them.
pub open spec fn is_mantissa(s: Seq<char>) -> bool {
    &&& forall|i: int| 0 <= i < s.len() ==> is_decimal_digit(#[trigger] s[i]) || s[i] == '.'
    &&& exists|i: int| 0 <= i < s.len() && is_decimal_digit(#[trigger] s[i])
    &&& forall|i: int, j: int| 0 <= i < j < s.len() && #[trigger] s[i] == '.' ==> #[trigger] s[j] != '.'
}

/// The exponent of a decimal literal, after its marker: an optional sign and
/// then decimal digits, at least one.
pub open spec fn is_exponent(s: Seq<char>) -> bool {
    let digits = if s.len() > 0 && (s[0] == '+' || s[0] == '-') {
        s.skip(1)
    } else {
        s
    };
    digits.len() > 0 && all_decimal_digits(digits)
}

/// A well-formed decimal literal: a mantissa, alone or followed by `e` or `E`
/// and an exponent.
pub open spec fn is_float_text(s: Seq<char>) -> bool {
    ||| is_mantissa(s)
    ||| exists|k: int|
        0 <= k < s.len() && (#[trigger] s[k] == 'e' || s[k] == 'E') && is_mantissa(s.take(k))
            && is_exponent(s.skip(k + 1))
}

/// A prefix of a run of digits is worth no more than the whole run.
pub proof fn lemma_radix_value_prefix(s: Seq<char>, n: int, radix: nat)
    requires
        0 <= n <= s.len(),
        radix >= 1,
    ensures
        radix_value(s.take(n), radix) <= radix_value(s, radix),
    decreases s.len(),
{
    if n == s.len() {
        assert(s.take(n) =~= s);
    } else {
        let front = s.drop_last();
        lemma_radix_value_prefix(front, n, radix);
        assert(front.take(n) =~= s.take(n));
        assert(radix_value(front, radix) * radix >= radix_value(front, radix)) by (nonlinear_arith)
            requires
                radix >= 1,
        ;
    }
}

/// The value of an unsigned integer written in radix 10 or 16.
fn parse_digits(s: &[char], radix: u64) -> (r: Option<u64>)
    requires
        radix == 10 || radix == 16,
    ensures
        r == integer_value(s@, radix as nat),
{
    let n: usize = s.len();
    if n == 0 {
        return None;
    }
    let mut value: u64 = 0;
    let mut i: usize = 0;
    while i < n
        invariant
            n == s@.len(),
            i <= n,
            radix == 10 || radix == 16,
            all_digits_in(s@.take(i as int), radix as nat),
            value == radix_value(s@.take(i as int), radix as nat),
        decreases n - i,
    {
        let c: char = s[i];
        let ghost next = s@.take(i + 1);
        proof {
            assert(next.drop_last() =~= s@.take(i as int));
            assert(next.last() == c);
            lemma_radix_value_prefix(s@, i + 1, radix as nat);
        }
        let is_digit: bool = decimal_digit(c) || (radix == 16 && hex_letter(c));
        if !is_digit {
            assert(!is_digit_in(s@[i as int], radix as nat));
            return None;
        }
        let d: u64 = digit_of(c) as u64;
        let shifted: u64 = match value.checked_mul(radix) {
            Some(v) => v,
            None => {
                return None;
            },
        };
        let sum: u64 = match shifted.checked_add(d) {
            Some(v) => v,
            None => {
                return None;
            },
        };
        assert forall|j: int| 0 <= j < next.len() implies is_digit_in(#[trigger] next[j], radix as nat) by {
            if j < i {
                assert(next[j] == s@.take(i as int)[j]);
            }
        }
        value = sum;
        i += 1;
    }
    assert(s@.take(n as int) =~= s@);
    Some(value)
}

/// The value of an unsigned decimal integer: `None` unless the text is a
/// non-empty run of decimal digits worth at most `u64::MAX`.
pub fn parse_decimal(s: &[char]) -> (r: Option<u64>)
    ensures
        r == integer_value(s@, 10),
{
    parse_digits(s, 10)
}

/// The value of an unsigned hexadecimal integer, written without prefix:
/// `None` unless the text is a non-empty run of hexadecimal digits worth at
/// most `u64::MAX`.
pub fn parse_hex(s: &[char]) -> (r: Option<u64>)
    ensures
        r == integer_value(s@, 16),
{
    parse_digits(s, 16)
}

/// Whether every character is a decimal digit.
fn decimal_digits(s: &[char]) -> (r: bool)
    ensures
        r == all_decimal_digits(s@),
{
    let n: usize = s.len();
    let mut i: usize = 0;
    while i < n
        invariant
            n == s@.len(),
            i <= n,
            forall|j: int| 0 <= j < i ==> is_decimal_digit(#[trigger] s@[j]),
        decreases n - i,
    {
        if !decimal_digit(s[i]) {
            return false;
        }
        i += 1;
    }
    true
}

/// Whether the text is the mantissa of a decimal literal.
fn mantissa(s: &[char]) -> (r: bool)
    ensures
        r == is_mantissa(s@),
{
    let n: usize = s.len();
    let mut digit_seen: bool = false;
    let mut point_seen: bool = false;
    let mut i: usize = 0;
    while i < n
        invariant
            n == s@.len(),
            i <= n,
            forall|j: int| 0 <= j < i ==> is_decimal_digit(#[trigger] s@[j]) || s@[j] == '.',
            digit_seen <==> exists|j: int| 0 <= j < i && is_decimal_digit(#[trigger] s@[j]),
            point_seen <==> exists|j: int| 0 <= j < i && #[trigger] s@[j] == '.',
            forall|j: int, k: int| 0 <= j < k < i && #[trigger] s@[j] == '.' ==> #[trigger] s@[k] != '.',
        decreases n - i,
    {
        let c: char = s[i];
        if decimal_digit(c) {
            digit_seen = true;
        } else if c == '.' {
            if point_seen {
                return false;
            }
            point_seen = true;
        } else {
            return false;
        }
        i += 1;
    }
    digit_seen
}

/// Whether the text is the exponent of a decimal literal.
fn exponent(s: &[char]) -> (r: bool)
    ensures
        r == is_exponent(s@),
{
    let n: usize = s.len();
    if n > 0 && (s[0] == '+' || s[0] == '-') {
        let digits = slice_subrange(s, 1, n);
        assert(digits@ =~= s@.skip(1));
        n > 1 && decimal_digits(digits)
    } else {
        n > 0 && decimal_digits(s)
    }
}

/// Whether the text is a well-formed decimal literal: digits with at most one
/// point and at least one digit, then optionally `e` or `E`, an optional sign
/// and at least one digit.
pub fn float_text(s: &[char]) -> (r: bool)
    ensures
        r == is_float_text(s@),
{
    let n: usize = s.len();
    let mut k: usize = 0;
    while k < n && s[k] != 'e' && s[k] != 'E'
        invariant
            n == s@.len(),
            k <= n,
            forall|j: int| 0 <= j < k ==> s@[j] != 'e' && s@[j] != 'E',
        decreases n - k,
    {
        k += 1;
    }
    if k == n {
        mantissa(s)
    } else {
        let head = slice_subrange(s, 0, k);
        let tail = slice_subrange(s, k + 1, n);
        proof {
            assert(head@ =~= s@.take(k as int));
            assert(tail@ =~= s@.skip(k + 1));
            assert(!is_mantissa(s@)) by {
                assert(!(is_decimal_digit(s@[k as int]) || s@[k as int] == '.'));
            }
            assert forall|m: int|
                0 <= m < s@.len() && (#[trigger] s@[m] == 'e' || s@[m] == 'E') && is_mantissa(
                    s@.take(m),
                ) && is_exponent(s@.skip(m + 1)) implies m == k by {
                if m > k {
                    assert(s@.take(m)[k as int] == s@[k as int]);
                }
            }
        }
        mantissa(head) && exponent(tail)
    }
}

/// What the scan of a number literal has seen so far.
#[derive(Clone, Copy, Debug, PartialEq, Eq)]
pub struct NumberState {
    /// The literal began with `0x` or `0X`.
    pub hex: bool,
    /// A point or an exponent marker has been seen.
    pub float: bool,
    /// An exponent marker has been seen.
    pub science: bool,
    /// The sign of the exponent has been seen.
    pub signed_power: bool,
    /// A digit has been seen after the exponent marker.
    pub number_power: bool,
}

/// What one more character does to the scan of a number literal.
#[derive(Clone, Copy, Debug, PartialEq, Eq)]
pub enum NumberStep {
    /// The character belongs to the literal, which goes on in the new state.
    Take(NumberState),
    /// The literal ends before the character.
    Stop,
    /// The character makes the literal malformed.
    Reject,
}

impl NumberState {
    /// The state after the first character of a literal that is not
    /// hexadecimal: `float` tells whether that character was a point.
    pub open spec fn plain(float: bool) -> NumberState {
        NumberState { hex: false, float, science: false, signed_power: false, number_power: false }
    }

    /// The state after the prefix of a hexadecimal literal.
    pub open spec fn hexadecimal() -> NumberState {
        NumberState { hex: true, float: false, science: false, signed_power: false, number_power: false }
    }

    /// What the character `c` does to a literal in this state.
    ///
    /// - A number character is taken.
    /// - `e` or `E` in a literal that is not hexadecimal is taken as an
    ///   exponent marker, and makes the literal a float.
    /// - A hex letter is taken in a hexadecimal literal and rejected in any
    ///   other.
    /// - A point is taken once in a decimal literal without exponent, and
    ///   rejected anywhere else.
    /// - A sign is taken once, after an exponent marker and before any digit
    ///   of the exponent.
    /// - Any other character ends the literal.
    pub open spec fn step(self, c: char) -> NumberStep {
        if unicode_numeric(c) {
            NumberStep::Take(NumberState { number_power: self.number_power || self.science, ..self })
        } else if !self.hex && (c == 'e' || c == 'E') {
            NumberStep::Take(NumberState { float: true, science: true, ..self })
        } else if is_hex_letter(c) {
            if self.hex {
                NumberStep::Take(self)
            } else {
                NumberStep::Reject
            }
        } else if c == '.' {
            if self.hex || self.float {
                NumberStep::Reject
            } else {
                NumberStep::Take(NumberState { float: true, ..self })
            }
        } else if (c == '-' || c == '+') && self.science && !self.signed_power && !self.number_power {
            NumberStep::Take(NumberState { signed_power: true, ..self })
        } else {
            NumberStep::Stop
        }
    }

    /// What the character `c` does to a literal in this state.
    pub fn next(self, c: char) -> (r: NumberStep)
        ensures
            r == self.step(c),
    {
        if c.is_numeric() {
            NumberStep::Take(NumberState { number_power: self.number_power || self.science, ..self })
        } else if !self.hex && (c == 'e' || c == 'E') {
            NumberStep::Take(NumberState { float: true, science: true, ..self })
        } else if hex_letter(c) {
            if self.hex {
                NumberStep::Take(self)
            } else {
                NumberStep::Reject
            }
        } else if c == '.' {
            if self.hex || self.float {
                NumberStep::Reject
            } else {
                NumberStep::Take(NumberState { float: true, ..self })
            }
        } else if (c == '-' || c == '+') && self.science && !self.signed_power && !self.number_power {
            NumberStep::Take(NumberState { signed_power: true, ..self })
        } else {
            NumberStep::Stop
        }
    }
}

/// Where the characters of a number literal end.
pub struct NumberRun {
    /// The offset after the last character taken.
    pub end: int,
    /// The state after the last character taken.
    pub state: NumberState,
    /// Whether the character at `end` was rejected.
    pub rejected: bool,
}

/// The characters that a literal in state `state` takes from offset `pos` on:
/// all up to the first that ends the literal or is rejected, or up to the end
/// of the source.
pub open spec fn number_run(src: Seq<char>, pos: int, state: NumberState) -> NumberRun
    decreases src.len() - pos,
{
    if 0 <= pos < src.len() {
        match state.step(src[pos]) {
            NumberStep::Take(next) => number_run(src, pos + 1, next),
            NumberStep::Stop => NumberRun { end: pos, state, rejected: false },
            NumberStep::Reject => NumberRun { end: pos, state, rejected: true },
        }
    } else {
        NumberRun { end: pos, state, rejected: false }
    }
}

/// The value of a literal with the text `text`, given the state in which its
/// scan ended; `None` where the text is malformed.
///
/// A float is worth its text, which must be a well-formed decimal literal. A
/// hexadecimal literal is worth the digits after its two-character prefix, a
/// decimal integer its digits.
pub open spec fn number_value(text: Seq<char>, state: NumberState) -> Option<NumberView> {
    if state.float {
        if is_float_text(text) {
            Some(NumberView::Float(text))
        } else {
            None
        }
    } else if state.hex {
        match integer_value(text.skip(2), 16) {
            Some(n) => Some(NumberView::Integer(n)),
            None => None,
        }
    } else {
        match integer_value(text, 10) {
            Some(n) => Some(NumberView::Integer(n)),
            None => None,
        }
    }
}

/// A literal ends at or after the offset from which its scan went on, and
/// within the source.
pub proof fn lemma_number_run_bounds(src: Seq<char>, pos: int, state: NumberState)
    requires
        0 <= pos <= src.len(),
    ensures
        pos <= number_run(src, pos, state).end <= src.len(),
    decreases src.len() - pos,
{
    if pos < src.len() {
        match state.step(src[pos]) {
            NumberStep::Take(next) => lemma_number_run_bounds(src, pos + 1, next),
            _ => {},
        }
    }
}

/// A literal stays hexadecimal, or not, as it began.
pub proof fn lemma_number_run_keeps_radix(src: Seq<char>, pos: int, state: NumberState)
    ensures
        number_run(src, pos, state).state.hex == state.hex,
    decreases src.len() - pos,
{
    if 0 <= pos < src.len() {
        match state.step(src[pos]) {
            NumberStep::Take(next) => lemma_number_run_keeps_radix(src, pos + 1, next),
            _ => {},
        }
    }
}

} // verus!
