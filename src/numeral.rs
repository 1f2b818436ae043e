//! Decimal numerals: the text a number input holds.

use vstd::prelude::*;
use vstd::string::{StrSliceExecFns, StringExecFns};
use crate::calendar::is_digit;

verus! {

/// The number of decimal digits in a row from `i` on.
pub open spec fn digit_run(s: Seq<char>, i: int) -> nat
    decreases s.len() - i,
{
    if 0 <= i < s.len() && is_digit(s[i]) {
        1 + digit_run(s, i + 1)
    } else {
        0
    }
}

/// 1 where a `+` or `-` stands at `i`, else 0.
pub open spec fn sign_len(s: Seq<char>, i: int) -> int {
    if 0 <= i < s.len() && (s[i] == '+' || s[i] == '-') {
        1
    } else {
        0
    }
}

/// Where the integer digits that follow the optional sign end.
pub open spec fn integer_end(s: Seq<char>) -> int {
    sign_len(s, 0) + digit_run(s, sign_len(s, 0))
}

/// A decimal point follows the integer digits.
pub open spec fn has_point(s: Seq<char>) -> bool {
    integer_end(s) < s.len() && s[integer_end(s)] == '.'
}

/// Where the mantissa (sign, digits, optional point and fraction digits) ends.
pub open spec fn mantissa_end(s: Seq<char>) -> int {
    if has_point(s) {
        integer_end(s) + 1 + digit_run(s, integer_end(s) + 1)
    } else {
        integer_end(s)
    }
}

/// The mantissa holds at least one digit, before or after the point.
pub open spec fn mantissa_has_digit(s: Seq<char>) -> bool {
    digit_run(s, sign_len(s, 0)) > 0 || (has_point(s) && digit_run(s, integer_end(s) + 1) > 0)
}

/// An exponent marker follows the mantissa.
pub open spec fn has_exponent(s: Seq<char>) -> bool {
    mantissa_end(s) < s.len() && (s[mantissa_end(s)] == 'e' || s[mantissa_end(s)] == 'E')
}

/// Where the exponent's digits start.
pub open spec fn exponent_digits_start(s: Seq<char>) -> int {
    mantissa_end(s) + 1 + sign_len(s, mantissa_end(s) + 1)
}

/// A numeral: an optional sign, digits with an optional decimal point (at
/// least one digit in all), and an optional exponent `e` or `E` with an
/// optional sign and at least one digit; nothing else.
pub open spec fn is_numeral(s: Seq<char>) -> bool {
    &&& mantissa_has_digit(s)
    &&& if has_exponent(s) {
        digit_run(s, exponent_digits_start(s)) > 0 && exponent_digits_start(s) + digit_run(
            s,
            exponent_digits_start(s),
        ) == s.len()
    } else {
        mantissa_end(s) == s.len()
    }
}

/// The text of a decimal number, as typed into a number input.
#[derive(Debug)]
pub struct Numeral {
    text: String,
}

impl View for Numeral {
    type V = Seq<char>;

    closed spec fn view(&self) -> Seq<char> {
        self.text@
    }
}

/// The number of digits in a row from `i` on.
fn scan_digits(s: &str, n: usize, i: usize) -> (r: usize)
    requires
        n == s@.len(),
        i <= n,
    ensures
        r == i + digit_run(s@, i as int),
{
    let mut j = i;
    while j < n && is_digit_char(s.get_char(j))
        invariant
            n == s@.len(),
            i <= j <= n,
            i + digit_run(s@, i as int) == j + digit_run(s@, j as int),
        decreases n - j,
    {
        j = j + 1;
    }
    j
}

fn is_digit_char(c: char) -> (r: bool)
    ensures
        r == is_digit(c),
{
    '0' <= c && c <= '9'
}

/// The length of a sign at `i`: 1 for `+` or `-`, else 0.
fn scan_sign(s: &str, n: usize, i: usize) -> (r: usize)
    requires
        n == s@.len(),
        i <= n,
    ensures
        r == sign_len(s@, i as int),
{
    if i < n {
        let c = s.get_char(i);
        if c == '+' || c == '-' {
            return 1;
        }
    }
    0
}

impl Numeral {
    #[verifier::type_invariant]
    spec fn valid(self) -> bool {
        is_numeral(self.text@)
    }

    /// Whether a string is a numeral.
    pub fn is_numeral(s: &str) -> (r: bool)
        ensures
            r == is_numeral(s@),
    {
        let n = s.unicode_len();
        let sign_end = scan_sign(s, n, 0);
        let integer_end = scan_digits(s, n, sign_end);
        let point = integer_end < n && s.get_char(integer_end) == '.';
        let mut has_digit = integer_end > sign_end;
        let mut mantissa_end = integer_end;
        if point {
            mantissa_end = scan_digits(s, n, integer_end + 1);
            has_digit = has_digit || mantissa_end > integer_end + 1;
        }
        if !has_digit {
            return false;
        }
        if mantissa_end < n {
            let c = s.get_char(mantissa_end);
            if c == 'e' || c == 'E' {
                let exponent_start = mantissa_end + 1 + scan_sign(s, n, mantissa_end + 1);
                let exponent_end = scan_digits(s, n, exponent_start);
                return exponent_end > exponent_start && exponent_end == n;
            }
        }
        mantissa_end == n
    }

    /// The numeral that a string holds, if it is one.
    pub fn parse(s: &str) -> (r: Option<Numeral>)
        ensures
            is_numeral(s@) <==> r is Some,
            r is Some ==> r->0@ == s@,
    {
        if Self::is_numeral(s) {
            Some(Numeral { text: String::from_str(s) })
        } else {
            None
        }
    }

    /// The numeral's text.
    pub fn as_str(&self) -> (r: &str)
        ensures
            r@ == self@,
            is_numeral(self@),
    {
        proof {
            use_type_invariant(self);
        }
        self.text.as_str()
    }
}

} // verus!
