//! Various data types

use vstd::prelude::*;
use vstd::string::StrSliceExecFns;

verus! {

/// The sixteen lowercase hexadecimal digits, in value order.
pub open spec fn hex_digits() -> Seq<char> {
    seq!['0', '1', '2', '3', '4', '5', '6', '7', '8', '9', 'a', 'b', 'c', 'd', 'e', 'f']
}

/// A character accepted as a hexadecimal digit: `0-9` or `a-f`.
pub open spec fn is_hex_digit(c: char) -> bool {
    ('0' <= c && c <= '9') || ('a' <= c && c <= 'f')
}

/// Value of a hexadecimal digit.
pub open spec fn hex_digit_value(c: char) -> int {
    if '0' <= c && c <= '9' {
        c as int - '0' as int
    } else {
        c as int - 'a' as int + 10
    }
}

/// Two lowercase hex digits of a byte, high nibble first.
pub open spec fn byte_hex(b: u8) -> Seq<char> {
    seq![hex_digits()[(b / 16) as int], hex_digits()[(b % 16) as int]]
}

/// Byte written by the two hex digits `s[i]`, `s[i + 1]`.
pub open spec fn byte_at(s: Seq<char>, i: int) -> u8 {
    (hex_digit_value(s[i]) * 16 + hex_digit_value(s[i + 1])) as u8
}

/// Simple 3-channel color, supporting only RGB with no transparency
#[derive(Debug, Clone, Copy, PartialEq, Eq, Structural)]
pub struct Color3 {
    pub red: u8,
    pub green: u8,
    pub blue: u8,
}

impl Color3 {
    /// The css form `#rrggbb` of the color, lowercase.
    pub open spec fn css_hex(self) -> Seq<char> {
        seq!['#'] + byte_hex(self.red) + byte_hex(self.green) + byte_hex(self.blue)
    }

    /// A string of exactly `#` followed by six hex digits.
    pub open spec fn is_css_hex(s: Seq<char>) -> bool {
        &&& s.len() == 7
        &&& s[0] == '#'
        &&& forall|i: int| 1 <= i < 7 ==> is_hex_digit(#[trigger] s[i])
    }

    /// The color that a string denotes, if it has the css hex form.
    pub open spec fn parse_spec(s: Seq<char>) -> Option<Color3> {
        if Self::is_css_hex(s) {
            Some(Color3 { red: byte_at(s, 1), green: byte_at(s, 3), blue: byte_at(s, 5) })
        } else {
            None
        }
    }

    /// Formats the current color into a css-compatible hex string.
    ///
    /// E.g. Color3 { red: 218, green: 153, blue: 41 } => "#da9929"
    pub fn as_css_hex(self) -> (r: String)
        ensures
            r@ == self.css_hex(),
    {
        let mut r = String::from_str("#");
        proof {
            reveal_strlit("#");
        }
        push_byte_hex(&mut r, self.red);
        push_byte_hex(&mut r, self.green);
        push_byte_hex(&mut r, self.blue);
        r
    }

    /// Parses color from 7 character hex string
    ///
    /// Expects leading hash symbol; digits are `0-9` and `a-f`.
    pub fn parse_from_hex(string: &str) -> (r: Option<Self>)
        ensures
            r == Self::parse_spec(string@),
    {
        let n = string.unicode_len();
        if n != 7 || string.get_char(0) != '#' {
            return None;
        }
        let red = match read_hex_byte(string, 1) {
            Some(b) => b,
            None => return None,
        };
        let green = match read_hex_byte(string, 3) {
            Some(b) => b,
            None => return None,
        };
        let blue = match read_hex_byte(string, 5) {
            Some(b) => b,
            None => return None,
        };
        Some(Color3 { red, green, blue })
    }
}

/// Appends the two hex digits of a byte.
fn push_byte_hex(s: &mut String, b: u8)
    ensures
        final(s)@ == old(s)@ + byte_hex(b),
{
    let digits = "0123456789abcdef";
    proof {
        reveal_strlit("0123456789abcdef");
        assert(digits@ =~= hex_digits());
    }
    let hi = (b / 16) as usize;
    let lo = (b % 16) as usize;
    s.append(digits.substring_char(hi, hi + 1));
    s.append(digits.substring_char(lo, lo + 1));
    proof {
        assert(digits@.subrange(hi as int, hi + 1) =~= seq![hex_digits()[(b / 16) as int]]);
        assert(digits@.subrange(lo as int, lo + 1) =~= seq![hex_digits()[(b % 16) as int]]);
        assert(final(s)@ =~= old(s)@ + byte_hex(b));
    }
}

/// Value of one hex digit, or `None` for any other character.
fn read_hex_digit(c: char) -> (r: Option<u8>)
    ensures
        is_hex_digit(c) <==> r is Some,
        r is Some ==> r->0 as int == hex_digit_value(c),
{
    if '0' <= c && c <= '9' {
        Some((c as u32 - '0' as u32) as u8)
    } else if 'a' <= c && c <= 'f' {
        Some((c as u32 - 'a' as u32 + 10) as u8)
    } else {
        None
    }
}

/// The byte written by the two hex digits at `i`, `i + 1`.
fn read_hex_byte(s: &str, i: usize) -> (r: Option<u8>)
    requires
        i + 1 < s@.len() == 7,
    ensures
        (is_hex_digit(s@[i as int]) && is_hex_digit(s@[i + 1])) <==> r is Some,
        r is Some ==> r->0 == byte_at(s@, i as int),
{
    let hi = match read_hex_digit(s.get_char(i)) {
        Some(d) => d,
        None => return None,
    };
    let lo = match read_hex_digit(s.get_char(i + 1)) {
        Some(d) => d,
        None => return None,
    };
    Some(hi * 16 + lo)
}

/// The value of each lowercase hex digit is its position.
pub proof fn lemma_hex_digit_value(d: int)
    requires
        0 <= d < 16,
    ensures
        is_hex_digit(hex_digits()[d]),
        hex_digit_value(hex_digits()[d]) == d,
{
    let h = hex_digits();
    assert(h[0] == '0');
    assert(h[1] == '1');
    assert(h[2] == '2');
    assert(h[3] == '3');
    assert(h[4] == '4');
    assert(h[5] == '5');
    assert(h[6] == '6');
    assert(h[7] == '7');
    assert(h[8] == '8');
    assert(h[9] == '9');
    assert(h[10] == 'a');
    assert(h[11] == 'b');
    assert(h[12] == 'c');
    assert(h[13] == 'd');
    assert(h[14] == 'e');
    assert(h[15] == 'f');
}

/// Reading back the css hex form of any color gives that color.
pub proof fn lemma_css_hex_round_trip(c: Color3)
    ensures
        Color3::parse_spec(c.css_hex()) == Some(c),
{
    let s = c.css_hex();
    lemma_hex_digit_value((c.red / 16) as int);
    lemma_hex_digit_value((c.red % 16) as int);
    lemma_hex_digit_value((c.green / 16) as int);
    lemma_hex_digit_value((c.green % 16) as int);
    lemma_hex_digit_value((c.blue / 16) as int);
    lemma_hex_digit_value((c.blue % 16) as int);
    assert(s[1] == hex_digits()[(c.red / 16) as int]);
    assert(s[2] == hex_digits()[(c.red % 16) as int]);
    assert(s[3] == hex_digits()[(c.green / 16) as int]);
    assert(s[4] == hex_digits()[(c.green % 16) as int]);
    assert(s[5] == hex_digits()[(c.blue / 16) as int]);
    assert(s[6] == hex_digits()[(c.blue % 16) as int]);
    assert(Color3::is_css_hex(s));
}

/// A string without the leading `#`, of another length than seven characters,
/// or with a character other than `0-9` and `a-f` after the `#`, denotes no color.
pub proof fn lemma_css_hex_rejects(s: Seq<char>)
    requires
        s.len() != 7 || s[0] != '#' || exists|i: int| 1 <= i < 7 && !is_hex_digit(#[trigger] s[i]),
    ensures
        Color3::parse_spec(s) is None,
{
}

} // verus!
