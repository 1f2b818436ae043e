//! Calendar dates and local date-times in the fixed `YYYY-MM-DD` and
//! `YYYY-MM-DDTHH:MM` text forms.

use vstd::prelude::*;
use vstd::string::StrSliceExecFns;

verus! {

/// The ten decimal digits, in value order.
pub open spec fn dec_digits() -> Seq<char> {
    seq!['0', '1', '2', '3', '4', '5', '6', '7', '8', '9']
}

pub open spec fn is_digit(c: char) -> bool {
    '0' <= c && c <= '9'
}

pub open spec fn digit_value(c: char) -> int {
    c as int - '0' as int
}

/// Every one of the `k` characters from `i` on is a decimal digit.
pub open spec fn digits_at(s: Seq<char>, i: int, k: int) -> bool {
    forall|j: int| i <= j < i + k ==> is_digit(#[trigger] s[j])
}

/// The number written by the `k` characters from `i` on.
pub open spec fn digits_value(s: Seq<char>, i: int, k: nat) -> int
    decreases k,
{
    if k == 0 {
        0
    } else {
        digits_value(s, i, (k - 1) as nat) * 10 + digit_value(s[i + k - 1])
    }
}

/// `n` in two digits, zero-padded.
pub open spec fn two_digits(n: int) -> Seq<char> {
    seq![dec_digits()[(n / 10) % 10], dec_digits()[n % 10]]
}

/// `n` in four digits, zero-padded.
pub open spec fn four_digits(n: int) -> Seq<char> {
    seq![
        dec_digits()[(n / 1000) % 10],
        dec_digits()[(n / 100) % 10],
        dec_digits()[(n / 10) % 10],
        dec_digits()[n % 10],
    ]
}

pub open spec fn is_leap_year(y: int) -> bool {
    y % 4 == 0 && (y % 100 != 0 || y % 400 == 0)
}

pub open spec fn days_in_month(y: int, m: int) -> int {
    if m == 2 {
        if is_leap_year(y) {
            29
        } else {
            28
        }
    } else if m == 4 || m == 6 || m == 9 || m == 11 {
        30
    } else {
        31
    }
}

/// A day of the proleptic Gregorian calendar between the years 0 and 9999,
/// as (year, month, day).
pub open spec fn is_valid_date(v: (int, int, int)) -> bool {
    &&& 0 <= v.0 <= 9999
    &&& 1 <= v.1 <= 12
    &&& 1 <= v.2 <= days_in_month(v.0, v.1)
}

/// A time of day to the minute, as (hour, minute).
pub open spec fn is_valid_time(h: int, m: int) -> bool {
    0 <= h < 24 && 0 <= m < 60
}

/// The text `YYYY-MM-DD` of a date.
pub open spec fn date_text(v: (int, int, int)) -> Seq<char> {
    four_digits(v.0) + seq!['-'] + two_digits(v.1) + seq!['-'] + two_digits(v.2)
}

/// The text `YYYY-MM-DDTHH:MM` of a date and time.
pub open spec fn date_time_text(v: ((int, int, int), int, int)) -> Seq<char> {
    date_text(v.0) + seq!['T'] + two_digits(v.1) + seq![':'] + two_digits(v.2)
}

/// The first ten characters have the shape `dddd-dd-dd`.
pub open spec fn has_date_shape(s: Seq<char>) -> bool {
    &&& s.len() >= 10
    &&& digits_at(s, 0, 4)
    &&& s[4] == '-'
    &&& digits_at(s, 5, 2)
    &&& s[7] == '-'
    &&& digits_at(s, 8, 2)
}

/// The (year, month, day) written in the first ten characters.
pub open spec fn date_fields(s: Seq<char>) -> (int, int, int) {
    (digits_value(s, 0, 4), digits_value(s, 5, 2), digits_value(s, 8, 2))
}

/// The date that a string of exactly the form `YYYY-MM-DD` names, if that day exists.
pub open spec fn parse_date_spec(s: Seq<char>) -> Option<(int, int, int)> {
    if s.len() == 10 && has_date_shape(s) && is_valid_date(date_fields(s)) {
        Some(date_fields(s))
    } else {
        None
    }
}

/// The date and time that a string of exactly the form `YYYY-MM-DDTHH:MM` names,
/// if that day and time exist.
pub open spec fn parse_date_time_spec(s: Seq<char>) -> Option<((int, int, int), int, int)> {
    if s.len() == 16 && has_date_shape(s) && s[10] == 'T' && digits_at(s, 11, 2) && s[13] == ':'
        && digits_at(s, 14, 2) && is_valid_date(date_fields(s)) && is_valid_time(
        digits_value(s, 11, 2),
        digits_value(s, 14, 2),
    ) {
        Some((date_fields(s), digits_value(s, 11, 2), digits_value(s, 14, 2)))
    } else {
        None
    }
}

/// Relies on chrono::NaiveDate::from_ymd_opt: it gives a date exactly when the
/// day exists in the proleptic Gregorian calendar, and the years 0 to 9999 lie
/// within its range.
#[verifier::external_body]
fn date_exists(year: u32, month: u32, day: u32) -> (r: bool)
    requires
        year <= 9999,
    ensures
        r == is_valid_date((year as int, month as int, day as int)),
{
    chrono::NaiveDate::from_ymd_opt(year as i32, month, day).is_some()
}

/// Relies on chrono::NaiveTime::from_hms_opt: with zero seconds it gives a time
/// exactly when the hour is below 24 and the minute below 60.
#[verifier::external_body]
fn time_exists(hour: u32, minute: u32) -> (r: bool)
    ensures
        r == is_valid_time(hour as int, minute as int),
{
    chrono::NaiveTime::from_hms_opt(hour, minute, 0).is_some()
}

/// A calendar day between the years 0 and 9999.
#[derive(Debug, Clone, Copy, PartialEq, Eq)]
pub struct CalendarDate {
    year: u32,
    month: u32,
    day: u32,
}

/// A calendar day and a time of day to the minute, without a time zone.
#[derive(Debug, Clone, Copy, PartialEq, Eq)]
pub struct CalendarDateTime {
    date: CalendarDate,
    hour: u32,
    minute: u32,
}

impl View for CalendarDate {
    type V = (int, int, int);

    closed spec fn view(&self) -> (int, int, int) {
        (self.year as int, self.month as int, self.day as int)
    }
}

impl View for CalendarDateTime {
    type V = ((int, int, int), int, int);

    closed spec fn view(&self) -> ((int, int, int), int, int) {
        (self.date@, self.hour as int, self.minute as int)
    }
}

impl CalendarDate {
    #[verifier::type_invariant]
    spec fn valid(self) -> bool {
        is_valid_date(self@)
    }

    /// The date with these fields, if that day exists (years 0 to 9999).
    pub fn new(year: u32, month: u32, day: u32) -> (r: Option<CalendarDate>)
        ensures
            is_valid_date((year as int, month as int, day as int)) <==> r is Some,
            r is Some ==> r->0@ == (year as int, month as int, day as int),
    {
        if year <= 9999 && date_exists(year, month, day) {
            Some(CalendarDate { year, month, day })
        } else {
            None
        }
    }

    /// The year; every date value names a day that exists.
    pub fn year(&self) -> (r: u32)
        ensures
            r == self@.0,
            is_valid_date(self@),
    {
        proof {
            use_type_invariant(self);
        }
        self.year
    }

    pub fn month(&self) -> (r: u32)
        ensures
            r == self@.1,
    {
        self.month
    }

    pub fn day(&self) -> (r: u32)
        ensures
            r == self@.2,
    {
        self.day
    }

    /// The text `YYYY-MM-DD` of the date.
    pub fn format(&self) -> (r: String)
        ensures
            r@ == date_text(self@),
            parse_date_spec(r@) == Some(self@),
    {
        proof {
            use_type_invariant(self);
            lemma_date_round_trip(self@);
        }
        let mut r = String::new();
        push_four_digits(&mut r, self.year);
        r.append("-");
        push_two_digits(&mut r, self.month);
        r.append("-");
        push_two_digits(&mut r, self.day);
        proof {
            reveal_strlit("-");
            assert(r@ =~= date_text(self@));
        }
        r
    }

    /// Parses exactly `YYYY-MM-DD`; `None` for any other shape or a day that
    /// does not exist.
    pub fn parse(s: &str) -> (r: Option<CalendarDate>)
        ensures
            r matches Some(d) ==> parse_date_spec(s@) == Some(d@),
            r is None ==> parse_date_spec(s@) is None,
    {
        if s.unicode_len() != 10 {
            return None;
        }
        parse_date_prefix(s)
    }
}

impl CalendarDateTime {
    #[verifier::type_invariant]
    spec fn valid(self) -> bool {
        is_valid_time(self.hour as int, self.minute as int)
    }

    /// The date and time with these fields, if the time exists.
    pub fn new(date: CalendarDate, hour: u32, minute: u32) -> (r: Option<CalendarDateTime>)
        ensures
            is_valid_time(hour as int, minute as int) <==> r is Some,
            r is Some ==> r->0@ == (date@, hour as int, minute as int),
    {
        if time_exists(hour, minute) {
            Some(CalendarDateTime { date, hour, minute })
        } else {
            None
        }
    }

    pub fn date(&self) -> (r: CalendarDate)
        ensures
            r@ == self@.0,
    {
        self.date
    }

    /// The hour; every date-time value names a day and a time that exist.
    pub fn hour(&self) -> (r: u32)
        ensures
            r == self@.1,
            is_valid_date(self@.0),
            is_valid_time(self@.1, self@.2),
    {
        proof {
            use_type_invariant(self);
            use_type_invariant(&self.date);
        }
        self.hour
    }

    pub fn minute(&self) -> (r: u32)
        ensures
            r == self@.2,
            is_valid_time(self@.1, self@.2),
    {
        proof {
            use_type_invariant(self);
        }
        self.minute
    }

    /// The text `YYYY-MM-DDTHH:MM` of the date and time.
    pub fn format(&self) -> (r: String)
        ensures
            r@ == date_time_text(self@),
            parse_date_time_spec(r@) == Some(self@),
    {
        proof {
            use_type_invariant(self);
            use_type_invariant(&self.date);
            lemma_date_time_round_trip(self@);
        }
        let mut r = self.date.format();
        r.append("T");
        push_two_digits(&mut r, self.hour);
        r.append(":");
        push_two_digits(&mut r, self.minute);
        proof {
            reveal_strlit("T");
            reveal_strlit(":");
            assert(r@ =~= date_time_text(self@));
        }
        r
    }

    /// Parses exactly `YYYY-MM-DDTHH:MM`; `None` for any other shape or a day
    /// or time that does not exist.
    pub fn parse(s: &str) -> (r: Option<CalendarDateTime>)
        ensures
            r matches Some(d) ==> parse_date_time_spec(s@) == Some(d@),
            r is None ==> parse_date_time_spec(s@) is None,
    {
        if s.unicode_len() != 16 {
            return None;
        }
        let date = match parse_date_prefix(s) {
            Some(d) => d,
            None => return None,
        };
        if s.get_char(10) != 'T' || s.get_char(13) != ':' {
            return None;
        }
        let hour = match read_digits(s, 11, 2) {
            Some(h) => h,
            None => return None,
        };
        let minute = match read_digits(s, 14, 2) {
            Some(m) => m,
            None => return None,
        };
        CalendarDateTime::new(date, hour, minute)
    }
}

/// The date in the first ten characters, which must have the shape `dddd-dd-dd`.
fn parse_date_prefix(s: &str) -> (r: Option<CalendarDate>)
    requires
        10 <= s@.len() <= 16,
    ensures
        r matches Some(d) ==> has_date_shape(s@) && is_valid_date(date_fields(s@)) && d@
            == date_fields(s@),
        r is None ==> !(has_date_shape(s@) && is_valid_date(date_fields(s@))),
{
    if s.get_char(4) != '-' || s.get_char(7) != '-' {
        return None;
    }
    let year = match read_digits(s, 0, 4) {
        Some(v) => v,
        None => return None,
    };
    let month = match read_digits(s, 5, 2) {
        Some(v) => v,
        None => return None,
    };
    let day = match read_digits(s, 8, 2) {
        Some(v) => v,
        None => return None,
    };
    CalendarDate::new(year, month, day)
}

/// The number written by `k` decimal digits from `i` on, if they are all digits.
fn read_digits(s: &str, i: usize, k: usize) -> (r: Option<u32>)
    requires
        k <= 4,
        i + k <= s@.len() <= 16,
    ensures
        digits_at(s@, i as int, k as int) <==> r is Some,
        r is Some ==> r->0 == digits_value(s@, i as int, k as nat),
        r is Some ==> r->0 < 10000,
{
    let mut v: u32 = 0;
    let mut j: usize = 0;
    while j < k
        invariant
            j <= k <= 4,
            i + k <= s@.len() <= 16,
            digits_at(s@, i as int, j as int),
            v == digits_value(s@, i as int, j as nat),
            j == 0 ==> v == 0,
            j == 1 ==> v < 10,
            j == 2 ==> v < 100,
            j == 3 ==> v < 1000,
            v < 10000,
        decreases k - j,
    {
        let c = s.get_char(i + j);
        if c < '0' || c > '9' {
            return None;
        }
        v = v * 10 + (c as u32 - '0' as u32);
        j = j + 1;
    }
    Some(v)
}

/// Appends the digit of value `d`.
pub(crate) fn push_digit(s: &mut String, d: u32)
    requires
        d < 10,
    ensures
        final(s)@ == old(s)@ + seq![dec_digits()[d as int]],
{
    let digits = "0123456789";
    proof {
        reveal_strlit("0123456789");
        assert(digits@ =~= dec_digits());
    }
    let i = d as usize;
    s.append(digits.substring_char(i, i + 1));
    proof {
        assert(digits@.subrange(i as int, i + 1) =~= seq![dec_digits()[d as int]]);
    }
}

/// Appends `n` in two digits.
fn push_two_digits(s: &mut String, n: u32)
    requires
        n < 100,
    ensures
        final(s)@ == old(s)@ + two_digits(n as int),
{
    push_digit(s, (n / 10) % 10);
    push_digit(s, n % 10);
    assert(final(s)@ =~= old(s)@ + two_digits(n as int));
}

/// Appends `n` in four digits.
fn push_four_digits(s: &mut String, n: u32)
    requires
        n < 10000,
    ensures
        final(s)@ == old(s)@ + four_digits(n as int),
{
    push_digit(s, (n / 1000) % 10);
    push_digit(s, (n / 100) % 10);
    push_digit(s, (n / 10) % 10);
    push_digit(s, n % 10);
    assert(final(s)@ =~= old(s)@ + four_digits(n as int));
}

/// Each decimal digit character is a digit of its position's value.
pub proof fn lemma_dec_digit(d: int)
    requires
        0 <= d < 10,
    ensures
        is_digit(dec_digits()[d]),
        digit_value(dec_digits()[d]) == d,
{
    let h = dec_digits();
    assert(h[0] == '0');
    assert(h[1] == '1');
    assert(h[2] == '2');
    assert(h[3] == '3');
    assert(h[4] == '4');
    assert(h[5] == '5');
    assert(h[6] == '6');
    assert(h[7] == '7');
    assert(h[8] == '8');
    assert(h[9] == '9');
}

/// The digits of a number below 100, written in two digits, read back to it.
proof fn lemma_two_digits(s: Seq<char>, i: int, n: int)
    requires
        0 <= n < 100,
        0 <= i,
        i + 2 <= s.len(),
        s.subrange(i, i + 2) == two_digits(n),
    ensures
        digits_at(s, i, 2),
        digits_value(s, i, 2) == n,
{
    lemma_dec_digit((n / 10) % 10);
    lemma_dec_digit(n % 10);
    assert(s[i] == s.subrange(i, i + 2)[0]);
    assert(s[i + 1] == s.subrange(i, i + 2)[1]);
    reveal_with_fuel(digits_value, 3);
}

/// The digits of a number below 10000, written in four digits, read back to it.
proof fn lemma_four_digits(s: Seq<char>, n: int)
    requires
        0 <= n < 10000,
        4 <= s.len(),
        s.subrange(0, 4) == four_digits(n),
    ensures
        digits_at(s, 0, 4),
        digits_value(s, 0, 4) == n,
{
    lemma_dec_digit((n / 1000) % 10);
    lemma_dec_digit((n / 100) % 10);
    lemma_dec_digit((n / 10) % 10);
    lemma_dec_digit(n % 10);
    assert(s[0] == s.subrange(0, 4)[0]);
    assert(s[1] == s.subrange(0, 4)[1]);
    assert(s[2] == s.subrange(0, 4)[2]);
    assert(s[3] == s.subrange(0, 4)[3]);
    reveal_with_fuel(digits_value, 5);
}

/// Reading back the `YYYY-MM-DD` text of any existing date gives that date.
pub proof fn lemma_date_round_trip(v: (int, int, int))
    requires
        is_valid_date(v),
    ensures
        parse_date_spec(date_text(v)) == Some(v),
{
    let s = date_text(v);
    assert(s.subrange(0, 4) =~= four_digits(v.0));
    assert(s.subrange(5, 7) =~= two_digits(v.1));
    assert(s.subrange(8, 10) =~= two_digits(v.2));
    lemma_four_digits(s, v.0);
    lemma_two_digits(s, 5, v.1);
    lemma_two_digits(s, 8, v.2);
    assert(s[4] == '-' && s[7] == '-');
}

/// Reading back the `YYYY-MM-DDTHH:MM` text of any existing date and time
/// gives that date and time.
pub proof fn lemma_date_time_round_trip(v: ((int, int, int), int, int))
    requires
        is_valid_date(v.0),
        is_valid_time(v.1, v.2),
    ensures
        parse_date_time_spec(date_time_text(v)) == Some(v),
{
    let s = date_time_text(v);
    let d = date_text(v.0);
    assert(s.subrange(0, 10) =~= d);
    assert(s.subrange(0, 4) =~= four_digits(v.0.0));
    assert(s.subrange(5, 7) =~= two_digits(v.0.1));
    assert(s.subrange(8, 10) =~= two_digits(v.0.2));
    assert(s.subrange(11, 13) =~= two_digits(v.1));
    assert(s.subrange(14, 16) =~= two_digits(v.2));
    lemma_four_digits(s, v.0.0);
    lemma_two_digits(s, 5, v.0.1);
    lemma_two_digits(s, 8, v.0.2);
    lemma_two_digits(s, 11, v.1);
    lemma_two_digits(s, 14, v.2);
    assert(s[4] == '-' && s[7] == '-' && s[10] == 'T' && s[13] == ':');
}

/// A string of another length than ten, with another separator than `-`, or
/// with a non-digit where a digit belongs, names no date.
pub proof fn lemma_date_rejects(s: Seq<char>)
    requires
        s.len() != 10 || s[4] != '-' || s[7] != '-' || !digits_at(s, 0, 4) || !digits_at(s, 5, 2)
            || !digits_at(s, 8, 2),
    ensures
        parse_date_spec(s) is None,
{
}

/// `n` in decimal, without leading zeros.
pub open spec fn decimal(n: nat) -> Seq<char>
    decreases n,
{
    if n < 10 {
        seq![dec_digits()[n as int]]
    } else {
        decimal(n / 10) + seq![dec_digits()[(n % 10) as int]]
    }
}

/// Appends `n` in decimal.
pub(crate) fn push_decimal(s: &mut String, n: usize)
    ensures
        final(s)@ == old(s)@ + decimal(n as nat),
    decreases n,
{
    if n >= 10 {
        push_decimal(s, n / 10);
    }
    push_digit(s, (n % 10) as u32);
    assert(final(s)@ =~= old(s)@ + decimal(n as nat));
}

/// The value of the first `k` digits does not depend on what follows them.
proof fn lemma_digits_value_prefix(s: Seq<char>, t: Seq<char>, k: nat)
    requires
        k <= s.len(),
    ensures
        digits_value(s + t, 0, k) == digits_value(s, 0, k),
    decreases k,
{
    if k > 0 {
        lemma_digits_value_prefix(s, t, (k - 1) as nat);
        assert((s + t)[k - 1] == s[k - 1]);
    }
}

/// The decimal text of a number reads back to it.
pub proof fn lemma_decimal_value(n: nat)
    ensures
        decimal(n).len() >= 1,
        digits_value(decimal(n), 0, decimal(n).len()) == n,
    decreases n,
{
    if n < 10 {
        lemma_dec_digit(n as int);
        reveal_with_fuel(digits_value, 2);
    } else {
        let prefix = decimal(n / 10);
        let last = seq![dec_digits()[(n % 10) as int]];
        lemma_decimal_value(n / 10);
        lemma_dec_digit((n % 10) as int);
        lemma_digits_value_prefix(prefix, last, prefix.len());
        assert((prefix + last)[prefix.len() as int] == dec_digits()[(n % 10) as int]);
        assert(digits_value(prefix + last, 0, prefix.len() + 1) == digits_value(prefix + last, 0, prefix.len()) * 10
            + digit_value((prefix + last)[prefix.len() as int]));
    }
}

/// Distinct numbers have distinct decimal texts.
pub proof fn lemma_decimal_injective(a: nat, b: nat)
    requires
        a != b,
    ensures
        decimal(a) != decimal(b),
{
    lemma_decimal_value(a);
    lemma_decimal_value(b);
}

} // verus!
