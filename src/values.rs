//! The values of a row, and their text in an exported file.

use vstd::prelude::*;

verus! {

/// The leap years of the proleptic Gregorian calendar (the year before 1 is
/// year 0, a leap year).
pub open spec fn is_leap_year(year: int) -> bool {
    let a = if year < 0 { -year } else { year };
    (a % 4 == 0 && a % 100 != 0) || a % 400 == 0
}

/// The number of days of a month of a year.
pub open spec fn days_in_month(year: int, month: int) -> int {
    if month == 2 {
        if is_leap_year(year) { 29 } else { 28 }
    } else if month == 4 || month == 6 || month == 9 || month == 11 {
        30
    } else {
        31
    }
}

/// The dates that a `CalendarDate` can hold: years -9999 to 9999.
pub open spec fn valid_date(year: int, month: int, day: int) -> bool {
    &&& -9999 <= year <= 9999
    &&& 1 <= month <= 12
    &&& 1 <= day <= days_in_month(year, month)
}

/// A day of the proleptic Gregorian calendar.
#[derive(Clone, Copy, Debug, PartialEq, Eq, Structural)]
pub struct CalendarDate {
    year: i32,
    month: u32,
    day: u32,
}

impl View for CalendarDate {
    type V = (int, int, int);

    closed spec fn view(&self) -> (int, int, int) {
        (self.year as int, self.month as int, self.day as int)
    }
}

impl CalendarDate {
    #[verifier::type_invariant]
    spec fn is_valid(self) -> bool {
        valid_date(self.year as int, self.month as int, self.day as int)
    }

    /// The date `year-month-day`, where it exists and its year lies in -9999
    /// to 9999.
    pub fn new(year: i32, month: u32, day: u32) -> (r: Option<CalendarDate>)
        ensures
            r is Some <==> valid_date(year as int, month as int, day as int),
            r matches Some(d) ==> d@ == (year as int, month as int, day as int),
    {
        if year < -9999 || year > 9999 || month < 1 || month > 12 || day < 1 {
            return None;
        }
        let a: u32 = if year < 0 { (-year) as u32 } else { year as u32 };
        let leap = (a % 4 == 0 && a % 100 != 0) || a % 400 == 0;
        let days: u32 = if month == 2 {
            if leap { 29 } else { 28 }
        } else if month == 4 || month == 6 || month == 9 || month == 11 {
            30
        } else {
            31
        };
        if day > days {
            return None;
        }
        Some(CalendarDate { year, month, day })
    }

    pub fn year(&self) -> (r: i32)
        ensures
            r as int == self@.0,
    {
        self.year
    }

    pub fn month(&self) -> (r: u32)
        ensures
            r as int == self@.1,
    {
        self.month
    }

    pub fn day(&self) -> (r: u32)
        ensures
            r as int == self@.2,
    {
        self.day
    }
}

/// A date with a time of day, to the second.
#[derive(Clone, Copy, Debug, PartialEq, Eq, Structural)]
pub struct Timestamp {
    date: CalendarDate,
    hour: u32,
    minute: u32,
    second: u32,
}

/// What a timestamp holds: its date and its hour, minute and second.
pub struct TimestampView {
    pub date: (int, int, int),
    pub hour: int,
    pub minute: int,
    pub second: int,
}

impl View for Timestamp {
    type V = TimestampView;

    closed spec fn view(&self) -> TimestampView {
        TimestampView {
            date: self.date@,
            hour: self.hour as int,
            minute: self.minute as int,
            second: self.second as int,
        }
    }
}

impl Timestamp {
    #[verifier::type_invariant]
    spec fn is_valid(self) -> bool {
        self.hour < 24 && self.minute < 60 && self.second < 60
    }

    /// The given time of day on `date`, where it exists.
    pub fn new(date: CalendarDate, hour: u32, minute: u32, second: u32) -> (r: Option<Timestamp>)
        ensures
            r is Some <==> (hour < 24 && minute < 60 && second < 60),
            r matches Some(t) ==> t@ == (TimestampView {
                date: date@,
                hour: hour as int,
                minute: minute as int,
                second: second as int,
            }),
    {
        if hour < 24 && minute < 60 && second < 60 {
            Some(Timestamp { date, hour, minute, second })
        } else {
            None
        }
    }

    pub fn date(&self) -> (r: CalendarDate)
        ensures
            r@ == self@.date,
    {
        self.date
    }

    pub fn hour(&self) -> (r: u32)
        ensures
            r as int == self@.hour,
    {
        self.hour
    }

    pub fn minute(&self) -> (r: u32)
        ensures
            r as int == self@.minute,
    {
        self.minute
    }

    pub fn second(&self) -> (r: u32)
        ensures
            r as int == self@.second,
    {
        self.second
    }
}

/// The value of one field of a row.
#[derive(Debug, PartialEq)]
pub enum ColumnValue {
    Varchar(String),
    /// A binary floating-point number, held as its IEEE 754 binary64 bits.
    Float(u64),
    /// An integer.
    Number(i64),
    Boolean(bool),
    Date(CalendarDate),
    DateTime(Timestamp),
}

/// The character of a decimal digit.
pub open spec fn digit_char(d: int) -> char {
    (d + 48) as char
}

/// The decimal digits of `n`, without leading zeros.
pub open spec fn decimal_digits(n: nat) -> Seq<char>
    decreases n,
{
    if n < 10 {
        seq![digit_char(n as int)]
    } else {
        decimal_digits(n / 10).push(digit_char((n % 10) as int))
    }
}

/// The decimal digits of `n`, with leading zeros up to `width` digits.
pub open spec fn zero_padded(n: nat, width: nat) -> Seq<char> {
    let d = decimal_digits(n);
    if d.len() >= width {
        d
    } else {
        Seq::new((width - d.len()) as nat, |i: int| '0') + d
    }
}

/// An integer in decimal, with `-` before a negative one.
pub open spec fn integer_text(v: int) -> Seq<char> {
    if v < 0 {
        seq!['-'] + decimal_digits((-v) as nat)
    } else {
        decimal_digits(v as nat)
    }
}

/// A year in at least four digits, with a sign where it lies outside 0 to 9999.
pub open spec fn year_text(year: int) -> Seq<char> {
    if 0 <= year <= 9999 {
        zero_padded(year as nat, 4)
    } else if year < 0 {
        seq!['-'] + zero_padded((-year) as nat, 4)
    } else {
        seq!['+'] + zero_padded(year as nat, 4)
    }
}

/// A date as `YYYY-MM-DD`.
pub open spec fn date_text(d: (int, int, int)) -> Seq<char> {
    year_text(d.0) + seq!['-'] + zero_padded(d.1 as nat, 2) + seq!['-'] + zero_padded(d.2 as nat, 2)
}

/// A timestamp as `YYYY-MM-DD HH:MM:SS`.
pub open spec fn timestamp_text(t: TimestampView) -> Seq<char> {
    date_text(t.date) + seq![' '] + zero_padded(t.hour as nat, 2) + seq![':'] + zero_padded(
        t.minute as nat,
        2,
    ) + seq![':'] + zero_padded(t.second as nat, 2)
}

/// The text of a field: empty where the value is absent. A floating-point
/// value has no text here; see `field_text`.
pub open spec fn value_text(v: Option<ColumnValue>) -> Seq<char> {
    match v {
        None => Seq::empty(),
        Some(ColumnValue::Varchar(s)) => s@,
        Some(ColumnValue::Number(n)) => integer_text(n as int),
        Some(ColumnValue::Boolean(b)) => if b { "true"@ } else { "false"@ },
        Some(ColumnValue::Date(d)) => date_text(d@),
        Some(ColumnValue::DateTime(t)) => timestamp_text(t@),
        Some(ColumnValue::Float(_)) => Seq::empty(),
    }
}

/// The text of one decimal digit.
fn digit_str(d: u64) -> (r: &'static str)
    requires
        d < 10,
    ensures
        r@ == seq![digit_char(d as int)],
{
    proof {
        reveal_strlit("0");
        reveal_strlit("1");
        reveal_strlit("2");
        reveal_strlit("3");
        reveal_strlit("4");
        reveal_strlit("5");
        reveal_strlit("6");
        reveal_strlit("7");
        reveal_strlit("8");
        reveal_strlit("9");
    }
    let r = if d == 0 {
        "0"
    } else if d == 1 {
        "1"
    } else if d == 2 {
        "2"
    } else if d == 3 {
        "3"
    } else if d == 4 {
        "4"
    } else if d == 5 {
        "5"
    } else if d == 6 {
        "6"
    } else if d == 7 {
        "7"
    } else if d == 8 {
        "8"
    } else {
        "9"
    };
    assert(r@ =~= seq![digit_char(d as int)]);
    r
}

/// Appends the decimal digits of `n`.
fn append_digits(s: &mut String, n: u64)
    ensures
        final(s)@ == old(s)@ + decimal_digits(n as nat),
    decreases n,
{
    if n >= 10 {
        append_digits(s, n / 10);
    }
    s.append(digit_str(n % 10));
    proof {
        if n >= 10 {
            assert(decimal_digits(n as nat) == decimal_digits((n / 10) as nat).push(
                digit_char((n % 10) as int),
            ));
        }
    }
    assert(s@ =~= old(s)@ + decimal_digits(n as nat));
}

/// An integer in decimal, with `-` before a negative one.
fn format_integer(v: i64) -> (r: String)
    ensures
        r@ == integer_text(v as int),
{
    let mut s = String::new();
    if v < 0 {
        s.append("-");
        let m: u64 = (0i128 - v as i128) as u64;
        append_digits(&mut s, m);
        proof {
            reveal_strlit("-");
        }
        assert(s@ =~= seq!['-'] + decimal_digits((-v) as nat));
    } else {
        append_digits(&mut s, v as u64);
        assert(s@ =~= decimal_digits(v as nat));
    }
    s
}

/// Relies on chrono's `NaiveDate::from_ymd_opt`, which accepts every valid
/// date of the years -262143 to 262142, and on its format `%Y-%m-%d`: the year
/// zero-padded to four digits, with `-` before a negative year, then the month
/// and the day in two digits each.
#[verifier::external_body]
fn format_date(year: i32, month: u32, day: u32) -> (r: String)
    requires
        valid_date(year as int, month as int, day as int),
    ensures
        r@ == date_text((year as int, month as int, day as int)),
{
    chrono::NaiveDate::from_ymd_opt(year, month, day).unwrap().format("%Y-%m-%d").to_string()
}

/// Relies on chrono's `NaiveDate::from_ymd_opt` (as `format_date` does), on
/// `and_hms_opt`, which accepts hours below 24 and minutes and seconds below
/// 60, and on the format `%Y-%m-%d %H:%M:%S`: the date as `%Y-%m-%d` writes it,
/// then hour, minute and second in two digits each.
#[verifier::external_body]
fn format_timestamp(year: i32, month: u32, day: u32, hour: u32, minute: u32, second: u32) -> (r:
    String)
    requires
        valid_date(year as int, month as int, day as int),
        hour < 24 && minute < 60 && second < 60,
    ensures
        r@ == timestamp_text(
            TimestampView {
                date: (year as int, month as int, day as int),
                hour: hour as int,
                minute: minute as int,
                second: second as int,
            },
        ),
{
    chrono::NaiveDate::from_ymd_opt(year, month, day).unwrap().and_hms_opt(hour, minute, second)
        .unwrap().format("%Y-%m-%d %H:%M:%S").to_string()
}

/// The text of a field in the exported file: empty for an absent value, the
/// text itself, the integer in decimal, `true` or `false`, the date as
/// `YYYY-MM-DD` and the timestamp as `YYYY-MM-DD HH:MM:SS`. A floating-point
/// value gives `None`: its text is left to the writer of the file.
pub fn field_text(value: &Option<ColumnValue>) -> (r: Option<String>)
    ensures
        match value {
            Some(ColumnValue::Float(_)) => r is None,
            _ => r matches Some(t) && t@ == value_text(*value),
        },
{
    match value {
        None => Some(String::new()),
        Some(ColumnValue::Varchar(s)) => Some(s.clone()),
        Some(ColumnValue::Number(n)) => Some(format_integer(*n)),
        Some(ColumnValue::Boolean(b)) => {
            proof {
                reveal_strlit("true");
                reveal_strlit("false");
            }
            if *b {
                Some(String::from_str("true"))
            } else {
                Some(String::from_str("false"))
            }
        },
        Some(ColumnValue::Date(d)) => {
            proof {
                use_type_invariant(d);
            }
            Some(format_date(d.year(), d.month(), d.day()))
        },
        Some(ColumnValue::DateTime(t)) => {
            let d = t.date();
            proof {
                use_type_invariant(&d);
                use_type_invariant(t);
            }
            Some(format_timestamp(d.year(), d.month(), d.day(), t.hour(), t.minute(), t.second()))
        },
        Some(ColumnValue::Float(_)) => None,
    }
}

} // verus!
