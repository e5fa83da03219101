use vstd::prelude::*;
use vstd::string::StringExecFns;

use crate::name::{decimal, usize_text};

verus! {

/// Years divisible by 4 are leap years, but for centuries not divisible by 400.
pub open spec fn is_leap_year(y: int) -> bool {
    (y % 4 == 0 && y % 100 != 0) || y % 400 == 0
}

/// Number of days of month `m` (1 to 12) in year `y`.
pub open spec fn days_in_month(y: int, m: int) -> int {
    if m == 2 {
        if is_leap_year(y) {
            29
        } else {
            28
        }
    } else if m == 4 || m == 6 || m == 9 || m == 11 {
        30
    } else {
        31
    }
}

/// A day of the proleptic Gregorian calendar, within the years the calendar library
/// supports.
pub open spec fn is_valid_date(y: i32, m: u8, d: u8) -> bool {
    &&& -999_999 <= y <= 999_999
    &&& 1 <= m <= 12
    &&& 1 <= d <= days_in_month(y as int, m as int)
}

/// A time of day.
pub open spec fn is_valid_time(h: u8, min: u8, s: u8, ns: u32) -> bool {
    h < 24 && min < 60 && s < 60 && ns < 1_000_000_000
}

/// What the calendar library reads from `s` with the description `[year]-[month]-[day]`:
/// year, month and day, or the text of its error.
pub uninterp spec fn date_from_text(s: Seq<char>) -> Result<(i32, u8, u8), Seq<char>>;

/// What the calendar library reads from `s` with the description `[hour]:[minute]`.
pub uninterp spec fn time_from_text(s: Seq<char>) -> Result<(u8, u8), Seq<char>>;

/// What the calendar library reads from `s` with the description
/// `[year]-[month]-[day]T[hour]:[minute]`.
pub uninterp spec fn datetime_from_text(s: Seq<char>) -> Result<(i32, u8, u8, u8, u8), Seq<char>>;

/// Relies on `time::Date::parse` with the description that `time::format_description::parse`
/// builds from `[year]-[month]-[day]`: the outcome depends on `s` alone, and a `time::Date`
/// is a valid calendar day.
#[verifier::external_body]
fn read_date(s: &str) -> (r: Result<(i32, u8, u8), String>)
    ensures
        match r {
            Ok(v) => date_from_text(s@) == Ok::<(i32, u8, u8), Seq<char>>(v) && is_valid_date(
                v.0,
                v.1,
                v.2,
            ),
            Err(e) => date_from_text(s@) == Err::<(i32, u8, u8), Seq<char>>(e@),
        },
{
    let format = time::format_description::parse("[year]-[month]-[day]").map_err(|e| e.to_string())?;
    let date = time::Date::parse(s, &format).map_err(|e| e.to_string())?;
    Ok((date.year(), date.month() as u8, date.day()))
}

/// Relies on `time::Time::parse` with the description that `time::format_description::parse`
/// builds from `[hour]:[minute]`: the outcome depends on `s` alone, and a `time::Time` is a
/// valid time of day.
#[verifier::external_body]
fn read_time(s: &str) -> (r: Result<(u8, u8), String>)
    ensures
        match r {
            Ok(v) => time_from_text(s@) == Ok::<(u8, u8), Seq<char>>(v) && is_valid_time(
                v.0,
                v.1,
                0,
                0,
            ),
            Err(e) => time_from_text(s@) == Err::<(u8, u8), Seq<char>>(e@),
        },
{
    let format = time::format_description::parse("[hour]:[minute]").map_err(|e| e.to_string())?;
    let time = time::Time::parse(s, &format).map_err(|e| e.to_string())?;
    Ok((time.hour(), time.minute()))
}

/// Relies on `time::PrimitiveDateTime::parse` with the description that
/// `time::format_description::parse` builds from `[year]-[month]-[day]T[hour]:[minute]`: the
/// outcome depends on `s` alone, and the date and time it gives are valid.
#[verifier::external_body]
fn read_datetime(s: &str) -> (r: Result<(i32, u8, u8, u8, u8), String>)
    ensures
        match r {
            Ok(v) => datetime_from_text(s@) == Ok::<(i32, u8, u8, u8, u8), Seq<char>>(v)
                && is_valid_date(v.0, v.1, v.2) && is_valid_time(v.3, v.4, 0, 0),
            Err(e) => datetime_from_text(s@) == Err::<(i32, u8, u8, u8, u8), Seq<char>>(e@),
        },
{
    let format = time::format_description::parse("[year]-[month]-[day]T[hour]:[minute]")
        .map_err(|e| e.to_string())?;
    let dt = time::PrimitiveDateTime::parse(s, &format).map_err(|e| e.to_string())?;
    Ok((dt.year(), dt.month() as u8, dt.day(), dt.hour(), dt.minute()))
}

/// Relies on `time::OffsetDateTime::now_utc`: the current date and time in UTC, which are
/// valid.
#[verifier::external_body]
fn utc_now() -> (r: ((i32, u8, u8), (u8, u8, u8, u32)))
    ensures
        is_valid_date(r.0.0, r.0.1, r.0.2),
        is_valid_time(r.1.0, r.1.1, r.1.2, r.1.3),
{
    let now = time::OffsetDateTime::now_utc();
    (
        (now.year(), now.month() as u8, now.day()),
        (now.hour(), now.minute(), now.second(), now.nanosecond()),
    )
}

/// Relies on `time::OffsetDateTime::now_local`: the current local date and time, which are
/// valid, or nothing where the local offset cannot be found.
#[verifier::external_body]
fn local_now() -> (r: Option<((i32, u8, u8), (u8, u8, u8, u32))>)
    ensures
        r matches Some(t) ==> is_valid_date(t.0.0, t.0.1, t.0.2) && is_valid_time(
            t.1.0,
            t.1.1,
            t.1.2,
            t.1.3,
        ),
{
    let now = time::OffsetDateTime::now_local().ok()?;
    Some(
        (
            (now.year(), now.month() as u8, now.day()),
            (now.hour(), now.minute(), now.second(), now.nanosecond()),
        ),
    )
}

/// The current local date and time, or the UTC ones where the local offset is unknown.
fn now_parts() -> (r: ((i32, u8, u8), (u8, u8, u8, u32)))
    ensures
        is_valid_date(r.0.0, r.0.1, r.0.2),
        is_valid_time(r.1.0, r.1.1, r.1.2, r.1.3),
{
    match local_now() {
        Some(t) => t,
        None => utc_now(),
    }
}

/// `s` with zeros put in front up to `width` characters.
pub open spec fn zero_padded(s: Seq<char>, width: nat) -> Seq<char>
    decreases width - s.len(),
{
    if s.len() >= width {
        s
    } else {
        zero_padded(seq!['0'] + s, width)
    }
}

/// `n` in base ten, with at least `width` digits.
pub open spec fn padded_number(n: nat, width: nat) -> Seq<char> {
    zero_padded(decimal(n), width)
}

fn padded(n: u32, width: usize) -> (r: String)
    ensures
        r@ == padded_number(n as nat, width as nat),
{
    let digits = usize_text(n as usize);
    let mut len = digits.as_str().unicode_len();
    let mut zeros = String::new();
    let ghost target = padded_number(n as nat, width as nat);
    proof {
        reveal_strlit("0");
        assert("0"@ =~= seq!['0']);
        assert(zeros@ + digits@ =~= digits@);
    }
    while len < width
        invariant
            "0"@ == seq!['0'],
            forall|i: int| 0 <= i < zeros@.len() ==> zeros@[i] == '0',
            len == zeros@.len() + digits@.len(),
            digits@ == decimal(n as nat),
            zero_padded(zeros@ + digits@, width as nat) == target,
        decreases width - len,
    {
        assert(seq!['0'] + (zeros@ + digits@) =~= (zeros@ + seq!['0']) + digits@);
        zeros.append("0");
        len = len + 1;
    }
    zeros.append(digits.as_str());
    zeros
}

/// `[year]-[month]-[day]`: a `-` before a negative year, four or more year digits, two
/// digits for month and day.
pub open spec fn date_text(y: i32, m: u8, d: u8) -> Seq<char> {
    (if y < 0 {
        seq!['-']
    } else {
        Seq::empty()
    }) + padded_number((if y < 0 {
        -(y as int)
    } else {
        y as int
    }) as nat, 4) + seq!['-'] + padded_number(m as nat, 2) + seq!['-'] + padded_number(
        d as nat,
        2,
    )
}

/// `[hour]:[minute]`, two digits each.
pub open spec fn time_text(h: u8, min: u8) -> Seq<char> {
    padded_number(h as nat, 2) + seq![':'] + padded_number(min as nat, 2)
}

/// Why a text is no date or time.
#[derive(Debug, Clone, PartialEq, Eq)]
pub struct DateTimeError {
    message: String,
}

impl View for DateTimeError {
    type V = Seq<char>;

    closed spec fn view(&self) -> Seq<char> {
        self.message@
    }
}

impl DateTimeError {
    /// The message shown to the user.
    pub fn to_string(&self) -> (r: String)
        ensures
            r@ == self@,
    {
        self.message.clone()
    }
}

/// A calendar day, as a date input holds it.
#[derive(Debug, Clone, Copy, PartialEq, Eq, Hash)]
pub struct Date {
    year: i32,
    month: u8,
    day: u8,
}

impl View for Date {
    type V = (i32, u8, u8);

    closed spec fn view(&self) -> (i32, u8, u8) {
        (self.year, self.month, self.day)
    }
}

impl Date {
    #[verifier::type_invariant]
    closed spec fn valid(&self) -> bool {
        is_valid_date(self.year, self.month, self.day)
    }

    /// The day `year`-`month`-`day`, if there is one.
    pub fn from_calendar_date(year: i32, month: u8, day: u8) -> (r: Option<Date>)
        ensures
            r is Some <==> is_valid_date(year, month, day),
            r matches Some(d) ==> d@ == (year, month, day),
    {
        if -999_999 <= year && year <= 999_999 && 1 <= month && month <= 12 && 1 <= day {
            let leap = (year % 4 == 0 && year % 100 != 0) || year % 400 == 0;
            let days: u8 = if month == 2 {
                if leap {
                    29
                } else {
                    28
                }
            } else if month == 4 || month == 6 || month == 9 || month == 11 {
                30
            } else {
                31
            };
            if day <= days {
                return Some(Date { year, month, day });
            }
        }
        None
    }

    /// The day written `[year]-[month]-[day]`, as the calendar library reads it.
    pub fn parse(s: &str) -> (r: Result<Date, DateTimeError>)
        ensures
            match date_from_text(s@) {
                Ok(v) => r matches Ok(d) && d@ == v,
                Err(e) => r matches Err(err) && err@ == e,
            },
    {
        match read_date(s) {
            Ok((year, month, day)) => Ok(Date { year, month, day }),
            Err(message) => Err(DateTimeError { message }),
        }
    }

    /// Today, in local time where the offset is known, else in UTC.
    pub fn today() -> (r: Date) {
        let (d, _) = now_parts();
        Date { year: d.0, month: d.1, day: d.2 }
    }

    pub fn year(&self) -> (r: i32)
        ensures
            r == self@.0,
    {
        self.year
    }

    pub fn month(&self) -> (r: u8)
        ensures
            r == self@.1,
            1 <= r <= 12,
    {
        proof {
            use_type_invariant(self);
        }
        self.month
    }

    pub fn day(&self) -> (r: u8)
        ensures
            r == self@.2,
            1 <= r <= days_in_month(self@.0 as int, self@.1 as int),
    {
        proof {
            use_type_invariant(self);
        }
        self.day
    }

    /// `[year]-[month]-[day]`, the form a date input takes.
    pub fn to_string(&self) -> (r: String)
        ensures
            r@ == date_text(self@.0, self@.1, self@.2),
    {
        proof {
            use_type_invariant(self);
            reveal_strlit("-");
            assert("-"@ =~= seq!['-']);
        }
        let mut out = String::new();
        let magnitude: u32 = if self.year < 0 {
            out.append("-");
            (-self.year) as u32
        } else {
            self.year as u32
        };
        let year = padded(magnitude, 4);
        let month = padded(self.month as u32, 2);
        let day = padded(self.day as u32, 2);
        out.append(year.as_str());
        out.append("-");
        out.append(month.as_str());
        out.append("-");
        out.append(day.as_str());
        assert(out@ =~= date_text(self@.0, self@.1, self@.2));
        out
    }
}

/// A time of day, as a time input holds it.
#[derive(Debug, Clone, Copy, PartialEq, Eq, Hash)]
pub struct Time {
    hour: u8,
    minute: u8,
    second: u8,
    nanosecond: u32,
}

impl View for Time {
    type V = (u8, u8, u8, u32);

    closed spec fn view(&self) -> (u8, u8, u8, u32) {
        (self.hour, self.minute, self.second, self.nanosecond)
    }
}

impl Time {
    #[verifier::type_invariant]
    closed spec fn valid(&self) -> bool {
        is_valid_time(self.hour, self.minute, self.second, self.nanosecond)
    }

    /// The time `hour`:`minute`:`second` and `nanosecond` nanoseconds, if there is one.
    pub fn from_hms_nano(hour: u8, minute: u8, second: u8, nanosecond: u32) -> (r: Option<Time>)
        ensures
            r is Some <==> is_valid_time(hour, minute, second, nanosecond),
            r matches Some(t) ==> t@ == (hour, minute, second, nanosecond),
    {
        if hour < 24 && minute < 60 && second < 60 && nanosecond < 1_000_000_000 {
            Some(Time { hour, minute, second, nanosecond })
        } else {
            None
        }
    }

    /// The time written `[hour]:[minute]`, as the calendar library reads it; seconds are 0.
    pub fn parse(s: &str) -> (r: Result<Time, DateTimeError>)
        ensures
            match time_from_text(s@) {
                Ok(v) => r matches Ok(t) && t@ == (v.0, v.1, 0u8, 0u32),
                Err(e) => r matches Err(err) && err@ == e,
            },
    {
        match read_time(s) {
            Ok((hour, minute)) => Ok(Time { hour, minute, second: 0, nanosecond: 0 }),
            Err(message) => Err(DateTimeError { message }),
        }
    }

    /// The time now, in local time where the offset is known, else in UTC.
    pub fn now() -> (r: Time) {
        let (_, t) = now_parts();
        Time { hour: t.0, minute: t.1, second: t.2, nanosecond: t.3 }
    }

    pub fn hour(&self) -> (r: u8)
        ensures
            r == self@.0,
            r < 24,
    {
        proof {
            use_type_invariant(self);
        }
        self.hour
    }

    pub fn minute(&self) -> (r: u8)
        ensures
            r == self@.1,
            r < 60,
    {
        proof {
            use_type_invariant(self);
        }
        self.minute
    }

    /// `[hour]:[minute]`, the form a time input takes.
    pub fn to_string(&self) -> (r: String)
        ensures
            r@ == time_text(self@.0, self@.1),
    {
        proof {
            reveal_strlit(":");
            assert(":"@ =~= seq![':']);
        }
        let mut out = padded(self.hour as u32, 2);
        let minute = padded(self.minute as u32, 2);
        out.append(":");
        out.append(minute.as_str());
        out
    }
}

/// A date and a time of day without an offset, as a `datetime-local` input holds them.
#[derive(Debug, Clone, Copy, PartialEq, Eq, Hash)]
pub struct PrimitiveDateTime {
    pub date: Date,
    pub time: Time,
}

impl PrimitiveDateTime {
    /// The date and time written `[year]-[month]-[day]T[hour]:[minute]`, as the calendar
    /// library reads them; seconds are 0.
    pub fn parse(s: &str) -> (r: Result<PrimitiveDateTime, DateTimeError>)
        ensures
            match datetime_from_text(s@) {
                Ok(v) => r matches Ok(dt) && dt.date@ == (v.0, v.1, v.2) && dt.time@ == (
                    v.3,
                    v.4,
                    0u8,
                    0u32,
                ),
                Err(e) => r matches Err(err) && err@ == e,
            },
    {
        match read_datetime(s) {
            Ok((year, month, day, hour, minute)) => Ok(
                PrimitiveDateTime {
                    date: Date { year, month, day },
                    time: Time { hour, minute, second: 0, nanosecond: 0 },
                },
            ),
            Err(message) => Err(DateTimeError { message }),
        }
    }

    /// The date and time now, in local time where the offset is known, else in UTC.
    pub fn now() -> (r: PrimitiveDateTime) {
        let (d, t) = now_parts();
        PrimitiveDateTime {
            date: Date { year: d.0, month: d.1, day: d.2 },
            time: Time { hour: t.0, minute: t.1, second: t.2, nanosecond: t.3 },
        }
    }

    /// `[year]-[month]-[day]T[hour]:[minute]`, the form a `datetime-local` input takes.
    pub fn to_string(&self) -> (r: String)
        ensures
            r@ == date_text(self.date@.0, self.date@.1, self.date@.2) + seq!['T'] + time_text(
                self.time@.0,
                self.time@.1,
            ),
    {
        proof {
            reveal_strlit("T");
            assert("T"@ =~= seq!['T']);
        }
        let mut out = self.date.to_string();
        let time = self.time.to_string();
        out.append("T");
        out.append(time.as_str());
        out
    }
}

impl Default for Date {
    /// Today.
    fn default() -> Date {
        Date::today()
    }
}

impl Default for Time {
    /// The time now.
    fn default() -> Time {
        Time::now()
    }
}

impl Default for PrimitiveDateTime {
    /// The date and time now.
    fn default() -> PrimitiveDateTime {
        PrimitiveDateTime::now()
    }
}

impl std::str::FromStr for Date {
    type Err = DateTimeError;

    fn from_str(s: &str) -> Result<Date, DateTimeError> {
        Date::parse(s)
    }
}

impl std::str::FromStr for Time {
    type Err = DateTimeError;

    fn from_str(s: &str) -> Result<Time, DateTimeError> {
        Time::parse(s)
    }
}

impl std::str::FromStr for PrimitiveDateTime {
    type Err = DateTimeError;

    fn from_str(s: &str) -> Result<PrimitiveDateTime, DateTimeError> {
        PrimitiveDateTime::parse(s)
    }
}

} // verus!
