use vstd::prelude::*;

verus! {

/// A 64-bit IEEE-754 floating-point number, held as its bit pattern. The
/// library moves such values between cells and containers; it does no
/// arithmetic on them.
#[derive(Clone, Copy, Debug, PartialEq, Eq, Structural)]
pub struct Float64 {
    pub bits: u64,
}

/// The bit pattern of the quiet NaN, the default of the float kind.
pub const NAN_BITS: u64 = 0x7ff8_0000_0000_0000;

impl Float64 {
    pub fn from_bits(bits: u64) -> (r: Float64)
        ensures
            r.bits == bits,
    {
        Float64 { bits }
    }

    /// Not a number.
    pub fn nan() -> (r: Float64)
        ensures
            r.bits == NAN_BITS,
    {
        Float64 { bits: NAN_BITS }
    }
}

pub open spec fn is_leap_year(y: int) -> bool {
    (y % 4 == 0 && y % 100 != 0) || y % 400 == 0
}

pub open spec fn days_in_month(y: int, m: int) -> int {
    if m == 2 {
        if is_leap_year(y) {
            29
        } else {
            28
        }
    } else if m == 4 || m == 6 || m == 9 || m == 11 {
        30
    } else {
        31
    }
}

/// The earliest and latest years a date can have.
pub const MIN_DATE_YEAR: i32 = -262143;
pub const MAX_DATE_YEAR: i32 = 262142;

/// `day` is a day of `month` of `year`.
pub open spec fn is_calendar_day(year: int, month: int, day: int) -> bool {
    1 <= month <= 12 && 1 <= day <= days_in_month(year, month)
}

/// A time of day, with a leap second after hh:mm:59 as a nanosecond count of
/// one second or more.
pub open spec fn is_time_of_day(hour: int, minute: int, second: int, nanosecond: int) -> bool {
    hour < 24 && minute < 60 && second < 60 && (nanosecond < 1_000_000_000 || (second == 59
        && nanosecond < 2_000_000_000))
}

/// Relies on chrono's `NaiveDate::from_ymd_opt`: it gives a date exactly for
/// a day of the calendar whose year lies within chrono's range.
#[verifier::external_body]
fn date_exists(year: i32, month: u32, day: u32) -> (r: bool)
    ensures
        r == (is_calendar_day(year as int, month as int, day as int) && MIN_DATE_YEAR <= year
            <= MAX_DATE_YEAR),
{
    chrono::NaiveDate::from_ymd_opt(year, month, day).is_some()
}

/// Relies on chrono's `NaiveTime::from_hms_nano_opt`: it gives a time exactly
/// for a valid time of day.
#[verifier::external_body]
fn time_exists(hour: u32, minute: u32, second: u32, nanosecond: u32) -> (r: bool)
    ensures
        r == is_time_of_day(hour as int, minute as int, second as int, nanosecond as int),
{
    chrono::NaiveTime::from_hms_nano_opt(hour, minute, second, nanosecond).is_some()
}

/// A calendar date of the proleptic Gregorian calendar.
#[derive(Clone, Copy, Debug, PartialEq, Eq, Structural)]
pub struct Date {
    pub year: i32,
    pub month: u32,
    pub day: u32,
}

impl Date {
    pub open spec fn wf(&self) -> bool {
        is_calendar_day(self.year as int, self.month as int, self.day as int) && MIN_DATE_YEAR
            <= self.year <= MAX_DATE_YEAR
    }

    /// The date if `year`, `month` and `day` name one.
    pub fn from_ymd(year: i32, month: u32, day: u32) -> (r: Option<Date>)
        ensures
            match r {
                Some(d) => d.wf() && d.year == year && d.month == month && d.day == day,
                None => !(Date { year, month, day }).wf(),
            },
    {
        if date_exists(year, month, day) {
            Some(Date { year, month, day })
        } else {
            None
        }
    }

    /// 1970-01-01, the default of the date kind.
    pub fn epoch() -> (r: Date)
        ensures
            r.wf(),
            r == Date::epoch_spec(),
    {
        Date { year: 1970, month: 1, day: 1 }
    }

    pub open spec fn epoch_spec() -> Date {
        Date { year: 1970, month: 1, day: 1 }
    }
}

/// A date with a time of day.
#[derive(Clone, Copy, Debug, PartialEq, Eq, Structural)]
pub struct DateTime {
    pub date: Date,
    pub hour: u32,
    pub minute: u32,
    pub second: u32,
    pub nanosecond: u32,
}

impl DateTime {
    pub open spec fn wf(&self) -> bool {
        self.date.wf() && is_time_of_day(
            self.hour as int,
            self.minute as int,
            self.second as int,
            self.nanosecond as int,
        )
    }

    /// The date-time on `date` at the given time of day, if it is one.
    pub fn from_parts(date: Date, hour: u32, minute: u32, second: u32, nanosecond: u32) -> (r:
        Option<DateTime>)
        requires
            date.wf(),
        ensures
            match r {
                Some(t) => t.wf() && t == (DateTime { date, hour, minute, second, nanosecond }),
                None => !is_time_of_day(hour as int, minute as int, second as int, nanosecond as int),
            },
    {
        if time_exists(hour, minute, second, nanosecond) {
            Some(DateTime { date, hour, minute, second, nanosecond })
        } else {
            None
        }
    }

    /// 1970-01-01 00:00:00, the default of the date-time kind.
    pub fn epoch() -> (r: DateTime)
        ensures
            r.wf(),
            r == DateTime::epoch_spec(),
    {
        DateTime { date: Date::epoch(), hour: 0, minute: 0, second: 0, nanosecond: 0 }
    }

    pub open spec fn epoch_spec() -> DateTime {
        DateTime { date: Date::epoch_spec(), hour: 0, minute: 0, second: 0, nanosecond: 0 }
    }
}

/// One value of any kind: what a cell holds when no kind is pinned.
#[derive(Debug)]
pub enum CalamineData {
    Int(i64),
    Float(Float64),
    Str(String),
    Bool(bool),
    Date(Date),
    DateTime(DateTime),
    Empty,
}

/// The mathematical value of a `CalamineData`: text as its characters.
pub enum AnyView {
    Int(i64),
    Float(Float64),
    Str(Seq<char>),
    Bool(bool),
    Date(Date),
    DateTime(DateTime),
    Empty,
}

impl View for CalamineData {
    type V = AnyView;

    open spec fn view(&self) -> AnyView {
        match self {
            CalamineData::Int(v) => AnyView::Int(*v),
            CalamineData::Float(v) => AnyView::Float(*v),
            CalamineData::Str(s) => AnyView::Str(s@),
            CalamineData::Bool(b) => AnyView::Bool(*b),
            CalamineData::Date(d) => AnyView::Date(*d),
            CalamineData::DateTime(d) => AnyView::DateTime(*d),
            CalamineData::Empty => AnyView::Empty,
        }
    }
}

/// A scalar that can be written as a value of any kind.
pub trait ToAny: Sized {
    spec fn any_view(&self) -> AnyView;

    fn to_any(&self) -> (r: CalamineData)
        ensures
            r@ == self.any_view(),
    ;
}

impl ToAny for i64 {
    open spec fn any_view(&self) -> AnyView {
        AnyView::Int(*self)
    }

    fn to_any(&self) -> (r: CalamineData) {
        CalamineData::Int(*self)
    }
}

impl ToAny for Float64 {
    open spec fn any_view(&self) -> AnyView {
        AnyView::Float(*self)
    }

    fn to_any(&self) -> (r: CalamineData) {
        CalamineData::Float(*self)
    }
}

impl ToAny for String {
    open spec fn any_view(&self) -> AnyView {
        AnyView::Str(self@)
    }

    fn to_any(&self) -> (r: CalamineData) {
        CalamineData::Str(self.clone())
    }
}

impl ToAny for bool {
    open spec fn any_view(&self) -> AnyView {
        AnyView::Bool(*self)
    }

    fn to_any(&self) -> (r: CalamineData) {
        CalamineData::Bool(*self)
    }
}

impl ToAny for Date {
    open spec fn any_view(&self) -> AnyView {
        AnyView::Date(*self)
    }

    fn to_any(&self) -> (r: CalamineData) {
        CalamineData::Date(*self)
    }
}

impl ToAny for DateTime {
    open spec fn any_view(&self) -> AnyView {
        AnyView::DateTime(*self)
    }

    fn to_any(&self) -> (r: CalamineData) {
        CalamineData::DateTime(*self)
    }
}

impl ToAny for CalamineData {
    open spec fn any_view(&self) -> AnyView {
        self@
    }

    fn to_any(&self) -> (r: CalamineData) {
        match self {
            CalamineData::Int(v) => CalamineData::Int(*v),
            CalamineData::Float(v) => CalamineData::Float(*v),
            CalamineData::Str(s) => CalamineData::Str(s.clone()),
            CalamineData::Bool(b) => CalamineData::Bool(*b),
            CalamineData::Date(d) => CalamineData::Date(*d),
            CalamineData::DateTime(d) => CalamineData::DateTime(*d),
            CalamineData::Empty => CalamineData::Empty,
        }
    }
}

} // verus!
