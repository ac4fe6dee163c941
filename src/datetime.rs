//! Calendar date-times, as the `<dateTime.iso8601>` element carries them.

use vstd::prelude::*;

verus! {

/// The date part of a date-time, in one of the three ISO 8601 forms.
#[derive(Clone, Copy, Debug, PartialEq, Eq)]
pub enum Date {
    /// Year, month and day of the month.
    YMD { year: i32, month: u32, day: u32 },
    /// Year, week of the year and day of the week.
    Week { year: i32, ww: u32, d: u32 },
    /// Year and day of the year.
    Ordinal { year: i32, ddd: u32 },
}

/// The time part of a date-time, with its offset from UTC.
#[derive(Clone, Copy, Debug, PartialEq, Eq)]
pub struct Time {
    pub hour: u32,
    pub minute: u32,
    pub second: u32,
    pub millisecond: u32,
    pub tz_offset_hours: i32,
    pub tz_offset_minutes: i32,
}

impl Date {
    /// The year, whatever the form.
    pub open spec fn year(self) -> i32 {
        match self {
            Date::YMD { year, .. } => year,
            Date::Week { year, .. } => year,
            Date::Ordinal { year, .. } => year,
        }
    }
}

/// Holds where a date and a time can be written out: the year and the two
/// offsets, which are written by their magnitude, are not `i32::MIN`.
pub open spec fn is_writable(date: Date, time: Time) -> bool {
    &&& date.year() != i32::MIN
    &&& time.tz_offset_hours != i32::MIN
    &&& time.tz_offset_minutes != i32::MIN
}

/// A date together with a time, always one that can be written out.
#[derive(Clone, Copy, Debug, PartialEq, Eq)]
pub struct DateTime {
    date: Date,
    time: Time,
}

impl DateTime {
    #[verifier::type_invariant]
    spec fn writable(self) -> bool {
        is_writable(self.date, self.time)
    }

    /// The date part.
    pub closed spec fn date_spec(self) -> Date {
        self.date
    }

    /// The time part.
    pub closed spec fn time_spec(self) -> Time {
        self.time
    }

    /// Combines a date and a time; `None` where the pair cannot be written out.
    pub fn new(date: Date, time: Time) -> (r: Option<DateTime>)
        ensures
            r is Some <==> is_writable(date, time),
            r matches Some(dt) ==> dt.date_spec() == date && dt.time_spec() == time,
    {
        let year = match date {
            Date::YMD { year, .. } => year,
            Date::Week { year, .. } => year,
            Date::Ordinal { year, .. } => year,
        };
        if year == i32::MIN || time.tz_offset_hours == i32::MIN || time.tz_offset_minutes
            == i32::MIN {
            None
        } else {
            Some(DateTime { date, time })
        }
    }

    /// The date part.
    pub fn date(&self) -> (r: Date)
        ensures
            r == self.date_spec(),
    {
        self.date
    }

    /// The time part.
    pub fn time(&self) -> (r: Time)
        ensures
            r == self.time_spec(),
    {
        self.time
    }
}

/// The ISO 8601 text of a date-time, as UTF-8 bytes.
pub uninterp spec fn iso8601_text(dt: DateTime) -> Seq<u8>;

/// Relies on the `Display` impl of `iso8601::DateTime`, which writes the
/// date, `T` and the time with its offset; it negates a negative year and
/// negative offsets, hence the invariant of `DateTime`.
#[verifier::external_body]
fn iso8601_bytes(dt: &DateTime) -> (r: Vec<u8>)
    requires
        is_writable(dt.date, dt.time),
    ensures
        r@ == iso8601_text(*dt),
{
    let date = match dt.date {
        Date::YMD { year, month, day } => iso8601::Date::YMD { year, month, day },
        Date::Week { year, ww, d } => iso8601::Date::Week { year, ww, d },
        Date::Ordinal { year, ddd } => iso8601::Date::Ordinal { year, ddd },
    };
    let Time { hour, minute, second, millisecond, tz_offset_hours, tz_offset_minutes } = dt.time;
    let time = iso8601::Time { hour, minute, second, millisecond, tz_offset_hours, tz_offset_minutes };
    iso8601::DateTime { date, time }.to_string().into_bytes()
}

/// Appends the ISO 8601 text of `dt` to `out`.
pub fn format_datetime(dt: &DateTime, out: &mut Vec<u8>)
    ensures
        final(out)@ == old(out)@ + iso8601_text(*dt),
{
    proof {
        use_type_invariant(dt);
    }
    let mut text = iso8601_bytes(dt);
    out.append(&mut text);
}

} // verus!
