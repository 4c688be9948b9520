//! Days, instants and wall-clock times, as the event sources need them.
//!
//! Calendar and time-zone rules are not this library's business: it asks
//! `chrono` for them and keeps what comes back as plain numbers. An instant
//! is a count of seconds since 1970-01-01 00:00:00 UTC, with the nanoseconds
//! of the second under way; a time of day is a count of seconds since local
//! midnight with the same nanoseconds.

use chrono::TimeZone;
use chrono::Timelike;
use vstd::prelude::*;

verus! {

/// The seconds of one day.
pub const SECONDS_PER_DAY: u32 = 86400;

/// The bound on the nanoseconds of a time of day. During a leap second they
/// run past a whole second.
pub const FRAC_LIMIT: u32 = 2_000_000_000;

/// A wall-clock time without a date.
#[derive(Clone, Copy, Debug, PartialEq, Eq, Structural)]
pub struct TimeOfDay {
    /// Seconds since midnight.
    pub secs: u32,
    /// Nanoseconds since the whole second.
    pub frac: u32,
}

impl TimeOfDay {
    /// The time lies within one day.
    pub open spec fn wf(&self) -> bool {
        self.secs < SECONDS_PER_DAY && self.frac < FRAC_LIMIT
    }

    /// Whether this time comes strictly before `other`: by the seconds, and
    /// within one second by the nanoseconds.
    pub open spec fn spec_is_before(&self, other: &TimeOfDay) -> bool {
        self.secs < other.secs || (self.secs == other.secs && self.frac < other.frac)
    }

    /// Whether this time comes before `other` or is the same.
    pub open spec fn spec_le(&self, other: &TimeOfDay) -> bool {
        !other.spec_is_before(self)
    }

    /// The time `hour:min:sec`, or `None` where that is no time of day.
    pub fn from_hms(hour: u32, min: u32, sec: u32) -> (r: Option<TimeOfDay>)
        ensures
            r == if hour < 24 && min < 60 && sec < 60 {
                Some(TimeOfDay { secs: (hour * 3600 + min * 60 + sec) as u32, frac: 0 })
            } else {
                None
            },
            r matches Some(t) ==> t.wf(),
    {
        if hour < 24 && min < 60 && sec < 60 {
            Some(TimeOfDay { secs: hour * 3600 + min * 60 + sec, frac: 0 })
        } else {
            None
        }
    }

    /// Whether this time comes strictly before `other`.
    pub fn is_before(&self, other: &TimeOfDay) -> (r: bool)
        ensures
            r == self.spec_is_before(other),
    {
        self.secs < other.secs || (self.secs == other.secs && self.frac < other.frac)
    }

    /// Whether this time comes before `other` or is the same.
    pub fn le(&self, other: &TimeOfDay) -> (r: bool)
        ensures
            r == self.spec_le(other),
    {
        !other.is_before(self)
    }

    /// The hour of the time.
    pub fn hour(&self) -> (r: u32)
        ensures
            r == self.secs / 3600,
    {
        self.secs / 3600
    }

    /// The minute of the hour.
    pub fn minute(&self) -> (r: u32)
        ensures
            r == (self.secs / 60) % 60,
    {
        (self.secs / 60) % 60
    }
}

/// A calendar date.
#[derive(Clone, Copy, Debug, PartialEq, Eq, Structural)]
pub struct Day {
    pub year: i32,
    pub month: u32,
    pub day: u32,
}

impl Day {
    /// Whether this date comes strictly before `other` in the calendar.
    pub open spec fn spec_is_before(&self, other: &Day) -> bool {
        self.year < other.year || (self.year == other.year && (self.month < other.month || (
        self.month == other.month && self.day < other.day)))
    }

    /// Whether this date comes strictly before `other` in the calendar.
    pub fn is_before(&self, other: &Day) -> (r: bool)
        ensures
            r == self.spec_is_before(other),
    {
        self.year < other.year || (self.year == other.year && (self.month < other.month || (
        self.month == other.month && self.day < other.day)))
    }
}

/// An instant, together with the wall-clock time that the local time zone
/// shows at it.
#[derive(Clone, Copy, Debug, PartialEq, Eq, Structural)]
pub struct LocalDateTime {
    /// Seconds since 1970-01-01 00:00:00 UTC.
    pub timestamp: i64,
    /// The local time of day. Its nanoseconds are those of the instant.
    pub time: TimeOfDay,
}

impl LocalDateTime {
    /// The local time lies within one day.
    pub open spec fn wf(&self) -> bool {
        self.time.wf()
    }

    /// The instant alone, as seconds and nanoseconds: what two values are
    /// compared by.
    pub open spec fn instant(&self) -> (int, int) {
        (self.timestamp as int, self.time.frac as int)
    }

    /// Whether this instant comes strictly before `other`.
    pub open spec fn spec_is_before(&self, other: &LocalDateTime) -> bool {
        self.timestamp < other.timestamp || (self.timestamp == other.timestamp && self.time.frac
            < other.time.frac)
    }

    /// Whether this instant comes strictly before `other`.
    pub fn is_before(&self, other: &LocalDateTime) -> (r: bool)
        ensures
            r == self.spec_is_before(other),
    {
        self.timestamp < other.timestamp || (self.timestamp == other.timestamp && self.time.frac
            < other.time.frac)
    }
}

/// A date and a time of day as a calendar and a clock show them, without a
/// time zone.
#[derive(Clone, Copy, Debug, PartialEq, Eq, Structural)]
pub struct WallClock {
    pub day: Day,
    pub time: TimeOfDay,
}

impl LocalDateTime {
    /// The instant `timestamp` with the local time `time` at it, where there
    /// is the instant.
    pub fn with_time(timestamp: Option<i64>, time: TimeOfDay) -> (r: Option<LocalDateTime>)
        ensures
            r == match timestamp {
                Some(t) => Some(LocalDateTime { timestamp: t, time }),
                None => None,
            },
    {
        match timestamp {
            Some(t) => Some(LocalDateTime { timestamp: t, time }),
            None => None,
        }
    }

    /// The instant at which the local time zone shows the date and the time
    /// `clock`; `None` where it shows them at no instant or at two, and where
    /// the calendar does not have the date.
    pub fn at_wall_clock(clock: WallClock) -> (r: Option<LocalDateTime>)
        ensures
            r matches Some(d) ==> d.time == clock.time,
            !clock.day.spec_in_calendar() ==> r is None,
    {
        Self::with_time(local_instant_of(clock), clock.time)
    }

    /// The instant that the text `s` names under the format `fmt`, which
    /// gives no time zone: the date and the time are read from the text and
    /// taken as local time. `None` where the text names none, and where the
    /// local time zone shows them at no instant or at two.
    pub fn read_local(s: &str, fmt: &str) -> (r: Option<LocalDateTime>)
        ensures
            match zoneless_reading(s@, fmt@) {
                Some(clock) => r matches Some(d) ==> d.time == clock.time && d.wf(),
                None => r is None,
            },
    {
        match naive_parse_from_str(s, fmt) {
            Some(clock) => Self::at_wall_clock(clock),
            None => None,
        }
    }
}

/// The instants of one local day: from its midnight up to, and without, the
/// midnight of the day after. Most days have 24 hours; a day on which the
/// clocks are set forward or back has fewer or more.
#[derive(Clone, Copy, Debug, PartialEq, Eq, Structural)]
pub struct DayWindow {
    /// The midnight that begins the day.
    pub day_start: i64,
    /// The midnight that begins the day after, which is the first instant
    /// past the day.
    pub next_day_start: i64,
}

impl DayWindow {
    /// The day ends after it begins.
    pub open spec fn wf(&self) -> bool {
        self.day_start < self.next_day_start
    }

    /// Whether `timestamp` lies in the day.
    pub open spec fn spec_contains(&self, timestamp: i64) -> bool {
        self.day_start <= timestamp < self.next_day_start
    }

    /// Whether `timestamp` lies in the day.
    pub fn contains(&self, timestamp: i64) -> (r: bool)
        ensures
            r == self.spec_contains(timestamp),
    {
        self.day_start <= timestamp && timestamp < self.next_day_start
    }

    /// The stretch of 24 hours that begins at `day_start`, which is a day
    /// where the clocks are not set on it; `None` where its end is past the
    /// instants that can be counted.
    pub fn starting_at(day_start: i64) -> (r: Option<DayWindow>)
        ensures
            r == if day_start + SECONDS_PER_DAY <= i64::MAX {
                Some(DayWindow { day_start, next_day_start: (day_start + SECONDS_PER_DAY) as i64 })
            } else {
                None
            },
            r matches Some(w) ==> w.wf(),
    {
        if day_start <= i64::MAX - 86400 {
            Some(DayWindow { day_start, next_day_start: day_start + 86400 })
        } else {
            None
        }
    }

    /// The window of the local day `day`: from the local midnight of the
    /// day to the local midnight of the day after. `None` where the calendar
    /// does not have the day or the day after it, and where the local time
    /// zone has no single midnight on one of the two.
    pub fn for_day(day: Day) -> (r: Option<DayWindow>)
        ensures
            r matches Some(w) ==> w.wf(),
            !day.spec_in_calendar() ==> r is None,
            day_after(day.year as int, day.month as int, day.day as int) is None ==> r is None,
    {
        let next_day_start = match succ_day(day) {
            Some(next_day) => Self::midnight_of(next_day),
            None => None,
        };
        Self::from_midnights(Self::midnight_of(day), next_day_start)
    }

    /// The instant of the local midnight that begins `day`; `None` where the
    /// local time zone has no single midnight on the day, and where the
    /// calendar does not have the day.
    pub fn midnight_of(day: Day) -> (r: Option<i64>)
        ensures
            !day.spec_in_calendar() ==> r is None,
    {
        local_instant_of(WallClock { day, time: TimeOfDay { secs: 0, frac: 0 } })
    }

    /// The day from the midnight `day_start` to the midnight
    /// `next_day_start`, where there are the two midnights and the second is
    /// the later.
    pub fn from_midnights(day_start: Option<i64>, next_day_start: Option<i64>) -> (r: Option<
        DayWindow,
    >)
        ensures
            r == match (day_start, next_day_start) {
                (Some(start), Some(end)) => if start < end {
                    Some(DayWindow { day_start: start, next_day_start: end })
                } else {
                    None
                },
                _ => None,
            },
            r matches Some(w) ==> w.wf(),
    {
        match (day_start, next_day_start) {
            (Some(start), Some(end)) => {
                if start < end {
                    Some(DayWindow { day_start: start, next_day_start: end })
                } else {
                    None
                }
            },
            _ => None,
        }
    }
}

/// Whether the year `year` has a 29th of February, by the rule of the
/// Gregorian calendar, which is applied to the years before that calendar
/// too.
pub open spec fn spec_is_leap_year(year: int) -> bool {
    year % 4 == 0 && (year % 100 != 0 || year % 400 == 0)
}

/// The number of the days of the month `month` of the year `year`.
pub open spec fn spec_days_in_month(year: int, month: int) -> int {
    if month == 2 {
        if spec_is_leap_year(year) {
            29
        } else {
            28
        }
    } else if month == 4 || month == 6 || month == 9 || month == 11 {
        30
    } else {
        31
    }
}

/// The first year of the calendar of `chrono`.
pub const MIN_YEAR: i32 = -262143;

/// The last year of the calendar of `chrono`.
pub const MAX_YEAR: i32 = 262142;

/// Whether the Gregorian calendar has the date: the month is one of the
/// twelve, and the day is one of the days of that month in that year.
pub open spec fn spec_is_date(year: int, month: int, day: int) -> bool {
    &&& 1 <= month <= 12
    &&& 1 <= day <= spec_days_in_month(year, month)
}

/// Whether the calendar of `chrono` has the date: it is a date of the
/// Gregorian calendar in a year that `chrono` counts.
pub open spec fn spec_in_calendar(year: int, month: int, day: int) -> bool {
    MIN_YEAR <= year <= MAX_YEAR && spec_is_date(year, month, day)
}

/// The date before the given one in the calendar of `chrono`, as year, month
/// and day; `None` where the given date or the one before it is none of that
/// calendar.
pub open spec fn day_before(year: int, month: int, day: int) -> Option<(int, int, int)> {
    if !spec_in_calendar(year, month, day) {
        None
    } else if day > 1 {
        Some((year, month, day - 1))
    } else if month > 1 {
        Some((year, month - 1, spec_days_in_month(year, month - 1)))
    } else if year > MIN_YEAR {
        Some((year - 1, 12, 31))
    } else {
        None
    }
}

/// The date after the given one in the calendar of `chrono`, as year, month
/// and day; `None` where the given date or the one after it is none of that
/// calendar.
pub open spec fn day_after(year: int, month: int, day: int) -> Option<(int, int, int)> {
    if !spec_in_calendar(year, month, day) {
        None
    } else if day < spec_days_in_month(year, month) {
        Some((year, month, day + 1))
    } else if month < 12 {
        Some((year, month + 1, 1))
    } else if year < MAX_YEAR {
        Some((year + 1, 1, 1))
    } else {
        None
    }
}

impl Day {
    /// Whether the calendar of `chrono` has this date.
    pub open spec fn spec_in_calendar(&self) -> bool {
        spec_in_calendar(self.year as int, self.month as int, self.day as int)
    }
}

/// The instant that `chrono` reads an RFC 2822 date as, in seconds and
/// nanoseconds; `None` where it reads none.
pub uninterp spec fn rfc2822_instant(text: Seq<char>) -> Option<(int, int)>;

/// The instant that `chrono` reads `text` as under the format `fmt`, which
/// has to give a time zone; `None` where it reads none.
pub uninterp spec fn offset_format_instant(text: Seq<char>, fmt: Seq<char>) -> Option<(int, int)>;

/// The instant that `chrono` reads `text` as under the format `fmt`, taken as
/// a time in UTC; `None` where it reads none.
pub uninterp spec fn utc_format_instant(text: Seq<char>, fmt: Seq<char>) -> Option<(int, int)>;

/// The date that `chrono` reads `text` as under the format `fmt`, as year,
/// month and day; `None` where it reads none.
pub uninterp spec fn format_date(text: Seq<char>, fmt: Seq<char>) -> Option<(int, int, int)>;

/// The time of day that `chrono` reads `text` as under the format `fmt`, as
/// seconds and nanoseconds; `None` where it reads none.
pub uninterp spec fn format_time(text: Seq<char>, fmt: Seq<char>) -> Option<(int, int)>;

/// The given date as `chrono` writes it under the format `%F`, which is the
/// year, the month and the day with hyphens between them; `None` where the
/// date is none of its calendar.
pub uninterp spec fn iso_date(year: int, month: int, day: int) -> Option<Seq<char>>;

/// `chrono::NaiveDate::pred_opt`, on the date that
/// `chrono::NaiveDate::from_ymd_opt` makes of `day`: the date before `day`
/// in the Gregorian calendar. There is none where `day` is no date of the
/// calendar of `chrono`, which runs from the first day of -262143 to the last
/// of 262142, or is the first of that calendar.
#[verifier::external_body]
pub(crate) fn pred_day(day: Day) -> (r: Option<Day>)
    ensures
        match r {
            Some(d) => day_before(day.year as int, day.month as int, day.day as int) == Some(
                (d.year as int, d.month as int, d.day as int),
            ),
            None => day_before(day.year as int, day.month as int, day.day as int) is None,
        },
{
    chrono::NaiveDate::from_ymd_opt(day.year, day.month, day.day)?.pred_opt().map(
        |d| Day {
            year: chrono::Datelike::year(&d),
            month: chrono::Datelike::month(&d),
            day: chrono::Datelike::day(&d),
        },
    )
}

/// `chrono::NaiveDate::succ_opt`, on the date that
/// `chrono::NaiveDate::from_ymd_opt` makes of `day`: the date after `day` in
/// the Gregorian calendar. There is none where `day` is no date of the
/// calendar of `chrono` or is the last of that calendar.
#[verifier::external_body]
pub(crate) fn succ_day(day: Day) -> (r: Option<Day>)
    ensures
        match r {
            Some(d) => day_after(day.year as int, day.month as int, day.day as int) == Some(
                (d.year as int, d.month as int, d.day as int),
            ),
            None => day_after(day.year as int, day.month as int, day.day as int) is None,
        },
{
    chrono::NaiveDate::from_ymd_opt(day.year, day.month, day.day)?.succ_opt().map(
        |d| Day {
            year: chrono::Datelike::year(&d),
            month: chrono::Datelike::month(&d),
            day: chrono::Datelike::day(&d),
        },
    )
}

/// `chrono::NaiveDate::format` with the format `%F`, on the date that
/// `chrono::NaiveDate::from_ymd_opt` makes of `day`. The result depends on
/// the date alone, and there is one for every date of the calendar of
/// `chrono` and for no other.
#[verifier::external_body]
pub(crate) fn format_iso_date(day: Day) -> (r: Option<String>)
    ensures
        r is Some <==> day.spec_in_calendar(),
        match r {
            Some(s) => iso_date(day.year as int, day.month as int, day.day as int) == Some(s@),
            None => iso_date(day.year as int, day.month as int, day.day as int) is None,
        },
{
    chrono::NaiveDate::from_ymd_opt(day.year, day.month, day.day).map(
        |d| d.format("%F").to_string(),
    )
}

/// `chrono::DateTime::parse_from_rfc2822`, with the result moved to the
/// local time zone. Which instant is read depends on the text alone. The
/// local time of day depends on the machine's time zone: of it only the
/// range is claimed.
#[verifier::external_body]
pub(crate) fn parse_from_rfc2822(s: &str) -> (r: Option<LocalDateTime>)
    ensures
        match r {
            Some(d) => rfc2822_instant(s@) == Some(d.instant()) && d.wf(),
            None => rfc2822_instant(s@) is None,
        },
{
    chrono::DateTime::parse_from_rfc2822(s).ok().map(
        |d| {
            let local = d.with_timezone(&chrono::Local);
            LocalDateTime {
                timestamp: local.timestamp(),
                time: TimeOfDay { secs: local.num_seconds_from_midnight(), frac: local.nanosecond() },
            }
        },
    )
}

/// `chrono::DateTime::parse_from_str`, with the result moved to the local
/// time zone. Which instant is read depends on the text and the format
/// alone; of the local time of day only the range is claimed.
#[verifier::external_body]
pub(crate) fn parse_from_str(s: &str, fmt: &str) -> (r: Option<LocalDateTime>)
    ensures
        match r {
            Some(d) => offset_format_instant(s@, fmt@) == Some(d.instant()) && d.wf(),
            None => offset_format_instant(s@, fmt@) is None,
        },
{
    chrono::DateTime::parse_from_str(s, fmt).ok().map(
        |d| {
            let local = d.with_timezone(&chrono::Local);
            LocalDateTime {
                timestamp: local.timestamp(),
                time: TimeOfDay { secs: local.num_seconds_from_midnight(), frac: local.nanosecond() },
            }
        },
    )
}

/// `chrono::TimeZone::datetime_from_str` on `chrono::Utc`, with the result
/// moved to the local time zone. Which instant is read depends on the text
/// and the format alone; of the local time of day only the range is claimed.
#[verifier::external_body]
#[allow(deprecated)]
pub(crate) fn utc_datetime_from_str(s: &str, fmt: &str) -> (r: Option<LocalDateTime>)
    ensures
        match r {
            Some(d) => utc_format_instant(s@, fmt@) == Some(d.instant()) && d.wf(),
            None => utc_format_instant(s@, fmt@) is None,
        },
{
    chrono::Utc.datetime_from_str(s, fmt).ok().map(
        |d| {
            let local = d.with_timezone(&chrono::Local);
            LocalDateTime {
                timestamp: local.timestamp(),
                time: TimeOfDay { secs: local.num_seconds_from_midnight(), frac: local.nanosecond() },
            }
        },
    )
}

/// What `chrono` reads `text` as under the format `fmt`, which gives no
/// time zone: the date and the time of day that the text names; `None` where
/// it reads none.
pub uninterp spec fn zoneless_reading(text: Seq<char>, fmt: Seq<char>) -> Option<WallClock>;

/// `chrono::NaiveDateTime::parse_from_str`. Which date and time are read
/// depends on the text and the format alone; the date is one of the calendar
/// of `chrono`, and the time lies within one day.
#[verifier::external_body]
pub(crate) fn naive_parse_from_str(s: &str, fmt: &str) -> (r: Option<WallClock>)
    ensures
        r == zoneless_reading(s@, fmt@),
        r matches Some(w) ==> w.time.wf() && w.day.spec_in_calendar(),
{
    chrono::NaiveDateTime::parse_from_str(s, fmt).ok().map(
        |d| WallClock {
            day: Day {
                year: chrono::Datelike::year(&d),
                month: chrono::Datelike::month(&d),
                day: chrono::Datelike::day(&d),
            },
            time: TimeOfDay { secs: d.num_seconds_from_midnight(), frac: d.nanosecond() },
        },
    )
}

/// `chrono::NaiveDate::parse_from_str`. Which date is read depends on the
/// text and the format alone.
#[verifier::external_body]
pub(crate) fn date_parse_from_str(s: &str, fmt: &str) -> (r: Option<Day>)
    ensures
        match r {
            Some(d) => format_date(s@, fmt@) == Some((d.year as int, d.month as int, d.day as int)),
            None => format_date(s@, fmt@) is None,
        },
{
    chrono::NaiveDate::parse_from_str(s, fmt).ok().map(
        |d| Day {
            year: chrono::Datelike::year(&d),
            month: chrono::Datelike::month(&d),
            day: chrono::Datelike::day(&d),
        },
    )
}

/// `chrono::NaiveTime::parse_from_str`. Which time is read depends on the
/// text and the format alone, and it lies within one day.
#[verifier::external_body]
pub(crate) fn time_parse_from_str(s: &str, fmt: &str) -> (r: Option<TimeOfDay>)
    ensures
        match r {
            Some(t) => format_time(s@, fmt@) == Some((t.secs as int, t.frac as int)) && t.wf(),
            None => format_time(s@, fmt@) is None,
        },
{
    chrono::NaiveTime::parse_from_str(s, fmt).ok().map(
        |t| TimeOfDay { secs: t.num_seconds_from_midnight(), frac: t.nanosecond() },
    )
}

/// Whether the calendar of `chrono` reaches the instant `timestamp`, so that
/// `chrono` can tell the date and the time at it.
pub uninterp spec fn is_in_calendar(timestamp: int) -> bool;

/// `chrono::TimeZone::timestamp_opt` on `chrono::Local`: the local time of
/// day at the instant `timestamp`. Whether there is one depends on the
/// instant alone: `chrono` gives none for a count of seconds that is out of
/// the range of its calendar, and a single one for every other. The time
/// itself depends on the machine's time zone, so only its range is claimed,
/// and that it falls on a whole second.
#[verifier::external_body]
pub(crate) fn local_time_at(timestamp: i64) -> (r: Option<TimeOfDay>)
    ensures
        r is Some <==> is_in_calendar(timestamp as int),
        r matches Some(t) ==> t.wf() && t.frac == 0,
{
    chrono::Local.timestamp_opt(timestamp, 0).single().map(
        |d| TimeOfDay { secs: d.num_seconds_from_midnight(), frac: d.nanosecond() },
    )
}

/// `chrono::DateTime::to_string` on the instant in `chrono::Local`: the date,
/// the time and the offset as the machine's time zone shows them, for a
/// message to the reader. Nothing is claimed of the text. `None` where
/// `chrono` cannot count that far.
#[verifier::external_body]
pub(crate) fn display_local(date: &LocalDateTime) -> (r: Option<String>) {
    chrono::Local.timestamp_opt(date.timestamp, date.time.frac).single().map(|d| d.to_string())
}

/// `chrono::TimeZone::from_local_datetime` on `chrono::Local`: the instant
/// at which the machine's time zone shows the date and the time `clock`. It
/// depends on that time zone, so nothing is claimed of it. `None` where the
/// time zone shows them at no instant or at two, and where `chrono` has no
/// such date or time: `chrono::NaiveDate::from_ymd_opt` makes dates of its
/// calendar only, so there is a result only for such a date.
#[verifier::external_body]
pub(crate) fn local_instant_of(clock: WallClock) -> (r: Option<i64>)
    ensures
        r is Some ==> clock.day.spec_in_calendar(),
{
    let date = chrono::NaiveDate::from_ymd_opt(clock.day.year, clock.day.month, clock.day.day)?;
    let time = chrono::NaiveTime::from_num_seconds_from_midnight_opt(
        clock.time.secs,
        clock.time.frac,
    )?;
    chrono::Local.from_local_datetime(&date.and_time(time)).single().map(|d| d.timestamp())
}

} // verus!
