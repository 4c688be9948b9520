//! Entries of a calendar feed that begin on one day.
//!
//! The feed is fetched by the caller. Reading it as a calendar is left to
//! the `ical` crate; what is decided here is which entries are of the day
//! and what the event of an entry says.

use crate::events::events::Event;
use crate::events::events::EventBody;
use crate::events::events::SourceError;
use crate::icons::Icon;
use crate::text::push_decimal2;
use crate::text::push_signed;
use crate::text::push_signed2;
use crate::text::push_str;
use crate::text::replace;
use crate::text::same;
use crate::text::spec_decimal2;
use crate::text::spec_replace;
use crate::text::spec_signed;
use crate::text::spec_signed2;
use crate::text::string_of;
use crate::time::utc_datetime_from_str;
use crate::time::utc_format_instant;
use crate::time::zoneless_reading;
use crate::time::DayWindow;
use crate::time::LocalDateTime;
use crate::time::TimeOfDay;
use crate::config::Config;
use crate::events::events::chosen_values;
use crate::events::events::field_values;
use crate::events::events::value_for;
use crate::events::events::ConfigType;
use crate::events::events::EventProvider;
use vstd::prelude::*;

verus! {

/// One configured feed.
#[derive(Clone, Debug)]
pub struct IcalConfig {
    pub ical_url: String,
}

/// The source of events that reads a calendar feed.
#[derive(Clone, Copy, Debug, PartialEq, Eq, Structural)]
pub struct Ical;

/// One property of an entry: its name and its value.
#[derive(Clone, Debug, PartialEq)]
pub struct EntryProperty {
    pub name: String,
    pub value: Option<String>,
}

/// One entry of a calendar.
#[derive(Clone, Debug, PartialEq)]
pub struct CalendarEntry {
    pub properties: Vec<EntryProperty>,
}

/// One calendar of a feed: its entries, or `None` where it cannot be read.
#[derive(Clone, Debug, PartialEq)]
pub struct Calendar {
    pub entries: Option<Vec<CalendarEntry>>,
}

impl DeepView for EntryProperty {
    type V = (Seq<char>, Option<Seq<char>>);

    open spec fn deep_view(&self) -> (Seq<char>, Option<Seq<char>>) {
        (self.name@, self.value.deep_view())
    }
}

impl DeepView for CalendarEntry {
    type V = Seq<(Seq<char>, Option<Seq<char>>)>;

    open spec fn deep_view(&self) -> Seq<(Seq<char>, Option<Seq<char>>)> {
        self.properties.deep_view()
    }
}

impl DeepView for Calendar {
    type V = Option<Seq<Seq<(Seq<char>, Option<Seq<char>>)>>>;

    open spec fn deep_view(&self) -> Option<Seq<Seq<(Seq<char>, Option<Seq<char>>)>>> {
        self.entries.deep_view()
    }
}

/// The calendars that the `ical` crate reads from the text of a feed, one
/// after the other: of each the entries, and of each entry the names and the
/// values of its properties; `None` in the place of a calendar that cannot
/// be read.
pub uninterp spec fn parsed_calendars(text: Seq<char>) -> Seq<
    Option<Seq<Seq<(Seq<char>, Option<Seq<char>>)>>>,
>;

/// `ical::IcalParser`, run over the whole text: every calendar that it
/// gives, with the names and values of the properties of its events, and
/// `None` in the place of a calendar that it gives an error for. What is
/// read depends on the text alone.
#[verifier::external_body]
pub(crate) fn parse_calendars(text: &str) -> (r: Vec<Calendar>)
    ensures
        r.deep_view() == parsed_calendars(text@),
{
    ical::IcalParser::new(std::io::BufReader::new(text.as_bytes())).map(
        |line| Calendar {
            entries: line.ok().map(
                |cal| cal.events.iter().map(
                    |event| CalendarEntry {
                        properties: event.properties.iter().map(
                            |p| EntryProperty { name: p.name.clone(), value: p.value.clone() },
                        ).collect(),
                    },
                ).collect(),
            ),
        },
    ).collect()
}

/// The value of the first property named `name`; `None` where there is no
/// such property or it has no value.
pub open spec fn spec_property_value(properties: Seq<EntryProperty>, name: Seq<char>) -> Option<
    String,
>
    decreases properties.len(),
{
    if properties.len() == 0 {
        None
    } else if properties[0].name@ == name {
        properties[0].value
    } else {
        spec_property_value(properties.skip(1), name)
    }
}

/// The value of the first of the properties `names`, from `from` on, that
/// has one.
pub open spec fn spec_property_value_any(
    properties: Seq<EntryProperty>,
    names: Seq<&str>,
    from: int,
) -> Option<String>
    decreases names.len() - from,
{
    if from < 0 || from >= names.len() {
        None
    } else if spec_property_value(properties, names[from]@) is Some {
        spec_property_value(properties, names[from]@)
    } else {
        spec_property_value_any(properties, names, from + 1)
    }
}

/// The summary of an entry: its `SUMMARY`, else its `DESCRIPTION`, else its
/// `LOCATION`.
pub open spec fn spec_summary(entry: CalendarEntry) -> Option<String> {
    match spec_property_value(entry.properties@, "SUMMARY"@) {
        Some(s) => Some(s),
        None => match spec_property_value(entry.properties@, "DESCRIPTION"@) {
            Some(s) => Some(s),
            None => spec_property_value(entry.properties@, "LOCATION"@),
        },
    }
}

/// The quotient of `a` by the positive `b`, rounded toward zero.
pub open spec fn spec_div_toward_zero(a: int, b: int) -> int {
    if a >= 0 {
        a / b
    } else {
        -((-a) / b)
    }
}

/// The whole seconds from `st` to `end_dt`, rounded toward zero.
pub open spec fn spec_seconds_between(st: LocalDateTime, end_dt: LocalDateTime) -> int {
    spec_div_toward_zero(
        (end_dt.timestamp - st.timestamp) * 1_000_000_000 + (end_dt.time.frac - st.time.frac),
        1_000_000_000,
    )
}

/// What is said of the end of an entry that begins at `st` and ends at
/// `end_dt`: the local time of the end, as hours and minutes, and the
/// duration, as its whole hours and its whole minutes.
pub open spec fn spec_end_text(st: LocalDateTime, end_dt: LocalDateTime) -> Seq<char> {
    let seconds = spec_seconds_between(st, end_dt);
    "End: "@ + spec_decimal2((end_dt.time.secs / 3600) as nat) + ":"@ + spec_decimal2(
        ((end_dt.time.secs / 60) % 60) as nat,
    ) + "; duration: "@ + spec_signed(spec_div_toward_zero(seconds, 3600)) + ":"@ + spec_signed2(
        spec_div_toward_zero(seconds, 60),
    )
}

/// Whether `ev` is the event of an entry with the summary `summ` that
/// begins at `st` and ends at `end_dt`, if it has an end.
pub open spec fn is_calendar_event(
    ev: Event,
    summ: Seq<char>,
    st: LocalDateTime,
    end_dt: Option<LocalDateTime>,
) -> bool {
    &&& ev.event_type_desc == "Ical"
    &&& ev.event_type_icon.spec_name() == "calendar-alt-symbolic"
    &&& ev.event_time == st.time
    &&& ev.event_info@ == spec_replace(summ, "\\,"@, ","@)
    &&& ev.event_contents_header@ == spec_replace(summ, "\\,"@, ","@)
    &&& ev.event_contents_body matches EventBody::PlainText(body)
    &&& match end_dt {
        Some(e) => {
            &&& body@ == spec_end_text(st, e)
            &&& ev.event_extra_details matches Some(extra)
            &&& extra@ == spec_end_text(st, e)
        },
        None => body@ == Seq::<char>::empty() && ev.event_extra_details is None,
    }
}

/// Whether the text of a date names a date and a time without a time zone,
/// or a date alone, whose time is then midnight.
pub open spec fn has_local_reading(text: Seq<char>) -> bool {
    zoneless_reading(text, "%Y%m%dT%H%M%S"@) is Some || zoneless_reading(
        text + "T00:00:00"@,
        "%Y%m%dT%T"@,
    ) is Some
}

/// Whether `time` is the time of day that the text of a date names without
/// a time zone: the time that the text gives, or midnight for a date alone.
pub open spec fn is_local_time(time: TimeOfDay, text: Seq<char>) -> bool {
    ||| zoneless_reading(text, "%Y%m%dT%H%M%S"@) matches Some(clock) && clock.time == time
    ||| zoneless_reading(text + "T00:00:00"@, "%Y%m%dT%T"@) matches Some(clock) && clock.time
        == time
}

/// The instant at which `entry` begins, where its beginning is given in
/// UTC.
pub open spec fn spec_named_start(entry: CalendarEntry) -> Option<(int, int)> {
    match spec_property_value(entry.properties@, "DTSTART"@) {
        Some(text) => utc_format_instant(text@, "%Y%m%dT%H%M%SZ"@),
        None => None,
    }
}

/// Whether `ev` is the event of `entry`, which begins on the day `day`: the
/// entry has a summary and a beginning, the event is made of them, and the
/// beginning is of the day. A beginning that is given in UTC is the instant
/// that it names; any other is read in the time zone of the machine.
pub open spec fn is_event_of_entry(ev: Event, entry: CalendarEntry, day: DayWindow) -> bool {
    &&& spec_summary(entry) is Some
    &&& spec_property_value(entry.properties@, "DTSTART"@) is Some
    &&& exists|st: LocalDateTime, end_dt: Option<LocalDateTime>|
        {
            &&& st.wf()
            &&& day.spec_contains(st.timestamp)
            &&& spec_named_start(entry) matches Some(i) ==> st.instant() == i
            &&& #[trigger] is_calendar_event(ev, spec_summary(entry).unwrap()@, st, end_dt)
        }
}

/// Whether `entry` can be without an event on the day `day`: it lacks a
/// summary or a beginning, or its beginning, where that is given in UTC, is
/// not of the day.
pub open spec fn may_be_passed(entry: CalendarEntry, day: DayWindow) -> bool {
    ||| spec_summary(entry) is None
    ||| spec_property_value(entry.properties@, "DTSTART"@) is None
    ||| (spec_named_start(entry) matches Some(i) ==> !(day.day_start <= i.0 < day.next_day_start))
}

/// Whether `events` are the events of the day `day` for `entries`: each
/// entry is passed or has its event, and the events stand in the order of
/// their entries.
pub open spec fn are_events_of_entries(
    events: Seq<Event>,
    entries: Seq<CalendarEntry>,
    day: DayWindow,
) -> bool
    decreases entries.len(),
{
    if entries.len() == 0 {
        events.len() == 0
    } else {
        ||| (may_be_passed(entries.last(), day) && are_events_of_entries(
            events,
            entries.drop_last(),
            day,
        ))
        ||| (events.len() > 0 && is_event_of_entry(events.last(), entries.last(), day)
            && are_events_of_entries(events.drop_last(), entries.drop_last(), day))
    }
}

/// The entries of all of `calendars`, calendar after calendar.
pub open spec fn all_entries(calendars: Seq<Calendar>) -> Seq<CalendarEntry>
    decreases calendars.len(),
{
    if calendars.len() == 0 {
        Seq::empty()
    } else {
        all_entries(calendars.drop_last()) + match calendars.last().entries {
            Some(entries) => entries@,
            None => Seq::empty(),
        }
    }
}

/// The position of the first calendar at or after `from` that could not be
/// read.
pub open spec fn first_unread(calendars: Seq<Calendar>, from: int) -> Option<int>
    decreases calendars.len() - from,
{
    if from < 0 || from >= calendars.len() {
        None
    } else if calendars[from].entries is None {
        Some(from)
    } else {
        first_unread(calendars, from + 1)
    }
}

/// Whether `r` is what the calendars `calendars` give for the day `day`:
/// the events of the entries that begin on the day, in the order of the
/// calendars, or an error where a calendar could not be read.
pub open spec fn is_reading_of_calendars(
    r: Result<Vec<Event>, SourceError>,
    calendars: Seq<Calendar>,
    day: DayWindow,
) -> bool {
    match first_unread(calendars, 0) {
        Some(_) => r matches Err(e) && e.is_io("Ical error"@),
        None => r matches Ok(events) && are_events_of_entries(
            events@,
            all_entries(calendars),
            day,
        ),
    }
}

/// Whether `r` is what calendars that hold the texts which the `ical` crate
/// reads from the feed `text` give for the day `day`.
pub open spec fn is_reading_of_feed(
    r: Result<Vec<Event>, SourceError>,
    text: Seq<char>,
    day: DayWindow,
) -> bool {
    exists|calendars: Vec<Calendar>|
        calendars.deep_view() == parsed_calendars(text) && #[trigger] is_reading_of_calendars(
            r,
            calendars@,
            day,
        )
}

/// Whether one of the calendars read could not be read.
pub open spec fn has_unread(reading: Seq<Option<Seq<Seq<(Seq<char>, Option<Seq<char>>)>>>>)
    -> bool {
    exists|k: int| 0 <= k < reading.len() && #[trigger] reading[k] is None
}

/// `first_unread` finds a calendar that could not be read exactly where
/// there is one at or after `from`.
pub proof fn lemma_first_unread(calendars: Seq<Calendar>, from: int)
    requires
        0 <= from,
    ensures
        first_unread(calendars, from) is Some <==> exists|k: int|
            from <= k < calendars.len() && (#[trigger] calendars[k]).entries is None,
    decreases calendars.len() - from,
{
    if from < calendars.len() {
        lemma_first_unread(calendars, from + 1);
        if calendars[from].entries is Some && first_unread(calendars, from) is None {
            assert forall|k: int| from <= k < calendars.len() implies (
            #[trigger] calendars[k]).entries is Some by {
                if k > from {
                }
            }
        }
    }
}

impl Ical {
    /// The value of the first property named `name`.
    pub fn get_property_value<'a>(event: &'a CalendarEntry, name: &str) -> (r: Option<&'a str>)
        ensures
            match spec_property_value(event.properties@, name@) {
                Some(v) => r matches Some(s) && s@ == v@,
                None => r is None,
            },
    {
        let mut i: usize = 0;
        assert(event.properties@.skip(0) =~= event.properties@);
        while i < event.properties.len()
            invariant
                i <= event.properties@.len(),
                spec_property_value(event.properties@, name@) == spec_property_value(
                    event.properties@.skip(i as int),
                    name@,
                ),
            decreases event.properties.len() - i,
        {
            assert(event.properties@.skip(i as int).skip(1) =~= event.properties@.skip(i + 1));
            if same(event.properties[i].name.as_str(), name) {
                return match &event.properties[i].value {
                    Some(v) => Some(v.as_str()),
                    None => None,
                };
            }
            i = i + 1;
        }
        None
    }

    /// The value of the first of the properties `names` that has one.
    pub fn get_property_value_any<'a>(event: &'a CalendarEntry, names: &[&str]) -> (r: Option<
        &'a str,
    >)
        ensures
            match spec_property_value_any(event.properties@, names@, 0) {
                Some(v) => r matches Some(s) && s@ == v@,
                None => r is None,
            },
    {
        let mut i: usize = 0;
        while i < names.len()
            invariant
                i <= names@.len(),
                spec_property_value_any(event.properties@, names@, 0) == spec_property_value_any(
                    event.properties@,
                    names@,
                    i as int,
                ),
            decreases names.len() - i,
        {
            let found = Self::get_property_value(event, names[i]);
            if found.is_some() {
                return found;
            }
            i = i + 1;
        }
        None
    }

    /// The summary of an entry: its `SUMMARY`, else its `DESCRIPTION`, else
    /// its `LOCATION`.
    pub fn summary_of<'a>(event: &'a CalendarEntry) -> (r: Option<&'a str>)
        ensures
            match spec_summary(*event) {
                Some(v) => r matches Some(s) && s@ == v@,
                None => r is None,
            },
    {
        match Self::get_property_value(event, "SUMMARY") {
            Some(s) => Some(s),
            None => match Self::get_property_value(event, "DESCRIPTION") {
                Some(s) => Some(s),
                None => Self::get_property_value(event, "LOCATION"),
            },
        }
    }

    /// Reads a date of a calendar. Three shapes are tried in turn: date and
    /// time in UTC, with a `Z` at the end; date and time without a time
    /// zone, which are taken as local time; and a date alone, which is taken
    /// as the local midnight.
    ///
    /// Which instant a date of the first shape is depends on the text alone.
    /// A date of the other shapes is read in the time zone of the machine.
    pub fn parse_ical_date(ical_date_str: &str) -> (r: Option<LocalDateTime>)
        ensures
            r matches Some(d) ==> d.wf(),
            match utc_format_instant(ical_date_str@, "%Y%m%dT%H%M%SZ"@) {
                Some(i) => r matches Some(d) && d.instant() == i,
                None => match r {
                    Some(d) => is_local_time(d.time, ical_date_str@),
                    None => true,
                },
            },
            utc_format_instant(ical_date_str@, "%Y%m%dT%H%M%SZ"@) is None && !has_local_reading(
                ical_date_str@,
            ) ==> r is None,
    {
        match utc_datetime_from_str(ical_date_str, "%Y%m%dT%H%M%SZ") {
            Some(d) => Some(d),
            None => match LocalDateTime::read_local(ical_date_str, "%Y%m%dT%H%M%S") {
                Some(d) => Some(d),
                None => {
                    let mut with_time: Vec<char> = Vec::new();
                    push_str(&mut with_time, ical_date_str);
                    push_str(&mut with_time, "T00:00:00");
                    LocalDateTime::read_local(string_of(&with_time).as_str(), "%Y%m%dT%T")
                },
            },
        }
    }

    /// The whole seconds from `st` to `end_dt`, rounded toward zero.
    pub fn seconds_between(st: &LocalDateTime, end_dt: &LocalDateTime) -> (r: i128)
        ensures
            r == spec_seconds_between(*st, *end_dt),
    {
        let nanos: i128 = (end_dt.timestamp as i128 - st.timestamp as i128) * 1_000_000_000 + (
        end_dt.time.frac as i128 - st.time.frac as i128);
        let r = if nanos >= 0 {
            nanos / 1_000_000_000
        } else {
            -((-nanos) / 1_000_000_000)
        };
        r
    }

    /// The event of an entry with the summary `summ` that begins at `st` and
    /// ends at `end_dt`, if it has an end.
    pub fn build_event(summ: &str, st: LocalDateTime, end_dt: Option<LocalDateTime>) -> (r: Event)
        ensures
            is_calendar_event(r, summ@, st, end_dt),
    {
        let summary = replace(summ, "\\,", ",");
        let extra_info = match end_dt {
            Some(e) => {
                let seconds = Self::seconds_between(&st, &e);
                let hours = if seconds >= 0 {
                    seconds / 3600
                } else {
                    -((-seconds) / 3600)
                };
                let minutes = if seconds >= 0 {
                    seconds / 60
                } else {
                    -((-seconds) / 60)
                };
                let mut text: Vec<char> = Vec::new();
                push_str(&mut text, "End: ");
                push_decimal2(&mut text, e.time.hour() as u128);
                push_str(&mut text, ":");
                push_decimal2(&mut text, e.time.minute() as u128);
                push_str(&mut text, "; duration: ");
                push_signed(&mut text, hours);
                push_str(&mut text, ":");
                push_signed2(&mut text, minutes);
                assert(text@ =~= spec_end_text(st, e));
                Some(string_of(&text))
            },
            None => None,
        };
        let body = match &extra_info {
            Some(i) => i.clone(),
            None => String::new(),
        };
        Event::new(
            "Ical",
            Icon::calendar_alt(),
            st.time,
            summary.clone(),
            summary,
            EventBody::PlainText(body),
            extra_info,
        )
    }

    /// The event of an entry with the summary `summ`, the beginning `st` and
    /// the end `end_dt`, if the entry has a beginning and a summary and
    /// begins on the day `day`.
    pub fn event_if_in_range(
        summ: Option<&str>,
        st: Option<LocalDateTime>,
        end_dt: Option<LocalDateTime>,
        day: &DayWindow,
    ) -> (r: Option<Event>)
        ensures
            match (st, summ) {
                (Some(s), Some(text)) => if day.spec_contains(s.timestamp) {
                    r matches Some(ev) && is_calendar_event(ev, text@, s, end_dt)
                } else {
                    r is None
                },
                _ => r is None,
            },
    {
        match (st, summ) {
            (Some(s), Some(text)) => {
                if day.contains(s.timestamp) {
                    Some(Self::build_event(text, s, end_dt))
                } else {
                    None
                }
            },
            _ => None,
        }
    }

    /// Adds the event of `event` to `result` if the entry begins on the day
    /// `day`. An entry without a beginning that can be read, or without a
    /// summary, is passed.
    pub fn add_event_if_in_range(event: &CalendarEntry, day: &DayWindow, result: &mut Vec<Event>)
        ensures
            ({
                ||| (final(result)@ == old(result)@ && may_be_passed(*event, *day))
                ||| (final(result)@.len() == old(result)@.len() + 1 && final(result)@.drop_last()
                    == old(result)@ && is_event_of_entry(final(result)@.last(), *event, *day))
            }),
    {
        let start = match Self::get_property_value(event, "DTSTART") {
            Some(text) => Self::parse_ical_date(text),
            None => None,
        };
        let end = match Self::get_property_value(event, "DTEND") {
            Some(text) => Self::parse_ical_date(text),
            None => None,
        };
        let summary = Self::summary_of(event);
        match Self::event_if_in_range(summary, start, end, day) {
            Some(ev) => {
                assert(is_calendar_event(ev, spec_summary(*event).unwrap()@, start.unwrap(), end));
                result.push(ev);
                assert(result@.drop_last() =~= old(result)@);
            },
            None => {},
        }
    }

    /// The events of the entries of the feed `ical_text` that begin on the
    /// day `day`, in the order of the feed. A feed with a calendar that
    /// cannot be read is an error.
    pub fn get_events(ical_text: &str, day: &DayWindow) -> (r: Result<Vec<Event>, SourceError>)
        ensures
            is_reading_of_feed(r, ical_text@, *day),
            r is Err <==> has_unread(parsed_calendars(ical_text@)),
    {
        let calendars = parse_calendars(ical_text);
        let r = Self::events_of_calendars(&calendars, day);
        proof {
            assert(is_reading_of_calendars(r, calendars@, *day));
            lemma_first_unread(calendars@, 0);
            let reading = calendars.deep_view();
            if r is Err {
                let k = choose|k: int|
                    0 <= k < calendars@.len() && (#[trigger] calendars@[k]).entries is None;
                assert(reading[k] is None);
            }
            if has_unread(reading) {
                let k = choose|k: int| 0 <= k < reading.len() && #[trigger] reading[k] is None;
                assert(calendars@[k].entries is None);
            }
        }
        r
    }

    /// The events of the entries of `calendars` that begin on the day
    /// `day`, in the order of the calendars. A calendar that could not be
    /// read is an error.
    pub fn events_of_calendars(calendars: &Vec<Calendar>, day: &DayWindow) -> (r: Result<
        Vec<Event>,
        SourceError,
    >)
        ensures
            is_reading_of_calendars(r, calendars@, *day),
    {
        let mut result: Vec<Event> = Vec::new();
        let mut c: usize = 0;
        assert(calendars@.take(0) =~= Seq::<Calendar>::empty());
        while c < calendars.len()
            invariant
                c <= calendars@.len(),
                first_unread(calendars@, 0) == first_unread(calendars@, c as int),
                are_events_of_entries(result@, all_entries(calendars@.take(c as int)), *day),
            decreases calendars.len() - c,
        {
            let ghost before = all_entries(calendars@.take(c as int));
            match &calendars[c].entries {
                Some(entries) => {
                    let mut i: usize = 0;
                    assert(before + entries@.take(0) =~= before);
                    while i < entries.len()
                        invariant
                            i <= entries@.len(),
                            are_events_of_entries(
                                result@,
                                before + entries@.take(i as int),
                                *day,
                            ),
                        decreases entries.len() - i,
                    {
                        let ghost seen = before + entries@.take(i as int);
                        Self::add_event_if_in_range(&entries[i], day, &mut result);
                        proof {
                            let next = before + entries@.take(i + 1);
                            assert(next.drop_last() =~= seen);
                            assert(next.last() == entries@[i as int]);
                        }
                        i = i + 1;
                    }
                    proof {
                        assert(entries@.take(entries@.len() as int) =~= entries@);
                        let next = calendars@.take(c + 1);
                        assert(next.drop_last() =~= calendars@.take(c as int));
                        assert(next.last() == calendars@[c as int]);
                    }
                },
                None => {
                    return Err(SourceError::Io("Ical error".to_owned()));
                },
            }
            c = c + 1;
        }
        assert(calendars@.take(calendars@.len() as int) =~= calendars@);
        Ok(result)
    }
}

impl EventProvider for Ical {
    open spec fn spec_name(&self) -> &'static str {
        "Ical"
    }

    open spec fn spec_icon_name(&self) -> &'static str {
        "calendar-alt-symbolic"
    }

    open spec fn spec_config_fields(&self) -> Seq<(&'static str, ConfigType)> {
        seq![("Ical URL", ConfigType::Text(""))]
    }

    open spec fn spec_config_names(&self, config: &Config) -> Seq<Seq<char>> {
        config.ical.names()
    }

    open spec fn spec_config_values(&self, config: &Config, config_name: Seq<char>) -> Option<
        Seq<Seq<char>>,
    > {
        if config.ical.contains(config_name) {
            Some(seq![config.ical.value(config_name).ical_url@])
        } else {
            None
        }
    }

    fn get_config_fields(&self) -> (r: Vec<(&'static str, ConfigType)>) {
        let mut fields: Vec<(&'static str, ConfigType)> = Vec::new();
        fields.push(("Ical URL", ConfigType::Text("")));
        assert(fields@ =~= self.spec_config_fields());
        fields
    }

    fn name(&self) -> (r: &'static str) {
        "Ical"
    }

    fn default_icon(&self) -> (r: Icon) {
        Icon::calendar_alt()
    }

    fn get_config_names(&self, config: &Config) -> (r: Vec<String>) {
        config.ical.get_names()
    }

    fn get_config_values(&self, config: &Config, config_name: &str) -> (r: Vec<
        (&'static str, String),
    >) {
        let mut values: Vec<(&'static str, String)> = Vec::new();
        match config.ical.get(config_name) {
            Some(source) => {
                values.push(("Ical URL", source.ical_url.clone()));
            },
            None => {},
        }
        assert(field_values(values@) =~= self.spec_config_values(config, config_name@).unwrap());
        values
    }

    fn add_config_values(
        &self,
        config: &mut Config,
        config_name: String,
        config_values: Vec<(&'static str, String)>,
    )
        ensures
            final(config).ical.as_map() == old(config).ical.as_map().insert(
                config_name@,
                final(config).ical.value(config_name@),
            ),
            final(config).git == old(config).git,
            final(config).email == old(config).email,
            final(config).redmine == old(config).redmine,
            final(config).gitlab == old(config).gitlab,
            final(config).stackexchange == old(config).stackexchange,
            final(config).prefer_dark_theme == old(config).prefer_dark_theme,
            final(config).prev_next_day_skip_weekends == old(config).prev_next_day_skip_weekends,
    {
        proof {
            let fields = self.spec_config_fields();
            assert(fields[0].0@ == "Ical URL"@);
        }
        let ical_url = value_for(&config_values, "Ical URL");
        let ghost added = IcalConfig { ical_url };
        config.ical.insert(config_name, IcalConfig { ical_url });
        proof {
            let table = config.ical.as_map();
            assert(table == old(config).ical.as_map().insert(config_name@, added));
            assert(table.dom().contains(config_name@));
            assert(table[config_name@] == added);
            assert(config.ical.contains(config_name@));
            assert(config.ical.value(config_name@) == added);
            assert(self.spec_config_values(config, config_name@).unwrap() =~= chosen_values(
                self.spec_config_fields(),
                config_values@,
            ));
        }
    }

    fn remove_config(&self, config: &mut Config, config_name: String)
        ensures
            final(config).ical.as_map() == old(config).ical.as_map().remove(config_name@),
            final(config).git == old(config).git,
            final(config).email == old(config).email,
            final(config).redmine == old(config).redmine,
            final(config).gitlab == old(config).gitlab,
            final(config).stackexchange == old(config).stackexchange,
            final(config).prefer_dark_theme == old(config).prefer_dark_theme,
            final(config).prev_next_day_skip_weekends == old(config).prev_next_day_skip_weekends,
    {
        config.ical.remove(config_name.as_str());
        proof {
            assert(!config.ical.as_map().dom().contains(config_name@));
        }
    }
}

} // verus!
