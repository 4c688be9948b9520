use chrono::FixedOffset;
use chrono::Local;
use chrono::TimeZone;
use cigale::events::events::EventBody;
use cigale::events::events::SourceError;
use cigale::events::ical::Calendar;
use cigale::events::ical::CalendarEntry;
use cigale::events::ical::EntryProperty;
use cigale::events::ical::Ical;
use cigale::time::DayWindow;
use cigale::time::LocalDateTime;
use cigale::time::TimeOfDay;

fn parsed(text: &str) -> i64 {
    Ical::parse_ical_date(text).unwrap().timestamp
}

fn at(timestamp: i64, secs: u32) -> LocalDateTime {
    LocalDateTime { timestamp, time: TimeOfDay { secs, frac: 0 } }
}

fn entry(properties: &[(&str, Option<&str>)]) -> CalendarEntry {
    CalendarEntry {
        properties: properties
            .iter()
            .map(|(name, value)| EntryProperty {
                name: name.to_string(),
                value: value.map(|v| v.to_string()),
            })
            .collect(),
    }
}

#[test]
fn it_parses_ical_dates_correctly() {
    assert_eq!(
        FixedOffset::east_opt(3600)
            .unwrap()
            .with_ymd_and_hms(2020, 2, 9, 15, 30, 50)
            .unwrap()
            .timestamp(),
        parsed(&"20200209T143050Z".to_string())
    );
    // in practice entries with time which don't contain the timezone inline
    // have a separate ical entry: Property{name=DTSTART, params: {TZID: .., value: ..}}
    // but for now i'll just assume local time.
    assert_eq!(
        Local.with_ymd_and_hms(2020, 2, 9, 14, 30, 50).unwrap().timestamp(),
        parsed(&"20200209T143050".to_string())
    );
    assert_eq!(
        Local.with_ymd_and_hms(2014, 3, 31, 0, 0, 0).unwrap().timestamp(),
        parsed(&"20140331".to_string())
    );
}

#[test]
fn a_date_in_utc_is_the_same_everywhere() {
    assert_eq!(1581258650, parsed("20200209T143050Z"));
    assert_eq!(None, Ical::parse_ical_date("2020-02-09"));
    assert_eq!(None, Ical::parse_ical_date(""));
}

#[test]
fn the_first_property_of_a_name_counts() {
    let e = entry(&[
        ("DTSTART", Some("20200209T143050Z")),
        ("SUMMARY", None),
        ("SUMMARY", Some("second")),
        ("LOCATION", Some("here")),
    ]);
    assert_eq!(Some("20200209T143050Z"), Ical::get_property_value(&e, "DTSTART"));
    // the first summary has no value
    assert_eq!(None, Ical::get_property_value(&e, "SUMMARY"));
    assert_eq!(None, Ical::get_property_value(&e, "DTEND"));
    assert_eq!(
        Some("here"),
        Ical::get_property_value_any(&e, &["SUMMARY", "DESCRIPTION", "LOCATION"])
    );
    assert_eq!(Some("here"), Ical::summary_of(&e));
    assert_eq!(None, Ical::get_property_value_any(&e, &["SUMMARY", "DESCRIPTION"]));
    assert_eq!(None, Ical::get_property_value_any(&e, &[]));
}

#[test]
fn an_entry_becomes_an_event() {
    let st = at(1000, 14 * 3600 + 30 * 60 + 50);
    let end = at(1000 + 3600 + 1800, 16 * 3600 + 50);
    let event = Ical::build_event("Meeting\\, weekly", st, Some(end));
    assert_eq!("Ical", event.event_type_desc);
    assert_eq!("calendar-alt-symbolic", event.event_type_icon.name());
    assert_eq!(st.time, event.event_time);
    assert_eq!("Meeting, weekly", event.event_info);
    assert_eq!("Meeting, weekly", event.event_contents_header);
    // the duration in whole hours and in whole minutes
    assert_eq!(
        EventBody::PlainText("End: 16:00; duration: 1:90".to_string()),
        event.event_contents_body
    );
    assert_eq!(
        Some("End: 16:00; duration: 1:90".to_string()),
        event.event_extra_details
    );
}

#[test]
fn an_entry_without_an_end_becomes_an_event() {
    let event = Ical::build_event("Birthday", at(1000, 0), None);
    assert_eq!(EventBody::PlainText("".to_string()), event.event_contents_body);
    assert_eq!(None, event.event_extra_details);
}

#[test]
fn the_duration_is_rounded_toward_zero() {
    let st = at(10_000, 0);
    let text = |end: LocalDateTime| Ical::build_event("x", st, Some(end)).event_extra_details.unwrap();
    assert_eq!("End: 00:05; duration: 0:05", text(at(10_000 + 359, 5 * 60 + 59)));
    assert_eq!("End: 09:07; duration: 0:00", text(at(10_000, 9 * 3600 + 7 * 60)));
    // an end before the beginning
    assert_eq!("End: 00:00; duration: 0:-1", text(at(10_000 - 119, 0)));
    assert_eq!("End: 00:00; duration: -1:-61", text(at(10_000 - 3700, 0)));
    assert_eq!("End: 00:00; duration: -2:-120", text(at(10_000 - 7200, 0)));
    assert_eq!(3600, Ical::seconds_between(&st, &at(13_600, 0)));
    let mut half: LocalDateTime = at(10_001, 0);
    half.time.frac = 500_000_000;
    assert_eq!(1, Ical::seconds_between(&st, &half));
    assert_eq!(-1, Ical::seconds_between(&half, &st));
    let mut almost: LocalDateTime = at(9_999, 0);
    almost.time.frac = 500_000_000;
    assert_eq!(0, Ical::seconds_between(&st, &almost));
}

#[test]
fn only_entries_that_begin_on_the_day_are_events() {
    let day = DayWindow::starting_at(1000).unwrap();
    let some = |ts: i64| Some(at(ts, 0));
    assert!(Ical::event_if_in_range(Some("s"), some(1000), None, &day).is_some());
    assert!(Ical::event_if_in_range(Some("s"), some(87399), some(90000), &day).is_some());
    assert!(Ical::event_if_in_range(Some("s"), some(87400), None, &day).is_none());
    assert!(Ical::event_if_in_range(Some("s"), some(999), some(2000), &day).is_none());
    assert!(Ical::event_if_in_range(None, some(1000), None, &day).is_none());
    assert!(Ical::event_if_in_range(Some("s"), None, some(2000), &day).is_none());
}

const FEED: &str = "BEGIN:VCALENDAR\r\nVERSION:2.0\r\nPRODID:-//test//EN\r\nBEGIN:VEVENT\r\nUID:1\r\nDTSTART:20200209T143050Z\r\nDTEND:20200209T153050Z\r\nSUMMARY:Meeting\\, weekly\r\nEND:VEVENT\r\nBEGIN:VEVENT\r\nUID:2\r\nDTSTART:20200210T080000Z\r\nSUMMARY:The day after\r\nEND:VEVENT\r\nBEGIN:VEVENT\r\nUID:3\r\nDTSTART:20200209T235959Z\r\nDESCRIPTION:Described only\r\nEND:VEVENT\r\nBEGIN:VEVENT\r\nUID:4\r\nDTSTART:20200209T100000Z\r\nEND:VEVENT\r\nBEGIN:VEVENT\r\nUID:5\r\nSUMMARY:Without a beginning\r\nEND:VEVENT\r\nEND:VCALENDAR\r\n";

// 2020-02-09 00:00:00 UTC
const DAY_START: i64 = 1581206400;

#[test]
fn the_entries_of_one_day_are_found_in_a_feed() {
    let day = DayWindow::starting_at(DAY_START).unwrap();
    let events = Ical::get_events(FEED, &day).unwrap();
    let titles: Vec<&str> = events.iter().map(|e| e.event_info.as_str()).collect();
    assert_eq!(vec!["Meeting, weekly", "Described only"], titles);
    assert_eq!(
        Some(1),
        events[0]
            .event_extra_details
            .as_ref()
            .map(|d| d.matches("; duration: 1:60").count())
    );
    assert_eq!(None, events[1].event_extra_details);
    assert_eq!(Ok(vec![]), Ical::get_events("", &day));
    let next = DayWindow::starting_at(DAY_START + 86400).unwrap();
    assert_eq!(1, Ical::get_events(FEED, &next).unwrap().len());
}

#[test]
fn a_feed_that_cannot_be_read_is_an_error() {
    let day = DayWindow::starting_at(DAY_START).unwrap();
    assert_eq!(
        Err(SourceError::Io("Ical error".to_string())),
        Ical::get_events("this is no calendar\r\n", &day)
    );
}

#[test]
fn an_entry_is_added_to_the_events_of_the_day() {
    let day = DayWindow::starting_at(DAY_START).unwrap();
    let mut events = vec![];
    Ical::add_event_if_in_range(
        &entry(&[("DTSTART", Some("20200209T143050Z")), ("LOCATION", Some("Room 1"))]),
        &day,
        &mut events,
    );
    assert_eq!(1, events.len());
    assert_eq!("Room 1", events[0].event_info);
    Ical::add_event_if_in_range(
        &entry(&[("DTSTART", Some("20200208T143050Z")), ("SUMMARY", Some("the day before"))]),
        &day,
        &mut events,
    );
    Ical::add_event_if_in_range(
        &entry(&[("DTSTART", Some("soon")), ("SUMMARY", Some("no date"))]),
        &day,
        &mut events,
    );
    Ical::add_event_if_in_range(&entry(&[("DTSTART", Some("20200209T143050Z"))]), &day, &mut events);
    assert_eq!(1, events.len());
}

#[test]
fn the_events_of_calendars_come_in_the_order_of_the_calendars() {
    let day = DayWindow::starting_at(DAY_START).unwrap();
    let first = Calendar {
        entries: Some(vec![
            entry(&[("DTSTART", Some("20200209T100000Z")), ("SUMMARY", Some("one"))]),
            entry(&[("DTSTART", Some("20200210T100000Z")), ("SUMMARY", Some("next day"))]),
        ]),
    };
    let second = Calendar {
        entries: Some(vec![entry(&[("DTSTART", Some("20200209T080000Z")), ("SUMMARY", Some("two"))])]),
    };
    let events = Ical::events_of_calendars(&vec![first.clone(), second.clone()], &day).unwrap();
    let titles: Vec<&str> = events.iter().map(|e| e.event_info.as_str()).collect();
    assert_eq!(vec!["one", "two"], titles);
    assert_eq!(Ok(vec![]), Ical::events_of_calendars(&vec![], &day));
    // one calendar that could not be read fails them all
    let unread = Calendar { entries: None };
    assert_eq!(
        Err(SourceError::Io("Ical error".to_string())),
        Ical::events_of_calendars(&vec![first, unread, second], &day)
    );
}
