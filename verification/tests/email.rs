use chrono::FixedOffset;
use chrono::Local;
use chrono::TimeZone;
use cigale::events::email::DayReading;
use cigale::events::email::Email;
use cigale::events::email::HeaderField;
use cigale::events::email::MailStep;
use cigale::events::events::EventBody;
use cigale::events::events::SourceError;
use cigale::events::mailbox::ParsingState;
use cigale::time::DayWindow;
use cigale::time::LocalDateTime;
use cigale::time::TimeOfDay;

fn parsed(text: &str) -> i64 {
    Email::parse_email_date(text).unwrap().timestamp
}

fn at(timestamp: i64) -> LocalDateTime {
    LocalDateTime { timestamp, time: TimeOfDay { secs: 0, frac: 0 } }
}

fn header(key: &str, value: &str) -> HeaderField {
    HeaderField { key: key.to_string(), value: value.to_string() }
}

#[test]
fn it_parses_multiple_email_date_formats() {
    let expected = FixedOffset::east_opt(7200)
        .unwrap()
        .with_ymd_and_hms(2013, 9, 27, 20, 46, 35)
        .unwrap();
    // a date without a time zone is a date of the machine's time zone
    let expected_local = Local.with_ymd_and_hms(2013, 9, 27, 20, 46, 35).unwrap();
    assert_eq!(expected_local.timestamp(), parsed("Sep 27 20:46:35 2013"));
    assert_eq!(
        expected.timestamp(),
        parsed("Fri, 27 Sep 2013 20:46:35 +0200")
    );
    let expected2_local = Local.with_ymd_and_hms(2014, 11, 3, 7, 54, 9).unwrap();
    assert_eq!(
        expected2_local.timestamp(),
        parsed("Mon Nov  3 07:54:09 2014") // notice the extra space
    );
    let expected2 = FixedOffset::east_opt(3600)
        .unwrap()
        .with_ymd_and_hms(2014, 11, 3, 7, 54, 9)
        .unwrap();
    assert_eq!(
        expected2.timestamp(),
        parsed("Mon, 3 Nov 2014 07:54:09 +0100 (CET)")
    );
    assert_eq!(
        expected2.timestamp(),
        parsed("Mon, 3 Nov 2014 07:54:09 +0100")
    );
    assert_eq!(
        expected.timestamp(),
        parsed("Fri, 27 Sep 2013 18:46:35 GMT")
    );
}

#[test]
fn dates_of_three_shapes_are_the_same_instant() {
    assert_eq!(1380307595, parsed("Fri, 27 Sep 2013 20:46:35 +0200"));
    assert_eq!(1380307595, parsed("Fri, 27 Sep 2013 18:46:35 GMT"));
    assert_eq!(1414997649, parsed("Mon, 3 Nov 2014 07:54:09 +0100 (CET)"));
    assert_eq!(1414997649, parsed("Mon, 3 Nov 2014 07:54:09 +0100"));
}

#[test]
fn the_local_time_of_a_date_is_that_of_the_machine() {
    let d = Email::parse_email_date("Fri, 27 Sep 2013 20:46:35 +0200").unwrap();
    let local = Local.timestamp_opt(1380307595, 0).unwrap();
    assert_eq!(
        chrono::Timelike::num_seconds_from_midnight(&local),
        d.time.secs
    );
    assert_eq!(0, d.time.frac);
}

#[test]
fn what_is_no_date_is_not_parsed() {
    assert_eq!(None, Email::parse_email_date("yesterday"));
    assert_eq!(None, Email::parse_email_date(""));
}

#[test]
fn the_name_of_the_time_zone_is_dropped_from_a_long_date() {
    assert_eq!(
        "Mon, 3 Nov 2014 07:54:09 +0100",
        Email::drop_string_tz_if_present("Mon, 3 Nov 2014 07:54:09 +0100 (CET)")
    );
    assert_eq!("a", Email::drop_string_tz_if_present("a123456"));
    assert_eq!("123456", Email::drop_string_tz_if_present("123456"));
    assert_eq!("", Email::drop_string_tz_if_present(""));
    // six characters, not six bytes
    assert_eq!("é", Email::drop_string_tz_if_present("é (CET)"));
}

#[test]
fn the_first_header_of_a_name_counts() {
    let headers = vec![
        header("To", "a@example.com"),
        header("Subject", "one"),
        header("Subject", "two"),
    ];
    assert_eq!(
        Some("one".to_string()),
        Email::get_header_val(&headers, "Subject")
    );
    assert_eq!(None, Email::get_header_val(&headers, "Cc"));
    assert_eq!(None, Email::get_header_val(&headers, "subject"));
}

#[test]
fn the_first_reading_of_a_date_counts() {
    let a = Some(at(1));
    let b = Some(at(2));
    assert_eq!(a, Email::first_parsed(a, b, None, None));
    assert_eq!(b, Email::first_parsed(None, b, a, None));
    assert_eq!(a, Email::first_parsed(None, None, a, b));
    assert_eq!(b, Email::first_parsed(None, None, None, b));
    assert_eq!(None, Email::first_parsed(None, None, None, None));
}

#[test]
fn a_mail_is_taken_when_it_was_sent_before_the_end_of_the_day() {
    assert_eq!(MailStep::Stop, Email::first_mail_step(None, 100));
    assert_eq!(MailStep::Take, Email::first_mail_step(Some(at(99)), 100));
    assert_eq!(MailStep::Skip, Email::first_mail_step(Some(at(100)), 100));
    assert_eq!(MailStep::Skip, Email::first_mail_step(Some(at(101)), 100));
}

#[test]
fn a_mail_is_of_the_day_from_the_beginning_of_the_day_on() {
    assert_eq!(Some(at(100)), Email::in_day_date(Some(at(100)), 100));
    assert_eq!(None, Email::in_day_date(Some(at(99)), 100));
    assert_eq!(None, Email::in_day_date(None, 100));
}

const PLAIN_MAIL: &[u8] = b"From alice@example.com Fri Sep 27 20:46:35 2013\nDate: Fri, 27 Sep 2013 20:46:35 +0200\nSubject: Lunch\nTo: bob@example.com\nCc: carol@example.com\n\nNoon?\n";

const MULTIPART_MAIL: &[u8] = b"From alice@example.com Fri Sep 27 20:46:35 2013\nDate: Fri, 27 Sep 2013 20:46:35 +0200\nSubject: Two parts\nContent-Type: multipart/mixed; boundary=outer\n\n--outer\nContent-Type: multipart/alternative; boundary=inner\n\n--inner\nContent-Type: text/html\n\n<p>in html</p>\n--inner\nContent-Type: text/plain\n\nin plain text\n--inner--\n--outer\nContent-Type: application/pdf\n\nbinary\n--outer--\n";

const HTML_ONLY_MAIL: &[u8] = b"From alice@example.com Fri Sep 27 20:46:35 2013\nDate: Fri, 27 Sep 2013 20:46:35 +0200\nSubject: No text\nContent-Type: multipart/mixed; boundary=outer\n\n--outer\nContent-Type: text/html\n\n<p>one</p>\n--outer\nContent-Type: text/html\n\n<p>two</p>\n--outer--\n";

#[test]
fn the_date_of_a_mail_is_read_from_its_headers() {
    let date = Email::mail_date(PLAIN_MAIL).unwrap().unwrap();
    assert_eq!(1380307595, date.timestamp);
    assert_eq!(None, Email::mail_date(b"Subject: no date\n\nbody").unwrap());
}

#[test]
fn a_mail_becomes_an_event() {
    let date = Email::mail_date(PLAIN_MAIL).unwrap().unwrap();
    let event = Email::mail_to_event(PLAIN_MAIL, &date).unwrap();
    assert_eq!("Email", event.event_type_desc);
    assert_eq!("envelope-symbolic", event.event_type_icon.name());
    assert_eq!(date.time, event.event_time);
    assert_eq!("Lunch", event.event_info);
    assert_eq!("Lunch", event.event_contents_header);
    assert_eq!(
        EventBody::PlainText(
            "To: bob@example.com\nCc: carol@example.com\n\nNoon?\n".to_string()
        ),
        event.event_contents_body
    );
    assert_eq!(Some("bob@example.com".to_string()), event.event_extra_details);
}

#[test]
fn a_mail_without_subject_and_receivers_becomes_an_event() {
    let raw = b"Date: Fri, 27 Sep 2013 20:46:35 +0200\n\nhello";
    let event = Email::mail_to_event(raw, &at(0)).unwrap();
    assert_eq!("-", event.event_info);
    assert_eq!("-", event.event_contents_header);
    assert_eq!(
        EventBody::PlainText("hello".to_string()),
        event.event_contents_body
    );
    assert_eq!(None, event.event_extra_details);
}

#[test]
fn the_plain_text_of_a_mail_in_parts_is_found() {
    let event = Email::mail_to_event(MULTIPART_MAIL, &at(0)).unwrap();
    assert_eq!(
        EventBody::PlainText("in plain text".to_string()),
        event.event_contents_body
    );
}

#[test]
fn a_mail_in_parts_without_plain_text_is_an_error() {
    match Email::mail_to_event(HTML_ONLY_MAIL, &at(0)) {
        Err(SourceError::Parse(words)) => {
            assert!(words.starts_with("Email of "), "{}", words);
            assert!(words.ends_with(": can't find a text/plain part"), "{}", words);
        }
        other => panic!("{:?}", other),
    }
}

fn mail(date: &str, subject: &str) -> String {
    format!(
        "From someone@example.com\nDate: {}\nSubject: {}\n\nbody of {}\n",
        date, subject, subject
    )
}

fn mbox() -> Vec<u8> {
    let mut text = String::new();
    text += &mail("Wed, 25 Sep 2013 10:00:00 +0000", "two days before");
    text += &mail("Thu, 26 Sep 2013 23:59:59 +0000", "the evening before");
    text += &mail("Fri, 27 Sep 2013 00:00:00 +0000", "at midnight");
    text += &mail("Fri, 27 Sep 2013 12:30:00 +0000", "at noon");
    text += &mail("Fri, 27 Sep 2013 23:59:59 +0000", "late");
    text += &mail("Sat, 28 Sep 2013 00:00:00 +0000", "the next midnight");
    text += &mail("Sun, 29 Sep 2013 08:00:00 +0000", "two days later");
    text.into_bytes()
}

// 2013-09-27 00:00:00 UTC
const DAY_START: i64 = 1380240000;

fn day() -> DayWindow {
    DayWindow::starting_at(DAY_START).unwrap()
}

#[test]
fn the_mails_of_one_day_are_found() {
    let events = Email::get_events(&mbox(), &day()).unwrap();
    let subjects: Vec<&str> = events.iter().map(|e| e.event_info.as_str()).collect();
    // the first mail of the day that was met comes last
    assert_eq!(vec!["at noon", "at midnight", "late"], subjects);
}

#[test]
fn a_day_without_mails_has_no_events() {
    // the day after the last mail
    let later = DayWindow::starting_at(DAY_START + 5 * 86400).unwrap();
    assert_eq!(0, Email::get_events(&mbox(), &later).unwrap().len());
    // a day between mails
    let between = DayWindow::starting_at(DAY_START - 3 * 86400).unwrap();
    assert_eq!(0, Email::get_events(&mbox(), &between).unwrap().len());
    // an empty mailbox
    assert_eq!(0, Email::get_events(b"", &day()).unwrap().len());
}

#[test]
fn the_first_mail_before_the_end_of_the_day_is_found() {
    let mbox = mbox();
    let mut buf = vec![0; 64];
    let mut parsing_state = ParsingState::new(mbox.len() as u64);
    let (bytes, date) = Email::find_first_mail_sent_before(
        &mbox,
        &mut buf,
        &mut parsing_state,
        day().next_day_start,
    )
    .unwrap()
    .unwrap();
    assert_eq!(DAY_START + 86399, date.timestamp);
    assert_eq!(
        mail("Fri, 27 Sep 2013 23:59:59 +0000", "late").trim_end().as_bytes().to_vec(),
        bytes
    );
    let events =
        Email::read_emails_until_day_start(&mbox, &mut buf, DAY_START, &mut parsing_state).unwrap();
    let subjects: Vec<&str> = events.iter().map(|e| e.event_info.as_str()).collect();
    assert_eq!(vec!["at noon", "at midnight"], subjects);
}

fn one_mail(date: &str, subject: &str) -> Option<Vec<u8>> {
    Some(mail(date, subject).trim_end().as_bytes().to_vec())
}

#[test]
fn the_search_passes_over_later_mails_and_takes_the_first_of_the_day() {
    // no further message
    assert_eq!(DayReading::Over(Ok(vec![])), Email::day_step(DayReading::Searching, None, &day()));
    // sent after the day
    assert_eq!(
        DayReading::Searching,
        Email::day_step(
            DayReading::Searching,
            one_mail("Sat, 28 Sep 2013 00:00:00 +0000", "the next midnight"),
            &day()
        )
    );
    // sent on the day
    let late = one_mail("Fri, 27 Sep 2013 23:59:59 +0000", "late");
    match Email::day_step(DayReading::Searching, late.clone(), &day()) {
        DayReading::Reading { first, date, events } => {
            assert_eq!(late, Some(first));
            assert_eq!(DAY_START + 86399, date.timestamp);
            assert_eq!(0, events.len());
        }
        other => panic!("{:?}", other),
    }
    // sent before the day
    assert_eq!(
        DayReading::Over(Ok(vec![])),
        Email::day_step(
            DayReading::Searching,
            one_mail("Thu, 26 Sep 2013 23:59:59 +0000", "the evening before"),
            &day()
        )
    );
    // without a date that can be read
    assert_eq!(
        DayReading::Over(Ok(vec![])),
        Email::day_step(DayReading::Searching, one_mail("some day", "undated"), &day())
    );
    assert_eq!(
        DayReading::Over(Ok(vec![])),
        Email::day_step(DayReading::Searching, Some(b"Subject: no date\n\nbody".to_vec()), &day())
    );
}

#[test]
fn the_mails_of_the_day_are_read_until_an_older_one() {
    let first = one_mail("Fri, 27 Sep 2013 23:59:59 +0000", "late").unwrap();
    let date = Email::mail_date(&first).unwrap().unwrap();
    let start = || DayReading::Reading { first: first.clone(), date, events: vec![] };
    let noon = one_mail("Fri, 27 Sep 2013 12:30:00 +0000", "at noon");
    let after_noon = match Email::day_step(start(), noon, &day()) {
        DayReading::Reading { first: same, date: same_date, events } => {
            assert_eq!(first, same);
            assert_eq!(date, same_date);
            let subjects: Vec<&str> = events.iter().map(|e| e.event_info.as_str()).collect();
            assert_eq!(vec!["at noon"], subjects);
            DayReading::Reading { first: same, date: same_date, events }
        }
        other => panic!("{:?}", other),
    };
    // an older message ends the reading; the first message comes last
    let before = one_mail("Thu, 26 Sep 2013 23:59:59 +0000", "the evening before");
    match Email::day_step(after_noon, before, &day()) {
        DayReading::Over(Ok(events)) => {
            let subjects: Vec<&str> = events.iter().map(|e| e.event_info.as_str()).collect();
            assert_eq!(vec!["at noon", "late"], subjects);
        }
        other => panic!("{:?}", other),
    }
    // so does the beginning of the mailbox
    match Email::day_step(start(), None, &day()) {
        DayReading::Over(Ok(events)) => {
            let subjects: Vec<&str> = events.iter().map(|e| e.event_info.as_str()).collect();
            assert_eq!(vec!["late"], subjects);
        }
        other => panic!("{:?}", other),
    }
    // a reading that is over stays over
    assert_eq!(
        DayReading::Over(Ok(vec![])),
        Email::day_step(DayReading::Over(Ok(vec![])), one_mail("x", "y"), &day())
    );
}

#[test]
fn a_mail_that_is_no_event_fails_the_reading() {
    let first = one_mail("Fri, 27 Sep 2013 23:59:59 +0000", "late").unwrap();
    let date = Email::mail_date(&first).unwrap().unwrap();
    let reading = DayReading::Reading { first, date, events: vec![] };
    match Email::day_step(reading, Some(HTML_ONLY_MAIL.to_vec()), &day()) {
        DayReading::Over(Err(SourceError::Parse(words))) => {
            assert!(words.ends_with(": can't find a text/plain part"), "{}", words);
        }
        other => panic!("{:?}", other),
    }
    // the first message itself
    let date = at(DAY_START);
    match Email::end_of_day(HTML_ONLY_MAIL.to_vec(), date, vec![]) {
        Err(SourceError::Parse(words)) => {
            assert!(words.starts_with("Email of "), "{}", words);
        }
        other => panic!("{:?}", other),
    }
}

#[test]
fn reading_step_by_step_gives_the_events_of_the_day() {
    let mbox = mbox();
    for buf_len in [1, 7, 64, 4096] {
        let mut buf = vec![0; buf_len];
        let mut parsing_state = ParsingState::new(mbox.len() as u64);
        let mut reading = DayReading::Searching;
        let events = loop {
            reading = match reading {
                DayReading::Over(events) => break events,
                current => {
                    let mail = Email::read_next_mail(&mbox, &mut buf, &mut parsing_state);
                    Email::day_step(current, mail, &day())
                }
            };
        };
        assert_eq!(Email::get_events(&mbox, &day()), events);
    }
}
