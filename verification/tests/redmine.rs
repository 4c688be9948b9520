use cigale::events::events::EventBody;
use cigale::events::events::SourceError;
use cigale::events::events::WordWrapMode;
use cigale::events::redmine::ActivityParseResult;
use cigale::events::redmine::DaySearch;
use cigale::events::redmine::Redmine;
use cigale::events::redmine::RedmineConfig;
use cigale::time::Day;
use cigale::time::TimeOfDay;

fn config() -> RedmineConfig {
    RedmineConfig {
        server_url: "https://redmine.example.com".to_string(),
        username: "me".to_string(),
        password: "secret".to_string(),
    }
}

fn day(year: i32, month: u32, day: u32) -> Day {
    Day { year, month, day }
}

const PAGE: &str = r##"<html><head><title>Activity</title></head><body>
<div id="content">
<h2>Activity</h2>
<div id="activity">
<h3>Today</h3>
<dl>
  <dt class="icon icon-issue-edit me"><span class="time">10:30 AM</span> <span class="project">Proj</span> <a href="/issues/1#change-2">Bug #1: Crash &amp; burn</a></dt>
  <dd><span class="description">fixed the "crash"</span> <span class="author">me</span></dd>
  <dt class="icon icon-time-entry me"><span class="time">02:05 PM</span> <a href="/time_entries/7">2.00 hours</a></dt>
  <dd><span class="description"></span> <span class="author">me</span></dd>
</dl>
<h3>02/24/2020</h3>
<dl>
  <dt class="icon icon-issue me"><span class="time">12:00 PM</span> <a href="/issues/9">Feature #9: More</a></dt>
  <dd><span class="description">asked for more</span></dd>
</dl>
<h3>02/20/2020</h3>
<dl>
  <dt class="icon icon-issue me"><span class="time">12:00 AM</span> <a>No target</a></dt>
  <dd><span class="description">old</span></dd>
</dl>
</div>
<ul class="pages"><li class="previous page"><a href="/activity?from=2020-02-19&amp;user_id=5">Previous</a></li></ul>
</div>
</body></html>"##;

fn events_of(result: ActivityParseResult) -> Vec<(u32, String, String)> {
    match result {
        ActivityParseResult::Events(events) => events
            .into_iter()
            .map(|e| {
                assert_eq!("Redmine", e.event_type_desc);
                assert_eq!("tasks-symbolic", e.event_type_icon.name());
                assert_eq!(e.event_info, e.event_contents_header);
                assert_eq!(None, e.event_extra_details);
                assert!(e.event_contents_body.is_word_wrap());
                (e.event_time.secs, e.event_info, e.event_contents_body.as_str().to_string())
            })
            .collect(),
        other => panic!("{:?}", other),
    }
}

#[test]
fn the_activities_of_today_are_found() {
    let today = day(2020, 2, 25);
    let events = events_of(Redmine::parse_html(&config(), today, today, PAGE));
    assert_eq!(
        vec![
            (
                10 * 3600 + 30 * 60,
                "Bug #1: Crash &amp; burn".to_string(),
                "<a href=\"https://redmine.example.com/issues/1#change-2\">Open in the browser</a>\nfixed the &quot;crash&quot;".to_string()
            ),
            (
                14 * 3600 + 5 * 60,
                "2.00 hours".to_string(),
                "<a href=\"https://redmine.example.com/time_entries/7\">Open in the browser</a>\n".to_string()
            ),
        ],
        events
    );
}

#[test]
fn the_activities_of_an_earlier_day_are_found() {
    let events = events_of(Redmine::parse_html(&config(), day(2020, 2, 24), day(2020, 2, 25), PAGE));
    assert_eq!(1, events.len());
    assert_eq!(12 * 3600, events[0].0);
    assert_eq!("Feature #9: More", events[0].1);
    let events = events_of(Redmine::parse_html(&config(), day(2020, 2, 20), day(2020, 2, 25), PAGE));
    assert_eq!(
        vec![(
            0,
            "No target".to_string(),
            "<a href=\"https://redmine.example.com\">Open in the browser</a>\nold".to_string()
        )],
        events
    );
}

#[test]
fn a_day_that_the_page_has_passed_has_no_activity() {
    let events = events_of(Redmine::parse_html(&config(), day(2020, 2, 22), day(2020, 2, 25), PAGE));
    assert_eq!(0, events.len());
}

#[test]
fn an_older_day_is_on_the_page_before() {
    assert_eq!(
        ActivityParseResult::ReachedEndOfPage(Some(
            "https://redmine.example.com/activity?from=2020-02-19&user_id=5".to_string()
        )),
        Redmine::parse_html(&config(), day(2020, 2, 10), day(2020, 2, 25), PAGE)
    );
    let last_page = "<div id=\"content\"><div id=\"activity\"><h3>02/24/2020</h3><dl></dl></div></div>";
    assert_eq!(
        ActivityParseResult::ReachedEndOfPage(None),
        Redmine::parse_html(&config(), day(2020, 2, 10), day(2020, 2, 25), last_page)
    );
    assert_eq!(
        ActivityParseResult::ReachedEndOfPage(None),
        Redmine::parse_html(&config(), day(2020, 2, 10), day(2020, 2, 25), "")
    );
}

#[test]
fn a_date_that_cannot_be_read_is_an_error() {
    let page = "<div id=\"content\"><div id=\"activity\"><h3>Yesterday</h3><dl></dl></div></div>";
    assert_eq!(
        ActivityParseResult::Failed(SourceError::Parse("Can't read the date Yesterday".to_string())),
        Redmine::parse_html(&config(), day(2020, 2, 10), day(2020, 2, 25), page)
    );
}

#[test]
fn a_time_that_cannot_be_read_is_an_error() {
    let page = "<div id=\"content\"><div id=\"activity\"><h3>02/24/2020</h3><dl><dt class=\"icon\"><span class=\"time\">noon</span><a href=\"/x\">x</a></dt><dd><span class=\"description\">d</span></dd></dl></div></div>";
    assert_eq!(
        ActivityParseResult::Failed(SourceError::Parse("Can't read the time noon".to_string())),
        Redmine::parse_html(&config(), day(2020, 2, 24), day(2020, 2, 25), page)
    );
    assert_eq!(
        Err(SourceError::Parse("Can't read the time 25:00".to_string())),
        Redmine::parse_time("25:00")
    );
}

#[test]
fn an_activity_without_a_description_is_an_error() {
    let page = "<div id=\"content\"><div id=\"activity\"><h3>02/24/2020</h3><dl><dt class=\"icon\"><span class=\"time\">10:00 AM</span><a href=\"/x\">x</a></dt><dd></dd></dl></div></div>";
    assert_eq!(
        ActivityParseResult::Failed(SourceError::Parse(
            "An activity lacks its description or its link".to_string()
        )),
        Redmine::parse_html(&config(), day(2020, 2, 24), day(2020, 2, 25), page)
    );
}

#[test]
fn dates_are_read_as_month_day_and_year() {
    let today = day(2020, 2, 25);
    assert_eq!(Ok(today), Redmine::parse_date("Today", today));
    assert_eq!(Ok(day(2020, 2, 24)), Redmine::parse_date("02/24/2020", today));
    assert_eq!(Ok(day(2019, 12, 31)), Redmine::parse_date("12/31/2019", today));
    assert!(Redmine::parse_date("24/02/2020", today).is_err());
    assert!(Redmine::parse_date("today", today).is_err());
    assert!(Redmine::parse_date("", today).is_err());
}

#[test]
fn times_are_read_with_am_and_pm() {
    assert_eq!(Ok(TimeOfDay { secs: 0, frac: 0 }), Redmine::parse_time("12:00 AM"));
    assert_eq!(Ok(TimeOfDay { secs: 12 * 3600, frac: 0 }), Redmine::parse_time("12:00 PM"));
    assert_eq!(
        Ok(TimeOfDay { secs: 23 * 3600 + 59 * 60, frac: 0 }),
        Redmine::parse_time("11:59 PM")
    );
    assert_eq!(Ok(TimeOfDay { secs: 9 * 3600 + 5 * 60, frac: 0 }), Redmine::parse_time("09:05 AM"));
    assert!(Redmine::parse_time("13:00 PM").is_err());
    assert!(Redmine::parse_time("9 o'clock").is_err());
}

#[test]
fn the_day_is_searched_among_the_dates_of_a_page() {
    let dates = |list: &[Result<Day, SourceError>]| list.to_vec();
    let d25 = day(2020, 2, 25);
    let d24 = day(2020, 2, 24);
    let d20 = day(2020, 2, 20);
    let bad = SourceError::Parse("bad".to_string());
    let page = dates(&[Ok(d25), Ok(d24), Ok(d20)]);
    assert_eq!(DaySearch::Found(0), Redmine::find_day(&page, 3, d25));
    assert_eq!(DaySearch::Found(1), Redmine::find_day(&page, 3, d24));
    assert_eq!(DaySearch::Passed, Redmine::find_day(&page, 3, day(2020, 2, 22)));
    assert_eq!(DaySearch::Passed, Redmine::find_day(&page, 3, day(2020, 2, 21)));
    // a day older than every day of the page
    assert_eq!(DaySearch::EndOfPage, Redmine::find_day(&dates(&[Ok(d25), Ok(d24)]), 2, d20));
    // a day without a list of activities is not looked at
    assert_eq!(DaySearch::EndOfPage, Redmine::find_day(&page, 1, d24));
    assert_eq!(DaySearch::EndOfPage, Redmine::find_day(&dates(&[]), 0, d24));
    // an error before the day is met
    let broken = dates(&[Ok(d25), Err(bad.clone()), Ok(d20)]);
    assert_eq!(DaySearch::Failed(bad.clone()), Redmine::find_day(&broken, 3, d20));
    assert_eq!(DaySearch::Found(0), Redmine::find_day(&broken, 3, d25));
}

#[test]
fn what_is_needed_to_log_in_is_found_on_the_pages() {
    let first = "<html><body><form><input type=\"hidden\" name=\"authenticity_token\" value=\"tok+en==\"><input name=\"username\"></form></body></html>";
    assert_eq!(Some("tok+en==".to_string()), Redmine::authenticity_token(first));
    assert_eq!(None, Redmine::authenticity_token("<html></html>"));
    let after = "<div id=\"loggedas\">Logged in as <a class=\"user active\" href=\"/users/42\">me</a></div>";
    assert_eq!(Some("42".to_string()), Redmine::user_id(after));
    assert_eq!(None, Redmine::user_id("<a class=\"user\" href=\"/users/42\">me</a>"));
    assert_eq!("https://redmine.example.com/login", Redmine::login_url(&config()));
    assert_eq!(
        "https://redmine.example.com/activity?user_id=42",
        Redmine::activity_url(&config(), "42")
    );
}

#[test]
fn an_activity_becomes_an_event() {
    let time = TimeOfDay { secs: 60, frac: 0 };
    let event = Redmine::build_event(&config(), time, "Bug #1", &Some("/issues/1".to_string()), "a < b");
    assert_eq!(time, event.event_time);
    assert_eq!("Bug #1", event.event_info);
    assert_eq!(
        EventBody::Markup(
            "<a href=\"https://redmine.example.com/issues/1\">Open in the browser</a>\na &lt; b".to_string(),
            WordWrapMode::WordWrap
        ),
        event.event_contents_body
    );
}

#[test]
fn the_form_of_the_tracker_login_is_filled() {
    assert_eq!(
        vec![
            ("username", "me".to_string()),
            ("password", "secret".to_string()),
            ("login", "Login".to_string()),
            ("utf8", "✓".to_string()),
            ("back_url", "https://redmine.example.com".to_string()),
            ("authenticity_token", "tok".to_string()),
        ],
        Redmine::login_form(&config(), "tok")
    );
}
