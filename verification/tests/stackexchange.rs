use cigale::events::events::EventBody;
use cigale::events::events::SourceError;
use cigale::events::events::WordWrapMode;
use cigale::events::stackexchange::StackExchange;
use cigale::events::stackexchange::StackExchangeConfig;
use cigale::events::stackexchange::VotesPage;
use cigale::time::DayWindow;
use cigale::time::LocalDateTime;
use cigale::time::TimeOfDay;

fn config() -> StackExchangeConfig {
    StackExchangeConfig {
        exchange_site_url: "https://stackoverflow.com".to_string(),
        username: "me@example.com".to_string(),
        password: "secret".to_string(),
    }
}

// 2020-02-25 00:00:00 UTC
const DAY_START: i64 = 1582588800;

const VOTES: &str = r##"<html><body>
<table class="history-table">
<tr><td><div class="date" title="2020-02-25 10:11:12Z"><div class="date_brick">Feb 25</div></div></td>
    <td><a class="answer-hyperlink" href="/questions/1/how/2#2">How to <b>x</b></a></td></tr>
<tr><td><div class="date"><div class="date_brick" title="2020-02-25 23:59:59Z">11:59 PM</div></div></td>
    <td><a class="question-hyperlink" href="/questions/3/why">Why y</a></td></tr>
<tr><td><div class="date" title="2020-02-24 23:59:59Z"></div></td>
    <td><a class="question-hyperlink" href="/questions/4/old">The day before</a></td></tr>
<tr><td><div class="date" title="a while ago"></div></td>
    <td><a class="question-hyperlink" href="/questions/5/undated">No date</a></td></tr>
<tr><td><div class="date" title="2020-02-25 00:00:00Z"></div></td>
    <td><a class="question-hyperlink">No target</a></td></tr>
<tr><td><div class="date" title="2020-02-25 12:00:00+02:00"></div></td>
    <td><a class="answer-hyperlink" href="/questions/6/zone">Another zone</a></td></tr>
<tr><td><div class="date" title="2020-02-25 13:00:00Z"></div></td><td>no link</td></tr>
</table>
</body></html>"##;

#[test]
fn the_votes_of_one_day_are_found() {
    let day = DayWindow::starting_at(DAY_START).unwrap();
    let events = StackExchange::get_votes(VOTES, &config(), &day).unwrap();
    let titles: Vec<&str> = events.iter().map(|e| e.event_info.as_str()).collect();
    assert_eq!(vec!["How to <b>x</b>", "Why y", "Another zone"], titles);
    let e = &events[0];
    assert_eq!("S.Exch", e.event_type_desc);
    assert_eq!("thumbs-up-symbolic", e.event_type_icon.name());
    assert_eq!("Vote: How to <b>x</b>", e.event_contents_header);
    assert_eq!(
        EventBody::Markup(
            "<a href=\"https://stackoverflow.com/questions/1/how/2#2\">Open in the browser</a>\n\nStack Exchange vote: https://stackoverflow.com".to_string(),
            WordWrapMode::WordWrap
        ),
        e.event_contents_body
    );
    assert_eq!(Some("Vote".to_string()), e.event_extra_details);
    let local = chrono::TimeZone::timestamp_opt(&chrono::Local, DAY_START + 36672, 0).unwrap();
    assert_eq!(chrono::Timelike::num_seconds_from_midnight(&local), e.event_time.secs);
}

#[test]
fn another_day_has_other_votes() {
    let before = DayWindow::starting_at(DAY_START - 86400).unwrap();
    let events = StackExchange::get_votes(VOTES, &config(), &before).unwrap();
    let titles: Vec<&str> = events.iter().map(|e| e.event_info.as_str()).collect();
    assert_eq!(vec!["The day before"], titles);
    let after = DayWindow::starting_at(DAY_START + 86400).unwrap();
    assert_eq!(0, StackExchange::get_votes(VOTES, &config(), &after).unwrap().len());
    assert_eq!(Ok(vec![]), StackExchange::get_votes("", &config(), &before));
}

#[test]
fn the_dates_of_the_site_are_read() {
    let d = StackExchange::parse_vote_date("2020-02-25 10:11:12Z").unwrap();
    assert_eq!(DAY_START + 10 * 3600 + 11 * 60 + 12, d.timestamp);
    let d = StackExchange::parse_vote_date("2020-02-25 12:00:00+02:00").unwrap();
    assert_eq!(DAY_START + 10 * 3600, d.timestamp);
    assert_eq!(None, StackExchange::parse_vote_date("2020-02-25"));
    assert_eq!(None, StackExchange::parse_vote_date(""));
}

#[test]
fn addresses_are_escaped() {
    assert_eq!(
        "https%3a%2f%2fstackoverflow.com",
        StackExchange::url_escape("https://stackoverflow.com")
    );
    assert_eq!("", StackExchange::url_escape(""));
    assert_eq!(
        "/users/login?ssrc=head&returnurl=https%3a%2f%2fstackoverflow.com",
        StackExchange::login_path(&config())
    );
    assert_eq!(
        "https://stackoverflow.com/users/1/me?tab=votes",
        StackExchange::page_url(&config(), &StackExchange::votes_page_path("/users/1/me"))
    );
}

#[test]
fn the_key_of_the_login_is_found() {
    let page = "<form><input type=\"hidden\" name=\"fkey\" value=\"abc123\"></form>";
    assert_eq!(Ok("abc123".to_string()), StackExchange::find_fkey(page));
    assert_eq!(
        Err(SourceError::Parse("login: can't find fkey?".to_string())),
        StackExchange::find_fkey("<form></form>")
    );
    assert_eq!(
        Err(SourceError::Parse("login: can't find fkey value?".to_string())),
        StackExchange::find_fkey("<form><input name=\"fkey\"></form>")
    );
}

#[test]
fn the_form_of_the_login_is_filled() {
    let form = StackExchange::login_form(&config(), "abc123");
    assert_eq!(
        vec![
            ("ssrc", "head".to_string()),
            ("fkey", "abc123".to_string()),
            ("email", "me@example.com".to_string()),
            ("password", "secret".to_string()),
            ("oauth_version", "".to_string()),
            ("oauth_server", "".to_string()),
        ],
        form
    );
}

#[test]
fn a_login_that_was_taken_for_a_machine_is_rejected() {
    let rejected = "<h1>Human verification</h1><p>Are you a human being?</p>".to_string();
    assert!(StackExchange::is_login_rejected(&rejected));
    assert_eq!(
        Err(SourceError::Authentication(
            "Login rejected: human verification failed".to_string()
        )),
        StackExchange::login(rejected)
    );
    let fine = "<h1>Welcome</h1><p>Human verification is not needed</p>".to_string();
    assert!(!StackExchange::is_login_rejected(&fine));
    assert_eq!(Ok(fine.clone()), StackExchange::login(fine));
}

#[test]
fn the_page_of_the_user_is_found() {
    let page = "<header><a href=\"/users/1/me\" class=\"my-profile js-gps-track\">me</a></header>";
    assert_eq!(Ok("/users/1/me".to_string()), StackExchange::get_user_page_url(page));
    assert_eq!(
        Err(SourceError::Parse("Can't find the user page link".to_string())),
        StackExchange::get_user_page_url("<a class=\"my-profile\" href=\"/x\">me</a>")
    );
    assert_eq!(
        Err(SourceError::Parse("Can't find the link to the user page".to_string())),
        StackExchange::get_user_page_url("<a class=\"my-profile js-gps-track\">me</a>")
    );
}

#[test]
fn a_vote_becomes_an_event() {
    let date = LocalDateTime { timestamp: 5, time: TimeOfDay { secs: 7, frac: 0 } };
    let event = StackExchange::build_event(&config(), &date, "Title", "/q/1");
    assert_eq!(date.time, event.event_time);
    assert_eq!("Title", event.event_info);
    assert_eq!("Vote: Title", event.event_contents_header);
}

#[test]
fn the_votes_of_a_page_are_those_with_a_title_a_link_and_a_date_of_the_day() {
    let day = DayWindow::starting_at(DAY_START).unwrap();
    let page = VotesPage {
        titles: vec!["a".to_string(), "b".to_string(), "c".to_string(), "d".to_string()],
        hrefs: vec![Some("/a".to_string()), None, Some("/c".to_string()), Some("/d".to_string())],
        date_titles: vec![
            Some("2020-02-25 10:11:12Z".to_string()),
            Some("2020-02-25 10:11:12Z".to_string()),
            None,
            Some("2020-02-26 00:00:00Z".to_string()),
        ],
        brick_titles: vec![
            vec![],
            vec![],
            vec![Some("2020-02-25 23:59:59Z".to_string()), Some("2020-02-24 00:00:00Z".to_string())],
            vec![Some("2020-02-25 10:00:00Z".to_string())],
        ],
    };
    let events = StackExchange::votes_of_page(&page, &config(), &day);
    let titles: Vec<&str> = events.iter().map(|e| e.event_info.as_str()).collect();
    assert_eq!(vec!["a", "c"], titles);
    let read = StackExchange::read_votes_page(VOTES).unwrap();
    assert_eq!(
        StackExchange::get_votes(VOTES, &config(), &day),
        Ok(StackExchange::votes_of_page(&read, &config(), &day))
    );
}
