//! Activity of one user on an issue tracker, read from the pages that the
//! tracker shows.
//!
//! The pages are fetched by the caller. A page of activity lists days, the
//! newest first, and under each day what was done. What is decided here:
//! which day of a page is the one asked for, whether the page before has to
//! be fetched, and what the event of an activity says.

use crate::events::events::Event;
use crate::events::events::EventBody;
use crate::events::events::SourceError;
use crate::events::events::WordWrapMode;
use crate::html::select_attr;
use crate::html::select_attr_within;
use crate::html::select_html;
use crate::html::select_html_within;
use crate::html::selected_attr;
use crate::html::selected_attr_within;
use crate::html::selected_html;
use crate::html::selected_html_within;
use crate::icons::Icon;
use crate::text::push_escaped;
use crate::text::push_str;
use crate::text::replace;
use crate::text::same;
use crate::text::spec_escape_markup;
use crate::text::spec_replace;
use crate::text::spec_text_or_empty;
use crate::text::string_of;
use crate::time::date_parse_from_str;
use crate::time::format_date;
use crate::time::format_iso_date;
use crate::time::format_time;
use crate::time::iso_date;
use crate::time::time_parse_from_str;
use crate::time::Day;
use crate::time::DayWindow;
use crate::time::TimeOfDay;
use crate::config::Config;
use crate::events::events::chosen_values;
use crate::events::events::field_values;
use crate::events::events::value_for;
use crate::events::events::ConfigType;
use crate::events::events::EventProvider;
use vstd::prelude::*;

verus! {

/// One configured tracker.
#[derive(Clone, Debug)]
pub struct RedmineConfig {
    pub server_url: String,
    pub username: String,
    pub password: String,
}

/// The source of events that reads the pages of an issue tracker.
#[derive(Clone, Copy, Debug, PartialEq, Eq, Structural)]
pub struct Redmine;

/// What a page of activity gives for the day that is asked for.
#[derive(Debug, PartialEq)]
pub enum ActivityParseResult {
    /// The events of the day.
    Events(Vec<Event>),
    /// The page cannot be read.
    Failed(SourceError),
    /// The page holds only newer days: with the address of the page before,
    /// or `None` where there is no page before.
    ReachedEndOfPage(Option<String>),
}

/// What a page of activity holds, as the texts of the page: the dates of
/// its days; for each day and each activity listed under it the time, the
/// description, and the text and the target of the link; and the target of
/// the link to the page before.
#[derive(Debug, PartialEq)]
pub struct ActivityPage {
    pub day_texts: Vec<String>,
    pub times: Vec<Vec<String>>,
    pub descriptions: Vec<Vec<String>>,
    pub links: Vec<Vec<String>>,
    pub hrefs: Vec<Vec<Option<String>>>,
    pub previous: Option<String>,
}

/// Whether `scraper` accepts every selector by which a page of activity is
/// read.
pub open spec fn is_page_read(html: Seq<char>) -> bool {
    let lists = "div#content div#activity h3 + dl"@;
    &&& selected_html(html, "div#content div#activity h3"@) is Some
    &&& selected_html_within(html, lists, "span.time"@) is Some
    &&& selected_html_within(html, lists, "span.description"@) is Some
    &&& selected_html_within(html, lists, "dt.icon a"@) is Some
    &&& selected_attr_within(html, lists, "dt.icon a"@, "href"@) is Some
    &&& selected_attr(html, "li.previous.page a"@, "href"@) is Some
}

/// Whether `page` holds the texts that `scraper` finds on the page `html` at
/// the places where a page of activity holds its content.
pub open spec fn is_page_of(page: ActivityPage, html: Seq<char>) -> bool {
    let lists = "div#content div#activity h3 + dl"@;
    &&& selected_html(html, "div#content div#activity h3"@) == Some(page.day_texts.deep_view())
    &&& selected_html_within(html, lists, "span.time"@) == Some(page.times.deep_view())
    &&& selected_html_within(html, lists, "span.description"@) == Some(
        page.descriptions.deep_view(),
    )
    &&& selected_html_within(html, lists, "dt.icon a"@) == Some(page.links.deep_view())
    &&& selected_attr_within(html, lists, "dt.icon a"@, "href"@) == Some(page.hrefs.deep_view())
    &&& selected_attr(html, "li.previous.page a"@, "href"@) matches Some(prev)
    &&& page.previous.deep_view() == spec_first_text(Some(prev))
}

/// The first of `values`, if there is one and it is there.
pub open spec fn spec_first_text(values: Option<Seq<Option<Seq<char>>>>) -> Option<Seq<char>> {
    match values {
        Some(v) => if v.len() > 0 {
            v[0]
        } else {
            None
        },
        None => None,
    }
}

/// Where on a page the day that is asked for was found.
#[derive(Debug, PartialEq)]
pub enum DaySearch {
    /// A date of the page cannot be read.
    Failed(SourceError),
    /// The page has come to an older day: nothing was done on the day.
    Passed,
    /// The day is the one at this position.
    Found(usize),
    /// The page holds only newer days.
    EndOfPage,
}

/// The body of the event of an activity.
pub open spec fn spec_activity_body(
    server_url: Seq<char>,
    href: Option<String>,
    description: Seq<char>,
) -> Seq<char> {
    "<a href=\""@ + server_url + spec_text_or_empty(href) + "\">Open in the browser</a>\n"@
        + spec_escape_markup(description)
}

/// Whether `ev` is the event of the activity at `time` with the link `link`
/// to `href` and the description `description`.
pub open spec fn is_activity_event(
    ev: Event,
    server_url: Seq<char>,
    time: TimeOfDay,
    link: Seq<char>,
    href: Option<String>,
    description: Seq<char>,
) -> bool {
    &&& ev.event_type_desc == "Redmine"
    &&& ev.event_type_icon.spec_name() == "tasks-symbolic"
    &&& ev.event_time == time
    &&& ev.event_info@ == link
    &&& ev.event_contents_header@ == link
    &&& ev.event_contents_body matches EventBody::Markup(body, mode)
    &&& mode == WordWrapMode::WordWrap
    &&& body@ == spec_activity_body(server_url, href, description)
    &&& ev.event_extra_details is None
}

/// Whether the activity at `i` of the day at `d` is whole: its time can be
/// read, and it has a description and a link.
pub open spec fn is_whole(page: ActivityPage, d: int, i: int) -> bool {
    &&& 0 <= d < page.times@.len()
    &&& 0 <= i < page.times@[d]@.len()
    &&& format_time(page.times@[d]@[i]@, "%I:%M %p"@) is Some
    &&& d < page.descriptions@.len() && i < page.descriptions@[d]@.len()
    &&& d < page.links@.len() && i < page.links@[d]@.len()
    &&& d < page.hrefs@.len() && i < page.hrefs@[d]@.len()
}

/// The time of the activity at `i` of the day at `d`.
pub open spec fn spec_activity_time(page: ActivityPage, d: int, i: int) -> TimeOfDay {
    let t = format_time(page.times@[d]@[i]@, "%I:%M %p"@).unwrap();
    TimeOfDay { secs: t.0 as u32, frac: t.1 as u32 }
}

/// Whether the activity at `i` of the day at `d` is whole and `ev` is its
/// event.
pub open spec fn is_event_at(ev: Event, server_url: Seq<char>, page: ActivityPage, d: int, i: int)
    -> bool {
    &&& is_whole(page, d, i)
    &&& is_activity_event(
        ev,
        server_url,
        spec_activity_time(page, d, i),
        page.links@[d]@[i]@,
        page.hrefs@[d]@[i],
        page.descriptions@[d]@[i]@,
    )
}

/// Whether `events` are the events of the activities of the day at `d`, one
/// for each in the order of the page.
pub open spec fn are_events_of_day(
    events: Seq<Event>,
    server_url: Seq<char>,
    page: ActivityPage,
    d: int,
) -> bool {
    &&& 0 <= d < page.times@.len()
    &&& events.len() == page.times@[d]@.len()
    &&& forall|i: int|
        0 <= i < events.len() ==> is_event_at(#[trigger] events[i], server_url, page, d, i)
}

/// Whether the text `text` of a page names the day `day`, today being
/// `today`.
pub open spec fn names_day(text: Seq<char>, today: Day, day: Day) -> bool {
    if text == "Today"@ {
        today == day
    } else {
        format_date(text, "%m/%d/%Y"@) == Some((day.year as int, day.month as int, day.day as int))
    }
}

/// What the search for `day` comes to on a page whose days, from `from` on,
/// have the dates `dates`, of which only the first `limit` have a list of
/// activities.
pub open spec fn spec_find_day(
    dates: Seq<Result<Day, SourceError>>,
    limit: int,
    day: Day,
    from: int,
) -> DaySearch
    decreases dates.len() - from,
{
    if from < 0 || from >= dates.len() || from >= limit {
        DaySearch::EndOfPage
    } else {
        match dates[from] {
            Err(e) => DaySearch::Failed(e),
            Ok(cur_date) => if cur_date.spec_is_before(&day) {
                DaySearch::Passed
            } else if cur_date == day {
                DaySearch::Found(from as usize)
            } else {
                spec_find_day(dates, limit, day, from + 1)
            },
        }
    }
}

/// The position of the first activity of the day at `d`, from `from` on,
/// that is not whole; the number of the activities where all are whole.
pub open spec fn first_broken(page: ActivityPage, d: int, from: int) -> int
    decreases page.times@[d]@.len() - from,
{
    if from < 0 || from >= page.times@[d]@.len() || !is_whole(page, d, from) {
        from
    } else {
        first_broken(page, d, from + 1)
    }
}

/// The words of the error of a time that cannot be read.
pub open spec fn spec_unread_time_words(text: Seq<char>) -> Seq<char> {
    "Can't read the time "@ + text
}

/// The words of the error of a date that cannot be read.
pub open spec fn spec_unread_date_words(text: Seq<char>) -> Seq<char> {
    "Can't read the date "@ + text
}

/// The words of the error of a date on which the time zone of the machine
/// has no single midnight, where `shown` shows the date.
pub open spec fn spec_no_local_day_words(shown: Seq<char>) -> Seq<char> {
    "Can't convert "@ + shown + " to local time"@
}

/// Whether `e` is the error of the first activity of the day at `d` that is
/// not whole: that its time cannot be read, or else that it lacks its
/// description or its link.
pub open spec fn is_broken_activity_error(e: SourceError, page: ActivityPage, d: int) -> bool {
    let i = first_broken(page, d, 0);
    &&& 0 <= i < page.times@[d]@.len()
    &&& if format_time(page.times@[d]@[i]@, "%I:%M %p"@) is None {
        e.is_parse(spec_unread_time_words(page.times@[d]@[i]@))
    } else {
        e.is_parse("An activity lacks its description or its link"@)
    }
}

/// Whether `e` is the error of reading the text `text` of a page as a date:
/// that the text is no date, or else that the time zone of the machine has
/// no single midnight on the date, which is shown as year, month and day.
pub open spec fn is_unread_date_error(e: SourceError, text: Seq<char>) -> bool {
    match format_date(text, "%m/%d/%Y"@) {
        Some(d) => e.is_parse(
            spec_no_local_day_words(
                match iso_date(d.0, d.1, d.2) {
                    Some(shown) => shown,
                    None => text,
                },
            ),
        ),
        None => e.is_parse(spec_unread_date_words(text)),
    }
}

/// Whether `r` is what a page gives for the day `day`, where the days of
/// the page have the dates `dates`: the error of the first date that cannot
/// be read, if the search meets one; no event, where the page has passed the
/// day; the events of the day, one for each activity, or the error of an
/// activity that is not whole, where the page lists the day; else the
/// address of the page before.
pub open spec fn is_page_result(
    r: ActivityParseResult,
    server_url: Seq<char>,
    day: Day,
    dates: Seq<Result<Day, SourceError>>,
    page: ActivityPage,
) -> bool {
    match spec_find_day(dates, page.times@.len() as int, day, 0) {
        DaySearch::Failed(e) => r == ActivityParseResult::Failed(e),
        DaySearch::Passed => r matches ActivityParseResult::Events(events) && events@.len() == 0,
        DaySearch::Found(d) => match r {
            ActivityParseResult::Events(events) => are_events_of_day(
                events@,
                server_url,
                page,
                d as int,
            ),
            ActivityParseResult::Failed(e) => is_broken_activity_error(e, page, d as int),
            ActivityParseResult::ReachedEndOfPage(_) => false,
        },
        DaySearch::EndOfPage => match page.previous {
            Some(href) => r matches ActivityParseResult::ReachedEndOfPage(Some(url)) && url@
                == server_url + href@,
            None => r == ActivityParseResult::ReachedEndOfPage(None),
        },
    }
}

/// Whether `date` can be what the text `text` of a page is read as, today
/// being `today`: `Today` is read as today; every other text is read as
/// month, day and year, and is an error where it is no such date. A date is
/// an error too where the time zone of the machine has no single midnight on
/// it.
pub open spec fn is_date_read(date: Result<Day, SourceError>, text: Seq<char>, today: Day) -> bool {
    &&& match date {
        Ok(day) => names_day(text, today, day),
        Err(e) => text != "Today"@ && is_unread_date_error(e, text),
    }
    &&& text != "Today"@ && format_date(text, "%m/%d/%Y"@) is None ==> date is Err
}

/// Whether `dates` can be what the texts `texts` of a page are read as, one
/// for one.
pub open spec fn are_dates_read(
    dates: Seq<Result<Day, SourceError>>,
    texts: Seq<String>,
    today: Day,
) -> bool {
    &&& dates.len() == texts.len()
    &&& forall|i: int| 0 <= i < dates.len() ==> is_date_read(#[trigger] dates[i], texts[i]@, today)
}

/// The address of the page on which the user logs in.
pub open spec fn spec_login_url(server_url: Seq<char>) -> Seq<char> {
    server_url + "/login"@
}

/// The address of the page of the activity of the user `user_id`.
pub open spec fn spec_activity_url(server_url: Seq<char>, user_id: Seq<char>) -> Seq<char> {
    server_url + "/activity?user_id="@ + user_id
}

impl Redmine {
    /// Reads the date that a page gives a day: `Today` is the day `today`,
    /// every other date is read as month, day and year. A date that cannot
    /// be read is an error, and so is a date that the local time zone has no
    /// single midnight on.
    pub fn parse_date(date_str: &str, today: Day) -> (r: Result<Day, SourceError>)
        ensures
            is_date_read(r, date_str@, today),
            date_str@ == "Today"@ ==> r == Ok::<Day, SourceError>(today),
    {
        if same(date_str, "Today") {
            Ok(today)
        } else {
            match date_parse_from_str(date_str, "%m/%d/%Y") {
                Some(naive) => match DayWindow::midnight_of(naive) {
                    Some(_) => Ok(naive),
                    None => {
                        let mut words: Vec<char> = Vec::new();
                        push_str(&mut words, "Can't convert ");
                        match format_iso_date(naive) {
                            Some(shown) => {
                                push_str(&mut words, shown.as_str());
                            },
                            None => {
                                push_str(&mut words, date_str);
                            },
                        }
                        push_str(&mut words, " to local time");
                        Err(SourceError::Parse(string_of(&words)))
                    },
                },
                None => {
                    let mut words: Vec<char> = Vec::new();
                    push_str(&mut words, "Can't read the date ");
                    push_str(&mut words, date_str);
                    Err(SourceError::Parse(string_of(&words)))
                },
            }
        }
    }

    /// Reads the time that a page gives an activity, in hours from 1 to 12,
    /// minutes, and AM or PM.
    pub fn parse_time(time_str: &str) -> (r: Result<TimeOfDay, SourceError>)
        ensures
            match format_time(time_str@, "%I:%M %p"@) {
                Some(t) => r matches Ok(time) && (time.secs as int, time.frac as int) == t
                    && time.wf(),
                None => r matches Err(e) && e.is_parse(spec_unread_time_words(time_str@)),
            },
    {
        match time_parse_from_str(time_str, "%I:%M %p") {
            Some(t) => Ok(t),
            None => {
                let mut words: Vec<char> = Vec::new();
                push_str(&mut words, "Can't read the time ");
                push_str(&mut words, time_str);
                Err(SourceError::Parse(string_of(&words)))
            },
        }
    }

    /// The event of the activity at `time` with the link `link` to `href`
    /// and the description `description`.
    pub fn build_event(
        redmine_config: &RedmineConfig,
        time: TimeOfDay,
        link: &str,
        href: &Option<String>,
        description: &str,
    ) -> (r: Event)
        ensures
            is_activity_event(r, redmine_config.server_url@, time, link@, *href, description@),
    {
        let mut body: Vec<char> = Vec::new();
        push_str(&mut body, "<a href=\"");
        push_str(&mut body, redmine_config.server_url.as_str());
        match href {
            Some(h) => {
                push_str(&mut body, h.as_str());
            },
            None => {},
        }
        push_str(&mut body, "\">Open in the browser</a>\n");
        push_escaped(&mut body, description);
        assert(body@ =~= spec_activity_body(redmine_config.server_url@, *href, description@));
        Event::new(
            "Redmine",
            Icon::tasks(),
            time,
            link.to_owned(),
            link.to_owned(),
            EventBody::Markup(string_of(&body), WordWrapMode::WordWrap),
            None,
        )
    }

    /// The events of the activities of the day at `d` of the page: one for
    /// each time that the page lists, in the order of the page. An activity
    /// whose time cannot be read, or that lacks its description or its link,
    /// is an error.
    pub fn parse_events(redmine_config: &RedmineConfig, page: &ActivityPage, d: usize) -> (r: Result<
        Vec<Event>,
        SourceError,
    >)
        requires
            d < page.times@.len(),
        ensures
            match r {
                Ok(events) => are_events_of_day(events@, redmine_config.server_url@, *page, d as int),
                Err(e) => is_broken_activity_error(e, *page, d as int),
            },
    {
        let times = &page.times[d];
        let mut result: Vec<Event> = Vec::new();
        let mut i: usize = 0;
        while i < times.len()
            invariant
                d < page.times@.len(),
                times@ == page.times@[d as int]@,
                i <= times@.len(),
                result@.len() == i,
                first_broken(*page, d as int, 0) == first_broken(*page, d as int, i as int),
                forall|k: int|
                    0 <= k < i ==> is_event_at(
                        #[trigger] result@[k],
                        redmine_config.server_url@,
                        *page,
                        d as int,
                        k,
                    ),
            decreases times.len() - i,
        {
            let time = match Self::parse_time(times[i].as_str()) {
                Ok(t) => t,
                Err(e) => {
                    assert(!is_whole(*page, d as int, i as int));
                    return Err(e);
                },
            };
            if d >= page.descriptions.len() || i >= page.descriptions[d].len() || d
                >= page.links.len() || i >= page.links[d].len() || d >= page.hrefs.len() || i
                >= page.hrefs[d].len() {
                assert(!is_whole(*page, d as int, i as int));
                return Err(
                    SourceError::Parse("An activity lacks its description or its link".to_owned()),
                );
            }
            let event = Self::build_event(
                redmine_config,
                time,
                page.links[d][i].as_str(),
                &page.hrefs[d][i],
                page.descriptions[d][i].as_str(),
            );
            proof {
                assert(is_whole(*page, d as int, i as int));
                assert(time == spec_activity_time(*page, d as int, i as int));
            }
            result.push(event);
            i = i + 1;
        }
        Ok(result)
    }

    /// Where the day `day` stands on a page whose days have the dates
    /// `dates`, the newest first, and of which the first `limit` have a list
    /// of activities. The dates are looked at in turn: one that cannot be
    /// read ends the search with its error, an older day ends it too, as the
    /// day was passed.
    pub fn find_day(dates: &Vec<Result<Day, SourceError>>, limit: usize, day: Day) -> (r: DaySearch)
        ensures
            r == spec_find_day(dates@, limit as int, day, 0),
            r matches DaySearch::Found(i) ==> i < dates@.len() && i < limit,
    {
        let mut i: usize = 0;
        while i < dates.len() && i < limit
            invariant
                i <= dates@.len(),
                spec_find_day(dates@, limit as int, day, 0) == spec_find_day(
                    dates@,
                    limit as int,
                    day,
                    i as int,
                ),
            decreases dates.len() - i,
        {
            match &dates[i] {
                Err(e) => {
                    return DaySearch::Failed(e.duplicate());
                },
                Ok(cur_date) => {
                    if cur_date.is_before(&day) {
                        return DaySearch::Passed;
                    }
                    if *cur_date == day {
                        return DaySearch::Found(i);
                    }
                },
            }
            i = i + 1;
        }
        DaySearch::EndOfPage
    }

    /// The address of the page before: the target of the link to it, behind
    /// the address of the server.
    pub fn previous_page_url(redmine_config: &RedmineConfig, previous: &Option<String>) -> (r:
        Option<String>)
        ensures
            match previous {
                Some(href) => r matches Some(url) && url@ == redmine_config.server_url@ + href@,
                None => r is None,
            },
    {
        match previous {
            Some(href) => {
                let mut url: Vec<char> = Vec::new();
                push_str(&mut url, redmine_config.server_url.as_str());
                push_str(&mut url, href.as_str());
                Some(string_of(&url))
            },
            None => None,
        }
    }

    /// What a page of activity gives for the day `day`, where the days of
    /// the page have the dates `dates`.
    pub fn page_result(
        redmine_config: &RedmineConfig,
        day: Day,
        dates: &Vec<Result<Day, SourceError>>,
        page: &ActivityPage,
    ) -> (r: ActivityParseResult)
        ensures
            is_page_result(r, redmine_config.server_url@, day, dates@, *page),
    {
        match Self::find_day(dates, page.times.len(), day) {
            DaySearch::Failed(e) => ActivityParseResult::Failed(e),
            DaySearch::Passed => ActivityParseResult::Events(Vec::new()),
            DaySearch::Found(d) => match Self::parse_events(redmine_config, page, d) {
                Ok(events) => ActivityParseResult::Events(events),
                Err(e) => ActivityParseResult::Failed(e),
            },
            DaySearch::EndOfPage => ActivityParseResult::ReachedEndOfPage(
                Self::previous_page_url(redmine_config, &page.previous),
            ),
        }
    }

    /// What the page `html` holds at the places where a page of activity
    /// holds its content.
    pub fn read_page(html: &str) -> (r: Option<ActivityPage>)
        ensures
            match r {
                Some(page) => is_page_of(page, html@),
                None => !is_page_read(html@),
            },
    {
        let day_texts = select_html(html, "div#content div#activity h3")?;
        let times = select_html_within(html, "div#content div#activity h3 + dl", "span.time")?;
        let descriptions = select_html_within(
            html,
            "div#content div#activity h3 + dl",
            "span.description",
        )?;
        let links = select_html_within(html, "div#content div#activity h3 + dl", "dt.icon a")?;
        let hrefs = select_attr_within(
            html,
            "div#content div#activity h3 + dl",
            "dt.icon a",
            "href",
        )?;
        let prev = select_attr(html, "li.previous.page a", "href")?;
        let previous = Self::first_value(Some(prev));
        Some(ActivityPage { day_texts, times, descriptions, links, hrefs, previous })
    }

    /// The dates of the days of a page, each read from its text.
    pub fn read_dates(day_texts: &Vec<String>, today: Day) -> (r: Vec<Result<Day, SourceError>>)
        ensures
            are_dates_read(r@, day_texts@, today),
    {
        let mut dates: Vec<Result<Day, SourceError>> = Vec::new();
        let mut i: usize = 0;
        while i < day_texts.len()
            invariant
                i <= day_texts@.len(),
                dates@.len() == i,
                forall|k: int|
                    0 <= k < i ==> is_date_read(#[trigger] dates@[k], day_texts@[k]@, today),
            decreases day_texts.len() - i,
        {
            dates.push(Self::parse_date(day_texts[i].as_str(), today));
            i = i + 1;
        }
        dates
    }

    /// What the page `activity_html` gives for the day `day`, today being
    /// `today`: the events of the day, where the page lists the day; no
    /// event, where it has come to an older day; else the address of the
    /// page before, which is to be read next.
    pub fn parse_html(
        redmine_config: &RedmineConfig,
        day: Day,
        today: Day,
        activity_html: &str,
    ) -> (r: ActivityParseResult)
        ensures
            if is_page_read(activity_html@) {
                exists|page: ActivityPage, dates: Seq<Result<Day, SourceError>>|
                    is_page_of(page, activity_html@) && are_dates_read(
                        dates,
                        page.day_texts@,
                        today,
                    ) && #[trigger] is_page_result(
                        r,
                        redmine_config.server_url@,
                        day,
                        dates,
                        page,
                    )
            } else {
                r matches ActivityParseResult::Failed(e) && e.is_parse(
                    "Can't read the page of activity"@,
                )
            },
    {
        let page = match Self::read_page(activity_html) {
            Some(page) => page,
            None => {
                return ActivityParseResult::Failed(
                    SourceError::Parse("Can't read the page of activity".to_owned()),
                );
            },
        };
        let dates = Self::read_dates(&page.day_texts, today);
        let r = Self::page_result(redmine_config, day, &dates, &page);
        assert(is_page_result(r, redmine_config.server_url@, day, dates@, page));
        r
    }

    /// The address of the page on which the user logs in.
    pub fn login_url(redmine_config: &RedmineConfig) -> (r: String)
        ensures
            r@ == spec_login_url(redmine_config.server_url@),
    {
        let mut url: Vec<char> = Vec::new();
        push_str(&mut url, redmine_config.server_url.as_str());
        push_str(&mut url, "/login");
        string_of(&url)
    }

    /// What is sent to log in: the names and the values of the fields of the
    /// form, with the token that the tracker gave.
    pub fn login_form(redmine_config: &RedmineConfig, auth_token: &str) -> (r: Vec<
        (&'static str, String),
    >)
        ensures
            r@.len() == 6,
            r@[0].0 == "username" && r@[0].1@ == redmine_config.username@,
            r@[1].0 == "password" && r@[1].1@ == redmine_config.password@,
            r@[2].0 == "login" && r@[2].1@ == "Login"@,
            r@[3].0 == "utf8" && r@[3].1@ == "\u{2713}"@,
            r@[4].0 == "back_url" && r@[4].1@ == redmine_config.server_url@,
            r@[5].0 == "authenticity_token" && r@[5].1@ == auth_token@,
    {
        let mut form: Vec<(&'static str, String)> = Vec::new();
        form.push(("username", redmine_config.username.clone()));
        form.push(("password", redmine_config.password.clone()));
        form.push(("login", "Login".to_owned()));
        form.push(("utf8", "\u{2713}".to_owned()));
        form.push(("back_url", redmine_config.server_url.clone()));
        form.push(("authenticity_token", auth_token.to_owned()));
        form
    }

    /// The address of the page of the activity of the user `user_id`.
    pub fn activity_url(redmine_config: &RedmineConfig, user_id: &str) -> (r: String)
        ensures
            r@ == spec_activity_url(redmine_config.server_url@, user_id@),
    {
        let mut url: Vec<char> = Vec::new();
        push_str(&mut url, redmine_config.server_url.as_str());
        push_str(&mut url, "/activity?user_id=");
        push_str(&mut url, user_id);
        string_of(&url)
    }

    /// The first of `values`, if there is one and it is there.
    pub fn first_value(values: Option<Vec<Option<String>>>) -> (r: Option<String>)
        ensures
            r == match values {
                Some(v) => if v@.len() > 0 {
                    v@[0]
                } else {
                    None
                },
                None => None,
            },
            r.deep_view() == spec_first_text(values.deep_view()),
    {
        match values {
            Some(v) => {
                if v.len() > 0 {
                    match &v[0] {
                        Some(s) => Some(s.clone()),
                        None => None,
                    }
                } else {
                    None
                }
            },
            None => None,
        }
    }

    /// The token that the tracker wants back with the login, from the page
    /// that it shows first.
    pub fn authenticity_token(html: &str) -> (r: Option<String>)
        ensures
            r.deep_view() == spec_first_text(
                selected_attr(html@, "input[name=authenticity_token]"@, "value"@),
            ),
    {
        Self::first_value(select_attr(html, "input[name=authenticity_token]", "value"))
    }

    /// The id of the user who is logged in, from the page that the tracker
    /// shows after the login.
    pub fn user_id(html: &str) -> (r: Option<String>)
        ensures
            match spec_first_text(selected_attr(html@, "a.user.active"@, "href"@)) {
                Some(href) => r matches Some(id) && id@ == spec_replace(href, "/users/"@, ""@),
                None => r is None,
            },
    {
        match Self::first_value(select_attr(html, "a.user.active", "href")) {
            Some(href) => Some(replace(href.as_str(), "/users/", "")),
            None => None,
        }
    }
}


impl EventProvider for Redmine {
    open spec fn spec_name(&self) -> &'static str {
        "Redmine"
    }

    open spec fn spec_icon_name(&self) -> &'static str {
        "tasks-symbolic"
    }

    open spec fn spec_config_fields(&self) -> Seq<(&'static str, ConfigType)> {
        seq![("Server URL", ConfigType::Text("")), ("Username", ConfigType::Text("")), ("Password", ConfigType::Password)]
    }

    open spec fn spec_config_names(&self, config: &Config) -> Seq<Seq<char>> {
        config.redmine.names()
    }

    open spec fn spec_config_values(&self, config: &Config, config_name: Seq<char>) -> Option<
        Seq<Seq<char>>,
    > {
        if config.redmine.contains(config_name) {
            Some(seq![config.redmine.value(config_name).server_url@, config.redmine.value(config_name).username@, config.redmine.value(config_name).password@])
        } else {
            None
        }
    }

    fn get_config_fields(&self) -> (r: Vec<(&'static str, ConfigType)>) {
        let mut fields: Vec<(&'static str, ConfigType)> = Vec::new();
        fields.push(("Server URL", ConfigType::Text("")));
        fields.push(("Username", ConfigType::Text("")));
        fields.push(("Password", ConfigType::Password));
        assert(fields@ =~= self.spec_config_fields());
        fields
    }

    fn name(&self) -> (r: &'static str) {
        "Redmine"
    }

    fn default_icon(&self) -> (r: Icon) {
        Icon::tasks()
    }

    fn get_config_names(&self, config: &Config) -> (r: Vec<String>) {
        config.redmine.get_names()
    }

    fn get_config_values(&self, config: &Config, config_name: &str) -> (r: Vec<
        (&'static str, String),
    >) {
        let mut values: Vec<(&'static str, String)> = Vec::new();
        match config.redmine.get(config_name) {
            Some(source) => {
                values.push(("Server URL", source.server_url.clone()));
                values.push(("Username", source.username.clone()));
                values.push(("Password", source.password.clone()));
            },
            None => {},
        }
        assert(field_values(values@) =~= self.spec_config_values(config, config_name@).unwrap());
        values
    }

    fn add_config_values(
        &self,
        config: &mut Config,
        config_name: String,
        config_values: Vec<(&'static str, String)>,
    )
        ensures
            final(config).redmine.as_map() == old(config).redmine.as_map().insert(
                config_name@,
                final(config).redmine.value(config_name@),
            ),
            final(config).git == old(config).git,
            final(config).email == old(config).email,
            final(config).ical == old(config).ical,
            final(config).gitlab == old(config).gitlab,
            final(config).stackexchange == old(config).stackexchange,
            final(config).prefer_dark_theme == old(config).prefer_dark_theme,
            final(config).prev_next_day_skip_weekends == old(config).prev_next_day_skip_weekends,
    {
        proof {
            let fields = self.spec_config_fields();
            assert(fields[0].0@ == "Server URL"@);
            assert(fields[1].0@ == "Username"@);
            assert(fields[2].0@ == "Password"@);
        }
        let server_url = value_for(&config_values, "Server URL");
        let username = value_for(&config_values, "Username");
        let password = value_for(&config_values, "Password");
        let ghost added = RedmineConfig { server_url, username, password };
        config.redmine.insert(config_name, RedmineConfig { server_url, username, password });
        proof {
            let table = config.redmine.as_map();
            assert(table == old(config).redmine.as_map().insert(config_name@, added));
            assert(table.dom().contains(config_name@));
            assert(table[config_name@] == added);
            assert(config.redmine.contains(config_name@));
            assert(config.redmine.value(config_name@) == added);
            assert(self.spec_config_values(config, config_name@).unwrap() =~= chosen_values(
                self.spec_config_fields(),
                config_values@,
            ));
        }
    }

    fn remove_config(&self, config: &mut Config, config_name: String)
        ensures
            final(config).redmine.as_map() == old(config).redmine.as_map().remove(config_name@),
            final(config).git == old(config).git,
            final(config).email == old(config).email,
            final(config).ical == old(config).ical,
            final(config).gitlab == old(config).gitlab,
            final(config).stackexchange == old(config).stackexchange,
            final(config).prefer_dark_theme == old(config).prefer_dark_theme,
            final(config).prev_next_day_skip_weekends == old(config).prev_next_day_skip_weekends,
    {
        config.redmine.remove(config_name.as_str());
        proof {
            assert(!config.redmine.as_map().dom().contains(config_name@));
        }
    }
}

} // verus!
