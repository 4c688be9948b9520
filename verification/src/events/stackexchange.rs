//! Votes of one user on a question-and-answer site, read from the pages that
//! the site shows.
//!
//! The pages are fetched by the caller. What is decided here: what is sent
//! to log in, whether the site let the user in, where the page of the user
//! is, which votes are of the day, and what the event of a vote says.

use crate::events::events::Event;
use crate::events::events::EventBody;
use crate::events::events::SourceError;
use crate::events::events::WordWrapMode;
use crate::html::select_attr;
use crate::html::select_attr_within;
use crate::html::select_html;
use crate::html::selected_attr;
use crate::html::selected_attr_within;
use crate::html::selected_html;
use crate::icons::Icon;
use crate::text::contains;
use crate::text::push_str;
use crate::text::replace;
use crate::text::spec_contains;
use crate::text::spec_replace;
use crate::text::string_of;
use crate::time::offset_format_instant;
use crate::time::parse_from_str;
use crate::time::DayWindow;
use crate::time::LocalDateTime;
use crate::time::TimeOfDay;
use crate::config::Config;
use crate::events::events::chosen_values;
use crate::events::events::field_values;
use crate::events::events::value_for;
use crate::events::events::ConfigType;
use crate::events::events::EventProvider;
use vstd::prelude::*;

verus! {

/// One configured site.
#[derive(Clone, Debug)]
pub struct StackExchangeConfig {
    pub exchange_site_url: String,
    pub username: String,
    pub password: String,
}

/// The source of events that reads the pages of a question-and-answer site.
#[derive(Clone, Copy, Debug, PartialEq, Eq, Structural)]
pub struct StackExchange;

/// What the page of the votes of a user holds, as the texts of the page: the
/// titles and the targets of the links to what was voted on, and for each
/// vote the date that its entry carries and the dates that the parts of its
/// entry carry.
#[derive(Debug, PartialEq)]
pub struct VotesPage {
    pub titles: Vec<String>,
    pub hrefs: Vec<Option<String>>,
    pub date_titles: Vec<Option<String>>,
    pub brick_titles: Vec<Vec<Option<String>>>,
}

/// Whether `scraper` accepts every selector by which a page of votes is
/// read.
pub open spec fn is_votes_page_read(html: Seq<char>) -> bool {
    let links =
        "table.history-table a.answer-hyperlink,table.history-table a.question-hyperlink"@;
    let dates = "table.history-table div.date"@;
    &&& selected_html(html, links) is Some
    &&& selected_attr(html, links, "href"@) is Some
    &&& selected_attr(html, dates, "title"@) is Some
    &&& selected_attr_within(html, dates, "div.date_brick"@, "title"@) is Some
}

/// Whether `page` holds the texts that `scraper` finds on the page `html` at
/// the places where a page of votes holds its content.
pub open spec fn is_votes_page_of(page: VotesPage, html: Seq<char>) -> bool {
    let links =
        "table.history-table a.answer-hyperlink,table.history-table a.question-hyperlink"@;
    let dates = "table.history-table div.date"@;
    &&& selected_html(html, links) == Some(page.titles.deep_view())
    &&& selected_attr(html, links, "href"@) == Some(page.hrefs.deep_view())
    &&& selected_attr(html, dates, "title"@) == Some(page.date_titles.deep_view())
    &&& selected_attr_within(html, dates, "div.date_brick"@, "title"@) == Some(
        page.brick_titles.deep_view(),
    )
}

/// The first of `values`: `None` where there is none, and `Some(None)` where
/// it is not there.
pub open spec fn spec_first_found(values: Option<Seq<Option<Seq<char>>>>) -> Option<
    Option<Seq<char>>,
> {
    match values {
        Some(v) => if v.len() > 0 {
            Some(v[0])
        } else {
            None
        },
        None => None,
    }
}

/// `msg` as it stands in the query of an address: `/` and `:` are written by
/// their numbers.
pub open spec fn spec_url_escape(msg: Seq<char>) -> Seq<char> {
    spec_replace(spec_replace(msg, "/"@, "%2f"@), ":"@, "%3a"@)
}

/// The part of the address of the page on which the user logs in.
pub open spec fn spec_login_path(site_url: Seq<char>) -> Seq<char> {
    "/users/login?ssrc=head&returnurl="@ + spec_url_escape(site_url)
}

/// Whether the page that the site shows after the login says that it took
/// the user for a machine.
pub open spec fn spec_is_login_rejected(html: Seq<char>) -> bool {
    spec_contains(html, "Human verification"@) && spec_contains(html, "Are you a human being?"@)
}

/// The text of the date of the vote at `i`: the date that its entry
/// carries, or else the date that the first part of its entry carries.
pub open spec fn spec_vote_date_text(page: VotesPage, i: int) -> Option<String> {
    if 0 <= i < page.date_titles@.len() && page.date_titles@[i] is Some {
        page.date_titles@[i]
    } else if 0 <= i < page.brick_titles@.len() && page.brick_titles@[i]@.len() > 0 {
        page.brick_titles@[i]@[0]
    } else {
        None
    }
}

/// The instant that the text of a date of the site stands for.
pub open spec fn spec_vote_instant(text: Seq<char>) -> Option<(int, int)> {
    offset_format_instant(spec_replace(text, "Z"@, "+00"@), "%Y-%m-%d %H:%M:%S%#z"@)
}

/// Whether the vote at `i` is listed for the day `day`: it has a title, a
/// link and a date that can be read, and the date is of the day.
pub open spec fn is_vote_of_day(page: VotesPage, day: DayWindow, i: int) -> bool {
    &&& 0 <= i < page.date_titles@.len()
    &&& i < page.titles@.len()
    &&& i < page.hrefs@.len()
    &&& page.hrefs@[i] is Some
    &&& spec_vote_date_text(page, i) matches Some(text)
    &&& spec_vote_instant(text@) matches Some(instant)
    &&& day.day_start <= instant.0 < day.next_day_start
}

/// The positions of the votes of the day among the first `upto` votes of
/// the page.
pub open spec fn votes_of_day(page: VotesPage, day: DayWindow, upto: int) -> Seq<int>
    decreases upto,
{
    if upto <= 0 {
        Seq::empty()
    } else if is_vote_of_day(page, day, upto - 1) {
        votes_of_day(page, day, upto - 1).push(upto - 1)
    } else {
        votes_of_day(page, day, upto - 1)
    }
}

/// The body of the event of a vote.
pub open spec fn spec_vote_body(site_url: Seq<char>, link: Seq<char>) -> Seq<char> {
    "<a href=\""@ + site_url + link + "\">Open in the browser</a>\n\nStack Exchange vote: "@
        + site_url
}

/// Whether `ev` is the event of a vote, at `time`, on the thing with the
/// title `title` that stands at `link`.
pub open spec fn is_vote_event(
    ev: Event,
    site_url: Seq<char>,
    time: TimeOfDay,
    title: Seq<char>,
    link: Seq<char>,
) -> bool {
    &&& ev.event_type_desc == "S.Exch"
    &&& ev.event_type_icon.spec_name() == "thumbs-up-symbolic"
    &&& ev.event_time == time
    &&& ev.event_info@ == title
    &&& ev.event_contents_header@ == "Vote: "@ + title
    &&& ev.event_contents_body matches EventBody::Markup(body, mode)
    &&& mode == WordWrapMode::WordWrap
    &&& body@ == spec_vote_body(site_url, link)
    &&& ev.event_extra_details matches Some(extra)
    &&& extra@ == "Vote"@
}

/// Whether `ev` is the event of the vote at `i` of the page, at a local
/// time within the day.
pub open spec fn is_event_of_vote(ev: Event, site_url: Seq<char>, page: VotesPage, i: int) -> bool {
    &&& 0 <= i < page.titles@.len()
    &&& i < page.hrefs@.len()
    &&& page.hrefs@[i] is Some
    &&& ev.event_time.wf()
    &&& is_vote_event(ev, site_url, ev.event_time, page.titles@[i]@, page.hrefs@[i].unwrap()@)
}

/// Whether `events` are the events of the votes of the day `day` on the page
/// `page`, one for each in the order of the page.
pub open spec fn are_votes_of(
    events: Seq<Event>,
    site_url: Seq<char>,
    page: VotesPage,
    day: DayWindow,
) -> bool {
    let kept = votes_of_day(page, day, page.date_titles@.len() as int);
    &&& events.len() == kept.len()
    &&& forall|k: int|
        0 <= k < events.len() ==> is_event_of_vote(#[trigger] events[k], site_url, page, kept[k])
}

/// Whether `events` are the events of the votes of the day `day` on a page
/// that holds the texts which `scraper` finds on the page `html`.
pub open spec fn are_votes_on(
    events: Seq<Event>,
    site_url: Seq<char>,
    html: Seq<char>,
    day: DayWindow,
) -> bool {
    exists|page: VotesPage|
        is_votes_page_of(page, html) && #[trigger] are_votes_of(events, site_url, page, day)
}

impl StackExchange {
    /// `msg` as it stands in the query of an address.
    pub fn url_escape(msg: &str) -> (r: String)
        ensures
            r@ == spec_url_escape(msg@),
    {
        let slashes = replace(msg, "/", "%2f");
        replace(slashes.as_str(), ":", "%3a")
    }

    /// The part of the address of the page on which the user logs in.
    pub fn login_path(stackexchange_config: &StackExchangeConfig) -> (r: String)
        ensures
            r@ == spec_login_path(stackexchange_config.exchange_site_url@),
    {
        let mut path: Vec<char> = Vec::new();
        push_str(&mut path, "/users/login?ssrc=head&returnurl=");
        let escaped = Self::url_escape(stackexchange_config.exchange_site_url.as_str());
        push_str(&mut path, escaped.as_str());
        string_of(&path)
    }

    /// The address of the page `url_path` of the site.
    pub fn page_url(stackexchange_config: &StackExchangeConfig, url_path: &str) -> (r: String)
        ensures
            r@ == stackexchange_config.exchange_site_url@ + url_path@,
    {
        let mut url: Vec<char> = Vec::new();
        push_str(&mut url, stackexchange_config.exchange_site_url.as_str());
        push_str(&mut url, url_path);
        string_of(&url)
    }

    /// The key that the site wants back with the login, from the page on
    /// which the user logs in. A page without the field of the key is an
    /// error, and so is a field without a value.
    pub fn find_fkey(home_body: &str) -> (r: Result<String, SourceError>)
        ensures
            match spec_first_found(selected_attr(home_body@, "input[name=fkey]"@, "value"@)) {
                Some(Some(fkey)) => r matches Ok(key) && key@ == fkey,
                Some(None) => r matches Err(e) && e.is_parse("login: can't find fkey value?"@),
                None => r matches Err(e) && e.is_parse("login: can't find fkey?"@),
            },
    {
        match select_attr(home_body, "input[name=fkey]", "value") {
            Some(values) => {
                if values.len() > 0 {
                    match &values[0] {
                        Some(fkey) => Ok(fkey.clone()),
                        None => Err(SourceError::Parse("login: can't find fkey value?".to_owned())),
                    }
                } else {
                    Err(SourceError::Parse("login: can't find fkey?".to_owned()))
                }
            },
            None => Err(SourceError::Parse("login: can't find fkey?".to_owned())),
        }
    }

    /// What is sent to log in: the names and the values of the fields of the
    /// form.
    pub fn login_form(stackexchange_config: &StackExchangeConfig, fkey: &str) -> (r: Vec<
        (&'static str, String),
    >)
        ensures
            r@.len() == 6,
            r@[0].0 == "ssrc" && r@[0].1@ == "head"@,
            r@[1].0 == "fkey" && r@[1].1@ == fkey@,
            r@[2].0 == "email" && r@[2].1@ == stackexchange_config.username@,
            r@[3].0 == "password" && r@[3].1@ == stackexchange_config.password@,
            r@[4].0 == "oauth_version" && r@[4].1@ == Seq::<char>::empty(),
            r@[5].0 == "oauth_server" && r@[5].1@ == Seq::<char>::empty(),
    {
        let mut form: Vec<(&'static str, String)> = Vec::new();
        form.push(("ssrc", "head".to_owned()));
        form.push(("fkey", fkey.to_owned()));
        form.push(("email", stackexchange_config.username.clone()));
        form.push(("password", stackexchange_config.password.clone()));
        form.push(("oauth_version", String::new()));
        form.push(("oauth_server", String::new()));
        form
    }

    /// Whether the page that the site shows after the login says that it
    /// took the user for a machine.
    pub fn is_login_rejected(html: &str) -> (r: bool)
        ensures
            r == spec_is_login_rejected(html@),
    {
        contains(html, "Human verification") && contains(html, "Are you a human being?")
    }

    /// The page that the site shows after the login, if the site let the
    /// user in; an error where it took the user for a machine.
    pub fn login(html: String) -> (r: Result<String, SourceError>)
        ensures
            r matches Ok(page) ==> page == html,
            r is Err <==> spec_is_login_rejected(html@),
            r matches Err(e) ==> e.is_authentication("Login rejected: human verification failed"@),
    {
        if Self::is_login_rejected(html.as_str()) {
            Err(SourceError::Authentication("Login rejected: human verification failed".to_owned()))
        } else {
            Ok(html)
        }
    }

    /// The part of the address of the page of the user, from a page that
    /// the site shows to a user who is logged in. A page without the link to
    /// the page of the user is an error, and so is a link without a target.
    pub fn get_user_page_url(html: &str) -> (r: Result<String, SourceError>)
        ensures
            match spec_first_found(selected_attr(html@, "a.my-profile.js-gps-track"@, "href"@)) {
                Some(Some(href)) => r matches Ok(link) && link@ == href,
                Some(None) => r matches Err(e) && e.is_parse(
                    "Can't find the link to the user page"@,
                ),
                None => r matches Err(e) && e.is_parse("Can't find the user page link"@),
            },
    {
        match select_attr(html, "a.my-profile.js-gps-track", "href") {
            Some(values) => {
                if values.len() > 0 {
                    match &values[0] {
                        Some(href) => Ok(href.clone()),
                        None => Err(
                            SourceError::Parse("Can't find the link to the user page".to_owned()),
                        ),
                    }
                } else {
                    Err(SourceError::Parse("Can't find the user page link".to_owned()))
                }
            },
            None => Err(SourceError::Parse("Can't find the user page link".to_owned())),
        }
    }

    /// The part of the address of the page of the votes of the user whose
    /// page is at `userpage_link`.
    pub fn votes_page_path(userpage_link: &str) -> (r: String)
        ensures
            r@ == userpage_link@ + "?tab=votes"@,
    {
        let mut path: Vec<char> = Vec::new();
        push_str(&mut path, userpage_link);
        push_str(&mut path, "?tab=votes");
        string_of(&path)
    }

    /// What the page `html` holds at the places where a page of votes holds
    /// its content.
    pub fn read_votes_page(html: &str) -> (r: Option<VotesPage>)
        ensures
            match r {
                Some(page) => is_votes_page_of(page, html@),
                None => !is_votes_page_read(html@),
            },
    {
        let titles = select_html(
            html,
            "table.history-table a.answer-hyperlink,table.history-table a.question-hyperlink",
        )?;
        let hrefs = select_attr(
            html,
            "table.history-table a.answer-hyperlink,table.history-table a.question-hyperlink",
            "href",
        )?;
        let date_titles = select_attr(html, "table.history-table div.date", "title")?;
        let brick_titles = select_attr_within(
            html,
            "table.history-table div.date",
            "div.date_brick",
            "title",
        )?;
        Some(VotesPage { titles, hrefs, date_titles, brick_titles })
    }

    /// The text of the date of the vote at `i`.
    pub fn vote_date_text(page: &VotesPage, i: usize) -> (r: Option<&String>)
        ensures
            match spec_vote_date_text(*page, i as int) {
                Some(text) => r == Some(&text),
                None => r is None,
            },
    {
        if i < page.date_titles.len() && page.date_titles[i].is_some() {
            page.date_titles[i].as_ref()
        } else if i < page.brick_titles.len() && page.brick_titles[i].len() > 0 {
            page.brick_titles[i][0].as_ref()
        } else {
            None
        }
    }

    /// Reads a date of the site: year, month, day, hours, minutes and
    /// seconds, and the time zone, for which `Z` stands where it is UTC.
    pub fn parse_vote_date(text: &str) -> (r: Option<LocalDateTime>)
        ensures
            match spec_vote_instant(text@) {
                Some(i) => r matches Some(d) && d.instant() == i && d.wf(),
                None => r is None,
            },
    {
        let zoned = replace(text, "Z", "+00");
        parse_from_str(zoned.as_str(), "%Y-%m-%d %H:%M:%S%#z")
    }

    /// The event of a vote at `date` on the thing with the title `title`
    /// that stands at `link`.
    pub fn build_event(
        stackexchange_config: &StackExchangeConfig,
        date: &LocalDateTime,
        title: &str,
        link: &str,
    ) -> (r: Event)
        ensures
            is_vote_event(r, stackexchange_config.exchange_site_url@, date.time, title@, link@),
    {
        let mut header: Vec<char> = Vec::new();
        push_str(&mut header, "Vote: ");
        push_str(&mut header, title);
        let mut body: Vec<char> = Vec::new();
        push_str(&mut body, "<a href=\"");
        push_str(&mut body, stackexchange_config.exchange_site_url.as_str());
        push_str(&mut body, link);
        push_str(&mut body, "\">Open in the browser</a>\n\nStack Exchange vote: ");
        push_str(&mut body, stackexchange_config.exchange_site_url.as_str());
        assert(body@ =~= spec_vote_body(stackexchange_config.exchange_site_url@, link@));
        Event::new(
            "S.Exch",
            Icon::thumbs_up(),
            date.time,
            title.to_owned(),
            string_of(&header),
            EventBody::Markup(string_of(&body), WordWrapMode::WordWrap),
            Some("Vote".to_owned()),
        )
    }

    /// The event of the vote at `i` of the page, if the vote is of the day
    /// `day`.
    pub fn vote_of_day(
        stackexchange_config: &StackExchangeConfig,
        page: &VotesPage,
        day: &DayWindow,
        i: usize,
    ) -> (r: Option<Event>)
        ensures
            if is_vote_of_day(*page, *day, i as int) {
                r matches Some(ev) && is_event_of_vote(
                    ev,
                    stackexchange_config.exchange_site_url@,
                    *page,
                    i as int,
                )
            } else {
                r is None
            },
    {
        if i >= page.date_titles.len() || i >= page.titles.len() || i >= page.hrefs.len() {
            return None;
        }
        let link = match &page.hrefs[i] {
            Some(link) => link,
            None => {
                return None;
            },
        };
        let date = match Self::vote_date_text(page, i) {
            Some(text) => match Self::parse_vote_date(text.as_str()) {
                Some(date) => date,
                None => {
                    return None;
                },
            },
            None => {
                return None;
            },
        };
        if day.contains(date.timestamp) {
            Some(
                Self::build_event(
                    stackexchange_config,
                    &date,
                    page.titles[i].as_str(),
                    link.as_str(),
                ),
            )
        } else {
            None
        }
    }

    /// The events of the votes of the day `day` on the page `page`, one for
    /// each vote of the day in the order of the page.
    pub fn votes_of_page(
        page: &VotesPage,
        stackexchange_config: &StackExchangeConfig,
        day: &DayWindow,
    ) -> (r: Vec<Event>)
        ensures
            are_votes_of(r@, stackexchange_config.exchange_site_url@, *page, *day),
    {
        let mut events: Vec<Event> = Vec::new();
        let mut i: usize = 0;
        while i < page.date_titles.len()
            invariant
                i <= page.date_titles@.len(),
                events@.len() == votes_of_day(*page, *day, i as int).len(),
                forall|k: int|
                    0 <= k < events@.len() ==> is_event_of_vote(
                        #[trigger] events@[k],
                        stackexchange_config.exchange_site_url@,
                        *page,
                        votes_of_day(*page, *day, i as int)[k],
                    ),
            decreases page.date_titles.len() - i,
        {
            match Self::vote_of_day(stackexchange_config, page, day, i) {
                Some(ev) => {
                    events.push(ev);
                },
                None => {},
            }
            i = i + 1;
        }
        events
    }

    /// The events of the votes of the day `day` on the page
    /// `votes_page_html`, one for each vote of the day in the order of the
    /// page. A vote counts where its entry gives a title, a link and a date
    /// that can be read.
    pub fn get_votes(
        votes_page_html: &str,
        stackexchange_config: &StackExchangeConfig,
        day: &DayWindow,
    ) -> (r: Result<Vec<Event>, SourceError>)
        ensures
            if is_votes_page_read(votes_page_html@) {
                r matches Ok(events) && are_votes_on(
                    events@,
                    stackexchange_config.exchange_site_url@,
                    votes_page_html@,
                    *day,
                )
            } else {
                r matches Err(e) && e.is_parse("Can't read the page of votes"@)
            },
    {
        match Self::read_votes_page(votes_page_html) {
            Some(page) => {
                let events = Self::votes_of_page(&page, stackexchange_config, day);
                assert(are_votes_of(events@, stackexchange_config.exchange_site_url@, page, *day));
                Ok(events)
            },
            None => Err(SourceError::Parse("Can't read the page of votes".to_owned())),
        }
    }
}


impl EventProvider for StackExchange {
    open spec fn spec_name(&self) -> &'static str {
        "StackExchange"
    }

    open spec fn spec_icon_name(&self) -> &'static str {
        "thumbs-up-symbolic"
    }

    open spec fn spec_config_fields(&self) -> Seq<(&'static str, ConfigType)> {
        seq![("Stack Exchange site url", ConfigType::Text("https://stackoverflow.com")), ("username", ConfigType::Text("")), ("password", ConfigType::Password)]
    }

    open spec fn spec_config_names(&self, config: &Config) -> Seq<Seq<char>> {
        config.stackexchange.names()
    }

    open spec fn spec_config_values(&self, config: &Config, config_name: Seq<char>) -> Option<
        Seq<Seq<char>>,
    > {
        if config.stackexchange.contains(config_name) {
            Some(seq![config.stackexchange.value(config_name).exchange_site_url@, config.stackexchange.value(config_name).username@, config.stackexchange.value(config_name).password@])
        } else {
            None
        }
    }

    fn get_config_fields(&self) -> (r: Vec<(&'static str, ConfigType)>) {
        let mut fields: Vec<(&'static str, ConfigType)> = Vec::new();
        fields.push(("Stack Exchange site url", ConfigType::Text("https://stackoverflow.com")));
        fields.push(("username", ConfigType::Text("")));
        fields.push(("password", ConfigType::Password));
        assert(fields@ =~= self.spec_config_fields());
        fields
    }

    fn name(&self) -> (r: &'static str) {
        "StackExchange"
    }

    fn default_icon(&self) -> (r: Icon) {
        Icon::thumbs_up()
    }

    fn get_config_names(&self, config: &Config) -> (r: Vec<String>) {
        config.stackexchange.get_names()
    }

    fn get_config_values(&self, config: &Config, config_name: &str) -> (r: Vec<
        (&'static str, String),
    >) {
        let mut values: Vec<(&'static str, String)> = Vec::new();
        match config.stackexchange.get(config_name) {
            Some(source) => {
                values.push(("Stack Exchange site url", source.exchange_site_url.clone()));
                values.push(("username", source.username.clone()));
                values.push(("password", source.password.clone()));
            },
            None => {},
        }
        assert(field_values(values@) =~= self.spec_config_values(config, config_name@).unwrap());
        values
    }

    fn add_config_values(
        &self,
        config: &mut Config,
        config_name: String,
        config_values: Vec<(&'static str, String)>,
    )
        ensures
            final(config).stackexchange.as_map() == old(config).stackexchange.as_map().insert(
                config_name@,
                final(config).stackexchange.value(config_name@),
            ),
            final(config).git == old(config).git,
            final(config).email == old(config).email,
            final(config).ical == old(config).ical,
            final(config).redmine == old(config).redmine,
            final(config).gitlab == old(config).gitlab,
            final(config).prefer_dark_theme == old(config).prefer_dark_theme,
            final(config).prev_next_day_skip_weekends == old(config).prev_next_day_skip_weekends,
    {
        proof {
            let fields = self.spec_config_fields();
            assert(fields[0].0@ == "Stack Exchange site url"@);
            assert(fields[1].0@ == "username"@);
            assert(fields[2].0@ == "password"@);
        }
        let exchange_site_url = value_for(&config_values, "Stack Exchange site url");
        let username = value_for(&config_values, "username");
        let password = value_for(&config_values, "password");
        let ghost added = StackExchangeConfig { exchange_site_url, username, password };
        config.stackexchange.insert(config_name, StackExchangeConfig { exchange_site_url, username, password });
        proof {
            let table = config.stackexchange.as_map();
            assert(table == old(config).stackexchange.as_map().insert(config_name@, added));
            assert(table.dom().contains(config_name@));
            assert(table[config_name@] == added);
            assert(config.stackexchange.contains(config_name@));
            assert(config.stackexchange.value(config_name@) == added);
            assert(self.spec_config_values(config, config_name@).unwrap() =~= chosen_values(
                self.spec_config_fields(),
                config_values@,
            ));
        }
    }

    fn remove_config(&self, config: &mut Config, config_name: String)
        ensures
            final(config).stackexchange.as_map() == old(config).stackexchange.as_map().remove(config_name@),
            final(config).git == old(config).git,
            final(config).email == old(config).email,
            final(config).ical == old(config).ical,
            final(config).redmine == old(config).redmine,
            final(config).gitlab == old(config).gitlab,
            final(config).prefer_dark_theme == old(config).prefer_dark_theme,
            final(config).prev_next_day_skip_weekends == old(config).prev_next_day_skip_weekends,
    {
        config.stackexchange.remove(config_name.as_str());
        proof {
            assert(!config.stackexchange.as_map().dom().contains(config_name@));
        }
    }
}

} // verus!
