use cigale::config::Config;
use cigale::events::events::config_source_names;
use cigale::events::events::configs_to_fetch;
use cigale::events::events::get_all_events;
use cigale::events::events::get_event_provider_by_name;
use cigale::events::events::get_event_providers;
use cigale::events::events::Event;
use cigale::events::events::EventBody;
use cigale::events::events::EventProvider;
use cigale::events::events::Provider;
use cigale::events::events::ProviderError;
use cigale::events::events::SourceError;
use cigale::events::events::SourceEvents;
use cigale::events::events::WordWrapMode;
use cigale::events::git::Git;
use cigale::events::ical::Ical;
use cigale::events::redmine::Redmine;
use cigale::icons::Icon;
use cigale::sorting::insert_event_by_time;
use cigale::sorting::sort_by_time;
use cigale::time::TimeOfDay;

fn event(secs: u32, title: &str) -> Event {
    Event::new(
        "Test",
        Icon::tasks(),
        TimeOfDay { secs, frac: 0 },
        title.to_string(),
        title.to_string(),
        EventBody::PlainText(title.to_string()),
        None,
    )
}

fn titles(events: &[Event]) -> Vec<&str> {
    events.iter().map(|e| e.event_info.as_str()).collect()
}

fn source(provider_name: &'static str, config_name: &str, events: Result<Vec<Event>, SourceError>) -> SourceEvents {
    SourceEvents { provider_name, config_name: config_name.to_string(), events }
}

#[test]
fn the_events_of_all_sources_are_ordered_by_time() {
    let outcomes = vec![
        source("Git", "repo", Ok(vec![event(30, "c1"), event(10, "c2")])),
        source("Email", "box", Ok(vec![])),
        source("Ical", "cal", Ok(vec![event(20, "e1"), event(10, "e2"), event(5, "e3")])),
    ];
    let events = get_all_events(outcomes).unwrap();
    // events of the same time keep the order of their sources
    assert_eq!(vec!["e3", "c2", "e2", "e1", "c1"], titles(&events));
}

#[test]
fn one_failing_source_fails_the_whole() {
    let outcomes = vec![
        source("A", "first", Ok(vec![event(1, "a")])),
        source("B", "second", Err(SourceError::Io("unreachable".to_string()))),
    ];
    let failure = get_all_events(outcomes).unwrap_err();
    assert_eq!(
        ProviderError::new("B", "second".to_string(), SourceError::Io("unreachable".to_string())),
        failure
    );
    assert_eq!("B - second: unreachable", failure.message());
}

#[test]
fn the_first_failing_source_is_named() {
    let outcomes = vec![
        source("A", "first", Ok(vec![event(1, "a")])),
        source("B", "second", Err(SourceError::Parse("bad date".to_string()))),
        source("C", "third", Err(SourceError::NotFound("no user".to_string()))),
    ];
    let failure = get_all_events(outcomes).unwrap_err();
    assert_eq!("B", failure.provider_name);
    assert_eq!("second", failure.config_name);
    assert_eq!(SourceError::Parse("bad date".to_string()), failure.err);
}

#[test]
fn no_source_gives_no_event() {
    assert_eq!(Ok(vec![]), get_all_events(vec![]));
}

#[test]
fn sorting_is_stable() {
    let events = vec![
        event(3, "a"),
        event(1, "b"),
        event(3, "c"),
        event(2, "d"),
        event(1, "e"),
        event(3, "f"),
    ];
    let sorted = sort_by_time(events);
    assert_eq!(vec!["b", "e", "d", "a", "c", "f"], titles(&sorted));
}

#[test]
fn nanoseconds_order_events_of_the_same_second() {
    let mut early = event(5, "early");
    early.event_time.frac = 1;
    let mut late = event(5, "late");
    late.event_time.frac = 2;
    let sorted = sort_by_time(vec![late.clone(), event(4, "before"), early.clone()]);
    assert_eq!(vec!["before", "early", "late"], titles(&sorted));
}

#[test]
fn an_event_goes_behind_those_of_its_time() {
    let mut events = vec![event(1, "a"), event(2, "b"), event(2, "c"), event(3, "d")];
    insert_event_by_time(&mut events, event(2, "new"));
    assert_eq!(vec!["a", "b", "c", "new", "d"], titles(&events));
    insert_event_by_time(&mut events, event(0, "first"));
    insert_event_by_time(&mut events, event(9, "last"));
    assert_eq!(vec!["first", "a", "b", "c", "new", "d", "last"], titles(&events));
}

#[test]
fn a_body_knows_its_kind() {
    let plain = EventBody::PlainText("<b>text</b>".to_string());
    assert!(!plain.is_markup());
    assert!(!plain.is_word_wrap());
    assert_eq!("<b>text</b>", plain.as_str());
    let wrapped = EventBody::Markup("<b>m</b>".to_string(), WordWrapMode::WordWrap);
    assert!(wrapped.is_markup());
    assert!(wrapped.is_word_wrap());
    assert_eq!("<b>m</b>", wrapped.as_str());
    let unwrapped = EventBody::Markup("m".to_string(), WordWrapMode::NoWordWrap);
    assert!(unwrapped.is_markup());
    assert!(!unwrapped.is_word_wrap());
    assert_eq!(wrapped, wrapped.duplicate());
}

#[test]
fn errors_have_words() {
    assert_eq!("a", SourceError::Io("a".to_string()).message());
    assert_eq!("b", SourceError::Parse("b".to_string()).message());
    assert_eq!("c", SourceError::Authentication("c".to_string()).message());
    assert_eq!("d", SourceError::NotFound("d".to_string()).message());
    let e = SourceError::NotFound("d".to_string());
    assert_eq!(e, e.duplicate());
}

#[test]
fn there_are_six_providers() {
    let names: Vec<&str> = get_event_providers().iter().map(|p| p.name()).collect();
    assert_eq!(
        vec!["Git", "Email", "Ical", "Redmine", "Gitlab", "StackExchange"],
        names
    );
    let icons: Vec<&str> = get_event_providers().iter().map(|p| p.default_icon().name()).collect();
    assert_eq!(
        vec![
            "code-branch-symbolic",
            "envelope-symbolic",
            "calendar-alt-symbolic",
            "tasks-symbolic",
            "comment-dots-symbolic",
            "thumbs-up-symbolic"
        ],
        icons
    );
}

#[test]
fn every_configured_source_is_to_be_fetched() {
    let mut config = Config::default_config();
    Ical.add_config_values(
        &mut config,
        "work".to_string(),
        vec![("Ical URL", "https://example.com/a.ics".to_string())],
    );
    let git = |folder: &str| {
        vec![
            ("Repository folder", folder.to_string()),
            ("Commit Author", "me".to_string()),
        ]
    };
    Git.add_config_values(&mut config, "one".to_string(), git("/one"));
    Git.add_config_values(&mut config, "two".to_string(), git("/two"));
    assert_eq!(
        vec![
            (Provider::Git(Git), "one".to_string()),
            (Provider::Git(Git), "two".to_string()),
            (Provider::Ical(Ical), "work".to_string()),
        ],
        configs_to_fetch(&config)
    );
    assert_eq!(0, configs_to_fetch(&Config::default_config()).len());
}

#[test]
fn icons_have_names() {
    assert_eq!("angle-left-symbolic", Icon::angle_left().name());
    assert_eq!("angle-right-symbolic", Icon::angle_right().name());
    assert_eq!("copy-symbolic", Icon::copy().name());
    assert_eq!("cog-symbolic", Icon::cog().name());
    assert_eq!("check-square-symbolic", Icon::check_square().name());
    assert_eq!(
        "exclamation-triangle-symbolic",
        Icon::exclamation_triangle().name()
    );
    assert_eq!("com.github.emmanueltouzery.cigale", Icon::app_icon().name());
    assert_eq!(Icon::cog(), Icon::cog());
    assert_ne!(Icon::cog(), Icon::copy());
}

#[test]
fn the_names_of_the_sources_are_listed_once() {
    let mut config = Config::default_config();
    assert_eq!(0, config_source_names(&config).len());
    Ical.add_config_values(
        &mut config,
        "work".to_string(),
        vec![("Ical URL", "https://example.com/a.ics".to_string())],
    );
    let git = vec![
        ("Repository folder", "/one".to_string()),
        ("Commit Author", "me".to_string()),
    ];
    Git.add_config_values(&mut config, "home".to_string(), git.clone());
    Git.add_config_values(&mut config, "work".to_string(), git);
    assert_eq!(
        vec!["home".to_string(), "work".to_string()],
        config_source_names(&config)
    );
}

#[test]
fn a_provider_is_found_by_its_name() {
    assert_eq!(Some(Provider::Git(Git)), get_event_provider_by_name("Git"));
    assert_eq!(
        Some(Provider::Redmine(Redmine)),
        get_event_provider_by_name("Redmine")
    );
    assert_eq!(None, get_event_provider_by_name("git"));
    assert_eq!(None, get_event_provider_by_name(""));
}
