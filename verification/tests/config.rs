use cigale::config::Config;
use cigale::config::PrevNextDaySkipWeekends;
use cigale::events::events::get_event_providers;
use cigale::events::events::ConfigType;
use cigale::events::events::EventProvider;
use cigale::events::git::Git;
use cigale::events::redmine::Redmine;
use cigale::events::stackexchange::StackExchange;
use cigale::named::Named;
use cigale::time::LocalDateTime;
use cigale::time::TimeOfDay;

fn at(timestamp: i64, frac: u32) -> LocalDateTime {
    LocalDateTime { timestamp, time: TimeOfDay { secs: 0, frac } }
}

#[test]
fn it_properly_escapes_filenames() {
    assert_eq!(
        "simPleN123ame",
        Config::sanitize_for_filename("simPleN123ame")
    );
    assert_eq!(
        "simPle_N___12_____3am_e",
        Config::sanitize_for_filename("simPle N!()12č>/\\*3amée")
    );
}

#[test]
fn every_character_but_letters_and_digits_becomes_an_underscore() {
    assert_eq!("", Config::sanitize_for_filename(""));
    assert_eq!("AZaz09", Config::sanitize_for_filename("AZaz09"));
    assert_eq!("______", Config::sanitize_for_filename("@[`{/:"));
    assert_eq!("a_b", Config::sanitize_for_filename("a_b"));
    // two names may come out the same
    assert_eq!(
        Config::sanitize_for_filename("my repo"),
        Config::sanitize_for_filename("my/repo")
    );
}

#[test]
fn a_cache_file_is_named_by_provider_and_source() {
    assert_eq!("Git_my_repo.cache", Config::cache_file_name("Git", "my repo"));
    assert_eq!(
        "StackExchange_https___so_com.cache",
        Config::cache_file_name("StackExchange", "https://so.com")
    );
    assert_eq!("Ical_.cache", Config::cache_file_name("Ical", ""));
}

#[test]
fn a_cache_older_than_the_end_of_the_day_is_never_served() {
    let next_day_start = at(1000, 0);
    assert!(!Config::is_cache_fresh(&at(999, 999_999_999), &next_day_start));
    assert!(!Config::is_cache_fresh(&at(0, 0), &next_day_start));
    assert!(Config::is_cache_fresh(&at(1000, 0), &next_day_start));
    assert!(Config::is_cache_fresh(&at(1000, 1), &next_day_start));
    assert!(Config::is_cache_fresh(&at(5000, 0), &next_day_start));

    let content = "cached".to_string();
    assert_eq!(
        None,
        Config::get_cached_contents(Some((at(999, 0), content.clone())), &next_day_start)
    );
    assert_eq!(
        Some(content.clone()),
        Config::get_cached_contents(Some((at(1000, 0), content.clone())), &next_day_start)
    );
    assert_eq!(None, Config::get_cached_contents(None, &next_day_start));
}

#[test]
fn nothing_is_configured_at_first() {
    let config = Config::default_config();
    assert!(!config.prefer_dark_theme);
    assert_eq!(PrevNextDaySkipWeekends::Skip, config.prev_next_day_skip_weekends);
    assert_eq!(PrevNextDaySkipWeekends::Skip, PrevNextDaySkipWeekends::default());
    for provider in get_event_providers() {
        assert_eq!(0, provider.get_config_names(&config).len());
    }
}

#[test]
fn a_table_holds_each_name_once() {
    let mut table: Named<u32> = Named::new();
    assert_eq!(0, table.len());
    table.insert("one".to_string(), 1);
    table.insert("two".to_string(), 2);
    table.insert("one".to_string(), 11);
    assert_eq!(2, table.len());
    assert_eq!(Some(&11), table.get("one"));
    assert_eq!(Some(&2), table.get("two"));
    assert_eq!(None, table.get("three"));
    assert_eq!(vec!["one".to_string(), "two".to_string()], table.get_names());
    assert_eq!(Some(1), table.find("two"));
    table.remove("one");
    assert_eq!(vec!["two".to_string()], table.get_names());
    assert_eq!(None, table.get("one"));
    table.remove("none");
    assert_eq!(1, table.len());
}

#[test]
fn a_source_that_was_added_gives_back_its_values() {
    let mut config = Config::default_config();
    let values = vec![
        ("Commit Author", "Emmanuel Touzery".to_string()),
        ("Repository folder", ".".to_string()),
    ];
    Git.add_config_values(&mut config, "test".to_string(), values);
    assert_eq!(vec!["test".to_string()], Git.get_config_names(&config));
    assert_eq!(
        vec![
            ("Repository folder", ".".to_string()),
            ("Commit Author", "Emmanuel Touzery".to_string()),
        ],
        Git.get_config_values(&config, "test")
    );
    assert_eq!(".", config.git.get("test").unwrap().repo_folder);
    // the other providers have no source
    assert_eq!(0, Redmine.get_config_names(&config).len());

    // a source of the same name takes the place of the first
    let values = vec![
        ("Repository folder", "/tmp".to_string()),
        ("Commit Author", "Someone".to_string()),
    ];
    Git.add_config_values(&mut config, "test".to_string(), values);
    assert_eq!(vec!["test".to_string()], Git.get_config_names(&config));
    assert_eq!("/tmp", config.git.get("test").unwrap().repo_folder);

    Git.remove_config(&mut config, "test".to_string());
    assert_eq!(0, Git.get_config_names(&config).len());
}

#[test]
fn the_providers_know_their_fields() {
    let fields = StackExchange.get_config_fields();
    assert_eq!(3, fields.len());
    assert_eq!("Stack Exchange site url", fields[0].0);
    assert!(fields[0].1 == ConfigType::Text("https://stackoverflow.com"));
    assert!(fields[1].1 == ConfigType::Text(""));
    assert!(fields[2].1 == ConfigType::Password);
    let fields = Git.get_config_fields();
    assert_eq!("Repository folder", fields[0].0);
    assert!(fields[0].1 == ConfigType::Folder);
    assert_eq!("Commit Author", fields[1].0);
    assert!(fields[1].1 == ConfigType::Combo);
}

#[test]
fn every_provider_keeps_its_sources_apart() {
    let mut config = Config::default_config();
    for provider in get_event_providers() {
        let values: Vec<(&'static str, String)> = provider
            .get_config_fields()
            .into_iter()
            .map(|(name, _)| (name, format!("{} of {}", name, provider.name())))
            .collect();
        provider.add_config_values(&mut config, "mine".to_string(), values);
    }
    for provider in get_event_providers() {
        assert_eq!(vec!["mine".to_string()], provider.get_config_names(&config));
        for (name, value) in provider.get_config_values(&config, "mine") {
            assert_eq!(format!("{} of {}", name, provider.name()), value);
        }
    }
    assert_eq!("Ical URL of Ical", config.ical.get("mine").unwrap().ical_url);
    assert_eq!(
        "Personal Access Token of Gitlab",
        config.gitlab.get("mine").unwrap().personal_access_token
    );
}
