use cigale::events::events::Event;
use cigale::events::events::EventBody;
use cigale::events::events::WordWrapMode;
use cigale::events::git::reverse_order;
use cigale::events::git::CommitDiff;
use cigale::events::git::CommitInfo;
use cigale::events::git::Git;
use cigale::events::gitlab::GitlabConfig;
use cigale::icons::Icon;
use cigale::named::Named;
use cigale::time::DayWindow;
use cigale::time::LocalDateTime;
use cigale::time::TimeOfDay;

const DAY_START: i64 = 1_582_588_800;

fn day() -> DayWindow {
    DayWindow::starting_at(DAY_START).unwrap()
}

fn at(timestamp: i64) -> LocalDateTime {
    let secs = timestamp.rem_euclid(86400) as u32;
    LocalDateTime { timestamp, time: TimeOfDay { secs, frac: 0 } }
}

fn commit(id: &str, timestamp: i64, author: &str, summary: &str) -> CommitInfo {
    CommitInfo {
        id: id.to_string(),
        date: at(timestamp),
        author: Some(author.to_string()),
        summary: Some(summary.to_string()),
        message: Some(format!("{}\n", summary)),
        diff: None,
    }
}

fn ids(commits: &[CommitInfo]) -> Vec<&str> {
    commits.iter().map(|c| c.id.as_str()).collect()
}

fn path(p: &str) -> Vec<String> {
    p.split('/').map(|s| s.to_string()).collect()
}

const DIFFSTAT: &str = r#" Cargo.lock                       | 11 ++++++-----
 Cargo.toml                       |  1 +
 src/events/email.rs              |  6 +++---
 src/events/events.rs             |  6 +++---
 src/events/git.rs                |  6 +++---
 src/events/ical.rs               |  6 +++---
 src/events/redmine.rs            |  6 +++---
 src/icons.rs                     | 57 ++++++++++++++++++++++++++++++++++++++++++++++-----------
 src/widgets/addeventsourcedlg.rs |  7 ++-----
 src/widgets/datepicker.rs        |  6 +++---
 src/widgets/eventsource.rs       |  4 ++--
 11 files changed, 75 insertions(+), 41 deletions(-)
"#;

#[test]
fn it_can_get_events_for_the_cigale_repo() {
    // what the repository holds of the day, as the caller reads it
    let time = TimeOfDay::from_hms(17, 1, 35).unwrap();
    let first = CommitInfo {
        id: "1225b0a0efceb2f9b8862fd1cd03bf5dc6cb54d4".to_string(),
        date: LocalDateTime { timestamp: DAY_START + time.secs as i64, time },
        author: Some("Emmanuel Touzery".to_string()),
        summary: Some("include the icons in the binary".to_string()),
        message: Some("include the icons in the binary\n".to_string()),
        diff: Some(CommitDiff {
            full_diffstr: Some(DIFFSTAT.to_string()),
            files_touched: Some(
                [
                    "Cargo.lock",
                    "Cargo.toml",
                    "src/events/email.rs",
                    "src/events/events.rs",
                    "src/events/git.rs",
                    "src/events/ical.rs",
                    "src/events/redmine.rs",
                    "src/icons.rs",
                    "src/widgets/addeventsourcedlg.rs",
                    "src/widgets/datepicker.rs",
                    "src/widgets/eventsource.rs",
                ]
                .iter()
                .map(|p| path(p))
                .collect(),
            ),
        }),
    };
    let walk = vec![
        commit("later", DAY_START + 90000, "Emmanuel Touzery", "the day after"),
        commit("second", DAY_START + 70000, "Emmanuel Touzery", "another commit"),
        commit("other", DAY_START + 65000, "Someone Else", "not mine"),
        first,
        commit("before", DAY_START - 10, "Emmanuel Touzery", "the day before"),
        commit("older", DAY_START - 90000, "Emmanuel Touzery", "long before"),
    ];
    let commits = Git::select_commits(walk, &day(), "Emmanuel Touzery");
    let mut all_commits = Named::new();
    all_commits.insert("master".to_string(), commits);
    let commit_display_url = Git::get_commit_display_url(
        Some("git@github.com:emmanueltouzery/cigale.git"),
        &Named::new(),
    );

    let expected_fst = Event::new(
        "Git",
        Icon::code_branch(),
        TimeOfDay::from_hms(17, 1, 35).unwrap(),
        "include the icons in the binary".to_string(),
        "include the icons in the binary\n".to_string(),
        EventBody::Markup(
            r#"<a href="https://github.com/emmanueltouzery/cigale/commit//1225b0a0efceb2f9b8862fd1cd03bf5dc6cb54d4">Open in browser</a>

<span font-family="monospace">master

 Cargo.lock                       | 11 ++++++-----
 Cargo.toml                       |  1 +
 src/events/email.rs              |  6 +++---
 src/events/events.rs             |  6 +++---
 src/events/git.rs                |  6 +++---
 src/events/ical.rs               |  6 +++---
 src/events/redmine.rs            |  6 +++---
 src/icons.rs                     | 57 ++++++++++++++++++++++++++++++++++++++++++++++-----------
 src/widgets/addeventsourcedlg.rs |  7 ++-----
 src/widgets/datepicker.rs        |  6 +++---
 src/widgets/eventsource.rs       |  4 ++--
 11 files changed, 75 insertions(+), 41 deletions(-)
</span>"#
                .to_string(),
            WordWrapMode::NoWordWrap,
        ),
        Some("".to_string()),
    );
    let actual = Git::finish_events(Git::list_events(&all_commits, &commit_display_url));
    assert_eq!(2, actual.len());
    assert_eq!(expected_fst, *actual.first().unwrap());
}

#[test]
fn the_commits_of_the_day_by_the_author_are_kept_oldest_first() {
    let walk = vec![
        commit("a", DAY_START + 86400, "me", "the next day"),
        commit("b", DAY_START + 86399, "me", "late"),
        commit("c", DAY_START + 500, "you", "not mine"),
        commit("d", DAY_START, "me", "at midnight"),
        commit("e", DAY_START - 1, "me", "the day before"),
        commit("f", DAY_START + 10, "me", "behind the end of the walk"),
    ];
    let kept = Git::select_commits(walk, &day(), "me");
    assert_eq!(vec!["d", "b"], ids(&kept));
}

#[test]
fn a_commit_without_an_author_is_not_kept() {
    let mut c = commit("a", DAY_START + 5, "me", "s");
    c.author = None;
    assert!(!Git::is_wanted(&c, &day(), "me"));
    assert_eq!(0, Git::select_commits(vec![c], &day(), "me").len());
    assert!(Git::is_wanted(&commit("a", DAY_START + 5, "me", "s"), &day(), "me"));
    assert!(!Git::is_wanted(&commit("a", DAY_START + 5, "me", "s"), &day(), "m"));
    assert!(!Git::is_wanted(&commit("a", DAY_START + 86400, "me", "s"), &day(), "me"));
}

#[test]
fn a_day_before_every_commit_of_a_branch_has_no_commit() {
    let walk = || {
        vec![
            commit("a", DAY_START + 500_000, "me", "newest"),
            commit("b", DAY_START + 400_000, "me", "newer"),
            commit("c", DAY_START + 86400, "me", "earliest"),
        ]
    };
    assert_eq!(0, Git::select_commits(walk(), &day(), "me").len());
    let long_before = DayWindow::starting_at(DAY_START - 10 * 86400).unwrap();
    assert_eq!(0, Git::select_commits(walk(), &long_before, "me").len());
}

#[test]
fn a_branch_whose_head_is_older_than_the_day_is_not_walked() {
    assert!(Git::is_branch_stale(&at(DAY_START - 1), &day()));
    assert!(!Git::is_branch_stale(&at(DAY_START), &day()));
    assert!(!Git::is_branch_stale(&at(DAY_START + 86400), &day()));
    assert!(!Git::walk_goes_on(&at(DAY_START - 1), &day()));
    assert!(Git::walk_goes_on(&at(DAY_START), &day()));
    // and walking it would give nothing
    let walk = vec![
        commit("a", DAY_START - 1, "me", "head"),
        commit("b", DAY_START - 100, "me", "older"),
    ];
    assert_eq!(0, Git::select_commits(walk, &day(), "me").len());
    assert_eq!(0, Git::select_commits(vec![], &day(), "me").len());
}

#[test]
fn the_same_commit_on_two_branches_is_listed_once() {
    let mut all_commits = Named::new();
    all_commits.insert(
        "feature".to_string(),
        vec![commit("c1", DAY_START + 100, "me", "shared work")],
    );
    all_commits.insert(
        "release".to_string(),
        // the same work picked onto another branch: another id
        vec![commit("c2", DAY_START + 100, "me", "shared work")],
    );
    let listed = Git::list_events(&all_commits, &None);
    assert_eq!(2, listed.len());
    assert_ne!(listed[0].event_contents_body, listed[1].event_contents_body);
    let events = Git::finish_events(listed);
    assert_eq!(1, events.len());
    assert_eq!(
        EventBody::Markup("\nfeature".to_string(), WordWrapMode::NoWordWrap),
        events[0].event_contents_body
    );
}

#[test]
fn commits_of_the_trunk_are_not_listed_for_other_branches() {
    let mut all_commits = Named::new();
    all_commits.insert(
        "feature".to_string(),
        vec![
            commit("c1", DAY_START + 100, "me", "merged"),
            commit("c3", DAY_START + 300, "me", "not merged"),
        ],
    );
    all_commits.insert(
        "master".to_string(),
        vec![
            commit("c1", DAY_START + 100, "me", "merged"),
            commit("c2", DAY_START + 200, "me", "on the trunk"),
        ],
    );
    let events = Git::list_events(&all_commits, &None);
    let shown: Vec<(&str, &str)> = events
        .iter()
        .map(|e| (e.event_info.as_str(), e.event_contents_body.as_str()))
        .collect();
    assert_eq!(
        vec![
            ("not merged", "\nfeature"),
            ("merged", "\nmaster"),
            ("on the trunk", "\nmaster")
        ],
        shown
    );
    let finished = Git::finish_events(events);
    let titles: Vec<&str> = finished.iter().map(|e| e.event_info.as_str()).collect();
    assert_eq!(vec!["merged", "on the trunk", "not merged"], titles);
}

#[test]
fn only_neighbours_are_taken_for_the_same_commit() {
    let e = |secs: i64, title: &str| Git::build_event(&commit("x", secs, "me", title), "b", &None);
    let events = vec![e(1, "a"), e(1, "a"), e(1, "b"), e(1, "a"), e(2, "a"), e(2, "a"), e(2, "a")];
    let left = Git::dedup_events(events);
    let shown: Vec<(u32, &str)> = left
        .iter()
        .map(|e| (e.event_time.secs, e.event_info.as_str()))
        .collect();
    assert_eq!(vec![(1, "a"), (1, "b"), (1, "a"), (2, "a")], shown);
    assert!(Git::is_same_commit(&e(1, "a"), &e(1, "a")));
    assert!(!Git::is_same_commit(&e(1, "a"), &e(2, "a")));
    assert!(!Git::is_same_commit(&e(1, "a"), &e(1, "b")));
    assert_eq!(0, Git::dedup_events(vec![]).len());
}

#[test]
fn an_event_of_a_commit_without_a_diff() {
    let mut c = commit("abc", DAY_START + 3600, "me", "summary");
    c.summary = None;
    c.message = None;
    let event = Git::build_event(&c, "topic", &Some("https://host/p/commit/".to_string()));
    assert_eq!("Git", event.event_type_desc);
    assert_eq!("code-branch-symbolic", event.event_type_icon.name());
    assert_eq!(3600, event.event_time.secs);
    assert_eq!("", event.event_info);
    assert_eq!("", event.event_contents_header);
    assert_eq!(
        EventBody::Markup(
            "<a href=\"https://host/p/commit//abc\">Open in browser</a>\ntopic".to_string(),
            WordWrapMode::NoWordWrap
        ),
        event.event_contents_body
    );
    assert_eq!(None, event.event_extra_details);
}

#[test]
fn an_event_of_a_commit_with_a_diff_without_statistics() {
    let mut c = commit("abc", DAY_START, "me", "summary");
    c.diff = Some(CommitDiff {
        full_diffstr: None,
        files_touched: Some(vec![path("src/a/x.rs"), path("src/a/y.rs")]),
    });
    let event = Git::build_event(&c, "topic", &None);
    assert_eq!(
        "\n\n<span font-family=\"monospace\">topic\n\n</span>",
        event.event_contents_body.as_str()
    );
    assert_eq!(Some("src/a".to_string()), event.event_extra_details);
    c.diff = Some(CommitDiff { full_diffstr: Some("1 file".to_string()), files_touched: None });
    let event = Git::build_event(&c, "topic", &None);
    assert_eq!(None, event.event_extra_details);
    assert_eq!(
        "\n\n<span font-family=\"monospace\">topic\n\n1 file</span>",
        event.event_contents_body.as_str()
    );
}

#[test]
fn the_root_of_files_is_what_their_paths_begin_with() {
    assert_eq!("", Git::get_files_root(&vec![]));
    assert_eq!("src/a/x.rs", Git::get_files_root(&vec![path("src/a/x.rs")]));
    assert_eq!(
        "src/a",
        Git::get_files_root(&vec![path("src/a/x.rs"), path("src/a/y.rs")])
    );
    assert_eq!(
        "src",
        Git::get_files_root(&vec![path("src/a/x.rs"), path("src/b/x.rs"), path("src/a/y.rs")])
    );
    assert_eq!(
        "",
        Git::get_files_root(&vec![path("Cargo.toml"), path("src/b/x.rs")])
    );
    assert_eq!(
        "src",
        Git::get_files_root(&vec![path("src/a"), path("src")])
    );
    // components are compared whole
    assert_eq!(
        "",
        Git::get_files_root(&vec![path("src/a"), path("src2/a")])
    );
}

fn servers(urls: &[(&str, &str)]) -> Named<GitlabConfig> {
    let mut table = Named::new();
    for (name, url) in urls {
        table.insert(
            name.to_string(),
            GitlabConfig { gitlab_url: url.to_string(), personal_access_token: "t".to_string() },
        );
    }
    table
}

#[test]
fn a_repository_on_a_configured_server_opens_there() {
    let servers = servers(&[
        ("other", "https://gitlab.example.org"),
        ("work", "https://gitlab.lit-transit.com"),
    ]);
    assert_eq!(
        Some("https://gitlab.lit-transit.com/afc/afc/commit/".to_string()),
        Git::get_commit_display_url_gitlab("git@gitlab.lit-transit.com:afc/afc.git", &servers)
    );
    assert_eq!(
        Some("https://gitlab.lit-transit.com/afc/afc/commit/".to_string()),
        Git::get_commit_display_url(Some("git@gitlab.lit-transit.com:afc/afc.git"), &servers)
    );
    assert!(Git::origin_lives_on(
        "git@gitlab.lit-transit.com:afc/afc.git",
        "https://gitlab.lit-transit.com"
    ));
    assert!(!Git::origin_lives_on(
        "git@gitlab.lit-transit.com:afc/afc.git",
        "https://gitlab.example.org"
    ));
    // an origin that does not name its project
    assert_eq!(
        None,
        Git::get_commit_display_url_gitlab("gitlab.lit-transit.com/afc", &servers)
    );
    assert_eq!(
        None,
        Git::get_commit_display_url_gitlab("git@elsewhere.com:afc/afc.git", &servers)
    );
}

#[test]
fn a_repository_on_github_opens_there() {
    assert_eq!(
        Some("https://github.com/emmanueltouzery/cigale/commit/".to_string()),
        Git::get_commit_display_url_github("git@github.com:emmanueltouzery/cigale.git")
    );
    assert_eq!(
        None,
        Git::get_commit_display_url_github("git@example.com:emmanueltouzery/cigale.git")
    );
    assert_eq!(None, Git::get_commit_display_url(None, &servers(&[])));
    assert_eq!(
        Some("https://github.com/a/b/commit/".to_string()),
        Git::get_commit_display_url(Some("git@github.com:a/b.git"), &servers(&[]))
    );
    assert_eq!(
        "https://github.com/a/b/commit/",
        Git::github_commit_url("a/b")
    );
    assert_eq!("https://h/a/b/commit/", Git::gitlab_commit_url("https://h", "a/b"));
}

#[test]
fn the_local_time_of_a_commit_is_that_of_the_machine() {
    let d = Git::git2_time_to_datetime(1_582_650_095).unwrap();
    assert_eq!(1_582_650_095, d.timestamp);
    let local = chrono::TimeZone::timestamp_opt(&chrono::Local, 1_582_650_095, 0).unwrap();
    assert_eq!(chrono::Timelike::num_seconds_from_midnight(&local), d.time.secs);
    assert_eq!(0, d.time.frac);
    assert_eq!(None, Git::git2_time_to_datetime(i64::MAX));
}

#[test]
fn a_list_is_reversed() {
    assert_eq!(vec![3, 2, 1], reverse_order(vec![1, 2, 3]));
    assert_eq!(Vec::<u8>::new(), reverse_order(Vec::<u8>::new()));
}

#[test]
fn the_authors_to_choose_from_are_sorted_and_stand_once() {
    let names = |list: &[&str]| list.iter().map(|s| s.to_string()).collect::<Vec<String>>();
    assert_eq!(
        names(&["Alice", "Bob", "Zoe", "bob", "Émile"]),
        Git::author_choices(names(&["Zoe", "Bob", "Alice", "Émile", "Bob", "bob", "Alice"]))
    );
    assert_eq!(names(&["", "A", "AA", "AB", "B"]), Git::author_choices(names(&["B", "AB", "A", "", "AA"])));
    assert_eq!(names(&[]), Git::author_choices(names(&[])));
    let mut sorted = names(&["b", "a", "é", "z", "E", "ab", "a"]);
    sorted.sort();
    sorted.dedup();
    assert_eq!(sorted, Git::author_choices(names(&["b", "a", "é", "z", "E", "ab", "a"])));
}

#[test]
fn authors_are_offered_once_the_folder_is_given() {
    let values = |folder: &str| {
        vec![
            ("Commit Author", "me".to_string()),
            ("Repository folder", folder.to_string()),
        ]
    };
    assert_eq!(
        Some("/repo".to_string()),
        Git::author_walk_path(&values("/repo"), "Commit Author")
    );
    assert_eq!(None, Git::author_walk_path(&values(""), "Commit Author"));
    assert_eq!(None, Git::author_walk_path(&values("/repo"), "Repository folder"));
    assert_eq!(None, Git::author_walk_path(&vec![], "Commit Author"));
}

#[test]
fn an_instant_has_a_local_time_where_the_calendar_reaches_it() {
    let noon = TimeOfDay { secs: 12 * 3600, frac: 0 };
    assert_eq!(
        Some(LocalDateTime { timestamp: 5, time: noon }),
        Git::datetime_at(5, Some(noon))
    );
    assert_eq!(None, Git::datetime_at(5, None));
    // the calendar reaches the instants of every day use, before 1970 too
    for seconds in [0, 1, -1, 1_582_650_095, -2_208_988_800, 253_402_300_799] {
        assert_eq!(seconds, Git::git2_time_to_datetime(seconds).unwrap().timestamp);
    }
    assert_eq!(None, Git::git2_time_to_datetime(i64::MIN));
}
