use cigale::events::events::EventBody;
use cigale::events::events::SourceError;
use cigale::events::events::WordWrapMode;
use cigale::events::gitlab::Defect;
use cigale::events::gitlab::EventKind;
use cigale::events::gitlab::Gitlab;
use cigale::events::gitlab::GitlabEvent;
use cigale::events::gitlab::GitlabNote;
use cigale::events::gitlab::GitlabPosition;
use cigale::events::gitlab::GitlabProject;
use cigale::time::Day;
use cigale::time::DayWindow;
use cigale::time::LocalDateTime;
use cigale::time::TimeOfDay;
use std::collections::HashMap;
use std::collections::HashSet;

fn at(timestamp: i64) -> LocalDateTime {
    LocalDateTime { timestamp, time: TimeOfDay { secs: (timestamp % 86400) as u32, frac: 0 } }
}

fn event(action: &str, target_type: &str, title: &str, iid: Option<usize>, secs: i64) -> GitlabEvent {
    GitlabEvent {
        project_id: 7,
        action_name: action.to_string(),
        target_type: Some(target_type.to_string()),
        target_title: Some(title.to_string()),
        created_at: at(secs),
        note: None,
        target_iid: iid,
    }
}

fn diff_note(title: &str, path: &str, line: Option<usize>, body: &str, secs: i64) -> GitlabEvent {
    let mut e = event("commented on", "DiffNote", title, None, secs);
    e.note = Some(GitlabNote {
        body: body.to_string(),
        note_type: Some("DiffNote".to_string()),
        noteable_type: "MergeRequest".to_string(),
        position: Some(GitlabPosition { new_path: path.to_string(), new_line: line }),
        noteable_iid: Some(12),
    });
    e
}

fn issue_note(title: &str, iid: Option<usize>, secs: i64) -> GitlabEvent {
    let mut e = event("commented on", "Note", title, None, secs);
    e.note = Some(GitlabNote {
        body: "a comment".to_string(),
        note_type: None,
        noteable_type: "Issue".to_string(),
        position: None,
        noteable_iid: iid,
    });
    e
}

fn projects() -> HashMap<usize, String> {
    let mut known = HashMap::new();
    known.insert(3, "https://gl/other".to_string());
    known.insert(7, "https://gl/group/proj".to_string());
    known
}

#[test]
fn the_events_of_a_day_are_asked_between_its_neighbours() {
    assert_eq!(
        Some("/api/v4/events?after=2020-02-24&before=2020-02-26".to_string()),
        Gitlab::events_path(Day { year: 2020, month: 2, day: 25 })
    );
    assert_eq!(
        Some("/api/v4/events?after=2020-02-29&before=2020-03-02".to_string()),
        Gitlab::events_path(Day { year: 2020, month: 3, day: 1 })
    );
    assert_eq!(
        Some("/api/v4/events?after=2019-12-31&before=2020-01-02".to_string()),
        Gitlab::events_path(Day { year: 2020, month: 1, day: 1 })
    );
    assert_eq!(None, Gitlab::events_path(Day { year: 2020, month: 2, day: 30 }));
    // the first and the last day of the calendar lack a neighbour
    assert_eq!(None, Gitlab::events_path(Day { year: -262143, month: 1, day: 1 }));
    assert_eq!(None, Gitlab::events_path(Day { year: 262142, month: 12, day: 31 }));
    assert_eq!(
        Some("/api/v4/events?after=+262142-12-29&before=+262142-12-31".to_string()),
        Gitlab::events_path(Day { year: 262142, month: 12, day: 30 })
    );
    assert_eq!(
        "/api/v4/events?after=a&before=b",
        Gitlab::events_path_between("a", "b")
    );
}

#[test]
fn only_the_events_of_the_day_are_kept() {
    let day = DayWindow::starting_at(1000).unwrap();
    let events = vec![
        event("opened", "Issue", "before", Some(1), 999),
        event("opened", "Issue", "first", Some(2), 1000),
        event("opened", "Issue", "last", Some(3), 87399),
        event("opened", "Issue", "after", Some(4), 87400),
    ];
    let kept = Gitlab::events_of_day(events, &day);
    let titles: Vec<&str> = kept.iter().map(|e| e.target_title.as_deref().unwrap()).collect();
    assert_eq!(vec!["first", "last"], titles);
}

#[test]
fn merge_request_is_written_in_two_words() {
    assert_eq!("Merge Request", Gitlab::noteable_type_desc("MergeRequest"));
    assert_eq!("Issue", Gitlab::noteable_type_desc("Issue"));
    assert_eq!("", Gitlab::noteable_type_desc(""));
}

#[test]
fn accepted_merge_requests_and_closed_issues_are_shown() {
    let events = vec![
        event("accepted", "MergeRequest", "Add <feature>", Some(12), 100),
        event("opened", "MergeRequest", "not accepted", Some(13), 150),
        event("closed", "Issue", "A bug", Some(5), 200),
        event("closed", "MergeRequest", "closed, not accepted", Some(14), 250),
    ];
    let shown = Gitlab::gather_accept_events(&events, &projects()).unwrap();
    assert_eq!(2, shown.len());
    let e = &shown[0];
    assert_eq!("Gitlab", e.event_type_desc);
    assert_eq!("check-square-symbolic", e.event_type_icon.name());
    assert_eq!(100, e.event_time.secs);
    assert_eq!("Add <feature>", e.event_info);
    assert_eq!("Merge Request #12 Accepted: Add <feature>", e.event_contents_header);
    assert_eq!(
        EventBody::Markup(
            "<a href=\"https://gl/group/proj/merge_requests/12\">Open in browser</a>\n\nMerge Request #12 Accepted: Add <feature>".to_string(),
            WordWrapMode::WordWrap
        ),
        e.event_contents_body
    );
    assert_eq!(Some("Merge Request accepted".to_string()), e.event_extra_details);
    let e = &shown[1];
    assert_eq!("Issue #5 Accepted: A bug", e.event_contents_header);
    assert_eq!(
        "<a href=\"https://gl/group/proj/issues/5\">Open in browser</a>\n\nIssue #5 Accepted: A bug",
        e.event_contents_body.as_str()
    );
    assert_eq!(Some("Issue accepted".to_string()), e.event_extra_details);
}

#[test]
fn opened_issues_are_shown() {
    let events = vec![
        event("opened", "Issue", "It fails", Some(42), 100),
        event("opened", "MergeRequest", "no issue", Some(2), 100),
    ];
    let shown = Gitlab::gather_issue_open_events(&events, &projects()).unwrap();
    assert_eq!(1, shown.len());
    let e = &shown[0];
    assert_eq!("comment-dots-symbolic", e.event_type_icon.name());
    assert_eq!("It fails", e.event_info);
    assert_eq!("Issue #42 Opened: It fails", e.event_contents_header);
    assert_eq!(
        "<a href=\"https://gl/group/proj/issues/42\">Open in browser</a>\n\nIssue #42 Opened: It fails",
        e.event_contents_body.as_str()
    );
    assert!(e.event_contents_body.is_word_wrap());
    assert_eq!(Some("Issue opened".to_string()), e.event_extra_details);
}

#[test]
fn comments_on_issues_are_shown() {
    let events = vec![
        issue_note("It fails", Some(42), 100),
        issue_note("Without number", None, 200),
        event("commented on", "Note", "no note", None, 300),
    ];
    let shown = Gitlab::gather_issue_comment_events(&events, &projects()).unwrap();
    assert_eq!(2, shown.len());
    assert_eq!("Issue #42 Comment: It fails", shown[0].event_contents_header);
    assert_eq!(
        "<a href=\"https://gl/group/proj/issues/42\">Open in browser</a>\n\nIssue #42 Comment: It fails",
        shown[0].event_contents_body.as_str()
    );
    assert_eq!("Comment: Without number", shown[1].event_contents_header);
    assert_eq!("Comment: Without number", shown[1].event_contents_body.as_str());
    assert_eq!(Some("Issue comment".to_string()), shown[1].event_extra_details);
}

#[test]
fn comments_on_one_merge_request_make_one_event() {
    let events = vec![
        diff_note("Add feature", "src/a.rs", Some(10), "why <this>?", 300),
        event("opened", "Issue", "in between", Some(1), 310),
        diff_note("Add feature", "src/b.rs", None, "and & that", 200),
        diff_note("Other request", "c.rs", Some(1), "ok", 400),
        diff_note("Add feature", "src/a.rs", Some(11), "again", 500),
    ];
    let shown = Gitlab::gather_merge_request_comments(&events, &projects()).unwrap();
    assert_eq!(3, shown.len());
    let e = &shown[0];
    assert_eq!("Gitlab", e.event_type_desc);
    assert_eq!("comment-dots-symbolic", e.event_type_icon.name());
    // the time of the earliest comment
    assert_eq!(200, e.event_time.secs);
    assert_eq!("Add feature", e.event_info);
    assert_eq!("Merge Request #12: Add feature", e.event_contents_header);
    assert_eq!(
        "<a href=\"https://gl/group/proj/merge_requests/12\">Open in browser</a>\n\n<b>src/a.rs</b>:10\n    why &lt;this&gt;?\n\n<b>src/b.rs</b>:0\n    and &amp; that",
        e.event_contents_body.as_str()
    );
    assert_eq!(Some("Merge Request".to_string()), e.event_extra_details);
    assert_eq!("Other request", shown[1].event_info);
    // the run was broken: the same title again is a run of its own
    assert_eq!("Add feature", shown[2].event_info);
    assert_eq!(500, shown[2].event_time.secs);
}

#[test]
fn a_comment_without_a_number_has_no_link() {
    let mut note = diff_note("Add feature", "src/a.rs", Some(10), "text", 300);
    note.note.as_mut().unwrap().noteable_iid = None;
    note.note.as_mut().unwrap().position = None;
    note.note.as_mut().unwrap().noteable_type = "Commit".to_string();
    // without a link the project need not be known
    let shown = Gitlab::gather_merge_request_comments(&vec![note], &HashMap::new()).unwrap();
    assert_eq!("Commit: Add feature", shown[0].event_contents_header);
    assert_eq!("<b></b>:0\n    text", shown[0].event_contents_body.as_str());
    assert_eq!(Some("Commit".to_string()), shown[0].event_extra_details);
}

#[test]
fn an_unknown_project_is_an_error() {
    let events = vec![event("opened", "Issue", "It fails", Some(42), 100)];
    assert_eq!(
        Err(SourceError::NotFound("Can't find all projects?".to_string())),
        Gitlab::gather_issue_open_events(&events, &HashMap::new())
    );
    assert_eq!(
        Some(Defect::UnknownProject),
        Gitlab::find_defect(&events[0], EventKind::IssueOpened, &HashMap::new())
    );
    assert_eq!(
        None,
        Gitlab::find_defect(&events[0], EventKind::IssueOpened, &projects())
    );
    let notes = vec![diff_note("t", "p", None, "b", 1)];
    match Gitlab::gather_merge_request_comments(&notes, &HashMap::new()) {
        Err(SourceError::NotFound(_)) => {}
        other => panic!("{:?}", other),
    }
    match Gitlab::get_events(&events, &HashMap::new()) {
        Err(SourceError::NotFound(_)) => {}
        other => panic!("{:?}", other),
    }
}

#[test]
fn an_event_without_its_number_or_title_is_an_error() {
    let events = vec![event("opened", "Issue", "It fails", None, 100)];
    assert_eq!(
        Err(SourceError::Parse("An event lacks its title or its number".to_string())),
        Gitlab::gather_issue_open_events(&events, &projects())
    );
    let mut untitled = event("accepted", "MergeRequest", "", Some(1), 100);
    untitled.target_title = None;
    assert_eq!(
        Some(Defect::MissingField),
        Gitlab::find_defect(&untitled, EventKind::Accepted, &projects())
    );
    match Gitlab::gather_accept_events(&vec![untitled], &projects()) {
        Err(SourceError::Parse(_)) => {}
        other => panic!("{:?}", other),
    }
}

#[test]
fn all_kinds_of_events_are_gathered_in_turn() {
    let events = vec![
        issue_note("It fails", Some(42), 100),
        event("opened", "Issue", "It fails", Some(42), 50),
        event("accepted", "MergeRequest", "Add feature", Some(12), 600),
        diff_note("Add feature", "src/a.rs", Some(10), "why?", 300),
        event("pushed to", "Branch", "ignored", None, 700),
    ];
    let shown = Gitlab::get_events(&events, &projects()).unwrap();
    let headers: Vec<&str> = shown.iter().map(|e| e.event_contents_header.as_str()).collect();
    assert_eq!(
        vec![
            "Merge Request #12: Add feature",
            "Merge Request #12 Accepted: Add feature",
            "Issue #42 Opened: It fails",
            "Issue #42 Comment: It fails"
        ],
        headers
    );
    assert_eq!(Ok(vec![]), Gitlab::get_events(&vec![], &HashMap::new()));
}

#[test]
fn the_projects_of_the_events_have_to_be_known() {
    let mut other = event("opened", "Issue", "x", Some(1), 1);
    other.project_id = 3;
    let events = vec![
        event("opened", "Issue", "a", Some(1), 1),
        other,
        event("opened", "Issue", "b", Some(2), 2),
    ];
    let ids = Gitlab::project_ids(&events);
    assert_eq!(HashSet::from([7, 3]), ids);
    let known = vec![
        GitlabProject { id: 1, web_url: "one".to_string() },
        GitlabProject { id: 3, web_url: "three".to_string() },
        GitlabProject { id: 7, web_url: "seven".to_string() },
    ];
    let found = Gitlab::select_projects(known, &ids).unwrap();
    let mut expected = HashMap::new();
    expected.insert(3, "three".to_string());
    expected.insert(7, "seven".to_string());
    assert_eq!(expected, found);
    assert_eq!(Some(&"seven".to_string()), Gitlab::find_project_url(&found, 7));
    assert_eq!(None, Gitlab::find_project_url(&found, 1));
    // a project that the list does not hold
    let stale = vec![GitlabProject { id: 3, web_url: "three".to_string() }];
    assert!(Gitlab::select_projects(stale, &ids).is_none());
    assert_eq!(Some(HashMap::new()), Gitlab::select_projects(vec![], &HashSet::new()));
    // of two projects of one id there is one too many
    let twice = vec![
        GitlabProject { id: 3, web_url: "three".to_string() },
        GitlabProject { id: 7, web_url: "seven".to_string() },
        GitlabProject { id: 7, web_url: "seven again".to_string() },
    ];
    assert!(Gitlab::select_projects(twice, &ids).is_none());
}

#[test]
fn events_are_told_by_action_and_target() {
    let accepted = event("accepted", "MergeRequest", "t", Some(1), 1);
    assert!(Gitlab::is_kind(&accepted, EventKind::Accepted));
    assert!(!Gitlab::is_kind(&accepted, EventKind::IssueOpened));
    assert!(!Gitlab::is_kind(&accepted, EventKind::IssueComment));
    assert!(!Gitlab::is_kind(&accepted, EventKind::MergeRequestComment));
    let note = diff_note("t", "p", None, "b", 1);
    assert!(Gitlab::is_kind(&note, EventKind::MergeRequestComment));
    assert!(!Gitlab::is_kind(&note, EventKind::IssueComment));
    let mut no_target = event("accepted", "MergeRequest", "t", Some(1), 1);
    no_target.target_type = None;
    assert!(!Gitlab::is_kind(&no_target, EventKind::Accepted));
    let events = vec![accepted, note];
    assert_eq!(1, Gitlab::select(&events, EventKind::Accepted).len());
    assert_eq!(0, Gitlab::select(&events, EventKind::IssueOpened).len());
}
