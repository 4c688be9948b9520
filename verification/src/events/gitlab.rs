//! Activity on a code-review server: comments on merge requests, merge
//! requests accepted, issues opened, closed and commented on.
//!
//! The server is asked by the caller, which hands over what it answered as
//! plain values. What is decided here: which of the server's events are of
//! the day, which projects have to be known, which events become an event
//! of the timeline, and what such an event says.

use crate::events::events::Event;
use crate::events::events::EventBody;
use crate::events::events::SourceError;
use crate::events::events::WordWrapMode;
use crate::icons::Icon;
use crate::text::push_decimal;
use crate::text::push_escaped;
use crate::text::push_str;
use crate::text::same;
use crate::text::spec_decimal;
use crate::text::spec_escape_markup;
use crate::text::spec_text_or_empty;
use crate::text::string_of;
use crate::time::day_after;
use crate::time::day_before;
use crate::time::format_iso_date;
use crate::time::iso_date;
use crate::time::pred_day;
use crate::time::succ_day;
use crate::time::Day;
use crate::time::DayWindow;
use crate::time::LocalDateTime;
use crate::config::Config;
use crate::events::events::chosen_values;
use crate::events::events::field_values;
use crate::events::events::value_for;
use crate::events::events::ConfigType;
use crate::events::events::EventProvider;
use std::collections::HashMap;
use std::collections::HashSet;
use vstd::prelude::*;

verus! {

/// One configured server.
#[derive(Clone, Debug)]
pub struct GitlabConfig {
    pub gitlab_url: String,
    pub personal_access_token: String,
}

/// The source of events that asks a code-review server.
#[derive(Clone, Copy, Debug, PartialEq, Eq, Structural)]
pub struct Gitlab;

/// Where in the changes of a merge request a comment stands.
#[derive(Clone, Debug)]
pub struct GitlabPosition {
    pub new_path: String,
    pub new_line: Option<usize>,
}

/// A comment.
#[derive(Clone, Debug)]
pub struct GitlabNote {
    pub body: String,
    pub note_type: Option<String>,
    pub noteable_type: String,
    pub position: Option<GitlabPosition>,
    pub noteable_iid: Option<usize>,
}

/// One event as the server reports it.
#[derive(Clone, Debug)]
pub struct GitlabEvent {
    pub project_id: usize,
    pub action_name: String,
    pub target_type: Option<String>,
    pub target_title: Option<String>,
    pub created_at: LocalDateTime,
    pub note: Option<GitlabNote>,
    pub target_iid: Option<usize>,
}

/// A project as the server reports it.
#[derive(Clone, Debug)]
pub struct GitlabProject {
    pub id: usize,
    pub web_url: String,
}

/// The kinds of events of the server that are shown.
#[derive(Clone, Copy, Debug, PartialEq, Eq, Structural)]
pub enum EventKind {
    /// A comment on the changes of a merge request.
    MergeRequestComment,
    /// A merge request accepted, or an issue closed.
    Accepted,
    /// An issue opened.
    IssueOpened,
    /// A comment on an issue.
    IssueComment,
}

/// What keeps an event of the server from being shown.
#[derive(Clone, Copy, Debug, PartialEq, Eq, Structural)]
pub enum Defect {
    /// The event lacks its title or its number.
    MissingField,
    /// The project of the event is not among the known ones.
    UnknownProject,
}

/// Whether the target of `e` is of the type `name`.
pub open spec fn type_is(e: GitlabEvent, name: Seq<char>) -> bool {
    e.target_type matches Some(t) && t@ == name
}

/// Whether `e` is an event of the kind `kind`.
pub open spec fn is_of_kind(e: GitlabEvent, kind: EventKind) -> bool {
    match kind {
        EventKind::MergeRequestComment => e.note is Some && e.target_title is Some && type_is(
            e,
            "DiffNote"@,
        ),
        EventKind::Accepted => (e.action_name@ == "accepted"@ && type_is(e, "MergeRequest"@)) || (
        e.action_name@ == "closed"@ && type_is(e, "Issue"@)),
        EventKind::IssueOpened => e.action_name@ == "opened"@ && type_is(e, "Issue"@),
        EventKind::IssueComment => e.action_name@ == "commented on"@ && type_is(e, "Note"@)
            && e.note is Some,
    }
}

/// The test that an event is of the kind `kind`.
pub open spec fn of_kind(kind: EventKind) -> spec_fn(GitlabEvent) -> bool {
    |e: GitlabEvent| is_of_kind(e, kind)
}

/// The test that an event was created on the day `day`.
pub open spec fn on_day(day: DayWindow) -> spec_fn(GitlabEvent) -> bool {
    |e: GitlabEvent| day.spec_contains(e.created_at.timestamp)
}

/// The address of the project `id`, where `infos` knows the project.
pub open spec fn project_url(infos: Map<usize, String>, id: usize) -> Option<String> {
    if infos.contains_key(id) {
        Some(infos[id])
    } else {
        None
    }
}

/// The ids of the projects of `events`.
pub open spec fn spec_project_ids(events: Seq<GitlabEvent>) -> Set<usize> {
    Set::new(
        |id: usize|
            exists|k: int| 0 <= k < events.len() && (#[trigger] events[k]).project_id == id,
    )
}

/// The test that a project is one of `ids`.
pub open spec fn one_of(ids: Set<usize>) -> spec_fn(GitlabProject) -> bool {
    |p: GitlabProject| ids.contains(p.id)
}

/// The addresses of `projects` by their ids; of two projects of one id the
/// later counts.
pub open spec fn spec_project_map(projects: Seq<GitlabProject>) -> Map<usize, String>
    decreases projects.len(),
{
    if projects.len() == 0 {
        Map::empty()
    } else {
        spec_project_map(projects.drop_last()).insert(
            projects.last().id,
            projects.last().web_url,
        )
    }
}

/// The readable name of the type of a thing that is commented on.
pub open spec fn spec_noteable_type_desc(note_type: Seq<char>) -> Seq<char> {
    if note_type == "MergeRequest"@ {
        "Merge Request"@
    } else {
        note_type
    }
}

/// The link that opens the thing with the number `iid` in the browser.
pub open spec fn spec_link(url: Seq<char>, part: Seq<char>, iid: nat) -> Seq<char> {
    "<a href=\""@ + url + part + spec_decimal(iid) + "\">Open in browser</a>\n\n"@
}

/// The readable name of what was accepted or closed, and the part of the
/// address under which such things are shown.
pub open spec fn spec_accepted_names(e: GitlabEvent) -> (Seq<char>, Seq<char>) {
    if type_is(e, "MergeRequest"@) {
        ("Merge Request"@, "/merge_requests/"@)
    } else if type_is(e, "Issue"@) {
        ("Issue"@, "/issues/"@)
    } else {
        (spec_text_or_empty(e.target_type), spec_text_or_empty(e.target_type))
    }
}

/// The title of the event of the timeline for `e`, which is of the kind
/// `kind` and no comment on a merge request.
pub open spec fn spec_title(e: GitlabEvent, kind: EventKind) -> Seq<char> {
    let target = spec_text_or_empty(e.target_title);
    match kind {
        EventKind::Accepted => spec_accepted_names(e).0 + " #"@ + spec_decimal(
            e.target_iid.unwrap() as nat,
        ) + " Accepted: "@ + target,
        EventKind::IssueOpened => "Issue #"@ + spec_decimal(e.target_iid.unwrap() as nat)
            + " Opened: "@ + target,
        _ => match e.note.unwrap().noteable_iid {
            Some(iid) => "Issue #"@ + spec_decimal(iid as nat) + " Comment: "@ + target,
            None => "Comment: "@ + target,
        },
    }
}

/// The number under which the thing that `e` is about is shown, if it has
/// one.
pub open spec fn spec_shown_iid(e: GitlabEvent, kind: EventKind) -> Option<usize> {
    match kind {
        EventKind::Accepted => e.target_iid,
        EventKind::IssueOpened => e.target_iid,
        _ => match e.note {
            Some(note) => note.noteable_iid,
            None => None,
        },
    }
}

/// The part of the address under which the thing that `e` is about is
/// shown.
pub open spec fn spec_url_part(e: GitlabEvent, kind: EventKind) -> Seq<char> {
    match kind {
        EventKind::MergeRequestComment => "/merge_requests/"@,
        EventKind::Accepted => spec_accepted_names(e).1,
        _ => "/issues/"@,
    }
}

/// What keeps `e`, which is of the kind `kind`, from being shown, if
/// anything does: a title or a number that is needed and missing, or else a
/// project that is needed for a link and not known.
pub open spec fn defect(e: GitlabEvent, kind: EventKind, infos: Map<usize, String>) -> Option<
    Defect,
> {
    let fields_missing = match kind {
        EventKind::MergeRequestComment => false,
        EventKind::Accepted => e.target_iid is None || e.target_title is None,
        EventKind::IssueOpened => e.target_iid is None || e.target_title is None,
        EventKind::IssueComment => e.target_title is None,
    };
    if fields_missing {
        Some(Defect::MissingField)
    } else if spec_shown_iid(e, kind) is Some && project_url(infos, e.project_id) is None {
        Some(Defect::UnknownProject)
    } else {
        None
    }
}

/// The link of the event of the timeline for `e`: empty where the thing has
/// no number.
pub open spec fn spec_event_link(e: GitlabEvent, kind: EventKind, infos: Map<usize, String>) -> Seq<
    char,
> {
    match spec_shown_iid(e, kind) {
        Some(iid) => spec_link(
            spec_text_or_empty(project_url(infos, e.project_id)),
            spec_url_part(e, kind),
            iid as nat,
        ),
        None => Seq::empty(),
    }
}

/// The annotation of the event of the timeline for `e`.
pub open spec fn spec_extra(e: GitlabEvent, kind: EventKind) -> Seq<char> {
    match kind {
        EventKind::Accepted => spec_accepted_names(e).0 + " accepted"@,
        EventKind::IssueOpened => "Issue opened"@,
        _ => "Issue comment"@,
    }
}

/// Whether `ev` is the event of the timeline for `e`, which is of the kind
/// `kind` and no comment on a merge request.
pub open spec fn is_event_for(
    ev: Event,
    e: GitlabEvent,
    kind: EventKind,
    infos: Map<usize, String>,
) -> bool {
    &&& ev.event_type_desc == "Gitlab"
    &&& ev.event_type_icon.spec_name() == if kind == EventKind::Accepted {
        "check-square-symbolic"
    } else {
        "comment-dots-symbolic"
    }
    &&& ev.event_time == e.created_at.time
    &&& ev.event_info@ == spec_text_or_empty(e.target_title)
    &&& ev.event_contents_header@ == spec_title(e, kind)
    &&& ev.event_contents_body matches EventBody::Markup(body, mode)
    &&& mode == WordWrapMode::WordWrap
    &&& body@ == spec_event_link(e, kind, infos) + spec_title(e, kind)
    &&& ev.event_extra_details matches Some(extra)
    &&& extra@ == spec_extra(e, kind)
}

/// Whether `e` is the error that stands for the defect `d`.
pub open spec fn is_defect_error(e: SourceError, d: Defect) -> bool {
    match d {
        Defect::MissingField => e.is_parse("An event lacks its title or its number"@),
        Defect::UnknownProject => e.is_not_found("Can't find all projects?"@),
    }
}

/// The defect of the first of `events` at or after `from` that has one.
pub open spec fn first_defect(
    events: Seq<GitlabEvent>,
    kind: EventKind,
    infos: Map<usize, String>,
    from: int,
) -> Option<Defect>
    decreases events.len() - from,
{
    if from < 0 || from >= events.len() {
        None
    } else if defect(events[from], kind, infos) is Some {
        defect(events[from], kind, infos)
    } else {
        first_defect(events, kind, infos, from + 1)
    }
}

/// Whether two comments are on the same thing, by its title.
pub open spec fn same_title(a: GitlabEvent, b: GitlabEvent) -> bool {
    spec_text_or_empty(a.target_title) == spec_text_or_empty(b.target_title)
}

/// Where the run of comments on the same thing that holds `notes[at - 1]`
/// ends: at the first comment from `at` on whose title is another than that
/// of the comment before it, or behind the last comment.
pub open spec fn run_end(notes: Seq<GitlabEvent>, at: int) -> int
    decreases notes.len() - at,
{
    if at < 1 || at >= notes.len() || !same_title(notes[at - 1], notes[at]) {
        at
    } else {
        run_end(notes, at + 1)
    }
}

/// `notes` from `from` on, cut into runs of comments on the same thing.
pub open spec fn runs(notes: Seq<GitlabEvent>, from: int) -> Seq<Seq<GitlabEvent>>
    decreases notes.len() - from,
{
    if from < 0 || from >= notes.len() {
        Seq::empty()
    } else {
        let end = run_end(notes, from + 1);
        if from < end <= notes.len() {
            seq![notes.subrange(from, end)] + runs(notes, end)
        } else {
            Seq::empty()
        }
    }
}

/// A run ends behind where it begins and inside the list.
pub proof fn lemma_run_end_bounds(notes: Seq<GitlabEvent>, at: int)
    requires
        1 <= at <= notes.len(),
    ensures
        at <= run_end(notes, at) <= notes.len(),
    decreases notes.len() - at,
{
    if at < notes.len() && same_title(notes[at - 1], notes[at]) {
        lemma_run_end_bounds(notes, at + 1);
    }
}

/// The comments behind the references of `notes`.
pub open spec fn deref_all(notes: Seq<&GitlabEvent>) -> Seq<GitlabEvent> {
    notes.map_values(|e: &GitlabEvent| *e)
}

/// What is shown of one comment on the changes of a merge request: the file
/// and the line, and below them the comment.
pub open spec fn spec_note_text(e: GitlabEvent) -> Seq<char> {
    let note = e.note.unwrap();
    let path = match note.position {
        Some(p) => p.new_path@,
        None => Seq::empty(),
    };
    let line = match note.position {
        Some(p) => match p.new_line {
            Some(l) => l as nat,
            None => 0nat,
        },
        None => 0nat,
    };
    "<b>"@ + spec_escape_markup(path) + "</b>:"@ + spec_decimal(line) + "\n    "@
        + spec_escape_markup(note.body@)
}

/// What is shown of the comments of one run, an empty line between each two.
pub open spec fn spec_notes_text(group: Seq<GitlabEvent>) -> Seq<char>
    decreases group.len(),
{
    if group.len() == 0 {
        Seq::empty()
    } else if group.len() == 1 {
        spec_note_text(group[0])
    } else {
        spec_notes_text(group.drop_last()) + "\n\n"@ + spec_note_text(group.last())
    }
}

/// When the earliest comment of a run was made; of several at the same
/// instant the first counts.
pub open spec fn spec_earliest(group: Seq<GitlabEvent>) -> LocalDateTime
    decreases group.len(),
{
    if group.len() <= 1 {
        group[0].created_at
    } else {
        let before = spec_earliest(group.drop_last());
        if group.last().created_at.spec_is_before(&before) {
            group.last().created_at
        } else {
            before
        }
    }
}

/// The header of the event of the timeline for a run of comments.
pub open spec fn spec_group_header(group: Seq<GitlabEvent>) -> Seq<char> {
    let note = group[0].note.unwrap();
    let desc = spec_noteable_type_desc(note.noteable_type@);
    let title = spec_text_or_empty(group[0].target_title);
    match note.noteable_iid {
        Some(iid) => desc + " #"@ + spec_decimal(iid as nat) + ": "@ + title,
        None => desc + ": "@ + title,
    }
}

/// Whether `ev` is the event of the timeline for the run `group` of
/// comments on the changes of one merge request.
pub open spec fn is_group_event(ev: Event, group: Seq<GitlabEvent>, infos: Map<usize, String>)
    -> bool {
    &&& ev.event_type_desc == "Gitlab"
    &&& ev.event_type_icon.spec_name() == "comment-dots-symbolic"
    &&& ev.event_time == spec_earliest(group).time
    &&& ev.event_info@ == spec_text_or_empty(group[0].target_title)
    &&& ev.event_contents_header@ == spec_group_header(group)
    &&& ev.event_contents_body matches EventBody::Markup(body, mode)
    &&& mode == WordWrapMode::WordWrap
    &&& body@ == spec_event_link(group[0], EventKind::MergeRequestComment, infos)
        + spec_notes_text(group)
    &&& ev.event_extra_details matches Some(extra)
    &&& extra@ == spec_noteable_type_desc(group[0].note.unwrap().noteable_type@)
}

/// The defect of the first of `groups` at or after `from` whose first
/// comment has one.
pub open spec fn first_group_defect(
    groups: Seq<Seq<GitlabEvent>>,
    infos: Map<usize, String>,
    from: int,
) -> Option<Defect>
    decreases groups.len() - from,
{
    if from < 0 || from >= groups.len() {
        None
    } else if defect(groups[from][0], EventKind::MergeRequestComment, infos) is Some {
        defect(groups[from][0], EventKind::MergeRequestComment, infos)
    } else {
        first_group_defect(groups, infos, from + 1)
    }
}

/// The first defect among the events of the server that are shown: the
/// comments on merge requests first, then what was accepted or closed, then
/// the issues opened, then the comments on issues.
pub open spec fn spec_first_defect_of_all(events: Seq<GitlabEvent>, infos: Map<usize, String>)
    -> Option<Defect> {
    let comments = first_group_defect(
        runs(events.filter(of_kind(EventKind::MergeRequestComment)), 0),
        infos,
        0,
    );
    let accepted = first_defect(
        events.filter(of_kind(EventKind::Accepted)),
        EventKind::Accepted,
        infos,
        0,
    );
    let opened = first_defect(
        events.filter(of_kind(EventKind::IssueOpened)),
        EventKind::IssueOpened,
        infos,
        0,
    );
    let issue_comments = first_defect(
        events.filter(of_kind(EventKind::IssueComment)),
        EventKind::IssueComment,
        infos,
        0,
    );
    if comments is Some {
        comments
    } else if accepted is Some {
        accepted
    } else if opened is Some {
        opened
    } else {
        issue_comments
    }
}

/// Whether `shown` are the events of the timeline for the events `events`
/// of the server: one for each run of comments on a merge request, then one
/// for each thing accepted or closed, then one for each issue opened, then
/// one for each comment on an issue.
pub open spec fn is_server_timeline(
    shown: Seq<Event>,
    events: Seq<GitlabEvent>,
    infos: Map<usize, String>,
) -> bool {
    let groups = runs(events.filter(of_kind(EventKind::MergeRequestComment)), 0);
    let accepted = events.filter(of_kind(EventKind::Accepted));
    let opened = events.filter(of_kind(EventKind::IssueOpened));
    let comments = events.filter(of_kind(EventKind::IssueComment));
    &&& shown.len() == groups.len() + accepted.len() + opened.len() + comments.len()
    &&& forall|k: int|
        0 <= k < groups.len() ==> is_group_event(#[trigger] shown[k], groups[k], infos)
    &&& forall|k: int|
        0 <= k < accepted.len() ==> is_event_for(
            shown[groups.len() + k],
            #[trigger] accepted[k],
            EventKind::Accepted,
            infos,
        )
    &&& forall|k: int|
        0 <= k < opened.len() ==> is_event_for(
            shown[groups.len() + accepted.len() + k],
            #[trigger] opened[k],
            EventKind::IssueOpened,
            infos,
        )
    &&& forall|k: int|
        0 <= k < comments.len() ==> is_event_for(
            shown[groups.len() + accepted.len() + opened.len() + k],
            #[trigger] comments[k],
            EventKind::IssueComment,
            infos,
        )
}

/// The part of the server's address that asks for the events between the
/// day `after` and the day `before`, which are given as the server reads
/// them.
pub open spec fn spec_events_path(after: Seq<char>, before: Seq<char>) -> Seq<char> {
    "/api/v4/events?after="@ + after + "&before="@ + before
}

impl Gitlab {
    /// The readable name of the type of a thing that is commented on.
    pub fn noteable_type_desc(note_type: &str) -> (r: String)
        ensures
            r@ == spec_noteable_type_desc(note_type@),
    {
        if same(note_type, "MergeRequest") {
            "Merge Request".to_owned()
        } else {
            note_type.to_owned()
        }
    }

    /// The part of the server's address that asks for the events between
    /// two days, which are given as the server reads them.
    pub fn events_path_between(after: &str, before: &str) -> (r: String)
        ensures
            r@ == spec_events_path(after@, before@),
    {
        let mut out: Vec<char> = Vec::new();
        push_str(&mut out, "/api/v4/events?after=");
        push_str(&mut out, after);
        push_str(&mut out, "&before=");
        push_str(&mut out, before);
        string_of(&out)
    }

    /// The part of the server's address that asks for the events of `day`:
    /// those after the day before it and before the day after it. `None`
    /// where the calendar has no such days.
    pub fn events_path(day: Day) -> (r: Option<String>)
        ensures
            match day_before(day.year as int, day.month as int, day.day as int) {
                Some(b) => match day_after(day.year as int, day.month as int, day.day as int) {
                    Some(a) => match iso_date(b.0, b.1, b.2) {
                        Some(after) => match iso_date(a.0, a.1, a.2) {
                            Some(before) => r matches Some(s) && s@ == spec_events_path(
                                after,
                                before,
                            ),
                            None => r is None,
                        },
                        None => r is None,
                    },
                    None => r is None,
                },
                None => r is None,
            },
            r is Some <==> day_before(day.year as int, day.month as int, day.day as int) is Some
                && day_after(day.year as int, day.month as int, day.day as int) is Some,
    {
        let day_before = match pred_day(day) {
            Some(d) => d,
            None => {
                return None;
            },
        };
        let day_after = match succ_day(day) {
            Some(d) => d,
            None => {
                return None;
            },
        };
        let after = match format_iso_date(day_before) {
            Some(s) => s,
            None => {
                return None;
            },
        };
        let before = match format_iso_date(day_after) {
            Some(s) => s,
            None => {
                return None;
            },
        };
        Some(Self::events_path_between(after.as_str(), before.as_str()))
    }

    /// The events of the server that were created on the day `day`.
    pub fn events_of_day(gitlab_events: Vec<GitlabEvent>, day: &DayWindow) -> (r: Vec<GitlabEvent>)
        ensures
            r@ == gitlab_events@.filter(on_day(*day)),
    {
        let ghost all = gitlab_events@;
        let ghost pred = on_day(*day);
        let mut kept: Vec<GitlabEvent> = Vec::new();
        assert(all.take(0).filter(pred) =~= Seq::<GitlabEvent>::empty());
        for e in it: gitlab_events
            invariant
                it.seq() == all,
                pred == on_day(*day),
                kept@ == all.take(it.index() as int).filter(pred),
        {
            proof {
                let i = it.index() as int;
                assert(all.take(i + 1) =~= all.take(i).push(e));
                all.take(i).lemma_filter_push(e, pred);
            }
            if day.contains(e.created_at.timestamp) {
                kept.push(e);
            }
        }
        assert(all.take(all.len() as int) =~= all);
        kept
    }

    /// Whether the target of `e` is of the type `name`.
    pub fn target_type_is(e: &GitlabEvent, name: &str) -> (r: bool)
        ensures
            r == type_is(*e, name@),
    {
        match &e.target_type {
            Some(t) => same(t.as_str(), name),
            None => false,
        }
    }

    /// Whether `e` is an event of the kind `kind`.
    pub fn is_kind(e: &GitlabEvent, kind: EventKind) -> (r: bool)
        ensures
            r == is_of_kind(*e, kind),
    {
        match kind {
            EventKind::MergeRequestComment => e.note.is_some() && e.target_title.is_some()
                && Self::target_type_is(e, "DiffNote"),
            EventKind::Accepted => (same(e.action_name.as_str(), "accepted")
                && Self::target_type_is(e, "MergeRequest")) || (same(
                e.action_name.as_str(),
                "closed",
            ) && Self::target_type_is(e, "Issue")),
            EventKind::IssueOpened => same(e.action_name.as_str(), "opened")
                && Self::target_type_is(e, "Issue"),
            EventKind::IssueComment => same(e.action_name.as_str(), "commented on")
                && Self::target_type_is(e, "Note") && e.note.is_some(),
        }
    }

    /// The events of the kind `kind` among `gitlab_events`, in their order.
    pub fn select<'a>(gitlab_events: &'a Vec<GitlabEvent>, kind: EventKind) -> (r: Vec<
        &'a GitlabEvent,
    >)
        ensures
            r@.map_values(|e: &GitlabEvent| *e) == gitlab_events@.filter(of_kind(kind)),
    {
        let ghost pred = of_kind(kind);
        let mut kept: Vec<&GitlabEvent> = Vec::new();
        let mut i: usize = 0;
        assert(gitlab_events@.take(0).filter(pred) =~= Seq::<GitlabEvent>::empty());
        while i < gitlab_events.len()
            invariant
                i <= gitlab_events@.len(),
                pred == of_kind(kind),
                kept@.map_values(|e: &GitlabEvent| *e) == gitlab_events@.take(i as int).filter(pred),
            decreases gitlab_events.len() - i,
        {
            let e = &gitlab_events[i];
            proof {
                assert(gitlab_events@.take(i + 1) =~= gitlab_events@.take(i as int).push(*e));
                gitlab_events@.take(i as int).lemma_filter_push(*e, pred);
            }
            if Self::is_kind(e, kind) {
                let ghost before = kept@.map_values(|e: &GitlabEvent| *e);
                kept.push(e);
                assert(kept@.map_values(|e: &GitlabEvent| *e) =~= before.push(*e));
            }
            i = i + 1;
        }
        assert(gitlab_events@.take(gitlab_events@.len() as int) =~= gitlab_events@);
        kept
    }

    /// The ids of the projects of `gitlab_events`.
    pub fn project_ids(gitlab_events: &Vec<GitlabEvent>) -> (r: HashSet<usize>)
        ensures
            r@ == spec_project_ids(gitlab_events@),
    {
        broadcast use vstd::std_specs::hash::group_hash_axioms;

        let mut ids: HashSet<usize> = HashSet::new();
        let mut i: usize = 0;
        assert(ids@ =~= spec_project_ids(gitlab_events@.take(0)));
        while i < gitlab_events.len()
            invariant
                i <= gitlab_events@.len(),
                ids@ == spec_project_ids(gitlab_events@.take(i as int)),
            decreases gitlab_events.len() - i,
        {
            let id = gitlab_events[i].project_id;
            let ghost before = gitlab_events@.take(i as int);
            let ghost next = gitlab_events@.take(i + 1);
            ids.insert(id);
            proof {
                assert forall|x: usize| ids@.contains(x) <==> spec_project_ids(next).contains(
                    x,
                ) by {
                    if spec_project_ids(before).contains(x) {
                        let k = choose|k: int|
                            0 <= k < before.len() && (#[trigger] before[k]).project_id == x;
                        assert(next[k].project_id == x);
                    }
                    if x == id {
                        assert(next[i as int].project_id == x);
                    }
                    if spec_project_ids(next).contains(x) {
                        let k = choose|k: int|
                            0 <= k < next.len() && (#[trigger] next[k]).project_id == x;
                        if k < i {
                            assert(before[k].project_id == x);
                        }
                    }
                }
                assert(ids@ =~= spec_project_ids(next));
            }
            i = i + 1;
        }
        assert(gitlab_events@.take(gitlab_events@.len() as int) =~= gitlab_events@);
        ids
    }

    /// The addresses, by their ids, of the projects with one of the ids
    /// `project_ids` among `projects`, if these are as many as the ids:
    /// `None` where a project is not known, which is so when a project was
    /// added after the list was fetched.
    pub fn select_projects(projects: Vec<GitlabProject>, project_ids: &HashSet<usize>) -> (r:
        Option<HashMap<usize, String>>)
        ensures
            match r {
                Some(found) => {
                    &&& projects@.filter(one_of(project_ids@)).len() == project_ids@.len()
                    &&& found@ == spec_project_map(projects@.filter(one_of(project_ids@)))
                },
                None => projects@.filter(one_of(project_ids@)).len() != project_ids@.len(),
            },
    {
        broadcast use vstd::std_specs::hash::group_hash_axioms;

        let ghost all = projects@;
        let ghost pred = one_of(project_ids@);
        let mut kept: Vec<GitlabProject> = Vec::new();
        assert(all.take(0).filter(pred) =~= Seq::<GitlabProject>::empty());
        for p in it: projects
            invariant
                it.seq() == all,
                pred == one_of(project_ids@),
                kept@ == all.take(it.index() as int).filter(pred),
        {
            proof {
                let i = it.index() as int;
                assert(all.take(i + 1) =~= all.take(i).push(p));
                all.take(i).lemma_filter_push(p, pred);
            }
            if project_ids.contains(&p.id) {
                kept.push(p);
            }
        }
        assert(all.take(all.len() as int) =~= all);
        if kept.len() != project_ids.len() {
            return None;
        }
        let ghost filtered = kept@;
        let mut found: HashMap<usize, String> = HashMap::new();
        assert(filtered.take(0) =~= Seq::<GitlabProject>::empty());
        for p in it: kept
            invariant
                it.seq() == filtered,
                found@ == spec_project_map(filtered.take(it.index() as int)),
        {
            proof {
                let next = filtered.take(it.index() + 1);
                assert(next.drop_last() =~= filtered.take(it.index() as int));
                assert(next.last() == p);
            }
            found.insert(p.id, p.web_url);
        }
        assert(filtered.take(filtered.len() as int) =~= filtered);
        Some(found)
    }

    /// The address of the project `id`.
    pub fn find_project_url(project_infos: &HashMap<usize, String>, id: usize) -> (r: Option<
        &String,
    >)
        ensures
            match project_url(project_infos@, id) {
                Some(url) => r == Some(&url),
                None => r is None,
            },
    {
        broadcast use vstd::std_specs::hash::group_hash_axioms;

        project_infos.get(&id)
    }

    /// What keeps `e`, which is of the kind `kind`, from being shown.
    pub fn find_defect(
        e: &GitlabEvent,
        kind: EventKind,
        project_infos: &HashMap<usize, String>,
    ) -> (r:
        Option<Defect>)
        requires
            is_of_kind(*e, kind),
        ensures
            r == defect(*e, kind, project_infos@),
    {
        let fields_missing = match kind {
            EventKind::MergeRequestComment => false,
            EventKind::Accepted => e.target_iid.is_none() || e.target_title.is_none(),
            EventKind::IssueOpened => e.target_iid.is_none() || e.target_title.is_none(),
            EventKind::IssueComment => e.target_title.is_none(),
        };
        if fields_missing {
            return Some(Defect::MissingField);
        }
        let shown_iid = Self::shown_iid(e, kind);
        if shown_iid.is_some() && Self::find_project_url(project_infos, e.project_id).is_none() {
            Some(Defect::UnknownProject)
        } else {
            None
        }
    }

    /// The number under which the thing that `e` is about is shown.
    pub fn shown_iid(e: &GitlabEvent, kind: EventKind) -> (r: Option<usize>)
        ensures
            r == spec_shown_iid(*e, kind),
    {
        match kind {
            EventKind::Accepted => e.target_iid,
            EventKind::IssueOpened => e.target_iid,
            _ => match &e.note {
                Some(note) => note.noteable_iid,
                None => None,
            },
        }
    }

    /// The error that stands for a defect.
    pub fn defect_error(d: Defect) -> (r: SourceError)
        ensures
            match d {
                Defect::MissingField => r.is_parse("An event lacks its title or its number"@),
                Defect::UnknownProject => r.is_not_found("Can't find all projects?"@),
            },
    {
        match d {
            Defect::MissingField => SourceError::Parse(
                "An event lacks its title or its number".to_owned(),
            ),
            Defect::UnknownProject => SourceError::NotFound("Can't find all projects?".to_owned()),
        }
    }

    /// Appends to `out` the link that opens in the browser what `e` is
    /// about; nothing where the thing has no number.
    pub fn build_openinbrowser_link(
        out: &mut Vec<char>,
        project_infos: &HashMap<usize, String>,
        e: &GitlabEvent,
        kind: EventKind,
    )
        requires
            defect(*e, kind, project_infos@) is None,
        ensures
            final(out)@ == old(out)@ + spec_event_link(*e, kind, project_infos@),
    {
        match Self::shown_iid(e, kind) {
            Some(iid) => {
                push_str(out, "<a href=\"");
                match Self::find_project_url(project_infos, e.project_id) {
                    Some(url) => {
                        push_str(out, url.as_str());
                    },
                    None => {},
                }
                match kind {
                    EventKind::MergeRequestComment => {
                        push_str(out, "/merge_requests/");
                    },
                    EventKind::Accepted => {
                        if Self::target_type_is(e, "MergeRequest") {
                            push_str(out, "/merge_requests/");
                        } else if Self::target_type_is(e, "Issue") {
                            push_str(out, "/issues/");
                        } else {
                            match &e.target_type {
                                Some(t) => {
                                    push_str(out, t.as_str());
                                },
                                None => {},
                            }
                        }
                    },
                    _ => {
                        push_str(out, "/issues/");
                    },
                }
                push_decimal(out, iid as u128);
                push_str(out, "\">Open in browser</a>\n\n");
                assert(out@ =~= old(out)@ + spec_event_link(*e, kind, project_infos@));
            },
            None => {
                assert(out@ =~= old(out)@ + spec_event_link(*e, kind, project_infos@));
            },
        }
    }

    /// Appends to `out` the readable name of what was accepted or closed.
    pub fn push_accepted_desc(out: &mut Vec<char>, e: &GitlabEvent)
        ensures
            final(out)@ == old(out)@ + spec_accepted_names(*e).0,
    {
        if Self::target_type_is(e, "MergeRequest") {
            push_str(out, "Merge Request");
        } else if Self::target_type_is(e, "Issue") {
            push_str(out, "Issue");
        } else {
            match &e.target_type {
                Some(t) => {
                    push_str(out, t.as_str());
                },
                None => {
                    assert(out@ =~= old(out)@ + Seq::<char>::empty());
                },
            }
        }
    }

    /// The title of the event of the timeline for `e`.
    pub fn event_title(e: &GitlabEvent, kind: EventKind) -> (r: String)
        requires
            kind != EventKind::MergeRequestComment,
            is_of_kind(*e, kind),
            kind != EventKind::IssueComment ==> e.target_iid is Some,
        ensures
            r@ == spec_title(*e, kind),
    {
        let mut out: Vec<char> = Vec::new();
        match kind {
            EventKind::Accepted => {
                Self::push_accepted_desc(&mut out, e);
                push_str(&mut out, " #");
                push_decimal(&mut out, e.target_iid.unwrap() as u128);
                push_str(&mut out, " Accepted: ");
            },
            EventKind::IssueOpened => {
                push_str(&mut out, "Issue #");
                push_decimal(&mut out, e.target_iid.unwrap() as u128);
                push_str(&mut out, " Opened: ");
            },
            _ => {
                match &e.note {
                    Some(note) => match note.noteable_iid {
                        Some(iid) => {
                            push_str(&mut out, "Issue #");
                            push_decimal(&mut out, iid as u128);
                            push_str(&mut out, " Comment: ");
                        },
                        None => {
                            push_str(&mut out, "Comment: ");
                        },
                    },
                    None => {},
                }
            },
        }
        match &e.target_title {
            Some(t) => {
                push_str(&mut out, t.as_str());
            },
            None => {},
        }
        assert(out@ =~= spec_title(*e, kind));
        string_of(&out)
    }

    /// The event of the timeline for `e`, which is of the kind `kind`, no
    /// comment on a merge request, and has no defect.
    pub fn build_event(
        e: &GitlabEvent,
        kind: EventKind,
        project_infos: &HashMap<usize, String>,
    ) -> (r:
        Event)
        requires
            kind != EventKind::MergeRequestComment,
            is_of_kind(*e, kind),
            defect(*e, kind, project_infos@) is None,
        ensures
            is_event_for(r, *e, kind, project_infos@),
    {
        let title = Self::event_title(e, kind);
        let mut body: Vec<char> = Vec::new();
        Self::build_openinbrowser_link(&mut body, project_infos, e, kind);
        push_str(&mut body, title.as_str());
        let mut extra: Vec<char> = Vec::new();
        let icon = match kind {
            EventKind::Accepted => {
                Self::push_accepted_desc(&mut extra, e);
                push_str(&mut extra, " accepted");
                Icon::check_square()
            },
            EventKind::IssueOpened => {
                push_str(&mut extra, "Issue opened");
                Icon::comment_dots()
            },
            _ => {
                push_str(&mut extra, "Issue comment");
                Icon::comment_dots()
            },
        };
        assert(extra@ =~= spec_extra(*e, kind));
        let info = match &e.target_title {
            Some(t) => t.clone(),
            None => String::new(),
        };
        Event::new(
            "Gitlab",
            icon,
            e.created_at.time,
            info,
            title,
            EventBody::Markup(string_of(&body), WordWrapMode::WordWrap),
            Some(string_of(&extra)),
        )
    }

    /// The events of the timeline for those of `gitlab_events` that are of
    /// the kind `kind`, which is not that of the comments on merge requests:
    /// one for each, in their order. Where one of them has a defect the
    /// result is the error of the first defect.
    pub fn gather_events(
        gitlab_events: &Vec<GitlabEvent>,
        kind: EventKind,
        project_infos: &HashMap<usize, String>,
    ) -> (r: Result<Vec<Event>, SourceError>)
        requires
            kind != EventKind::MergeRequestComment,
        ensures
            ({
                let chosen = gitlab_events@.filter(of_kind(kind));
                match first_defect(chosen, kind, project_infos@, 0) {
                    Some(d) => r matches Err(e) && is_defect_error(e, d),
                    None => {
                        &&& r matches Ok(events)
                        &&& events@.len() == chosen.len()
                        &&& forall|k: int|
                            0 <= k < events@.len() ==> is_event_for(
                                #[trigger] events@[k],
                                chosen[k],
                                kind,
                                project_infos@,
                            )
                    },
                }
            }),
    {
        let chosen = Self::select(gitlab_events, kind);
        let ghost all = gitlab_events@.filter(of_kind(kind));
        let mut events: Vec<Event> = Vec::new();
        let mut i: usize = 0;
        while i < chosen.len()
            invariant
                i <= chosen@.len(),
                kind != EventKind::MergeRequestComment,
                chosen@.map_values(|e: &GitlabEvent| *e) == all,
                all == gitlab_events@.filter(of_kind(kind)),
                first_defect(all, kind, project_infos@, 0) == first_defect(
                    all,
                    kind,
                    project_infos@,
                    i as int,
                ),
                events@.len() == i,
                forall|k: int|
                    0 <= k < i ==> is_event_for(#[trigger] events@[k], all[k], kind, project_infos@),
            decreases chosen.len() - i,
        {
            let e = chosen[i];
            proof {
                assert(all[i as int] == *e);
                gitlab_events@.lemma_filter_pred(of_kind(kind), i as int);
            }
            match Self::find_defect(e, kind, project_infos) {
                Some(d) => {
                    return Err(Self::defect_error(d));
                },
                None => {
                    events.push(Self::build_event(e, kind, project_infos));
                },
            }
            i = i + 1;
        }
        Ok(events)
    }

    /// The events of the timeline for merge requests accepted and issues
    /// closed.
    pub fn gather_accept_events(gitlab_events: &Vec<GitlabEvent>, project_infos: &HashMap<usize, String>)
        -> (r: Result<Vec<Event>, SourceError>)
        ensures
            ({
                let chosen = gitlab_events@.filter(of_kind(EventKind::Accepted));
                match first_defect(chosen, EventKind::Accepted, project_infos@, 0) {
                    Some(d) => r matches Err(e) && is_defect_error(e, d),
                    None => {
                        &&& r matches Ok(events)
                        &&& events@.len() == chosen.len()
                        &&& forall|k: int|
                            0 <= k < events@.len() ==> is_event_for(
                                #[trigger] events@[k],
                                chosen[k],
                                EventKind::Accepted,
                                project_infos@,
                            )
                    },
                }
            }),
    {
        Self::gather_events(gitlab_events, EventKind::Accepted, project_infos)
    }

    /// The events of the timeline for issues opened.
    pub fn gather_issue_open_events(
        gitlab_events: &Vec<GitlabEvent>,
        project_infos: &HashMap<usize, String>,
    ) -> (r: Result<Vec<Event>, SourceError>)
        ensures
            ({
                let chosen = gitlab_events@.filter(of_kind(EventKind::IssueOpened));
                match first_defect(chosen, EventKind::IssueOpened, project_infos@, 0) {
                    Some(d) => r matches Err(e) && is_defect_error(e, d),
                    None => {
                        &&& r matches Ok(events)
                        &&& events@.len() == chosen.len()
                        &&& forall|k: int|
                            0 <= k < events@.len() ==> is_event_for(
                                #[trigger] events@[k],
                                chosen[k],
                                EventKind::IssueOpened,
                                project_infos@,
                            )
                    },
                }
            }),
    {
        Self::gather_events(gitlab_events, EventKind::IssueOpened, project_infos)
    }

    /// The events of the timeline for comments on issues.
    pub fn gather_issue_comment_events(
        gitlab_events: &Vec<GitlabEvent>,
        project_infos: &HashMap<usize, String>,
    ) -> (r: Result<Vec<Event>, SourceError>)
        ensures
            ({
                let chosen = gitlab_events@.filter(of_kind(EventKind::IssueComment));
                match first_defect(chosen, EventKind::IssueComment, project_infos@, 0) {
                    Some(d) => r matches Err(e) && is_defect_error(e, d),
                    None => {
                        &&& r matches Ok(events)
                        &&& events@.len() == chosen.len()
                        &&& forall|k: int|
                            0 <= k < events@.len() ==> is_event_for(
                                #[trigger] events@[k],
                                chosen[k],
                                EventKind::IssueComment,
                                project_infos@,
                            )
                    },
                }
            }),
    {
        Self::gather_events(gitlab_events, EventKind::IssueComment, project_infos)
    }

    /// Whether two comments are on the same thing, by its title.
    pub fn has_same_title(a: &GitlabEvent, b: &GitlabEvent) -> (r: bool)
        ensures
            r == same_title(*a, *b),
    {
        let x = match &a.target_title {
            Some(t) => t.as_str(),
            None => "",
        };
        let y = match &b.target_title {
            Some(t) => t.as_str(),
            None => "",
        };
        proof {
            reveal_strlit("");
            assert(""@ =~= Seq::<char>::empty());
        }
        same(x, y)
    }

    /// Appends to `out` what is shown of one comment on the changes of a
    /// merge request.
    pub fn push_note_text(out: &mut Vec<char>, e: &GitlabEvent)
        requires
            e.note is Some,
        ensures
            final(out)@ == old(out)@ + spec_note_text(*e),
    {
        match &e.note {
            Some(note) => {
                push_str(out, "<b>");
                let line: usize = match &note.position {
                    Some(p) => {
                        push_escaped(out, p.new_path.as_str());
                        match p.new_line {
                            Some(l) => l,
                            None => 0,
                        }
                    },
                    None => {
                        assert(spec_escape_markup(Seq::<char>::empty()) =~= Seq::<char>::empty());
                        0
                    },
                };
                push_str(out, "</b>:");
                push_decimal(out, line as u128);
                push_str(out, "\n    ");
                push_escaped(out, note.body.as_str());
                assert(out@ =~= old(out)@ + spec_note_text(*e));
            },
            None => {},
        }
    }

    /// The event of the timeline for the run `evts` of comments on the
    /// changes of one merge request: one event for all of them, at the time
    /// of the earliest and under the title of the first. Each of `evts` has
    /// to hold its comment.
    pub fn build_mr_comment_event(evts: &[&GitlabEvent], project_infos: &HashMap<usize, String>) -> (r:
        Event)
        requires
            evts@.len() > 0,
            forall|k: int| 0 <= k < evts@.len() ==> (#[trigger] evts@[k]).note is Some,
            defect(*evts@[0], EventKind::MergeRequestComment, project_infos@) is None,
        ensures
            is_group_event(r, deref_all(evts@), project_infos@),
    {
        let ghost group = deref_all(evts@);
        let first = evts[0];
        let mut contents: Vec<char> = Vec::new();
        Self::build_openinbrowser_link(
            &mut contents,
            project_infos,
            first,
            EventKind::MergeRequestComment,
        );
        let ghost link = contents@;
        let mut earliest = first.created_at;
        let mut i: usize = 0;
        assert(group.take(0) =~= Seq::<GitlabEvent>::empty());
        while i < evts.len()
            invariant
                i <= evts@.len(),
                evts@.len() > 0,
                group == deref_all(evts@),
                forall|k: int| 0 <= k < evts@.len() ==> (#[trigger] evts@[k]).note is Some,
                contents@ == link + spec_notes_text(group.take(i as int)),
                earliest == if i == 0 {
                    group[0].created_at
                } else {
                    spec_earliest(group.take(i as int))
                },
            decreases evts.len() - i,
        {
            let e = evts[i];
            proof {
                let next = group.take(i + 1);
                assert(next.drop_last() =~= group.take(i as int));
                assert(next.last() == *e);
                assert(evts@[i as int].note is Some);
            }
            if i > 0 {
                push_str(&mut contents, "\n\n");
                if e.created_at.is_before(&earliest) {
                    earliest = e.created_at;
                }
            }
            Self::push_note_text(&mut contents, e);
            assert(contents@ =~= link + spec_notes_text(group.take(i + 1)));
            i = i + 1;
        }
        assert(group.take(group.len() as int) =~= group);
        assert(evts@[0].note is Some);
        let title = match &first.target_title {
            Some(t) => t.clone(),
            None => String::new(),
        };
        let mut header: Vec<char> = Vec::new();
        let desc = match &first.note {
            Some(note) => {
                let desc = Self::noteable_type_desc(note.noteable_type.as_str());
                push_str(&mut header, desc.as_str());
                match note.noteable_iid {
                    Some(iid) => {
                        push_str(&mut header, " #");
                        push_decimal(&mut header, iid as u128);
                    },
                    None => {},
                }
                push_str(&mut header, ": ");
                push_str(&mut header, title.as_str());
                desc
            },
            None => String::new(),
        };
        assert(header@ =~= spec_group_header(group));
        Event::new(
            "Gitlab",
            Icon::comment_dots(),
            earliest.time,
            title,
            string_of(&header),
            EventBody::Markup(string_of(&contents), WordWrapMode::WordWrap),
            Some(desc),
        )
    }

    /// The events of the timeline for the comments on the changes of merge
    /// requests: comments that follow each other on the same merge request
    /// make one event. Where the project of a merge request is needed for a
    /// link and not known the result is an error.
    pub fn gather_merge_request_comments(
        gitlab_events: &Vec<GitlabEvent>,
        project_infos: &HashMap<usize, String>,
    ) -> (r: Result<Vec<Event>, SourceError>)
        ensures
            ({
                let groups = runs(
                    gitlab_events@.filter(of_kind(EventKind::MergeRequestComment)),
                    0,
                );
                match first_group_defect(groups, project_infos@, 0) {
                    Some(d) => r matches Err(e) && is_defect_error(e, d),
                    None => {
                        &&& r matches Ok(events)
                        &&& events@.len() == groups.len()
                        &&& forall|k: int|
                            0 <= k < events@.len() ==> is_group_event(
                                #[trigger] events@[k],
                                groups[k],
                                project_infos@,
                            )
                    },
                }
            }),
    {
        let kind = EventKind::MergeRequestComment;
        let chosen = Self::select(gitlab_events, kind);
        let ghost notes = gitlab_events@.filter(of_kind(kind));
        let ghost groups = runs(notes, 0);
        let mut events: Vec<Event> = Vec::new();
        let mut from: usize = 0;
        while from < chosen.len()
            invariant
                from <= chosen@.len(),
                kind == EventKind::MergeRequestComment,
                deref_all(chosen@) == notes,
                notes == gitlab_events@.filter(of_kind(kind)),
                groups == runs(notes, 0),
                events@.len() <= groups.len(),
                groups == groups.take(events@.len() as int) + runs(notes, from as int),
                first_group_defect(groups, project_infos@, 0) == first_group_defect(
                    groups,
                    project_infos@,
                    events@.len() as int,
                ),
                forall|k: int|
                    0 <= k < events@.len() ==> is_group_event(
                        #[trigger] events@[k],
                        groups[k],
                        project_infos@,
                    ),
            decreases chosen.len() - from,
        {
            let mut end: usize = from + 1;
            proof {
                lemma_run_end_bounds(notes, from + 1);
            }
            while end < chosen.len() && Self::has_same_title(chosen[end - 1], chosen[end])
                invariant
                    from < end <= chosen@.len(),
                    deref_all(chosen@) == notes,
                    run_end(notes, from + 1) == run_end(notes, end as int),
                decreases chosen.len() - end,
            {
                proof {
                    assert(notes[end - 1] == *chosen@[end - 1]);
                    assert(notes[end as int] == *chosen@[end as int]);
                }
                end = end + 1;
            }
            proof {
                if end < chosen@.len() {
                    assert(notes[end - 1] == *chosen@[end - 1]);
                    assert(notes[end as int] == *chosen@[end as int]);
                }
                assert(run_end(notes, end as int) == end);
            }
            let group = &chosen[from..end];
            let ghost n = events@.len() as int;
            proof {
                assert(deref_all(group@) =~= notes.subrange(from as int, end as int));
                assert(runs(notes, from as int) =~= seq![notes.subrange(from as int, end as int)]
                    + runs(notes, end as int));
                assert(groups[n] == notes.subrange(from as int, end as int));
                assert(groups.take(n + 1) =~= groups.take(n).push(groups[n]));
                assert(groups =~= groups.take(n + 1) + runs(notes, end as int));
                assert forall|k: int| 0 <= k < group@.len() implies is_of_kind(
                    *#[trigger] group@[k],
                    kind,
                ) by {
                    assert(*group@[k] == notes[from + k]);
                    gitlab_events@.lemma_filter_pred(of_kind(kind), from + k);
                }
                assert(*group@[0] == groups[n][0]);
            }
            match Self::find_defect(group[0], kind, project_infos) {
                Some(d) => {
                    return Err(Self::defect_error(d));
                },
                None => {
                    events.push(Self::build_mr_comment_event(group, project_infos));
                },
            }
            from = end;
        }
        proof {
            assert(runs(notes, from as int) =~= Seq::<Seq<GitlabEvent>>::empty());
            assert(groups.take(events@.len() as int).len() == groups.len());
        }
        Ok(events)
    }

    /// The events of the timeline for the events of one day on the server:
    /// the comments on merge requests, then what was accepted or closed,
    /// then the issues opened, then the comments on issues. Where an event of
    /// the server has a defect the result is the error of the first defect,
    /// the kinds taken in that order.
    pub fn get_events(gitlab_events: &Vec<GitlabEvent>, project_infos: &HashMap<usize, String>) -> (r:
        Result<Vec<Event>, SourceError>)
        ensures
            match spec_first_defect_of_all(gitlab_events@, project_infos@) {
                Some(d) => r matches Err(e) && is_defect_error(e, d),
                None => r matches Ok(events) && is_server_timeline(
                    events@,
                    gitlab_events@,
                    project_infos@,
                ),
            },
    {
        let mut events = match Self::gather_merge_request_comments(gitlab_events, project_infos) {
            Ok(events) => events,
            Err(e) => {
                return Err(e);
            },
        };
        let mut accepted = match Self::gather_accept_events(gitlab_events, project_infos) {
            Ok(events) => events,
            Err(e) => {
                return Err(e);
            },
        };
        let mut opened = match Self::gather_issue_open_events(gitlab_events, project_infos) {
            Ok(events) => events,
            Err(e) => {
                return Err(e);
            },
        };
        let mut comments = match Self::gather_issue_comment_events(gitlab_events, project_infos) {
            Ok(events) => events,
            Err(e) => {
                return Err(e);
            },
        };
        let ghost first = events@;
        let ghost second = accepted@;
        let ghost third = opened@;
        let ghost fourth = comments@;
        events.append(&mut accepted);
        events.append(&mut opened);
        events.append(&mut comments);
        proof {
            assert(events@ =~= first + second + third + fourth);
            assert forall|k: int| 0 <= k < first.len() implies events@[k] == first[k] by {}
            assert forall|k: int| 0 <= k < second.len() implies events@[first.len() + k]
                == second[k] by {}
            assert forall|k: int| 0 <= k < third.len() implies events@[first.len() + second.len()
                + k] == third[k] by {}
            assert forall|k: int| 0 <= k < fourth.len() implies events@[first.len() + second.len()
                + third.len() + k] == fourth[k] by {}
        }
        Ok(events)
    }
}

impl EventProvider for Gitlab {
    open spec fn spec_name(&self) -> &'static str {
        "Gitlab"
    }

    open spec fn spec_icon_name(&self) -> &'static str {
        "comment-dots-symbolic"
    }

    open spec fn spec_config_fields(&self) -> Seq<(&'static str, ConfigType)> {
        seq![("Gitlab URL", ConfigType::Text("")), ("Personal Access Token", ConfigType::Password)]
    }

    open spec fn spec_config_names(&self, config: &Config) -> Seq<Seq<char>> {
        config.gitlab.names()
    }

    open spec fn spec_config_values(&self, config: &Config, config_name: Seq<char>) -> Option<
        Seq<Seq<char>>,
    > {
        if config.gitlab.contains(config_name) {
            Some(seq![config.gitlab.value(config_name).gitlab_url@, config.gitlab.value(config_name).personal_access_token@])
        } else {
            None
        }
    }

    fn get_config_fields(&self) -> (r: Vec<(&'static str, ConfigType)>) {
        let mut fields: Vec<(&'static str, ConfigType)> = Vec::new();
        fields.push(("Gitlab URL", ConfigType::Text("")));
        fields.push(("Personal Access Token", ConfigType::Password));
        assert(fields@ =~= self.spec_config_fields());
        fields
    }

    fn name(&self) -> (r: &'static str) {
        "Gitlab"
    }

    fn default_icon(&self) -> (r: Icon) {
        Icon::comment_dots()
    }

    fn get_config_names(&self, config: &Config) -> (r: Vec<String>) {
        config.gitlab.get_names()
    }

    fn get_config_values(&self, config: &Config, config_name: &str) -> (r: Vec<
        (&'static str, String),
    >) {
        let mut values: Vec<(&'static str, String)> = Vec::new();
        match config.gitlab.get(config_name) {
            Some(source) => {
                values.push(("Gitlab URL", source.gitlab_url.clone()));
                values.push(("Personal Access Token", source.personal_access_token.clone()));
            },
            None => {},
        }
        assert(field_values(values@) =~= self.spec_config_values(config, config_name@).unwrap());
        values
    }

    fn add_config_values(
        &self,
        config: &mut Config,
        config_name: String,
        config_values: Vec<(&'static str, String)>,
    )
        ensures
            final(config).gitlab.as_map() == old(config).gitlab.as_map().insert(
                config_name@,
                final(config).gitlab.value(config_name@),
            ),
            final(config).git == old(config).git,
            final(config).email == old(config).email,
            final(config).ical == old(config).ical,
            final(config).redmine == old(config).redmine,
            final(config).stackexchange == old(config).stackexchange,
            final(config).prefer_dark_theme == old(config).prefer_dark_theme,
            final(config).prev_next_day_skip_weekends == old(config).prev_next_day_skip_weekends,
    {
        proof {
            let fields = self.spec_config_fields();
            assert(fields[0].0@ == "Gitlab URL"@);
            assert(fields[1].0@ == "Personal Access Token"@);
        }
        let gitlab_url = value_for(&config_values, "Gitlab URL");
        let personal_access_token = value_for(&config_values, "Personal Access Token");
        let ghost added = GitlabConfig { gitlab_url, personal_access_token };
        config.gitlab.insert(config_name, GitlabConfig { gitlab_url, personal_access_token });
        proof {
            let table = config.gitlab.as_map();
            assert(table == old(config).gitlab.as_map().insert(config_name@, added));
            assert(table.dom().contains(config_name@));
            assert(table[config_name@] == added);
            assert(config.gitlab.contains(config_name@));
            assert(config.gitlab.value(config_name@) == added);
            assert(self.spec_config_values(config, config_name@).unwrap() =~= chosen_values(
                self.spec_config_fields(),
                config_values@,
            ));
        }
    }

    fn remove_config(&self, config: &mut Config, config_name: String)
        ensures
            final(config).gitlab.as_map() == old(config).gitlab.as_map().remove(config_name@),
            final(config).git == old(config).git,
            final(config).email == old(config).email,
            final(config).ical == old(config).ical,
            final(config).redmine == old(config).redmine,
            final(config).stackexchange == old(config).stackexchange,
            final(config).prefer_dark_theme == old(config).prefer_dark_theme,
            final(config).prev_next_day_skip_weekends == old(config).prev_next_day_skip_weekends,
    {
        config.gitlab.remove(config_name.as_str());
        proof {
            assert(!config.gitlab.as_map().dom().contains(config_name@));
        }
    }
}

} // verus!
