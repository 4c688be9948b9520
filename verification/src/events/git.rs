//! Commits of one day by one author, from the local branches of a
//! repository.
//!
//! Reading the repository is left to the caller, which hands over what it
//! finds as plain values. What is decided here: which branches are worth a
//! walk, where a walk ends, which commits are of the day, which of them are
//! shown for a branch, how an event is made of a commit, and which events
//! are the same commit seen on two branches.

use crate::events::events::Event;
use crate::events::events::EventBody;
use crate::events::events::WordWrapMode;
use crate::events::gitlab::GitlabConfig;
use crate::icons::Icon;
use crate::named::Named;
use crate::pattern::first_group;
use crate::pattern::regex_first_group;
use crate::pattern::regex_replaced;
use crate::pattern::replace_all;
use crate::sorting::is_sorted_by_time;
use crate::sorting::sort_by_time;
use crate::sorting::sorted_by_time;
use crate::sorting::time_le;
use crate::text::contains;
use crate::text::lemma_precedes_irreflexive;
use crate::text::lemma_precedes_total;
use crate::text::lemma_precedes_transitive;
use crate::text::precedes;
use crate::text::push_str;
use crate::text::same;
use crate::text::spec_contains;
use crate::text::spec_precedes;
use crate::text::spec_text_or_empty;
use crate::text::string_of;
use crate::time::local_time_at;
use crate::time::DayWindow;
use crate::time::LocalDateTime;
use crate::config::Config;
use crate::events::events::chosen_values;
use crate::events::events::field_values;
use crate::events::events::spec_value_of;
use crate::events::events::value_for;
use crate::events::events::ConfigType;
use crate::events::events::EventProvider;
use vstd::prelude::*;
use vstd::string::StrSliceExecFns;

verus! {

/// One configured repository.
#[derive(Clone, Debug)]
pub struct GitConfig {
    /// The folder of the repository.
    pub repo_folder: String,
    /// The author whose commits are wanted.
    pub commit_author: String,
}

/// The source of events that reads a repository.
#[derive(Clone, Copy, Debug, PartialEq, Eq, Structural)]
pub struct Git;

/// How a commit changed the files, as far as it could be found out.
#[derive(Debug)]
pub struct CommitDiff {
    /// The statistics of the change, as text.
    pub full_diffstr: Option<String>,
    /// The paths of the files that the change touched, each as its
    /// components.
    pub files_touched: Option<Vec<Vec<String>>>,
}

/// What is read of one commit.
#[derive(Debug)]
pub struct CommitInfo {
    /// The name of the commit: its id in hexadecimal digits.
    pub id: String,
    /// When the commit was made.
    pub date: LocalDateTime,
    /// The name of the author.
    pub author: Option<String>,
    /// The first line of the message.
    pub summary: Option<String>,
    /// The whole message.
    pub message: Option<String>,
    /// The change against the one parent; `None` for a commit with several
    /// parents or where the change could not be computed.
    pub diff: Option<CommitDiff>,
}

/// The name of the branch whose commits are not listed again for other
/// branches.
pub open spec fn trunk() -> Seq<char> {
    "master"@
}

/// Where a walk that begins at `from` ends: at the first commit made before
/// `day_start`, or behind the last commit.
pub open spec fn walk_end(walk: Seq<CommitInfo>, from: int, day_start: int) -> int
    decreases walk.len() - from,
{
    if from < 0 || from >= walk.len() || walk[from].date.timestamp < day_start {
        from
    } else {
        walk_end(walk, from + 1, day_start)
    }
}

/// The test that a commit was made before the end of the day by `author`.
pub open spec fn keeps(day: DayWindow, author: Seq<char>) -> spec_fn(CommitInfo) -> bool {
    |c: CommitInfo|
        c.date.timestamp < day.next_day_start && (c.author matches Some(name) && name@ == author)
}

/// The commits of the day by `author` among those of a walk, which goes from
/// the newest commit backward: the walk ends at the first commit made before
/// the day; of the commits before that, those made before the end of the day
/// by `author` are kept, the oldest first.
pub open spec fn spec_select(walk: Seq<CommitInfo>, day: DayWindow, author: Seq<char>) -> Seq<
    CommitInfo,
> {
    walk.take(walk_end(walk, 0, day.day_start as int)).filter(keeps(day, author)).reverse()
}

/// A walk ends inside the list.
pub proof fn lemma_walk_end_bounds(walk: Seq<CommitInfo>, from: int, day_start: int)
    requires
        0 <= from <= walk.len(),
    ensures
        from <= walk_end(walk, from, day_start) <= walk.len(),
        forall|k: int|
            from <= k < walk_end(walk, from, day_start) ==> walk[k].date.timestamp >= day_start,
    decreases walk.len() - from,
{
    if from < walk.len() && walk[from].date.timestamp >= day_start {
        lemma_walk_end_bounds(walk, from + 1, day_start);
    }
}

/// A day that ends before every commit of a branch was made has no commit of
/// that branch.
pub proof fn law_day_before_all_commits_is_empty(
    walk: Seq<CommitInfo>,
    day: DayWindow,
    author: Seq<char>,
)
    requires
        forall|k: int| 0 <= k < walk.len() ==> walk[k].date.timestamp >= day.next_day_start,
    ensures
        spec_select(walk, day, author).len() == 0,
{
    lemma_walk_end_bounds(walk, 0, day.day_start as int);
    let prefix = walk.take(walk_end(walk, 0, day.day_start as int));
    lemma_filter_nothing(prefix, keeps(day, author));
}

/// A branch whose newest commit was made before the day has no commit of
/// the day: the walk would end at its first step. So a branch whose head is
/// older than the day need not be walked at all.
pub proof fn law_stale_branch_has_no_commits(
    walk: Seq<CommitInfo>,
    day: DayWindow,
    author: Seq<char>,
)
    requires
        walk.len() > 0 ==> walk[0].date.timestamp < day.day_start,
    ensures
        walk_end(walk, 0, day.day_start as int) == 0,
        spec_select(walk, day, author).len() == 0,
{
    assert(walk.take(0).filter(keeps(day, author)) =~= Seq::<CommitInfo>::empty());
}

/// A filter that no entry passes leaves nothing.
pub proof fn lemma_filter_nothing(commits: Seq<CommitInfo>, pred: spec_fn(CommitInfo) -> bool)
    requires
        forall|k: int| 0 <= k < commits.len() ==> !pred(commits[k]),
    ensures
        commits.filter(pred).len() == 0,
    decreases commits.len(),
{
    if commits.len() > 0 {
        lemma_filter_nothing(commits.drop_last(), pred);
        assert(commits =~= commits.drop_last().push(commits.last()));
        commits.drop_last().lemma_filter_push(commits.last(), pred);
    }
}

/// The entries of `v` in the opposite order.
pub fn reverse_order<T>(v: Vec<T>) -> (r: Vec<T>)
    ensures
        r@ == v@.reverse(),
{
    let mut v = v;
    let ghost all = v@;
    let mut r: Vec<T> = Vec::new();
    while v.len() > 0
        invariant
            v@ == all.take(v@.len() as int),
            r@.len() + v@.len() == all.len(),
            forall|k: int| 0 <= k < r@.len() ==> r@[k] == all[all.len() - 1 - k],
        decreases v@.len(),
    {
        let last = v.pop().unwrap();
        r.push(last);
    }
    assert(r@ =~= all.reverse());
    r
}

/// The parts of a path joined by `/`.
pub open spec fn spec_join_path(parts: Seq<Seq<char>>) -> Seq<char>
    decreases parts.len(),
{
    if parts.len() == 0 {
        Seq::empty()
    } else if parts.len() == 1 {
        parts[0]
    } else {
        spec_join_path(parts.drop_last()) + seq!['/'] + parts.last()
    }
}

/// Whether all of `files` have a component at `idx`, the same as the first
/// file.
pub open spec fn agree_at(files: Seq<Vec<String>>, idx: int) -> bool {
    forall|f: int|
        0 <= f < files.len() ==> idx < (#[trigger] files[f])@.len() && files[f]@[idx]@
            == files[0]@[idx]@
}

/// How many components, counted from `from` on, all paths have in common.
pub open spec fn common_end(files: Seq<Vec<String>>, from: int) -> int
    decreases
            (if files.len() > 0 {
                files[0]@.len() - from
            } else {
                0
            }),
{
    if files.len() == 0 || from < 0 || from >= files[0]@.len() || !agree_at(files, from) {
        from
    } else {
        common_end(files, from + 1)
    }
}

/// The folder that holds all of `files`: the components that all paths begin
/// with, joined by `/`. It is empty where there is no file.
pub open spec fn spec_files_root(files: Seq<Vec<String>>) -> Seq<char> {
    if files.len() == 0 {
        Seq::empty()
    } else {
        spec_join_path(
            files[0]@.take(common_end(files, 0)).map_values(|part: String| part@),
        )
    }
}

/// The address under which a server of the kind of `gitlab_url` shows the
/// commits of the project `project`: the id of a commit is to follow.
pub open spec fn spec_gitlab_commit_url(gitlab_url: Seq<char>, project: Seq<char>) -> Seq<char> {
    gitlab_url + "/"@ + project + "/commit/"@
}

/// The address under which GitHub shows the commits of the project
/// `project`: the id of a commit is to follow.
pub open spec fn spec_github_commit_url(project: Seq<char>) -> Seq<char> {
    "https://github.com/"@ + project + "/commit/"@
}

/// Whether the repository with the origin `origin_url` lives on the server
/// `gitlab_url`: the origin holds the address of the server without its
/// protocol.
pub open spec fn lives_on(origin_url: Seq<char>, gitlab_url: Seq<char>) -> bool {
    regex_replaced("^[a-z]+://"@, gitlab_url, ""@) matches Some(host) && spec_contains(
        origin_url,
        host,
    )
}

/// The first configured server at or after `from` that the repository lives
/// on.
pub open spec fn first_server(
    origin_url: Seq<char>,
    servers: Seq<(String, GitlabConfig)>,
    from: int,
) -> Option<int>
    decreases servers.len() - from,
{
    if from < 0 || from >= servers.len() {
        None
    } else if lives_on(origin_url, servers[from].1.gitlab_url@) {
        Some(from)
    } else {
        first_server(origin_url, servers, from + 1)
    }
}

/// The address under which the commits of a repository on a configured
/// server are shown, if it lives on one and its origin names its project.
pub open spec fn spec_display_url_gitlab(
    origin_url: Seq<char>,
    servers: Seq<(String, GitlabConfig)>,
) -> Option<Seq<char>> {
    match first_server(origin_url, servers, 0) {
        Some(i) => match regex_first_group(":(.*?)\\.git"@, origin_url) {
            Some(Some(project)) => Some(
                spec_gitlab_commit_url(servers[i].1.gitlab_url@, project),
            ),
            _ => None,
        },
        None => None,
    }
}

/// The address under which the commits of a repository on GitHub are shown,
/// if its origin is one of GitHub.
pub open spec fn spec_display_url_github(origin_url: Seq<char>) -> Option<Seq<char>> {
    match regex_first_group(
        "^git@github\\.com:(.*)\\.git$|https://github\\.com/(.*)\\.git"@,
        origin_url,
    ) {
        Some(Some(project)) => Some(spec_github_commit_url(project)),
        _ => None,
    }
}

/// The link that opens a commit in the browser; empty without an address.
pub open spec fn spec_open_in_browser(commit_display_url: Option<String>, id: Seq<char>) -> Seq<
    char,
> {
    match commit_display_url {
        Some(cdu) => "<a href=\""@ + cdu@ + "/"@ + id + "\">Open in browser</a>"@,
        None => Seq::empty(),
    }
}

/// The body of the event of a commit.
pub open spec fn spec_commit_contents(
    c: CommitInfo,
    branch: Seq<char>,
    commit_display_url: Option<String>,
) -> Seq<char> {
    let link = spec_open_in_browser(commit_display_url, c.id@);
    match c.diff {
        None => link + "\n"@ + branch,
        Some(d) => link + "\n\n<span font-family=\"monospace\">"@ + branch + "\n\n"@
            + spec_text_or_empty(d.full_diffstr) + "</span>"@,
    }
}

/// The annotation of the event of a commit: the folder that holds all the
/// files that the commit touched.
pub open spec fn spec_commit_extra(c: CommitInfo) -> Option<Seq<char>> {
    match c.diff {
        Some(d) => match d.files_touched {
            Some(files) => Some(spec_files_root(files@)),
            None => None,
        },
        None => None,
    }
}

/// Whether `e` is the event of the commit `c` as seen on the branch
/// `branch`.
pub open spec fn is_commit_event(
    e: Event,
    c: CommitInfo,
    branch: Seq<char>,
    commit_display_url: Option<String>,
) -> bool {
    &&& e.event_type_desc == "Git"
    &&& e.event_type_icon.spec_name() == "code-branch-symbolic"
    &&& e.event_time == c.date.time
    &&& e.event_info@ == spec_text_or_empty(c.summary)
    &&& e.event_contents_header@ == spec_text_or_empty(c.message)
    &&& e.event_contents_body matches EventBody::Markup(contents, mode)
    &&& mode == WordWrapMode::NoWordWrap
    &&& contents@ == spec_commit_contents(c, branch, commit_display_url)
    &&& match spec_commit_extra(c) {
        Some(root) => e.event_extra_details matches Some(extra) && extra@ == root,
        None => e.event_extra_details is None,
    }
}

/// Whether each of `names` comes before the one behind it in the order of
/// the dictionary: the names are in order and none stands twice.
pub open spec fn is_ascending(names: Seq<String>) -> bool {
    forall|i: int, j: int| 0 <= i < j < names.len() ==> spec_precedes(names[i]@, names[j]@)
}

/// Whether `name` is one of `names`.
pub open spec fn lists_name(names: Seq<String>, name: Seq<char>) -> bool {
    exists|i: int| 0 <= i < names.len() && (#[trigger] names[i])@ == name
}

/// The folder of the repository whose authors are the choices of the field
/// `field_name`, given the values that the form holds: `None` where the field
/// is not that of the author or no folder is given yet.
pub open spec fn spec_author_walk_path(
    cur_values: Seq<(&'static str, String)>,
    field_name: Seq<char>,
) -> Option<String> {
    match spec_value_of(cur_values, "Repository folder"@) {
        Some(path) => if field_name == "Commit Author"@ && path@.len() > 0 {
            Some(path)
        } else {
            None
        },
        None => None,
    }
}

/// The ids of the commits of the day on the trunk.
pub open spec fn trunk_ids(all_commits: Named<Vec<CommitInfo>>) -> Seq<Seq<char>> {
    if all_commits.contains(trunk()) {
        all_commits.value(trunk())@.map_values(|c: CommitInfo| c.id@)
    } else {
        Seq::empty()
    }
}

/// Whether the commit `c` is listed for the branch `branch`: every commit of
/// the trunk is, and of another branch those that are not on the trunk too.
pub open spec fn is_listed(branch: Seq<char>, c: CommitInfo, ids: Seq<Seq<char>>) -> bool {
    branch == trunk() || !ids.contains(c.id@)
}

/// The commits that are listed for the branch `branch`, each with the name
/// of the branch.
pub open spec fn listed_of_branch(branch: Seq<char>, commits: Seq<CommitInfo>, ids: Seq<Seq<char>>)
    -> Seq<(Seq<char>, CommitInfo)>
    decreases commits.len(),
{
    if commits.len() == 0 {
        Seq::empty()
    } else {
        let front = listed_of_branch(branch, commits.drop_last(), ids);
        if is_listed(branch, commits.last(), ids) {
            front.push((branch, commits.last()))
        } else {
            front
        }
    }
}

/// The commits that are listed, branch after branch.
pub open spec fn listed(branches: Seq<(String, Vec<CommitInfo>)>, ids: Seq<Seq<char>>) -> Seq<
    (Seq<char>, CommitInfo),
>
    decreases branches.len(),
{
    if branches.len() == 0 {
        Seq::empty()
    } else {
        listed(branches.drop_last(), ids) + listed_of_branch(
            branches.last().0@,
            branches.last().1@,
            ids,
        )
    }
}

/// Whether two events are the same commit, seen on two branches: they have
/// the same time, header and title. The bodies differ, as each names its own
/// branch.
pub open spec fn same_commit(a: Event, b: Event) -> bool {
    a.event_time == b.event_time && a.event_contents_header@ == b.event_contents_header@
        && a.event_info@ == b.event_info@
}

/// `events` with every event left out that is the same commit as the event
/// just before it: of each run of the same commit the first event stays.
pub open spec fn spec_dedup(events: Seq<Event>) -> Seq<Event>
    decreases events.len(),
{
    if events.len() <= 1 {
        events
    } else {
        let front = spec_dedup(events.drop_last());
        if same_commit(events[events.len() - 2], events.last()) {
            front
        } else {
            front.push(events.last())
        }
    }
}

/// What is left begins with the first event and ends with an event that is
/// the same commit as the last.
pub proof fn lemma_dedup_ends(events: Seq<Event>)
    requires
        events.len() > 0,
    ensures
        spec_dedup(events).len() > 0,
        spec_dedup(events).len() <= events.len(),
        spec_dedup(events)[0] == events[0],
        same_commit(spec_dedup(events).last(), events.last()),
    decreases events.len(),
{
    if events.len() > 1 {
        lemma_dedup_ends(events.drop_last());
    }
}

/// After the duplicates are dropped no event is the same commit as the event
/// just before it.
pub proof fn law_dedup_leaves_no_neighbours(events: Seq<Event>)
    ensures
        forall|k: int|
            0 < k < spec_dedup(events).len() ==> !same_commit(
                spec_dedup(events)[k - 1],
                #[trigger] spec_dedup(events)[k],
            ),
    decreases events.len(),
{
    if events.len() > 1 {
        law_dedup_leaves_no_neighbours(events.drop_last());
        lemma_dedup_ends(events.drop_last());
    }
}

/// What is left after the duplicates are dropped was there before.
pub proof fn lemma_dedup_subset(events: Seq<Event>)
    ensures
        forall|k: int|
            0 <= k < spec_dedup(events).len() ==> events.contains(#[trigger] spec_dedup(events)[k]),
    decreases events.len(),
{
    if events.len() > 1 {
        let front = events.drop_last();
        lemma_dedup_subset(front);
        let out = spec_dedup(events);
        assert forall|k: int| 0 <= k < out.len() implies events.contains(#[trigger] out[k]) by {
            if k < spec_dedup(front).len() {
                assert(front.contains(spec_dedup(front)[k]));
                let w = choose|w: int| 0 <= w < front.len() && front[w] == spec_dedup(front)[k];
                assert(events[w] == out[k]);
            } else {
                assert(events[events.len() - 1] == out[k]);
            }
        }
    } else {
        assert forall|k: int| 0 <= k < events.len() implies events.contains(
            #[trigger] spec_dedup(events)[k],
        ) by {
            assert(events[k] == spec_dedup(events)[k]);
        }
    }
}

/// Dropping the duplicates from events that are ordered by time leaves them
/// ordered by time.
pub proof fn law_dedup_keeps_order(events: Seq<Event>)
    requires
        is_sorted_by_time(events),
    ensures
        is_sorted_by_time(spec_dedup(events)),
    decreases events.len(),
{
    if events.len() > 1 {
        let front = events.drop_last();
        assert(is_sorted_by_time(front)) by {
            assert forall|i: int, j: int| 0 <= i < j < front.len() implies time_le(
                front[i],
                front[j],
            ) by {
                assert(time_le(events[i], events[j]));
            }
        }
        law_dedup_keeps_order(front);
        lemma_dedup_subset(front);
        let out = spec_dedup(events);
        assert forall|i: int, j: int| 0 <= i < j < out.len() implies time_le(out[i], out[j]) by {
            if j < spec_dedup(front).len() {
                assert(time_le(spec_dedup(front)[i], spec_dedup(front)[j]));
            } else {
                assert(front.contains(spec_dedup(front)[i]));
                let w = choose|w: int| 0 <= w < front.len() && front[w] == spec_dedup(front)[i];
                assert(time_le(events[w], events[events.len() - 1]));
            }
        }
    }
}

/// Events that are all the same commit, as when one commit is seen on
/// several branches, come down to exactly one event: the first.
pub proof fn law_same_commit_collapses_to_one(events: Seq<Event>)
    requires
        events.len() > 0,
        forall|i: int, j: int|
            0 <= i < events.len() && 0 <= j < events.len() ==> same_commit(events[i], events[j]),
    ensures
        spec_dedup(events) == seq![events[0]],
    decreases events.len(),
{
    if events.len() > 1 {
        let front = events.drop_last();
        assert forall|i: int, j: int| 0 <= i < front.len() && 0 <= j < front.len() implies same_commit(
            front[i],
            front[j],
        ) by {
            assert(same_commit(events[i], events[j]));
        }
        law_same_commit_collapses_to_one(front);
        assert(same_commit(events[events.len() - 2], events[events.len() - 1]));
    } else {
        assert(events =~= seq![events[0]]);
    }
}

impl Git {
    /// The folder of the repository that has to be walked for the choices of
    /// the field `field_name`: only the author is chosen from a list, and
    /// only once the folder is given.
    pub fn author_walk_path(cur_values: &Vec<(&'static str, String)>, field_name: &str) -> (r:
        Option<String>)
        ensures
            r == spec_author_walk_path(cur_values@, field_name@),
    {
        let mut i: usize = 0;
        assert(cur_values@.skip(0) =~= cur_values@);
        while i < cur_values.len()
            invariant
                i <= cur_values@.len(),
                spec_value_of(cur_values@, "Repository folder"@) == spec_value_of(
                    cur_values@.skip(i as int),
                    "Repository folder"@,
                ),
            decreases cur_values.len() - i,
        {
            assert(cur_values@.skip(i as int).skip(1) =~= cur_values@.skip(i + 1));
            if same(cur_values[i].0, "Repository folder") {
                let path = &cur_values[i].1;
                let named = path.as_str().unicode_len() > 0;
                return if same(field_name, "Commit Author") && named {
                    Some(path.clone())
                } else {
                    None
                };
            }
            i = i + 1;
        }
        None
    }

    /// The authors to choose from, given the names of the authors of all
    /// commits of a repository: every name once, in the order of the
    /// dictionary.
    pub fn author_choices(names: Vec<String>) -> (r: Vec<String>)
        ensures
            is_ascending(r@),
            forall|i: int, j: int| 0 <= i < j < r@.len() ==> r@[i]@ != r@[j]@,
            forall|name: Seq<char>| lists_name(r@, name) <==> lists_name(names@, name),
    {
        let ghost all = names@;
        let mut out: Vec<String> = Vec::new();
        for name in it: names
            invariant
                it.seq() == all,
                is_ascending(out@),
                forall|n: Seq<char>|
                    lists_name(out@, n) <==> lists_name(all.take(it.index() as int), n),
        {
            let ghost seen = all.take(it.index() as int);
            let ghost next = all.take(it.index() + 1);
            let ghost before = out@;
            let mut pos: usize = 0;
            while pos < out.len() && precedes(out[pos].as_str(), name.as_str())
                invariant
                    pos <= out@.len(),
                    out@ == before,
                    forall|k: int| 0 <= k < pos ==> spec_precedes(out@[k]@, name@),
                decreases out.len() - pos,
            {
                pos = pos + 1;
            }
            let known = pos < out.len() && same(out[pos].as_str(), name.as_str());
            proof {
                assert(next =~= seen.push(name));
                assert forall|n: Seq<char>| lists_name(next, n) <==> (lists_name(seen, n) || n
                    == name@) by {
                    if lists_name(next, n) {
                        let w = choose|w: int| 0 <= w < next.len() && (#[trigger] next[w])@ == n;
                        if w < seen.len() {
                            assert(seen[w]@ == n);
                        }
                    }
                    if lists_name(seen, n) {
                        let w = choose|w: int| 0 <= w < seen.len() && (#[trigger] seen[w])@ == n;
                        assert(next[w]@ == n);
                    }
                    if n == name@ {
                        assert(next[next.len() - 1]@ == n);
                    }
                }
            }
            if known {
                proof {
                    assert(out@[pos as int]@ == name@);
                    assert(lists_name(out@, name@));
                    assert forall|n: Seq<char>| lists_name(out@, n) <==> lists_name(next, n) by {}
                }
            } else {
                proof {
                    // the names from `pos` on come behind the new name
                    assert forall|k: int| pos <= k < before.len() implies spec_precedes(
                        name@,
                        before[k]@,
                    ) by {
                        lemma_precedes_total(before[pos as int]@, name@);
                        if k > pos {
                            lemma_precedes_transitive(name@, before[pos as int]@, before[k]@);
                        }
                    }
                }
                out.insert(pos, name);
                proof {
                    assert forall|i: int, j: int| 0 <= i < j < out@.len() implies spec_precedes(
                        out@[i]@,
                        out@[j]@,
                    ) by {
                        if j < pos {
                            assert(out@[i] == before[i] && out@[j] == before[j]);
                        } else if j == pos {
                            assert(out@[i] == before[i]);
                        } else if i < pos {
                            assert(out@[i] == before[i] && out@[j] == before[j - 1]);
                        } else if i == pos {
                            assert(out@[j] == before[j - 1]);
                        } else {
                            assert(out@[i] == before[i - 1] && out@[j] == before[j - 1]);
                        }
                    }
                    assert forall|n: Seq<char>| lists_name(out@, n) <==> (lists_name(before, n)
                        || n == name@) by {
                        if lists_name(out@, n) {
                            let w = choose|w: int| 0 <= w < out@.len() && (#[trigger] out@[w])@ == n;
                            if w < pos {
                                assert(before[w]@ == n);
                            } else if w > pos {
                                assert(before[w - 1]@ == n);
                            }
                        }
                        if lists_name(before, n) {
                            let w = choose|w: int|
                                0 <= w < before.len() && (#[trigger] before[w])@ == n;
                            if w < pos {
                                assert(out@[w]@ == n);
                            } else {
                                assert(out@[w + 1]@ == n);
                            }
                        }
                        if n == name@ {
                            assert(out@[pos as int]@ == n);
                        }
                    }
                    assert forall|n: Seq<char>| lists_name(out@, n) <==> lists_name(next, n) by {
                        assert(lists_name(out@, n) <==> (lists_name(before, n) || n == name@));
                        assert(lists_name(before, n) <==> lists_name(seen, n));
                        assert(lists_name(next, n) <==> (lists_name(seen, n) || n == name@));
                    }
                }
            }
        }
        proof {
            assert(all.take(all.len() as int) =~= all);
            assert forall|i: int, j: int| 0 <= i < j < out@.len() implies out@[i]@ != out@[j]@ by {
                lemma_precedes_irreflexive(out@[i]@);
            }
        }
        out
    }

    /// The instant `seconds` with the local time at it; `None` where the
    /// calendar cannot count that far.
    pub fn git2_time_to_datetime(seconds: i64) -> (r: Option<LocalDateTime>)
        ensures
            r is Some <==> crate::time::is_in_calendar(seconds as int),
            r matches Some(d) ==> d.timestamp == seconds && d.wf() && d.time.frac == 0,
    {
        Self::datetime_at(seconds, local_time_at(seconds))
    }

    /// The instant `seconds` with the local time `local_time` at it, where
    /// there is a local time at it.
    pub fn datetime_at(seconds: i64, local_time: Option<crate::time::TimeOfDay>) -> (r: Option<
        LocalDateTime,
    >)
        ensures
            r == match local_time {
                Some(time) => Some(LocalDateTime { timestamp: seconds, time }),
                None => None,
            },
    {
        match local_time {
            Some(time) => Some(LocalDateTime { timestamp: seconds, time }),
            None => None,
        }
    }

    /// Whether a branch whose newest commit was made at `branch_head_date`
    /// can be passed over: its head is older than the day.
    pub fn is_branch_stale(branch_head_date: &LocalDateTime, day: &DayWindow) -> (r: bool)
        ensures
            r == (branch_head_date.timestamp < day.day_start),
    {
        branch_head_date.timestamp < day.day_start
    }

    /// Whether a walk goes on beyond a commit made at `commit_date`: it ends
    /// at the first commit made before the day.
    pub fn walk_goes_on(commit_date: &LocalDateTime, day: &DayWindow) -> (r: bool)
        ensures
            r == (commit_date.timestamp >= day.day_start),
    {
        commit_date.timestamp >= day.day_start
    }

    /// Whether a commit is one of the day by `commit_author`.
    pub fn is_wanted(c: &CommitInfo, day: &DayWindow, commit_author: &str) -> (r: bool)
        ensures
            r == keeps(*day, commit_author@)(*c),
    {
        c.date.timestamp < day.next_day_start && match &c.author {
            Some(name) => same(name.as_str(), commit_author),
            None => false,
        }
    }

    /// The commits of the day by `commit_author` among those of a walk from
    /// the head of a branch backward, the oldest first.
    pub fn select_commits(walk: Vec<CommitInfo>, day: &DayWindow, commit_author: &str) -> (r: Vec<
        CommitInfo,
    >)
        ensures
            r@ == spec_select(walk@, *day, commit_author@),
    {
        let ghost all = walk@;
        let ghost end = walk_end(all, 0, day.day_start as int);
        let ghost pred = keeps(*day, commit_author@);
        let mut kept: Vec<CommitInfo> = Vec::new();
        let mut walking = true;
        proof {
            lemma_walk_end_bounds(all, 0, day.day_start as int);
            assert(all.take(0).filter(pred) =~= Seq::<CommitInfo>::empty());
        }
        for c in it: walk
            invariant
                it.seq() == all,
                end == walk_end(all, 0, day.day_start as int),
                pred == keeps(*day, commit_author@),
                0 <= end <= all.len(),
                walking ==> it.index() <= end && walk_end(all, it.index() as int, day.day_start as int)
                    == end,
                !walking ==> end < it.index(),
                kept@ == all.take(
                    if walking {
                        it.index() as int
                    } else {
                        end
                    },
                ).filter(pred),
        {
            if walking {
                if Self::walk_goes_on(&c.date, day) {
                    proof {
                        let i = it.index() as int;
                        assert(all.take(i + 1) =~= all.take(i).push(c));
                        all.take(i).lemma_filter_push(c, pred);
                        assert(walk_end(all, i, day.day_start as int) == walk_end(
                            all,
                            i + 1,
                            day.day_start as int,
                        ));
                        lemma_walk_end_bounds(all, i + 1, day.day_start as int);
                    }
                    if Self::is_wanted(&c, day, commit_author) {
                        kept.push(c);
                    }
                } else {
                    walking = false;
                }
            }
        }
        reverse_order(kept)
    }

    /// The folder that holds all of `files`, each given as the components of
    /// its path: the components that all paths begin with, joined by `/`.
    pub fn get_files_root(files: &Vec<Vec<String>>) -> (r: String)
        ensures
            r@ == spec_files_root(files@),
    {
        let mut out: Vec<char> = Vec::new();
        if files.len() == 0 {
            return string_of(&out);
        }
        let first = &files[0];
        let mut idx: usize = 0;
        let mut agreed = true;
        while agreed && idx < first.len()
            invariant
                files@.len() > 0,
                first@ == files@[0]@,
                idx <= first@.len(),
                common_end(files@, 0) == common_end(files@, idx as int),
                !agreed ==> idx < first@.len() && !agree_at(files@, idx as int),
                out@ == spec_join_path(first@.take(idx as int).map_values(|part: String| part@)),
            decreases first.len() - idx + (if agreed { 1nat } else { 0nat }),
        {
            let mut all_agree = true;
            let mut f: usize = 0;
            while f < files.len()
                invariant
                    f <= files@.len(),
                    files@.len() > 0,
                    first@ == files@[0]@,
                    idx < first@.len(),
                    all_agree ==> forall|g: int|
                        0 <= g < f ==> idx < (#[trigger] files@[g])@.len() && files@[g]@[idx as int]@
                            == files@[0]@[idx as int]@,
                    !all_agree ==> !agree_at(files@, idx as int),
                decreases files.len() - f,
            {
                if all_agree {
                    let file = &files[f];
                    if idx >= file.len() || !same(file[idx].as_str(), first[idx].as_str()) {
                        all_agree = false;
                    }
                }
                f = f + 1;
            }
            if all_agree {
                assert(agree_at(files@, idx as int));
                proof {
                    let parts = first@.take(idx + 1).map_values(|part: String| part@);
                    assert(parts.drop_last() =~= first@.take(idx as int).map_values(
                        |part: String| part@,
                    ));
                    assert(parts.last() == first@[idx as int]@);
                }
                if idx > 0 {
                    out.push('/');
                }
                push_str(&mut out, first[idx].as_str());
                idx = idx + 1;
            } else {
                agreed = false;
            }
        }
        string_of(&out)
    }

    /// The address under which the server `gitlab_url` shows the commits of
    /// the project `project`.
    pub fn gitlab_commit_url(gitlab_url: &str, project: &str) -> (r: String)
        ensures
            r@ == spec_gitlab_commit_url(gitlab_url@, project@),
    {
        let mut out: Vec<char> = Vec::new();
        push_str(&mut out, gitlab_url);
        push_str(&mut out, "/");
        push_str(&mut out, project);
        push_str(&mut out, "/commit/");
        string_of(&out)
    }

    /// The address under which GitHub shows the commits of the project
    /// `project`.
    pub fn github_commit_url(project: &str) -> (r: String)
        ensures
            r@ == spec_github_commit_url(project@),
    {
        let mut out: Vec<char> = Vec::new();
        push_str(&mut out, "https://github.com/");
        push_str(&mut out, project);
        push_str(&mut out, "/commit/");
        string_of(&out)
    }

    /// Whether the repository with the origin `origin_url` lives on the
    /// server `gitlab_url`.
    pub fn origin_lives_on(origin_url: &str, gitlab_url: &str) -> (r: bool)
        ensures
            r == lives_on(origin_url@, gitlab_url@),
    {
        match replace_all("^[a-z]+://", gitlab_url, "") {
            Some(host) => contains(origin_url, host.as_str()),
            None => false,
        }
    }

    /// The address under which the commits of the repository are shown by
    /// the first configured server that the repository lives on. The origin
    /// of such a repository looks like `git@server:group/project.git`, and
    /// what stands between the colon and `.git` names the project.
    pub fn get_commit_display_url_gitlab(origin_url: &str, servers: &Named<GitlabConfig>) -> (r:
        Option<String>)
        ensures
            match spec_display_url_gitlab(origin_url@, servers.entries@) {
                Some(url) => r matches Some(s) && s@ == url,
                None => r is None,
            },
    {
        let mut i: usize = 0;
        while i < servers.entries.len()
            invariant
                i <= servers.entries@.len(),
                first_server(origin_url@, servers.entries@, 0) == first_server(
                    origin_url@,
                    servers.entries@,
                    i as int,
                ),
            decreases servers.entries.len() - i,
        {
            let server = &servers.entries[i].1;
            if Self::origin_lives_on(origin_url, server.gitlab_url.as_str()) {
                return match first_group(":(.*?)\\.git", origin_url) {
                    Some(Some(project)) => Some(
                        Self::gitlab_commit_url(server.gitlab_url.as_str(), project.as_str()),
                    ),
                    _ => None,
                };
            }
            i = i + 1;
        }
        None
    }

    /// The address under which GitHub shows the commits of the repository,
    /// if its origin is one of GitHub.
    pub fn get_commit_display_url_github(origin_url: &str) -> (r: Option<String>)
        ensures
            match spec_display_url_github(origin_url@) {
                Some(url) => r matches Some(s) && s@ == url,
                None => r is None,
            },
    {
        match first_group(
            "^git@github\\.com:(.*)\\.git$|https://github\\.com/(.*)\\.git",
            origin_url,
        ) {
            Some(Some(project)) => Some(Self::github_commit_url(project.as_str())),
            _ => None,
        }
    }

    /// The address under which the commits of the repository can be opened
    /// in the browser: on a configured server first, else on GitHub. `None`
    /// where the repository has no origin or none that is known.
    pub fn get_commit_display_url(origin_url: Option<&str>, servers: &Named<GitlabConfig>) -> (r:
        Option<String>)
        ensures
            match origin_url {
                Some(origin) => match spec_display_url_gitlab(origin@, servers.entries@) {
                    Some(url) => r matches Some(s) && s@ == url,
                    None => match spec_display_url_github(origin@) {
                        Some(url) => r matches Some(s) && s@ == url,
                        None => r is None,
                    },
                },
                None => r is None,
            },
    {
        match origin_url {
            Some(origin) => match Self::get_commit_display_url_gitlab(origin, servers) {
                Some(url) => Some(url),
                None => Self::get_commit_display_url_github(origin),
            },
            None => None,
        }
    }

    /// The event of the commit `c` as seen on the branch `branch`.
    pub fn build_event(c: &CommitInfo, branch: &str, commit_display_url: &Option<String>) -> (r:
        Event)
        ensures
            is_commit_event(r, *c, branch@, *commit_display_url),
    {
        let mut contents: Vec<char> = Vec::new();
        match commit_display_url {
            Some(cdu) => {
                push_str(&mut contents, "<a href=\"");
                push_str(&mut contents, cdu.as_str());
                push_str(&mut contents, "/");
                push_str(&mut contents, c.id.as_str());
                push_str(&mut contents, "\">Open in browser</a>");
            },
            None => {},
        }
        assert(contents@ =~= spec_open_in_browser(*commit_display_url, c.id@));
        let extra_details = match &c.diff {
            None => {
                push_str(&mut contents, "\n");
                push_str(&mut contents, branch);
                None
            },
            Some(d) => {
                push_str(&mut contents, "\n\n<span font-family=\"monospace\">");
                push_str(&mut contents, branch);
                push_str(&mut contents, "\n\n");
                match &d.full_diffstr {
                    Some(stats) => {
                        push_str(&mut contents, stats.as_str());
                    },
                    None => {},
                }
                push_str(&mut contents, "</span>");
                match &d.files_touched {
                    Some(files) => Some(Self::get_files_root(files)),
                    None => None,
                }
            },
        };
        assert(contents@ =~= spec_commit_contents(*c, branch@, *commit_display_url));
        let summary = match &c.summary {
            Some(s) => s.clone(),
            None => String::new(),
        };
        let contents_header = match &c.message {
            Some(s) => s.clone(),
            None => String::new(),
        };
        Event::new(
            "Git",
            Icon::code_branch(),
            c.date.time,
            summary,
            contents_header,
            EventBody::Markup(string_of(&contents), WordWrapMode::NoWordWrap),
            extra_details,
        )
    }

    /// Whether one of `commits` has the id `id`.
    pub fn has_id(commits: &Vec<CommitInfo>, id: &str) -> (r: bool)
        ensures
            r == commits@.map_values(|c: CommitInfo| c.id@).contains(id@),
    {
        let ghost ids = commits@.map_values(|c: CommitInfo| c.id@);
        let mut i: usize = 0;
        while i < commits.len()
            invariant
                i <= commits@.len(),
                ids == commits@.map_values(|c: CommitInfo| c.id@),
                forall|k: int| 0 <= k < i ==> ids[k] != id@,
            decreases commits.len() - i,
        {
            if same(commits[i].id.as_str(), id) {
                assert(ids[i as int] == id@);
                return true;
            }
            i = i + 1;
        }
        false
    }

    /// The events of the commits of the day, branch after branch. The
    /// commits of the trunk are all listed; a commit of another branch is
    /// listed unless it is on the trunk as well, where it is shown already.
    pub fn list_events(all_commits: &Named<Vec<CommitInfo>>, commit_display_url: &Option<String>)
        -> (r: Vec<Event>)
        requires
            all_commits.wf(),
        ensures
            ({
                let commits = listed(all_commits.entries@, trunk_ids(*all_commits));
                &&& r@.len() == commits.len()
                &&& forall|k: int|
                    0 <= k < r@.len() ==> is_commit_event(
                        #[trigger] r@[k],
                        commits[k].1,
                        commits[k].0,
                        *commit_display_url,
                    )
            }),
    {
        let ghost ids = trunk_ids(*all_commits);
        let trunk_commits = all_commits.get("master");
        let mut events: Vec<Event> = Vec::new();
        let mut b: usize = 0;
        while b < all_commits.entries.len()
            invariant
                b <= all_commits.entries@.len(),
                all_commits.wf(),
                ids == trunk_ids(*all_commits),
                match trunk_commits {
                    Some(commits) => ids == commits@.map_values(|c: CommitInfo| c.id@),
                    None => ids == Seq::<Seq<char>>::empty(),
                },
                events@.len() == listed(all_commits.entries@.take(b as int), ids).len(),
                forall|k: int|
                    0 <= k < events@.len() ==> is_commit_event(
                        #[trigger] events@[k],
                        listed(all_commits.entries@.take(b as int), ids)[k].1,
                        listed(all_commits.entries@.take(b as int), ids)[k].0,
                        *commit_display_url,
                    ),
            decreases all_commits.entries.len() - b,
        {
            let branch = &all_commits.entries[b].0;
            let commits = &all_commits.entries[b].1;
            let on_trunk = same(branch.as_str(), "master");
            let ghost done = listed(all_commits.entries@.take(b as int), ids);
            let mut i: usize = 0;
            while i < commits.len()
                invariant
                    i <= commits@.len(),
                    on_trunk == (branch@ == trunk()),
                    match trunk_commits {
                        Some(commits) => ids == commits@.map_values(|c: CommitInfo| c.id@),
                        None => ids == Seq::<Seq<char>>::empty(),
                    },
                    events@.len() == (done + listed_of_branch(
                        branch@,
                        commits@.take(i as int),
                        ids,
                    )).len(),
                    forall|k: int|
                        0 <= k < events@.len() ==> is_commit_event(
                            #[trigger] events@[k],
                            (done + listed_of_branch(branch@, commits@.take(i as int), ids))[k].1,
                            (done + listed_of_branch(branch@, commits@.take(i as int), ids))[k].0,
                            *commit_display_url,
                        ),
                decreases commits.len() - i,
            {
                let c = &commits[i];
                let shown = on_trunk || match trunk_commits {
                    Some(of_trunk) => !Self::has_id(of_trunk, c.id.as_str()),
                    None => true,
                };
                proof {
                    let next = commits@.take(i + 1);
                    assert(next.drop_last() =~= commits@.take(i as int));
                    assert(next.last() == *c);
                    assert(shown == is_listed(branch@, *c, ids));
                }
                if shown {
                    events.push(Self::build_event(c, branch.as_str(), commit_display_url));
                }
                i = i + 1;
            }
            proof {
                assert(commits@.take(commits@.len() as int) =~= commits@);
                let next = all_commits.entries@.take(b + 1);
                assert(next.drop_last() =~= all_commits.entries@.take(b as int));
                assert(next.last() == all_commits.entries@[b as int]);
            }
            b = b + 1;
        }
        assert(all_commits.entries@.take(all_commits.entries@.len() as int)
            =~= all_commits.entries@);
        events
    }

    /// Whether two events are the same commit, seen on two branches.
    pub fn is_same_commit(a: &Event, b: &Event) -> (r: bool)
        ensures
            r == same_commit(*a, *b),
    {
        a.event_time == b.event_time && a.event_contents_header == b.event_contents_header
            && a.event_info == b.event_info
    }

    /// Drops every event that is the same commit as the event just before
    /// it.
    pub fn dedup_events(events: Vec<Event>) -> (r: Vec<Event>)
        ensures
            r@ == spec_dedup(events@),
    {
        let ghost all = events@;
        let mut out: Vec<Event> = Vec::new();
        for e in it: events
            invariant
                it.seq() == all,
                out@ == spec_dedup(all.take(it.index() as int)),
        {
            proof {
                let i = it.index() as int;
                let next = all.take(i + 1);
                assert(next.drop_last() =~= all.take(i));
                assert(next.last() == e);
                if i > 0 {
                    lemma_dedup_ends(all.take(i));
                    assert(next[next.len() - 2] == all.take(i).last());
                }
            }
            let n = out.len();
            if n > 0 && Self::is_same_commit(&out[n - 1], &e) {
            } else {
                out.push(e);
            }
        }
        assert(all.take(all.len() as int) =~= all);
        out
    }

    /// The events of a repository in their final order: by their time, and
    /// with the same commit seen on several branches listed once.
    pub fn finish_events(events: Vec<Event>) -> (r: Vec<Event>)
        ensures
            r@ == spec_dedup(sorted_by_time(events@)),
            is_sorted_by_time(r@),
            forall|k: int| 0 < k < r@.len() ==> !same_commit(r@[k - 1], #[trigger] r@[k]),
    {
        proof {
            crate::sorting::law_sorted_is_ordered(events@);
            law_dedup_keeps_order(sorted_by_time(events@));
            law_dedup_leaves_no_neighbours(sorted_by_time(events@));
        }
        Self::dedup_events(sort_by_time(events))
    }
}


impl EventProvider for Git {
    open spec fn spec_name(&self) -> &'static str {
        "Git"
    }

    open spec fn spec_icon_name(&self) -> &'static str {
        "code-branch-symbolic"
    }

    open spec fn spec_config_fields(&self) -> Seq<(&'static str, ConfigType)> {
        seq![("Repository folder", ConfigType::Folder), ("Commit Author", ConfigType::Combo)]
    }

    open spec fn spec_config_names(&self, config: &Config) -> Seq<Seq<char>> {
        config.git.names()
    }

    open spec fn spec_config_values(&self, config: &Config, config_name: Seq<char>) -> Option<
        Seq<Seq<char>>,
    > {
        if config.git.contains(config_name) {
            Some(seq![config.git.value(config_name).repo_folder@, config.git.value(config_name).commit_author@])
        } else {
            None
        }
    }

    fn get_config_fields(&self) -> (r: Vec<(&'static str, ConfigType)>) {
        let mut fields: Vec<(&'static str, ConfigType)> = Vec::new();
        fields.push(("Repository folder", ConfigType::Folder));
        fields.push(("Commit Author", ConfigType::Combo));
        assert(fields@ =~= self.spec_config_fields());
        fields
    }

    fn name(&self) -> (r: &'static str) {
        "Git"
    }

    fn default_icon(&self) -> (r: Icon) {
        Icon::code_branch()
    }

    fn get_config_names(&self, config: &Config) -> (r: Vec<String>) {
        config.git.get_names()
    }

    fn get_config_values(&self, config: &Config, config_name: &str) -> (r: Vec<
        (&'static str, String),
    >) {
        let mut values: Vec<(&'static str, String)> = Vec::new();
        match config.git.get(config_name) {
            Some(source) => {
                values.push(("Repository folder", source.repo_folder.clone()));
                values.push(("Commit Author", source.commit_author.clone()));
            },
            None => {},
        }
        assert(field_values(values@) =~= self.spec_config_values(config, config_name@).unwrap());
        values
    }

    fn add_config_values(
        &self,
        config: &mut Config,
        config_name: String,
        config_values: Vec<(&'static str, String)>,
    )
        ensures
            final(config).git.as_map() == old(config).git.as_map().insert(
                config_name@,
                final(config).git.value(config_name@),
            ),
            final(config).email == old(config).email,
            final(config).ical == old(config).ical,
            final(config).redmine == old(config).redmine,
            final(config).gitlab == old(config).gitlab,
            final(config).stackexchange == old(config).stackexchange,
            final(config).prefer_dark_theme == old(config).prefer_dark_theme,
            final(config).prev_next_day_skip_weekends == old(config).prev_next_day_skip_weekends,
    {
        proof {
            let fields = self.spec_config_fields();
            assert(fields[0].0@ == "Repository folder"@);
            assert(fields[1].0@ == "Commit Author"@);
        }
        let repo_folder = value_for(&config_values, "Repository folder");
        let commit_author = value_for(&config_values, "Commit Author");
        let ghost added = GitConfig { repo_folder, commit_author };
        config.git.insert(config_name, GitConfig { repo_folder, commit_author });
        proof {
            let table = config.git.as_map();
            assert(table == old(config).git.as_map().insert(config_name@, added));
            assert(table.dom().contains(config_name@));
            assert(table[config_name@] == added);
            assert(config.git.contains(config_name@));
            assert(config.git.value(config_name@) == added);
            assert(self.spec_config_values(config, config_name@).unwrap() =~= chosen_values(
                self.spec_config_fields(),
                config_values@,
            ));
        }
    }

    fn remove_config(&self, config: &mut Config, config_name: String)
        ensures
            final(config).git.as_map() == old(config).git.as_map().remove(config_name@),
            final(config).email == old(config).email,
            final(config).ical == old(config).ical,
            final(config).redmine == old(config).redmine,
            final(config).gitlab == old(config).gitlab,
            final(config).stackexchange == old(config).stackexchange,
            final(config).prefer_dark_theme == old(config).prefer_dark_theme,
            final(config).prev_next_day_skip_weekends == old(config).prev_next_day_skip_weekends,
    {
        config.git.remove(config_name.as_str());
        proof {
            assert(!config.git.as_map().dom().contains(config_name@));
        }
    }
}

} // verus!
