//! The decisions of the command-line workflow: status changes, finishing a
//! bug, working on it in a workspace, and cleaning that workspace up.
use vstd::prelude::*;

use crate::bug::{
    priority_from_lowercase, priority_name, status_name, with_change, Bug, BugView, Priority, Status,
};
use crate::event::{
    apply_event, derived_bug, lemma_derive_appended, lemma_derive_extended, opt_view, replay,
    DeriveError, EventData, EventDataView, EventView,
};
use crate::store::{joined_path, parent_path, path_join, path_parent};
use crate::text::{contains_seq, contains_str, str_eq, trim, trimmed, unicode_lowercase};

verus! {

broadcast use vstd::string::group_string_axioms;

/// Why a command refused to go on.
#[derive(Debug, Clone)]
pub enum CommandError {
    /// The status of a completed bug cannot change.
    CompletedBug { bug_id: String },
    /// There is no work left on a completed bug.
    AlreadyDone { bug_id: String },
    /// A workspace with uncommitted changes is not cleaned up.
    UncommittedChanges,
}

impl CommandError {
    /// The text shown for this error.
    pub fn message(&self) -> (r: String)
        ensures
            r@ == match self {
                CommandError::CompletedBug { bug_id } => "cannot change status of completed bug '"@
                    + bug_id@ + "'"@,
                CommandError::AlreadyDone { bug_id } => "bug "@ + bug_id@ + " is already done"@,
                CommandError::UncommittedChanges =>
                    "refusing to clean up workspace with uncommitted changes. Commit or discard changes first."@,
            },
    {
        match self {
            CommandError::CompletedBug { bug_id } => {
                let mut r = "cannot change status of completed bug '".to_owned();
                r.append(bug_id.as_str());
                r.append("'");
                r
            },
            CommandError::AlreadyDone { bug_id } => {
                let mut r = "bug ".to_owned();
                r.append(bug_id.as_str());
                r.append(" is already done");
                r
            },
            CommandError::UncommittedChanges => {
                "refusing to clean up workspace with uncommitted changes. Commit or discard changes first.".to_owned()
            },
        }
    }
}

/// Refuses to touch a bug that is done.
pub fn check_not_done(bug_id: &str, current: Status) -> (r: Result<(), CommandError>)
    ensures
        current == Status::Done ==> (r matches Err(CommandError::CompletedBug { bug_id: b })
            && b@ == bug_id@),
        current != Status::Done ==> r is Ok,
{
    match current {
        Status::Done => Err(CommandError::CompletedBug { bug_id: bug_id.to_owned() }),
        _ => Ok(()),
    }
}

/// The event that moves a bug from `current` to `to`; a done bug stays done.
pub fn change_status(bug_id: &str, current: Status, to: Status) -> (r: Result<EventData, CommandError>)
    ensures
        current == Status::Done ==> (r matches Err(CommandError::CompletedBug { bug_id: b })
            && b@ == bug_id@),
        current != Status::Done ==> (r matches Ok(d) && d@ == (EventDataView::StatusChanged {
            from: current,
            to,
        })),
{
    check_not_done(bug_id, current)?;
    Ok(EventData::StatusChanged { from: current, to })
}

/// Approves a bug: the event that moves it to `approved`.
pub fn approve(bug_id: &str, current: Status) -> (r: Result<EventData, CommandError>)
    ensures
        current == Status::Done ==> (r matches Err(CommandError::CompletedBug { bug_id: b })
            && b@ == bug_id@),
        current != Status::Done ==> (r matches Ok(d) && d@ == (EventDataView::StatusChanged {
            from: current,
            to: Status::Approved,
        })),
{
    change_status(bug_id, current, Status::Approved)
}

/// Starts work on a bug: the event that moves it to `in-progress`.
pub fn start(bug_id: &str, current: Status) -> (r: Result<EventData, CommandError>)
    ensures
        current == Status::Done ==> (r matches Err(CommandError::CompletedBug { bug_id: b })
            && b@ == bug_id@),
        current != Status::Done ==> (r matches Ok(d) && d@ == (EventDataView::StatusChanged {
            from: current,
            to: Status::InProgress,
        })),
{
    change_status(bug_id, current, Status::InProgress)
}

/// The events that finishing a bug appends, in order: the link of the
/// current change, if one was found; the body synced from the workspace, if
/// one was read; then the move to `done`.
pub open spec fn done_events(
    current: Status,
    linked_change: Option<Seq<char>>,
    synced_body: Option<Seq<char>>,
) -> Seq<EventDataView> {
    let links = match linked_change {
        Some(c) => seq![EventDataView::ChangeLinked { change_id: c }],
        None => Seq::empty(),
    };
    let syncs = match synced_body {
        Some(b) => seq![EventDataView::Updated { title: None, body: Some(b) }],
        None => Seq::empty(),
    };
    links + syncs + seq![EventDataView::StatusChanged { from: current, to: Status::Done }]
}

/// The views of a list of events.
pub open spec fn data_views(v: Seq<EventData>) -> Seq<EventDataView> {
    v.map_values(|d: EventData| d@)
}

/// Finishes a bug: the events to append, refused for a bug that is done.
pub fn done(
    bug_id: &str,
    current: Status,
    linked_change: Option<String>,
    synced_body: Option<String>,
) -> (r: Result<Vec<EventData>, CommandError>)
    ensures
        current == Status::Done ==> (r matches Err(CommandError::CompletedBug { bug_id: b })
            && b@ == bug_id@),
        current != Status::Done ==> (r matches Ok(v) && data_views(v@) == done_events(
            current,
            opt_view(linked_change),
            opt_view(synced_body),
        )),
{
    check_not_done(bug_id, current)?;
    let ghost lc = opt_view(linked_change);
    let ghost sb = opt_view(synced_body);
    let mut v: Vec<EventData> = Vec::new();
    match linked_change {
        Some(c) => {
            v.push(EventData::ChangeLinked { change_id: c });
        },
        None => {},
    }
    match synced_body {
        Some(b) => {
            v.push(EventData::Updated { title: None, body: Some(b) });
        },
        None => {},
    }
    v.push(EventData::StatusChanged { from: current, to: Status::Done });
    assert(data_views(v@) =~= done_events(current, lc, sb));
    Ok(v)
}

/// What finishing a bug comes to: the events to append, and whether a fresh
/// jj change is made afterwards.
#[derive(Debug, Clone)]
pub struct DonePlan {
    pub events: Vec<EventData>,
    pub make_fresh_change: bool,
}

/// Plans finishing a bug. Run from the bug's workspace, it links the current
/// change (if one was found) and syncs the workspace's body, and makes no
/// fresh change; elsewhere it links nothing, syncs the body found in a context
/// file (if any), and makes a fresh change afterwards. A done bug is refused.
pub fn plan_done(
    bug_id: &str,
    current: Status,
    workspace: Option<WorkspaceContext>,
    change_id: Option<String>,
    found_body: Option<String>,
) -> (r: Result<DonePlan, CommandError>)
    ensures
        current == Status::Done ==> (r matches Err(CommandError::CompletedBug { bug_id: b })
            && b@ == bug_id@),
        current != Status::Done ==> (r matches Ok(p) && match workspace {
            Some(ctx) => data_views(p.events@) == done_events(
                current,
                opt_view(change_id),
                Some(ctx.body@),
            ) && !p.make_fresh_change,
            None => data_views(p.events@) == done_events(current, None, opt_view(found_body))
                && p.make_fresh_change,
        }),
{
    match workspace {
        Some(ctx) => {
            let events = done(bug_id, current, change_id, Some(ctx.body))?;
            Ok(DonePlan { events, make_fresh_change: false })
        },
        None => {
            let events = done(bug_id, current, None, found_body)?;
            Ok(DonePlan { events, make_fresh_change: true })
        },
    }
}

/// Once the event of a status change is appended to the log of a bug, the
/// bug derived from the log has the new status and is otherwise unchanged.
pub proof fn lemma_status_change_takes_effect(evs: Seq<EventView>, e: EventView, to: Status)
    requires
        derived_bug(evs) is Ok,
        e.data == (EventDataView::StatusChanged { from: derived_bug(evs)->Ok_0.status, to }),
    ensures
        derived_bug(evs.push(e)) == Ok::<BugView, DeriveError>(
            BugView { status: to, ..derived_bug(evs)->Ok_0 },
        ),
{
    lemma_derive_appended(evs, e);
}

/// Once the events of finishing a bug are appended to its log, the derived
/// bug is done, holds the synced body if one was read, and has the current
/// change linked if one was found; its title is unchanged.
pub proof fn lemma_done_completes(
    evs: Seq<EventView>,
    added: Seq<EventView>,
    linked_change: Option<Seq<char>>,
    synced_body: Option<Seq<char>>,
)
    requires
        derived_bug(evs) is Ok,
        added.len() == done_events(derived_bug(evs)->Ok_0.status, linked_change, synced_body).len(),
        forall|i: int|
            0 <= i < added.len() ==> #[trigger] added[i].data == done_events(
                derived_bug(evs)->Ok_0.status,
                linked_change,
                synced_body,
            )[i],
    ensures
        derived_bug(evs + added) matches Ok(b) && {
            let before = derived_bug(evs)->Ok_0;
            &&& b.status == Status::Done
            &&& b.title == before.title
            &&& b.body == match synced_body {
                Some(t) => t,
                None => before.body,
            }
            &&& b.changes == match linked_change {
                Some(c) => with_change(before.changes, c),
                None => before.changes,
            }
        },
{
    lemma_derive_extended(evs, added);
    let before = derived_bug(evs)->Ok_0;
    let d = done_events(before.status, linked_change, synced_body);
    let b1 = match linked_change {
        Some(c) => apply_event(before, EventDataView::ChangeLinked { change_id: c }),
        None => before,
    };
    let b2 = match synced_body {
        Some(t) => apply_event(b1, EventDataView::Updated { title: None, body: Some(t) }),
        None => b1,
    };
    let k: int = (if linked_change is Some { 1int } else { 0int }) + (if synced_body is Some {
        1int
    } else {
        0int
    });
    assert(added.len() == k + 1);
    assert(added.take(0) =~= Seq::<EventView>::empty());
    assert(replay(before, added.take(0)) == before);
    if linked_change is Some {
        assert(added.take(1).drop_last() =~= added.take(0));
        assert(added.take(1).last() == added[0]);
        assert(added[0].data == d[0]);
        assert(d[0] == (EventDataView::ChangeLinked { change_id: linked_change->Some_0 }));
        assert(replay(before, added.take(1)) == b1);
    }
    let l: int = if linked_change is Some { 1int } else { 0int };
    assert(replay(before, added.take(l)) == b1);
    if synced_body is Some {
        assert(added.take(l + 1).drop_last() =~= added.take(l));
        assert(added.take(l + 1).last() == added[l]);
        assert(added[l].data == d[l]);
        assert(d[l] == (EventDataView::Updated { title: None, body: Some(synced_body->Some_0) }));
        assert(replay(before, added.take(l + 1)) == b2);
    }
    assert(replay(before, added.take(k)) == b2);
    assert(added.take(k + 1).drop_last() =~= added.take(k));
    assert(added.take(k + 1) =~= added);
    assert(added[k].data == d[k]);
    assert(d[k] == (EventDataView::StatusChanged { from: before.status, to: Status::Done }));
}

/// The commit message of the work on a bug: `Implement <title> (<id>)`.
pub fn commit_message(title: &str, bug_id: &str) -> (r: String)
    ensures
        r@ == "Implement "@ + title@ + " ("@ + bug_id@ + ")"@,
{
    let mut r = "Implement ".to_owned();
    r.append(title);
    r.append(" (");
    r.append(bug_id);
    r.append(")");
    r
}

/// How work on a bug may begin.
#[derive(Debug, Clone, Copy, PartialEq, Eq, Structural)]
pub enum WorkStart {
    /// The bug is approved or in progress.
    Ready,
    /// The bug is still a draft: work goes on, with a warning.
    DraftWarning,
}

/// Whether work may begin on a bug with this status; a done bug is refused.
pub fn work_start(bug_id: &str, current: Status) -> (r: Result<WorkStart, CommandError>)
    ensures
        current == Status::Done ==> (r matches Err(CommandError::AlreadyDone { bug_id: b })
            && b@ == bug_id@),
        current == Status::Draft ==> r == Ok::<WorkStart, CommandError>(WorkStart::DraftWarning),
        (current == Status::Approved || current == Status::InProgress) ==> r == Ok::<
            WorkStart,
            CommandError,
        >(WorkStart::Ready),
{
    match current {
        Status::Approved | Status::InProgress => Ok(WorkStart::Ready),
        Status::Draft => Ok(WorkStart::DraftWarning),
        Status::Done => Err(CommandError::AlreadyDone { bug_id: bug_id.to_owned() }),
    }
}

/// The name of the workspace of a bug: `ws-<id>`.
pub fn workspace_name(bug_id: &str) -> (r: String)
    ensures
        r@ == "ws-"@ + bug_id@,
{
    let mut r = "ws-".to_owned();
    r.append(bug_id);
    r
}

/// Where the workspace of a bug lives: beside the repository,
/// `<repo_root>/../ws-<id>`.
pub fn workspace_path(repo_root: &str, bug_id: &str) -> (r: String)
    ensures
        r@ == repo_root@ + "/../"@ + "ws-"@ + bug_id@,
{
    let mut r = repo_root.to_owned();
    r.append("/../");
    let name = workspace_name(bug_id);
    r.append(name.as_str());
    r
}

/// Whether a directory name is that of a workspace (it starts with `ws-`).
pub fn is_workspace_dir_name(name: &str) -> (r: bool)
    ensures
        r == (name@.len() >= 3 && name@.subrange(0, 3) == "ws-"@),
{
    proof {
        reveal_strlit("ws-");
    }
    let n: usize = name.unicode_len();
    if n < 3 {
        return false;
    }
    str_eq(name.substring_char(0, 3), "ws-")
}

/// The current-context file inside a workspace, relative to it.
pub const CONTEXT_FILE: &'static str = ".docket/current.json";

/// The context file of the workspace of a bug, found from the repository
/// root: `<parent of root>/ws-<id>/.docket/current.json`; none if the root has
/// no parent.
pub fn workspace_context_file(repo_root: &str, bug_id: &str) -> (r: Option<String>)
    ensures
        match parent_path(repo_root@) {
            Some(p) => r matches Some(f) && f@ == joined_path(
                joined_path(p, "ws-"@ + bug_id@),
                CONTEXT_FILE@,
            ),
            None => r is None,
        },
{
    match path_parent(repo_root) {
        Some(p) => {
            let name = workspace_name(bug_id);
            let ws = path_join(p.as_str(), name.as_str());
            Some(path_join(ws.as_str(), CONTEXT_FILE))
        },
        None => None,
    }
}

/// The change id that `jj log -r @ -T change_id` printed: its output
/// trimmed, or none if that is empty.
pub fn change_id_from_output(stdout: &str) -> (r: Option<String>)
    ensures
        trimmed(stdout@).len() == 0 ==> r is None,
        trimmed(stdout@).len() > 0 ==> (r matches Some(c) && c@ == trimmed(stdout@)),
{
    let t = trim(stdout);
    if t.as_str().unicode_len() == 0 {
        None
    } else {
        Some(t)
    }
}

/// Whether the current change has content, by the output of
/// `jj log -r @ -T 'if(empty, "empty", "has_changes")'`: a fresh change is
/// made only then.
pub fn needs_fresh_change(stdout: &str) -> (r: bool)
    ensures
        r == (trimmed(stdout@) == "has_changes"@),
{
    let t = trim(stdout);
    str_eq(t.as_str(), "has_changes")
}

/// What to do about the jj change once a bug is done outside a workspace.
#[derive(Debug, Clone, PartialEq, Eq)]
pub enum FreshChange {
    /// The current change has content: make a fresh one with `jj new`.
    CreateNew,
    /// The current change is empty and ready for the next task.
    AlreadyEmpty,
    /// The check failed with this message, which is reported.
    Warn(String),
    /// The check could not run or failed silently: nothing to do.
    Skip,
}

/// Decides what to do about the jj change from the check
/// `jj log -r @ -T 'if(empty, "empty", "has_changes")'`: whether it ran, whether
/// it succeeded, and what it printed. A failure with an error message is
/// reported (trimmed); one without, or a check that could not run, is passed
/// over.
pub fn fresh_change_step(ran: bool, success: bool, stdout: &str, stderr: &str) -> (r: FreshChange)
    ensures
        ran && success && trimmed(stdout@) == "has_changes"@ ==> r == FreshChange::CreateNew,
        ran && success && trimmed(stdout@) != "has_changes"@ ==> r == FreshChange::AlreadyEmpty,
        ran && !success && stderr@.len() > 0 ==> (r matches FreshChange::Warn(m) && m@ == trimmed(
            stderr@,
        )),
        ran && !success && stderr@.len() == 0 ==> r == FreshChange::Skip,
        !ran ==> r == FreshChange::Skip,
{
    if !ran {
        FreshChange::Skip
    } else if success {
        if needs_fresh_change(stdout) {
            FreshChange::CreateNew
        } else {
            FreshChange::AlreadyEmpty
        }
    } else if stderr.unicode_len() > 0 {
        FreshChange::Warn(trim(stderr))
    } else {
        FreshChange::Skip
    }
}

/// What cleaning up a workspace comes to.
#[derive(Debug, Clone, Copy, PartialEq, Eq, Structural)]
pub enum CleanupStep {
    /// There is no workspace directory: nothing to clean up.
    NothingToClean,
    /// Forget the workspace in jj and remove its directory.
    Forget,
}

/// Decides the cleanup of a workspace: nothing to do where its directory is
/// missing; refused where `jj status` in it succeeded and reports changes in
/// the working copy (`status_text` is its output, `None` where it failed);
/// else the workspace is forgotten and removed.
pub fn cleanup_step(workspace_exists: bool, status_text: Option<&str>) -> (r: Result<
    CleanupStep,
    CommandError,
>)
    ensures
        !workspace_exists ==> r == Ok::<CleanupStep, CommandError>(CleanupStep::NothingToClean),
        workspace_exists && (status_text matches Some(t) && contains_seq(
            t@,
            "Working copy changes:"@,
        )) ==> r matches Err(CommandError::UncommittedChanges),
        workspace_exists && !(status_text matches Some(t) && contains_seq(
            t@,
            "Working copy changes:"@,
        )) ==> r == Ok::<CleanupStep, CommandError>(CleanupStep::Forget),
{
    if !workspace_exists {
        return Ok(CleanupStep::NothingToClean);
    }
    match status_text {
        Some(t) => {
            if has_uncommitted_changes(t) {
                Err(CommandError::UncommittedChanges)
            } else {
                Ok(CleanupStep::Forget)
            }
        },
        None => Ok(CleanupStep::Forget),
    }
}

/// `jj status` reports changes in the working copy.
pub fn has_uncommitted_changes(status_text: &str) -> (r: bool)
    ensures
        r == contains_seq(status_text@, "Working copy changes:"@),
{
    contains_str(status_text, "Working copy changes:")
}

/// The priority a new bug gets from a word: the one it names, or medium, in
/// which case the flag says that the word named none.
pub fn priority_or_medium(word: &str) -> (r: (Priority, bool))
    ensures
        match priority_from_lowercase(unicode_lowercase(word@)) {
            Some(p) => r == (p, false),
            None => r == (Priority::Medium, true),
        },
{
    match Priority::from_str(word) {
        Ok(p) => (p, false),
        Err(_) => (Priority::Medium, true),
    }
}

/// Whether to ask for the priority: only when asked to prompt and the word
/// given is the default, `medium`.
pub fn should_prompt_priority(interactive: bool, word: &str) -> (r: bool)
    ensures
        r == (interactive && word@ == "medium"@),
{
    interactive && str_eq(word, "medium")
}


/// A JSON value of `serde_json`.
#[verifier::external_type_specification]
#[verifier::external_body]
pub struct ExJsonValue(serde_json::Value);

/// A parse error of `serde_json`.
#[verifier::external_type_specification]
#[verifier::external_body]
pub struct ExJsonError(serde_json::Error);

/// Whether `serde_json::from_str::<serde_json::Value>` accepts this text as
/// JSON.
pub uninterp spec fn json_accepts(content: Seq<char>) -> bool;

/// Parses JSON text with `serde_json::from_str`. Whether it succeeds is named
/// `json_accepts` of the text: the parse depends on the text alone. The value
/// is opaque here, so no clause says what it holds; the members are read by
/// `string_member_of`.
#[verifier::external_body]
fn parse_json(content: &str) -> (r: Result<serde_json::Value, serde_json::Error>)
    ensures
        r is Ok <==> json_accepts(content@),
{
    serde_json::from_str::<serde_json::Value>(content)
}

/// The string member `key` of the JSON object that `serde_json` reads from
/// this text: `None` where the text is no JSON, is no object, lacks the member
/// or holds no string there.
pub uninterp spec fn json_string_member(content: Seq<char>, key: Seq<char>) -> Option<Seq<char>>;

/// Reads the string member `key` of JSON text: `serde_json::from_str` into a
/// `serde_json::Value`, then `Value::get` and `Value::as_str`. The result is
/// named `json_string_member` of the text and the key; it depends on them
/// alone.
#[verifier::external_body]
fn string_member_of(content: &str, key: &str) -> (r: Option<String>)
    ensures
        opt_view(r) == json_string_member(content@, key@),
{
    match serde_json::from_str::<serde_json::Value>(content) {
        Ok(v) => match v.get(key) {
            Some(m) => match m.as_str() {
                Some(s) => Some(s.to_owned()),
                None => None,
            },
            None => None,
        },
        Err(_) => None,
    }
}

/// The text of a `serde_json` error, by its `Display`; nothing is promised of
/// it.
#[verifier::external_body]
fn json_error_text(e: &serde_json::Error) -> (r: String) {
    e.to_string()
}

/// The string members of the context file that the workflow reads.
#[derive(Debug, Clone)]
pub struct ContextFields {
    pub bug_id: Option<String>,
    pub title: Option<String>,
    pub body: Option<String>,
}

/// Why a context file could not be read.
#[derive(Debug, Clone)]
pub enum ContextError {
    /// It is no JSON; the text is the parser's.
    InvalidJson(String),
}

/// The text that `serde_json::to_string_pretty` gives for a JSON object
/// built by inserting these string members, in order.
pub uninterp spec fn pretty_json_object(members: Seq<(Seq<char>, Seq<char>)>) -> Seq<char>;

/// The members as plain values.
pub open spec fn member_views(members: Seq<(String, String)>) -> Seq<(Seq<char>, Seq<char>)> {
    members.map_values(|m: (String, String)| (m.0@, m.1@))
}

/// Writes a JSON object of string members with `serde_json::to_string_pretty`,
/// after inserting each member into a `serde_json::Map`. The text written is
/// named `pretty_json_object` of the members. Writing succeeds: serde_json
/// fails only where a `Serialize` impl fails or a map has keys that are no
/// strings, and a map of string keys and string values into a `Vec` has
/// neither.
#[verifier::external_body]
fn write_json_object(members: &Vec<(String, String)>) -> (r: Result<String, serde_json::Error>)
    ensures
        r is Ok,
        r matches Ok(t) ==> t@ == pretty_json_object(member_views(members@)),
{
    let mut map = serde_json::Map::new();
    for (k, v) in members.iter() {
        map.insert(k.clone(), serde_json::Value::String(v.clone()));
    }
    serde_json::to_string_pretty(&serde_json::Value::Object(map))
}

/// The members of the context file written into a workspace for a bug.
pub open spec fn context_members(b: BugView) -> Seq<(Seq<char>, Seq<char>)> {
    seq![
        ("bug_id"@, b.id),
        ("title"@, b.title),
        ("status"@, status_name(b.status)),
        ("priority"@, priority_name(b.priority)),
        ("body"@, b.body),
    ]
}

/// The context file of a bug has five members, under five different keys, and
/// the member under each key holds the bug's own value: `bug_id` its id,
/// `title` its title, `status` the shown name of its status, `priority` the
/// shown name of its priority, `body` its body.
pub proof fn lemma_context_members_are_the_bugs(b: BugView)
    ensures
        context_members(b).len() == 5,
        forall|i: int, j: int|
            0 <= i < j < 5 ==> context_members(b)[i].0 != context_members(b)[j].0,
        context_members(b).contains(("bug_id"@, b.id)),
        context_members(b).contains(("title"@, b.title)),
        context_members(b).contains(("status"@, status_name(b.status))),
        context_members(b).contains(("priority"@, priority_name(b.priority))),
        context_members(b).contains(("body"@, b.body)),
{
    reveal_strlit("bug_id");
    reveal_strlit("title");
    reveal_strlit("status");
    reveal_strlit("priority");
    reveal_strlit("body");
    let m = context_members(b);
    assert(m[0] == ("bug_id"@, b.id));
    assert(m[1] == ("title"@, b.title));
    assert(m[2] == ("status"@, status_name(b.status)));
    assert(m[3] == ("priority"@, priority_name(b.priority)));
    assert(m[4] == ("body"@, b.body));
    assert("bug_id"@[0] != "title"@[0]);
    assert("bug_id"@[0] != "status"@[0]);
    assert("bug_id"@[1] != "priority"@[1]);
    assert("bug_id"@[0] != "body"@[0] || "bug_id"@[1] != "body"@[1]);
    assert("title"@[0] != "status"@[0]);
    assert("title"@[0] != "priority"@[0]);
    assert("title"@[0] != "body"@[0]);
    assert("status"@[0] != "priority"@[0]);
    assert("status"@[0] != "body"@[0]);
    assert("priority"@[0] != "body"@[0]);
}

/// The text of the context file written into a workspace for a bug: a JSON
/// object of its id, title, status, priority and body.
pub fn context_json(bug: &Bug) -> (r: String)
    ensures
        r@ == pretty_json_object(context_members(bug@)),
{
    let mut members: Vec<(String, String)> = Vec::new();
    members.push(("bug_id".to_owned(), bug.id().to_owned()));
    members.push(("title".to_owned(), bug.title().to_owned()));
    members.push(("status".to_owned(), bug.status().to_string()));
    members.push(("priority".to_owned(), bug.priority().to_string()));
    members.push(("body".to_owned(), bug.body.clone()));
    assert(member_views(members@) =~= context_members(bug@));
    match write_json_object(&members) {
        Ok(t) => t,
        Err(_) => {
            proof {
                assert(false);
            }
            String::new()
        },
    }
}

impl ContextFields {
    /// Reads the `bug_id`, `title` and `body` string members of a context
    /// file; it fails exactly when `serde_json` does not accept the text as
    /// JSON.
    pub fn read(content: &str) -> (r: Result<ContextFields, ContextError>)
        ensures
            r is Ok <==> json_accepts(content@),
            r matches Ok(f) ==> opt_view(f.bug_id) == json_string_member(content@, "bug_id"@)
                && opt_view(f.title) == json_string_member(content@, "title"@) && opt_view(f.body)
                == json_string_member(content@, "body"@),
    {
        match parse_json(content) {
            Ok(_) => Ok(
                ContextFields {
                    bug_id: string_member_of(content, "bug_id"),
                    title: string_member_of(content, "title"),
                    body: string_member_of(content, "body"),
                },
            ),
            Err(e) => Err(ContextError::InvalidJson(json_error_text(&e))),
        }
    }
}

/// What a workspace tells about the bug worked on in it.
#[derive(Debug, Clone)]
pub struct WorkspaceContext {
    pub bug_id: String,
    pub title: String,
    pub body: String,
}

/// The text of an optional string, or the empty text.
pub open spec fn or_empty(o: Option<Seq<char>>) -> Seq<char> {
    match o {
        Some(s) => s,
        None => Seq::empty(),
    }
}

fn string_or_empty(o: &Option<String>) -> (r: String)
    ensures
        r@ == or_empty(opt_view(*o)),
{
    match o {
        Some(s) => s.clone(),
        None => String::new(),
    }
}

/// The members match the bug: `bug_id` is a string equal to `bug_id`.
pub open spec fn is_for_bug(fields_bug_id: Option<Seq<char>>, bug_id: Seq<char>) -> bool {
    fields_bug_id == Some(bug_id)
}

fn fields_for_bug(fields: &ContextFields, bug_id: &str) -> (r: bool)
    ensures
        r == is_for_bug(opt_view(fields.bug_id), bug_id@),
{
    match &fields.bug_id {
        Some(b) => str_eq(b.as_str(), bug_id),
        None => false,
    }
}

impl WorkspaceContext {
    /// The context of the bug `bug_id` from the members of a context file:
    /// none if the file is about another bug; a missing title or body reads
    /// as empty.
    pub fn from_fields(fields: &ContextFields, bug_id: &str) -> (r: Option<WorkspaceContext>)
        ensures
            is_for_bug(opt_view(fields.bug_id), bug_id@) ==> (r matches Some(c) && c.bug_id@
                == bug_id@ && c.title@ == or_empty(opt_view(fields.title)) && c.body@ == or_empty(
                opt_view(fields.body),
            )),
            !is_for_bug(opt_view(fields.bug_id), bug_id@) ==> r is None,
    {
        if fields_for_bug(fields, bug_id) {
            Some(
                WorkspaceContext {
                    bug_id: bug_id.to_owned(),
                    title: string_or_empty(&fields.title),
                    body: string_or_empty(&fields.body),
                },
            )
        } else {
            None
        }
    }
}

/// The body to sync from the members of a context file: its `body`, if the
/// file is about the bug `bug_id` and has one.
pub fn synced_body(fields: &ContextFields, bug_id: &str) -> (r: Option<String>)
    ensures
        is_for_bug(opt_view(fields.bug_id), bug_id@) ==> opt_view(r) == opt_view(fields.body),
        !is_for_bug(opt_view(fields.bug_id), bug_id@) ==> r is None,
{
    if fields_for_bug(fields, bug_id) {
        fields.body.clone()
    } else {
        None
    }
}

} // verus!
