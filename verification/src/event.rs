//! The event log of a bug, and the bug that replaying it gives.
use vstd::prelude::*;

use crate::text::{trim, trimmed};
use crate::bug::{
    string_views, utc_now, with_change, Bug, BugMetadata, BugView, Priority,
    Status, Timestamp,
};

verus! {

/// What happened to a bug.
#[derive(Debug, Clone)]
#[allow(inconsistent_fields)]
pub enum EventData {
    Created { title: String, priority: Priority, body: String },
    StatusChanged { from: Status, to: Status },
    Updated { title: Option<String>, body: Option<String> },
    ChangeLinked { change_id: String },
}

/// One entry of a bug's event log.
#[derive(Debug, Clone)]
pub struct Event {
    pub id: String,
    pub bug_id: String,
    pub timestamp: Timestamp,
    pub data: EventData,
    pub actor: Option<String>,
}

/// `EventData` as plain values.
#[allow(inconsistent_fields)]
pub enum EventDataView {
    Created { title: Seq<char>, priority: Priority, body: Seq<char> },
    StatusChanged { from: Status, to: Status },
    Updated { title: Option<Seq<char>>, body: Option<Seq<char>> },
    ChangeLinked { change_id: Seq<char> },
}

/// `Event` as plain values.
pub struct EventView {
    pub id: Seq<char>,
    pub bug_id: Seq<char>,
    pub timestamp: Timestamp,
    pub data: EventDataView,
    pub actor: Option<Seq<char>>,
}

/// The characters of an optional string.
pub open spec fn opt_view(o: Option<String>) -> Option<Seq<char>> {
    match o {
        Some(s) => Some(s@),
        None => None,
    }
}

impl View for EventData {
    type V = EventDataView;

    open spec fn view(&self) -> EventDataView {
        match self {
            EventData::Created { title, priority, body } => EventDataView::Created {
                title: title@,
                priority: *priority,
                body: body@,
            },
            EventData::StatusChanged { from, to } => EventDataView::StatusChanged {
                from: *from,
                to: *to,
            },
            EventData::Updated { title, body } => EventDataView::Updated {
                title: opt_view(*title),
                body: opt_view(*body),
            },
            EventData::ChangeLinked { change_id } => EventDataView::ChangeLinked {
                change_id: change_id@,
            },
        }
    }
}

impl View for Event {
    type V = EventView;

    open spec fn view(&self) -> EventView {
        EventView {
            id: self.id@,
            bug_id: self.bug_id@,
            timestamp: self.timestamp,
            data: self.data@,
            actor: opt_view(self.actor),
        }
    }
}

/// The events of a log as plain values.
pub open spec fn event_views(s: Seq<Event>) -> Seq<EventView> {
    s.map_values(|e: Event| e@)
}

/// A fresh event id from `uuid::Uuid::new_v4`, in its hyphenated form, which
/// is 36 characters long; the id itself is random. (`new_v4` panics when the
/// system cannot supply random bytes.)
#[verifier::external_body]
fn new_event_id() -> (r: String)
    ensures
        r@.len() == 36,
{
    uuid::Uuid::new_v4().to_string()
}

/// The name of this host from `whoami::fallible::hostname`, or `None` where
/// the system does not give one. Nothing is promised of it.
#[verifier::external_body]
fn host_name() -> (r: Option<String>) {
    whoami::fallible::hostname().ok()
}

impl Event {
    /// An event about `bug_id`, with a fresh id, the current time and this
    /// host as its actor.
    pub fn new(bug_id: String, data: EventData) -> (r: Event)
        ensures
            r.bug_id == bug_id,
            r.data == data,
            r@.id.len() == 36,
            r.timestamp.secs >= 0,
            r.timestamp.nanos < 1_000_000_000,
    {
        let id = new_event_id();
        let timestamp = utc_now();
        let actor = host_name();
        Event { id, bug_id, timestamp, data, actor }
    }

    /// The event that opens a bug's log.
    pub fn created(bug_id: String, title: String, priority: Priority, body: String) -> (r: Event)
        ensures
            r@.bug_id == bug_id@,
            r@.data == (EventDataView::Created { title: title@, priority, body: body@ }),
            r@.id.len() == 36,
            r.timestamp.secs >= 0,
            r.timestamp.nanos < 1_000_000_000,
    {
        Self::new(bug_id, EventData::Created { title, priority, body })
    }

    /// A change of status from `from` to `to`.
    pub fn status_changed(bug_id: String, from: Status, to: Status) -> (r: Event)
        ensures
            r@.bug_id == bug_id@,
            r@.data == (EventDataView::StatusChanged { from, to }),
            r@.id.len() == 36,
            r.timestamp.secs >= 0,
            r.timestamp.nanos < 1_000_000_000,
    {
        Self::new(bug_id, EventData::StatusChanged { from, to })
    }

    /// A new title, a new body, or both.
    pub fn updated(bug_id: String, title: Option<String>, body: Option<String>) -> (r: Event)
        ensures
            r@.bug_id == bug_id@,
            r@.data == (EventDataView::Updated { title: opt_view(title), body: opt_view(body) }),
            r@.id.len() == 36,
            r.timestamp.secs >= 0,
            r.timestamp.nanos < 1_000_000_000,
    {
        Self::new(bug_id, EventData::Updated { title, body })
    }

    /// A change linked to the bug.
    pub fn change_linked(bug_id: String, change_id: String) -> (r: Event)
        ensures
            r@.bug_id == bug_id@,
            r@.data == (EventDataView::ChangeLinked { change_id: change_id@ }),
            r@.id.len() == 36,
            r.timestamp.secs >= 0,
            r.timestamp.nanos < 1_000_000_000,
    {
        Self::new(bug_id, EventData::ChangeLinked { change_id })
    }
}


/// Why no bug can be derived from a log.
#[derive(Debug, Clone, Copy, PartialEq, Eq, Structural)]
pub enum DeriveError {
    /// The log is empty.
    NoEvents,
    /// The log holds no `Created` event.
    NoCreatedEvent,
}

impl DeriveError {
    /// The text shown for this error.
    pub fn message(&self) -> (r: &'static str)
        ensures
            r@ == match self {
                DeriveError::NoEvents => "no events to derive bug from"@,
                DeriveError::NoCreatedEvent => "no Created event found"@,
            },
    {
        match self {
            DeriveError::NoEvents => "no events to derive bug from",
            DeriveError::NoCreatedEvent => "no Created event found",
        }
    }
}

/// The event opens a bug.
pub open spec fn is_created(e: EventView) -> bool {
    e.data is Created
}

impl EventData {
    /// Whether this is the event that opens a bug.
    pub fn is_created(&self) -> (r: bool)
        ensures
            r == (self@ is Created),
    {
        match self {
            EventData::Created { .. } => true,
            _ => false,
        }
    }
}

/// The index of the first `Created` event of the log, if any.
pub open spec fn first_created(evs: Seq<EventView>) -> Option<int>
    decreases evs.len(),
{
    if evs.len() == 0 {
        None
    } else {
        match first_created(evs.drop_last()) {
            Some(i) => Some(i),
            None => if is_created(evs.last()) {
                Some(evs.len() - 1)
            } else {
                None
            },
        }
    }
}

/// The bug that a `Created` event opens: a draft with no linked changes.
pub open spec fn opened_bug(e: EventView) -> BugView {
    BugView {
        id: e.bug_id,
        title: e.data->Created_title,
        status: Status::Draft,
        priority: e.data->Created_priority,
        created: e.timestamp,
        changes: Seq::empty(),
        body: e.data->Created_body,
    }
}

/// The bug after one more event.
pub open spec fn apply_event(b: BugView, d: EventDataView) -> BugView {
    match d {
        EventDataView::Created { .. } => b,
        EventDataView::StatusChanged { to, .. } => BugView { status: to, ..b },
        EventDataView::Updated { title, body } => BugView {
            title: match title {
                Some(t) => t,
                None => b.title,
            },
            body: match body {
                Some(t) => t,
                None => b.body,
            },
            ..b
        },
        EventDataView::ChangeLinked { change_id } => BugView {
            changes: with_change(b.changes, change_id),
            ..b
        },
    }
}

/// The bug after the events of `evs`, in order, starting from `b`.
pub open spec fn replay(b: BugView, evs: Seq<EventView>) -> BugView
    decreases evs.len(),
{
    if evs.len() == 0 {
        b
    } else {
        apply_event(replay(b, evs.drop_last()), evs.last().data)
    }
}

/// The bug that a log describes: the first `Created` event opens it, and every
/// event of the log, in order, is applied to it.
pub open spec fn derived_bug(evs: Seq<EventView>) -> Result<BugView, DeriveError> {
    if evs.len() == 0 {
        Err(DeriveError::NoEvents)
    } else {
        match first_created(evs) {
            None => Err(DeriveError::NoCreatedEvent),
            Some(i) => Ok(replay(opened_bug(evs[i]), evs)),
        }
    }
}

proof fn lemma_first_created(evs: Seq<EventView>)
    ensures
        first_created(evs) matches Some(i) ==> 0 <= i < evs.len() && is_created(evs[i]) && forall|
            k: int,
        | 0 <= k < i ==> !is_created(#[trigger] evs[k]),
        first_created(evs) is None ==> forall|k: int|
            0 <= k < evs.len() ==> !is_created(#[trigger] evs[k]),
    decreases evs.len(),
{
    if evs.len() > 0 {
        let p = evs.drop_last();
        lemma_first_created(p);
        match first_created(p) {
            Some(i) => {
                assert(evs[i] == p[i]);
                assert forall|k: int| 0 <= k < i implies !is_created(#[trigger] evs[k]) by {
                    assert(evs[k] == p[k]);
                }
            },
            None => {
                assert forall|k: int| 0 <= k < evs.len() - 1 implies !is_created(
                    #[trigger] evs[k],
                ) by {
                    assert(evs[k] == p[k]);
                }
            },
        }
    }
}

/// Opens the bug of a `Created` event.
fn open_bug(e: &Event) -> (r: Bug)
    requires
        e.data is Created,
    ensures
        r@ == opened_bug(e@),
{
    match &e.data {
        EventData::Created { title, priority, body } => {
            let r = Bug::from_parts(
                BugMetadata {
                    id: e.bug_id.clone(),
                    title: title.clone(),
                    status: Status::Draft,
                    priority: *priority,
                    created: e.timestamp,
                    changes: Vec::new(),
                },
                body.clone(),
            );
            assert(string_views(r.metadata.changes@) =~= Seq::empty());
            r
        },
        _ => {
            proof {
                assert(false);
            }
            Bug::from_parts(
                BugMetadata {
                    id: e.bug_id.clone(),
                    title: e.bug_id.clone(),
                    status: Status::Draft,
                    priority: Priority::Medium,
                    created: e.timestamp,
                    changes: Vec::new(),
                },
                e.bug_id.clone(),
            )
        },
    }
}

/// Applies one event to a bug.
fn apply_to(bug: &mut Bug, data: &EventData)
    ensures
        final(bug)@ == apply_event(old(bug)@, data@),
{
    match data {
        EventData::Created { .. } => {},
        EventData::StatusChanged { to, .. } => {
            bug.set_status(*to);
        },
        EventData::Updated { title, body } => {
            match title {
                Some(t) => {
                    bug.metadata.title = t.clone();
                },
                None => {},
            }
            match body {
                Some(b) => {
                    bug.body = b.clone();
                },
                None => {},
            }
        },
        EventData::ChangeLinked { change_id } => {
            bug.add_change(change_id.clone());
        },
    }
}

/// Derives the current state of a bug by replaying its log.
pub fn derive_bug(events: &[Event]) -> (r: Result<Bug, DeriveError>)
    ensures
        match derived_bug(event_views(events@)) {
            Ok(b) => r matches Ok(bug) && bug@ == b,
            Err(e) => r == Err::<Bug, DeriveError>(e),
        },
{
    let ghost evs = event_views(events@);
    if events.len() == 0 {
        return Err(DeriveError::NoEvents);
    }
    let mut i: usize = 0;
    while i < events.len() && !events[i].data.is_created()
        invariant
            i <= events.len(),
            evs == event_views(events@),
            forall|k: int| 0 <= k < i ==> !is_created(#[trigger] evs[k]),
        decreases events.len() - i,
    {
        assert(evs[i as int] == events@[i as int]@);
        i = i + 1;
    }
    proof {
        lemma_first_created(evs);
        if i < events.len() {
            assert(evs[i as int] == events@[i as int]@);
        }
    }
    if i == events.len() {
        return Err(DeriveError::NoCreatedEvent);
    }
    assert(first_created(evs) == Some(i as int));
    let mut bug = open_bug(&events[i]);
    let ghost start = bug@;
    let mut j: usize = 0;
    while j < events.len()
        invariant
            j <= events.len(),
            evs == event_views(events@),
            bug@ == replay(start, evs.take(j as int)),
        decreases events.len() - j,
    {
        apply_to(&mut bug, &events[j].data);
        proof {
            assert(evs.take(j + 1).drop_last() =~= evs.take(j as int));
            assert(evs.take(j + 1).last() == events@[j as int]@);
        }
        j = j + 1;
    }
    assert(evs.take(events.len() as int) =~= evs);
    Ok(bug)
}


/// The target of the last status change of `evs`, or `s0` if there is none.
pub open spec fn status_after(s0: Status, evs: Seq<EventView>) -> Status
    decreases evs.len(),
{
    if evs.len() == 0 {
        s0
    } else {
        match evs.last().data {
            EventDataView::StatusChanged { to, .. } => to,
            _ => status_after(s0, evs.drop_last()),
        }
    }
}

/// Some event of `evs` links the change `c`.
pub open spec fn links_change(evs: Seq<EventView>, c: Seq<char>) -> bool {
    exists|i: int|
        0 <= i < evs.len() && #[trigger] evs[i].data == (EventDataView::ChangeLinked {
            change_id: c,
        })
}

proof fn lemma_replay_fields(start: BugView, evs: Seq<EventView>)
    requires
        start.changes.no_duplicates(),
    ensures
        replay(start, evs).id == start.id,
        replay(start, evs).priority == start.priority,
        replay(start, evs).created == start.created,
        replay(start, evs).status == status_after(start.status, evs),
        replay(start, evs).changes.no_duplicates(),
        forall|c: Seq<char>|
            #[trigger] replay(start, evs).changes.contains(c) <==> start.changes.contains(c)
                || links_change(evs, c),
    decreases evs.len(),
{
    if evs.len() > 0 {
        let p = evs.drop_last();
        lemma_replay_fields(start, p);
        let b = replay(start, p);
        let e = evs.last();
        assert forall|c: Seq<char>| links_change(p, c) implies links_change(evs, c) by {
            let i: int = choose|i: int|
                0 <= i < p.len() && #[trigger] p[i].data == (EventDataView::ChangeLinked {
                    change_id: c,
                });
            assert(evs[i] == p[i]);
        }
        assert forall|c: Seq<char>| #[trigger]
            links_change(evs, c) && !links_change(p, c) implies e.data == (
        EventDataView::ChangeLinked { change_id: c }) by {
            let i: int = choose|i: int|
                0 <= i < evs.len() && #[trigger] evs[i].data == (EventDataView::ChangeLinked {
                    change_id: c,
                });
            if i < evs.len() - 1 {
                assert(evs[i] == p[i]);
            }
        }
        match e.data {
            EventDataView::ChangeLinked { change_id } => {
                assert(evs[evs.len() - 1].data == (EventDataView::ChangeLinked { change_id }));
                assert(links_change(evs, change_id));
                if !b.changes.contains(change_id) {
                    let n = b.changes.push(change_id);
                    assert forall|i: int, j: int|
                        0 <= i < n.len() && 0 <= j < n.len() && i != j implies n[i] != n[j] by {
                        if i == n.len() - 1 {
                            assert(b.changes.contains(n[j]));
                        } else if j == n.len() - 1 {
                            assert(b.changes.contains(n[i]));
                        } else {
                        }
                    }
                    assert forall|c: Seq<char>| #[trigger] n.contains(c) <==> b.changes.contains(c)
                        || c == change_id by {
                        if n.contains(c) && c != change_id {
                            let k: int = choose|k: int| 0 <= k < n.len() && n[k] == c;
                            assert(b.changes[k] == c);
                        }
                        if b.changes.contains(c) {
                            let k: int = choose|k: int| 0 <= k < b.changes.len() && b.changes[k] == c;
                            assert(n[k] == c);
                        }
                        if c == change_id {
                            assert(n[n.len() - 1] == c);
                        }
                    }
                }
            },
            _ => {
                assert forall|c: Seq<char>| links_change(evs, c) implies links_change(p, c) by {}
            },
        }
    }
}

/// What a derived bug holds: the id, priority and creation time of the first
/// `Created` event; the target of the last status change (a draft if there is
/// none); and each linked change exactly once.
pub proof fn lemma_derived_bug_fields(evs: Seq<EventView>)
    requires
        derived_bug(evs) is Ok,
    ensures
        ({
            let b = derived_bug(evs)->Ok_0;
            let c = evs[first_created(evs)->Some_0];
            &&& b.id == c.bug_id
            &&& b.priority == c.data->Created_priority
            &&& b.created == c.timestamp
            &&& b.status == status_after(Status::Draft, evs)
            &&& b.changes.no_duplicates()
            &&& forall|x: Seq<char>| #[trigger] b.changes.contains(x) <==> links_change(evs, x)
        }),
{
    let c = evs[first_created(evs)->Some_0];
    lemma_replay_fields(opened_bug(c), evs);
}

/// Appending an event to a log that already describes a bug changes the
/// derived bug exactly as applying that event to it.
pub proof fn lemma_derive_appended(evs: Seq<EventView>, e: EventView)
    requires
        derived_bug(evs) is Ok,
    ensures
        derived_bug(evs.push(e)) == Ok::<BugView, DeriveError>(
            apply_event(derived_bug(evs)->Ok_0, e.data),
        ),
{
    let n = evs.push(e);
    lemma_first_created(evs);
    assert(n.drop_last() =~= evs);
    assert(first_created(n) == first_created(evs));
    let i: int = first_created(evs)->Some_0;
    assert(n[i] == evs[i]);
}

/// Replaying two logs one after the other is replaying them joined.
pub proof fn lemma_replay_concat(b: BugView, first: Seq<EventView>, then: Seq<EventView>)
    ensures
        replay(b, first + then) == replay(replay(b, first), then),
    decreases then.len(),
{
    if then.len() == 0 {
        assert(first + then =~= first);
    } else {
        lemma_replay_concat(b, first, then.drop_last());
        assert((first + then).drop_last() =~= first + then.drop_last());
        assert((first + then).last() == then.last());
    }
}

/// Appending events to a log that already describes a bug changes the derived
/// bug exactly as replaying those events on it.
pub proof fn lemma_derive_extended(evs: Seq<EventView>, added: Seq<EventView>)
    requires
        derived_bug(evs) is Ok,
    ensures
        derived_bug(evs + added) == Ok::<BugView, DeriveError>(
            replay(derived_bug(evs)->Ok_0, added),
        ),
{
    lemma_first_created(evs);
    let i: int = first_created(evs)->Some_0;
    let n = evs + added;
    lemma_first_created(n);
    if first_created(n) != Some(i) {
        match first_created(n) {
            Some(j) => {
                if j < i {
                    assert(n[j] == evs[j]);
                } else {
                    assert(n[i] == evs[i]);
                }
            },
            None => {
                assert(n[i] == evs[i]);
            },
        }
    }
    assert(n[i] == evs[i]);
    lemma_replay_concat(opened_bug(evs[i]), evs, added);
}

/// What appending one event to a log that describes a bug does to the bug it
/// derives: the id, priority and creation time never change; a `Created`
/// event changes nothing; a status change sets the status alone; an update
/// sets the title and the body it carries and keeps those it does not carry;
/// a link adds the change at the end unless it is linked already, keeping the
/// list free of repeats.
pub proof fn lemma_appended_event(evs: Seq<EventView>, e: EventView)
    requires
        derived_bug(evs) is Ok,
    ensures
        derived_bug(evs.push(e)) is Ok,
        ({
            let b = derived_bug(evs)->Ok_0;
            let a = derived_bug(evs.push(e))->Ok_0;
            &&& a.id == b.id
            &&& a.priority == b.priority
            &&& a.created == b.created
            &&& a.changes.no_duplicates()
            &&& match e.data {
                EventDataView::Created { .. } => a == b,
                EventDataView::StatusChanged { to, .. } => {
                    &&& a.status == to
                    &&& a.title == b.title
                    &&& a.body == b.body
                    &&& a.changes == b.changes
                },
                EventDataView::Updated { title, body } => {
                    &&& a.status == b.status
                    &&& a.changes == b.changes
                    &&& (title matches Some(t) ==> a.title == t)
                    &&& (title is None ==> a.title == b.title)
                    &&& (body matches Some(t) ==> a.body == t)
                    &&& (body is None ==> a.body == b.body)
                },
                EventDataView::ChangeLinked { change_id } => {
                    &&& a.status == b.status
                    &&& a.title == b.title
                    &&& a.body == b.body
                    &&& a.changes.contains(change_id)
                    &&& (b.changes.contains(change_id) ==> a.changes == b.changes)
                    &&& (!b.changes.contains(change_id) ==> a.changes == b.changes.push(
                        change_id,
                    ))
                },
            }
        }),
{
    lemma_derive_appended(evs, e);
    lemma_derived_bug_fields(evs);
    lemma_derived_bug_fields(evs.push(e));
    let b = derived_bug(evs)->Ok_0;
    match e.data {
        EventDataView::ChangeLinked { change_id } => {
            if !b.changes.contains(change_id) {
                assert(b.changes.push(change_id)[b.changes.len() as int] == change_id);
            }
        },
        _ => {},
    }
}

/// Linking a change that is already linked leaves the derived bug as it was.
pub proof fn lemma_relink_is_idempotent(evs: Seq<EventView>, e: EventView)
    requires
        derived_bug(evs) is Ok,
        e.data is ChangeLinked,
        links_change(evs, e.data->change_id),
    ensures
        derived_bug(evs.push(e)) == derived_bug(evs),
{
    lemma_derive_appended(evs, e);
    lemma_derived_bug_fields(evs);
}


/// A line of a log file that holds only white space, and so no event.
pub fn is_blank_line(line: &str) -> (r: bool)
    ensures
        r == (trimmed(line@).len() == 0),
{
    let t = trim(line);
    t.as_str().unicode_len() == 0
}

} // verus!
