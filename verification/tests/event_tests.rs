use docket::bug::{Priority, Status, Timestamp};
use docket::event::{derive_bug, is_blank_line, DeriveError, Event, EventData};
use docket::order::{sort_bugs_newest_first, sort_events};

fn ev(id: &str, secs: i64, data: EventData) -> Event {
    Event {
        id: id.to_string(),
        bug_id: "ab12".to_string(),
        timestamp: Timestamp { secs, nanos: 0 },
        data,
        actor: None,
    }
}

fn created(secs: i64) -> Event {
    ev(
        "c",
        secs,
        EventData::Created { title: "T".to_string(), priority: Priority::High, body: "B".to_string() },
    )
}

#[test]
fn derive_from_empty_log_fails() {
    assert_eq!(derive_bug(&[]).unwrap_err(), DeriveError::NoEvents);
    assert_eq!(DeriveError::NoEvents.message(), "no events to derive bug from");
}

#[test]
fn derive_without_created_fails() {
    let log = vec![ev(
        "s",
        1,
        EventData::StatusChanged { from: Status::Draft, to: Status::Approved },
    )];
    assert_eq!(derive_bug(&log).unwrap_err(), DeriveError::NoCreatedEvent);
    assert_eq!(DeriveError::NoCreatedEvent.message(), "no Created event found");
}

#[test]
fn derive_opens_a_draft() {
    let bug = derive_bug(&[created(5)]).unwrap();
    assert_eq!(bug.id(), "ab12");
    assert_eq!(bug.title(), "T");
    assert_eq!(bug.body, "B");
    assert_eq!(*bug.status(), Status::Draft);
    assert_eq!(*bug.priority(), Priority::High);
    assert_eq!(bug.metadata.created, Timestamp { secs: 5, nanos: 0 });
    assert!(bug.changes().is_empty());
}

#[test]
fn derive_replays_every_event_in_order() {
    let log = vec![
        created(1),
        ev("a", 2, EventData::StatusChanged { from: Status::Draft, to: Status::Approved }),
        ev("b", 3, EventData::Updated { title: Some("New".to_string()), body: None }),
        ev("c", 4, EventData::ChangeLinked { change_id: "k1".to_string() }),
        ev("d", 5, EventData::ChangeLinked { change_id: "k2".to_string() }),
        ev("e", 6, EventData::ChangeLinked { change_id: "k1".to_string() }),
        ev("f", 7, EventData::Updated { title: None, body: Some("Body 2".to_string()) }),
        ev("g", 8, EventData::StatusChanged { from: Status::Approved, to: Status::InProgress }),
    ];
    let bug = derive_bug(&log).unwrap();
    assert_eq!(bug.title(), "New");
    assert_eq!(bug.body, "Body 2");
    assert_eq!(*bug.status(), Status::InProgress);
    assert_eq!(bug.changes(), &["k1".to_string(), "k2".to_string()]);
}

#[test]
fn derive_applies_events_before_the_created_one() {
    let log = vec![
        ev("a", 1, EventData::StatusChanged { from: Status::Draft, to: Status::Done }),
        created(2),
    ];
    let bug = derive_bug(&log).unwrap();
    assert_eq!(*bug.status(), Status::Done);
}

#[test]
fn derive_uses_the_first_created_event() {
    let second = ev(
        "z",
        9,
        EventData::Created { title: "Other".to_string(), priority: Priority::Low, body: "".to_string() },
    );
    let bug = derive_bug(&[created(1), second]).unwrap();
    assert_eq!(bug.title(), "T");
    assert_eq!(*bug.priority(), Priority::High);
}

#[test]
fn appending_an_event_applies_it() {
    let mut log = vec![created(1)];
    let before = derive_bug(&log).unwrap();
    log.push(ev("x", 2, EventData::ChangeLinked { change_id: "zz".to_string() }));
    let after = derive_bug(&log).unwrap();
    assert_eq!(after.changes(), &["zz".to_string()]);
    assert_eq!(after.title(), before.title());
}

#[test]
fn event_constructors() {
    let e = Event::status_changed("ab12".to_string(), Status::Draft, Status::Approved);
    assert_eq!(e.bug_id, "ab12");
    assert_eq!(e.id.len(), 36);
    assert_eq!(e.id.matches('-').count(), 4);
    assert!(matches!(e.data, EventData::StatusChanged { from: Status::Draft, to: Status::Approved }));
    let e2 = Event::change_linked("ab12".to_string(), "k".to_string());
    assert_ne!(e.id, e2.id);
    assert!(e2.timestamp.secs > 1_600_000_000);
    let e3 = Event::created("q".to_string(), "t".to_string(), Priority::Low, "b".to_string());
    assert!(matches!(e3.data, EventData::Created { .. }));
    let e4 = Event::updated("q".to_string(), None, Some("b".to_string()));
    assert!(matches!(e4.data, EventData::Updated { title: None, body: Some(_) }));
}

#[test]
fn blank_lines() {
    assert!(is_blank_line(""));
    assert!(is_blank_line("  \t \r"));
    assert!(!is_blank_line(" {} "));
}

#[test]
fn events_sort_oldest_first_and_stably() {
    let log = vec![
        ev("late", 9, EventData::ChangeLinked { change_id: "a".to_string() }),
        ev("tie1", 5, EventData::ChangeLinked { change_id: "b".to_string() }),
        ev("early", 1, EventData::ChangeLinked { change_id: "c".to_string() }),
        ev("tie2", 5, EventData::ChangeLinked { change_id: "d".to_string() }),
    ];
    let ids: Vec<String> = sort_events(log).into_iter().map(|e| e.id).collect();
    assert_eq!(ids, vec!["early", "tie1", "tie2", "late"]);
}

#[test]
fn bugs_sort_newest_first_and_stably() {
    let mk = |id: &str, secs: i64, nanos: u32| {
        docket::bug::Bug::new_at(id.to_string(), id.to_string(), Priority::Medium, Timestamp { secs, nanos })
    };
    let bugs = vec![mk("a", 1, 0), mk("b", 3, 0), mk("c", 1, 0), mk("d", 3, 1), mk("e", 2, 0)];
    let ids: Vec<String> =
        sort_bugs_newest_first(bugs).iter().map(|b| b.id().to_string()).collect();
    assert_eq!(ids, vec!["d", "b", "e", "a", "c"]);
    assert!(sort_bugs_newest_first(vec![]).is_empty());
}
