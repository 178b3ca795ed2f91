use docket::bug::{Priority, Status, Timestamp};
use docket::event::{derive_bug, Event, EventData};
use docket::workflow::{approve, done};

fn stamp(mut e: Event, secs: i64) -> Event {
    e.timestamp = Timestamp { secs, nanos: 0 };
    e
}

fn opened() -> Vec<Event> {
    vec![stamp(
        Event::created("ab12".to_string(), "Title".to_string(), Priority::Low, "Body".to_string()),
        1,
    )]
}

#[test]
fn approving_takes_effect_in_the_derived_bug() {
    let mut log = opened();
    let bug = derive_bug(&log).unwrap();
    let data = approve(bug.id(), *bug.status()).unwrap();
    log.push(stamp(Event::new("ab12".to_string(), data), 2));
    let after = derive_bug(&log).unwrap();
    assert_eq!(*after.status(), Status::Approved);
    assert_eq!(after.title(), "Title");
}

#[test]
fn finishing_takes_effect_in_the_derived_bug() {
    let mut log = opened();
    let bug = derive_bug(&log).unwrap();
    let events = done(bug.id(), *bug.status(), Some("chg1".to_string()), Some("Done body".to_string()))
        .unwrap();
    for (i, data) in events.into_iter().enumerate() {
        log.push(stamp(Event::new("ab12".to_string(), data), 10 + i as i64));
    }
    let after = derive_bug(&log).unwrap();
    assert_eq!(*after.status(), Status::Done);
    assert_eq!(after.body, "Done body");
    assert_eq!(after.changes(), &["chg1".to_string()]);
    assert_eq!(after.title(), "Title");
    assert!(approve(after.id(), *after.status()).is_err());
}

#[test]
fn relinking_changes_nothing() {
    let mut log = opened();
    log.push(stamp(Event::new("ab12".to_string(), EventData::ChangeLinked { change_id: "k".to_string() }), 2));
    let once = derive_bug(&log).unwrap();
    log.push(stamp(Event::new("ab12".to_string(), EventData::ChangeLinked { change_id: "k".to_string() }), 3));
    let twice = derive_bug(&log).unwrap();
    assert_eq!(once.changes(), twice.changes());
}
