use docket::bug::{Bug, BugFileError, BugMetadata, ParseError, Priority, Status, Timestamp, BUG_TEMPLATE};

fn sample_bug() -> Bug {
    Bug::from_parts(
        BugMetadata {
            id: "ab12".to_string(),
            title: "Crash on start".to_string(),
            status: Status::Approved,
            priority: Priority::High,
            created: Timestamp { secs: 1_700_000_000, nanos: 5 },
            changes: vec![],
        },
        "## Goal\n\nNo crash".to_string(),
    )
}

#[test]
fn status_names() {
    assert_eq!(Status::Draft.as_str(), "draft");
    assert_eq!(Status::Approved.as_str(), "approved");
    assert_eq!(Status::InProgress.as_str(), "in-progress");
    assert_eq!(Status::Done.to_string(), "done");
}

#[test]
fn status_parse_ignores_case_and_accepts_spellings() {
    assert_eq!(Status::from_str("DONE"), Ok(Status::Done));
    assert_eq!(Status::from_str("Approved"), Ok(Status::Approved));
    assert_eq!(Status::from_str("in-progress"), Ok(Status::InProgress));
    assert_eq!(Status::from_str("In_Progress"), Ok(Status::InProgress));
    assert_eq!(Status::from_str("INPROGRESS"), Ok(Status::InProgress));
    assert_eq!(Status::from_str("draft"), Ok(Status::Draft));
}

#[test]
fn status_parse_rejects_unknown_words() {
    let err = Status::from_str("Closed").unwrap_err();
    assert_eq!(err, ParseError::UnknownStatus("Closed".to_string()));
    assert_eq!(err.message(), "unknown status: Closed");
    assert!(Status::from_str("in progress").is_err());
    assert!(Status::from_str("").is_err());
}

#[test]
fn status_round_trip() {
    for s in [Status::Draft, Status::Approved, Status::InProgress, Status::Done] {
        assert_eq!(Status::from_str(s.as_str()), Ok(s));
    }
}

#[test]
fn priority_parse_and_names() {
    assert_eq!(Priority::from_str("LOW"), Ok(Priority::Low));
    assert_eq!(Priority::from_str("med"), Ok(Priority::Medium));
    assert_eq!(Priority::from_str("Medium"), Ok(Priority::Medium));
    assert_eq!(Priority::from_str("high"), Ok(Priority::High));
    let err = Priority::from_str("urgent").unwrap_err();
    assert_eq!(err.message(), "unknown priority: urgent");
    assert_eq!(Priority::High.to_string(), "high");
    for p in [Priority::Low, Priority::Medium, Priority::High] {
        assert_eq!(Priority::from_str(p.as_str()), Ok(p));
    }
}

#[test]
fn priority_default_is_medium() {
    assert_eq!(Priority::default(), Priority::Medium);
}

#[test]
fn timestamps_order_by_seconds_then_nanos() {
    let a = Timestamp { secs: 10, nanos: 999 };
    let b = Timestamp { secs: 11, nanos: 0 };
    let c = Timestamp { secs: 11, nanos: 1 };
    assert!(a.is_before(&b));
    assert!(b.is_before(&c));
    assert!(!c.is_before(&b));
    assert!(!b.is_before(&b));
}

#[test]
fn new_bug_is_a_draft_with_the_template() {
    let bug = Bug::new("x1y2".to_string(), "Title".to_string(), Priority::Low);
    assert_eq!(bug.id(), "x1y2");
    assert_eq!(bug.title(), "Title");
    assert_eq!(*bug.status(), Status::Draft);
    assert_eq!(*bug.priority(), Priority::Low);
    assert!(bug.changes().is_empty());
    assert_eq!(bug.body, BUG_TEMPLATE);
    assert!(bug.body.starts_with("## Goal\n\n<!-- One-sentence description of success -->"));
    assert!(bug.body.ends_with("## Log\n\n<!-- Notes added during implementation -->\n"));
    assert!(bug.metadata.created.secs > 1_600_000_000);
    assert!(bug.metadata.created.nanos < 1_000_000_000);
}

#[test]
fn new_at_sets_the_creation_time() {
    let t = Timestamp { secs: 42, nanos: 7 };
    let bug = Bug::new_at("a".to_string(), "b".to_string(), Priority::Medium, t);
    assert_eq!(bug.metadata.created, t);
}

#[test]
fn set_status_changes_only_status() {
    let mut bug = sample_bug();
    bug.set_status(Status::Done);
    assert_eq!(*bug.status(), Status::Done);
    assert_eq!(bug.title(), "Crash on start");
}

#[test]
fn add_change_keeps_each_change_once() {
    let mut bug = sample_bug();
    bug.add_change("kxyz".to_string());
    bug.add_change("lmno".to_string());
    bug.add_change("kxyz".to_string());
    assert_eq!(bug.changes(), &["kxyz".to_string(), "lmno".to_string()]);
}

#[test]
fn parse_splits_front_matter_and_body() {
    let content = "---\nid: ab12\ntitle: T\n---\n\n## Goal\n\nText\n";
    let f = Bug::parse(content).unwrap();
    assert_eq!(f.front_matter, "id: ab12\ntitle: T");
    assert_eq!(f.body, "## Goal\n\nText");
}

#[test]
fn parse_keeps_later_delimiters_in_the_body() {
    let content = "---\na: 1\n---\nbody\n---\nmore\n";
    let f = Bug::parse(content).unwrap();
    assert_eq!(f.front_matter, "a: 1");
    assert_eq!(f.body, "body\n---\nmore");
}

#[test]
fn parse_without_front_matter_fails() {
    assert_eq!(Bug::parse("no delimiters").unwrap_err(), BugFileError::MissingFrontMatter);
    assert_eq!(Bug::parse("---\nonly one").unwrap_err(), BugFileError::MissingFrontMatter);
    assert_eq!(
        BugFileError::MissingFrontMatter.message(),
        "invalid bug file format: expected YAML frontmatter between --- delimiters"
    );
}

#[test]
fn parse_trims_unicode_white_space() {
    let content = "---\u{a0} a: 1 \u{3000}---\n\u{2003}body\u{2029}";
    let f = Bug::parse(content).unwrap();
    assert_eq!(f.front_matter, "a: 1");
    assert_eq!(f.body, "body");
}

#[test]
fn written_file_reads_back() {
    let bug = sample_bug();
    let yaml = "id: ab12\ntitle: Crash on start\nstatus: approved\n";
    let text = bug.to_string(yaml);
    assert_eq!(text, "---\nid: ab12\ntitle: Crash on start\nstatus: approved\n---\n\n## Goal\n\nNo crash\n");
    let f = Bug::parse(&text).unwrap();
    assert_eq!(f.front_matter, yaml.trim());
    assert_eq!(f.body, bug.body.trim());
}

#[test]
fn front_matter_with_a_delimiter_does_not_read_back() {
    // the round trip needs front matter free of `---`
    let bug = sample_bug();
    let text = bug.to_string("title: a---b\n");
    let f = Bug::parse(&text).unwrap();
    assert_eq!(f.front_matter, "title: a");
}
