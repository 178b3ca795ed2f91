use docket::event::EventData;
use docket::bug::{Bug, BugMetadata, Priority, Status, Timestamp};
use docket::workflow::{
    plan_done, cleanup_step, context_json, fresh_change_step, CleanupStep, CommandError, ContextFields,
    FreshChange, WorkspaceContext,
};

#[test]
fn cleanup_decisions() {
    assert!(matches!(cleanup_step(false, None), Ok(CleanupStep::NothingToClean)));
    assert!(matches!(cleanup_step(false, Some("Working copy changes:\n")), Ok(CleanupStep::NothingToClean)));
    assert!(matches!(cleanup_step(true, None), Ok(CleanupStep::Forget)));
    assert!(matches!(
        cleanup_step(true, Some("The working copy is clean\n")),
        Ok(CleanupStep::Forget)
    ));
    let err = cleanup_step(true, Some("Working copy changes:\nM x\n")).unwrap_err();
    assert!(matches!(err, CommandError::UncommittedChanges));
    assert_eq!(
        err.message(),
        "refusing to clean up workspace with uncommitted changes. Commit or discard changes first."
    );
}

#[test]
fn fresh_change_decisions() {
    assert_eq!(fresh_change_step(true, true, "has_changes\n", ""), FreshChange::CreateNew);
    assert_eq!(fresh_change_step(true, true, "empty", ""), FreshChange::AlreadyEmpty);
    assert_eq!(
        fresh_change_step(true, false, "", "  Error: no repo \n"),
        FreshChange::Warn("Error: no repo".to_string())
    );
    assert_eq!(fresh_change_step(true, false, "", ""), FreshChange::Skip);
    assert_eq!(fresh_change_step(false, false, "", ""), FreshChange::Skip);
}

#[test]
fn context_file_written_for_a_bug_reads_back() {
    let bug = Bug::from_parts(
        BugMetadata {
            id: "ab12".to_string(),
            title: "Quote \" and newline\n".to_string(),
            status: Status::InProgress,
            priority: Priority::High,
            created: Timestamp { secs: 1, nanos: 0 },
            changes: vec![],
        },
        "Body".to_string(),
    );
    let text = context_json(&bug);
    assert!(text.starts_with("{\n  \""));
    let v: serde_json::Value = serde_json::from_str(&text).unwrap();
    assert_eq!(v["bug_id"], "ab12");
    assert_eq!(v["title"], "Quote \" and newline\n");
    assert_eq!(v["status"], "in-progress");
    assert_eq!(v["priority"], "high");
    assert_eq!(v["body"], "Body");
    let fields = ContextFields::read(&text).unwrap();
    let ctx = WorkspaceContext::from_fields(&fields, "ab12").unwrap();
    assert_eq!(ctx.title, "Quote \" and newline\n");
    assert_eq!(ctx.body, "Body");
}

#[test]
fn context_members_come_from_their_keys() {
    let f = ContextFields::read(r#"{"title":"from title","body":"from body","bug_id":"x"}"#).unwrap();
    assert_eq!(f.title.as_deref(), Some("from title"));
    assert_eq!(f.body.as_deref(), Some("from body"));
    assert_eq!(f.bug_id.as_deref(), Some("x"));
    let g = ContextFields::read("[1, 2]").unwrap();
    assert!(g.bug_id.is_none() && g.title.is_none() && g.body.is_none());
}

#[test]
fn status_reading_ignores_case() {
    for w in ["DrAfT", "APPROVED", "In-Progress", "IN_PROGRESS", "Done"] {
        assert_eq!(Status::from_str(w), Status::from_str(&w.to_lowercase()));
        assert!(Status::from_str(w).is_ok());
    }
    for w in ["LOW", "Med", "HiGh"] {
        assert_eq!(Priority::from_str(w), Priority::from_str(&w.to_lowercase()));
    }
}

#[test]
fn event_times_are_after_the_epoch() {
    let e = docket::event::Event::change_linked("a".to_string(), "b".to_string());
    assert!(e.timestamp.secs >= 0);
    assert!(e.timestamp.nanos < 1_000_000_000);
}

#[test]
fn finishing_from_a_workspace_or_elsewhere() {
    let ctx = WorkspaceContext { bug_id: "ab12".to_string(), title: "T".to_string(), body: "ws body".to_string() };
    let p = plan_done("ab12", Status::InProgress, Some(ctx), Some("chg".to_string()), None).unwrap();
    assert!(!p.make_fresh_change);
    assert_eq!(p.events.len(), 3);
    assert!(matches!(&p.events[0], EventData::ChangeLinked { change_id } if change_id == "chg"));
    assert!(matches!(&p.events[1], EventData::Updated { title: None, body: Some(b) } if b == "ws body"));

    let q = plan_done("ab12", Status::Approved, None, Some("ignored".to_string()), Some("file body".to_string()))
        .unwrap();
    assert!(q.make_fresh_change);
    assert_eq!(q.events.len(), 2);
    assert!(matches!(&q.events[0], EventData::Updated { title: None, body: Some(b) } if b == "file body"));
    assert!(matches!(q.events[1], EventData::StatusChanged { from: Status::Approved, to: Status::Done }));

    let r = plan_done("ab12", Status::Approved, None, None, None).unwrap();
    assert_eq!(r.events.len(), 1);
    assert!(plan_done("ab12", Status::Done, None, None, None).is_err());
}
