use docket::bug::{Priority, Status};
use docket::event::EventData;
use docket::text::{contains_str, trim};
use docket::workflow::{
    approve, change_id_from_output, check_not_done, commit_message, done, has_uncommitted_changes,
    is_workspace_dir_name, needs_fresh_change, priority_or_medium, should_prompt_priority, start,
    synced_body, work_start, workspace_context_file, workspace_name, workspace_path, CommandError,
    ContextFields, WorkStart, WorkspaceContext,
};

#[test]
fn approve_and_start_emit_status_changes() {
    match approve("ab12", Status::Draft).unwrap() {
        EventData::StatusChanged { from, to } => {
            assert_eq!(from, Status::Draft);
            assert_eq!(to, Status::Approved);
        }
        _ => panic!("expected a status change"),
    }
    match start("ab12", Status::Approved).unwrap() {
        EventData::StatusChanged { from, to } => {
            assert_eq!(from, Status::Approved);
            assert_eq!(to, Status::InProgress);
        }
        _ => panic!("expected a status change"),
    }
}

#[test]
fn completed_bugs_keep_their_status() {
    let err = approve("ab12", Status::Done).unwrap_err();
    assert_eq!(err.message(), "cannot change status of completed bug 'ab12'");
    assert!(start("ab12", Status::Done).is_err());
    assert!(check_not_done("ab12", Status::Done).is_err());
    assert!(check_not_done("ab12", Status::InProgress).is_ok());
    assert!(done("ab12", Status::Done, None, None).is_err());
}

#[test]
fn done_events_in_order() {
    let evs = done("ab12", Status::InProgress, Some("kq".to_string()), Some("new body".to_string()))
        .unwrap();
    assert_eq!(evs.len(), 3);
    assert!(matches!(&evs[0], EventData::ChangeLinked { change_id } if change_id == "kq"));
    assert!(matches!(&evs[1], EventData::Updated { title: None, body: Some(b) } if b == "new body"));
    assert!(matches!(evs[2], EventData::StatusChanged { from: Status::InProgress, to: Status::Done }));
    let only = done("ab12", Status::Draft, None, None).unwrap();
    assert_eq!(only.len(), 1);
    assert!(matches!(only[0], EventData::StatusChanged { from: Status::Draft, to: Status::Done }));
}

#[test]
fn commit_messages() {
    assert_eq!(commit_message("Fix crash", "ab12"), "Implement Fix crash (ab12)");
}

#[test]
fn work_readiness() {
    assert_eq!(work_start("a", Status::Approved).unwrap(), WorkStart::Ready);
    assert_eq!(work_start("a", Status::InProgress).unwrap(), WorkStart::Ready);
    assert_eq!(work_start("a", Status::Draft).unwrap(), WorkStart::DraftWarning);
    let err = work_start("a", Status::Done).unwrap_err();
    assert!(matches!(err, CommandError::AlreadyDone { .. }));
    assert_eq!(err.message(), "bug a is already done");
}

#[test]
fn workspace_names_and_paths() {
    assert_eq!(workspace_name("ab12"), "ws-ab12");
    assert_eq!(workspace_path("/src/repo", "ab12"), "/src/repo/../ws-ab12");
    assert!(is_workspace_dir_name("ws-ab12"));
    assert!(is_workspace_dir_name("ws-"));
    assert!(!is_workspace_dir_name("ws"));
    assert!(!is_workspace_dir_name("repo"));
    assert_eq!(
        workspace_context_file("/src/repo", "ab12").unwrap(),
        "/src/ws-ab12/.docket/current.json"
    );
    assert!(workspace_context_file("/", "ab12").is_none());
}

#[test]
fn uncommitted_changes_are_detected() {
    assert!(has_uncommitted_changes("Working copy changes:\nM a.rs\n"));
    assert!(!has_uncommitted_changes("The working copy is clean\n"));
    assert!(!has_uncommitted_changes(""));
}

#[test]
fn jj_outputs() {
    assert_eq!(change_id_from_output("  kxyzabc\n").unwrap(), "kxyzabc");
    assert!(change_id_from_output(" \n").is_none());
    assert!(needs_fresh_change("has_changes\n"));
    assert!(!needs_fresh_change("empty"));
}

#[test]
fn priority_choice() {
    assert_eq!(priority_or_medium("HIGH"), (Priority::High, false));
    assert_eq!(priority_or_medium("low"), (Priority::Low, false));
    assert_eq!(priority_or_medium("bogus"), (Priority::Medium, true));
    assert!(should_prompt_priority(true, "medium"));
    assert!(!should_prompt_priority(true, "high"));
    assert!(!should_prompt_priority(false, "medium"));
}

#[test]
fn context_files() {
    let fields = ContextFields::read(r#"{"bug_id":"ab12","title":"T","body":"B","status":"draft"}"#).unwrap();
    let ctx: WorkspaceContext = WorkspaceContext::from_fields(&fields, "ab12").unwrap();
    assert_eq!(ctx.bug_id, "ab12");
    assert_eq!(ctx.title, "T");
    assert_eq!(ctx.body, "B");
    assert!(WorkspaceContext::from_fields(&fields, "zz99").is_none());
    assert_eq!(synced_body(&fields, "ab12").unwrap(), "B");
    assert!(synced_body(&fields, "zz99").is_none());

    let partial = ContextFields::read(r#"{"bug_id":"ab12","title":7}"#).unwrap();
    let ctx = WorkspaceContext::from_fields(&partial, "ab12").unwrap();
    assert_eq!(ctx.title, "");
    assert_eq!(ctx.body, "");
    assert!(synced_body(&partial, "ab12").is_none());

    assert!(ContextFields::read("not json").is_err());
}

#[test]
fn text_helpers() {
    assert_eq!(trim("\u{85}\t x y \u{205f}"), "x y");
    assert_eq!(trim("   "), "");
    assert!(contains_str("abc---def", "---"));
    assert!(!contains_str("ab--c", "---"));
    assert!(contains_str("abc", ""));
}
