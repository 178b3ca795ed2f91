use docket::store::{IdSearch, OpenStep, Store, StoreError, GITIGNORE_CONTENTS, ID_ATTEMPTS, ID_CHARS, random_id};

fn store_at(dir: &str) -> Store {
    match Store::open_from(dir, true) {
        OpenStep::Found(s) => s,
        _ => panic!("expected a store"),
    }
}

#[test]
fn search_finds_the_docket_of_a_directory() {
    let s = store_at("/home/u/proj");
    assert_eq!(s.root(), "/home/u/proj/.docket");
    assert_eq!(Store::candidate_root("/home/u/proj"), "/home/u/proj/.docket");
}

#[test]
fn search_goes_up_and_ends_at_the_top() {
    match Store::open_from("/home/u/proj", false) {
        OpenStep::TryParent(p) => assert_eq!(p, "/home/u"),
        _ => panic!("expected to go up"),
    }
    match Store::open_from("/home", false) {
        OpenStep::TryParent(p) => assert_eq!(p, "/"),
        _ => panic!("expected to go up"),
    }
    assert!(matches!(Store::open_from("/", false), OpenStep::NotARepository));
    assert_eq!(
        StoreError::NotARepository.message(),
        "not a docket repository (or any parent): .docket directory not found"
    );
}

#[test]
fn init_refuses_an_existing_docket() {
    let s = Store::init_at("/tmp/p", false).unwrap();
    assert_eq!(s.root(), "/tmp/p/.docket");
    let err = Store::init_at("/tmp/p", true).unwrap_err();
    assert_eq!(err.message(), "docket already initialized at /tmp/p/.docket");
    assert_eq!(GITIGNORE_CONTENTS, ".cache/\n");
    assert_eq!(s.gitignore_path(), "/tmp/p/.docket/.gitignore");
}

#[test]
fn file_names() {
    let s = store_at("/r");
    assert_eq!(s.bugs_dir(), "/r/.docket/bugs");
    assert_eq!(s.bug_path("ab12"), "/r/.docket/bugs/ab12.md");
    assert_eq!(s.event_log_path("ab12"), "/r/.docket/bugs/ab12.jsonl");
    assert_eq!(s.bug_files_pattern(), "/r/.docket/bugs/*.md");
    assert_eq!(s.prefix_pattern("ab"), "/r/.docket/bugs/ab*.md");
}

#[test]
fn resolving_a_bug_file() {
    let s = store_at("/r");
    assert_eq!(s.resolve_bug_file("ab12", true, &vec![]).unwrap(), "/r/.docket/bugs/ab12.md");
    let one = vec!["/r/.docket/bugs/ab12.md".to_string()];
    assert_eq!(s.resolve_bug_file("ab", false, &one).unwrap(), "/r/.docket/bugs/ab12.md");
    let none = s.resolve_bug_file("zz", false, &vec![]).unwrap_err();
    assert_eq!(none.message(), "bug not found: zz");
    let two = vec!["/r/.docket/bugs/ab12.md".to_string(), "/r/.docket/bugs/ab99.md".to_string()];
    let err = s.resolve_bug_file("ab", false, &two).unwrap_err();
    match &err {
        StoreError::AmbiguousId { id, matches } => {
            assert_eq!(id, "ab");
            assert_eq!(matches, &vec!["ab12".to_string(), "ab99".to_string()]);
        }
        _ => panic!("expected an ambiguous id"),
    }
    assert_eq!(err.message(), "ambiguous bug ID 'ab', matches: ab12, ab99");
}

#[test]
fn random_ids_use_the_alphabet() {
    for _ in 0..50 {
        let id = random_id();
        assert_eq!(id.chars().count(), 4);
        assert!(id.chars().all(|c| ID_CHARS.contains(c)));
    }
}

#[test]
fn id_search_gives_up_after_the_attempts() {
    let mut search = IdSearch::new();
    let mut n = 0;
    while let Some(id) = search.next_candidate() {
        assert_eq!(id.len(), 4);
        n += 1;
    }
    assert_eq!(n, ID_ATTEMPTS);
    assert!(search.next_candidate().is_none());
    assert_eq!(StoreError::IdsExhausted.message(), "failed to generate unique ID after 100 attempts");
}
