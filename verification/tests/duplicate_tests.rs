use projects_api::duplicate::DuplicationSession;
use projects_api::project::Project;
use projects_api::store::{DocumentStore, ProjectError};

const NEW_ID: u128 = 0x00112233_4455_6677_8899_aabbccddeeff;
const NEW_ID_TEXT: &str = "00112233-4455-6677-8899-aabbccddeeff";

fn template() -> Project {
    Project {
        id: 1,
        owner: "alice".to_string(),
        viewers: Some(vec!["a".to_string()]),
        moderators: Some(vec!["b".to_string()]),
        title: "Geology".to_string(),
        description: "Regional model".to_string(),
        created: "2022-03-01".to_string(),
        modified: "2022-03-02".to_string(),
        image: "img.png".to_string(),
        color: "#00ff00".to_string(),
        views: vec![],
        assets: None,
    }
}

/// Runs every pending copy as if the object-storage gateway succeeded.
fn run_all_copies(session: &mut DuplicationSession) -> Vec<(String, String)> {
    let mut performed = Vec::new();
    while let Some(job) = session.next_job() {
        performed.push((job.source_key.clone(), job.target_key.clone()));
        session.record_copy_result(true);
    }
    performed
}

#[test]
fn duplicate_resets_access_lists() {
    let mut store = DocumentStore::new();
    let mut session = DuplicationSession::begin_with_id(&template(), NEW_ID);
    let copies = run_all_copies(&mut session);
    assert!(copies.is_empty());
    let id = session.finish(&mut store).expect("duplication should persist");
    assert_eq!(id, NEW_ID);

    let stored = store.get_by_id(id).unwrap();
    assert!(stored.viewers.is_none());
    assert!(stored.moderators.is_none());
    assert_eq!(stored.owner, "alice");
    assert_eq!(stored.title, "Geology");
}

#[test]
fn base_asset_is_copied_into_new_namespace() {
    let mut store = DocumentStore::new();
    let mut t = template();
    t.assets = Some(vec!["https://download.swissgeol.ch/foo/bar.png".to_string()]);
    let mut session = DuplicationSession::begin_with_id(&t, NEW_ID);

    let copies = run_all_copies(&mut session);
    assert_eq!(copies.len(), 1);
    assert_eq!(copies[0].0, "foo/bar.png");
    assert_eq!(copies[0].1, format!("assets/{}/bar.png", NEW_ID_TEXT));
    // The copy has a distinct destination: the object at the source key is
    // copied, never moved, so the original stays in place.
    assert_ne!(copies[0].0, copies[0].1);

    let id = session.finish(&mut store).unwrap();
    let stored = store.get_by_id(id).unwrap();
    // The reference in the new document is preserved as supplied.
    assert_eq!(
        stored.assets,
        Some(vec!["https://download.swissgeol.ch/foo/bar.png".to_string()])
    );
}

#[test]
fn foreign_asset_triggers_no_copy_and_is_kept() {
    let mut store = DocumentStore::new();
    let mut t = template();
    t.assets = Some(vec!["https://elsewhere.example/pic.png".to_string()]);
    let mut session = DuplicationSession::begin_with_id(&t, NEW_ID);

    assert!(session.next_job().is_none(), "a foreign URL must trigger no copy call");
    assert!(session.resolved());
    let id = session.finish(&mut store).unwrap();

    let stored = store.get_by_id(id).unwrap();
    assert_eq!(
        stored.assets,
        Some(vec!["https://elsewhere.example/pic.png".to_string()])
    );
}

#[test]
fn mixed_assets_copy_only_base_ones_in_order() {
    let mut t = template();
    t.assets = Some(vec![
        "https://download.swissgeol.ch/a/first.bin".to_string(),
        "https://elsewhere.example/skip.png".to_string(),
        "https://download.swissgeol.ch/b/c/second.bin".to_string(),
    ]);
    let mut session = DuplicationSession::begin_with_id(&t, NEW_ID);
    let copies = run_all_copies(&mut session);
    assert_eq!(copies.len(), 2);
    assert_eq!(copies[0].0, "a/first.bin");
    assert_eq!(copies[0].1, format!("assets/{}/first.bin", NEW_ID_TEXT));
    assert_eq!(copies[1].0, "b/c/second.bin");
    assert_eq!(copies[1].1, format!("assets/{}/second.bin", NEW_ID_TEXT));
}

#[test]
fn copy_failure_aborts_without_persisting() {
    let mut store = DocumentStore::new();
    let mut t = template();
    t.assets = Some(vec![
        "https://download.swissgeol.ch/foo/one.png".to_string(),
        "https://download.swissgeol.ch/foo/two.png".to_string(),
    ]);
    let mut session = DuplicationSession::begin_with_id(&t, NEW_ID);

    // The first copy succeeds, the second fails at the gateway.
    assert!(session.next_job().is_some());
    session.record_copy_result(true);
    assert!(session.next_job().is_some());
    session.record_copy_result(false);

    assert!(session.resolved());
    match session.finish(&mut store) {
        Err(ProjectError::Copy) => {}
        other => panic!("expected a copy error, got {:?}", other),
    }
    assert_eq!(store.count(), 0);
    assert!(matches!(store.get_by_id(NEW_ID), Err(ProjectError::NotFound)));
}

#[test]
fn occupied_id_is_a_persistence_error() {
    let mut store = DocumentStore::new();
    let first = DuplicationSession::begin_with_id(&template(), NEW_ID);
    first.finish(&mut store).unwrap();

    let second = DuplicationSession::begin_with_id(&template(), NEW_ID);
    match second.finish(&mut store) {
        Err(ProjectError::Persistence) => {}
        other => panic!("expected a persistence error, got {:?}", other),
    }
    assert_eq!(store.count(), 1);
}

#[test]
fn end_to_end_insert_then_duplicate() {
    let mut store = DocumentStore::new();
    let mut t = template();
    t.viewers = None;
    t.moderators = None;
    t.assets = Some(vec![]);

    let first_id = store.insert(t).expect("insert should succeed");
    let first = store.get_by_id(first_id).unwrap();
    assert_eq!(first.owner, "alice");

    let mut session =
        DuplicationSession::begin(&first).expect("a fresh draw should not collide");
    let copies = run_all_copies(&mut session);
    assert!(copies.is_empty());
    let second_id = session.finish(&mut store).expect("duplication should persist");
    assert_ne!(second_id, first_id);

    let second = store.get_by_id(second_id).unwrap();
    assert_eq!(second.owner, "alice");
    assert!(second.viewers.is_none());
    assert!(second.moderators.is_none());

    // The original document is untouched.
    let first_again = store.get_by_id(first_id).unwrap();
    assert_eq!(first_again.owner, "alice");
    assert_eq!(store.count(), 2);
}
