use projects_api::project::{Project, ProjectView};
use projects_api::store::{DocumentStore, ProjectError};

fn sample_project(owner: &str) -> Project {
    Project {
        id: 7,
        owner: owner.to_string(),
        viewers: None,
        moderators: None,
        title: "Drillholes".to_string(),
        description: "Borehole overview".to_string(),
        created: "2022-01-01T00:00:00Z".to_string(),
        modified: "2022-01-02T00:00:00Z".to_string(),
        image: "cover.png".to_string(),
        color: "#ff0000".to_string(),
        views: vec![ProjectView {
            id: "v1".to_string(),
            title: "North".to_string(),
            permalink: "https://example.org/v1".to_string(),
        }],
        assets: None,
    }
}

#[test]
fn insert_assigns_fresh_id() {
    let mut store = DocumentStore::new();
    let template = sample_project("alice");
    let id = store.insert(template).expect("insert should succeed");
    assert_ne!(id, 7);
    assert_eq!(store.count(), 1);

    let stored = store.get_by_id(id).expect("stored document should be found");
    assert_eq!(stored.id, id);
    assert_eq!(stored.owner, "alice");
    assert_eq!(stored.title, "Drillholes");
    assert_eq!(stored.description, "Borehole overview");
    assert_eq!(stored.created, "2022-01-01T00:00:00Z");
    assert_eq!(stored.modified, "2022-01-02T00:00:00Z");
    assert_eq!(stored.image, "cover.png");
    assert_eq!(stored.color, "#ff0000");
    assert_eq!(stored.views.len(), 1);
    assert_eq!(stored.views[0].id, "v1");
    assert_eq!(stored.views[0].title, "North");
    assert_eq!(stored.views[0].permalink, "https://example.org/v1");
    assert!(stored.viewers.is_none());
    assert!(stored.assets.is_none());
}

#[test]
fn get_missing_is_not_found() {
    let store = DocumentStore::new();
    match store.get_by_id(42) {
        Err(ProjectError::NotFound) => {}
        other => panic!("expected NotFound, got {:?}", other.map(|p| p.id)),
    }
}

#[test]
fn list_by_identity_returns_all_matches_and_nothing_else() {
    let mut store = DocumentStore::new();

    let owned = sample_project("x");
    let mut viewed = sample_project("bob");
    viewed.viewers = Some(vec!["someone".to_string(), "x".to_string()]);
    let mut moderated = sample_project("carol");
    moderated.moderators = Some(vec!["x".to_string()]);
    let unrelated = sample_project("dave");

    let id_owned = store.insert(owned).unwrap();
    let id_viewed = store.insert(viewed).unwrap();
    let id_moderated = store.insert(moderated).unwrap();
    let id_unrelated = store.insert(unrelated).unwrap();

    let hits = store.list_by_identity("x");
    assert_eq!(hits.len(), 3);
    assert_eq!(hits[0].id, id_owned);
    assert_eq!(hits[1].id, id_viewed);
    assert_eq!(hits[2].id, id_moderated);
    assert!(hits.iter().all(|p| p.id != id_unrelated));

    let none = store.list_by_identity("nobody");
    assert!(none.is_empty());
}

#[test]
fn list_on_empty_store_is_empty_not_an_error() {
    let store = DocumentStore::new();
    assert!(store.list_by_identity("x").is_empty());
}
