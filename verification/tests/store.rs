use gosim_project::db_populate::{StoreError, BATCH_SIZE};
use gosim_project::store::{
    run_index_batch, Comment, EntityState, EntityStore, Issue, Project, PullRequest, VectorIndex,
    VectorPoint,
};

fn project(id: &str) -> Project {
    Project {
        project_id: id.to_string(),
        logo: Some("logo".to_string()),
        language: Some("Rust".to_string()),
        star_count: Some(1),
        description: Some("first".to_string()),
    }
}

fn issue(id: &str, project_id: &str) -> Issue {
    Issue {
        issue_id: id.to_string(),
        project_id: project_id.to_string(),
        title: format!("title of {}", id),
        description: "d".to_string(),
        assignees: None,
    }
}

fn store_with_issues(n: usize) -> EntityStore {
    let mut store = EntityStore::new();
    store.upsert_project(project("p")).unwrap();
    for k in 0..n {
        store.insert_issue(issue(&format!("i{}", k), "p")).unwrap();
    }
    store
}

#[test]
fn project_written_twice_holds_what_the_second_write_knows() {
    let mut store = EntityStore::new();
    store.upsert_project(project("p")).unwrap();
    store.upsert_project(project("other")).unwrap();
    let second = Project {
        project_id: "p".to_string(),
        logo: None,
        language: Some("Go".to_string()),
        star_count: Some(99),
        description: None,
    };
    assert_eq!(store.upsert_project(second), Ok(()));
    assert_eq!(store.project_exists("p"), Ok(true));
    store.insert_issue(issue("i", "p")).unwrap();
    let mut twin = EntityStore::new();
    twin.upsert_project(Project {
        project_id: "p".to_string(),
        logo: Some("logo".to_string()),
        language: Some("Go".to_string()),
        star_count: Some(99),
        description: Some("first".to_string()),
    })
    .unwrap();
    twin.upsert_project(project("other")).unwrap();
    twin.insert_issue(issue("i", "p")).unwrap();
    assert_eq!(format!("{:?}", store_rows(&store)), format!("{:?}", store_rows(&twin)));
}

fn store_rows(store: &EntityStore) -> (Vec<Issue>, Vec<(String, String)>, Vec<EntityState>) {
    (
        store.unsummarized_issues(usize::MAX),
        store.pending_index(usize::MAX),
        vec![store.state_of("p"), store.state_of("i")],
    )
}

#[test]
fn project_that_is_not_there_is_an_error() {
    let store = EntityStore::new();
    assert_eq!(store.project_exists("p"), Err(StoreError::NotFound));
    assert_eq!(store.issue_exists("i"), Err(StoreError::NotFound));
    assert_eq!(store.pull_request_exists("q"), Err(StoreError::NotFound));
}

#[test]
fn issue_needs_its_project_and_a_new_id() {
    let mut store = EntityStore::new();
    assert_eq!(store.insert_issue(issue("i", "p")), Err(StoreError::MissingProject));
    store.upsert_project(project("p")).unwrap();
    assert_eq!(store.insert_issue(issue("i", "p")), Ok(()));
    assert_eq!(store.insert_issue(issue("i", "p")), Err(StoreError::DuplicateKey));
    assert_eq!(store.issue_exists("i"), Ok(true));
    assert_eq!(store.unsummarized_issues(10).len(), 1);
}

#[test]
fn comment_written_twice_is_stored_once() {
    let mut store = EntityStore::new();
    let comment = Comment {
        issue_id: "i".to_string(),
        timestamp: "2024-01-01 00:00:00".to_string(),
        creator: "ann".to_string(),
        body: "first".to_string(),
    };
    assert_eq!(store.insert_comment(comment.clone()), Ok(()));
    let again = Comment { body: "second".to_string(), creator: "bob".to_string(), ..comment.clone() };
    assert_eq!(store.insert_comment(again), Ok(()));
    let later = Comment { timestamp: "2024-01-02 00:00:00".to_string(), ..comment };
    assert_eq!(store.insert_comment(later), Ok(()));
}

#[test]
fn pull_request_is_written_once() {
    let mut store = EntityStore::new();
    let pull = PullRequest {
        pull_id: "q".to_string(),
        project_id: "p".to_string(),
        author: None,
        merge_timestamp: "m".to_string(),
    };
    assert_eq!(store.insert_pull_request(pull.clone()), Ok(()));
    assert_eq!(store.insert_pull_request(pull), Err(StoreError::DuplicateKey));
    assert_eq!(store.pull_request_exists("q"), Ok(true));
}

#[test]
fn issue_leaves_the_backlog_once_it_has_a_summary() {
    let mut store = store_with_issues(3);
    assert_eq!(store.state_of("i1"), EntityState::Unsummarized);
    let ids: Vec<String> = store.unsummarized_issues(BATCH_SIZE).into_iter().map(|i| i.issue_id).collect();
    assert_eq!(ids, vec!["i0", "i1", "i2"]);
    store.record_summary("i1", "", vec![]).unwrap();
    assert_eq!(store.state_of("i1"), EntityState::Summarized);
    let ids: Vec<String> = store.unsummarized_issues(BATCH_SIZE).into_iter().map(|i| i.issue_id).collect();
    assert_eq!(ids, vec!["i0", "i2"]);
    assert!(store.mark_indexed("i1"));
    assert_eq!(store.state_of("i1"), EntityState::Indexed);
    let ids: Vec<String> = store.unsummarized_issues(BATCH_SIZE).into_iter().map(|i| i.issue_id).collect();
    assert_eq!(ids, vec!["i0", "i2"]);
    assert!(!store.mark_indexed("i0"));
}

#[test]
fn batches_take_fifty_at_most() {
    let mut store = store_with_issues(60);
    let batch = store.unsummarized_issues(BATCH_SIZE);
    assert_eq!(batch.len(), 50);
    assert_eq!(batch[49].issue_id, "i49");
    for k in 0..60 {
        store.record_summary(&format!("i{}", k), &format!("s{}", k), vec![]).unwrap();
    }
    let pending = store.pending_index(BATCH_SIZE);
    assert_eq!(pending.len(), 50);
    assert_eq!(pending[0], ("i0".to_string(), "s0".to_string()));
    assert_eq!(store.pending_index(3).len(), 3);
    assert!(store.unsummarized_issues(BATCH_SIZE).is_empty());
}

#[test]
fn summary_written_again_changes_only_the_keywords() {
    let mut store = store_with_issues(1);
    store.record_summary("i0", "first text", vec!["a".to_string()]).unwrap();
    assert!(store.mark_indexed("i0"));
    store.record_summary("i0", "second text", vec!["b".to_string(), "c".to_string()]).unwrap();
    assert_eq!(store.state_of("i0"), EntityState::Indexed);
    let mut fresh = store_with_issues(1);
    fresh.record_summary("i0", "first text", vec![]).unwrap();
    fresh.record_summary("i0", "second text", vec!["k".to_string()]).unwrap();
    assert_eq!(fresh.pending_index(BATCH_SIZE), vec![("i0".to_string(), "first text".to_string())]);
}

#[test]
fn index_batch_indexes_every_pending_summary_once() {
    let mut store = store_with_issues(7);
    for k in 0..7 {
        store.record_summary(&format!("i{}", k), &format!("summary {}", k), vec![]).unwrap();
    }
    assert!(store.mark_indexed("i3"));
    let mut index = VectorIndex::new();
    assert!(index.is_dense());
    let first = index.upload("i3", "summary 3");
    assert_eq!(first, 0);
    assert_eq!(run_index_batch(&mut store, &mut index), 6);
    for k in 0..7 {
        assert_eq!(store.state_of(&format!("i{}", k)), EntityState::Indexed);
    }
    assert!(store.pending_index(BATCH_SIZE).is_empty());
    assert_eq!(index.count(), 7);
    for k in 0..7 {
        let id = format!("i{}", k);
        let points: Vec<&VectorPoint> = index.points().iter().filter(|p| p.entity_id == id).collect();
        assert_eq!(points.len(), 1);
        assert_eq!(points[0].text, format!("summary {}", k));
    }
    let ids: Vec<u64> = index.points().iter().map(|p| p.id).collect();
    assert_eq!(ids, vec![0, 1, 2, 3, 4, 5, 6]);
    assert!(index.is_dense());
    assert_eq!(run_index_batch(&mut store, &mut index), 0);
    assert_eq!(index.count(), 7);
}

#[test]
fn point_under_a_known_id_is_overwritten() {
    let mut index = VectorIndex::new();
    index.upsert(VectorPoint { id: 5, entity_id: "a".to_string(), text: "old".to_string() });
    index.upsert(VectorPoint { id: 6, entity_id: "b".to_string(), text: "b".to_string() });
    index.upsert(VectorPoint { id: 5, entity_id: "c".to_string(), text: "new".to_string() });
    assert_eq!(index.count(), 2);
    assert!(!index.is_dense());
    assert_eq!(
        index.points()[0],
        VectorPoint { id: 5, entity_id: "c".to_string(), text: "new".to_string() }
    );
}

#[test]
fn two_writers_with_one_count_leave_one_point() {
    let mut index = VectorIndex::new();
    index.upload("a", "text a");
    let count = index.count() as u64;
    index.upsert(VectorPoint { id: count, entity_id: "b".to_string(), text: "first".to_string() });
    index.upsert(VectorPoint { id: count, entity_id: "c".to_string(), text: "second".to_string() });
    assert_eq!(index.count(), 2);
    assert_eq!(index.points()[1].entity_id, "c");
    assert!(index.is_dense());
}
