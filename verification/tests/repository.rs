use todo_api::{
    apply_update, CreateTodo, RepositoryError, Todo, TodoRepository, TodoRepositoryForMemory,
    UpdateTodo,
};

fn create(repo: &mut TodoRepositoryForMemory, text: &str) -> Todo {
    repo.create(CreateTodo { text: text.to_string() })
        .expect("create should succeed")
}

#[test]
fn round_trip() {
    let mut repo = TodoRepositoryForMemory::new();
    let created = create(&mut repo, "X");
    assert_eq!(created.text, "X");
    assert!(!created.completed);
    let found = repo.find(created.id).expect("created item should be found");
    assert_eq!(found, created);
}

#[test]
fn listing_order_is_newest_first() {
    let mut repo = TodoRepositoryForMemory::new();
    let a = create(&mut repo, "first");
    let b = create(&mut repo, "second");
    let c = create(&mut repo, "third");
    assert_eq!((a.id, b.id, c.id), (1, 2, 3));
    let all = repo.all().expect("listing should succeed");
    let ids: Vec<i32> = all.iter().map(|t| t.id).collect();
    assert_eq!(ids, vec![3, 2, 1]);
}

#[test]
fn partial_update_preserves_untouched_fields() {
    let mut repo = TodoRepositoryForMemory::new();
    for text in ["one", "two", "three", "four", "A"] {
        create(&mut repo, text);
    }
    let first = repo
        .update(5, UpdateTodo { text: None, completed: Some(true) })
        .expect("update of an existing id should succeed");
    assert_eq!(first.id, 5);
    assert_eq!(first.text, "A");
    assert!(first.completed);
    let second = repo
        .update(5, UpdateTodo { text: Some("B".to_string()), completed: None })
        .expect("update of an existing id should succeed");
    assert_eq!(second.id, 5);
    assert_eq!(second.text, "B");
    assert!(second.completed);
}

#[test]
fn not_found_propagates_from_every_operation() {
    let mut repo = TodoRepositoryForMemory::new();
    assert_eq!(repo.find(42).unwrap_err(), RepositoryError::NotFound(42));
    let err = repo
        .update(42, UpdateTodo { text: None, completed: Some(true) })
        .unwrap_err();
    assert_eq!(err, RepositoryError::NotFound(42));
    assert_eq!(repo.delete(42).unwrap_err(), RepositoryError::NotFound(42));
}

#[test]
fn not_found_after_delete() {
    let mut repo = TodoRepositoryForMemory::new();
    let t = create(&mut repo, "gone soon");
    repo.delete(t.id).expect("delete of an existing id should succeed");
    assert_eq!(repo.find(t.id).unwrap_err(), RepositoryError::NotFound(t.id));
    let err = repo
        .update(t.id, UpdateTodo { text: None, completed: None })
        .unwrap_err();
    assert_eq!(err, RepositoryError::NotFound(t.id));
    assert_eq!(repo.delete(t.id).unwrap_err(), RepositoryError::NotFound(t.id));
}

#[test]
fn delete_removes_the_row() {
    let mut repo = TodoRepositoryForMemory::new();
    let keep = create(&mut repo, "keep");
    let gone = create(&mut repo, "gone");
    repo.delete(gone.id).expect("delete of an existing id should succeed");
    assert_eq!(repo.find(gone.id).unwrap_err(), RepositoryError::NotFound(gone.id));
    let all = repo.all().expect("listing should succeed");
    assert!(all.iter().all(|t| t.id != gone.id));
    assert_eq!(all, vec![keep]);
}

#[test]
fn list_all_is_idempotent() {
    let mut repo = TodoRepositoryForMemory::new();
    create(&mut repo, "one");
    create(&mut repo, "two");
    let first = repo.all().expect("listing should succeed");
    let second = repo.all().expect("listing should succeed");
    assert_eq!(first, second);
}

#[test]
fn empty_table_lists_as_empty_not_error() {
    let repo = TodoRepositoryForMemory::new();
    let all = repo.all().expect("listing should succeed");
    assert!(all.is_empty());
}

#[test]
fn create_reports_unexpected_when_ids_run_out() {
    let mut repo = TodoRepositoryForMemory { todos: Vec::new(), next_id: i32::MAX };
    let err = repo
        .create(CreateTodo { text: "too late".to_string() })
        .unwrap_err();
    assert!(matches!(err, RepositoryError::Unexpected(_)));
}

#[test]
fn apply_update_merges_fields() {
    let current = Todo { id: 9, text: "old".to_string(), completed: false };
    let merged = apply_update(&current, UpdateTodo { text: None, completed: None });
    assert_eq!(merged, Todo { id: 9, text: "old".to_string(), completed: false });
    let merged = apply_update(
        &current,
        UpdateTodo { text: Some("new".to_string()), completed: Some(true) },
    );
    assert_eq!(merged, Todo { id: 9, text: "new".to_string(), completed: true });
    let merged = apply_update(&current, UpdateTodo { text: None, completed: Some(true) });
    assert_eq!(merged, Todo { id: 9, text: "old".to_string(), completed: true });
    let merged = apply_update(
        &current,
        UpdateTodo { text: Some("new".to_string()), completed: None },
    );
    assert_eq!(merged, Todo { id: 9, text: "new".to_string(), completed: false });
}

#[test]
fn delete_outcome_checks_the_affected_row_count() {
    assert_eq!(todo_api::delete_outcome(1, 8), Ok(()));
    assert_eq!(todo_api::delete_outcome(3, 8), Ok(()));
    assert_eq!(todo_api::delete_outcome(0, 8), Err(RepositoryError::NotFound(8)));
}
