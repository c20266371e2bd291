use todo_api::{
    all_todo, create_todo, delete_todo, find_todo, parse_id, status_code, update_todo,
    CreateTodo, RepositoryError, TodoRepositoryForMemory, UpdateTodo,
};

#[test]
fn end_to_end_scenario() {
    let mut repo = TodoRepositoryForMemory::new();

    let (status, body) = create_todo(&mut repo, CreateTodo { text: "buy milk".to_string() });
    assert_eq!(status, 201);
    let created = body.expect("201 carries the created item");
    assert_eq!(created.text, "buy milk");
    assert!(!created.completed);
    let id = created.id;

    let (status, body) = find_todo(&repo, id);
    assert_eq!(status, 200);
    assert_eq!(body.expect("200 carries the item"), created);

    let (status, body) = update_todo(
        &mut repo,
        id,
        UpdateTodo { text: None, completed: Some(true) },
    );
    assert_eq!(status, 200);
    let updated = body.expect("200 carries the updated item");
    assert_eq!(updated.id, id);
    assert_eq!(updated.text, "buy milk");
    assert!(updated.completed);

    let status = delete_todo(&mut repo, id);
    assert_eq!(status, 204);

    let (status, body) = find_todo(&repo, id);
    assert_eq!(status, 404);
    assert!(body.is_none());
}

#[test]
fn listing_route_returns_all_items() {
    let mut repo = TodoRepositoryForMemory::new();
    let (status, body) = all_todo(&repo);
    assert_eq!(status, 200);
    assert!(body.expect("200 carries the list").is_empty());

    create_todo(&mut repo, CreateTodo { text: "a".to_string() });
    create_todo(&mut repo, CreateTodo { text: "b".to_string() });
    let (status, body) = all_todo(&repo);
    assert_eq!(status, 200);
    let items = body.expect("200 carries the list");
    let ids: Vec<i32> = items.iter().map(|t| t.id).collect();
    assert_eq!(ids, vec![2, 1]);
}

#[test]
fn mutation_routes_report_missing_ids_as_404() {
    let mut repo = TodoRepositoryForMemory::new();
    let (status, body) = update_todo(
        &mut repo,
        7,
        UpdateTodo { text: None, completed: Some(true) },
    );
    assert_eq!(status, 404);
    assert!(body.is_none());
    assert_eq!(delete_todo(&mut repo, 7), 404);
}

#[test]
fn creation_route_reports_store_failure_as_500() {
    let mut repo = TodoRepositoryForMemory { todos: Vec::new(), next_id: i32::MAX };
    let (status, body) = create_todo(&mut repo, CreateTodo { text: "x".to_string() });
    assert_eq!(status, 500);
    assert!(body.is_none());
}

#[test]
fn error_kinds_map_to_status_codes() {
    assert_eq!(status_code(&RepositoryError::NotFound(3)), 404);
    assert_eq!(status_code(&RepositoryError::Unexpected("boom".to_string())), 500);
}

#[test]
fn path_ids_parse_exactly_when_in_range() {
    assert_eq!(parse_id("17"), Some(17));
    assert_eq!(parse_id("0"), Some(0));
    assert_eq!(parse_id("007"), Some(7));
    assert_eq!(parse_id("-5"), Some(-5));
    assert_eq!(parse_id("2147483647"), Some(i32::MAX));
    assert_eq!(parse_id("-2147483648"), Some(i32::MIN));
    assert_eq!(parse_id("2147483648"), None);
    assert_eq!(parse_id("-2147483649"), None);
    assert_eq!(parse_id(""), None);
    assert_eq!(parse_id("-"), None);
    assert_eq!(parse_id("12a"), None);
    assert_eq!(parse_id("+5"), None);
    assert_eq!(parse_id("five"), None);
}
