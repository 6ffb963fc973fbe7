use index_controller::routes::{
    create_index, delete_index, get_index, get_index_stats, index_created_event, index_response,
    list_indexes, route, update_index, IndexCreateRequest, Method, Route, UpdateIndexRequest,
    STATUS_CREATED, STATUS_OK,
};
use index_controller::clock::Timestamp;
use index_controller::{ErrorKind, IndexController, IndexMetadata, IndexSettings, IndexUuid};

fn path(segments: &[&str]) -> Vec<String> {
    segments.iter().map(|segment| segment.to_string()).collect()
}

fn request(uid: &str, primary_key: Option<&str>) -> IndexCreateRequest {
    IndexCreateRequest { uid: uid.to_string(), primary_key: primary_key.map(|key| key.to_string()) }
}

#[test]
fn scope_serves_list_and_create() {
    assert_eq!(route(Method::Get, &path(&[])), Some(Route::ListIndexes));
    assert_eq!(route(Method::Post, &path(&[])), Some(Route::CreateIndex));
    assert_eq!(route(Method::Put, &path(&[])), None);
    assert_eq!(route(Method::Delete, &path(&[])), None);
    assert_eq!(route(Method::Other, &path(&[])), None);
}

#[test]
fn one_index_serves_get_put_delete() {
    assert_eq!(route(Method::Get, &path(&["movies"])), Some(Route::GetIndex));
    assert_eq!(route(Method::Put, &path(&["movies"])), Some(Route::UpdateIndex));
    assert_eq!(route(Method::Delete, &path(&["movies"])), Some(Route::DeleteIndex));
    assert_eq!(route(Method::Post, &path(&["movies"])), None);
    assert_eq!(route(Method::Other, &path(&["movies"])), None);
    assert_eq!(route(Method::Get, &path(&["stats"])), Some(Route::GetIndex));
}

#[test]
fn stats_serves_get_only() {
    assert_eq!(route(Method::Get, &path(&["movies", "stats"])), Some(Route::GetIndexStats));
    assert_eq!(route(Method::Post, &path(&["movies", "stats"])), None);
    assert_eq!(route(Method::Delete, &path(&["movies", "stats"])), None);
    assert_eq!(route(Method::Get, &path(&["movies", "stats", "more"])), None);
}

#[test]
fn scopes_below_an_index_take_any_method_and_tail() {
    for method in [Method::Get, Method::Post, Method::Put, Method::Delete, Method::Other] {
        assert_eq!(route(method, &path(&["movies", "documents"])), Some(Route::Documents));
        assert_eq!(route(method, &path(&["movies", "documents", "42"])), Some(Route::Documents));
        assert_eq!(route(method, &path(&["movies", "search"])), Some(Route::Search));
        assert_eq!(route(method, &path(&["movies", "tasks", "7"])), Some(Route::Tasks));
        assert_eq!(
            route(method, &path(&["movies", "settings", "ranking-rules"])),
            Some(Route::Settings)
        );
    }
}

#[test]
fn unknown_paths_are_not_served() {
    assert_eq!(route(Method::Get, &path(&["movies", "unknown"])), None);
    assert_eq!(route(Method::Get, &path(&["movies", ""])), None);
    assert_eq!(route(Method::Get, &path(&["movies", "Stats"])), None);
    assert_eq!(route(Method::Get, &path(&[""])), None);
    assert_eq!(route(Method::Get, &path(&["", "stats"])), None);
    assert_eq!(route(Method::Get, &path(&["", "documents"])), None);
}

#[test]
fn status_codes_of_successes() {
    assert_eq!(STATUS_CREATED, 201);
    assert_eq!(STATUS_OK, 200);
}

#[test]
fn requests_turn_into_settings() {
    assert_eq!(
        request("movies", Some("id")).into_settings(),
        IndexSettings { name: Some("movies".to_string()), primary_key: Some("id".to_string()) }
    );
    let update = UpdateIndexRequest { uid: None, primary_key: Some("isbn".to_string()) };
    assert_eq!(
        update.into_settings(),
        IndexSettings { name: None, primary_key: Some("isbn".to_string()) }
    );
}

#[test]
fn index_created_event_carries_the_primary_key() {
    let event = index_created_event(&request("movies", Some("id")));
    assert_eq!(event.name, "Index Created".to_string());
    assert_eq!(event.primary_key, Some("id".to_string()));
    assert_eq!(index_created_event(&request("movies", None)).primary_key, None);
}

#[test]
fn index_response_shows_uid_and_metadata() {
    let metadata = IndexMetadata {
        uuid: IndexUuid::from_u128(1),
        created_at: Timestamp { secs: 10, nanos: 1 },
        updated_at: Timestamp { secs: 20, nanos: 2 },
        primary_key: Some("id".to_string()),
    };
    let response = index_response("movies".to_string(), metadata);
    assert_eq!(response.uid, "movies".to_string());
    assert_eq!(response.name, "movies".to_string());
    assert_eq!(response.created_at, Timestamp { secs: 10, nanos: 1 });
    assert_eq!(response.updated_at, Timestamp { secs: 20, nanos: 2 });
    assert_eq!(response.primary_key, Some("id".to_string()));
}

#[test]
fn create_index_then_get_index_returns_the_uid_and_primary_key() {
    let mut controller = IndexController::new();
    let created = create_index(&mut controller, request("movies", Some("id"))).unwrap();
    assert_eq!(created.uid, "movies".to_string());
    assert_eq!(created.primary_key, Some("id".to_string()));
    let found = get_index(&controller, "movies".to_string()).unwrap();
    assert_eq!(found.uid, "movies".to_string());
    assert_eq!(found.primary_key, Some("id".to_string()));
    assert_eq!(found, created);
}

#[test]
fn create_index_without_primary_key_shows_none() {
    let mut controller = IndexController::new();
    create_index(&mut controller, request("movies", None)).unwrap();
    let found = get_index(&controller, "movies".to_string()).unwrap();
    assert_eq!(found.uid, "movies".to_string());
    assert_eq!(found.primary_key, None);
}

#[test]
fn create_index_twice_already_exists() {
    let mut controller = IndexController::new();
    create_index(&mut controller, request("movies", None)).unwrap();
    assert_eq!(
        create_index(&mut controller, request("movies", Some("id"))),
        Err(ErrorKind::AlreadyExists)
    );
}

#[test]
fn get_index_of_an_unknown_uid_is_not_found() {
    let controller = IndexController::new();
    assert_eq!(get_index(&controller, "movies".to_string()), Err(ErrorKind::NotFound));
}

#[test]
fn list_indexes_lists_what_was_created() {
    let mut controller = IndexController::new();
    assert_eq!(list_indexes(&controller), Ok(Vec::new()));
    create_index(&mut controller, request("movies", None)).unwrap();
    create_index(&mut controller, request("books", Some("isbn"))).unwrap();
    let listed = list_indexes(&controller).unwrap();
    assert_eq!(listed.len(), 2);
    assert_eq!(listed[0].primary_key, None);
    assert_eq!(listed[1].primary_key, Some("isbn".to_string()));
    assert_eq!(Ok(listed[0].clone()), controller.get_index(&"movies".to_string()));
}

#[test]
fn stub_routes_answer_unimplemented() {
    let mut controller = IndexController::new();
    create_index(&mut controller, request("movies", None)).unwrap();
    let body = UpdateIndexRequest { uid: None, primary_key: Some("id".to_string()) };
    assert_eq!(update_index(&controller, "movies".to_string(), body), Err(ErrorKind::Unimplemented));
    assert_eq!(delete_index(&controller, "movies".to_string()), Err(ErrorKind::Unimplemented));
    assert_eq!(get_index_stats(&controller, "movies".to_string()), Err(ErrorKind::Unimplemented));
    assert!(get_index(&controller, "movies".to_string()).is_ok());
}
