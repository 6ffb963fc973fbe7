use index_controller::model::{
    Facets, IndexDocumentsMethod, Settings, UpdateFormat, UpdateMeta, UpdateResult, UpdateStatus,
};
use index_controller::update_store::UpdateStep;
use index_controller::updates::Enqueued;
use index_controller::clock::Timestamp;
use index_controller::{ErrorKind, IndexController, IndexMetadata, IndexSettings, IndexUuid};

fn name(text: &str) -> String {
    text.to_string()
}

fn movies(primary_key: Option<&str>) -> IndexSettings {
    IndexSettings { name: Some(name("movies")), primary_key: primary_key.map(name) }
}

fn add(controller: &mut IndexController, index: &str, bytes: &[u8]) -> UpdateStatus {
    controller
        .add_documents(
            name(index),
            IndexDocumentsMethod::ReplaceDocuments,
            UpdateFormat::Json,
            vec![Ok(bytes.to_vec())],
            None,
        )
        .unwrap()
}

#[test]
fn a_new_controller_knows_nothing() {
    let controller = IndexController::new();
    assert_eq!(controller.list_indexes(), Ok(Vec::new()));
    assert_eq!(controller.get_index(&name("movies")), Err(ErrorKind::NotFound));
    assert_eq!(controller.index(&name("movies")), Ok(None));
    assert_eq!(controller.update_status(&name("movies"), 0), Ok(None));
    assert_eq!(controller.all_update_status(&name("movies")), Ok(Vec::new()));
}

#[test]
fn search_on_an_unknown_index_is_not_found() {
    let controller = IndexController::new();
    assert_eq!(controller.search(&name("unknown-index")), Err(ErrorKind::NotFound));
}

#[test]
fn search_finds_a_created_index() {
    let mut controller = IndexController::new();
    let metadata = controller.create_index(movies(None)).unwrap();
    assert_eq!(controller.search(&name("movies")), Ok(metadata.uuid));
    assert_eq!(controller.index(&name("movies")), Ok(Some(metadata.uuid)));
    assert_eq!(controller.search(&name("books")), Err(ErrorKind::NotFound));
}

#[test]
fn search_needs_a_live_index_not_only_a_name() {
    let mut controller = IndexController::new();
    add(&mut controller, "movies", b"[]");
    assert_eq!(controller.search(&name("movies")), Err(ErrorKind::NotFound));
    assert_eq!(controller.get_index(&name("movies")), Err(ErrorKind::NotFound));
    assert_eq!(controller.index(&name("movies")), Ok(None));
}

#[test]
fn create_index_then_get_index_round_trip() {
    let mut controller = IndexController::new();
    let created = controller.create_index(movies(Some("id"))).unwrap();
    assert_eq!(created.primary_key, Some(name("id")));
    assert_eq!(created.created_at, created.updated_at);
    assert!(created.uuid.is_random());
    assert_eq!(controller.get_index(&name("movies")), Ok(created.clone()));
    assert_eq!(controller.list_indexes(), Ok(vec![created]));
}

#[test]
fn create_index_without_primary_key() {
    let mut controller = IndexController::new();
    let created = controller.create_index(movies(None)).unwrap();
    assert_eq!(created.primary_key, None);
    assert_eq!(controller.get_index(&name("movies")).unwrap().primary_key, None);
}

#[test]
fn create_index_needs_a_name() {
    let mut controller = IndexController::new();
    let settings = IndexSettings { name: None, primary_key: Some(name("id")) };
    assert_eq!(controller.create_index(settings), Err(ErrorKind::MissingName));
    assert_eq!(controller.list_indexes(), Ok(Vec::new()));
}

#[test]
fn create_index_refuses_a_bound_name() {
    let mut controller = IndexController::new();
    let created = controller.create_index(movies(Some("id"))).unwrap();
    assert_eq!(controller.create_index(movies(None)), Err(ErrorKind::AlreadyExists));
    assert_eq!(controller.get_index(&name("movies")), Ok(created));
    add(&mut controller, "books", b"[]");
    let books = IndexSettings { name: Some(name("books")), primary_key: None };
    assert_eq!(controller.create_index(books), Err(ErrorKind::AlreadyExists));
}

#[test]
fn add_documents_registers_an_enqueued_update() {
    let mut controller = IndexController::new();
    let status = controller
        .add_documents(
            name("movies"),
            IndexDocumentsMethod::UpdateDocuments,
            UpdateFormat::Csv,
            vec![Ok(b"id,title\n".to_vec()), Ok(b"1,Alien\n".to_vec())],
            Some(name("id")),
        )
        .unwrap();
    let meta = UpdateMeta::DocumentsAddition {
        method: IndexDocumentsMethod::UpdateDocuments,
        format: UpdateFormat::Csv,
        primary_key: Some(name("id")),
    };
    assert_eq!(status, UpdateStatus::Enqueued(Enqueued::new(meta, 0)));
    assert_eq!(controller.update_status(&name("movies"), 0), Ok(Some(status.clone())));
    assert_eq!(controller.all_update_status(&name("movies")), Ok(vec![status]));
    assert_eq!(controller.update_status(&name("movies"), 1), Ok(None));
}

#[test]
fn add_documents_to_a_created_index_uses_its_uuid() {
    let mut controller = IndexController::new();
    let created = controller.create_index(movies(None)).unwrap();
    add(&mut controller, "movies", b"[{\"id\":1}]");
    assert_eq!(controller.search(&name("movies")), Ok(created.uuid));
    match controller.process_next(&name("movies")).unwrap() {
        UpdateStep::Apply { update, documents } => {
            assert_eq!(update.id(), 0);
            assert_eq!(documents, b"[{\"id\":1}]".to_vec());
        }
        other => panic!("unexpected step {:?}", other),
    }
    let ended = controller
        .finish_update(&name("movies"), Ok(UpdateResult::DocumentsAddition { nb_documents: 1 }))
        .unwrap()
        .unwrap();
    assert!(matches!(ended, UpdateStatus::Processed(_)));
    let after = controller.get_index(&name("movies")).unwrap();
    assert_eq!(after.uuid, created.uuid);
    assert_eq!(after.created_at, created.created_at);
    assert_eq!(after.primary_key, created.primary_key);
    assert!(after.updated_at.secs >= created.updated_at.secs);
}

#[test]
fn a_failed_update_leaves_the_index_as_it_was() {
    let mut controller = IndexController::new();
    let created = controller.create_index(movies(None)).unwrap();
    add(&mut controller, "movies", b"[{\"id\":1}]");
    controller.process_next(&name("movies")).unwrap();
    let ended = controller
        .finish_update(&name("movies"), Err(name("invalid document")))
        .unwrap()
        .unwrap();
    assert_eq!(ended.failed().unwrap().error, name("invalid document"));
    assert_eq!(controller.get_index(&name("movies")), Ok(created));
}

#[test]
fn empty_payload_on_a_fresh_index_is_processed_with_zero_documents() {
    let mut controller = IndexController::new();
    controller.create_index(movies(None)).unwrap();
    let status = controller
        .add_documents(
            name("movies"),
            IndexDocumentsMethod::ReplaceDocuments,
            UpdateFormat::Json,
            Vec::new(),
            None,
        )
        .unwrap();
    assert!(matches!(status, UpdateStatus::Enqueued(_)));
    match controller.process_next(&name("movies")).unwrap() {
        UpdateStep::Settled(UpdateStatus::Processed(processed)) => {
            assert_eq!(processed.success, UpdateResult::DocumentsAddition { nb_documents: 0 });
            assert_eq!(processed.id(), 0);
        }
        other => panic!("unexpected step {:?}", other),
    }
    assert_eq!(controller.process_next(&name("movies")), Ok(UpdateStep::Idle));
}

#[test]
fn a_payload_that_fails_in_transfer_yields_failed_and_the_next_update_runs() {
    let mut controller = IndexController::new();
    controller
        .add_documents(
            name("movies"),
            IndexDocumentsMethod::ReplaceDocuments,
            UpdateFormat::Json,
            vec![Ok(b"[{".to_vec()), Err(name("connection dropped")), Ok(b"}]".to_vec())],
            None,
        )
        .unwrap();
    add(&mut controller, "movies", b"[{\"id\":2}]");
    match controller.process_next(&name("movies")).unwrap() {
        UpdateStep::Settled(UpdateStatus::Failed(failed)) => {
            assert_eq!(failed.error, name("connection dropped"));
        }
        other => panic!("unexpected step {:?}", other),
    }
    assert!(matches!(
        controller.process_next(&name("movies")).unwrap(),
        UpdateStep::Apply { .. }
    ));
    let ended = controller.finish_update(&name("movies"), Ok(UpdateResult::Other)).unwrap();
    assert!(matches!(ended, Some(UpdateStatus::Processed(_))));
}

#[test]
fn many_submissions_all_end_in_submission_order() {
    let mut controller = IndexController::new();
    let n: u64 = 20;
    for i in 0..n {
        let status = add(&mut controller, "movies", &[i as u8 + 1]);
        assert_eq!(status.id(), i);
    }
    let mut ended = Vec::new();
    loop {
        match controller.process_next(&name("movies")).unwrap() {
            UpdateStep::Idle => break,
            UpdateStep::Settled(status) => ended.push(status.id()),
            UpdateStep::Apply { update, documents } => {
                assert_eq!(documents, vec![update.id() as u8 + 1]);
                let outcome = if update.id() % 3 == 0 {
                    Err(name("rejected"))
                } else {
                    Ok(UpdateResult::DocumentsAddition { nb_documents: 1 })
                };
                let status = controller.finish_update(&name("movies"), outcome).unwrap().unwrap();
                ended.push(status.id());
            }
        }
    }
    assert_eq!(ended, (0..n).collect::<Vec<u64>>());
    let all = controller.all_update_status(&name("movies")).unwrap();
    assert_eq!(all.len(), n as usize);
    for (i, status) in all.iter().enumerate() {
        assert!(status.is_terminal());
        assert_eq!(status.id(), i as u64);
        assert_eq!(status.failed().is_some(), i % 3 == 0);
        assert_eq!(status.processed().is_some(), i % 3 != 0);
    }
}

#[test]
fn updates_of_different_indexes_do_not_mix() {
    let mut controller = IndexController::new();
    add(&mut controller, "movies", b"m");
    add(&mut controller, "books", b"b");
    assert!(matches!(controller.process_next(&name("movies")).unwrap(), UpdateStep::Apply { .. }));
    assert!(matches!(
        controller.update_status(&name("books"), 0).unwrap(),
        Some(UpdateStatus::Enqueued(_))
    ));
    assert_eq!(controller.finish_update(&name("books"), Ok(UpdateResult::Other)), Ok(None));
    assert!(matches!(
        controller.update_status(&name("movies"), 0).unwrap(),
        Some(UpdateStatus::Processing(_))
    ));
}

#[test]
fn processing_an_unknown_index_is_not_found() {
    let mut controller = IndexController::new();
    assert_eq!(controller.process_next(&name("movies")), Err(ErrorKind::NotFound));
    assert_eq!(
        controller.finish_update(&name("movies"), Ok(UpdateResult::Other)),
        Err(ErrorKind::NotFound)
    );
}

#[test]
fn updates_without_payload_are_submitted_like_additions() {
    let mut controller = IndexController::new();
    let cleared = controller.clear_documents(name("movies")).unwrap();
    let settings = Settings { document: name("{\"searchableAttributes\":[\"title\"]}") };
    let changed = controller.update_settings(name("movies"), settings.clone()).unwrap();
    let facets = Facets { document: name("{\"levelGroupSize\":4}") };
    let faceted = controller.update_facets(name("movies"), facets.clone()).unwrap();
    assert_eq!(cleared, UpdateStatus::Enqueued(Enqueued::new(UpdateMeta::ClearDocuments, 0)));
    assert_eq!(changed, UpdateStatus::Enqueued(Enqueued::new(UpdateMeta::Settings(settings), 1)));
    assert_eq!(faceted, UpdateStatus::Enqueued(Enqueued::new(UpdateMeta::Facets(facets), 2)));
    match controller.process_next(&name("movies")).unwrap() {
        UpdateStep::Apply { update, documents } => {
            assert_eq!(update.meta(), &UpdateMeta::ClearDocuments);
            assert!(documents.is_empty());
        }
        other => panic!("unexpected step {:?}", other),
    }
}

#[test]
fn stubs_answer_unimplemented() {
    let mut controller = IndexController::new();
    let created = controller.create_index(movies(None)).unwrap();
    assert_eq!(
        controller.delete_documents(name("movies"), vec![name("1")]),
        Err(ErrorKind::Unimplemented)
    );
    assert_eq!(controller.update_index(name("movies"), movies(Some("id"))), Err(ErrorKind::Unimplemented));
    assert_eq!(controller.delete_index(name("movies")), Err(ErrorKind::Unimplemented));
    assert_eq!(controller.swap_indices(name("movies"), name("books")), Err(ErrorKind::Unimplemented));
    assert_eq!(controller.get_index(&name("movies")), Ok(created));
    assert_eq!(controller.all_update_status(&name("movies")), Ok(Vec::new()));
}

#[test]
fn list_indexes_follows_creation() {
    let mut controller = IndexController::new();
    let mut created: Vec<IndexMetadata> = Vec::new();
    for index in ["movies", "books", "songs"] {
        let settings = IndexSettings { name: Some(name(index)), primary_key: None };
        created.push(controller.create_index(settings).unwrap());
    }
    assert_eq!(controller.list_indexes(), Ok(created));
}

#[test]
fn create_index_with_binds_the_given_uuid_at_the_given_time() {
    let mut controller = IndexController::new();
    let uuid = IndexUuid::from_u128(42);
    let now = Timestamp { secs: 1_700_000_000, nanos: 17 };
    let created = controller.create_index_with(movies(Some("id")), uuid, now);
    let expected = IndexMetadata {
        uuid,
        created_at: now,
        updated_at: now,
        primary_key: Some(name("id")),
    };
    assert_eq!(created, Ok(expected.clone()));
    assert_eq!(controller.get_index(&name("movies")), Ok(expected));
    assert_eq!(controller.search(&name("movies")), Ok(uuid));
    let settings = IndexSettings { name: None, primary_key: None };
    assert_eq!(controller.create_index_with(settings, uuid, now), Err(ErrorKind::MissingName));
    assert_eq!(
        controller.create_index_with(movies(None), IndexUuid::from_u128(43), now),
        Err(ErrorKind::AlreadyExists)
    );
}

#[test]
fn a_uuid_that_is_live_already_leaves_the_name_bound_without_an_index_of_its_own() {
    let mut controller = IndexController::new();
    let uuid = IndexUuid::from_u128(42);
    let now = Timestamp { secs: 1, nanos: 0 };
    let first = controller.create_index_with(movies(None), uuid, now).unwrap();
    let books = IndexSettings { name: Some(name("books")), primary_key: Some(name("isbn")) };
    assert_eq!(
        controller.create_index_with(books.clone(), uuid, Timestamp { secs: 2, nanos: 0 }),
        Err(ErrorKind::AlreadyExists)
    );
    assert_eq!(controller.list_indexes(), Ok(vec![first.clone()]));
    assert_eq!(controller.search(&name("books")), Ok(uuid));
    assert_eq!(controller.get_index(&name("books")), Ok(first));
    assert_eq!(controller.create_index(books), Err(ErrorKind::AlreadyExists));
}

#[test]
fn finish_update_at_sets_the_time_of_the_last_update() {
    let mut controller = IndexController::new();
    let uuid = IndexUuid::from_u128(5);
    let created_at = Timestamp { secs: 100, nanos: 0 };
    controller.create_index_with(movies(None), uuid, created_at).unwrap();
    add(&mut controller, "movies", b"[{\"id\":1}]");
    add(&mut controller, "movies", b"[{\"id\":2}]");

    let idle = controller.finish_update_at(
        &name("movies"),
        Ok(UpdateResult::Other),
        Timestamp { secs: 150, nanos: 0 },
    );
    assert_eq!(idle, Ok(None));
    assert_eq!(controller.get_index(&name("movies")).unwrap().updated_at, created_at);

    controller.process_next(&name("movies")).unwrap();
    let failed = controller
        .finish_update_at(&name("movies"), Err(name("rejected")), Timestamp { secs: 200, nanos: 0 })
        .unwrap()
        .unwrap();
    assert!(failed.failed().is_some());
    assert_eq!(controller.get_index(&name("movies")).unwrap().updated_at, created_at);

    controller.process_next(&name("movies")).unwrap();
    let done_at = Timestamp { secs: 300, nanos: 9 };
    let processed = controller
        .finish_update_at(
            &name("movies"),
            Ok(UpdateResult::DocumentsAddition { nb_documents: 1 }),
            done_at,
        )
        .unwrap()
        .unwrap();
    assert_eq!(
        processed.processed().unwrap().success,
        UpdateResult::DocumentsAddition { nb_documents: 1 }
    );
    let metadata = controller.get_index(&name("movies")).unwrap();
    assert_eq!(metadata.created_at, created_at);
    assert_eq!(metadata.updated_at, done_at);
    assert_eq!(
        controller.finish_update_at(&name("books"), Ok(UpdateResult::Other), done_at),
        Err(ErrorKind::NotFound)
    );
}
