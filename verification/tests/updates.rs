use index_controller::model::{
    clone_status, IndexDocumentsMethod, UpdateFormat, UpdateMeta, UpdateResult, UpdateStatus,
};
use index_controller::updates::{Enqueued, Failed, Processed, Processing};

fn addition() -> UpdateMeta {
    UpdateMeta::DocumentsAddition {
        method: IndexDocumentsMethod::ReplaceDocuments,
        format: UpdateFormat::Json,
        primary_key: Some("id".to_string()),
    }
}

#[test]
fn enqueued_keeps_id_and_meta() {
    let enqueued = Enqueued::new(addition(), 7);
    assert_eq!(enqueued.id(), 7);
    assert_eq!(enqueued.meta(), &addition());
    assert_eq!(enqueued.update_id, 7);
}

#[test]
fn processing_wraps_the_enqueued_update() {
    let processing = Enqueued::new(UpdateMeta::ClearDocuments, 3).processing();
    assert_eq!(processing.id(), 3);
    assert_eq!(processing.meta(), &UpdateMeta::ClearDocuments);
    assert_eq!(processing, Processing { from: Enqueued { update_id: 3, meta: UpdateMeta::ClearDocuments } });
}

#[test]
fn process_ends_in_processed() {
    let processing = Enqueued::new(addition(), 1).processing();
    let processed = processing.process(UpdateResult::DocumentsAddition { nb_documents: 12 });
    assert_eq!(processed.id(), 1);
    assert_eq!(processed.meta(), &addition());
    assert_eq!(processed.success, UpdateResult::DocumentsAddition { nb_documents: 12 });
}

#[test]
fn fail_ends_in_failed_with_the_error() {
    let processing = Enqueued::new(addition(), 2).processing();
    let failed = processing.fail("connection reset".to_string());
    assert_eq!(failed.id(), 2);
    assert_eq!(failed.meta(), &addition());
    assert_eq!(failed.error, "connection reset".to_string());
}

#[test]
fn status_reports_id_meta_and_terminality() {
    let enqueued: UpdateStatus = UpdateStatus::Enqueued(Enqueued::new(addition(), 4));
    let processing: UpdateStatus =
        UpdateStatus::Processing(Enqueued::new(addition(), 4).processing());
    let processed: UpdateStatus = UpdateStatus::Processed(
        Enqueued::new(addition(), 4).processing().process(UpdateResult::Other),
    );
    let failed: UpdateStatus =
        UpdateStatus::Failed(Enqueued::new(addition(), 4).processing().fail("e".to_string()));
    for status in [&enqueued, &processing, &processed, &failed] {
        assert_eq!(status.id(), 4);
        assert_eq!(status.meta(), &addition());
    }
    assert!(!enqueued.is_terminal());
    assert!(!processing.is_terminal());
    assert!(processed.is_terminal());
    assert!(failed.is_terminal());
}

#[test]
fn processed_and_failed_are_exclusive() {
    let processed: UpdateStatus = UpdateStatus::Processed(Processed {
        success: UpdateResult::DocumentDeletion { deleted: 2 },
        from: Enqueued::new(UpdateMeta::DeleteDocuments, 0).processing(),
    });
    let failed: UpdateStatus = UpdateStatus::Failed(Failed {
        error: "engine".to_string(),
        from: Enqueued::new(UpdateMeta::DeleteDocuments, 0).processing(),
    });
    assert!(processed.processed().is_some());
    assert!(processed.failed().is_none());
    assert!(failed.failed().is_some());
    assert!(failed.processed().is_none());
    assert_eq!(processed.processed().unwrap().success, UpdateResult::DocumentDeletion { deleted: 2 });
    assert_eq!(failed.failed().unwrap().error, "engine".to_string());
    let enqueued: UpdateStatus = UpdateStatus::Enqueued(Enqueued::new(UpdateMeta::DeleteDocuments, 0));
    assert!(enqueued.processed().is_none());
    assert!(enqueued.failed().is_none());
}

#[test]
fn clones_equal_what_they_were_made_from() {
    let failed: UpdateStatus =
        UpdateStatus::Failed(Enqueued::new(addition(), 9).processing().fail("broken".to_string()));
    assert_eq!(clone_status(&failed), failed);
    assert_eq!(failed.clone(), failed);
    let processed: UpdateStatus = UpdateStatus::Processed(
        Enqueued::new(addition(), 9)
            .processing()
            .process(UpdateResult::DocumentsAddition { nb_documents: 1 }),
    );
    assert_eq!(processed.clone(), processed);
    assert_ne!(processed, failed);
    let enqueued = Enqueued::new(addition(), 9);
    assert_eq!(enqueued.clone(), enqueued);
    assert_eq!(enqueued.clone().processing().clone(), enqueued.processing());
}
