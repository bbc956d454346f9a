use kobo_library::library::{reconcile_all, UnfinishedBook};
use kobo_library::config::Config;
use kobo_library::error::ErrorStatus;
use kobo_library::library::{check_quota, first_upload_step, next_upload_step, StoredUsage, UploadStep};
use std::io::{Cursor, Write};

use kobo_library::conversion::{conversion_result, kepubify_arguments, process_limits, ConversionEnd, ResourceLimit};
use kobo_library::epub::BookMetadata;
use kobo_library::library::{
    check_publication, pending_book, published_book, reconcile_action, should_skip_conversion, FileProbe,
    ReconcileAction,
};

#[test]
fn pending_book_takes_its_names_from_the_upload() {
    let book = pending_book("shelf", "id1", "My Book.epub", BookMetadata::default(), 7);
    assert_eq!(book.status, "pending");
    assert_eq!(book.filename, "My Book.kepub.epub");
    assert_eq!(book.title, "My Book");
    assert_eq!(book.stored_filename, "id1.kepub.epub");
    assert_eq!(book.size, 0);
    assert_eq!(book.uploaded_at, 7);

    let metadata = BookMetadata { title: Some("Dune".to_string()), author: Some("Herbert".to_string()) };
    let titled = pending_book("shelf", "id2", "x.epub", metadata, 7);
    assert_eq!(titled.title, "Dune");
    assert_eq!(titled.author.as_deref(), Some("Herbert"));

    let ready = published_book(titled, 1234);
    assert_eq!(ready.status, "ready");
    assert_eq!(ready.size, 1234);
    assert_eq!(ready.id, "id2");
}

#[test]
fn conversion_is_skipped_for_existing_kepubs() {
    assert!(should_skip_conversion("Dune.KEPUB.EPUB", b"not a zip".to_vec()));
    assert!(!should_skip_conversion("Dune.epub", b"not a zip".to_vec()));
    let mut writer = zip::ZipWriter::new(Cursor::new(Vec::new()));
    writer.start_file("a.xhtml", zip::write::SimpleFileOptions::default()).unwrap();
    writer.write_all(b"<span class=\"koboSpan\"/>").unwrap();
    let bytes = writer.finish().unwrap().into_inner();
    assert!(should_skip_conversion("Dune.epub", bytes));
}

#[test]
fn reconciliation_decides_each_unfinished_book() {
    assert_eq!(reconcile_action("pending", FileProbe::Present(5)).unwrap(), ReconcileAction::Finalize(5));
    assert_eq!(reconcile_action("pending", FileProbe::Missing).unwrap(), ReconcileAction::DiscardPending);
    assert_eq!(reconcile_action("deleting", FileProbe::Missing).unwrap(), ReconcileAction::FinishDeleting);
    assert_eq!(
        reconcile_action("pending", FileProbe::Failed("denied".to_string())).unwrap_err().details,
        "denied"
    );
    assert_eq!(
        reconcile_action("ready", FileProbe::Missing).unwrap_err().details,
        "unknown book persistence state"
    );
    assert!(check_publication(true).is_ok());
    assert!(check_publication(false).is_err());
}

#[test]
fn kepubify_is_run_with_fixed_arguments_and_limits() {
    assert_eq!(kepubify_arguments("out.kepub.epub", "in.epub"), ["-v", "-u", "-o", "out.kepub.epub", "in.epub"]);
    let limits = process_limits();
    assert_eq!(limits[0], (ResourceLimit::AddressSpace, 1024 * 1024 * 1024));
    assert_eq!(limits[1], (ResourceLimit::CpuTime, 300));
    assert_eq!(limits[2], (ResourceLimit::FileSize, 600 * 1024 * 1024));
    assert_eq!(limits[3], (ResourceLimit::OpenFiles, 256));
    assert!(conversion_result(ConversionEnd::Exited(true, "exit status: 0".to_string())).is_ok());
    assert_eq!(
        conversion_result(ConversionEnd::Exited(false, "exit status: 1".to_string())).unwrap_err().details,
        "kepubify exited with status exit status: 1"
    );
    assert_eq!(conversion_result(ConversionEnd::TimedOut).unwrap_err().details, "kepubify conversion timed out");
}

#[test]
fn quotas_refuse_each_limit_in_turn() {

    const MIB: u64 = 1024 * 1024;
    let config = Config::for_test("/tmp/epub-drop-quota-test", None, None);
    let empty = StoredUsage { shelf_books: 0, shelf_bytes: 0, service_bytes: 0 };
    assert!(check_quota(empty, 10 * MIB, &config).is_ok());

    let too_large = check_quota(empty, 100 * MIB + 1, &config).unwrap_err();
    assert_eq!(too_large.status, ErrorStatus::PayloadTooLarge);
    assert_eq!(too_large.message, "The EPUB exceeds the upload size limit.");

    let full_count = StoredUsage { shelf_books: 20, shelf_bytes: 0, service_bytes: 0 };
    assert_eq!(
        check_quota(full_count, 1, &config).unwrap_err().message,
        "This shelf already holds the maximum number of books."
    );
    let nineteen = StoredUsage { shelf_books: 19, shelf_bytes: 0, service_bytes: 0 };
    assert!(check_quota(nineteen, 1, &config).is_ok());

    let shelf_bytes = StoredUsage { shelf_books: 5, shelf_bytes: 450 * MIB as i64, service_bytes: 450 * MIB as i64 };
    assert!(check_quota(shelf_bytes, 50 * MIB, &config).is_ok());
    assert_eq!(
        check_quota(shelf_bytes, 50 * MIB + 1, &config).unwrap_err().message,
        "This shelf has no room left for the EPUB."
    );

    let service = StoredUsage { shelf_books: 0, shelf_bytes: 0, service_bytes: 10 * 1024 * MIB as i64 };
    assert_eq!(
        check_quota(service, 1, &config).unwrap_err().message,
        "The library is full. Try again later."
    );
}

#[test]
fn upload_steps_follow_the_publication_order() {

    let mut step = first_upload_step();
    assert_eq!(step, UploadStep::CheckUploadQuota);
    let mut seen = vec![step];
    while step != UploadStep::Succeed {
        step = next_upload_step(step, false, true);
        seen.push(step);
    }
    assert_eq!(
        seen,
        vec![
            UploadStep::CheckUploadQuota,
            UploadStep::ValidateArchive,
            UploadStep::Convert,
            UploadStep::CheckStagedQuota,
            UploadStep::InsertPending,
            UploadStep::MoveToFinal,
            UploadStep::Finalize,
            UploadStep::Succeed,
        ]
    );
    assert_eq!(next_upload_step(UploadStep::ValidateArchive, true, true), UploadStep::StageUnchanged);
    assert_eq!(next_upload_step(UploadStep::ValidateArchive, false, false), UploadStep::Fail);
    assert_eq!(next_upload_step(UploadStep::CheckUploadQuota, true, false), UploadStep::Fail);
    assert_eq!(next_upload_step(UploadStep::CheckStagedQuota, false, false), UploadStep::DiscardStaged);
    assert_eq!(next_upload_step(UploadStep::InsertPending, false, false), UploadStep::DiscardStaged);
    assert_eq!(next_upload_step(UploadStep::DiscardStaged, false, true), UploadStep::Fail);
    assert_eq!(next_upload_step(UploadStep::MoveToFinal, false, false), UploadStep::Fail);
    assert_eq!(next_upload_step(UploadStep::Finalize, false, false), UploadStep::Fail);
}

#[test]
fn recovery_plans_every_book_until_the_first_refusal() {
    let book = |status: &str, file: FileProbe| UnfinishedBook { status: status.to_string(), file };
    let (actions, refusal) = reconcile_all(vec![
        book("pending", FileProbe::Present(10)),
        book("pending", FileProbe::Missing),
        book("deleting", FileProbe::Missing),
    ]);
    assert_eq!(
        actions,
        vec![ReconcileAction::Finalize(10), ReconcileAction::DiscardPending, ReconcileAction::FinishDeleting]
    );
    assert!(refusal.is_none());

    let (actions, refusal) = reconcile_all(vec![
        book("deleting", FileProbe::Missing),
        book("ready", FileProbe::Missing),
        book("pending", FileProbe::Missing),
    ]);
    assert_eq!(actions, vec![ReconcileAction::FinishDeleting]);
    assert_eq!(refusal.unwrap().details, "unknown book persistence state");

    let (actions, refusal) = reconcile_all(Vec::new());
    assert!(actions.is_empty() && refusal.is_none());
}
