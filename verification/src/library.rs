//! The decisions of the upload, publication and recovery flow.

use vstd::prelude::*;
use crate::text::opt_chars;
use crate::books::{
    kepub_suffix, kepub_suffix_chars, kobo_filename, spec_kobo_filename, spec_title_from_filename,
    title_from_filename, Book,
};
use crate::epub::{is_kepub, kepub_scan, BookMetadata};
use crate::archive::{zip_listing, zip_readable};
use crate::config::Config;
use crate::error::{AppError, AppResult, ErrorStatus};
use crate::text::{chars_of, extend_str, lower_seq, seq_ends_with, string_of};

verus! {

/// `pending`
pub open spec fn pending_status() -> Seq<char> {
    seq!['p', 'e', 'n', 'd', 'i', 'n', 'g']
}

/// `ready`
pub open spec fn ready_status() -> Seq<char> {
    seq!['r', 'e', 'a', 'd', 'y']
}

/// `deleting`
pub open spec fn deleting_status() -> Seq<char> {
    seq!['d', 'e', 'l', 'e', 't', 'i', 'n', 'g']
}

fn status_string(s: &Vec<char>) -> (r: String)
    ensures
        r@ == s@,
{
    string_of(s)
}

/// A converted upload is stored without running kepubify again when its
/// name already ends (ignoring ASCII case) with `.kepub.epub`, or when its
/// markup already carries Kobo spans. An archive that cannot be inspected
/// counts as not converted.
pub fn should_skip_conversion(original_name: &str, upload: Vec<u8>) -> (r: bool)
    ensures
        r == (seq_ends_with(lower_seq(original_name@), kepub_suffix())
            || (zip_readable(upload@) && kepub_scan(zip_listing(upload@)) == Some(true))),
{
    let name = chars_of(original_name);
    let suffix = kepub_suffix_chars();
    if crate::books::ends_with_ignore_case(&name, &suffix) {
        return true;
    }
    match is_kepub(upload) {
        Ok(b) => b,
        Err(_) => false,
    }
}

/// The record of a book whose converted file is being published: stored as
/// `ID.kepub.epub`, downloaded under the Kobo filename of the upload, titled
/// by its metadata or else by that filename.
pub fn pending_book(
    shelf_id: &str,
    book_id: &str,
    original_name: &str,
    metadata: BookMetadata,
    uploaded_at: i64,
) -> (r: Book)
    ensures
        r.id@ == book_id@,
        r.shelf_id@ == shelf_id@,
        r.status@ == pending_status(),
        r.filename@ == spec_kobo_filename(original_name@),
        r.title@ == match metadata.title {
            Some(t) => t@,
            None => spec_title_from_filename(spec_kobo_filename(original_name@)),
        },
        opt_chars(r.author) == opt_chars(metadata.author),
        r.original_name@ == original_name@,
        r.stored_filename@ == book_id@ + ".kepub.epub"@,
        r.size == 0,
        r.uploaded_at == uploaded_at,
{
    let filename = kobo_filename(original_name);
    let mut stored = chars_of(book_id);
    extend_str(&mut stored, ".kepub.epub");
    let title = match metadata.title {
        Some(t) => t,
        None => title_from_filename(filename.as_str()),
    };
    let pending = vec!['p', 'e', 'n', 'd', 'i', 'n', 'g'];
    assert(pending@ == pending_status());
    Book {
        id: String::from_str(book_id),
        shelf_id: String::from_str(shelf_id),
        status: status_string(&pending),
        title,
        author: metadata.author,
        filename,
        original_name: String::from_str(original_name),
        stored_filename: string_of(&stored),
        size: 0,
        uploaded_at,
    }
}

/// The book once its file is published: ready, with the file's size.
pub fn published_book(book: Book, size: i64) -> (r: Book)
    ensures
        r.status@ == ready_status(),
        r.size == size,
        r.id == book.id,
        r.shelf_id == book.shelf_id,
        r.title == book.title,
        r.author == book.author,
        r.filename == book.filename,
        r.original_name == book.original_name,
        r.stored_filename == book.stored_filename,
        r.uploaded_at == book.uploaded_at,
{
    let ready = vec!['r', 'e', 'a', 'd', 'y'];
    assert(ready@ == ready_status());
    Book { status: status_string(&ready), size, ..book }
}

/// Publication must change exactly the pending record it was asked to.
pub fn check_publication(changed: bool) -> (r: AppResult<()>)
    ensures
        r is Ok <==> changed,
        r matches Err(e) ==> e.status == ErrorStatus::InternalServerError
            && e.details@ == "book publication state changed unexpectedly"@,
{
    if changed {
        Ok(())
    } else {
        Err(AppError::internal("book publication state changed unexpectedly"))
    }
}

/// What was found at a book's stored path.
pub enum FileProbe {
    /// A file of this many bytes.
    Present(u64),
    /// Nothing.
    Missing,
    /// The lookup failed; its explanation.
    Failed(String),
}

/// What recovery does with a book left unfinished by a crash.
#[derive(Debug, PartialEq, Eq, Structural)]
pub enum ReconcileAction {
    /// Publish it with the file's size.
    Finalize(i64),
    /// Drop the record of an upload whose file never arrived.
    DiscardPending,
    /// Remove the file, if any, and the record of a book being deleted.
    FinishDeleting,
}

/// Recovery of one unfinished book: a pending book is published when its
/// file exists and dropped when it does not; a book being deleted is
/// deleted; any other state, or a failed lookup, is an error.
pub fn reconcile_action(status: &str, file: FileProbe) -> (r: AppResult<ReconcileAction>)
    ensures
        status@ == pending_status() ==> match file {
            FileProbe::Present(n) => r == Ok::<ReconcileAction, AppError>(ReconcileAction::Finalize(n as i64)),
            FileProbe::Missing => r == Ok::<ReconcileAction, AppError>(ReconcileAction::DiscardPending),
            FileProbe::Failed(m) => r matches Err(e) && e.status == ErrorStatus::InternalServerError && e.details@ == m@,
        },
        status@ == deleting_status() ==> r == Ok::<ReconcileAction, AppError>(ReconcileAction::FinishDeleting),
        status@ != pending_status() && status@ != deleting_status() ==> (r matches Err(e)
            && e.status == ErrorStatus::InternalServerError && e.details@ == "unknown book persistence state"@),
{
    let s = String::from_str(status);
    let pending = status_string(&vec!['p', 'e', 'n', 'd', 'i', 'n', 'g']);
    let deleting = status_string(&vec!['d', 'e', 'l', 'e', 't', 'i', 'n', 'g']);
    assert(pending@ == pending_status());
    assert(deleting@ == deleting_status());
    if s == pending {
        match file {
            FileProbe::Present(n) => Ok(ReconcileAction::Finalize(n as i64)),
            FileProbe::Missing => Ok(ReconcileAction::DiscardPending),
            FileProbe::Failed(m) => Err(AppError::internal(m.as_str())),
        }
    } else if s == deleting {
        Ok(ReconcileAction::FinishDeleting)
    } else {
        Err(AppError::internal("unknown book persistence state"))
    }
}


/// The action recovery takes for a book in `status` with `file` at its
/// stored path; `None` when it refuses (an unknown state, or a pending
/// book whose file lookup failed).
pub open spec fn spec_reconcile_action(status: Seq<char>, file: FileProbe) -> Option<ReconcileAction> {
    if status == pending_status() {
        match file {
            FileProbe::Present(n) => Some(ReconcileAction::Finalize(n as i64)),
            FileProbe::Missing => Some(ReconcileAction::DiscardPending),
            FileProbe::Failed(_) => None,
        }
    } else if status == deleting_status() {
        Some(ReconcileAction::FinishDeleting)
    } else {
        None
    }
}

/// The operator details of a refusal.
pub open spec fn reconcile_error_details(status: Seq<char>, file: FileProbe) -> Seq<char> {
    match file {
        FileProbe::Failed(m) => if status == pending_status() { m@ } else { "unknown book persistence state"@ },
        _ => "unknown book persistence state"@,
    }
}

/// A book that recovery finds unfinished: its status and what is at its
/// stored path.
pub struct UnfinishedBook {
    pub status: String,
    pub file: FileProbe,
}

/// Recovery of every unfinished book, in order: the action for each, up to
/// the first book it refuses, and the error for that book if there is one.
pub fn reconcile_all(books: Vec<UnfinishedBook>) -> (r: (Vec<ReconcileAction>, Option<AppError>))
    ensures
        r.0@.len() <= books@.len(),
        forall|i: int| 0 <= i < r.0@.len() ==> spec_reconcile_action(books@[i].status@, books@[i].file)
            == Some(#[trigger] r.0@[i]),
        r.1 is None <==> r.0@.len() == books@.len(),
        r.1 matches Some(e) ==> spec_reconcile_action(books@[r.0@.len() as int].status@, books@[r.0@.len() as int].file) is None
            && e.status == ErrorStatus::InternalServerError
            && e.details@ == reconcile_error_details(books@[r.0@.len() as int].status@, books@[r.0@.len() as int].file),
{
    let ghost all = books@;
    let mut rest = books;
    let mut actions: Vec<ReconcileAction> = Vec::new();
    while rest.len() > 0
        invariant
            all == books@,
            actions@.len() <= all.len(),
            rest@ == all.skip(actions@.len() as int),
            forall|i: int| 0 <= i < actions@.len() ==> spec_reconcile_action(all[i].status@, all[i].file)
                == Some(#[trigger] actions@[i]),
        decreases rest@.len(),
    {
        let ghost k = actions@.len() as int;
        let book = rest.remove(0);
        assert(book == all[k]);
        match reconcile_action(book.status.as_str(), book.file) {
            Ok(a) => {
                actions.push(a);
                assert(rest@ =~= all.skip(k + 1));
            },
            Err(e) => {
                return (actions, Some(e));
            },
        }
    }
    (actions, None)
}

/// What becomes of a book's status after its recovery action: published
/// books are ready; discarded and deleted books are gone.
pub open spec fn status_after(action: ReconcileAction) -> Option<Seq<char>> {
    match action {
        ReconcileAction::Finalize(_) => Some(ready_status()),
        ReconcileAction::DiscardPending => None,
        ReconcileAction::FinishDeleting => None,
    }
}

/// A full recovery pass leaves no book pending or being deleted: a pending
/// book with a file becomes ready with the file's size, one without is
/// dropped, and a book being deleted is gone. So a second pass finds nothing
/// unfinished and changes nothing.
pub proof fn recovery_leaves_nothing_unfinished(books: Seq<UnfinishedBook>, actions: Seq<ReconcileAction>)
    requires
        actions.len() == books.len(),
        forall|i: int| 0 <= i < actions.len() ==> spec_reconcile_action(books[i].status@, books[i].file)
            == Some(#[trigger] actions[i]),
    ensures
        forall|i: int| 0 <= i < actions.len() ==> #[trigger] status_after(actions[i]) != Some(pending_status())
            && status_after(actions[i]) != Some(deleting_status()),
        forall|i: int| 0 <= i < actions.len() && books[i].status@ == pending_status() ==> (books[i].file matches FileProbe::Present(n)
            ==> #[trigger] actions[i] == ReconcileAction::Finalize(n as i64)),
        forall|i: int| 0 <= i < actions.len() ==> (books[i].status@ == deleting_status() ==> #[trigger] status_after(actions[i]) is None),
{
    assert forall|i: int| 0 <= i < actions.len() implies #[trigger] status_after(actions[i]) != Some(pending_status())
        && status_after(actions[i]) != Some(deleting_status()) by {
        if status_after(actions[i]) == Some(pending_status()) {
            assert(ready_status()[0] != pending_status()[0]);
        }
        if status_after(actions[i]) == Some(deleting_status()) {
            assert(ready_status()[0] != deleting_status()[0]);
        }
    }
    assert forall|i: int| 0 <= i < actions.len() implies (books[i].status@ == deleting_status() ==> #[trigger] status_after(actions[i]) is None) by {
        if books[i].status@ == deleting_status() {
            assert(pending_status()[0] != deleting_status()[0]);
            assert(spec_reconcile_action(books[i].status@, books[i].file) == Some(actions[i]));
        }
    }
}

/// What is already stored in ready books: the shelf's count and bytes, and
/// the bytes of the whole service.
#[derive(Debug, Clone, Copy)]
pub struct StoredUsage {
    pub shelf_books: i64,
    pub shelf_bytes: i64,
    pub service_bytes: i64,
}

/// Why a book may not be added.
#[derive(Debug, Clone, Copy, PartialEq, Eq, Structural)]
pub enum QuotaRefusal {
    /// The file alone is larger than one upload may be.
    FileTooLarge,
    /// The shelf already holds the most books it may hold.
    TooManyBooks,
    /// The shelf's books would take more bytes than a shelf may.
    ShelfFull,
    /// The service's books would take more bytes than it may store.
    ServiceFull,
}

/// The first limit that a new book of `size` bytes would break, if any:
/// the per-file limit, then the book count, the shelf bytes and the service
/// bytes. Each applies on its own.
pub open spec fn quota_refusal(usage: StoredUsage, size: int, config: Config) -> Option<QuotaRefusal> {
    if size > config.max_upload_bytes {
        Some(QuotaRefusal::FileTooLarge)
    } else if usage.shelf_books >= config.max_books_per_shelf {
        Some(QuotaRefusal::TooManyBooks)
    } else if usage.shelf_bytes + size > config.max_shelf_bytes {
        Some(QuotaRefusal::ShelfFull)
    } else if usage.service_bytes + size > config.max_service_bytes {
        Some(QuotaRefusal::ServiceFull)
    } else {
        None
    }
}

/// The client message for each refusal.
pub open spec fn quota_message(refusal: QuotaRefusal) -> Seq<char> {
    match refusal {
        QuotaRefusal::FileTooLarge => "The EPUB exceeds the upload size limit."@,
        QuotaRefusal::TooManyBooks => "This shelf already holds the maximum number of books."@,
        QuotaRefusal::ShelfFull => "This shelf has no room left for the EPUB."@,
        QuotaRefusal::ServiceFull => "The library is full. Try again later."@,
    }
}

/// Whether a book of `size` bytes may join the shelf: it must fit the
/// per-file limit, the shelf must hold fewer books than its limit, and the
/// shelf's and the service's ready bytes must stay within their limits. A
/// refusal is answered with 413 and the message of the first limit broken.
pub fn check_quota(usage: StoredUsage, size: u64, config: &Config) -> (r: AppResult<()>)
    ensures
        r is Ok <==> quota_refusal(usage, size as int, *config) is None,
        r matches Err(e) ==> e.status == ErrorStatus::PayloadTooLarge
            && e.message@ == quota_message(quota_refusal(usage, size as int, *config).unwrap()),
{
    let n: i128 = size as i128;
    if n > config.max_upload_bytes as i128 {
        Err(AppError::payload_too_large("The EPUB exceeds the upload size limit."))
    } else if usage.shelf_books >= config.max_books_per_shelf {
        Err(AppError::payload_too_large("This shelf already holds the maximum number of books."))
    } else if usage.shelf_bytes as i128 + n > config.max_shelf_bytes as i128 {
        Err(AppError::payload_too_large("This shelf has no room left for the EPUB."))
    } else if usage.service_bytes as i128 + n > config.max_service_bytes as i128 {
        Err(AppError::payload_too_large("The library is full. Try again later."))
    } else {
        Ok(())
    }
}

/// A book that passes the quota check keeps the shelf within its book
/// count and byte limit and the service within its byte limit once added.
pub proof fn accepted_books_keep_the_quotas(usage: StoredUsage, size: int, config: Config)
    requires
        quota_refusal(usage, size, config) is None,
    ensures
        size <= config.max_upload_bytes,
        usage.shelf_books + 1 <= config.max_books_per_shelf,
        usage.shelf_bytes + size <= config.max_shelf_bytes,
        usage.service_bytes + size <= config.max_service_bytes,
{
}

/// The steps of storing an upload, in the order they are taken.
#[derive(Debug, Clone, Copy, PartialEq, Eq, Structural)]
pub enum UploadStep {
    /// Check the upload's size against the quotas, before any conversion.
    CheckUploadQuota,
    /// Check the upload's member count and uncompressed size.
    ValidateArchive,
    /// Move the upload unchanged to the staged path (it is already a kepub).
    StageUnchanged,
    /// Convert the upload into the staged path, then remove the upload.
    Convert,
    /// Check the staged file's size against the quotas.
    CheckStagedQuota,
    /// Record the book as pending.
    InsertPending,
    /// Move the staged file to the book's final path.
    MoveToFinal,
    /// Mark the pending record ready with the final file's size.
    Finalize,
    /// Remove the staged file, then fail.
    DiscardStaged,
    /// The book is published.
    Succeed,
    /// The upload is refused or failed.
    Fail,
}

/// The step after `step`, given whether it went through. A staged file is
/// removed whenever the flow fails before its record exists; once the record
/// exists, recovery at startup finishes or discards it.
pub open spec fn spec_next_upload_step(step: UploadStep, skip_conversion: bool, ok: bool) -> UploadStep {
    match step {
        UploadStep::CheckUploadQuota => if ok { UploadStep::ValidateArchive } else { UploadStep::Fail },
        UploadStep::ValidateArchive => if !ok {
            UploadStep::Fail
        } else if skip_conversion {
            UploadStep::StageUnchanged
        } else {
            UploadStep::Convert
        },
        UploadStep::StageUnchanged => if ok { UploadStep::CheckStagedQuota } else { UploadStep::Fail },
        UploadStep::Convert => if ok { UploadStep::CheckStagedQuota } else { UploadStep::Fail },
        UploadStep::CheckStagedQuota => if ok { UploadStep::InsertPending } else { UploadStep::DiscardStaged },
        UploadStep::InsertPending => if ok { UploadStep::MoveToFinal } else { UploadStep::DiscardStaged },
        UploadStep::MoveToFinal => if ok { UploadStep::Finalize } else { UploadStep::Fail },
        UploadStep::Finalize => if ok { UploadStep::Succeed } else { UploadStep::Fail },
        UploadStep::DiscardStaged => UploadStep::Fail,
        UploadStep::Succeed => UploadStep::Succeed,
        UploadStep::Fail => UploadStep::Fail,
    }
}

/// The first step of storing an upload.
pub fn first_upload_step() -> (r: UploadStep)
    ensures
        r == UploadStep::CheckUploadQuota,
{
    UploadStep::CheckUploadQuota
}

/// The step that follows `step` when it went through (`ok`) or not.
pub fn next_upload_step(step: UploadStep, skip_conversion: bool, ok: bool) -> (r: UploadStep)
    ensures
        r == spec_next_upload_step(step, skip_conversion, ok),
{
    match step {
        UploadStep::CheckUploadQuota => if ok { UploadStep::ValidateArchive } else { UploadStep::Fail },
        UploadStep::ValidateArchive => if !ok {
            UploadStep::Fail
        } else if skip_conversion {
            UploadStep::StageUnchanged
        } else {
            UploadStep::Convert
        },
        UploadStep::StageUnchanged => if ok { UploadStep::CheckStagedQuota } else { UploadStep::Fail },
        UploadStep::Convert => if ok { UploadStep::CheckStagedQuota } else { UploadStep::Fail },
        UploadStep::CheckStagedQuota => if ok { UploadStep::InsertPending } else { UploadStep::DiscardStaged },
        UploadStep::InsertPending => if ok { UploadStep::MoveToFinal } else { UploadStep::DiscardStaged },
        UploadStep::MoveToFinal => if ok { UploadStep::Finalize } else { UploadStep::Fail },
        UploadStep::Finalize => if ok { UploadStep::Succeed } else { UploadStep::Fail },
        UploadStep::DiscardStaged => UploadStep::Fail,
        UploadStep::Succeed => UploadStep::Succeed,
        UploadStep::Fail => UploadStep::Fail,
    }
}

/// How far a step is from the end of the flow.
pub open spec fn upload_steps_left(step: UploadStep) -> nat {
    match step {
        UploadStep::CheckUploadQuota => 8,
        UploadStep::ValidateArchive => 7,
        UploadStep::StageUnchanged => 6,
        UploadStep::Convert => 6,
        UploadStep::CheckStagedQuota => 5,
        UploadStep::InsertPending => 4,
        UploadStep::MoveToFinal => 3,
        UploadStep::Finalize => 2,
        UploadStep::DiscardStaged => 1,
        UploadStep::Succeed => 0,
        UploadStep::Fail => 0,
    }
}

/// The flow always ends: every step before the end is followed by one
/// nearer to it. Success is reached only from finalizing, and finalizing is
/// reached only from moving the file after its record was inserted, so no
/// book is published without its record, and the file is moved only after
/// both quota checks passed; nothing is converted before the upload passed
/// the quota and archive checks.
pub proof fn upload_flow_is_ordered(step: UploadStep, skip_conversion: bool, ok: bool)
    ensures
        step != UploadStep::Succeed && step != UploadStep::Fail ==> upload_steps_left(
            spec_next_upload_step(step, skip_conversion, ok),
        ) < upload_steps_left(step),
        spec_next_upload_step(step, skip_conversion, ok) == UploadStep::Succeed ==> step
            == UploadStep::Finalize || step == UploadStep::Succeed,
        spec_next_upload_step(step, skip_conversion, ok) == UploadStep::Finalize ==> step
            == UploadStep::MoveToFinal && ok,
        spec_next_upload_step(step, skip_conversion, ok) == UploadStep::MoveToFinal ==> step
            == UploadStep::InsertPending && ok,
        spec_next_upload_step(step, skip_conversion, ok) == UploadStep::InsertPending ==> step
            == UploadStep::CheckStagedQuota && ok,
        spec_next_upload_step(step, skip_conversion, ok) == UploadStep::Convert ==> step
            == UploadStep::ValidateArchive && ok && !skip_conversion,
        spec_next_upload_step(step, skip_conversion, ok) == UploadStep::ValidateArchive ==> step
            == UploadStep::CheckUploadQuota && ok,
{
}


/// The step reached from `step` after `n` steps that all go through.
pub open spec fn steps_all_ok(step: UploadStep, skip_conversion: bool, n: nat) -> UploadStep
    decreases n,
{
    if n == 0 {
        step
    } else {
        steps_all_ok(spec_next_upload_step(step, skip_conversion, true), skip_conversion, (n - 1) as nat)
    }
}

/// When every step goes through, an upload is published: from the first
/// step, and from every step short of the discard and failure steps, eight
/// successful steps end in `Succeed`, whether the upload is converted or an
/// existing kepub is passed through unchanged. A step that fails never
/// publishes the book: it leads to the discard or failure step.
pub proof fn successful_steps_publish_the_book(step: UploadStep, skip_conversion: bool)
    ensures
        step != UploadStep::Fail && step != UploadStep::DiscardStaged ==> steps_all_ok(step, skip_conversion, 8)
            == UploadStep::Succeed,
        step != UploadStep::Succeed ==> spec_next_upload_step(step, skip_conversion, false) == UploadStep::Fail
            || spec_next_upload_step(step, skip_conversion, false) == UploadStep::DiscardStaged,
        spec_next_upload_step(UploadStep::ValidateArchive, skip_conversion, true) == (if skip_conversion {
            UploadStep::StageUnchanged
        } else {
            UploadStep::Convert
        }),
        spec_next_upload_step(UploadStep::StageUnchanged, skip_conversion, true) == UploadStep::CheckStagedQuota,
        spec_next_upload_step(UploadStep::Convert, skip_conversion, true) == UploadStep::CheckStagedQuota,
{
    reveal_with_fuel(steps_all_ok, 9);
}

} // verus!
