//! Shelf capabilities and the rules that authorize a request to a shelf.

use vstd::prelude::*;
use crate::crypto::{
    base64_url_no_pad, base64_url_shape, constant_time_eq, encode_base64_url, is_base64_url_char,
    random_token_bytes, sha256_of_text, sha256_text,
};
use crate::error::{AppError, AppResult, ErrorStatus};
use crate::repository::{CleanupShelf, Shelf};
use crate::storage::{new_uuid, uuid_valid};

verus! {

/// Twelve hours in microseconds: how long a shelf lives after meaningful
/// activity.
pub const INACTIVITY_LIFETIME: i64 = 43_200_000_000;

/// Twenty-four hours in microseconds: how long a shelf lives at most.
pub const MAXIMUM_LIFETIME: i64 = 86_400_000_000;

/// The source of the current time, in microseconds since the Unix epoch.
pub trait Clock: Send + Sync {
    fn now(&self) -> i64;
}

/// The wall clock.
pub struct SystemClock;

/// `chrono::Utc::now().timestamp_micros()`.
///
/// Trusted for nothing: the result is the time at the call.
#[verifier::external_body]
fn utc_now_micros() -> i64 {
    chrono::Utc::now().timestamp_micros()
}

impl Clock for SystemClock {
    fn now(&self) -> i64 {
        utc_now_micros()
    }
}

/// A freshly created shelf: the capability handed to the client.
#[derive(Debug)]
pub struct CreatedShelf {
    pub token: String,
}

/// A new capability and the hash under which the shelf stores it.
#[derive(Debug)]
pub struct Capability {
    pub token: String,
    pub token_hash: Vec<u8>,
}

/// The hash stored for a capability: SHA-256 of its text.
pub fn hash_token(token: &str) -> (r: Vec<u8>)
    ensures
        r@ == sha256_of_text(token@),
        r@.len() == 32,
{
    sha256_text(token)
}

/// The capability made from 32 random bytes: their URL-safe base64 text
/// (43 characters) and its hash.
pub fn capability_from_bytes(random: &[u8]) -> (r: Capability)
    requires
        random@.len() == 32,
    ensures
        r.token@ == base64_url_no_pad(random@),
        r.token@.len() == 43,
        forall|i: int| 0 <= i < r.token@.len() ==> is_base64_url_char(#[trigger] r.token@[i]),
        r.token_hash@ == sha256_of_text(r.token@),
        r.token_hash@.len() == 32,
{
    let token = encode_base64_url(random);
    proof {
        base64_url_shape(random@);
    }
    let token_hash = hash_token(token.as_str());
    Capability { token, token_hash }
}

/// A new capability from 256 bits of operating-system randomness.
pub fn new_capability() -> (r: Capability)
    ensures
        r.token@.len() == 43,
        forall|i: int| 0 <= i < r.token@.len() ==> is_base64_url_char(#[trigger] r.token@[i]),
        r.token_hash@ == sha256_of_text(r.token@),
        r.token_hash@.len() == 32,
{
    let bytes = random_token_bytes();
    capability_from_bytes(bytes.as_slice())
}

/// The inactivity and hard expiry times of a shelf created at `now`.
pub fn initial_deadlines(now: i64) -> (r: (i64, i64))
    requires
        now <= i64::MAX - MAXIMUM_LIFETIME,
    ensures
        r.0 == now + INACTIVITY_LIFETIME,
        r.1 == now + MAXIMUM_LIFETIME,
{
    (now + INACTIVITY_LIFETIME, now + MAXIMUM_LIFETIME)
}

/// The requests a capability authorizes.
#[derive(Debug, Clone, Copy, PartialEq, Eq, Structural)]
pub enum ShelfRequest {
    /// Opening the shelf page.
    Page,
    /// Polling the book list.
    Poll,
    /// Loading the shelf's QR image.
    QrCode,
    /// Uploading a book.
    Upload,
    /// Downloading a book.
    Download,
    /// Deleting a book.
    Delete,
}

/// Entering the shelf page, uploading, downloading and deleting are
/// meaningful activity; polling and QR image loads are not.
pub open spec fn spec_is_meaningful(request: ShelfRequest) -> bool {
    match request {
        ShelfRequest::Poll | ShelfRequest::QrCode => false,
        _ => true,
    }
}

/// Whether a request extends the shelf's inactivity deadline.
pub fn is_meaningful_activity(request: ShelfRequest) -> (r: bool)
    ensures
        r == spec_is_meaningful(request),
{
    match request {
        ShelfRequest::Poll | ShelfRequest::QrCode => false,
        _ => true,
    }
}

/// A shelf about to be created: the capability handed to the client and the
/// record stored for it.
#[derive(Debug)]
pub struct NewShelf {
    pub capability: Capability,
    pub record: Shelf,
}

/// Draws a capability and a fresh UUID and builds the record of a shelf
/// created at `now`: it stores only the capability's hash, is `active`, is
/// at revision 0 and expires after twelve idle and at most twenty-four hours.
pub fn new_shelf(now: i64) -> (r: NewShelf)
    requires
        now <= i64::MAX - MAXIMUM_LIFETIME,
    ensures
        r.capability.token@.len() == 43,
        forall|i: int| 0 <= i < r.capability.token@.len() ==> is_base64_url_char(#[trigger] r.capability.token@[i]),
        r.capability.token_hash@ == sha256_of_text(r.capability.token@),
        r.record.token_hash@ == sha256_of_text(r.capability.token@),
        uuid_valid(r.record.id@),
        r.record.state@ == active_state(),
        r.record.revision == 0,
        r.record.expires_at == now + INACTIVITY_LIFETIME,
        r.record.hard_expires_at == now + MAXIMUM_LIFETIME,
{
    let capability = new_capability();
    let token_hash = hash_token(capability.token.as_str());
    let id = new_uuid();
    let (expires_at, hard_expires_at) = initial_deadlines(now);
    let active = vec!['a', 'c', 't', 'i', 'v', 'e'];
    assert(active@ == active_state());
    let record = Shelf {
        id,
        token_hash,
        state: crate::text::string_of(&active),
        revision: 0,
        expires_at,
        hard_expires_at,
    };
    NewShelf { capability, record }
}

/// The one answer to every refused capability, unknown or expired.
pub fn unavailable() -> (r: AppError)
    ensures
        r.status == ErrorStatus::NotFound,
        r.message@ == unavailable_message(),
        r.details@ == unavailable_message(),
{
    AppError::not_found("Shelf not found or expired.")
}

pub open spec fn unavailable_message() -> Seq<char> {
    "Shelf not found or expired."@
}

/// `active`
pub open spec fn active_state() -> Seq<char> {
    seq!['a', 'c', 't', 'i', 'v', 'e']
}

/// A request holding a capability whose hash is `supplied_hash` may use
/// `shelf` at `now`: the hashes match, the shelf is active and neither of its
/// deadlines has passed.
pub open spec fn access_allowed(shelf: Shelf, supplied_hash: Seq<u8>, now: int) -> bool {
    &&& shelf.token_hash@ == supplied_hash
    &&& shelf.state@ == active_state()
    &&& now < shelf.expires_at
    &&& now < shelf.hard_expires_at
}

/// The inactivity deadline after meaningful activity at `now`: twelve hours
/// later, but never past the hard deadline.
pub open spec fn extended_deadline(now: int, hard_expires_at: int) -> int {
    if now + INACTIVITY_LIFETIME < hard_expires_at {
        now + INACTIVITY_LIFETIME
    } else {
        hard_expires_at
    }
}

/// An authorized request: the shelf, and the new inactivity deadline to
/// record when the request counts as meaningful activity.
#[derive(Debug)]
pub struct Access {
    pub shelf: Shelf,
    pub extend_to: Option<i64>,
}

fn is_active(state: &String) -> (r: bool)
    ensures
        r == (state@ == active_state()),
{
    let s = crate::text::chars_of(state.as_str());
    if s.len() != 6 {
        return false;
    }
    let r = s[0] == 'a' && s[1] == 'c' && s[2] == 't' && s[3] == 'i' && s[4] == 'v' && s[5]
        == 'e';
    proof {
        if r {
            assert(s@ =~= active_state());
        }
    }
    r
}

/// Decides a request to a shelf. `shelf` is what the repository found under
/// the hash of the supplied capability, `supplied_hash` that hash.
///
/// The request is refused with the same error whether the capability is
/// unknown, the stored hash differs, the shelf is no longer active or a
/// deadline has passed. Polling (`meaningful_activity` false) never moves a
/// deadline; meaningful activity moves the inactivity deadline to twelve hours
/// after `now`, capped by the hard deadline.
pub fn authorize_access(
    shelf: Option<Shelf>,
    supplied_hash: &[u8],
    now: i64,
    meaningful_activity: bool,
) -> (r: AppResult<Access>)
    requires
        meaningful_activity ==> now <= i64::MAX - INACTIVITY_LIFETIME,
    ensures
        r is Ok <==> (shelf matches Some(s) && access_allowed(s, supplied_hash@, now as int)),
        r matches Err(e) ==> e.status == ErrorStatus::NotFound && e.message@
            == unavailable_message() && e.details@ == unavailable_message(),
        r matches Ok(a) ==> Some(a.shelf) == shelf,
        r matches Ok(a) ==> (if meaningful_activity {
            a.extend_to == Some(extended_deadline(now as int, a.shelf.hard_expires_at as int) as i64)
        } else {
            a.extend_to.is_none()
        }),
{
    let shelf = match shelf {
        Some(s) => s,
        None => return Err(unavailable()),
    };
    if shelf.token_hash.len() != supplied_hash.len() || !constant_time_eq(
        shelf.token_hash.as_slice(),
        supplied_hash,
    ) {
        return Err(unavailable());
    }
    if !is_active(&shelf.state) || now >= shelf.expires_at || now >= shelf.hard_expires_at {
        return Err(unavailable());
    }
    let extend_to = if meaningful_activity {
        let soft = now + INACTIVITY_LIFETIME;
        Some(if soft < shelf.hard_expires_at { soft } else { shelf.hard_expires_at })
    } else {
        None
    };
    Ok(Access { shelf, extend_to })
}

/// Meaningful activity never keeps a shelf past its hard deadline: the new
/// inactivity deadline is twelve hours after the activity or the hard
/// deadline, whichever comes first, and it lies after the activity whenever
/// the hard deadline does.
pub proof fn extension_respects_hard_deadline(now: int, hard_expires_at: int)
    ensures
        extended_deadline(now, hard_expires_at) <= hard_expires_at,
        extended_deadline(now, hard_expires_at) <= now + INACTIVITY_LIFETIME,
        extended_deadline(now, hard_expires_at) == now + INACTIVITY_LIFETIME || extended_deadline(now, hard_expires_at) == hard_expires_at,
        now < hard_expires_at ==> now < extended_deadline(now, hard_expires_at),
{
}

/// Whatever makes a request fail (an unknown capability, a hash that does
/// not match, a shelf no longer active, a passed deadline), the answer is
/// the same: a refused capability cannot be told apart from an expired one.
pub proof fn refused_capabilities_are_indistinguishable(
    first: Option<Shelf>,
    first_hash: Seq<u8>,
    first_now: int,
    second: Option<Shelf>,
    second_hash: Seq<u8>,
    second_now: int,
)
    requires
        !(first matches Some(s) && access_allowed(s, first_hash, first_now)),
        !(second matches Some(s) && access_allowed(s, second_hash, second_now)),
    ensures
        refusal_for(first, first_hash, first_now) == refusal_for(second, second_hash, second_now),
{
}

/// The status and message a refused request is answered with.
pub open spec fn refusal_for(shelf: Option<Shelf>, supplied_hash: Seq<u8>, now: int) -> Option<(ErrorStatus, Seq<char>)> {
    if shelf matches Some(s) && access_allowed(s, supplied_hash, now) {
        None
    } else {
        Some((ErrorStatus::NotFound, unavailable_message()))
    }
}


/// Five minutes in microseconds: how long a download that started while its
/// shelf was active may go on after the shelf expires.
pub const DOWNLOAD_GRACE: i64 = 300_000_000;

/// When the shelf expires: its inactivity or its hard deadline, whichever
/// comes first.
pub open spec fn expiry_of(shelf: Shelf) -> int {
    if shelf.expires_at < shelf.hard_expires_at { shelf.expires_at as int } else { shelf.hard_expires_at as int }
}

/// The moment a download of an authorized shelf is cut off: five minutes
/// after the shelf expires (the largest time, if that is later).
pub open spec fn spec_download_deadline(shelf: Shelf) -> int {
    if expiry_of(shelf) + DOWNLOAD_GRACE <= i64::MAX { expiry_of(shelf) + DOWNLOAD_GRACE } else { i64::MAX as int }
}

/// The deadline of a download authorized on `shelf`.
pub fn download_deadline(shelf: &Shelf) -> (r: i64)
    ensures
        r == spec_download_deadline(*shelf),
{
    let expiry = if shelf.expires_at < shelf.hard_expires_at { shelf.expires_at } else { shelf.hard_expires_at };
    if expiry <= i64::MAX - DOWNLOAD_GRACE {
        expiry + DOWNLOAD_GRACE
    } else {
        i64::MAX
    }
}

/// A download may go on reading at `now` until its deadline.
pub fn download_may_continue(deadline: i64, now: i64) -> (r: bool)
    ensures
        r == (now < deadline),
{
    now < deadline
}

/// A download started while its shelf was active may go on until five
/// minutes after the shelf expires, and no longer.
pub proof fn downloads_end_within_the_grace_period(shelf: Shelf, now: int)
    requires
        expiry_of(shelf) + DOWNLOAD_GRACE <= i64::MAX,
    ensures
        now < expiry_of(shelf) + DOWNLOAD_GRACE <==> now < spec_download_deadline(shelf),
        now < expiry_of(shelf) ==> now < spec_download_deadline(shelf),
{
}

/// What cleanup does next with a shelf it has to look at.
#[derive(Debug, Clone, Copy, PartialEq, Eq, Structural)]
pub enum CleanupAction {
    /// Mark the active, expired shelf `expiring`, so no new upload or
    /// mutation can start, before anything is removed.
    Claim,
    /// Remove its files, then its record.
    Remove,
    /// Leave it alone.
    Skip,
}

/// `expiring`
pub open spec fn expiring_state() -> Seq<char> {
    seq!['e', 'x', 'p', 'i', 'r', 'i', 'n', 'g']
}

/// The first step for a cleanup candidate: an active shelf is claimed
/// first; a shelf already expiring (a claim that an earlier run did not
/// finish) is removed again; any other state is left alone.
pub fn cleanup_action(candidate: &CleanupShelf) -> (r: CleanupAction)
    ensures
        candidate.state@ == active_state() ==> r == CleanupAction::Claim,
        candidate.state@ == expiring_state() ==> r == CleanupAction::Remove,
        candidate.state@ != active_state() && candidate.state@ != expiring_state() ==> r == CleanupAction::Skip,
{
    if is_active(&candidate.state) {
        return CleanupAction::Claim;
    }
    let s = crate::text::chars_of(candidate.state.as_str());
    let e = vec!['e', 'x', 'p', 'i', 'r', 'i', 'n', 'g'];
    assert(e@ == expiring_state());
    if s.len() == 8 && s[0] == e[0] && s[1] == e[1] && s[2] == e[2] && s[3] == e[3] && s[4] == e[4]
        && s[5] == e[5] && s[6] == e[6] && s[7] == e[7] {
        assert(s@ =~= expiring_state());
        CleanupAction::Remove
    } else {
        proof {
            if s@ == expiring_state() {
                assert(s@[0] == e@[0]);
            }
        }
        CleanupAction::Skip
    }
}

/// The step after a claim: the shelf is removed only when this run claimed
/// it; a shelf that someone else claimed, or that came back to life, is
/// left alone.
pub fn after_claim(claimed: bool) -> (r: CleanupAction)
    ensures
        r == (if claimed { CleanupAction::Remove } else { CleanupAction::Skip }),
{
    if claimed { CleanupAction::Remove } else { CleanupAction::Skip }
}

} // verus!
