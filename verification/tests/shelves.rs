use kobo_library::shelves::{is_meaningful_activity, new_shelf, ShelfRequest};
use kobo_library::repository::CleanupShelf;
use kobo_library::shelves::{after_claim, cleanup_action, download_deadline, download_may_continue, CleanupAction};
use kobo_library::error::ErrorStatus;
use kobo_library::repository::Shelf;
use kobo_library::shelves::{
    authorize_access, capability_from_bytes, hash_token, initial_deadlines, new_capability, unavailable,
    INACTIVITY_LIFETIME,
};

const HOUR: i64 = 3_600_000_000;
const NOW: i64 = 1_767_225_600_000_000;

fn stored(token: &str, created: i64) -> Shelf {
    let (expires_at, hard_expires_at) = initial_deadlines(created);
    Shelf {
        id: "shelf".to_string(),
        token_hash: hash_token(token),
        state: "active".to_string(),
        revision: 0,
        expires_at,
        hard_expires_at,
    }
}

#[test]
fn creates_high_entropy_capability_and_stores_only_hash() {
    let created = new_capability();
    assert_eq!(created.token.len(), 43);
    assert!(created
        .token
        .bytes()
        .all(|byte| byte.is_ascii_alphanumeric() || matches!(byte, b'-' | b'_')));
    assert_eq!(created.token_hash.len(), 32);
    assert_ne!(created.token_hash, created.token.as_bytes());
    let shelf = stored(&created.token, NOW);
    assert!(authorize_access(Some(shelf), &hash_token(&created.token), NOW, false).is_ok());
}

#[test]
fn unknown_and_expired_capabilities_have_the_same_error() {
    let created = new_capability();
    let unknown = authorize_access(None, &hash_token("not-a-capability"), NOW, false).unwrap_err();
    let shelf = stored(&created.token, NOW);
    let expired =
        authorize_access(Some(shelf), &hash_token(&created.token), NOW + 12 * HOUR, false).unwrap_err();

    assert_eq!(unknown.to_string(), expired.to_string());
    assert_eq!(unknown.status, expired.status);
    assert_eq!(unknown.message, expired.message);
    assert_eq!(unknown.status, ErrorStatus::NotFound);
}

#[test]
fn polling_does_not_extend_but_explicit_access_does() {
    let created = new_capability();
    let hash = hash_token(&created.token);
    let later = NOW + 11 * HOUR;

    let polled = authorize_access(Some(stored(&created.token, NOW)), &hash, later, false).unwrap();
    assert_eq!(polled.extend_to, None);
    assert_eq!(polled.shelf.expires_at, NOW + 12 * HOUR);

    let explicit = authorize_access(Some(stored(&created.token, NOW)), &hash, later, true).unwrap();
    assert_eq!(explicit.extend_to, Some(NOW + 23 * HOUR));
}

#[test]
fn extension_is_capped_by_the_hard_deadline() {
    let token = "t";
    let mut shelf = stored(token, NOW);
    shelf.expires_at = NOW + 23 * HOUR;
    let access = authorize_access(Some(shelf), &hash_token(token), NOW + 20 * HOUR, true).unwrap();
    assert_eq!(access.extend_to, Some(NOW + 24 * HOUR));
    assert_eq!(INACTIVITY_LIFETIME, 12 * HOUR);
}

#[test]
fn wrong_hash_or_inactive_shelf_is_refused() {
    let token = "t";
    assert!(authorize_access(Some(stored(token, NOW)), &hash_token("u"), NOW, false).is_err());
    let mut expiring = stored(token, NOW);
    expiring.state = "expiring".to_string();
    assert!(authorize_access(Some(expiring), &hash_token(token), NOW, false).is_err());
    assert!(authorize_access(Some(stored(token, NOW)), &hash_token(token), NOW + 24 * HOUR, false).is_err());
    assert_eq!(unavailable().message, "Shelf not found or expired.");
}

#[test]
fn capability_encoding_is_base64url_of_the_random_bytes() {
    let capability = capability_from_bytes(&[0u8; 32]);
    assert_eq!(capability.token, "AAAAAAAAAAAAAAAAAAAAAAAAAAAAAAAAAAAAAAAAAAA");
    assert_eq!(capability.token_hash, hash_token(&capability.token));
    let other = capability_from_bytes(&[0xffu8; 32]);
    assert_eq!(other.token, "__________________________________________8");
}

#[test]
fn downloads_get_five_minutes_after_expiry() {

    let shelf = stored("token", NOW);
    let deadline = download_deadline(&shelf);
    assert_eq!(deadline, NOW + 12 * HOUR + 300_000_000);
    assert!(download_may_continue(deadline, NOW + 12 * HOUR + 299_999_999));
    assert!(!download_may_continue(deadline, deadline));

    let mut capped = stored("token", NOW);
    capped.expires_at = i64::MAX;
    capped.hard_expires_at = i64::MAX - 1;
    assert_eq!(download_deadline(&capped), i64::MAX);
}

#[test]
fn cleanup_claims_active_shelves_and_retries_expiring_ones() {

    let candidate = |state: &str| CleanupShelf { id: "id".to_string(), state: state.to_string() };
    assert_eq!(cleanup_action(&candidate("active")), CleanupAction::Claim);
    assert_eq!(cleanup_action(&candidate("expiring")), CleanupAction::Remove);
    assert_eq!(cleanup_action(&candidate("gone")), CleanupAction::Skip);
    assert_eq!(after_claim(true), CleanupAction::Remove);
    assert_eq!(after_claim(false), CleanupAction::Skip);
}

#[test]
fn new_shelves_store_only_the_hash_and_start_active() {
    let shelf = new_shelf(NOW);
    assert_eq!(shelf.capability.token.len(), 43);
    assert_eq!(shelf.record.token_hash, hash_token(&shelf.capability.token));
    assert_eq!(shelf.record.token_hash, shelf.capability.token_hash);
    assert_eq!(shelf.record.state, "active");
    assert_eq!(shelf.record.revision, 0);
    assert_eq!(shelf.record.expires_at, NOW + 12 * HOUR);
    assert_eq!(shelf.record.hard_expires_at, NOW + 24 * HOUR);
    assert!(kobo_library::storage::validate_id(&shelf.record.id).is_ok());
    assert!(!shelf.record.id.contains(&shelf.capability.token));
}

#[test]
fn only_explicit_actions_count_as_activity() {
    assert!(is_meaningful_activity(ShelfRequest::Page));
    assert!(is_meaningful_activity(ShelfRequest::Upload));
    assert!(is_meaningful_activity(ShelfRequest::Download));
    assert!(is_meaningful_activity(ShelfRequest::Delete));
    assert!(!is_meaningful_activity(ShelfRequest::Poll));
    assert!(!is_meaningful_activity(ShelfRequest::QrCode));
}
