use chamsae::delivery::{outcome_of_status, Outcome};
use chamsae::error::FederationError;
use chamsae::keys::KeyStore;
use chamsae::resolver::{
    check_fetched_origin, classify_fetch_failure, expands_at, is_fresh, negative_entry_live,
    redirect_allowed, signature_step, FetchFailure, ObjectKind, SignatureStep,
};
use chamsae::uri::Uri;

fn uri(s: &str) -> Uri {
    Uri::parse(s).unwrap()
}

#[test]
fn users_are_fresh_for_an_hour_posts_forever() {
    assert!(is_fresh(ObjectKind::User, Some(1000), 4599));
    assert!(!is_fresh(ObjectKind::User, Some(1000), 4600));
    assert!(!is_fresh(ObjectKind::User, None, 0));
    assert!(is_fresh(ObjectKind::Post, Some(0), 1_000_000));
    assert!(!is_fresh(ObjectKind::Post, None, 5));
}

#[test]
fn redirects_stay_on_domain_and_are_bounded() {
    let a = uri("https://remote.test/a");
    let b = uri("https://remote.test/b");
    let c = uri("https://other.test/b");
    assert!(redirect_allowed(0, &a, &b));
    assert!(redirect_allowed(2, &a, &b));
    assert!(!redirect_allowed(3, &a, &b));
    assert!(!redirect_allowed(0, &a, &c));
}

#[test]
fn fetched_object_must_come_from_requested_host() {
    let req = uri("https://remote.test/users/alice");
    assert_eq!(check_fetched_origin(&req, &uri("https://remote.test/users/alice")), Ok(()));
    assert_eq!(
        check_fetched_origin(&req, &uri("https://evil.test/users/alice")),
        Err(FederationError::BadRequest)
    );
}

#[test]
fn depth_bound_and_negative_cache() {
    assert!(expands_at(3));
    assert!(!expands_at(4));
    assert!(negative_entry_live(100, 159));
    assert!(!negative_entry_live(100, 160));
}

#[test]
fn fetch_failures_and_delivery_statuses_are_classified() {
    assert_eq!(classify_fetch_failure(None), FetchFailure::Transient);
    assert_eq!(classify_fetch_failure(Some(404)), FetchFailure::Permanent);
    assert_eq!(classify_fetch_failure(Some(503)), FetchFailure::Transient);
    assert_eq!(outcome_of_status(Some(202)), Outcome::Delivered);
    assert_eq!(outcome_of_status(Some(410)), Outcome::Gone);
    assert_eq!(outcome_of_status(Some(403)), Outcome::Refused);
    assert_eq!(outcome_of_status(Some(500)), Outcome::Transient);
    assert_eq!(outcome_of_status(None), Outcome::Transient);
}

#[test]
fn signature_gets_one_key_refresh() {
    assert_eq!(signature_step(true, false), SignatureStep::Accept);
    assert_eq!(signature_step(false, false), SignatureStep::RefetchKey);
    assert_eq!(signature_step(false, true), SignatureStep::Reject);
    assert_eq!(signature_step(true, true), SignatureStep::Accept);
}

#[test]
fn key_cache_is_filled_and_refreshed() {
    let mut keys = KeyStore::new();
    let alice = "https://remote.test/users/alice".to_string();
    assert_eq!(keys.lookup(&alice), None);
    keys.remember(alice.clone(), "OLD".to_string());
    assert_eq!(keys.lookup(&alice), Some("OLD".to_string()));
    keys.remember(alice.clone(), "NEW".to_string());
    assert_eq!(keys.lookup(&alice), Some("NEW".to_string()));
    assert_eq!(keys.keys.len(), 1);
}
