use chamsae::config::{
    default_database_database, default_database_host, default_database_password,
    default_database_port, default_database_user, default_listen_addr, Config, ConfigError,
    EnvValues,
};
use chamsae::delivery::{
    accept_delivery, backoff_delay, cancel_deliveries, distinct_inboxes, follow_delivery,
    jittered_delay, plan_deliveries, record_at, undo_follow_delivery, DeliveryJob, JobStatus,
    Outcome, ABANDON_AFTER_SECS,
};
use chamsae::error::FederationError;
use chamsae::inbox::{Activity, ActivityKind, InboxReply, InboxState};
use chamsae::like::Like;
use chamsae::store::{FollowRow, ReactionRow, Store};
use chamsae::user::Model;
use chamsae::uri::{verify_domains_match, Uri};

const OWNER: u128 = 1;
const ALICE: u128 = 2;
const BOB: u128 = 3;
const NOW: u64 = 1_000_000;

fn uri(s: &str) -> Uri {
    Uri::parse(s).unwrap()
}

fn user(id: u128, uri: &str, inbox: &str, shared: &str) -> Model {
    Model {
        id,
        created_at: 0,
        updated_at: None,
        last_fetched_at: None,
        handle: format!("user{id}"),
        name: String::new(),
        follower_count: 0,
        following_count: 0,
        post_count: 0,
        avatar_id: None,
        banner_id: None,
        is_bot: false,
        host: "remote.test".to_string(),
        inbox: inbox.to_string(),
        shared_inbox: shared.to_string(),
        uri: uri.to_string(),
        tombstoned: false,
    }
}

fn node() -> InboxState {
    let mut state = InboxState::new();
    state.store.users.push(user(OWNER, "https://example.org/ap/user", "https://example.org/ap/inbox", ""));
    state.store.users.push(user(
        ALICE,
        "https://remote.test/users/alice",
        "https://remote.test/users/alice/inbox",
        "https://remote.test/inbox",
    ));
    state.store.users.push(user(
        BOB,
        "https://remote.test/users/bob",
        "https://remote.test/users/bob/inbox",
        "https://remote.test/inbox",
    ));
    state
}

fn alice_key() -> Uri {
    uri("https://remote.test/users/alice#main-key")
}

fn activity(id: &str, object: &str, kind: ActivityKind) -> Activity {
    Activity { id: uri(id), actor: uri("https://remote.test/users/alice"), object: uri(object), kind }
}

fn undo_kind() -> ActivityKind {
    ActivityKind::UndoFollow {
        follow_actor: "https://remote.test/users/alice".to_string(),
        follow_object: "https://example.org/ap/user".to_string(),
    }
}

fn alice_follow() -> Activity {
    activity("https://remote.test/act/1", "https://example.org/ap/user", ActivityKind::Follow)
}

fn owner_of(state: &InboxState) -> &Model {
    &state.store.users[0]
}

#[test]
fn defaults_are_the_documented_ones() {
    assert_eq!(default_listen_addr(), "0.0.0.0:3000");
    assert_eq!(default_database_host(), "localhost");
    assert_eq!(default_database_port(), 5432);
    assert_eq!(default_database_user(), "postgres");
    assert_eq!(default_database_password(), "chamsae");
    assert_eq!(default_database_database(), "postgres");
}

fn env(domain: &str) -> EnvValues {
    EnvValues {
        domain: domain.to_string(),
        listen_addr: None,
        database_host: Some("db".to_string()),
        database_port: None,
        database_user: None,
        database_password: None,
        database_database: None,
        user_handle: "owner".to_string(),
        user_password_bcrypt: "hash".to_string(),
        user_public_key_path: "pub.pem".to_string(),
        user_private_key_path: "priv.pem".to_string(),
    }
}

#[test]
fn config_builds_owner_uris_and_applies_defaults() {
    let c = Config::from_values(env("example.org"), "PUB".to_string(), "PRIV".to_string()).ok().unwrap();
    let id = c.user_id.unwrap();
    assert_eq!(id.href, "https://example.org/ap/user");
    assert_eq!(id.domain.as_deref(), Some("example.org"));
    assert_eq!(c.inbox_url.unwrap().href, "https://example.org/ap/inbox");
    assert_eq!(c.listen_addr, "0.0.0.0:3000");
    assert_eq!(c.database_host, "db");
    assert_eq!(c.database_port, 5432);
    assert_eq!(c.user_public_key, "PUB");
    assert_eq!(c.user_private_key, "PRIV");
}

#[test]
fn config_rejects_a_domain_that_makes_no_url() {
    let r = Config::from_values(env("exa mple.org"), String::new(), String::new());
    assert!(matches!(r, Err(ConfigError::IdUrl)));
}

#[test]
fn uri_parse_reads_domain_and_rejects_garbage() {
    let u = uri("https://Remote.Test/users/alice");
    assert_eq!(u.href, "https://remote.test/users/alice");
    assert_eq!(u.domain.as_deref(), Some("remote.test"));
    assert_eq!(Uri::parse("not a uri").err(), Some(FederationError::BadRequest));
}

#[test]
fn domains_match_only_on_equal_domains() {
    let a = uri("https://remote.test/users/alice");
    let b = uri("https://remote.test/act/1");
    let c = uri("https://other.test/act/1");
    assert_eq!(verify_domains_match(&a, &b), Ok(()));
    assert_eq!(verify_domains_match(&a, &c), Err(FederationError::BadRequest));
}

#[test]
fn error_statuses() {
    assert_eq!(FederationError::BadRequest.status(), 400);
    assert_eq!(FederationError::Unauthorized.status(), 401);
    assert_eq!(FederationError::NotFound.status(), 404);
    assert_eq!(FederationError::Conflict.status(), 409);
    assert_eq!(FederationError::Upstream.status(), 502);
    assert_eq!(FederationError::Internal.status(), 500);
}

#[test]
fn follow_creates_pending_row_and_accept() {
    let mut state = node();
    let r = state.receive(true, &alice_key(), alice_follow(), Some(ALICE), true, OWNER, NOW);
    assert_eq!(r, InboxReply { status: 202, send_accept: true });
    assert_eq!(state.store.follows.len(), 1);
    let f = &state.store.follows[0];
    assert_eq!(f.uri, "https://remote.test/act/1");
    assert_eq!((f.source, f.target, f.accepted), (ALICE, OWNER, false));
    assert_eq!(state.seen.len(), 1);
    assert_eq!(state.seen[0].id, "https://remote.test/act/1");
    assert_eq!(state.seen[0].at, NOW);
}

#[test]
fn bad_signature_is_refused_without_row() {
    let mut state = node();
    let r = state.receive(false, &alice_key(), alice_follow(), Some(ALICE), true, OWNER, NOW);
    assert_eq!(r, InboxReply { status: 401, send_accept: false });
    assert!(state.store.follows.is_empty());
    assert!(state.seen.is_empty());
}

#[test]
fn undo_follow_removes_row() {
    let mut state = node();
    state.receive(true, &alice_key(), alice_follow(), Some(ALICE), true, OWNER, NOW);
    let undo = activity("https://remote.test/act/3", "https://remote.test/act/1", undo_kind());
    let r = state.receive(true, &alice_key(), undo, Some(ALICE), true, OWNER, NOW);
    assert_eq!(r.status, 202);
    assert!(state.store.follows.is_empty());
    assert_eq!(owner_of(&state).follower_count, 0);
}

#[test]
fn origin_mismatch_is_refused() {
    let mut state = node();
    let foreign_id = activity("https://evil.test/act/1", "https://example.org/ap/user", ActivityKind::Follow);
    let r = state.receive(true, &alice_key(), foreign_id, Some(ALICE), true, OWNER, NOW);
    assert_eq!(r.status, 400);
    let other_key = uri("https://evil.test/users/mallory#main-key");
    let r = state.receive(true, &other_key, alice_follow(), Some(ALICE), true, OWNER, NOW);
    assert_eq!(r.status, 400);
    let undo_foreign = activity("https://remote.test/act/4", "https://evil.test/act/1", undo_kind());
    let r = state.receive(true, &alice_key(), undo_foreign, Some(ALICE), true, OWNER, NOW);
    assert_eq!(r.status, 400);
    assert!(state.store.follows.is_empty());
    assert!(state.seen.is_empty());
}

#[test]
fn unresolved_actor_is_upstream_failure() {
    let mut state = node();
    let r = state.receive(true, &alice_key(), alice_follow(), None, true, OWNER, NOW);
    assert_eq!(r.status, 502);
    assert!(state.store.follows.is_empty());
}

#[test]
fn replayed_follow_is_applied_once() {
    let mut state = node();
    state.receive(true, &alice_key(), alice_follow(), Some(ALICE), true, OWNER, NOW);
    let r = state.receive(true, &alice_key(), alice_follow(), Some(ALICE), true, OWNER, NOW);
    assert_eq!(r, InboxReply { status: 202, send_accept: false });
    assert_eq!(state.store.follows.len(), 1);
    assert_eq!(state.seen.len(), 1);
}

#[test]
fn like_replay_leaves_one_reaction() {
    let mut state = node();
    let like = || Like {
        id: uri("https://remote.test/act/2"),
        actor: uri("https://remote.test/users/alice"),
        object: uri("https://example.org/ap/post/p"),
        content: "\u{1F44D}".to_string(),
    };
    assert_eq!(state.receive(true, &alice_key(), like().into_activity(), Some(ALICE), true, OWNER, NOW).status, 202);
    assert_eq!(state.receive(true, &alice_key(), like().into_activity(), Some(ALICE), true, OWNER, NOW).status, 202);
    assert_eq!(state.store.reactions.len(), 1);
    let r = &state.store.reactions[0];
    assert_eq!(r.uri, "https://remote.test/act/2");
    assert_eq!(r.post, "https://example.org/ap/post/p");
    assert_eq!(r.content, "\u{1F44D}");
    assert_eq!(r.actor, ALICE);
    let undo = activity("https://remote.test/act/5", "https://remote.test/act/2", ActivityKind::UndoLike);
    assert_eq!(state.receive(true, &alice_key(), undo, Some(ALICE), true, OWNER, NOW).status, 202);
    assert!(state.store.reactions.is_empty());
}

fn owner_follows_alice(state: &mut InboxState) {
    let r = state.store.follow_user(OWNER, ALICE, "https://example.org/ap/follow/f1".to_string());
    assert_eq!(r, Ok(true));
}

#[test]
fn follow_then_accept_counts_on_both_users() {
    let mut state = node();
    owner_follows_alice(&mut state);
    assert_eq!(state.store.users[1].follower_count, 0);
    let accept = activity("https://remote.test/act/6", "https://example.org/ap/follow/f1", ActivityKind::Accept { follow_actor: "https://example.org/ap/user".to_string(), follow_object: "https://remote.test/users/alice".to_string() });
    assert_eq!(state.receive(true, &alice_key(), accept, Some(ALICE), true, OWNER, NOW).status, 202);
    assert!(state.store.follows[0].accepted);
    assert_eq!(state.store.users[1].follower_count, 1);
    assert_eq!(owner_of(&state).following_count, 1);
    assert_eq!(owner_of(&state).follower_count, 0);
}

#[test]
fn follow_then_reject_removes_row() {
    let mut state = node();
    owner_follows_alice(&mut state);
    let reject = activity("https://remote.test/act/7", "https://example.org/ap/follow/f1", ActivityKind::Reject { follow_actor: "https://example.org/ap/user".to_string(), follow_object: "https://remote.test/users/alice".to_string() });
    assert_eq!(state.receive(true, &alice_key(), reject, Some(ALICE), true, OWNER, NOW).status, 202);
    assert!(state.store.follows.is_empty());
    assert_eq!(state.store.users[1].follower_count, 0);
    assert_eq!(owner_of(&state).following_count, 0);
}

#[test]
fn follow_user_needs_a_known_user_and_is_not_repeated() {
    let mut store = node().store;
    assert_eq!(store.follow_user(OWNER, 99, "https://example.org/ap/follow/x".to_string()), Err(FederationError::NotFound));
    assert_eq!(store.follow_user(OWNER, ALICE, "https://example.org/ap/follow/a".to_string()), Ok(true));
    assert_eq!(store.follow_user(OWNER, ALICE, "https://example.org/ap/follow/b".to_string()), Ok(false));
    assert_eq!(store.follows.len(), 1);
}

#[test]
fn unfollow_user_hands_back_the_row() {
    let mut store = node().store;
    assert!(store.unfollow_user(ALICE).is_none());
    store.follow_user(OWNER, ALICE, "https://example.org/ap/follow/a".to_string()).unwrap();
    let row = store.unfollow_user(ALICE).unwrap();
    assert_eq!(row.uri, "https://example.org/ap/follow/a");
    assert_eq!(row.target, ALICE);
    assert!(store.follows.is_empty());
}

#[test]
fn post_goes_once_to_each_shared_inbox() {
    let mut store = node().store;
    for (uri, source) in [("https://remote.test/act/a", ALICE), ("https://remote.test/act/b", BOB)] {
        assert!(store.insert_follow(FollowRow { uri: uri.to_string(), source, target: OWNER, accepted: false }));
        assert!(store.accept_follow(&uri.to_string(), OWNER));
    }
    store.users.push(user(4, "https://solo.test/u", "https://solo.test/u/inbox", ""));
    assert!(store.insert_follow(FollowRow { uri: "https://solo.test/f".to_string(), source: 4, target: OWNER, accepted: false }));
    assert!(store.insert_follow(FollowRow { uri: "https://solo.test/g".to_string(), source: 4, target: ALICE, accepted: true }));
    store.refresh_counters();
    assert_eq!(store.follower_inboxes(OWNER), vec!["https://remote.test/inbox".to_string()]);
    assert!(store.accept_follow(&"https://solo.test/f".to_string(), OWNER));
    assert_eq!(
        store.follower_inboxes(OWNER),
        vec!["https://remote.test/inbox".to_string(), "https://solo.test/u/inbox".to_string()]
    );
    assert_eq!(store.users[0].follower_count, 3);
    let jobs = store.plan_post_delivery(OWNER, 9);
    assert_eq!(jobs.len(), 2);
    assert_eq!(jobs[0].inbox, "https://remote.test/inbox");
    assert_eq!(jobs[1].inbox, "https://solo.test/u/inbox");
    assert_eq!(jobs[1].job, DeliveryJob::new(9));
}

#[test]
fn reaction_store_upserts_by_uri() {
    let mut store = Store::new();
    let row = || ReactionRow { uri: "u".to_string(), actor: 1, post: "p".to_string(), content: "c".to_string() };
    assert!(store.insert_reaction(row()));
    assert!(!store.insert_reaction(row()));
    let newer = ReactionRow { uri: "u".to_string(), actor: 2, post: "q".to_string(), content: "d".to_string() };
    assert!(!store.insert_reaction(newer));
    assert_eq!(store.reactions.len(), 1);
    assert_eq!((store.reactions[0].actor, store.reactions[0].post.as_str(), store.reactions[0].content.as_str()), (2, "q", "d"));
    assert!(!store.remove_reaction(&"u".to_string(), 1));
    assert!(store.remove_reaction(&"u".to_string(), 2));
    assert!(!store.remove_reaction(&"u".to_string(), 2));
}

#[test]
fn like_verify_and_send() {
    let like = Like {
        id: uri("https://example.org/ap/like/1"),
        actor: uri("https://example.org/ap/user"),
        object: uri("https://remote.test/post/9"),
        content: "+".to_string(),
    };
    assert_eq!(like.verify(), Ok(()));
    assert_eq!(like.id().href, "https://example.org/ap/like/1");
    assert_eq!(like.actor().href, "https://example.org/ap/user");
    let d = like.send("https://remote.test/inbox", 7).ok().unwrap();
    assert_eq!(d.jobs.len(), 1);
    assert_eq!(d.jobs[0].inbox, "https://remote.test/inbox");
    assert_eq!(d.jobs[0].job, DeliveryJob::new(7));
    assert_eq!(d.inboxes.len(), 1);
    assert_eq!(d.inboxes[0].href, "https://remote.test/inbox");
    let bad = Like {
        id: uri("https://remote.test/act/2"),
        actor: uri("https://example.org/ap/user"),
        object: uri("https://remote.test/post/9"),
        content: "+".to_string(),
    };
    assert_eq!(bad.verify(), Err(FederationError::BadRequest));
    assert!(matches!(bad.send("no inbox", 7), Err(FederationError::Internal)));
}

#[test]
fn like_receive_stores_reaction() {
    let mut store = Store::new();
    let like = Like {
        id: uri("https://remote.test/act/2"),
        actor: uri("https://remote.test/users/alice"),
        object: uri("https://example.org/ap/post/p"),
        content: "x".to_string(),
    };
    assert!(like.receive(&mut store, ALICE));
    assert_eq!(store.reactions[0].uri, "https://remote.test/act/2");
}

#[test]
fn backoff_doubles_from_thirty_seconds_up_to_an_hour() {
    let expected = [30u64, 60, 120, 240, 480, 960, 1920, 3600, 3600];
    for (n, d) in expected.iter().enumerate() {
        assert_eq!(backoff_delay(n as u64), *d);
    }
    assert_eq!(backoff_delay(1000), 3600);
    assert_eq!(jittered_delay(120, 0), 90);
    assert_eq!(jittered_delay(120, 25), 120);
    assert_eq!(jittered_delay(120, 50), 150);
}

#[test]
fn dead_peer_is_retried_then_abandoned() {
    let mut job = DeliveryJob::new(0);
    let mut now = 0u64;
    let mut waits = Vec::new();
    while job.status == JobStatus::Pending {
        job.record(now, Outcome::Transient, 25);
        if job.status == JobStatus::Pending {
            waits.push(job.next_attempt_at - now);
            now = job.next_attempt_at;
        }
    }
    assert_eq!(&waits[..3], &[30, 60, 120]);
    assert_eq!(job.status, JobStatus::Failed);
    assert!(now <= ABANDON_AFTER_SECS);
    let mut healthy = DeliveryJob::new(0);
    healthy.record(0, Outcome::Delivered, 25);
    assert_eq!(healthy.status, JobStatus::Delivered);
}

#[test]
fn delivery_records_one_success_after_failures() {
    let mut job = DeliveryJob::new(100);
    job.record(100, Outcome::Transient, 25);
    job.record(130, Outcome::Transient, 25);
    job.record(190, Outcome::Delivered, 25);
    assert_eq!(job.status, JobStatus::Delivered);
    assert_eq!(job.attempt, 3);
    job.record(200, Outcome::Delivered, 25);
    assert_eq!(job.attempt, 3);
    let mut refused = DeliveryJob::new(0);
    refused.record(0, Outcome::Refused, 0);
    assert_eq!(refused.status, JobStatus::Failed);
    let mut gone = DeliveryJob::new(0);
    gone.record(0, Outcome::Gone, 0);
    assert_eq!(gone.status, JobStatus::Tombstoned);
}

#[test]
fn inboxes_are_deduplicated_in_order() {
    let v: Vec<String> = ["b", "a", "b", "c", "a"].iter().map(|s| s.to_string()).collect();
    assert_eq!(distinct_inboxes(&v), vec!["b".to_string(), "a".to_string(), "c".to_string()]);
}

#[test]
fn create_and_delete_post_respect_authorship() {
    let mut state = node();
    let create = activity(
        "https://remote.test/act/10",
        "https://remote.test/post/1",
        ActivityKind::CreatePost { content: "hello".to_string() },
    );
    assert_eq!(state.receive(true, &alice_key(), create, Some(ALICE), true, OWNER, NOW).status, 202);
    assert_eq!(state.store.posts.len(), 1);
    assert_eq!(state.store.posts[0].author, ALICE);
    assert_eq!(state.store.posts[0].content, "hello");
    assert_eq!(state.store.users[1].post_count, 1);
    let foreign = activity(
        "https://remote.test/act/11",
        "https://example.org/ap/post/1",
        ActivityKind::CreatePost { content: "x".to_string() },
    );
    assert_eq!(state.receive(true, &alice_key(), foreign, Some(ALICE), true, OWNER, NOW).status, 400);
    let delete_by_bob = activity("https://remote.test/act/12", "https://remote.test/post/1", ActivityKind::DeletePost);
    assert_eq!(state.receive(true, &alice_key(), delete_by_bob, Some(BOB), true, OWNER, NOW).status, 202);
    assert_eq!(state.store.posts.len(), 1);
    let delete = activity("https://remote.test/act/13", "https://remote.test/post/1", ActivityKind::DeletePost);
    assert_eq!(state.receive(true, &alice_key(), delete, Some(ALICE), true, OWNER, NOW).status, 202);
    assert!(state.store.posts.is_empty());
    assert_eq!(state.store.users[1].post_count, 0);
}

#[test]
fn one_job_per_distinct_inbox_and_gone_cancels() {
    let v: Vec<String> = ["https://a.test/inbox", "https://b.test/inbox", "https://a.test/inbox"]
        .iter()
        .map(|s| s.to_string())
        .collect();
    let mut queue = plan_deliveries(&v, 50);
    assert_eq!(queue.len(), 2);
    assert_eq!(queue[0].inbox, "https://a.test/inbox");
    assert_eq!(queue[1].inbox, "https://b.test/inbox");
    assert_eq!(queue[0].job, DeliveryJob::new(50));
    queue[1].job.record(50, Outcome::Delivered, 25);
    cancel_deliveries(&mut queue, &"https://a.test/inbox".to_string());
    assert_eq!(queue[0].job.status, JobStatus::Tombstoned);
    assert_eq!(queue[1].job.status, JobStatus::Delivered);
}

#[test]
fn replay_after_the_window_is_processed_again() {
    let mut state = node();
    state.receive(true, &alice_key(), alice_follow(), Some(ALICE), true, OWNER, NOW);
    let undo = activity("https://remote.test/act/3", "https://remote.test/act/1", undo_kind());
    state.receive(true, &alice_key(), undo, Some(ALICE), true, OWNER, NOW + 1);
    let r = state.receive(true, &alice_key(), alice_follow(), Some(ALICE), true, OWNER, NOW + 86_399);
    assert_eq!(r, InboxReply { status: 202, send_accept: false });
    assert!(state.store.follows.is_empty());
    let r = state.receive(true, &alice_key(), alice_follow(), Some(ALICE), true, OWNER, NOW + 86_400);
    assert_eq!(r, InboxReply { status: 202, send_accept: true });
    assert_eq!(state.store.follows.len(), 1);
}

#[test]
fn remembered_ids_are_bounded() {
    let mut state = node();
    for n in 0..10_001u64 {
        let id = format!("https://remote.test/act/other/{n}");
        let a = activity(&id, "https://remote.test/x", ActivityKind::Other);
        assert_eq!(state.receive(true, &alice_key(), a, Some(ALICE), true, OWNER, NOW).status, 202);
    }
    assert_eq!(state.seen.len(), 10_000);
    assert_eq!(state.seen[0].id, "https://remote.test/act/other/1");
}

#[test]
fn unfollow_sends_undo_to_the_target_inbox() {
    let mut store = node().store;
    store.follow_user(OWNER, ALICE, "https://example.org/ap/follow/a".to_string()).unwrap();
    let row = store.unfollow_user(ALICE).unwrap();
    let (undo, inbox) = undo_follow_delivery(
        &row,
        "https://example.org/ap/undo/1".to_string(),
        "https://example.org/ap/user".to_string(),
        "https://remote.test/users/alice".to_string(),
        "https://remote.test/users/alice/inbox",
    )
    .ok()
    .unwrap();
    assert_eq!(undo.id, "https://example.org/ap/undo/1");
    assert_eq!(undo.actor, "https://example.org/ap/user");
    assert_eq!(undo.object, "https://example.org/ap/follow/a");
    match &undo.kind {
        ActivityKind::UndoFollow { follow_actor, follow_object } => {
            assert_eq!(follow_actor, "https://example.org/ap/user");
            assert_eq!(follow_object, "https://remote.test/users/alice");
        }
        _ => panic!("not an undo of a follow"),
    }
    assert_eq!(inbox.href, "https://remote.test/users/alice/inbox");
    let bad = undo_follow_delivery(&row, String::new(), String::new(), String::new(), "::");
    assert!(matches!(bad, Err(FederationError::Internal)));
}

#[test]
fn follow_and_accept_are_built_for_their_inboxes() {
    let row = FollowRow { uri: "https://example.org/ap/follow/a".to_string(), source: OWNER, target: ALICE, accepted: false };
    let (follow, to) = follow_delivery(
        &row,
        "https://example.org/ap/user".to_string(),
        "https://remote.test/users/alice".to_string(),
        "https://remote.test/inbox",
    )
    .ok()
    .unwrap();
    assert_eq!(follow.id, "https://example.org/ap/follow/a");
    assert_eq!(follow.object, "https://remote.test/users/alice");
    assert!(matches!(follow.kind, ActivityKind::Follow));
    assert_eq!(to.href, "https://remote.test/inbox");

    let received = alice_follow();
    let (accept, to) = accept_delivery(
        &received,
        "https://example.org/ap/accept/1".to_string(),
        "https://example.org/ap/user".to_string(),
        "https://remote.test/inbox",
    )
    .ok()
    .unwrap();
    assert_eq!(accept.actor, "https://example.org/ap/user");
    assert_eq!(accept.object, "https://remote.test/act/1");
    match &accept.kind {
        ActivityKind::Accept { follow_actor, follow_object } => {
            assert_eq!(follow_actor, "https://remote.test/users/alice");
            assert_eq!(follow_object, "https://example.org/ap/user");
        }
        _ => panic!("not an accept"),
    }
    assert_eq!(to.href, "https://remote.test/inbox");
    assert!(matches!(accept_delivery(&received, String::new(), String::new(), "no inbox"), Err(FederationError::Internal)));
}

#[test]
fn jitter_never_goes_below_three_quarters() {
    assert_eq!(jittered_delay(30, 0), 23);
    assert_eq!(jittered_delay(30, 50), 37);
    assert_eq!(jittered_delay(3600, 0), 2700);
    assert_eq!(jittered_delay(3600, 50), 4500);
}

#[test]
fn duplicate_follow_updates_the_row() {
    let mut state = node();
    owner_follows_alice(&mut state);
    let accept = activity("https://remote.test/act/6", "https://example.org/ap/follow/f1", ActivityKind::Accept { follow_actor: String::new(), follow_object: String::new() });
    state.receive(true, &alice_key(), accept, Some(ALICE), true, OWNER, NOW);
    assert!(!state.store.insert_follow(FollowRow { uri: "https://example.org/ap/follow/f1".to_string(), source: OWNER, target: BOB, accepted: false }));
    assert_eq!(state.store.follows.len(), 1);
    assert_eq!(state.store.follows[0].target, BOB);
    assert_eq!(state.store.users[1].follower_count, 0);
}

#[test]
fn gone_actor_is_tombstoned() {
    let mut store = node().store;
    assert!(store.tombstone_user(ALICE));
    assert!(store.users[1].tombstoned);
    assert!(!store.users[0].tombstoned);
    assert!(!store.tombstone_user(99));
}

#[test]
fn owner_uris_are_built_on_the_domain() {
    let (id, inbox) = Config::owner_uris(&"example.org".to_string()).ok().unwrap();
    assert_eq!(id.href, "https://example.org/ap/user");
    assert_eq!(inbox.href, "https://example.org/ap/inbox");
    assert!(matches!(Config::owner_uris(&"a b".to_string()), Err(ConfigError::IdUrl)));
}

#[test]
fn sibling_delivery_is_unaffected_by_a_dead_peer() {
    let v: Vec<String> = vec!["https://dead.test/inbox".to_string(), "https://ok.test/inbox".to_string()];
    let mut queue = plan_deliveries(&v, 0);
    let mut now = 0u64;
    while queue[0].job.status == JobStatus::Pending {
        record_at(&mut queue, 0, now, Outcome::Transient, 25);
        now = queue[0].job.next_attempt_at.max(now + 1);
    }
    assert_eq!(queue[0].job.status, JobStatus::Failed);
    assert_eq!(queue[1].job, DeliveryJob::new(0));
    record_at(&mut queue, 1, 5, Outcome::Delivered, 25);
    assert_eq!(queue[1].job.status, JobStatus::Delivered);
}

#[test]
fn unresolved_object_is_upstream_failure() {
    let mut state = node();
    let like = Like {
        id: uri("https://remote.test/act/2"),
        actor: uri("https://remote.test/users/alice"),
        object: uri("https://example.org/ap/post/missing"),
        content: "+".to_string(),
    };
    let r = state.receive(true, &alice_key(), like.into_activity(), Some(ALICE), false, OWNER, NOW);
    assert_eq!(r.status, 502);
    assert!(state.store.reactions.is_empty());
    assert!(state.seen.is_empty());
}

#[test]
fn only_the_followed_user_may_accept_or_reject() {
    let mut state = node();
    owner_follows_alice(&mut state);
    let evil_key = uri("https://evil.test/users/mallory#main-key");
    let kind = || ActivityKind::Reject { follow_actor: String::new(), follow_object: String::new() };
    let reject = Activity {
        id: uri("https://evil.test/act/1"),
        actor: uri("https://evil.test/users/mallory"),
        object: uri("https://example.org/ap/follow/f1"),
        kind: kind(),
    };
    assert_eq!(state.receive(true, &evil_key, reject, Some(BOB), true, OWNER, NOW).status, 202);
    assert_eq!(state.store.follows.len(), 1);
    let accept = Activity {
        id: uri("https://evil.test/act/2"),
        actor: uri("https://evil.test/users/mallory"),
        object: uri("https://example.org/ap/follow/f1"),
        kind: ActivityKind::Accept { follow_actor: String::new(), follow_object: String::new() },
    };
    state.receive(true, &evil_key, accept, Some(BOB), true, OWNER, NOW);
    assert!(!state.store.follows[0].accepted);
    let undo = activity("https://remote.test/act/8", "https://example.org/ap/follow/f1", undo_kind());
    state.receive(true, &alice_key(), undo, Some(ALICE), true, OWNER, NOW);
    assert_eq!(state.store.follows.len(), 1);
}

#[test]
fn follow_of_someone_else_is_not_found() {
    let mut state = node();
    let follow = activity("https://remote.test/act/20", "https://example.org/ap/users/other", ActivityKind::Follow);
    let r = state.receive(true, &alice_key(), follow, Some(ALICE), true, OWNER, NOW);
    assert_eq!(r, InboxReply { status: 404, send_accept: false });
    assert!(state.store.follows.is_empty());
}

#[test]
fn only_the_liker_may_undo_a_like() {
    let mut store = Store::new();
    store.insert_reaction(ReactionRow { uri: "https://remote.test/act/2".to_string(), actor: ALICE, post: "p".to_string(), content: "+".to_string() });
    assert!(!store.remove_reaction(&"https://remote.test/act/2".to_string(), BOB));
    assert_eq!(store.reactions.len(), 1);
    assert!(store.remove_reaction(&"https://remote.test/act/2".to_string(), ALICE));
}
