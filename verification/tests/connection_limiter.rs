use base64::engine::general_purpose::STANDARD as BASE64_ENGINE;
use base64::Engine;
use std::future::Future;
use std::time::Duration;
use tokio::sync::watch;
use tt_server::authentication::registry_based::Client;
use tt_server::authentication::Source;
use tt_server::connection_limiter::{ConnectionGuard, ConnectionLimiter, RevocationWait};
use tt_server::protocol::Protocol;

fn make_client(username: &str, password: &str) -> Client {
    Client {
        username: username.into(),
        password: password.into(),
        max_http2_conns: None,
        max_http3_conns: None,
    }
}

fn make_client_with_limits(
    username: &str,
    password: &str,
    h2: Option<u32>,
    h3: Option<u32>,
) -> Client {
    Client {
        username: username.into(),
        password: password.into(),
        max_http2_conns: h2,
        max_http3_conns: h3,
    }
}

fn creds(username: &str, password: &str) -> String {
    BASE64_ENGINE.encode(format!("{}:{}", username, password))
}

async fn wait_for_revocation(receiver: &mut watch::Receiver<bool>) {
    let mut step = RevocationWait::ReadValue;
    loop {
        step = match step {
            RevocationWait::ReadValue => ConnectionGuard::wait_for_revocation(*receiver.borrow()),
            RevocationWait::AwaitChange => {
                RevocationWait::on_change(receiver.changed().await.is_ok())
            }
            RevocationWait::Revoked => return,
        };
    }
}

fn run<F: Future>(future: F) -> F::Output {
    tokio::runtime::Builder::new_current_thread()
        .enable_time()
        .build()
        .unwrap()
        .block_on(future)
}

fn assert_revoked(receiver: &mut watch::Receiver<bool>) {
    run(async {
        tokio::time::timeout(Duration::from_secs(1), wait_for_revocation(receiver))
            .await
            .unwrap()
    });
}

#[test]
fn no_limits_always_passes() {
    let mut limiter = ConnectionLimiter::new(&[make_client("u", "p")], None, None);
    let key = creds("u", "p");
    let g1 = limiter.try_acquire(&key, Protocol::Http2).unwrap();
    let g2 = limiter.try_acquire(&key, Protocol::Http2).unwrap();
    let g3 = limiter.try_acquire(&key, Protocol::Http3).unwrap();
    g1.close(&mut limiter);
    g2.close(&mut limiter);
    g3.close(&mut limiter);
}

#[test]
fn global_http2_limit_enforced() {
    let mut limiter = ConnectionLimiter::new(&[make_client("u", "p")], Some(2), None);
    let key = creds("u", "p");

    let g1 = limiter.try_acquire(&key, Protocol::Http2).unwrap();
    let g2 = limiter.try_acquire(&key, Protocol::Http2).unwrap();
    assert!(
        limiter.try_acquire(&key, Protocol::Http2).is_none(),
        "must be denied at limit=2"
    );

    g1.close(&mut limiter);
    let g3 = limiter.try_acquire(&key, Protocol::Http2).unwrap();
    g2.close(&mut limiter);
    g3.close(&mut limiter);
}

#[test]
fn global_http3_limit_enforced() {
    let mut limiter = ConnectionLimiter::new(&[make_client("u", "p")], None, Some(1));
    let key = creds("u", "p");

    let g1 = limiter.try_acquire(&key, Protocol::Http3).unwrap();
    assert!(
        limiter.try_acquire(&key, Protocol::Http3).is_none(),
        "must be denied at limit=1"
    );

    g1.close(&mut limiter);
    limiter.try_acquire(&key, Protocol::Http3).unwrap();
}

#[test]
fn http2_and_http3_counters_are_independent() {
    let mut limiter = ConnectionLimiter::new(&[make_client("u", "p")], Some(1), Some(1));
    let key = creds("u", "p");

    let _g2 = limiter.try_acquire(&key, Protocol::Http2).unwrap();
    let _g3 = limiter.try_acquire(&key, Protocol::Http3).unwrap();
    assert!(
        limiter.try_acquire(&key, Protocol::Http2).is_none(),
        "http2 must be at limit"
    );
    assert!(
        limiter.try_acquire(&key, Protocol::Http3).is_none(),
        "http3 must be at limit"
    );
}

#[test]
fn per_client_override_takes_precedence_over_global() {
    let clients = vec![
        make_client_with_limits("alice", "pass", Some(5), None),
        make_client("bob", "pass"),
    ];
    let mut limiter = ConnectionLimiter::new(&clients, Some(1), None);

    let alice = creds("alice", "pass");
    let bob = creds("bob", "pass");

    let _a1 = limiter.try_acquire(&alice, Protocol::Http2).unwrap();
    let _a2 = limiter.try_acquire(&alice, Protocol::Http2).unwrap();
    let _a3 = limiter.try_acquire(&alice, Protocol::Http2).unwrap();
    let _a4 = limiter.try_acquire(&alice, Protocol::Http2).unwrap();
    let _a5 = limiter.try_acquire(&alice, Protocol::Http2).unwrap();
    assert!(
        limiter.try_acquire(&alice, Protocol::Http2).is_none(),
        "alice: must be denied at override limit=5"
    );

    let _b1 = limiter.try_acquire(&bob, Protocol::Http2).unwrap();
    assert!(
        limiter.try_acquire(&bob, Protocol::Http2).is_none(),
        "bob: must be denied at global limit=1"
    );
}

#[test]
fn limits_are_per_client_not_shared() {
    let clients = vec![make_client("alice", "pass"), make_client("bob", "pass")];
    let mut limiter = ConnectionLimiter::new(&clients, Some(1), None);

    let alice = creds("alice", "pass");
    let bob = creds("bob", "pass");

    let _ga = limiter.try_acquire(&alice, Protocol::Http2).unwrap();
    let _gb = limiter.try_acquire(&bob, Protocol::Http2).unwrap();
    assert!(
        limiter.try_acquire(&alice, Protocol::Http2).is_none(),
        "alice at limit"
    );
    assert!(
        limiter.try_acquire(&bob, Protocol::Http2).is_none(),
        "bob at limit"
    );
}

#[test]
fn unknown_credentials_denied() {
    let mut limiter = ConnectionLimiter::new(&[make_client("u", "p")], None, None);
    assert!(limiter
        .try_acquire("unknown_creds", Protocol::Http2)
        .is_none());
}

#[test]
fn removing_client_revokes_existing_guards() {
    let mut limiter = ConnectionLimiter::new(&[make_client("u", "p")], None, None);
    let guard = limiter
        .try_acquire(&creds("u", "p"), Protocol::Http2)
        .unwrap();
    let mut revoked = guard.revocation_receiver();

    limiter.reload(&[], None, None);

    assert_revoked(&mut revoked);
}

#[test]
fn connection_limiter_reload_can_add_first_client_to_empty_registry() {
    let mut limiter = ConnectionLimiter::new(&[], Some(1), Some(1));
    let key = creds("u", "p");

    assert!(limiter.try_acquire(&key, Protocol::Http2).is_none());
    limiter.reload(&[make_client("u", "p")], Some(1), Some(1));

    assert!(limiter.try_acquire(&key, Protocol::Http2).is_some());
}

#[test]
fn changing_password_revokes_old_credentials_and_allows_new_credentials() {
    let mut limiter = ConnectionLimiter::new(&[make_client("u", "old")], Some(1), None);
    let old_guard = limiter
        .try_acquire(&creds("u", "old"), Protocol::Http2)
        .unwrap();
    let mut revoked = old_guard.revocation_receiver();

    limiter.reload(&[make_client("u", "new")], Some(1), None);

    assert_revoked(&mut revoked);
    assert!(limiter
        .try_acquire(&creds("u", "old"), Protocol::Http2)
        .is_none());
    assert!(limiter
        .try_acquire(&creds("u", "new"), Protocol::Http2)
        .is_some());
}

#[test]
fn removing_one_client_does_not_revoke_retained_client() {
    let mut limiter = ConnectionLimiter::new(
        &[make_client("kept", "p"), make_client("removed", "p")],
        Some(1),
        None,
    );
    let kept_guard = limiter
        .try_acquire(&creds("kept", "p"), Protocol::Http2)
        .unwrap();
    let removed_guard = limiter
        .try_acquire(&creds("removed", "p"), Protocol::Http2)
        .unwrap();
    let mut removed = removed_guard.revocation_receiver();

    limiter.reload(&[make_client("kept", "p")], Some(1), None);

    assert_revoked(&mut removed);
    assert!(!*kept_guard.revocation_receiver().borrow());
    assert!(limiter
        .try_acquire(&creds("kept", "p"), Protocol::Http2)
        .is_none());
}

#[test]
fn retaining_client_preserves_active_count_and_session() {
    let mut limiter = ConnectionLimiter::new(&[make_client("u", "p")], Some(1), None);
    let guard = limiter
        .try_acquire(&creds("u", "p"), Protocol::Http2)
        .unwrap();

    limiter.reload(&[make_client("u", "p")], Some(1), None);

    assert!(!*guard.revocation_receiver().borrow());
    assert!(limiter
        .try_acquire(&creds("u", "p"), Protocol::Http2)
        .is_none());
}

#[test]
fn old_guard_does_not_release_readded_client_slot() {
    let mut limiter = ConnectionLimiter::new(&[make_client("u", "p")], Some(1), None);
    let old_guard = limiter
        .try_acquire(&creds("u", "p"), Protocol::Http2)
        .unwrap();
    limiter.reload(&[], Some(1), None);
    limiter.reload(&[make_client("u", "p")], Some(1), None);
    let new_guard = limiter
        .try_acquire(&creds("u", "p"), Protocol::Http2)
        .unwrap();

    old_guard.close(&mut limiter);

    assert!(limiter
        .try_acquire(&creds("u", "p"), Protocol::Http2)
        .is_none());
    new_guard.close(&mut limiter);
}

#[test]
fn http1_and_http2_share_a_counter() {
    let mut limiter = ConnectionLimiter::new(&[make_client("u", "p")], Some(1), Some(0));
    let key = creds("u", "p");
    let guard = limiter.try_acquire(&key, Protocol::Http1).unwrap();
    assert!(limiter.try_acquire(&key, Protocol::Http2).is_none());
    assert!(limiter.try_acquire(&key, Protocol::Http3).is_none());
    guard.close(&mut limiter);
    assert!(limiter.try_acquire(&key, Protocol::Http2).is_some());
}

#[test]
fn reload_changes_the_limits_of_a_retained_client() {
    let mut limiter = ConnectionLimiter::new(&[make_client("u", "p")], Some(1), None);
    let key = creds("u", "p");
    let _g1 = limiter.try_acquire(&key, Protocol::Http2).unwrap();
    let signals = limiter.reload(
        &[make_client_with_limits("u", "p", Some(2), None)],
        Some(1),
        None,
    );
    assert!(signals.is_empty());
    assert!(limiter.try_acquire(&key, Protocol::Http2).is_some());
    assert!(limiter.try_acquire(&key, Protocol::Http2).is_none());
}

#[test]
fn of_equal_credentials_the_last_client_counts() {
    let mut limiter = ConnectionLimiter::new(
        &[
            make_client_with_limits("u", "p", Some(5), None),
            make_client_with_limits("u", "p", Some(1), None),
        ],
        None,
        None,
    );
    let key = creds("u", "p");
    let guard = limiter.try_acquire(&key, Protocol::Http2).unwrap();
    assert!(limiter.try_acquire(&key, Protocol::Http2).is_none());

    // Listed twice, the client starts afresh, and its sessions see their channel closed.
    let mut revoked = guard.revocation_receiver();
    limiter.reload(
        &[
            make_client_with_limits("u", "p", Some(1), None),
            make_client_with_limits("u", "p", Some(1), None),
        ],
        None,
        None,
    );
    drop(guard);
    assert!(!*revoked.borrow());
    assert_revoked(&mut revoked);
    assert!(limiter.try_acquire(&key, Protocol::Http2).is_some());
    assert!(limiter.try_acquire(&key, Protocol::Http2).is_none());
}

#[test]
fn guards_know_their_credentials() {
    let mut limiter = ConnectionLimiter::new(&[make_client("u", "p")], None, None);
    let key = creds("u", "p");
    let guard = limiter.try_acquire(&key, Protocol::Http3).unwrap();
    assert!(guard.matches_credentials(&Source::Sni(key.as_str().into())));
    assert!(guard.matches_credentials(&Source::ProxyBasic(key.as_str().into())));
    assert!(!guard.matches_credentials(&Source::Sni("other".into())));
}

#[test]
fn waiting_ends_when_the_channel_says_so_or_closes() {
    assert_eq!(ConnectionGuard::wait_for_revocation(true), RevocationWait::Revoked);
    assert_eq!(ConnectionGuard::wait_for_revocation(false), RevocationWait::AwaitChange);
    assert_eq!(RevocationWait::on_change(true), RevocationWait::ReadValue);
    assert_eq!(RevocationWait::on_change(false), RevocationWait::Revoked);
}

#[test]
fn room_for_sessions_and_registrations_can_be_asked_for() {
    let limiter = ConnectionLimiter::new(&[make_client("u", "p")], None, None);
    assert!(!limiter.is_exhausted(&creds("u", "p"), Protocol::Http2));
    assert!(!limiter.is_exhausted("unknown", Protocol::Http3));
    assert!(limiter.can_register(1000));
}

#[test]
fn counters_follow_the_running_sessions() {
    let clients = [make_client("u", "p"), make_client("v", "p")];
    let mut limiter = ConnectionLimiter::new(&clients, Some(2), None);
    let key = creds("u", "p");
    let g1 = limiter.try_acquire(&key, Protocol::Http1).unwrap();
    let g2 = limiter.try_acquire(&key, Protocol::Http2).unwrap();
    assert!(limiter.try_acquire(&key, Protocol::Http2).is_none());

    limiter.reload(&[make_client("v", "p"), make_client("u", "p")], Some(2), None);
    assert!(limiter.try_acquire(&key, Protocol::Http2).is_none());
    g1.close(&mut limiter);
    let g3 = limiter.try_acquire(&key, Protocol::Http2).unwrap();
    assert!(limiter.try_acquire(&key, Protocol::Http2).is_none());

    limiter.reload(&[make_client("v", "p")], Some(2), None);
    limiter.reload(&clients, Some(2), None);
    g2.close(&mut limiter);
    g3.close(&mut limiter);
    let _g4 = limiter.try_acquire(&key, Protocol::Http2).unwrap();
    let _g5 = limiter.try_acquire(&key, Protocol::Http2).unwrap();
    assert!(limiter.try_acquire(&key, Protocol::Http2).is_none());
}
