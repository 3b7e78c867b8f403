use base64::engine::general_purpose::STANDARD as BASE64_ENGINE;
use base64::Engine;
use std::borrow::Cow;
use tt_server::authentication::registry_based::{Client, RegistryBasedAuthenticator};
use tt_server::authentication::{Authenticator, Source, Status};

fn client(username: &str, password: &str) -> Client {
    Client {
        username: username.into(),
        password: password.into(),
        max_http2_conns: None,
        max_http3_conns: None,
    }
}

#[test]
fn source_debug_scrubs_sni() {
    let source = Source::Sni("secret_credentials".into());
    let debug_output = format!("{:?}", source.debug_text());
    assert!(!debug_output.contains("secret_credentials"));
    assert!(debug_output.contains("__stripped__"));
}

#[test]
fn source_debug_scrubs_proxy_basic() {
    let source = Source::ProxyBasic("dXNlcjpwYXNzd29yZA==".into());
    let debug_output = format!("{:?}", source.debug_text());
    assert!(!debug_output.contains("dXNlcjpwYXNzd29yZA=="));
    assert!(debug_output.contains("__stripped__"));
}

#[test]
fn source_debug_tells_the_ways_apart() {
    assert_eq!(Source::Sni("a".into()).debug_text(), "Sni(__stripped__)");
    assert_eq!(Source::ProxyBasic("a".into()).debug_text(), "ProxyBasic(__stripped__)");
}

#[test]
fn owned_source_keeps_its_way_and_credentials() {
    let text = String::from("abc");
    let sni = Source::Sni(Cow::Borrowed(text.as_str())).into_owned();
    let basic = Source::ProxyBasic(Cow::Borrowed(text.as_str())).into_owned();
    drop(text);
    assert!(matches!(&sni, Source::Sni(Cow::Owned(x)) if x == "abc"));
    assert!(matches!(&basic, Source::ProxyBasic(Cow::Owned(x)) if x == "abc"));
    assert!(sni.clone() == sni);
    assert!(sni != basic);
    assert_eq!(sni.credentials(), "abc");
}

#[test]
fn empty_registry_rejects_all_credentials() {
    let authenticator = RegistryBasedAuthenticator::new(&[]);
    let source = Source::ProxyBasic("anything".into());

    assert!(matches!(authenticator.authenticate(&source), Status::Reject));
}

#[test]
fn reload_replaces_registry() {
    let old = client("old", "password");
    let new = client("new", "password");
    let mut authenticator = RegistryBasedAuthenticator::new(&[old]);

    authenticator.reload_clients(&[new]);
    assert!(matches!(
        authenticator.authenticate(&Source::ProxyBasic(
            BASE64_ENGINE.encode("old:password").into()
        )),
        Status::Reject
    ));
    assert!(matches!(
        authenticator.authenticate(&Source::ProxyBasic(
            BASE64_ENGINE.encode("new:password").into()
        )),
        Status::Pass
    ));
}

#[test]
fn registry_based_reload_can_add_first_client_to_empty_registry() {
    let mut authenticator = RegistryBasedAuthenticator::new(&[]);
    let client = client("new", "password");

    authenticator.reload_clients(&[client]);

    assert!(matches!(
        authenticator.authenticate(&Source::ProxyBasic(
            BASE64_ENGINE.encode("new:password").into()
        )),
        Status::Pass
    ));
}

#[test]
fn credentials_are_the_base64_form() {
    assert_eq!(client("user", "password").encode_credentials(), "dXNlcjpwYXNzd29yZA==");
    assert_eq!(client("", "").encode_credentials(), "Og==");
}

#[test]
fn only_proxy_basic_authenticates() {
    let authenticator =
        RegistryBasedAuthenticator::new(&[client("a", "b"), client("user", "password")]);
    assert!(authenticator.uses_client_registry());
    assert!(
        authenticator.authenticate(&Source::Sni("dXNlcjpwYXNzd29yZA==".into())) == Status::Reject
    );
    assert!(
        authenticator.authenticate(&Source::ProxyBasic("dXNlcjpwYXNzd29yZA==".into()))
            == Status::Pass
    );
    assert!(
        authenticator.authenticate(&Source::ProxyBasic("user:password".into())) == Status::Reject
    );
    assert!(authenticator.authenticate(&Source::ProxyBasic("YTpi".into())) == Status::Pass);
    assert!(authenticator.authenticate(&Source::Sni("YTpi".into())) == Status::Reject);
}

struct AllowAll;

impl Authenticator for AllowAll {
    fn authenticate(&self, _source: &Source<'_>) -> Status {
        Status::Pass
    }
}

#[test]
fn authenticators_use_no_registry_unless_they_say_so() {
    let mut authenticator = AllowAll;
    assert!(!authenticator.uses_client_registry());
    authenticator.reload_clients(&[client("a", "b")]);
    assert!(authenticator.authenticate(&Source::Sni("x".into())) == Status::Pass);
}
