use std::sync::Arc;

use dolores::ca::{permitted_subtrees, CertificateAuthority};
use dolores::proxy::{copy_step, CertError, CopyStep, Domain, ReadOutcome, TlsTerminating, Type};
use dolores::runner::{listen_env, on_event, registered_name, Action, Event};
use dolores::sni::{parse_handshake, sni_domain};

#[test]
fn proxy_kind_names() {
    assert_eq!(Type::parse("passthrough"), Some(Type::Passthrough));
    assert_eq!(Type::parse("terminating"), Some(Type::Terminating));
    assert_eq!(Type::parse("Terminating"), None);
    assert_eq!(Type::parse(""), None);
}

#[test]
fn certificate_names() {
    let names = Domain::from("app.localhost".to_string()).names();
    assert_eq!(names, vec!["app.localhost".to_string(), "*.app.localhost".to_string()]);
}

#[test]
fn copy_decisions() {
    assert_eq!(copy_step(ReadOutcome::Bytes(0)), CopyStep::Finish);
    assert_eq!(copy_step(ReadOutcome::Bytes(17)), CopyStep::Forward(17));
    assert_eq!(copy_step(ReadOutcome::WouldBlock), CopyStep::Continue);
    assert_eq!(copy_step(ReadOutcome::Failed), CopyStep::Fail);
}

#[test]
fn sni_last_two_labels() {
    assert_eq!(sni_domain("a.b.c.d").as_deref(), Some("c.d"));
    assert_eq!(sni_domain("foo.bar.localhost").as_deref(), Some("bar.localhost"));
    assert_eq!(sni_domain("app.localhost").as_deref(), Some("app.localhost"));
    assert_eq!(sni_domain("localhost"), None);
    assert_eq!(sni_domain(""), None);
}

fn client_hello(host: Option<&str>) -> Vec<u8> {
    let roots = rustls::RootCertStore::empty();
    let mut config = rustls::ClientConfig::builder()
        .with_safe_defaults()
        .with_root_certificates(roots)
        .with_no_client_auth();
    let name = match host {
        Some(h) => rustls::ServerName::try_from(h).unwrap(),
        None => {
            config.enable_sni = false;
            rustls::ServerName::try_from("ignored.example").unwrap()
        }
    };
    let mut conn = rustls::ClientConnection::new(Arc::new(config), name).unwrap();
    let mut out = Vec::new();
    conn.write_tls(&mut out).unwrap();
    out
}

fn scratch() -> TlsTerminating {
    TlsTerminating::self_signed(Domain::from("localhost".to_string())).unwrap()
}

#[test]
fn peek_client_hello_sni() {
    let hello = client_hello(Some("a.b.c.d"));
    let conn = scratch();
    assert_eq!(parse_handshake(&conn, &hello).as_deref(), Some("c.d"));
}

#[test]
fn peek_client_hello_two_labels() {
    let hello = client_hello(Some("app.localhost"));
    let conn = scratch();
    assert_eq!(parse_handshake(&conn, &hello).as_deref(), Some("app.localhost"));
}

#[test]
fn peek_without_sni_or_data() {
    let hello = client_hello(None);
    let conn = scratch();
    assert_eq!(parse_handshake(&conn, &hello), None);
    let conn = scratch();
    assert_eq!(parse_handshake(&conn, &[]), None);
    let conn = scratch();
    assert_eq!(parse_handshake(&conn, b"GET / HTTP/1.1\r\n\r\n"), None);
}

#[test]
fn runner_decisions() {
    assert_eq!(registered_name(None, "web".to_string()), "web");
    assert_eq!(registered_name(Some("api".to_string()), "web".to_string()), "api");
    let env = listen_env(4321);
    assert_eq!(
        env,
        vec![
            ("LISTEN_FDS".to_string(), "1".to_string()),
            ("LISTEN_PID".to_string(), "4321".to_string()),
            ("LISTEN_FDNAMES".to_string(), "http".to_string()),
        ]
    );
    assert_eq!(on_event(Event::Interrupt), Action::InterruptChild);
    assert_eq!(on_event(Event::ChildExited), Action::Deregister);
    assert_eq!(on_event(Event::Failed), Action::TerminateChild);
}

#[test]
fn peek_single_label_sni() {
    let hello = client_hello(Some("localhost"));
    let conn = scratch();
    assert_eq!(parse_handshake(&conn, &hello), None);
}

#[test]
fn peek_sni_is_lowercased() {
    let hello = client_hello(Some("App.LocalHost"));
    assert_eq!(parse_handshake(&scratch(), &hello).as_deref(), Some("app.localhost"));
}

#[test]
fn non_ascii_domain_refused() {
    let r = TlsTerminating::self_signed(Domain::from("é.localhost".to_string()));
    assert!(matches!(r, Err(CertError::InvalidName)));
    assert!(matches!(
        Type::Terminating.build(Domain::from("é".to_string())),
        Err(CertError::InvalidName)
    ));
    assert!(Type::Passthrough.build(Domain::from("é".to_string())).is_ok());
}

#[test]
fn certificate_authority_signs_leaf() {
    let ca = CertificateAuthority::generate(&vec!["localhost".to_string()]).unwrap();
    let leaf = TlsTerminating::from_ca(Domain::from("app.localhost".to_string()), &ca).unwrap();
    let hello = client_hello(Some("www.app.localhost"));
    assert_eq!(parse_handshake(&leaf, &hello).as_deref(), Some("app.localhost"));
    let pem = ca.certificate().serialize_pem().unwrap();
    assert!(pem.starts_with("-----BEGIN CERTIFICATE-----"));
}

#[test]
fn certificate_authority_refuses_non_ascii() {
    let r = CertificateAuthority::generate(&vec!["localhost".to_string(), "bücher".to_string()]);
    assert!(matches!(r, Err(CertError::InvalidName)));
    let ca = CertificateAuthority::generate(&vec!["localhost".to_string()]).unwrap();
    let leaf = TlsTerminating::from_ca(Domain::from("é.localhost".to_string()), &ca);
    assert!(matches!(leaf, Err(CertError::InvalidName)));
}

#[test]
fn ca_name_constraints_keep_leading_dot() {
    let subtrees = permitted_subtrees(&vec!["localhost".to_string(), "test".to_string()]);
    assert_eq!(subtrees, vec![".localhost".to_string(), ".test".to_string()]);
}
