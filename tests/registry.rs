use dolores::addr::{IpAddr, SockAddr};
use dolores::command::Command;
use dolores::proxy::{CertError, Type};
use dolores::registry::Registry;

fn loopback(port: u16) -> SockAddr {
    SockAddr::loopback_v6(port)
}

fn register(name: &str, port: u16, proxy: Type) -> Command {
    Command::Register { name: name.to_string(), addr: loopback(port), proxy }
}

fn deregister(name: &str) -> Command {
    Command::Deregister { name: name.to_string() }
}

#[test]
fn register_then_lookup_gives_address() {
    let mut reg = Registry::new("localhost");
    assert_eq!(reg.handle_command(register("app", 9001, Type::Passthrough)), Ok(None));
    let svc = reg.lookup("app.localhost").expect("registered");
    assert_eq!(svc.domain, "app.localhost");
    assert_eq!(svc.addr, loopback(9001));
    assert_eq!(svc.proxy.proxy_type(), Type::Passthrough);
    assert!(reg.lookup("app").is_none());
}

#[test]
fn reregister_replaces_route() {
    let mut reg = Registry::new("localhost");
    reg.handle_command(register("app", 1, Type::Passthrough)).unwrap();
    reg.handle_command(register("app", 2, Type::Passthrough)).unwrap();
    assert_eq!(reg.lookup("app.localhost").unwrap().addr, loopback(2));
    assert_eq!(reg.status(None), "app.localhost -> [::1]:2\n");
}

#[test]
fn net_names_after_sequence() {
    let mut reg = Registry::new("localhost");
    let cmds = vec![
        register("a", 1, Type::Passthrough),
        register("b", 2, Type::Passthrough),
        deregister("a"),
        register("c", 3, Type::Passthrough),
        deregister("c"),
        register("d", 4, Type::Passthrough),
        register("a", 5, Type::Passthrough),
        deregister("b"),
    ];
    for c in cmds {
        reg.handle_command(c).unwrap();
    }
    for (name, present) in [("a", true), ("b", false), ("c", false), ("d", true)] {
        assert_eq!(reg.lookup(&format!("{name}.localhost")).is_some(), present, "{name}");
    }
    let status = reg.status(None);
    assert_eq!(status.lines().count(), 2);
}

#[test]
fn status_all_and_one() {
    let mut reg = Registry::new("localhost");
    reg.handle_command(register("a", 1, Type::Passthrough)).unwrap();
    reg.handle_command(register("b", 2, Type::Passthrough)).unwrap();
    let all = reg.handle_command(Command::Status { name: None }).unwrap().unwrap();
    let lines: Vec<&str> = all.lines().collect();
    assert_eq!(lines.len(), 2);
    assert!(lines.contains(&"a.localhost -> [::1]:1"));
    assert!(lines.contains(&"b.localhost -> [::1]:2"));
    let one = reg.handle_command(Command::Status { name: Some("a".to_string()) }).unwrap().unwrap();
    assert!(one.contains("a.localhost"));
    assert_eq!(one, "ok Some(\"a.localhost\")");
    let missing = reg.status(Some("zzz"));
    assert_eq!(missing, "ok None");
}

#[test]
fn status_empty_registry() {
    let reg = Registry::new("localhost");
    assert_eq!(reg.status(None), "");
}

#[test]
fn deregister_twice_is_tolerated() {
    let mut reg = Registry::new("localhost");
    reg.handle_command(register("app", 9001, Type::Passthrough)).unwrap();
    assert_eq!(reg.handle_command(deregister("app")), Ok(None));
    assert!(reg.lookup("app.localhost").is_none());
    assert_eq!(reg.handle_command(deregister("app")), Ok(None));
    assert!(reg.lookup("app.localhost").is_none());
}

#[test]
fn terminating_registration_builds_certificate() {
    let mut reg = Registry::new("localhost");
    assert_eq!(reg.handle_command(register("web", 9002, Type::Terminating)), Ok(None));
    let svc = reg.lookup("web.localhost").unwrap();
    assert_eq!(svc.proxy.proxy_type(), Type::Terminating);
}

#[test]
fn custom_tld() {
    let mut reg = Registry::new("test");
    reg.handle_command(register("x", 7, Type::Passthrough)).unwrap();
    assert!(reg.lookup("x.test").is_some());
    assert_eq!(reg.domain_for("x"), "x.test");
}

#[test]
fn v4_route_status_line() {
    let mut reg = Registry::new("localhost");
    let cmd = Command::Register {
        name: "v4".to_string(),
        addr: SockAddr { ip: IpAddr::V4([127, 0, 0, 1]), port: 8080 },
        proxy: Type::Passthrough,
    };
    reg.handle_command(cmd).unwrap();
    assert_eq!(reg.status(None), "v4.localhost -> 127.0.0.1:8080\n");
}

#[test]
fn status_one_quotes_domain() {
    let mut reg = Registry::new("localhost");
    reg.handle_command(register("q\"t", 1, Type::Passthrough)).unwrap();
    assert_eq!(reg.status(Some("q\"t")), "ok Some(\"q\\\"t.localhost\")");
}

#[test]
fn non_ascii_terminating_registration_leaves_table() {
    let mut reg = Registry::new("localhost");
    reg.handle_command(register("app", 1, Type::Passthrough)).unwrap();
    let result = reg.handle_command(register("é", 2, Type::Terminating));
    assert_eq!(result, Err(CertError::InvalidName));
    assert!(reg.lookup("é.localhost").is_none());
    assert_eq!(reg.status(None), "app.localhost -> [::1]:1\n");
    reg.handle_command(register("é", 3, Type::Passthrough)).unwrap();
    assert_eq!(reg.lookup("é.localhost").unwrap().addr, loopback(3));
}
