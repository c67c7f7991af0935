use dolores::addr::{IpAddr, SockAddr};
use dolores::client::{client_socket_name, decode_reply};
use dolores::dashboard::{domain_url, route, Health, Page};

#[test]
fn address_text_examples() {
    assert_eq!(SockAddr::loopback_v6(9001).text(), "[::1]:9001");
    assert_eq!(SockAddr { ip: IpAddr::V4([192, 168, 0, 10]), port: 443 }.text(), "192.168.0.10:443");
    assert_eq!(SockAddr { ip: IpAddr::V6([0; 16]), port: 0 }.text(), "[::]:0");
    let mapped = [0, 0, 0, 0, 0, 0, 0, 0, 0, 0, 0xff, 0xff, 1, 2, 3, 4];
    assert_eq!(SockAddr { ip: IpAddr::V6(mapped), port: 80 }.text(), "[::ffff:1.2.3.4]:80");
}

#[test]
fn address_text_compresses_like_std() {
    let samples: Vec<([u8; 16], &str)> = vec![
        ([0x20, 0x01, 0x0d, 0xb8, 0, 0, 0, 0, 0, 0, 0, 0, 0, 0, 0, 1], "[2001:db8::1]:1234"),
        ([0x20, 0x01, 0x0d, 0xb8, 0, 0, 0, 1, 0, 0, 0, 0, 0, 0, 0, 1], "[2001:db8:0:1::1]:1234"),
        ([0, 1, 0, 0, 0, 2, 0, 0, 0, 3, 0, 0, 0, 4, 0, 0], "[1:0:2:0:3:0:4:0]:1234"),
        ([0xfe, 0x80, 0, 0, 0, 0, 0, 0, 0xab, 0xcd, 0, 0, 0, 0, 0x12, 0x34], "[fe80::abcd:0:0:1234]:1234"),
        ([0xff; 16], "[ffff:ffff:ffff:ffff:ffff:ffff:ffff:ffff]:1234"),
        ([0, 0, 0, 0, 0, 0, 0, 0, 0, 0, 0, 0, 1, 2, 3, 4], "[::102:304]:1234"),
        ([1, 0, 0, 0, 0, 0, 0, 0, 0, 0, 0, 0, 0, 0, 0, 0], "[100::]:1234"),
    ];
    for (o, expected) in samples {
        assert_eq!(SockAddr { ip: IpAddr::V6(o), port: 1234 }.text(), expected);
    }
    for (o, expected) in [
        ([0u8, 0, 0, 0], "0.0.0.0:65535"),
        ([255, 255, 255, 255], "255.255.255.255:65535"),
        ([8, 8, 4, 4], "8.8.4.4:65535"),
    ] {
        assert_eq!(SockAddr { ip: IpAddr::V4(o), port: 65535 }.text(), expected);
    }
}

#[test]
fn client_socket_name_is_hex() {
    assert_eq!(client_socket_name(0), "dolores-0-client.sock");
    assert_eq!(client_socket_name(0xdead_beef), "dolores-deadbeef-client.sock");
    assert_eq!(client_socket_name(u64::MAX), format!("dolores-{:x}-client.sock", u64::MAX));
}

#[test]
fn reply_decoding() {
    assert_eq!(decode_reply(b"ok None".to_vec()), Some("ok None".to_string()));
    assert_eq!(decode_reply(vec![0xc3, 0x28]), None);
}

#[test]
fn dashboard_links_and_routes() {
    assert_eq!(domain_url("a.localhost", Some(4443)), "https://a.localhost:4443");
    assert_eq!(domain_url("a.localhost", Some(443)), "https://a.localhost");
    assert_eq!(domain_url("a.localhost", None), "https://a.localhost");
    assert_eq!(route("/"), Some(Page::Home));
    assert_eq!(route("/health"), Some(Page::Health));
    assert_eq!(route("/other"), None);
    assert_eq!(Health::body(), "Ok\n");
}
