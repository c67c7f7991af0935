use dolores::addr::{IpAddr, SockAddr};
use dolores::command::Command;
use dolores::proxy::Type;

fn loopback(port: u16) -> SockAddr {
    SockAddr::loopback_v6(port)
}

#[test]
fn encode_deregister_bytes() {
    let bytes = Command::Deregister { name: "a".to_string() }.encode();
    assert_eq!(bytes, vec![1, 0, 0, 0, 1, 0, 0, 0, 0, 0, 0, 0, b'a']);
}

#[test]
fn encode_status_all_bytes() {
    let bytes = Command::Status { name: None }.encode();
    assert_eq!(bytes, vec![2, 0, 0, 0, 0]);
}

#[test]
fn encode_register_v4_bytes() {
    let cmd = Command::Register {
        name: "ab".to_string(),
        addr: SockAddr { ip: IpAddr::V4([127, 0, 0, 1]), port: 0x1234 },
        proxy: Type::Terminating,
    };
    let expected: Vec<u8> = vec![
        0, 0, 0, 0, // variant
        2, 0, 0, 0, 0, 0, 0, 0, b'a', b'b', // name
        0, 0, 0, 0, 127, 0, 0, 1, 0x34, 0x12, // address
        1, 0, 0, 0, // proxy kind
    ];
    assert_eq!(cmd.encode(), expected);
}

#[test]
fn round_trip_every_variant() {
    let cmds = vec![
        Command::Register { name: "app".to_string(), addr: loopback(9001), proxy: Type::Passthrough },
        Command::Register {
            name: "naïve-ünïcode".to_string(),
            addr: SockAddr { ip: IpAddr::V4([10, 1, 2, 3]), port: 65535 },
            proxy: Type::Terminating,
        },
        Command::Deregister { name: "app".to_string() },
        Command::Deregister { name: String::new() },
        Command::Status { name: None },
        Command::Status { name: Some("web".to_string()) },
    ];
    for cmd in cmds {
        let bytes = cmd.encode();
        assert_eq!(Command::decode(&bytes), Some(cmd));
    }
}

#[test]
fn decode_rejects_malformed() {
    assert_eq!(Command::decode(&[]), None);
    assert_eq!(Command::decode(&[3, 0, 0, 0]), None);
    assert_eq!(Command::decode(&[2, 0, 0, 0, 7]), None);
    // length prefix longer than the datagram
    assert_eq!(Command::decode(&[1, 0, 0, 0, 9, 0, 0, 0, 0, 0, 0, 0, b'a']), None);
    // invalid UTF-8 in the name
    assert_eq!(Command::decode(&[1, 0, 0, 0, 1, 0, 0, 0, 0, 0, 0, 0, 0xff]), None);
    // trailing byte
    assert_eq!(Command::decode(&[2, 0, 0, 0, 0, 0]), None);
    // unknown proxy kind
    let mut bytes = Command::Register { name: "x".to_string(), addr: loopback(1), proxy: Type::Passthrough }.encode();
    let n = bytes.len();
    bytes[n - 4] = 9;
    assert_eq!(Command::decode(&bytes), None);
}
