use vstd::prelude::*;
use vstd::utf8::{
    decode_utf8, decode_utf8_encode_utf8, encode_utf8, encode_utf8_decode_utf8,
    encode_utf8_valid_utf8, valid_utf8,
};

use crate::addr::{IpAddr, SockAddr};
use crate::bytes::{
    le_u16, le_u32, le_u64, lemma_u16_bytes, lemma_u16_round_trip, lemma_u32_bytes,
    lemma_u32_round_trip, lemma_u64_bytes, lemma_u64_round_trip, push_all, push_u16, push_u32,
    push_u64, u16_of, u32_of, u64_of,
};
use crate::proxy::Type;
use crate::text::utf8_string;

verus! {

/// A message of the control channel.
#[allow(inconsistent_fields)]
#[derive(Clone, Debug, PartialEq, Eq)]
pub enum Command {
    /// Route `<name>.<tld>` to `addr` through a proxy of kind `proxy`.
    Register { name: String, addr: SockAddr, proxy: Type },
    /// Drop the route of `<name>.<tld>`.
    Deregister { name: String },
    /// Ask for one route, or for all of them.
    Status { name: Option<String> },
}

/// What a `Command` says, with its strings as character sequences.
#[allow(inconsistent_fields)]
pub enum CommandModel {
    Register { name: Seq<char>, addr: SockAddr, proxy: Type },
    Deregister { name: Seq<char> },
    Status { name: Option<Seq<char>> },
}

impl View for Command {
    type V = CommandModel;

    open spec fn view(&self) -> CommandModel {
        match self {
            Command::Register { name, addr, proxy } => CommandModel::Register {
                name: name@,
                addr: *addr,
                proxy: *proxy,
            },
            Command::Deregister { name } => CommandModel::Deregister { name: name@ },
            Command::Status { name } => CommandModel::Status {
                name: match name {
                    Some(n) => Some(n@),
                    None => None,
                },
            },
        }
    }
}

/// A text whose UTF-8 length fits the 64-bit length prefix.
pub open spec fn text_fits(s: Seq<char>) -> bool {
    encode_utf8(s).len() <= u64::MAX
}

impl CommandModel {
    /// Every text of the command fits its length prefix.
    pub open spec fn wf(self) -> bool {
        match self {
            CommandModel::Register { name, .. } => text_fits(name),
            CommandModel::Deregister { name } => text_fits(name),
            CommandModel::Status { name } => match name {
                Some(n) => text_fits(n),
                None => true,
            },
        }
    }
}

/// A text on the wire: its UTF-8 length as eight little-endian bytes, then its UTF-8 bytes.
pub open spec fn text_bytes(s: Seq<char>) -> Seq<u8> {
    le_u64(encode_utf8(s).len() as u64) + encode_utf8(s)
}

/// An address on the wire: family tag (0 for IPv4, 1 for IPv6), octets, then the port.
pub open spec fn addr_bytes(a: SockAddr) -> Seq<u8> {
    match a.ip {
        IpAddr::V4(o) => le_u32(0) + o@ + le_u16(a.port),
        IpAddr::V6(o) => le_u32(1) + o@ + le_u16(a.port),
    }
}

/// The wire tag of a proxy kind.
pub open spec fn type_tag(t: Type) -> u32 {
    match t {
        Type::Passthrough => 0,
        Type::Terminating => 1,
    }
}

/// The encoding of a command: a variant tag, then its fields in order.
pub open spec fn command_bytes(c: CommandModel) -> Seq<u8> {
    match c {
        CommandModel::Register { name, addr, proxy } => le_u32(0) + text_bytes(name) + addr_bytes(
            addr,
        ) + le_u32(type_tag(proxy)),
        CommandModel::Deregister { name } => le_u32(1) + text_bytes(name),
        CommandModel::Status { name } => match name {
            None => le_u32(2) + seq![0u8],
            Some(n) => le_u32(2) + seq![1u8] + text_bytes(n),
        },
    }
}

/// The four bytes at `p` read as a little-endian tag.
pub open spec fn tag_at(b: Seq<u8>, p: int) -> u32 {
    u32_of(b[p], b[p + 1], b[p + 2], b[p + 3])
}

/// Reads a text at `p`: its value and the position after it.
pub open spec fn parse_text(b: Seq<u8>, p: int) -> Option<(Seq<char>, int)> {
    if p < 0 || p + 8 > b.len() {
        None
    } else {
        let n = u64_of(b.subrange(p, p + 8)) as int;
        if p + 8 + n > b.len() || !valid_utf8(b.subrange(p + 8, p + 8 + n)) {
            None
        } else {
            Some((decode_utf8(b.subrange(p + 8, p + 8 + n)), p + 8 + n))
        }
    }
}

/// Reads an address at `p`: its value and the position after it.
pub open spec fn parse_addr(b: Seq<u8>, p: int) -> Option<(SockAddr, int)> {
    if p < 0 || p + 4 > b.len() {
        None
    } else if tag_at(b, p) == 0 {
        if p + 10 > b.len() {
            None
        } else {
            Some(
                (
                    SockAddr {
                        ip: IpAddr::V4([b[p + 4], b[p + 5], b[p + 6], b[p + 7]]),
                        port: u16_of(b[p + 8], b[p + 9]),
                    },
                    p + 10,
                ),
            )
        }
    } else if tag_at(b, p) == 1 {
        if p + 22 > b.len() {
            None
        } else {
            Some(
                (
                    SockAddr {
                        ip: IpAddr::V6(
                            [
                                b[p + 4],
                                b[p + 5],
                                b[p + 6],
                                b[p + 7],
                                b[p + 8],
                                b[p + 9],
                                b[p + 10],
                                b[p + 11],
                                b[p + 12],
                                b[p + 13],
                                b[p + 14],
                                b[p + 15],
                                b[p + 16],
                                b[p + 17],
                                b[p + 18],
                                b[p + 19],
                            ],
                        ),
                        port: u16_of(b[p + 20], b[p + 21]),
                    },
                    p + 22,
                ),
            )
        }
    } else {
        None
    }
}

/// Reads a proxy kind at `p`: its value and the position after it.
pub open spec fn parse_type(b: Seq<u8>, p: int) -> Option<(Type, int)> {
    if p < 0 || p + 4 > b.len() {
        None
    } else if tag_at(b, p) == 0 {
        Some((Type::Passthrough, p + 4))
    } else if tag_at(b, p) == 1 {
        Some((Type::Terminating, p + 4))
    } else {
        None
    }
}

/// Reads a whole datagram as one command; bytes left over make it fail.
pub open spec fn parse_command(b: Seq<u8>) -> Option<CommandModel> {
    if b.len() < 4 {
        None
    } else if tag_at(b, 0) == 0 {
        match parse_text(b, 4) {
            Some((name, p1)) => match parse_addr(b, p1) {
                Some((addr, p2)) => match parse_type(b, p2) {
                    Some((proxy, p3)) => if p3 == b.len() {
                        Some(CommandModel::Register { name, addr, proxy })
                    } else {
                        None
                    },
                    None => None,
                },
                None => None,
            },
            None => None,
        }
    } else if tag_at(b, 0) == 1 {
        match parse_text(b, 4) {
            Some((name, p1)) => if p1 == b.len() {
                Some(CommandModel::Deregister { name })
            } else {
                None
            },
            None => None,
        }
    } else if tag_at(b, 0) == 2 {
        if b.len() < 5 {
            None
        } else if b[4] == 0 {
            if b.len() == 5 {
                Some(CommandModel::Status { name: None })
            } else {
                None
            }
        } else if b[4] == 1 {
            match parse_text(b, 5) {
                Some((n, p1)) => if p1 == b.len() {
                    Some(CommandModel::Status { name: Some(n) })
                } else {
                    None
                },
                None => None,
            }
        } else {
            None
        }
    } else {
        None
    }
}

proof fn lemma_parse_text(b: Seq<u8>, p: int, s: Seq<char>)
    requires
        text_fits(s),
        0 <= p,
        p + text_bytes(s).len() <= b.len(),
        b.subrange(p, p + text_bytes(s).len()) == text_bytes(s),
    ensures
        parse_text(b, p) == Some((s, p + text_bytes(s).len())),
{
    let e = encode_utf8(s);
    let n: int = e.len() as int;
    assert(b.subrange(p, p + 8) =~= le_u64(n as u64)) by {
        assert(b.subrange(p, p + 8) =~= text_bytes(s).subrange(0, 8));
    }
    lemma_u64_round_trip(n as u64);
    assert(b.subrange(p + 8, p + 8 + n) =~= e) by {
        assert(b.subrange(p + 8, p + 8 + n) =~= text_bytes(s).subrange(8, 8 + n));
    }
    encode_utf8_valid_utf8(s);
    encode_utf8_decode_utf8(s);
}

proof fn lemma_text_parsed(b: Seq<u8>, p: int)
    requires
        parse_text(b, p) is Some,
    ensures
        ({
            let (s, q) = parse_text(b, p).unwrap();
            &&& text_fits(s)
            &&& q == p + text_bytes(s).len()
            &&& b.subrange(p, q) == text_bytes(s)
        }),
{
    let n = u64_of(b.subrange(p, p + 8));
    let seg = b.subrange(p + 8, p + 8 + n);
    decode_utf8_encode_utf8(seg);
    lemma_u64_bytes(b.subrange(p, p + 8));
    assert(b.subrange(p, p + 8).subrange(0, 8) =~= b.subrange(p, p + 8));
    let s = decode_utf8(seg);
    assert(b.subrange(p, p + 8 + n) =~= text_bytes(s));
}

proof fn lemma_parse_addr(b: Seq<u8>, p: int, a: SockAddr)
    requires
        0 <= p,
        p + addr_bytes(a).len() <= b.len(),
        b.subrange(p, p + addr_bytes(a).len()) == addr_bytes(a),
    ensures
        parse_addr(b, p) == Some((a, p + addr_bytes(a).len())),
{
    let w = addr_bytes(a);
    assert(forall|i: int| 0 <= i < w.len() ==> b[p + i] == #[trigger] w[i]) by {
        assert forall|i: int| 0 <= i < w.len() implies b[p + i] == #[trigger] w[i] by {
            assert(b.subrange(p, p + w.len())[i] == w[i]);
        }
    }
    lemma_u16_round_trip(a.port);
    match a.ip {
        IpAddr::V4(o) => {
            lemma_u32_round_trip(0);
            assert(w[0] == le_u32(0)[0] && w[1] == le_u32(0)[1] && w[2] == le_u32(0)[2] && w[3]
                == le_u32(0)[3]);
            let got = parse_addr(b, p).unwrap().0;
            if let IpAddr::V4(g) = got.ip {
                assert forall|i: int| 0 <= i < 4 implies g@[i] == o@[i] by {
                    assert(w[4 + i] == o@[i]);
                }
                assert(g@ =~= o@);
                assert(g =~= o);
            }
            assert(w[8] == le_u16(a.port)[0] && w[9] == le_u16(a.port)[1]);
        },
        IpAddr::V6(o) => {
            lemma_u32_round_trip(1);
            assert(w[0] == le_u32(1)[0] && w[1] == le_u32(1)[1] && w[2] == le_u32(1)[2] && w[3]
                == le_u32(1)[3]);
            let got = parse_addr(b, p).unwrap().0;
            if let IpAddr::V6(g) = got.ip {
                assert forall|i: int| 0 <= i < 16 implies g@[i] == o@[i] by {
                    assert(w[4 + i] == o@[i]);
                }
                assert(g@ =~= o@);
                assert(g =~= o);
            }
            assert(w[20] == le_u16(a.port)[0] && w[21] == le_u16(a.port)[1]);
        },
    }
}

proof fn lemma_addr_parsed(b: Seq<u8>, p: int)
    requires
        parse_addr(b, p) is Some,
    ensures
        ({
            let (a, q) = parse_addr(b, p).unwrap();
            &&& q == p + addr_bytes(a).len()
            &&& b.subrange(p, q) == addr_bytes(a)
        }),
{
    let (a, q) = parse_addr(b, p).unwrap();
    lemma_u32_bytes(b[p], b[p + 1], b[p + 2], b[p + 3]);
    lemma_u16_bytes(b[q - 2], b[q - 1]);
    assert(b.subrange(p, q) =~= addr_bytes(a));
}

proof fn lemma_parse_type(b: Seq<u8>, p: int, t: Type)
    requires
        0 <= p,
        p + 4 <= b.len(),
        b.subrange(p, p + 4) == le_u32(type_tag(t)),
    ensures
        parse_type(b, p) == Some((t, p + 4)),
{
    lemma_u32_round_trip(type_tag(t));
    assert(b[p] == b.subrange(p, p + 4)[0] && b[p + 1] == b.subrange(p, p + 4)[1] && b[p + 2]
        == b.subrange(p, p + 4)[2] && b[p + 3] == b.subrange(p, p + 4)[3]);
}

proof fn lemma_type_parsed(b: Seq<u8>, p: int)
    requires
        parse_type(b, p) is Some,
    ensures
        ({
            let (t, q) = parse_type(b, p).unwrap();
            &&& q == p + 4
            &&& b.subrange(p, q) == le_u32(type_tag(t))
        }),
{
    lemma_u32_bytes(b[p], b[p + 1], b[p + 2], b[p + 3]);
    assert(b.subrange(p, p + 4) =~= seq![b[p], b[p + 1], b[p + 2], b[p + 3]]);
}

proof fn lemma_tag(b: Seq<u8>, t: u32)
    requires
        b.len() >= 4,
        b.subrange(0, 4) == le_u32(t),
    ensures
        tag_at(b, 0) == t,
{
    lemma_u32_round_trip(t);
    assert(b[0] == b.subrange(0, 4)[0] && b[1] == b.subrange(0, 4)[1] && b[2] == b.subrange(
        0,
        4,
    )[2] && b[3] == b.subrange(0, 4)[3]);
}

proof fn lemma_parse_register_bytes(name: Seq<char>, addr: SockAddr, proxy: Type)
    requires
        text_fits(name),
    ensures
        parse_command(command_bytes(CommandModel::Register { name, addr, proxy })) == Some(
            CommandModel::Register { name, addr, proxy },
        ),
{
    let b = command_bytes(CommandModel::Register { name, addr, proxy });
    let t = text_bytes(name);
    let a = addr_bytes(addr);
    let p1: int = 4 + t.len() as int;
    let p2: int = p1 + a.len() as int;
    assert(b.subrange(0, 4) =~= le_u32(0));
    lemma_tag(b, 0);
    assert(b.subrange(4, p1) =~= t);
    lemma_parse_text(b, 4, name);
    assert(b.subrange(p1, p2) =~= a);
    lemma_parse_addr(b, p1, addr);
    assert(b.subrange(p2, p2 + 4) =~= le_u32(type_tag(proxy)));
    lemma_parse_type(b, p2, proxy);
}

/// Reading back the encoding of a command gives that command.
pub proof fn lemma_parse_command_bytes(c: CommandModel)
    requires
        c.wf(),
    ensures
        parse_command(command_bytes(c)) == Some(c),
{
    let b = command_bytes(c);
    match c {
        CommandModel::Register { name, addr, proxy } => {
            lemma_parse_register_bytes(name, addr, proxy);
        },
        CommandModel::Deregister { name } => {
            assert(b.subrange(0, 4) =~= le_u32(1));
            lemma_tag(b, 1);
            assert(b.subrange(4, 4 + text_bytes(name).len() as int) =~= text_bytes(name));
            lemma_parse_text(b, 4, name);
        },
        CommandModel::Status { name } => {
            assert(b.subrange(0, 4) =~= le_u32(2));
            lemma_tag(b, 2);
            match name {
                None => {},
                Some(n) => {
                    assert(b.subrange(5, 5 + text_bytes(n).len() as int) =~= text_bytes(n));
                    lemma_parse_text(b, 5, n);
                },
            }
        },
    }
}

/// A datagram that reads as a command is exactly that command's encoding.
pub proof fn lemma_parsed_command_bytes(b: Seq<u8>)
    requires
        parse_command(b) is Some,
    ensures
        parse_command(b).unwrap().wf(),
        command_bytes(parse_command(b).unwrap()) == b,
{
    lemma_u32_bytes(b[0], b[1], b[2], b[3]);
    assert(b.subrange(0, 4) =~= seq![b[0], b[1], b[2], b[3]]);
    let tag = tag_at(b, 0);
    if tag == 0 {
        lemma_text_parsed(b, 4);
        let (_, p1) = parse_text(b, 4).unwrap();
        lemma_addr_parsed(b, p1);
        let (_, p2) = parse_addr(b, p1).unwrap();
        lemma_type_parsed(b, p2);
        assert(b =~= b.subrange(0, 4) + b.subrange(4, p1) + b.subrange(p1, p2) + b.subrange(
            p2,
            b.len() as int,
        ));
    } else if tag == 1 {
        lemma_text_parsed(b, 4);
        assert(b =~= b.subrange(0, 4) + b.subrange(4, b.len() as int));
    } else {
        if b[4] == 0 {
            assert(b =~= b.subrange(0, 4) + seq![0u8]);
        } else {
            lemma_text_parsed(b, 5);
            assert(b =~= b.subrange(0, 4) + seq![1u8] + b.subrange(5, b.len() as int));
        }
    }
}

fn read_u32(b: &[u8], p: usize) -> (r: u32)
    requires
        p + 4 <= b@.len(),
    ensures
        r == tag_at(b@, p as int),
{
    (b[p] as u32) | ((b[p + 1] as u32) << 8u32) | ((b[p + 2] as u32) << 16u32) | ((b[p + 3] as u32)
        << 24u32)
}

fn read_u16(b: &[u8], p: usize) -> (r: u16)
    requires
        p + 2 <= b@.len(),
    ensures
        r == u16_of(b@[p as int], b@[p + 1]),
{
    (b[p] as u16) | ((b[p + 1] as u16) << 8u16)
}

fn read_u64(b: &[u8], p: usize) -> (r: u64)
    requires
        p + 8 <= b@.len(),
    ensures
        r == u64_of(b@.subrange(p as int, p + 8)),
{
    let ghost w = b@.subrange(p as int, p + 8);
    assert(w[0] == b@[p as int] && w[1] == b@[p + 1] && w[2] == b@[p + 2] && w[3] == b@[p + 3]
        && w[4] == b@[p + 4] && w[5] == b@[p + 5] && w[6] == b@[p + 6] && w[7] == b@[p + 7]);
    (b[p] as u64) | ((b[p + 1] as u64) << 8u64) | ((b[p + 2] as u64) << 16u64) | ((b[p + 3] as u64)
        << 24u64) | ((b[p + 4] as u64) << 32u64) | ((b[p + 5] as u64) << 40u64) | ((b[p + 6] as u64)
        << 48u64) | ((b[p + 7] as u64) << 56u64)
}

fn read_text(b: &[u8], p: usize) -> (r: Option<(String, usize)>)
    requires
        p <= b@.len(),
    ensures
        match parse_text(b@, p as int) {
            None => r is None,
            Some((s, q)) => r is Some && r.unwrap().0@ == s && r.unwrap().1 == q,
        },
{
    if b.len() - p < 8 {
        return None;
    }
    let n = read_u64(b, p);
    let rest = b.len() - p - 8;
    if n > rest as u64 {
        return None;
    }
    let n = n as usize;
    let start = p + 8;
    let end = start + n;
    let mut v: Vec<u8> = Vec::new();
    let mut i: usize = start;
    while i < end
        invariant
            start <= i <= end,
            end == start + n,
            end <= b@.len(),
            v@ == b@.subrange(start as int, i as int),
        decreases end - i,
    {
        v.push(b[i]);
        i = i + 1;
        assert(v@ =~= b@.subrange(start as int, i as int));
    }
    let ghost bytes = v@;
    match utf8_string(v) {
        None => None,
        Some(s) => {
            proof {
                encode_utf8_decode_utf8(s@);
            }
            assert(s@ == decode_utf8(bytes));
            Some((s, end))
        },
    }
}

fn read_addr(b: &[u8], p: usize) -> (r: Option<(SockAddr, usize)>)
    requires
        p <= b@.len(),
    ensures
        match parse_addr(b@, p as int) {
            None => r is None,
            Some((a, q)) => r is Some && r.unwrap().0 == a && r.unwrap().1 == q,
        },
{
    if b.len() - p < 4 {
        return None;
    }
    let tag = read_u32(b, p);
    if tag == 0 {
        if b.len() - p < 10 {
            return None;
        }
        let ip = IpAddr::V4([b[p + 4], b[p + 5], b[p + 6], b[p + 7]]);
        let port = read_u16(b, p + 8);
        Some((SockAddr { ip, port }, p + 10))
    } else if tag == 1 {
        if b.len() - p < 22 {
            return None;
        }
        let ip = IpAddr::V6(
            [
                b[p + 4],
                b[p + 5],
                b[p + 6],
                b[p + 7],
                b[p + 8],
                b[p + 9],
                b[p + 10],
                b[p + 11],
                b[p + 12],
                b[p + 13],
                b[p + 14],
                b[p + 15],
                b[p + 16],
                b[p + 17],
                b[p + 18],
                b[p + 19],
            ],
        );
        let port = read_u16(b, p + 20);
        Some((SockAddr { ip, port }, p + 22))
    } else {
        None
    }
}

fn read_type(b: &[u8], p: usize) -> (r: Option<(Type, usize)>)
    requires
        p <= b@.len(),
    ensures
        match parse_type(b@, p as int) {
            None => r is None,
            Some((t, q)) => r is Some && r.unwrap().0 == t && r.unwrap().1 == q,
        },
{
    if b.len() - p < 4 {
        return None;
    }
    let tag = read_u32(b, p);
    if tag == 0 {
        Some((Type::Passthrough, p + 4))
    } else if tag == 1 {
        Some((Type::Terminating, p + 4))
    } else {
        None
    }
}

fn parse(b: &[u8]) -> (r: Option<Command>)
    ensures
        match parse_command(b@) {
            None => r is None,
            Some(m) => r is Some && r.unwrap()@ == m,
        },
{
    if b.len() < 4 {
        return None;
    }
    let tag = read_u32(b, 0);
    if tag == 0 {
        let (name, p1) = match read_text(b, 4) {
            Some(x) => x,
            None => return None,
        };
        let (addr, p2) = match read_addr(b, p1) {
            Some(x) => x,
            None => return None,
        };
        let (proxy, p3) = match read_type(b, p2) {
            Some(x) => x,
            None => return None,
        };
        if p3 == b.len() {
            Some(Command::Register { name, addr, proxy })
        } else {
            None
        }
    } else if tag == 1 {
        let (name, p1) = match read_text(b, 4) {
            Some(x) => x,
            None => return None,
        };
        if p1 == b.len() {
            Some(Command::Deregister { name })
        } else {
            None
        }
    } else if tag == 2 {
        if b.len() < 5 {
            None
        } else if b[4] == 0 {
            if b.len() == 5 {
                Some(Command::Status { name: None })
            } else {
                None
            }
        } else if b[4] == 1 {
            let (n, p1) = match read_text(b, 5) {
                Some(x) => x,
                None => return None,
            };
            if p1 == b.len() {
                Some(Command::Status { name: Some(n) })
            } else {
                None
            }
        } else {
            None
        }
    } else {
        None
    }
}

fn push_text(out: &mut Vec<u8>, s: &String)
    ensures
        final(out)@ == old(out)@ + text_bytes(s@),
        text_fits(s@),
{
    let b = s.as_str().as_bytes();
    push_u64(out, b.len() as u64);
    push_all(out, b);
    assert(final(out)@ =~= old(out)@ + text_bytes(s@));
}

fn push_addr(out: &mut Vec<u8>, a: &SockAddr)
    ensures
        final(out)@ == old(out)@ + addr_bytes(*a),
{
    match &a.ip {
        IpAddr::V4(o) => {
            push_u32(out, 0);
            push_all(out, vstd::array::array_as_slice(o));
        },
        IpAddr::V6(o) => {
            push_u32(out, 1);
            push_all(out, vstd::array::array_as_slice(o));
        },
    }
    push_u16(out, a.port);
    assert(final(out)@ =~= old(out)@ + addr_bytes(*a));
}

impl Command {
    /// The bytes of one control datagram carrying this command.
    pub fn encode(&self) -> (r: Vec<u8>)
        ensures
            r@ == command_bytes(self@),
            self@.wf(),
    {
        let mut out: Vec<u8> = Vec::new();
        match self {
            Command::Register { name, addr, proxy } => {
                push_u32(&mut out, 0);
                push_text(&mut out, name);
                push_addr(&mut out, addr);
                let t: u32 = match proxy {
                    Type::Passthrough => 0,
                    Type::Terminating => 1,
                };
                push_u32(&mut out, t);
            },
            Command::Deregister { name } => {
                push_u32(&mut out, 1);
                push_text(&mut out, name);
            },
            Command::Status { name } => {
                push_u32(&mut out, 2);
                match name {
                    None => {
                        out.push(0u8);
                    },
                    Some(n) => {
                        out.push(1u8);
                        push_text(&mut out, n);
                    },
                }
            },
        }
        assert(out@ =~= command_bytes(self@));
        out
    }
    /// Reads one control datagram. It gives the command whose encoding is exactly `b`, and
    /// `None` when no command encodes to `b`.
    pub fn decode(b: &[u8]) -> (r: Option<Command>)
        ensures
            match r {
                Some(c) => c@.wf() && command_bytes(c@) == b@ && parse_command(b@) == Some(c@),
                None => parse_command(b@) is None && forall|m: CommandModel|
                    m.wf() ==> command_bytes(m) != b@,
            },
    {
        let r = parse(b);
        proof {
            if parse_command(b@) is Some {
                lemma_parsed_command_bytes(b@);
            } else {
                assert forall|m: CommandModel| m.wf() implies command_bytes(m) != b@ by {
                    lemma_parse_command_bytes(m);
                }
            }
        }
        r
    }
}

} // verus!
