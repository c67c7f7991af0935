use vstd::prelude::*;

use crate::text::{decimal, hex, push_decimal, push_hex};

verus! {

/// An IP address, held as its octets in network order.
#[derive(Clone, Copy, Debug, PartialEq, Eq)]
pub enum IpAddr {
    V4([u8; 4]),
    V6([u8; 16]),
}

/// A socket address: an IP address and a port.
#[derive(Clone, Copy, Debug, PartialEq, Eq)]
pub struct SockAddr {
    pub ip: IpAddr,
    pub port: u16,
}

impl SockAddr {
    /// The IPv6 loopback address `[::1]` with the given port.
    pub fn loopback_v6(port: u16) -> (r: SockAddr)
        ensures
            r.port == port,
            r.ip == IpAddr::V6([0u8, 0, 0, 0, 0, 0, 0, 0, 0, 0, 0, 0, 0, 0, 0, 1]),
    {
        SockAddr { ip: IpAddr::V6([0u8, 0, 0, 0, 0, 0, 0, 0, 0, 0, 0, 0, 0, 0, 0, 1]), port }
    }
}

/// An IPv4 address in dotted decimal.
pub open spec fn v4_text(o: Seq<u8>) -> Seq<char> {
    decimal(o[0] as nat) + seq!['.'] + decimal(o[1] as nat) + seq!['.'] + decimal(o[2] as nat)
        + seq!['.'] + decimal(o[3] as nat)
}

/// The eight 16-bit groups of an IPv6 address.
pub open spec fn groups(o: Seq<u8>) -> Seq<nat> {
    Seq::new(8, |i: int| (o[2 * i] as nat) * 256 + (o[2 * i + 1] as nat))
}

/// Groups in hexadecimal, separated by colons.
pub open spec fn join_hex(s: Seq<nat>) -> Seq<char>
    decreases s.len(),
{
    if s.len() == 0 {
        seq![]
    } else if s.len() == 1 {
        hex(s[0])
    } else {
        join_hex(s.drop_last()) + seq![':'] + hex(s.last())
    }
}

/// The length of the run of zero groups that ends just before position `i`.
pub open spec fn run_before(s: Seq<nat>, i: int) -> nat
    decreases i,
{
    if i <= 0 || s[i - 1] != 0 {
        0
    } else {
        run_before(s, i - 1) + 1
    }
}

/// The start and length of the first longest run of zero groups among the first `i`.
pub open spec fn longest_run(s: Seq<nat>, i: int) -> (int, nat)
    decreases i,
{
    if i <= 0 {
        (0, 0)
    } else {
        let (st, len) = longest_run(s, i - 1);
        let r = run_before(s, i);
        if r > len {
            (i - r, r)
        } else {
            (st, len)
        }
    }
}

proof fn lemma_run_bounds(s: Seq<nat>, i: int)
    requires
        0 <= i,
    ensures
        run_before(s, i) <= i,
        longest_run(s, i).0 >= 0,
        longest_run(s, i).0 + longest_run(s, i).1 <= i,
    decreases i,
{
    if i > 0 {
        lemma_run_bounds(s, i - 1);
    }
}

/// Whether the address is an IPv4 address mapped into IPv6 (`::ffff:a.b.c.d`).
pub open spec fn is_v4_mapped(o: Seq<u8>) -> bool {
    &&& forall|k: int| 0 <= k < 10 ==> #[trigger] o[k] == 0
    &&& o[10] == 0xff
    &&& o[11] == 0xff
}

/// An IPv6 address as std writes it: a mapped IPv4 address as `::ffff:` and dotted decimal;
/// otherwise hexadecimal groups with the first longest run of two or more zero groups
/// written `::`.
pub open spec fn v6_text(o: Seq<u8>) -> Seq<char> {
    let g = groups(o);
    let (st, len) = longest_run(g, 8);
    if is_v4_mapped(o) {
        seq![':', ':', 'f', 'f', 'f', 'f', ':'] + v4_text(o.subrange(12, 16))
    } else if len >= 2 {
        join_hex(g.subrange(0, st)) + seq![':', ':'] + join_hex(g.subrange(st + len, 8))
    } else {
        join_hex(g)
    }
}

/// A socket address as std writes it: `a.b.c.d:port`, or `[ipv6]:port`.
pub open spec fn addr_text(a: SockAddr) -> Seq<char> {
    match a.ip {
        IpAddr::V4(o) => v4_text(o@) + seq![':'] + decimal(a.port as nat),
        IpAddr::V6(o) => seq!['['] + v6_text(o@) + seq![']', ':'] + decimal(a.port as nat),
    }
}

fn push_v4(out: &mut String, o: &[u8])
    requires
        o@.len() == 4,
    ensures
        final(out)@ == old(out)@ + v4_text(o@),
{
    proof {
        reveal_strlit(".");
    }
    push_decimal(out, o[0] as u64);
    out.append(".");
    push_decimal(out, o[1] as u64);
    out.append(".");
    push_decimal(out, o[2] as u64);
    out.append(".");
    push_decimal(out, o[3] as u64);
    assert(final(out)@ =~= old(out)@ + v4_text(o@));
}

fn push_groups(out: &mut String, g: &Vec<u16>, from: usize, to: usize)
    requires
        from <= to <= g@.len(),
    ensures
        final(out)@ == old(out)@ + join_hex(g@.subrange(from as int, to as int).map_values(
            |x: u16| x as nat,
        )),
{
    proof {
        reveal_strlit(":");
    }
    let mut i: usize = from;
    while i < to
        invariant
            from <= i <= to <= g@.len(),
            out@ == old(out)@ + join_hex(g@.subrange(from as int, i as int).map_values(
                |x: u16| x as nat,
            )),
        decreases to - i,
    {
        let ghost before = g@.subrange(from as int, i as int).map_values(|x: u16| x as nat);
        let ghost after = g@.subrange(from as int, i + 1).map_values(|x: u16| x as nat);
        proof {
            reveal_strlit(":");
        }
        assert(after.drop_last() =~= before);
        assert(after.last() == g@[i as int] as nat);
        if i > from {
            out.append(":");
        }
        push_hex(out, g[i] as u64);
        proof {
            if i == from {
                assert(join_hex(before) == Seq::<char>::empty());
                assert(join_hex(after) == hex(after[0]));
            } else {
                assert(join_hex(after) == join_hex(before) + seq![':'] + hex(after.last()));
            }
        }
        i = i + 1;
        assert(out@ =~= old(out)@ + join_hex(after));
    }
}

fn push_v6(out: &mut String, o: &[u8])
    requires
        o@.len() == 16,
    ensures
        final(out)@ == old(out)@ + v6_text(o@),
{
    proof {
        reveal_strlit("::ffff:");
        reveal_strlit("::");
    }
    let ghost gs = groups(o@);
    let mut mapped = o[10] == 0xff && o[11] == 0xff;
    let mut k: usize = 0;
    while k < 10
        invariant
            o@.len() == 16,
            k <= 10,
            mapped == (o[10] == 0xff && o[11] == 0xff && forall|j: int| 0 <= j < k ==> o@[j] == 0),
        decreases 10 - k,
    {
        if o[k] != 0 {
            mapped = false;
        }
        k = k + 1;
    }
    if mapped {
        out.append("::ffff:");
        let tail = vstd::slice::slice_subrange(o, 12, 16);
        push_v4(out, tail);
        assert(final(out)@ =~= old(out)@ + v6_text(o@));
        return;
    }
    let mut g: Vec<u16> = Vec::new();
    let mut i: usize = 0;
    let mut cur: u16 = 0;
    let mut best_start: usize = 0;
    let mut best_len: u16 = 0;
    while i < 8
        invariant
            o@.len() == 16,
            gs == groups(o@),
            i <= 8,
            g@.len() == i,
            forall|j: int| 0 <= j < i ==> g@[j] as nat == gs[j],
            cur as nat == run_before(gs, i as int),
            (best_start as int, best_len as nat) == longest_run(gs, i as int),
            cur <= i,
            best_start + best_len <= i,
        decreases 8 - i,
    {
        proof {
            lemma_run_bounds(gs, i + 1);
        }
        let v: u16 = (o[2 * i] as u16) * 256 + (o[2 * i + 1] as u16);
        assert(gs.len() == 8);
        assert(gs[i as int] == (o@[2 * i] as nat) * 256 + (o@[2 * i + 1] as nat));
        assert(gs[i as int] == v as nat);
        g.push(v);
        if v == 0 {
            cur = cur + 1;
        } else {
            cur = 0;
        }
        if cur > best_len {
            best_start = i + 1 - cur as usize;
            best_len = cur;
        }
        i = i + 1;
    }
    let ghost gn = g@.map_values(|x: u16| x as nat);
    assert(gn =~= gs);
    if best_len >= 2 {
        push_groups(out, &g, 0, best_start);
        out.append("::");
        push_groups(out, &g, best_start + best_len as usize, 8);
        assert(g@.subrange(0, best_start as int).map_values(|x: u16| x as nat) =~= gs.subrange(
            0,
            best_start as int,
        ));
        assert(g@.subrange(best_start + best_len, 8).map_values(|x: u16| x as nat)
            =~= gs.subrange(best_start + best_len, 8));
    } else {
        push_groups(out, &g, 0, 8);
        assert(g@.subrange(0, 8).map_values(|x: u16| x as nat) =~= gs);
    }
    assert(final(out)@ =~= old(out)@ + v6_text(o@));
}

impl SockAddr {
    /// This address as text, as std writes a socket address.
    pub fn text(&self) -> (r: String)
        ensures
            r@ == addr_text(*self),
    {
        proof {
            reveal_strlit("[");
            reveal_strlit("]:");
            reveal_strlit(":");
        }
        let mut out = String::new();
        match &self.ip {
            IpAddr::V4(o) => {
                push_v4(&mut out, vstd::array::array_as_slice(o));
                out.append(":");
            },
            IpAddr::V6(o) => {
                out.append("[");
                push_v6(&mut out, vstd::array::array_as_slice(o));
                out.append("]:");
            },
        }
        push_decimal(&mut out, self.port as u64);
        assert(out@ =~= addr_text(*self));
        out
    }
}

} // verus!
