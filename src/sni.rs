use std::sync::Arc;
use vstd::prelude::*;

use crate::proxy::TlsTerminating;

verus! {

/// Whether `s` holds a dot.
pub open spec fn has_dot(s: Seq<char>) -> bool {
    exists|k: int| 0 <= k < s.len() && s[k] == '.'
}

/// Whether `t` holds exactly one dot.
pub open spec fn has_one_dot(t: Seq<char>) -> bool {
    exists|k: int|
        0 <= k < t.len() && t[k] == '.' && forall|m: int| 0 <= m < t.len() && m != k ==> t[m] != '.'
}

/// `t` is the last two dot-separated labels of `s`, joined by their dot.
pub open spec fn last_two_labels(s: Seq<char>, t: Seq<char>) -> bool {
    &&& t.len() <= s.len()
    &&& s.subrange(s.len() - t.len(), s.len() as int) == t
    &&& has_one_dot(t)
    &&& (t.len() == s.len() || s[s.len() - t.len() - 1] == '.')
}

/// The route name of a server name: its last two labels (`a.b.c.d` gives `c.d`), or `None`
/// for a name of a single label.
pub fn sni_domain(host: &str) -> (r: Option<String>)
    ensures
        r is None <==> !has_dot(host@),
        r matches Some(t) ==> last_two_labels(host@, t@),
{
    let n = host.unicode_len();
    let mut i: usize = n;
    while i > 0
        invariant
            n == host@.len(),
            i <= n,
            forall|m: int| i <= m < n ==> host@[m] != '.',
        ensures
            i == 0 || host@[i - 1] == '.',
            forall|m: int| i <= m < n ==> host@[m] != '.',
        decreases i,
    {
        if host.get_char(i - 1) == '.' {
            break;
        }
        i = i - 1;
    }
    if i == 0 {
        return None;
    }
    let last = i - 1;
    assert(host@[last as int] == '.');
    let mut j: usize = last;
    while j > 0
        invariant
            n == host@.len(),
            j <= last < n,
            host@[last as int] == '.',
            forall|m: int| last < m < n ==> host@[m] != '.',
            forall|m: int| j <= m < last ==> host@[m] != '.',
        ensures
            j == 0 || host@[j - 1] == '.',
            forall|m: int| j <= m < last ==> host@[m] != '.',
        decreases j,
    {
        if host.get_char(j - 1) == '.' {
            break;
        }
        j = j - 1;
    }
    let t = host.substring_char(j, n);
    proof {
        let tv = t@;
        assert(tv[last - j] == '.');
        assert forall|m: int| 0 <= m < tv.len() && m != last - j implies tv[m] != '.' by {
            assert(tv[m] == host@[j + m]);
        }
        assert(has_one_dot(tv));
    }
    Some(String::from_str(t))
}

/// The server name (SNI) that rustls records from the TLS bytes `hello` when they are fed to a
/// fresh server connection and one step of the handshake runs; `None` when rustls refuses the
/// bytes before it reads a name, or when the ClientHello carries none.
pub uninterp spec fn hello_sni(hello: Seq<u8>) -> Option<Seq<char>>;

/// Relies on rustls: `ServerConnection::new` over `config`, `read_tls` of `data`, one
/// `process_new_packets` (its error ignored), then `server_name`. `new` fails only for an invalid
/// `max_fragment_size`, which the builder's defaults that every configuration here comes from
/// leave unset. rustls records the name while it reads the ClientHello, before anything of the
/// configuration is consulted, so the name depends on `data` alone; no bytes give no name.
#[verifier::external_body]
fn hello_server_name(config: &Arc<rustls::ServerConfig>, data: &[u8]) -> (r: Option<String>)
    ensures
        r is None <==> hello_sni(data@) is None,
        r matches Some(h) ==> hello_sni(data@) == Some(h@),
        data@.len() == 0 ==> r is None,
{
    let mut connection = rustls::ServerConnection::new(config.clone()).ok()?;
    let mut rd = data;
    connection.read_tls(&mut rd).ok()?;
    let _ = connection.process_new_packets();
    connection.server_name().map(|s| s.to_owned())
}

/// Reads the route name out of a buffered ClientHello without taking bytes from the socket:
/// the bytes go to a scratch TLS connection of `proxy`'s configuration, and the server name it
/// records is cut to its last two labels.
pub fn parse_handshake(proxy: &TlsTerminating, data: &[u8]) -> (r: Option<String>)
    ensures
        hello_sni(data@) is None ==> r is None,
        hello_sni(data@) matches Some(h) ==> (r is None <==> !has_dot(h)) && (r matches Some(
            t,
        ) ==> last_two_labels(h, t@)),
        data@.len() == 0 ==> r is None,
{
    match hello_server_name(proxy.config(), data) {
        Some(host) => sni_domain(host.as_str()),
        None => None,
    }
}

} // verus!
