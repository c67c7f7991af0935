use vstd::prelude::*;
use vstd::utf8::{encode_utf8, valid_utf8};

use crate::text::{hex, push_hex, utf8_string};

verus! {

/// The size of the buffer that one control datagram or reply is read into.
pub const DATAGRAM_SIZE: usize = 1024;

/// How long a client waits for a reply, in seconds.
pub const REPLY_TIMEOUT_SECS: u64 = 5;

/// Whether a message of `len` bytes fits one control datagram.
pub fn fits_datagram(len: usize) -> (r: bool)
    ensures
        r == (len <= DATAGRAM_SIZE),
{
    len <= DATAGRAM_SIZE
}

/// The file name of a client's socket: `dolores-<id in hex>-client.sock`.
pub open spec fn socket_name_of(id: u64) -> Seq<char> {
    "dolores-"@ + hex(id as nat) + "-client.sock"@
}

/// The file name, in the temporary directory, of the socket of the client numbered `id`.
pub fn client_socket_name(id: u64) -> (r: String)
    ensures
        r@ == socket_name_of(id),
{
    let mut s = String::from_str("dolores-");
    push_hex(&mut s, id);
    s.append("-client.sock");
    s
}

/// A reply read back as text; `None` when it is not UTF-8.
pub fn decode_reply(bytes: Vec<u8>) -> (r: Option<String>)
    ensures
        r is Some <==> valid_utf8(bytes@),
        r matches Some(s) ==> encode_utf8(s@) == bytes@,
{
    utf8_string(bytes)
}

} // verus!
