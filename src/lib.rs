/// Socket addresses and their text.
pub mod addr;
/// Little-endian integers on the wire.
pub mod bytes;
/// Name constraints of a certificate authority.
pub mod ca;
/// The client end of the control channel.
pub mod client;
/// Control commands and their wire encoding.
pub mod command;
/// The management pages.
pub mod dashboard;
/// Proxy kinds and the proxies built for them.
pub mod proxy;
/// The route table and the commands that change it.
pub mod registry;
/// The decisions of the process supervisor.
pub mod runner;
/// Routed services.
pub mod service;
/// Route names read from a TLS ClientHello.
pub mod sni;
/// Text helpers.
pub mod text;
