use std::sync::Arc;
use vstd::prelude::*;
use vstd::utf8::{is_ascii_chars, is_ascii_chars_concat};

use crate::ca::CertificateAuthority;
use crate::text::str_eq;

verus! {

/// How the front end forwards a routed connection.
#[derive(Clone, Copy, Debug, PartialEq, Eq, Structural, Hash)]
pub enum Type {
    /// Bytes are copied both ways untouched; TLS ends at the child.
    Passthrough,
    /// TLS ends at the front end; plain bytes go on to the child.
    Terminating,
}

/// The command-line spelling of each proxy kind.
pub open spec fn kind_text(t: Type) -> Seq<char> {
    match t {
        Type::Passthrough => seq!['p', 'a', 's', 's', 't', 'h', 'r', 'o', 'u', 'g', 'h'],
        Type::Terminating => seq!['t', 'e', 'r', 'm', 'i', 'n', 'a', 't', 'i', 'n', 'g'],
    }
}

/// The names of the certificate that a handler of kind `t` for `d` presents.
pub open spec fn handler_names(t: Type, d: Seq<char>) -> Seq<Seq<char>> {
    match t {
        Type::Passthrough => Seq::empty(),
        Type::Terminating => domain_names(d),
    }
}

impl Type {
    /// Reads a proxy kind from its snake-case name.
    pub fn parse(s: &str) -> (r: Option<Type>)
        ensures
            r matches Some(t) ==> kind_text(t) == s@,
            r is None ==> s@ != kind_text(Type::Passthrough) && s@ != kind_text(Type::Terminating),
    {
        proof {
            reveal_strlit("passthrough");
            reveal_strlit("terminating");
        }
        if str_eq(s, "passthrough") {
            assert("passthrough"@ =~= kind_text(Type::Passthrough));
            Some(Type::Passthrough)
        } else if str_eq(s, "terminating") {
            assert("terminating"@ =~= kind_text(Type::Terminating));
            Some(Type::Terminating)
        } else {
            assert("passthrough"@ =~= kind_text(Type::Passthrough));
            assert("terminating"@ =~= kind_text(Type::Terminating));
            None
        }
    }

    /// Builds the handler of this kind for `domain`; a terminating one presents a certificate
    /// for `domain` and `*.domain`.
    pub fn build(self, domain: Domain) -> (r: Result<Handler, CertError>)
        ensures
            r matches Ok(h) ==> h.kind() == self && h.cert_names() == handler_names(
                self,
                domain@,
            ),
            self == Type::Passthrough ==> r is Ok,
            r == Err::<Handler, CertError>(CertError::InvalidName) <==> (self == Type::Terminating
                && !is_ascii_chars(domain@)),
    {
        match self {
            Type::Passthrough => Ok(Handler::Transparent(Transparent)),
            Type::Terminating => match TlsTerminating::self_signed(domain) {
                Ok(t) => Ok(Handler::Terminating(t)),
                Err(e) => Err(e),
            },
        }
    }
}

/// The fully qualified name that a certificate is made for.
pub struct Domain {
    name: String,
}

/// The names a certificate for `d` covers: `d` itself and every name directly under it.
pub open spec fn domain_names(d: Seq<char>) -> Seq<Seq<char>> {
    seq![d, seq!['*', '.'] + d]
}

impl View for Domain {
    type V = Seq<char>;

    closed spec fn view(&self) -> Seq<char> {
        self.name@
    }
}

impl Domain {
    pub fn from(name: String) -> (r: Domain)
        ensures
            r@ == name@,
    {
        Domain { name }
    }

    /// The subject alternative names of a certificate for this domain.
    pub fn names(self) -> (r: Vec<String>)
        ensures
            r@.len() == 2,
            r@[0]@ == domain_names(self@)[0],
            r@[1]@ == domain_names(self@)[1],
    {
        proof {
            reveal_strlit("*.");
        }
        let wild = String::from_str("*.").concat(self.name.as_str());
        assert(wild@ =~= seq!['*', '.'] + self@);
        let mut r: Vec<String> = Vec::new();
        r.push(self.name);
        r.push(wild);
        r
    }
}

/// Why a certificate or a TLS configuration could not be made.
#[derive(Clone, Copy, Debug, PartialEq, Eq, Structural)]
pub enum CertError {
    /// The name is not ASCII, so it cannot stand in a certificate.
    InvalidName,
    /// The certificate could not be generated or signed.
    Certificate,
    /// The TLS library refused the certificate or its key.
    Config,
}

#[verifier::external_type_specification]
#[verifier::external_body]
pub struct ExCertificate(rcgen::Certificate);

#[verifier::external_type_specification]
#[verifier::external_body]
pub struct ExRcgenError(rcgen::RcgenError);

#[verifier::external_type_specification]
#[verifier::external_body]
pub struct ExServerConfig(rustls::ServerConfig);

#[verifier::external_type_specification]
#[verifier::external_body]
pub struct ExTlsError(rustls::Error);

/// Every name is ASCII.
pub open spec fn all_ascii(names: Seq<String>) -> bool {
    forall|i: int| 0 <= i < names.len() ==> is_ascii_chars(#[trigger] names[i]@)
}

/// Relies on `rcgen::generate_simple_self_signed`, then `Certificate::serialize_der` and
/// `Certificate::serialize_private_key_der`: a fresh local key pair, and the certificate for
/// `names`, signed with that key, in DER together with the key in PKCS#8 DER. rcgen writes each
/// name as an IA5 string, which yasna asserts is ASCII; serializing a local key pair does not
/// panic.
#[verifier::external_body]
fn self_signed_der(names: Vec<String>) -> (r: Result<(Vec<u8>, Vec<u8>), rcgen::RcgenError>)
    requires
        all_ascii(names@),
{
    let cert = rcgen::generate_simple_self_signed(names)?;
    let der = cert.serialize_der()?;
    Ok((der, cert.serialize_private_key_der()))
}

/// Relies on `rcgen::generate_simple_self_signed`, then
/// `Certificate::serialize_der_with_signer` and `Certificate::serialize_private_key_der`: a
/// fresh local key pair, and the certificate for `names`, signed with the key of `ca`, in DER
/// together with the key in PKCS#8 DER. The names must be ASCII as above. rcgen also writes the
/// distinguished name of `ca` as the issuer; a `CertificateAuthority` holds only a UTF8String
/// common name there, which yasna writes without any check, and a local key pair to sign with.
#[verifier::external_body]
fn ca_signed_der(names: Vec<String>, ca: &CertificateAuthority) -> (r: Result<
    (Vec<u8>, Vec<u8>),
    rcgen::RcgenError,
>)
    requires
        all_ascii(names@),
{
    let cert = rcgen::generate_simple_self_signed(names)?;
    let der = cert.serialize_der_with_signer(&ca.cert)?;
    Ok((der, cert.serialize_private_key_der()))
}

/// Relies on rustls' `ServerConfig` builder with safe defaults, no client authentication and
/// `with_single_cert`: a server configuration that presents `chain` and signs with `key`.
#[verifier::external_body]
fn single_cert_config(chain: Vec<Vec<u8>>, key: Vec<u8>) -> Result<
    rustls::ServerConfig,
    rustls::Error,
> {
    rustls::ServerConfig::builder().with_safe_defaults().with_no_client_auth().with_single_cert(
        chain.into_iter().map(rustls::Certificate).collect(),
        rustls::PrivateKey(key),
    )
}

/// The proxy that copies bytes both ways without looking at them.
#[derive(Clone, Copy, Debug)]
pub struct Transparent;

/// The proxy that accepts TLS itself and forwards the plain bytes.
pub struct TlsTerminating {
    config: Arc<rustls::ServerConfig>,
    names: Ghost<Seq<Seq<char>>>,
}

/// The names of a certificate for `d`, checked to be ASCII, with the proof that they are.
fn certificate_names(domain: Domain) -> (r: Option<Vec<String>>)
    ensures
        r is Some <==> is_ascii_chars(domain@),
        r matches Some(v) ==> all_ascii(v@) && v@.len() == 2 && v@[0]@ == domain_names(domain@)[0]
            && v@[1]@ == domain_names(domain@)[1],
{
    let ascii = domain.name.as_str().is_ascii();
    if !ascii {
        return None;
    }
    let ghost d = domain@;
    let v = domain.names();
    proof {
        is_ascii_chars_concat(v@[1]@, seq!['*', '.'], d);
        assert(is_ascii_chars(seq!['*', '.']));
    }
    Some(v)
}

impl TlsTerminating {
    /// The names its certificate is made for.
    pub closed spec fn cert_names(&self) -> Seq<Seq<char>> {
        self.names@
    }

    /// A proxy that presents a fresh self-signed certificate for `domain` and `*.domain`. A
    /// domain that is not ASCII cannot stand in a certificate and is refused.
    pub fn self_signed(domain: Domain) -> (r: Result<TlsTerminating, CertError>)
        ensures
            r matches Ok(t) ==> t.cert_names() == domain_names(domain@),
            r == Err::<TlsTerminating, CertError>(CertError::InvalidName) <==> !is_ascii_chars(
                domain@,
            ),
    {
        let ghost d = domain@;
        let names = match certificate_names(domain) {
            Some(v) => v,
            None => return Err(CertError::InvalidName),
        };
        let (der, key) = match self_signed_der(names) {
            Ok(pair) => pair,
            Err(_) => return Err(CertError::Certificate),
        };
        TlsTerminating::build(der, key, Ghost(domain_names(d)))
    }

    /// A proxy that presents a certificate for `domain` and `*.domain` signed by `ca_cert`. A
    /// domain that is not ASCII is refused.
    pub fn from_ca(domain: Domain, ca_cert: &CertificateAuthority) -> (r: Result<
        TlsTerminating,
        CertError,
    >)
        ensures
            r matches Ok(t) ==> t.cert_names() == domain_names(domain@),
            r == Err::<TlsTerminating, CertError>(CertError::InvalidName) <==> !is_ascii_chars(
                domain@,
            ),
    {
        let ghost d = domain@;
        let names = match certificate_names(domain) {
            Some(v) => v,
            None => return Err(CertError::InvalidName),
        };
        let (der, key) = match ca_signed_der(names, ca_cert) {
            Ok(pair) => pair,
            Err(_) => return Err(CertError::Certificate),
        };
        TlsTerminating::build(der, key, Ghost(domain_names(d)))
    }

    fn build(cert_der: Vec<u8>, key_der: Vec<u8>, names: Ghost<Seq<Seq<char>>>) -> (r: Result<
        TlsTerminating,
        CertError,
    >)
        ensures
            r matches Ok(t) ==> t.cert_names() == names@,
            r matches Err(e) ==> e == CertError::Config,
    {
        let mut chain: Vec<Vec<u8>> = Vec::new();
        chain.push(cert_der);
        match single_cert_config(chain, key_der) {
            Ok(config) => Ok(TlsTerminating { config: Arc::new(config), names }),
            Err(_) => Err(CertError::Config),
        }
    }

    /// The TLS configuration that connections are accepted with.
    pub fn config(&self) -> &Arc<rustls::ServerConfig> {
        &self.config
    }
}

/// The proxy attached to a route, one of a closed set.
pub enum Handler {
    Transparent(Transparent),
    Terminating(TlsTerminating),
}

impl Handler {
    pub open spec fn kind(&self) -> Type {
        match self {
            Handler::Transparent(_) => Type::Passthrough,
            Handler::Terminating(_) => Type::Terminating,
        }
    }

    /// The kind of proxy this is.
    pub fn proxy_type(&self) -> (r: Type)
        ensures
            r == self.kind(),
    {
        match self {
            Handler::Transparent(_) => Type::Passthrough,
            Handler::Terminating(_) => Type::Terminating,
        }
    }

    /// The names of the certificate it presents; none for a transparent proxy.
    pub open spec fn cert_names(&self) -> Seq<Seq<char>> {
        match self {
            Handler::Transparent(_) => Seq::empty(),
            Handler::Terminating(t) => t.cert_names(),
        }
    }

    /// Another handle on the same proxy; a terminating one shares its TLS configuration.
    pub fn share(&self) -> (r: Handler)
        ensures
            r.kind() == self.kind(),
            r.cert_names() == self.cert_names(),
    {
        match self {
            Handler::Transparent(_) => Handler::Transparent(Transparent),
            Handler::Terminating(t) => Handler::Terminating(
                TlsTerminating { config: t.config.clone(), names: Ghost(t.names@) },
            ),
        }
    }
}

/// The size of each of the two buffers of a terminating proxy.
pub const BUFFER_SIZE: usize = 4096;

/// How a read from one side of a terminating proxy ended.
#[derive(Clone, Copy, Debug, PartialEq, Eq, Structural)]
pub enum ReadOutcome {
    /// This many bytes arrived; zero means the peer closed.
    Bytes(usize),
    /// Nothing was ready.
    WouldBlock,
    /// The read failed otherwise.
    Failed,
}

/// What a terminating proxy does after a read.
#[derive(Clone, Copy, Debug, PartialEq, Eq, Structural)]
pub enum CopyStep {
    /// The peer closed: the session ends well.
    Finish,
    /// Write the first this many bytes of the buffer to the other side, then go on.
    Forward(usize),
    /// No progress: go on reading.
    Continue,
    /// End the session with the read's error.
    Fail,
}

/// The decision after one read of a terminating proxy.
pub fn copy_step(read: ReadOutcome) -> (r: CopyStep)
    ensures
        r == match read {
            ReadOutcome::Bytes(0) => CopyStep::Finish,
            ReadOutcome::Bytes(n) => CopyStep::Forward(n),
            ReadOutcome::WouldBlock => CopyStep::Continue,
            ReadOutcome::Failed => CopyStep::Fail,
        },
{
    match read {
        ReadOutcome::Bytes(n) => if n == 0 {
            CopyStep::Finish
        } else {
            CopyStep::Forward(n)
        },
        ReadOutcome::WouldBlock => CopyStep::Continue,
        ReadOutcome::Failed => CopyStep::Fail,
    }
}

} // verus!
