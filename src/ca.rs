use vstd::prelude::*;
use vstd::utf8::is_ascii_chars;

use crate::proxy::{all_ascii, CertError};

verus! {

/// The DNS name constraints of a CA for `domains`: `.<domain>` for each, in order. The leading
/// dot is meant: the CA may sign names strictly under each domain (`app.localhost`,
/// `*.app.localhost`), which is all that routes ever need, and never the bare domain itself.
pub fn permitted_subtrees(domains: &Vec<String>) -> (r: Vec<String>)
    ensures
        r@.len() == domains@.len(),
        forall|i: int| 0 <= i < r@.len() ==> #[trigger] r@[i]@ == seq!['.'] + domains@[i]@,
{
    let mut r: Vec<String> = Vec::new();
    let mut i: usize = 0;
    while i < domains.len()
        invariant
            i <= domains@.len(),
            r@.len() == i,
            forall|j: int| 0 <= j < i ==> #[trigger] r@[j]@ == seq!['.'] + domains@[j]@,
        decreases domains@.len() - i,
    {
        proof {
            reveal_strlit(".");
        }
        let mut s = String::from_str(".");
        s.append(domains[i].as_str());
        assert(s@ =~= seq!['.'] + domains@[i as int]@);
        r.push(s);
        i = i + 1;
    }
    r
}

/// The common name of the certificate authorities made here.
pub const CA_COMMON_NAME: &'static str = "Dolores localhost certificate";

/// How many intermediate certificates may stand below such an authority.
pub const CA_PATH_LEN: u8 = 0;

/// Relies on `rcgen::Certificate::from_params`: a fresh local key pair and a CA certificate for
/// `names` whose distinguished name is the single common name `common_name` (rcgen's `push` of a
/// `&str` makes a UTF8String value), allowed to sign certificates only (`KeyCertSign`), with
/// `path_len` intermediates at most and the DNS name constraints `subtrees`.
#[verifier::external_body]
fn ca_certificate(common_name: &str, names: Vec<String>, subtrees: Vec<String>, path_len: u8)
    -> Result<rcgen::Certificate, rcgen::RcgenError> {
    let mut params = rcgen::CertificateParams::new(names);
    params.distinguished_name.push(rcgen::DnType::CommonName, common_name);
    params.key_usages = vec![rcgen::KeyUsagePurpose::KeyCertSign];
    params.is_ca = rcgen::IsCa::Ca(rcgen::BasicConstraints::Constrained(path_len));
    let permitted_subtrees = subtrees.into_iter().map(rcgen::GeneralSubtree::DnsName).collect();
    let excluded_subtrees = Vec::new();
    params.name_constraints = Some(rcgen::NameConstraints { permitted_subtrees, excluded_subtrees });
    rcgen::Certificate::from_params(params)
}

/// A certificate authority that signs the certificates of terminating proxies.
pub struct CertificateAuthority {
    pub(crate) cert: rcgen::Certificate,
}

impl CertificateAuthority {
    /// A fresh authority for `domains`, constrained to names under them. Domains that are not
    /// ASCII cannot stand in a certificate and are refused.
    pub fn generate(domains: &Vec<String>) -> (r: Result<CertificateAuthority, CertError>)
        ensures
            r == Err::<CertificateAuthority, CertError>(CertError::InvalidName) <==> !all_ascii(
                domains@,
            ),
    {
        let mut i: usize = 0;
        while i < domains.len()
            invariant
                i <= domains@.len(),
                forall|j: int| 0 <= j < i ==> is_ascii_chars(#[trigger] domains@[j]@),
            decreases domains@.len() - i,
        {
            if !domains[i].as_str().is_ascii() {
                return Err(CertError::InvalidName);
            }
            i = i + 1;
        }
        let subtrees = permitted_subtrees(domains);
        match ca_certificate(CA_COMMON_NAME, domains.clone(), subtrees, CA_PATH_LEN) {
            Ok(cert) => Ok(CertificateAuthority { cert }),
            Err(_) => Err(CertError::Certificate),
        }
    }

    /// The authority's certificate, for writing it out.
    pub fn certificate(&self) -> &rcgen::Certificate {
        &self.cert
    }
}

} // verus!
