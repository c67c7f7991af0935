use vstd::prelude::*;
use vstd::utf8::is_ascii_chars;

use crate::addr::SockAddr;
use crate::proxy::{handler_names, CertError, Domain, Handler, Type};

verus! {

/// A routed application: its fully qualified domain, where it listens, and its proxy.
pub struct Service {
    pub domain: String,
    pub addr: SockAddr,
    pub proxy: Handler,
}

/// What a `Service` routes: domain, address and proxy kind.
pub struct ServiceModel {
    pub domain: Seq<char>,
    pub addr: SockAddr,
    pub kind: Type,
}

impl View for Service {
    type V = ServiceModel;

    open spec fn view(&self) -> ServiceModel {
        ServiceModel { domain: self.domain@, addr: self.addr, kind: self.proxy.kind() }
    }
}

impl Service {
    /// The service for `domain` at `addr`, with a freshly built proxy of kind `proxy`.
    pub fn new(domain: &str, addr: SockAddr, proxy: Type) -> (r: Result<Service, CertError>)
        ensures
            r matches Ok(s) ==> s@ == (ServiceModel { domain: domain@, addr, kind: proxy })
                && s.proxy.cert_names() == handler_names(proxy, domain@),
            proxy == Type::Passthrough ==> r is Ok,
            r == Err::<Service, CertError>(CertError::InvalidName) <==> (proxy == Type::Terminating
                && !is_ascii_chars(domain@)),
    {
        match proxy.build(Domain::from(String::from_str(domain))) {
            Ok(handler) => Ok(Service { domain: String::from_str(domain), addr, proxy: handler }),
            Err(e) => Err(e),
        }
    }

    /// A second handle on this service; the proxy behind it is shared.
    pub fn share(&self) -> (r: Service)
        ensures
            r@ == self@,
            r.proxy.cert_names() == self.proxy.cert_names(),
    {
        Service { domain: self.domain.clone(), addr: self.addr, proxy: self.proxy.share() }
    }
}

} // verus!
