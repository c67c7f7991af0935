use vstd::prelude::*;

use crate::text::{decimal, push_decimal};

verus! {

/// The page that lists the routes.
#[derive(Clone, Copy, Debug)]
pub struct Home;

/// The page that tells the server is up.
#[derive(Clone, Copy, Debug)]
pub struct Health;

/// A page of the dashboard.
#[derive(Clone, Copy, Debug, PartialEq, Eq, Structural)]
pub enum Page {
    Home,
    Health,
}

/// The page served at `path`: `/` and `/health`.
pub fn route(path: &str) -> (r: Option<Page>)
    ensures
        r == if path@ == "/"@ {
            Some(Page::Home)
        } else if path@ == "/health"@ {
            Some(Page::Health)
        } else {
            None
        },
{
    if crate::text::str_eq(path, "/") {
        Some(Page::Home)
    } else if crate::text::str_eq(path, "/health") {
        Some(Page::Health)
    } else {
        None
    }
}

impl Health {
    /// The body of the health page.
    pub fn body() -> (r: String)
        ensures
            r@ == "Ok\n"@,
    {
        String::from_str("Ok\n")
    }
}

/// The link to `domain` on the dashboard's port: no port for 443 or an unknown one.
pub open spec fn domain_url_text(domain: Seq<char>, port: Option<u16>) -> Seq<char> {
    "https://"@ + domain + match port {
        Some(p) => if p != 443 {
            ":"@ + decimal(p as nat)
        } else {
            Seq::empty()
        },
        None => Seq::empty(),
    }
}

/// The `https` link to `domain` as reached through the port the request came to.
pub fn domain_url(domain: &str, port: Option<u16>) -> (r: String)
    ensures
        r@ == domain_url_text(domain@, port),
{
    let mut s = String::from_str("https://");
    s.append(domain);
    match port {
        Some(p) => if p != 443 {
            s.append(":");
            push_decimal(&mut s, p as u64);
        },
        None => {},
    }
    s
}

} // verus!
