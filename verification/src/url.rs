//! Absolute URLs, as far as the client reads them.

use vstd::prelude::*;
use crate::address::{Address, AddressV4, AddressV6, Error};

verus! {

/// The host of a URL as mathematical values.
pub enum HostView {
    Domain(Seq<char>),
    V4(u32),
    V6(u128),
}

/// The host of a URL: a domain name, or an IP address written out in the
/// URL. An address is held as the integer whose big-endian bytes are its
/// octets.
#[derive(Debug, PartialEq, Eq)]
pub enum Host {
    Domain(String),
    V4(u32),
    V6(u128),
}

impl View for Host {
    type V = HostView;

    open spec fn view(&self) -> HostView {
        match self {
            Host::Domain(d) => HostView::Domain(d@),
            Host::V4(ip) => HostView::V4(*ip),
            Host::V6(ip) => HostView::V6(*ip),
        }
    }
}

/// A URL as mathematical values.
pub struct UrlView {
    pub text: Seq<char>,
    pub host: Option<HostView>,
    pub port: Option<u16>,
}

/// A parsed absolute URL: its serialization, its host where it has one, and
/// its port where one is written.
#[derive(Debug, PartialEq, Eq)]
pub struct Url {
    pub text: String,
    pub host: Option<Host>,
    pub port: Option<u16>,
}

impl View for Url {
    type V = UrlView;

    open spec fn view(&self) -> UrlView {
        UrlView {
            text: self.text@,
            host: match self.host {
                Some(h) => Some(h@),
                None => None,
            },
            port: self.port,
        }
    }
}

/// What `hyper::Url::parse` makes of a text: nothing where it reports an
/// error, else the parts of the URL it returns.
pub uninterp spec fn parsed_url(text: Seq<char>) -> Option<UrlView>;

/// Calls `hyper::Url::parse` and copies out of the URL it returns the
/// results of `as_str`, `host` and `port`. The contract only gives that
/// outcome its name; it claims nothing about which texts parse.
#[verifier::external_body]
fn parse_absolute(text: &str) -> (r: Option<Url>)
    ensures
        match r {
            Some(u) => parsed_url(text@) == Some(u@),
            None => parsed_url(text@).is_none(),
        },
{
    let u = match hyper::Url::parse(text) {
        Ok(u) => u,
        Err(_) => return None,
    };
    let host = match u.host() {
        Some(::url::Host::Domain(d)) => Some(Host::Domain(d.to_string())),
        Some(::url::Host::Ipv4(a)) => Some(Host::V4(u32::from(a))),
        Some(::url::Host::Ipv6(a)) => Some(Host::V6(u128::from(a))),
        None => None,
    };
    Some(Url { text: u.as_str().to_string(), host, port: u.port() })
}

/// The host name that is resolved for a URL without a host.
pub open spec fn default_host() -> Seq<char> {
    "localhost"@
}

/// The port that is used when a URL writes none.
pub const DEFAULT_PORT: u16 = 80;

/// What has to be done to find the address of a URL's host, as mathematical
/// values.
pub enum TargetView {
    /// Resolve this host name.
    Resolve(Seq<char>),
    /// Nothing: the URL writes the address out.
    Literal(Address),
}

/// What has to be done to find the address of a URL's host.
#[derive(Debug, PartialEq, Eq)]
pub enum Target {
    /// Resolve this host name.
    Resolve(String),
    /// Nothing: the URL writes the address out.
    Literal(Address),
}

impl View for Target {
    type V = TargetView;

    open spec fn view(&self) -> TargetView {
        match self {
            Target::Resolve(name) => TargetView::Resolve(name@),
            Target::Literal(addr) => TargetView::Literal(*addr),
        }
    }
}

impl UrlView {
    /// The domain of the URL, where its host is a domain name.
    pub open spec fn domain(self) -> Option<Seq<char>> {
        match self.host {
            Some(HostView::Domain(d)) => Some(d),
            _ => None,
        }
    }

    /// The port to connect to for this URL: its own, or 80 where it writes
    /// none.
    pub open spec fn lookup_port(self) -> u16 {
        match self.port {
            Some(p) => p,
            None => DEFAULT_PORT,
        }
    }

    /// How the address of the URL's host is found: a domain name is
    /// resolved; an IP address written in the URL is the address itself,
    /// under the port to connect to; for a URL without a host `localhost` is
    /// resolved.
    pub open spec fn lookup_target(self) -> TargetView {
        match self.host {
            Some(HostView::Domain(d)) => TargetView::Resolve(d),
            Some(HostView::V4(ip)) => TargetView::Literal(
                Address::V4(AddressV4 { ip, port: self.lookup_port() }),
            ),
            Some(HostView::V6(ip)) => TargetView::Literal(
                Address::V6(AddressV6 { ip, port: self.lookup_port(), flowinfo: 0, scope_id: 0 }),
            ),
            None => TargetView::Resolve(default_host()),
        }
    }

    /// The host name announced in the `Host` header: the domain, or the empty
    /// text where the URL names none.
    pub open spec fn header_host(self) -> Seq<char> {
        match self.domain() {
            Some(d) => d,
            None => Seq::empty(),
        }
    }
}

/// The outcome of accepting a parse result: the URL, or the parse error
/// where there is none.
pub open spec fn accepted_url(parsed: Option<UrlView>) -> Result<UrlView, Error> {
    match parsed {
        Some(u) => Ok(u),
        None => Err(Error::UrlParse),
    }
}

impl Url {
    /// Turns a parse outcome into the URL or the error reported to the caller.
    pub fn accept(parsed: Option<Url>) -> (r: Result<Url, Error>)
        ensures
            match r {
                Ok(u) => parsed == Some(u),
                Err(e) => parsed.is_none() && e == Error::UrlParse,
            },
    {
        match parsed {
            Some(u) => Ok(u),
            None => Err(Error::UrlParse),
        }
    }

    /// Parses an absolute URL.
    pub fn parse(text: &str) -> (r: Result<Url, Error>)
        ensures
            match r {
                Ok(u) => accepted_url(parsed_url(text@)) == Ok::<UrlView, Error>(u@),
                Err(e) => accepted_url(parsed_url(text@)) == Err::<UrlView, Error>(e),
            },
    {
        Url::accept(parse_absolute(text))
    }

    /// An independent copy of the URL.
    pub fn duplicate(&self) -> (r: Url)
        ensures
            r == *self,
    {
        Url {
            text: self.text.clone(),
            host: match &self.host {
                Some(Host::Domain(d)) => Some(Host::Domain(d.clone())),
                Some(Host::V4(ip)) => Some(Host::V4(*ip)),
                Some(Host::V6(ip)) => Some(Host::V6(*ip)),
                None => None,
            },
            port: self.port,
        }
    }

    /// The port to connect to: the URL's own, or 80 where it writes none.
    pub fn lookup_port(&self) -> (r: u16)
        ensures
            r == self@.lookup_port(),
    {
        match self.port {
            Some(p) => p,
            None => DEFAULT_PORT,
        }
    }

    /// How the address of the URL's host is found.
    pub fn lookup_target(&self) -> (r: Target)
        ensures
            r@ == self@.lookup_target(),
    {
        let port = self.lookup_port();
        match &self.host {
            Some(Host::Domain(d)) => Target::Resolve(d.clone()),
            Some(Host::V4(ip)) => Target::Literal(Address::V4(AddressV4 { ip: *ip, port })),
            Some(Host::V6(ip)) => Target::Literal(
                Address::V6(AddressV6 { ip: *ip, port, flowinfo: 0, scope_id: 0 }),
            ),
            None => Target::Resolve("localhost".to_owned()),
        }
    }

    /// The host name for the `Host` header.
    pub fn header_host(&self) -> (r: String)
        ensures
            r@ == self@.header_host(),
    {
        match &self.host {
            Some(Host::Domain(d)) => d.clone(),
            _ => String::new(),
        }
    }
}

} // verus!
