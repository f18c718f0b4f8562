//! What a client handle computes when a GET is submitted.
//!
//! A submission has two steps with a name lookup between them. The first
//! parses the URL and says how the address of its host is found; the second
//! takes the addresses that a lookup gave, where one was needed, and makes
//! the message for the reactor. A failure in either step is returned to the
//! caller, and no message exists.

use vstd::prelude::*;
use crate::address::{Address, Error, choose_address, chosen_address};
use crate::connection::{Message, MessageView, Request, RequestView};
use crate::url::{Target, TargetView, Url, UrlView, parsed_url};

verus! {

/// A pending lookup as mathematical values.
pub struct LookupView {
    pub url: UrlView,
    pub target: TargetView,
    pub port: u16,
}

/// A parsed URL together with how its host's address is found and the port
/// to connect to.
#[derive(Debug, PartialEq, Eq)]
pub struct Lookup {
    pub url: Url,
    pub target: Target,
    pub port: u16,
}

impl View for Lookup {
    type V = LookupView;

    open spec fn view(&self) -> LookupView {
        LookupView { url: self.url@, target: self.target@, port: self.port }
    }
}

impl LookupView {
    /// The lookup for a URL: its host's name to resolve or its host's
    /// address, and its port, or 80 where it writes none.
    pub open spec fn for_url(url: UrlView) -> LookupView {
        LookupView { url, target: url.lookup_target(), port: url.lookup_port() }
    }

    /// The first step of a submission, given what parsing made of the text.
    pub open spec fn begun(parsed: Option<UrlView>) -> Result<LookupView, Error> {
        match parsed {
            Some(url) => Ok(LookupView::for_url(url)),
            None => Err(Error::UrlParse),
        }
    }

    /// The address the request goes to, given the resolved candidates: the
    /// address written in the URL, whatever the candidates; else the first
    /// candidate under the lookup's port.
    pub open spec fn address(self, candidates: Seq<Address>) -> Result<Address, Error> {
        match self.target {
            TargetView::Literal(addr) => Ok(addr),
            TargetView::Resolve(_) => chosen_address(candidates, self.port),
        }
    }

    /// The second step of a submission, given the resolved candidates.
    pub open spec fn finished(self, candidates: Seq<Address>) -> Result<MessageView, Error> {
        match self.address(candidates) {
            Ok(addr) => Ok(MessageView::Req(RequestView { url: self.url, addr })),
            Err(e) => Err(e),
        }
    }
}

/// The view of a step's outcome.
pub open spec fn lookup_outcome(r: Result<Lookup, Error>) -> Result<LookupView, Error> {
    match r {
        Ok(lookup) => Ok(lookup@),
        Err(e) => Err(e),
    }
}

/// The view of a submission's outcome.
pub open spec fn message_outcome(r: Result<Message, Error>) -> Result<MessageView, Error> {
    match r {
        Ok(msg) => Ok(msg@),
        Err(e) => Err(e),
    }
}

impl Lookup {
    /// The lookup for a URL.
    pub fn for_url(url: Url) -> (lookup: Lookup)
        ensures
            lookup@ == LookupView::for_url(url@),
    {
        let target = url.lookup_target();
        let port = url.lookup_port();
        Lookup { url, target, port }
    }

    /// The lookup for the outcome of parsing a URL, or the parse error.
    pub fn plan(parsed: Result<Url, Error>) -> (r: Result<Lookup, Error>)
        ensures
            lookup_outcome(r) == (match parsed {
                Ok(url) => Ok(LookupView::for_url(url@)),
                Err(e) => Err(e),
            }),
    {
        match parsed {
            Ok(url) => Ok(Lookup::for_url(url)),
            Err(e) => Err(e),
        }
    }
}

/// The first step of `get`: parses the URL and says how its host's address
/// is found. A text that is no absolute URL fails here, before anything is
/// sent.
pub fn begin_get(surl: &str) -> (r: Result<Lookup, Error>)
    ensures
        lookup_outcome(r) == LookupView::begun(parsed_url(surl@)),
{
    Lookup::plan(Url::parse(surl))
}

/// The second step of `get`: makes the message that asks the reactor for the
/// URL at the address of its host. That is the address written in the URL
/// where there is one, and `candidates` is not read; else the first of the
/// resolved candidates with the lookup's port. A host name that resolved to
/// nothing fails here, before anything is sent.
pub fn finish_get(lookup: Lookup, candidates: &Vec<Address>) -> (r: Result<Message, Error>)
    ensures
        message_outcome(r) == lookup@.finished(candidates@),
{
    let chosen = match lookup.target {
        Target::Literal(addr) => Ok(addr),
        Target::Resolve(_) => choose_address(candidates, lookup.port),
    };
    match chosen {
        Ok(addr) => Ok(Message::Req(Request { url: lookup.url, addr })),
        Err(e) => Err(e),
    }
}

} // verus!
