//! The record of one proxied HTTP exchange.

use crate::header_table::HeaderTable;
use vstd::prelude::*;

verus! {

/// The view of an optional string.
pub open spec fn opt_view(s: Option<String>) -> Option<Seq<char>> {
    match s {
        Some(s) => Some(s@),
        None => None,
    }
}

/// Which way the exchange went, seen from the gateway.
#[derive(Debug, Clone, Copy, PartialEq, Eq)]
pub enum Direction {
    Incoming,
}

/// The request side of an exchange.
#[derive(Debug)]
pub struct RequestInfo {
    /// When the request headers arrived, in RFC 3339 form.
    pub time: String,
    /// The headers by lower-cased name, without pseudo-headers.
    pub headers: HeaderTable,
    pub uri: String,
    pub verb: String,
    pub ip_address: Option<String>,
    pub api_version: Option<String>,
    pub transfer_encoding: Option<String>,
}

/// A request side as a value.
pub struct RequestView {
    pub time: Seq<char>,
    pub headers: Map<Seq<char>, Seq<char>>,
    pub uri: Seq<char>,
    pub verb: Seq<char>,
    pub ip_address: Option<Seq<char>>,
    pub api_version: Option<Seq<char>>,
    pub transfer_encoding: Option<Seq<char>>,
}

impl RequestView {
    /// The request side of an exchange of which nothing is known yet.
    pub open spec fn empty() -> RequestView {
        RequestView {
            time: Seq::empty(),
            headers: Map::empty(),
            uri: Seq::empty(),
            verb: Seq::empty(),
            ip_address: None,
            api_version: None,
            transfer_encoding: None,
        }
    }
}

impl View for RequestInfo {
    type V = RequestView;

    open spec fn view(&self) -> RequestView {
        RequestView {
            time: self.time@,
            headers: self.headers@,
            uri: self.uri@,
            verb: self.verb@,
            ip_address: opt_view(self.ip_address),
            api_version: opt_view(self.api_version),
            transfer_encoding: opt_view(self.transfer_encoding),
        }
    }
}

impl Default for RequestInfo {
    fn default() -> (r: Self)
        ensures
            r@ == RequestView::empty(),
    {
        RequestInfo {
            time: String::new(),
            headers: HeaderTable::new(),
            uri: String::new(),
            verb: String::new(),
            ip_address: None,
            api_version: None,
            transfer_encoding: None,
        }
    }
}

impl Clone for RequestInfo {
    fn clone(&self) -> (r: Self)
        ensures
            r@ == self@,
    {
        RequestInfo {
            time: self.time.clone(),
            headers: self.headers.clone(),
            uri: self.uri.clone(),
            verb: self.verb.clone(),
            ip_address: self.ip_address.clone(),
            api_version: self.api_version.clone(),
            transfer_encoding: self.transfer_encoding.clone(),
        }
    }
}

/// The response side of an exchange.
#[derive(Debug)]
pub struct ResponseInfo {
    /// When the response headers arrived, in RFC 3339 form.
    pub time: String,
    /// The status code, or 0 where the response named none that can be read.
    pub status: usize,
    /// The headers by lower-cased name, pseudo-headers included.
    pub headers: HeaderTable,
    /// Never filled in.
    pub ip_address: Option<String>,
    /// Never filled in: bodies are not read.
    pub body: Option<String>,
}

/// A response side as a value.
pub struct ResponseView {
    pub time: Seq<char>,
    pub status: nat,
    pub headers: Map<Seq<char>, Seq<char>>,
    pub ip_address: Option<Seq<char>>,
    pub body: Option<Seq<char>>,
}

impl View for ResponseInfo {
    type V = ResponseView;

    open spec fn view(&self) -> ResponseView {
        ResponseView {
            time: self.time@,
            status: self.status as nat,
            headers: self.headers@,
            ip_address: opt_view(self.ip_address),
            body: opt_view(self.body),
        }
    }
}

impl Clone for ResponseInfo {
    fn clone(&self) -> (r: Self)
        ensures
            r@ == self@,
    {
        ResponseInfo {
            time: self.time.clone(),
            status: self.status,
            headers: self.headers.clone(),
            ip_address: self.ip_address.clone(),
            body: self.body.clone(),
        }
    }
}

/// One HTTP exchange: its request, its response once there is one, and who
/// it is attributed to.
#[derive(Debug)]
pub struct Event {
    pub direction: Direction,
    pub request: RequestInfo,
    pub response: Option<ResponseInfo>,
    pub user_id: Option<String>,
    pub company_id: Option<String>,
}

/// An event as a value.
pub struct EventView {
    pub direction: Direction,
    pub request: RequestView,
    pub response: Option<ResponseView>,
    pub user_id: Option<Seq<char>>,
    pub company_id: Option<Seq<char>>,
}

impl EventView {
    /// The event of a stream that has told nothing yet.
    pub open spec fn empty() -> EventView {
        EventView {
            direction: Direction::Incoming,
            request: RequestView::empty(),
            response: None,
            user_id: None,
            company_id: None,
        }
    }
}

impl View for Event {
    type V = EventView;

    open spec fn view(&self) -> EventView {
        EventView {
            direction: self.direction,
            request: self.request@,
            response: match self.response {
                Some(r) => Some(r@),
                None => None,
            },
            user_id: opt_view(self.user_id),
            company_id: opt_view(self.company_id),
        }
    }
}

impl Default for Event {
    fn default() -> (e: Self)
        ensures
            e@ == EventView::empty(),
    {
        Event {
            direction: Direction::Incoming,
            request: RequestInfo::default(),
            response: None,
            user_id: None,
            company_id: None,
        }
    }
}

impl Clone for Event {
    fn clone(&self) -> (e: Self)
        ensures
            e@ == self@,
    {
        let response = match &self.response {
            Some(r) => Some(r.clone()),
            None => None,
        };
        Event {
            direction: self.direction,
            request: self.request.clone(),
            response,
            user_id: self.user_id.clone(),
            company_id: self.company_id.clone(),
        }
    }
}

} // verus!
