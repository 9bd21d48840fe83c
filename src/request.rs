//! The request as the library sees it, the process-wide state, and the
//! per-request context that a handler receives.

use vstd::prelude::*;
use vstd::string::StringExecFns;
use std::sync::Arc;
use crate::table::LookupTable;

verus! {

/// An inbound request: method, path, raw query string and headers. Header
/// names are lower case, as the transport hands them over.
pub struct Request {
    pub method: String,
    pub path: String,
    pub query: Option<String>,
    pub headers: Vec<(String, String)>,
}

/// The headers of a request as (name, value) pairs.
pub open spec fn headers_view(headers: Seq<(String, String)>) -> Seq<(Seq<char>, Seq<char>)> {
    headers.map_values(|h: (String, String)| (h.0@, h.1@))
}

/// The value of the first header called `name`, scanning from index `i` on.
pub open spec fn header_from(hs: Seq<(Seq<char>, Seq<char>)>, name: Seq<char>, i: int) -> Option<Seq<char>>
    decreases hs.len() - i,
{
    if i < 0 || i >= hs.len() {
        None
    } else if hs[i].0 == name {
        Some(hs[i].1)
    } else {
        header_from(hs, name, i + 1)
    }
}

/// The value of the first header called `name`.
pub open spec fn header_value(hs: Seq<(Seq<char>, Seq<char>)>, name: Seq<char>) -> Option<Seq<char>> {
    header_from(hs, name, 0)
}

impl Request {
    /// The headers as (name, value) pairs.
    pub open spec fn headers_spec(&self) -> Seq<(Seq<char>, Seq<char>)> {
        headers_view(self.headers@)
    }

    /// The value of the first header called `name`.
    pub fn header(&self, name: &str) -> (r: Option<&String>)
        ensures
            match r {
                Some(v) => header_value(self.headers_spec(), name@) == Some(v@),
                None => header_value(self.headers_spec(), name@) is None,
            },
    {
        let wanted = String::from_str(name);
        let mut i: usize = 0;
        while i < self.headers.len()
            invariant
                i <= self.headers.len(),
                wanted@ == name@,
                header_value(self.headers_spec(), name@) == header_from(self.headers_spec(), name@, i as int),
            decreases self.headers.len() - i,
        {
            if self.headers[i].0 == wanted {
                return Some(&self.headers[i].1);
            }
            i = i + 1;
        }
        None
    }
}

/// What every request handler shares: the lookup table, the domain suffix
/// under which GUIDs are served, the version string and the peer address.
/// Clones share the one table.
#[derive(Clone)]
pub struct AppState {
    pub state_thing: String,
    pub remote_ip: String,
    pub version: String,
    pub guids: Arc<LookupTable>,
    pub suffix: String,
}

/// Everything one request's handler gets: the shared state, the request, the
/// parameters bound by the route, and the request body once it has been read.
/// The body is recorded at most once, through `store_body`.
pub struct Context {
    state: AppState,
    req: Request,
    params: Vec<(String, String)>,
    body_bytes: Option<Vec<u8>>,
}

impl Context {
    /// The shared state.
    pub closed spec fn spec_state(&self) -> AppState {
        self.state
    }

    /// The request.
    pub closed spec fn spec_req(&self) -> Request {
        self.req
    }

    /// The parameters bound by the route.
    pub closed spec fn spec_params(&self) -> Seq<(String, String)> {
        self.params@
    }

    /// The body recorded so far, if any.
    pub closed spec fn body(&self) -> Option<Seq<u8>> {
        match self.body_bytes {
            Some(b) => Some(b@),
            None => None,
        }
    }

    /// A fresh context, whose body has not been read yet.
    pub fn new(state: AppState, req: Request, params: Vec<(String, String)>) -> (c: Context)
        ensures
            c.spec_state() == state,
            c.spec_req() == req,
            c.spec_params() == params@,
            c.body() is None,
    {
        Context { state, req, params, body_bytes: None }
    }

    /// The shared state.
    pub fn state(&self) -> (r: &AppState)
        ensures
            *r == self.spec_state(),
    {
        &self.state
    }

    /// The request.
    pub fn req(&self) -> (r: &Request)
        ensures
            *r == self.spec_req(),
    {
        &self.req
    }

    /// The parameters bound by the route, as (name, value) pairs.
    pub fn params(&self) -> (r: &Vec<(String, String)>)
        ensures
            r@ == self.spec_params(),
    {
        &self.params
    }

    /// Whether the body still has to be read.
    pub fn needs_body(&self) -> (r: bool)
        ensures
            r == (self.body() is None),
    {
        self.body_bytes.is_none()
    }

    /// Records the body once read. Only the first body recorded is kept.
    pub fn store_body(&mut self, bytes: Vec<u8>)
        ensures
            final(self).spec_state() == old(self).spec_state(),
            final(self).spec_req() == old(self).spec_req(),
            final(self).spec_params() == old(self).spec_params(),
            old(self).body() is None ==> final(self).body() == Some(bytes@),
            old(self).body() is Some ==> final(self).body() == old(self).body(),
    {
        if self.body_bytes.is_none() {
            self.body_bytes = Some(bytes);
        }
    }

    /// The body recorded, if any.
    pub fn body_bytes(&self) -> (r: Option<&Vec<u8>>)
        ensures
            match r {
                Some(b) => self.body() == Some(b@),
                None => self.body() is None,
            },
    {
        match &self.body_bytes {
            Some(b) => Some(b),
            None => None,
        }
    }
}

} // verus!
