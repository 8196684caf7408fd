//! The request being edited in the UI: a URL, an HTTP method, an ordered
//! header list (duplicates and empty entries permitted), and a raw body.

use vstd::prelude::*;

verus! {

/// An HTTP method, one of the nine request methods.
#[derive(Clone, Copy, PartialEq, Eq, Structural, Debug)]
pub enum Method {
    Options,
    Get,
    Post,
    Put,
    Delete,
    Head,
    Trace,
    Connect,
    Patch,
}

impl Method {
    /// The method's name as it appears on the wire.
    pub open spec fn spec_name(self) -> Seq<char> {
        match self {
            Method::Options => "OPTIONS"@,
            Method::Get => "GET"@,
            Method::Post => "POST"@,
            Method::Put => "PUT"@,
            Method::Delete => "DELETE"@,
            Method::Head => "HEAD"@,
            Method::Trace => "TRACE"@,
            Method::Connect => "CONNECT"@,
            Method::Patch => "PATCH"@,
        }
    }

    /// Returns the method's wire name.
    pub fn name(&self) -> (r: &'static str)
        ensures
            r@ == self.spec_name(),
    {
        match self {
            Method::Options => "OPTIONS",
            Method::Get => "GET",
            Method::Post => "POST",
            Method::Put => "PUT",
            Method::Delete => "DELETE",
            Method::Head => "HEAD",
            Method::Trace => "TRACE",
            Method::Connect => "CONNECT",
            Method::Patch => "PATCH",
        }
    }
}

/// A complete request description. It is edited in place by the UI and
/// cloned wholesale when handed to the worker.
#[derive(Clone, Debug)]
pub struct Request {
    pub url: String,
    pub headers: Vec<(String, String)>,
    pub body: String,
    pub method: Method,
}

impl Request {
    /// The request shown at startup: a GET to a local address with an empty
    /// body and a single default header announcing a JSON payload.
    pub fn initial() -> (r: Request)
        ensures
            r.url@ == "http://localhost:8080/"@,
            r.method == Method::Get,
            r.body@ == Seq::<char>::empty(),
            r.headers@.len() == 1,
            r.headers@[0].0@ == "Content-Type"@,
            r.headers@[0].1@ == "application/json"@,
    {
        let mut headers: Vec<(String, String)> = Vec::new();
        headers.push(("Content-Type".to_owned(), "application/json".to_owned()));
        Request {
            url: "http://localhost:8080/".to_owned(),
            headers,
            body: String::new(),
            method: Method::Get,
        }
    }
}

} // verus!
