//! What the workload scheduler reports: registered clients and placed
//! allocations.

pub mod allocation;
pub mod client;
pub mod events;

use vstd::prelude::*;
use vstd::string::*;
use crate::text::join3;

verus! {

/// What came back from a query of the scheduler.
#[derive(Debug, PartialEq, Eq)]
pub enum Response<T> {
    /// The scheduler could not be reached.
    Unreachable,
    /// An answer came that could not be decoded.
    Undecodable,
    /// The decoded answer.
    Body(T),
}

/// A query of the scheduler: where to ask, and with which parameters.
#[derive(Debug, PartialEq, Eq)]
pub struct Request {
    pub url: String,
    pub query: Vec<(String, String)>,
}

/// What a [`Request`] holds.
pub struct RequestView {
    pub url: Seq<char>,
    pub query: Seq<(Seq<char>, Seq<char>)>,
}

impl View for Request {
    type V = RequestView;

    open spec fn view(&self) -> RequestView {
        RequestView { url: self.url@, query: self.query.deep_view() }
    }
}

impl DeepView for Request {
    type V = RequestView;

    open spec fn deep_view(&self) -> RequestView {
        self@
    }
}

/// The URL of the scheduler's endpoint `path` in the cluster of the public
/// domain `domain`.
pub open spec fn endpoint(domain: Seq<char>, path: Seq<char>) -> Seq<char> {
    "https://nomad."@ + domain + path
}

/// Builds the URL of the scheduler's endpoint `path`.
pub fn endpoint_url(domain: &str, path: &str) -> (url: String)
    ensures
        url@ == endpoint(domain@, path@),
{
    join3("https://nomad.", domain, path)
}

} // verus!
