//! What can go wrong while a cluster is described or searched.

use vstd::prelude::*;
use vstd::string::*;

verus! {

/// A service that could not be reached.
#[derive(Debug, PartialEq, Eq)]
pub enum Remote {
    /// The cloud inventory of the named region.
    Region(String),
    /// The scheduler endpoint with the given URL.
    Endpoint(String),
}

/// An input that could not be decoded.
#[derive(Debug, PartialEq, Eq)]
pub enum Malformed {
    /// The response of the scheduler endpoint with the given URL.
    Response(String),
    /// A placement index that is neither an integer nor a text that ends in
    /// a bracketed integer.
    Index(String),
}

/// A lookup that found nothing.
#[derive(Debug, PartialEq, Eq)]
pub enum Query {
    /// A lookup of one node by the given needle.
    Needle(String),
    /// A lookup of the node that runs a placement.
    Placement { job: String, group: String, index: String, namespace: String },
}

/// The ways in which describing or searching a cluster fails.
#[derive(Debug, PartialEq, Eq)]
pub enum Error {
    /// The cloud inventory or the scheduler could not be reached.
    NetworkFailure(Remote),
    /// A response or a field of it had an unexpected shape.
    DecodeFailure(Malformed),
    /// The given text names no supported provider.
    ConfigInvalid(String),
    /// A background task did not run to its end; the text says why.
    JoinFailure(String),
    /// No node or allocation met the query.
    NoMatch(Query),
    /// A command was given arguments that it cannot act on; the text says
    /// what is wrong with them.
    Usage(String),
}

/// What a [`Remote`] holds.
pub enum RemoteView {
    Region(Seq<char>),
    Endpoint(Seq<char>),
}

/// What a [`Malformed`] holds.
pub enum MalformedView {
    Response(Seq<char>),
    Index(Seq<char>),
}

/// What a [`Query`] holds.
pub enum QueryView {
    Needle(Seq<char>),
    Placement { job: Seq<char>, group: Seq<char>, index: Seq<char>, namespace: Seq<char> },
}

/// What an [`Error`] holds.
pub enum ErrorView {
    NetworkFailure(RemoteView),
    DecodeFailure(MalformedView),
    ConfigInvalid(Seq<char>),
    JoinFailure(Seq<char>),
    NoMatch(QueryView),
    Usage(Seq<char>),
}

impl View for Remote {
    type V = RemoteView;

    open spec fn view(&self) -> RemoteView {
        match self {
            Remote::Region(region) => RemoteView::Region(region@),
            Remote::Endpoint(url) => RemoteView::Endpoint(url@),
        }
    }
}

impl View for Malformed {
    type V = MalformedView;

    open spec fn view(&self) -> MalformedView {
        match self {
            Malformed::Response(url) => MalformedView::Response(url@),
            Malformed::Index(text) => MalformedView::Index(text@),
        }
    }
}

impl View for Query {
    type V = QueryView;

    open spec fn view(&self) -> QueryView {
        match self {
            Query::Needle(needle) => QueryView::Needle(needle@),
            Query::Placement { job, group, index, namespace } => QueryView::Placement {
                job: job@,
                group: group@,
                index: index@,
                namespace: namespace@,
            },
        }
    }
}

impl View for Error {
    type V = ErrorView;

    open spec fn view(&self) -> ErrorView {
        match self {
            Error::NetworkFailure(remote) => ErrorView::NetworkFailure(remote@),
            Error::DecodeFailure(input) => ErrorView::DecodeFailure(input@),
            Error::ConfigInvalid(provider) => ErrorView::ConfigInvalid(provider@),
            Error::JoinFailure(reason) => ErrorView::JoinFailure(reason@),
            Error::NoMatch(query) => ErrorView::NoMatch(query@),
            Error::Usage(reason) => ErrorView::Usage(reason@),
        }
    }
}

impl DeepView for Error {
    type V = ErrorView;

    open spec fn deep_view(&self) -> ErrorView {
        self@
    }
}

impl ErrorView {
    /// The sentence that reports the error.
    pub open spec fn message(self) -> Seq<char> {
        match self {
            ErrorView::NetworkFailure(RemoteView::Region(region)) => "failed to connect to ec2."@
                + region + ".amazonaws.com"@,
            ErrorView::NetworkFailure(RemoteView::Endpoint(url)) => "failed to query: "@ + url,
            ErrorView::DecodeFailure(MalformedView::Response(url)) =>
                "failed to decode response from: "@ + url,
            ErrorView::DecodeFailure(MalformedView::Index(text)) => text
                + " does not end in a bracketed index"@,
            ErrorView::ConfigInvalid(provider) => "current BITTE_PROVIDER is not valid: "@
                + provider,
            ErrorView::JoinFailure(reason) => reason,
            ErrorView::NoMatch(QueryView::Needle(needle)) => needle
                + " does not match any nodes"@,
            ErrorView::NoMatch(QueryView::Placement { job, group, index, namespace }) => job
                + ", "@ + group + ", "@ + index
                + " does not match any running nomad allocations in namespace "@ + namespace,
            ErrorView::Usage(reason) => reason,
        }
    }
}

impl Error {
    /// The sentence that reports the error.
    pub fn message(&self) -> (text: String)
        ensures
            text@ == self@.message(),
    {
        match self {
            Error::NetworkFailure(Remote::Region(region)) => {
                let mut text = String::from_str("failed to connect to ec2.");
                text.append(region.as_str());
                text.append(".amazonaws.com");
                text
            },
            Error::NetworkFailure(Remote::Endpoint(url)) => {
                let mut text = String::from_str("failed to query: ");
                text.append(url.as_str());
                text
            },
            Error::DecodeFailure(Malformed::Response(url)) => {
                let mut text = String::from_str("failed to decode response from: ");
                text.append(url.as_str());
                text
            },
            Error::DecodeFailure(Malformed::Index(index)) => {
                let mut text = index.clone();
                text.append(" does not end in a bracketed index");
                text
            },
            Error::ConfigInvalid(provider) => {
                let mut text = String::from_str("current BITTE_PROVIDER is not valid: ");
                text.append(provider.as_str());
                text
            },
            Error::JoinFailure(reason) => reason.clone(),
            Error::NoMatch(Query::Needle(needle)) => {
                let mut text = needle.clone();
                text.append(" does not match any nodes");
                text
            },
            Error::NoMatch(Query::Placement { job, group, index, namespace }) => {
                let mut text = job.clone();
                text.append(", ");
                text.append(group.as_str());
                text.append(", ");
                text.append(index.as_str());
                text.append(" does not match any running nomad allocations in namespace ");
                text.append(namespace.as_str());
                text
            },
            Error::Usage(reason) => reason.clone(),
        }
    }
}

} // verus!
