//! Clients: the nodes that have registered with the scheduler.

use vstd::prelude::*;
use crate::address::IpAddress;
use crate::nomad::allocation::{allocs_of, owned_by, NomadAllocView, NomadAllocs};
use crate::error::{Error, ErrorView, Malformed, MalformedView, Remote, RemoteView};
use crate::nomad::{endpoint, endpoint_url, Request, RequestView, Response};
use crate::search::first_of;
use crate::text::copy_text;

verus! {

/// Information about a scheduler client in the cluster.
#[derive(Debug, PartialEq, Eq)]
pub struct NomadClient {
    pub id: u128,
    pub allocs: Option<NomadAllocs>,
    pub address: Option<IpAddress>,
    pub node_class: Option<String>,
}

/// What a [`NomadClient`] holds.
pub struct NomadClientView {
    pub id: u128,
    pub allocs: Option<Seq<NomadAllocView>>,
    pub address: Option<IpAddress>,
    pub node_class: Option<Seq<char>>,
}

impl View for NomadClient {
    type V = NomadClientView;

    open spec fn view(&self) -> NomadClientView {
        NomadClientView {
            id: self.id,
            allocs: self.allocs.deep_view(),
            address: self.address,
            node_class: self.node_class.deep_view(),
        }
    }
}

impl DeepView for NomadClient {
    type V = NomadClientView;

    open spec fn deep_view(&self) -> NomadClientView {
        self@
    }
}

/// Collection of scheduler clients.
pub type NomadClients = Vec<NomadClient>;

/// Copies a list of allocations.
pub fn copy_allocs(allocs: &NomadAllocs) -> (copy: NomadAllocs)
    ensures
        copy.deep_view() == allocs.deep_view(),
{
    let mut copy: NomadAllocs = Vec::new();
    let mut i: usize = 0;
    assert(copy.deep_view() =~= allocs.deep_view().take(0));
    while i < allocs.len()
        invariant
            i <= allocs.len(),
            copy.deep_view() == allocs.deep_view().take(i as int),
        decreases allocs.len() - i,
    {
        let ghost before = copy.deep_view();
        let next = allocs[i].clone();
        copy.push(next);
        assert(copy.deep_view() =~= before.push(next@));
        i += 1;
        assert(copy.deep_view() =~= allocs.deep_view().take(i as int));
    }
    assert(allocs.deep_view().take(allocs.len() as int) =~= allocs.deep_view());
    copy
}

impl Clone for NomadClient {
    fn clone(&self) -> (copy: Self)
        ensures
            copy@ == self@,
    {
        NomadClient {
            id: self.id,
            allocs: match &self.allocs {
                Some(allocs) => Some(copy_allocs(allocs)),
                None => None,
            },
            address: self.address,
            node_class: copy_text(&self.node_class),
        }
    }
}

impl Default for NomadClient {
    fn default() -> (client: Self)
        ensures
            client.id == 0,
            client.allocs is None,
            client.address is None,
            client.node_class is None,
    {
        NomadClient { id: 0, allocs: None, address: None, node_class: None }
    }
}

/// The test that a client has registered under the address `addr`.
pub open spec fn registered_at(addr: IpAddress) -> spec_fn(NomadClientView) -> bool {
    |client: NomadClientView| client.address == Some(addr)
}

/// The first client in `clients` that has registered under the address
/// `addr`.
pub open spec fn client_at(clients: Seq<NomadClientView>, addr: IpAddress) -> Option<
    NomadClientView,
> {
    first_of(clients, registered_at(addr))
}

/// The client `client` with the allocations that it owns among `allocs`, and
/// no others.
pub open spec fn with_allocs(client: NomadClientView, allocs: Seq<NomadAllocView>) -> NomadClientView {
    NomadClientView { allocs: Some(owned_by(allocs, client.id)), ..client }
}

/// What the scheduler knows of the node with the private address `addr`: the
/// first client registered under it, with the allocations that this client
/// owns.
pub open spec fn scheduler_view(
    clients: Seq<NomadClientView>,
    allocs: Seq<NomadAllocView>,
    addr: IpAddress,
) -> Option<NomadClientView> {
    match client_at(clients, addr) {
        Some(client) => Some(with_allocs(client, allocs)),
        None => None,
    }
}

/// The path of the endpoint that lists the clients.
pub open spec fn nodes_path() -> Seq<char> {
    "/v1/nodes"@
}

/// The error that an answer of the scheduler to the query that lists the
/// clients stands for: an answer that did not come is a network failure, and
/// one that could not be decoded is a decode failure; both name the endpoint.
pub open spec fn refused<T>(domain: Seq<char>, response: Response<T>) -> Option<ErrorView> {
    let url = endpoint(domain, nodes_path());
    match response {
        Response::Unreachable => Some(ErrorView::NetworkFailure(RemoteView::Endpoint(url))),
        Response::Undecodable => Some(ErrorView::DecodeFailure(MalformedView::Response(url))),
        Response::Body(_) => None,
    }
}

impl NomadClient {
    /// The query that lists the clients.
    pub open spec fn spec_request(domain: Seq<char>) -> RequestView {
        RequestView { url: endpoint(domain, nodes_path()), query: Seq::empty() }
    }

    /// The query that lists the clients of the cluster of the public domain
    /// `domain`.
    pub fn request(domain: &str) -> (request: Request)
        ensures
            request@ == Self::spec_request(domain@),
    {
        let request = Request { url: endpoint_url(domain, "/v1/nodes"), query: Vec::new() };
        assert(request@.query =~= Seq::empty());
        request
    }

    /// Takes the clients out of the scheduler's answer to the query that
    /// lists them.
    pub fn find_nomad_nodes(domain: &str, response: Response<NomadClients>) -> (clients: Result<
        NomadClients,
        Error,
    >)
        ensures
            match clients {
                Ok(clients) => response == Response::Body(clients),
                Err(error) => refused(domain@, response) == Some(error@),
            },
    {
        let url = endpoint_url(domain, "/v1/nodes");
        match response {
            Response::Unreachable => Err(Error::NetworkFailure(Remote::Endpoint(url))),
            Response::Undecodable => Err(Error::DecodeFailure(Malformed::Response(url))),
            Response::Body(clients) => Ok(clients),
        }
    }

    /// Copies out of `clients` the first client registered under `addr`, and
    /// gives it the allocations that it owns among `allocs`.
    pub fn lookup(clients: &NomadClients, allocs: &NomadAllocs, addr: IpAddress) -> (found: Option<
        NomadClient,
    >)
        ensures
            found.deep_view() == scheduler_view(clients.deep_view(), allocs.deep_view(), addr),
    {
        let mut i: usize = 0;
        assert(clients.deep_view().skip(0) =~= clients.deep_view());
        while i < clients.len()
            invariant
                i <= clients.len(),
                first_of(clients.deep_view(), registered_at(addr)) == first_of(
                    clients.deep_view().skip(i as int),
                    registered_at(addr),
                ),
            decreases clients.len() - i,
        {
            let ghost rest = clients.deep_view().skip(i as int);
            proof {
                assert(rest[0] == clients[i as int]@);
                assert(rest.drop_first() =~= clients.deep_view().skip(i + 1));
            }
            let client = &clients[i];
            let here = match client.address {
                Some(registered) => registered == addr,
                None => false,
            };
            if here {
                return Some(
                    NomadClient {
                        id: client.id,
                        allocs: Some(allocs_of(allocs, client.id)),
                        address: client.address,
                        node_class: copy_text(&client.node_class),
                    },
                );
            }
            i += 1;
        }
        None
    }
}

} // verus!
