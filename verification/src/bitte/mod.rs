//! The cluster, its nodes and the lookups over them.

pub mod node;
pub mod provider;

use vstd::prelude::*;
use vstd::string::*;
use crate::error::{Error, ErrorView};
use crate::ident::{hyphenated, hyphenated_text};
use crate::nomad::allocation::{NomadAlloc, NomadAllocs};
use crate::nomad::client::{NomadClient, NomadClients};
use crate::nomad::{Request, RequestView};
use crate::text::{distinct, distinct_texts, lemma_distinct_counts_the_set};
use node::find::Needle;
use node::instance::Instance;
use node::{described, seen_if_started, seen_inventory, BitteNode, BitteNodeView, BitteNodes};

pub use provider::BitteProvider;

verus! {

/// Lookups over a collection of nodes. Each takes the collection and hands
/// out the nodes that it finds.
pub trait BitteFind where Self: Sized {
    /// What the collection holds.
    type Item;

    /// The first node that `needle` names.
    fn find_needle(self, needle: &Needle) -> Result<Self::Item, Error>;

    /// The nodes that one of `needles` names.
    fn find_needles(self, needles: &Vec<Needle>) -> Self;

    /// The client nodes, of the class `node_class` where one is given.
    fn find_clients(self, node_class: Option<String>) -> Self;

    /// The first node that runs the placement with the given job, task
    /// group, index and namespace, and that placement.
    fn find_with_job(self, name: &str, group: &str, index: &str, namespace: &str) -> Result<
        (Self::Item, NomadAlloc),
        Error,
    >;
}

/// Seconds for which a description of a cluster is meant to be used.
pub const VALIDITY_SECS: u64 = 300;

/// A condition on the instances that an inventory query lists.
#[derive(Debug, PartialEq, Eq)]
pub struct Filter {
    pub name: String,
    pub values: Vec<String>,
}

/// A query of the cloud inventory of one region.
#[derive(Debug, PartialEq, Eq)]
pub struct InventoryQuery {
    pub region: String,
    pub filters: Vec<Filter>,
}

/// A header that goes with every query of the scheduler. The value of a
/// sensitive header is a secret and is to be kept out of every log.
#[derive(Debug, PartialEq, Eq)]
pub struct Header {
    pub name: String,
    pub value: String,
    pub sensitive: bool,
}

/// What has to be fetched before a cluster can be described: the queries of
/// the scheduler with the header that authenticates them, and one inventory
/// query for each region. None depends on another.
#[derive(Debug, PartialEq, Eq)]
pub struct FetchPlan {
    pub header: Option<Header>,
    pub allocations: Option<Request>,
    pub clients: Option<Request>,
    pub inventory: Vec<InventoryQuery>,
}

/// What a [`Filter`] holds.
pub struct FilterView {
    pub name: Seq<char>,
    pub values: Seq<Seq<char>>,
}

/// What an [`InventoryQuery`] holds.
pub struct InventoryQueryView {
    pub region: Seq<char>,
    pub filters: Seq<FilterView>,
}

/// What a [`Header`] holds.
pub struct HeaderView {
    pub name: Seq<char>,
    pub value: Seq<char>,
    pub sensitive: bool,
}

/// What a [`FetchPlan`] holds.
pub struct FetchPlanView {
    pub header: Option<HeaderView>,
    pub allocations: Option<RequestView>,
    pub clients: Option<RequestView>,
    pub inventory: Seq<InventoryQueryView>,
}

impl View for Header {
    type V = HeaderView;

    open spec fn view(&self) -> HeaderView {
        HeaderView { name: self.name@, value: self.value@, sensitive: self.sensitive }
    }
}

impl DeepView for Header {
    type V = HeaderView;

    open spec fn deep_view(&self) -> HeaderView {
        self@
    }
}

impl View for Filter {
    type V = FilterView;

    open spec fn view(&self) -> FilterView {
        FilterView { name: self.name@, values: self.values.deep_view() }
    }
}

impl DeepView for Filter {
    type V = FilterView;

    open spec fn deep_view(&self) -> FilterView {
        self@
    }
}

impl View for InventoryQuery {
    type V = InventoryQueryView;

    open spec fn view(&self) -> InventoryQueryView {
        InventoryQueryView { region: self.region@, filters: self.filters.deep_view() }
    }
}

impl DeepView for InventoryQuery {
    type V = InventoryQueryView;

    open spec fn deep_view(&self) -> InventoryQueryView {
        self@
    }
}

impl View for FetchPlan {
    type V = FetchPlanView;

    open spec fn view(&self) -> FetchPlanView {
        FetchPlanView {
            header: self.header.deep_view(),
            allocations: self.allocations.deep_view(),
            clients: self.clients.deep_view(),
            inventory: self.inventory.deep_view(),
        }
    }
}

/// The inventory query of the region `region` for the cluster `cluster`: it
/// lists the running instances that carry the cluster's name as their
/// `Cluster` tag.
pub open spec fn inventory_query(cluster: Seq<char>, region: Seq<char>) -> InventoryQueryView {
    InventoryQueryView {
        region,
        filters: seq![
            FilterView { name: "tag:Cluster"@, values: seq![cluster] },
            FilterView { name: "instance-state-name"@, values: seq!["running"@] },
        ],
    }
}

/// The header that authenticates queries of the scheduler by `token`: the
/// token in hyphenated form, as a secret.
pub open spec fn token_header(token: u128) -> HeaderView {
    HeaderView { name: "X-Nomad-Token"@, value: hyphenated_text(token), sensitive: true }
}

/// The fetches that describe the cluster `cluster` of the public domain
/// `domain`: one inventory query for each region among `regions`, however
/// often it is named, and, where a token is given, the two scheduler queries
/// with the token in their header.
pub open spec fn planned(
    cluster: Seq<char>,
    domain: Seq<char>,
    regions: Seq<Seq<char>>,
    token: Option<u128>,
) -> FetchPlanView {
    FetchPlanView {
        header: match token {
            Some(token) => Some(token_header(token)),
            None => None,
        },
        allocations: if token is Some {
            Some(NomadAlloc::spec_request(domain))
        } else {
            None
        },
        clients: if token is Some {
            Some(NomadClient::spec_request(domain))
        } else {
            None
        },
        inventory: Seq::new(
            distinct(regions).len(),
            |i: int| inventory_query(cluster, distinct(regions)[i]),
        ),
    }
}

/// The regions that a plan asks, in the order of its inventory queries.
pub open spec fn asked(plan: FetchPlanView) -> Seq<Seq<char>> {
    Seq::new(plan.inventory.len(), |i: int| plan.inventory[i].region)
}

/// The plan holds exactly one inventory query for each region of the set of
/// regions: as many queries as the set has regions, no two for one region,
/// and none for a region outside the set. It holds the scheduler queries and
/// their header exactly when a token is given.
pub proof fn lemma_one_query_per_region(
    cluster: Seq<char>,
    domain: Seq<char>,
    regions: Seq<Seq<char>>,
    token: Option<u128>,
)
    ensures
        planned(cluster, domain, regions, token).inventory.len() == regions.to_set().len(),
        asked(planned(cluster, domain, regions, token)).no_duplicates(),
        asked(planned(cluster, domain, regions, token)).to_set() == regions.to_set(),
        planned(cluster, domain, regions, token).allocations is Some <==> token is Some,
        planned(cluster, domain, regions, token).clients is Some <==> token is Some,
        planned(cluster, domain, regions, token).header is Some <==> token is Some,
{
    lemma_distinct_counts_the_set(regions);
    assert(asked(planned(cluster, domain, regions, token)) =~= distinct(regions));
}

impl InventoryQuery {
    /// The inventory query of the region `region` for the cluster `cluster`.
    pub fn new(cluster: &str, region: &str) -> (query: InventoryQuery)
        ensures
            query@ == inventory_query(cluster@, region@),
    {
        let mut names: Vec<String> = Vec::new();
        names.push(cluster.to_owned());
        assert(names.deep_view() =~= seq![cluster@]);
        let mut states: Vec<String> = Vec::new();
        states.push(String::from_str("running"));
        assert(states.deep_view() =~= seq!["running"@]);
        let mut filters: Vec<Filter> = Vec::new();
        filters.push(Filter { name: String::from_str("tag:Cluster"), values: names });
        filters.push(Filter { name: String::from_str("instance-state-name"), values: states });
        let query = InventoryQuery { region: region.to_owned(), filters };
        assert(query@.filters =~= inventory_query(cluster@, region@).filters);
        query
    }
}

/// A description of a cluster and its nodes at one instant.
#[derive(Debug)]
pub struct BitteCluster {
    pub name: String,
    pub nodes: BitteNodes,
    pub domain: String,
    pub provider: BitteProvider,
    /// The instant, in seconds, up to which the description is meant to be
    /// used. Nothing here enforces it.
    pub ttl: u64,
}

/// What a [`BitteCluster`] holds.
pub struct BitteClusterView {
    pub name: Seq<char>,
    pub nodes: Seq<BitteNodeView>,
    pub domain: Seq<char>,
    pub provider: BitteProvider,
    pub ttl: u64,
}

impl View for BitteCluster {
    type V = BitteClusterView;

    open spec fn view(&self) -> BitteClusterView {
        BitteClusterView {
            name: self.name@,
            nodes: self.nodes.deep_view(),
            domain: self.domain@,
            provider: self.provider,
            ttl: self.ttl,
        }
    }
}

impl BitteCluster {
    /// Describes the cluster from what the fetches have brought, at the
    /// instant `now` in seconds. Any failed fetch fails the description
    /// with the error of the first that failed; otherwise the cluster holds
    /// the reconciled nodes and is meant to be used for `VALIDITY_SECS`
    /// seconds.
    pub fn new(
        name: String,
        domain: String,
        provider: BitteProvider,
        allocs: Option<Result<NomadAllocs, Error>>,
        clients: Option<Result<NomadClients, Error>>,
        inventory: Vec<Result<Vec<Instance>, Error>>,
        now: u64,
    ) -> (cluster: Result<Self, Error>)
        requires
            now + VALIDITY_SECS <= u64::MAX,
        ensures
            match cluster {
                Ok(cluster) => {
                    &&& described(
                        seen_if_started(allocs),
                        seen_if_started(clients),
                        seen_inventory(inventory@),
                    ) == Ok::<Seq<BitteNodeView>, ErrorView>(cluster@.nodes)
                    &&& cluster@.name == name@
                    &&& cluster@.domain == domain@
                    &&& cluster@.provider == provider
                    &&& cluster@.ttl == now + VALIDITY_SECS
                },
                Err(error) => described(
                    seen_if_started(allocs),
                    seen_if_started(clients),
                    seen_inventory(inventory@),
                ) == Err::<Seq<BitteNodeView>, ErrorView>(error@),
            },
    {
        match BitteNode::find_nodes(provider, allocs, clients, inventory) {
            Ok(nodes) => Ok(BitteCluster { name, nodes, domain, provider, ttl: now + VALIDITY_SECS }),
            Err(error) => Err(error),
        }
    }

    /// Plans the fetches that describe the cluster `name` of the public
    /// domain `domain`: one inventory query for each region among `regions`,
    /// in the order in which they are first named, and the two scheduler
    /// queries only where a token is given.
    pub fn init(name: &str, domain: &str, regions: &Vec<String>, token: Option<u128>) -> (plan:
        FetchPlan)
        ensures
            plan@ == planned(name@, domain@, regions.deep_view(), token),
    {
        let regions = distinct_texts(regions);
        let mut inventory: Vec<InventoryQuery> = Vec::new();
        let mut i: usize = 0;
        while i < regions.len()
            invariant
                i <= regions.len(),
                inventory.deep_view() == Seq::new(
                    i as nat,
                    |k: int| inventory_query(name@, regions.deep_view()[k]),
                ),
            decreases regions.len() - i,
        {
            let ghost before = inventory.deep_view();
            let query = InventoryQuery::new(name, regions[i].as_str());
            inventory.push(query);
            assert(inventory.deep_view() =~= before.push(query@));
            i += 1;
        }
        let plan = match token {
            Some(token) => FetchPlan {
                header: Some(
                    Header {
                        name: String::from_str("X-Nomad-Token"),
                        value: hyphenated(token),
                        sensitive: true,
                    },
                ),
                allocations: Some(NomadAlloc::request(domain)),
                clients: Some(NomadClient::request(domain)),
                inventory,
            },
            None => FetchPlan { header: None, allocations: None, clients: None, inventory },
        };
        assert(plan@.inventory =~= Seq::new(
            regions.deep_view().len(),
            |k: int| inventory_query(name@, regions.deep_view()[k]),
        ));
        plan
    }
}

} // verus!
