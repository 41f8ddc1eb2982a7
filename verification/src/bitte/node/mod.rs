//! The nodes of a cluster.

pub mod find;
pub mod instance;
pub mod order;
pub mod sort;

use vstd::prelude::*;
use crate::address::IpAddress;
use crate::bitte::node::instance::{node_of, Instance, InstanceView};
use crate::bitte::provider::BitteProvider;
use crate::error::{Error, ErrorView};
use crate::nomad::allocation::{owned_by, owner_is, NomadAllocView, NomadAllocs};
use crate::nomad::client::{
    client_at, registered_at, scheduler_view, with_allocs, NomadClient, NomadClientView,
    NomadClients,
};
use crate::search::lemma_first_of;

verus! {

/// A collection of nodes.
pub type BitteNodes = Vec<BitteNode>;

/// One node of the cluster: what the cloud inventory says of it and, where a
/// scheduler client is registered under its private address, what the
/// scheduler knows of it.
#[derive(Debug)]
pub struct BitteNode {
    pub id: String,
    pub name: String,
    pub priv_ip: IpAddress,
    pub pub_ip: IpAddress,
    pub nixos: String,
    pub nomad_client: Option<NomadClient>,
    pub node_type: Option<String>,
    pub zone: Option<String>,
    pub asg: Option<String>,
}

/// What a [`BitteNode`] holds.
pub struct BitteNodeView {
    pub id: Seq<char>,
    pub name: Seq<char>,
    pub priv_ip: IpAddress,
    pub pub_ip: IpAddress,
    pub nixos: Seq<char>,
    pub nomad_client: Option<NomadClientView>,
    pub node_type: Option<Seq<char>>,
    pub zone: Option<Seq<char>>,
    pub asg: Option<Seq<char>>,
}

impl View for BitteNode {
    type V = BitteNodeView;

    open spec fn view(&self) -> BitteNodeView {
        BitteNodeView {
            id: self.id@,
            name: self.name@,
            priv_ip: self.priv_ip,
            pub_ip: self.pub_ip,
            nixos: self.nixos@,
            nomad_client: self.nomad_client.deep_view(),
            node_type: self.node_type.deep_view(),
            zone: self.zone.deep_view(),
            asg: self.asg.deep_view(),
        }
    }
}

impl DeepView for BitteNode {
    type V = BitteNodeView;

    open spec fn deep_view(&self) -> BitteNodeView {
        self@
    }
}

/// What a fetch that may have failed has brought.
pub open spec fn seen<T: DeepView>(outcome: Result<T, Error>) -> Result<T::V, ErrorView> {
    match outcome {
        Ok(value) => Ok(value.deep_view()),
        Err(error) => Err(error@),
    }
}

/// What a fetch that may not have been started, and may have failed, has
/// brought.
pub open spec fn seen_if_started<T: DeepView>(outcome: Option<Result<T, Error>>) -> Option<
    Result<T::V, ErrorView>,
> {
    match outcome {
        Some(outcome) => Some(seen(outcome)),
        None => None,
    }
}

/// What the inventory fetches, one per region, have brought.
pub open spec fn seen_inventory(inventory: Seq<Result<Vec<Instance>, Error>>) -> Seq<
    Result<Seq<InstanceView>, ErrorView>,
> {
    Seq::new(inventory.len(), |i: int| seen(inventory[i]))
}

/// The error of a fetch that was started and failed.
pub open spec fn failure<V>(outcome: Option<Result<V, ErrorView>>) -> Option<ErrorView> {
    match outcome {
        Some(Err(error)) => Some(error),
        _ => None,
    }
}

/// The list that a fetch has brought; the empty list where it was not
/// started.
pub open spec fn brought<V>(outcome: Option<Result<Seq<V>, ErrorView>>) -> Seq<V> {
    match outcome {
        Some(Ok(list)) => list,
        _ => Seq::empty(),
    }
}

/// The error of the first region whose inventory fetch failed.
pub open spec fn first_region_failure(
    inventory: Seq<Result<Seq<InstanceView>, ErrorView>>,
) -> Option<ErrorView>
    decreases inventory.len(),
{
    if inventory.len() == 0 {
        None
    } else {
        match inventory[0] {
            Err(error) => Some(error),
            Ok(_) => first_region_failure(inventory.drop_first()),
        }
    }
}

/// The instances of all regions, region after region.
pub open spec fn all_instances(inventory: Seq<Result<Seq<InstanceView>, ErrorView>>) -> Seq<
    InstanceView,
>
    decreases inventory.len(),
{
    if inventory.len() == 0 {
        Seq::empty()
    } else {
        all_instances(inventory.drop_last()) + match inventory.last() {
            Ok(instances) => instances,
            Err(_) => Seq::empty(),
        }
    }
}

/// The node of `instance` with what the scheduler knows of it.
pub open spec fn joined(
    instance: InstanceView,
    clients: Seq<NomadClientView>,
    allocs: Seq<NomadAllocView>,
) -> BitteNodeView {
    let node = node_of(instance);
    BitteNodeView { nomad_client: scheduler_view(clients, allocs, node.priv_ip), ..node }
}

/// One node for each instance, in the instances' order, each joined with the
/// first client registered under its private address and with the
/// allocations which that client owns.
pub open spec fn reconcile(
    instances: Seq<InstanceView>,
    clients: Seq<NomadClientView>,
    allocs: Seq<NomadAllocView>,
) -> Seq<BitteNodeView> {
    Seq::new(instances.len(), |k: int| joined(instances[k], clients, allocs))
}

/// The first failure among the fetches, the allocations' before the
/// clients', and theirs before the regions' in the regions' order.
pub open spec fn first_failure(
    allocs: Option<Result<Seq<NomadAllocView>, ErrorView>>,
    clients: Option<Result<Seq<NomadClientView>, ErrorView>>,
    inventory: Seq<Result<Seq<InstanceView>, ErrorView>>,
) -> Option<ErrorView> {
    if failure(allocs) is Some {
        failure(allocs)
    } else if failure(clients) is Some {
        failure(clients)
    } else {
        first_region_failure(inventory)
    }
}

/// The nodes that the fetches describe: the first failure where a fetch
/// failed, else the reconciled nodes of all regions.
pub open spec fn described(
    allocs: Option<Result<Seq<NomadAllocView>, ErrorView>>,
    clients: Option<Result<Seq<NomadClientView>, ErrorView>>,
    inventory: Seq<Result<Seq<InstanceView>, ErrorView>>,
) -> Result<Seq<BitteNodeView>, ErrorView> {
    match first_failure(allocs, clients, inventory) {
        Some(error) => Err(error),
        None => Ok(reconcile(all_instances(inventory), brought(clients), brought(allocs))),
    }
}

/// How many instances the regions have brought together.
pub open spec fn instance_count(inventory: Seq<Result<Seq<InstanceView>, ErrorView>>) -> nat
    decreases inventory.len(),
{
    if inventory.len() == 0 {
        0
    } else {
        instance_count(inventory.drop_last()) + match inventory.last() {
            Ok(instances) => instances.len(),
            Err(_) => 0,
        }
    }
}

/// The instances of all regions are as many as the regions have brought
/// together.
pub proof fn lemma_all_instances_are_counted(inventory: Seq<Result<Seq<InstanceView>, ErrorView>>)
    ensures
        all_instances(inventory).len() == instance_count(inventory),
    decreases inventory.len(),
{
    if inventory.len() > 0 {
        lemma_all_instances_are_counted(inventory.drop_last());
    }
}

/// Where no fetch has failed, the cluster has one node for each instance of
/// each region, in the regions' and the instances' order: none is dropped,
/// none is added, and the `k`-th node is the one joined from the `k`-th
/// instance.
pub proof fn lemma_every_instance_is_a_node(
    allocs: Option<Result<Seq<NomadAllocView>, ErrorView>>,
    clients: Option<Result<Seq<NomadClientView>, ErrorView>>,
    inventory: Seq<Result<Seq<InstanceView>, ErrorView>>,
)
    requires
        first_failure(allocs, clients, inventory) is None,
    ensures
        described(allocs, clients, inventory) matches Ok(nodes) && nodes.len() == instance_count(
            inventory,
        ) && forall|k: int|
            0 <= k < nodes.len() ==> nodes[k] == joined(
                all_instances(inventory)[k],
                brought(clients),
                brought(allocs),
            ),
{
    lemma_all_instances_are_counted(inventory);
}

/// What the fetches describe depends on nothing but what they have brought:
/// two reconciliations of fetches that have brought the same end in the
/// same error or in the same nodes.
pub proof fn lemma_reconciliation_is_repeatable(
    first: Result<BitteNodes, Error>,
    second: Result<BitteNodes, Error>,
    allocs: Option<Result<Seq<NomadAllocView>, ErrorView>>,
    clients: Option<Result<Seq<NomadClientView>, ErrorView>>,
    inventory: Seq<Result<Seq<InstanceView>, ErrorView>>,
)
    requires
        seen(first) == described(allocs, clients, inventory),
        seen(second) == described(allocs, clients, inventory),
    ensures
        seen(first) == seen(second),
{
}

/// Whether what `node` says of the scheduler fits together: the client
/// attached to it, if any, is registered under the node's private address,
/// and the allocations listed under the client name it as their client.
pub open spec fn consistent(node: BitteNodeView) -> bool {
    node.nomad_client matches Some(client) ==> {
        &&& client.address == Some(node.priv_ip)
        &&& client.allocs matches Some(owned) ==> forall|k: int|
            0 <= k < owned.len() ==> (#[trigger] owned[k]).node_id == client.id
    }
}

/// Every node that reconciliation makes is consistent.
pub proof fn lemma_reconciled_nodes_are_consistent(
    instances: Seq<InstanceView>,
    clients: Seq<NomadClientView>,
    allocs: Seq<NomadAllocView>,
)
    ensures
        reconcile(instances, clients, allocs).len() == instances.len(),
        forall|k: int|
            0 <= k < instances.len() ==> consistent(
                #[trigger] reconcile(instances, clients, allocs)[k],
            ),
{
    assert forall|k: int| 0 <= k < instances.len() implies consistent(
        #[trigger] reconcile(instances, clients, allocs)[k],
    ) by {
        lemma_attached_client(instances[k], clients, allocs);
    }
}

/// No allocation stands under two consistent nodes whose clients differ.
pub proof fn lemma_no_allocation_under_two_clients(
    first: BitteNodeView,
    second: BitteNodeView,
    alloc: NomadAllocView,
)
    requires
        consistent(first),
        consistent(second),
        first.nomad_client matches Some(a) && a.allocs matches Some(owned) && owned.contains(alloc),
        second.nomad_client matches Some(b) && b.allocs matches Some(owned) && owned.contains(
            alloc,
        ),
    ensures
        first.nomad_client->0.id == second.nomad_client->0.id,
{
    let mine = first.nomad_client->0.allocs->0;
    let theirs = second.nomad_client->0.allocs->0;
    let i = choose|i: int| 0 <= i < mine.len() && mine[i] == alloc;
    let j = choose|j: int| 0 <= j < theirs.len() && theirs[j] == alloc;
    assert(mine[i].node_id == first.nomad_client->0.id);
    assert(theirs[j].node_id == second.nomad_client->0.id);
}

/// A node has a client attached only if a client is registered under its
/// private address; the client attached has that address, and its
/// allocations are exactly those among all allocations that name it as their
/// client. So no allocation stands under two nodes whose clients differ.
pub proof fn lemma_attached_client(
    instance: InstanceView,
    clients: Seq<NomadClientView>,
    allocs: Seq<NomadAllocView>,
)
    ensures
        joined(instance, clients, allocs).nomad_client matches Some(client) ==> {
            &&& client.address == Some(joined(instance, clients, allocs).priv_ip)
            &&& client.allocs matches Some(owned)
            &&& owned == owned_by(allocs, client.id)
            &&& forall|k: int| 0 <= k < owned.len() ==> owned[k].node_id == client.id
            &&& forall|k: int|
                0 <= k < allocs.len() && allocs[k].node_id == client.id ==> owned.contains(
                    allocs[k],
                )
        },
        joined(instance, clients, allocs).nomad_client is None <==> forall|i: int|
            0 <= i < clients.len() ==> clients[i].address != Some(
                joined(instance, clients, allocs).priv_ip,
            ),
        joined(instance, clients, allocs).nomad_client matches Some(client) ==> exists|i: int|
            0 <= i < clients.len() && with_allocs(clients[i], allocs) == client && forall|j: int|
                0 <= j < i ==> clients[j].address != client.address,
{
    let addr = node_of(instance).priv_ip;
    lemma_first_of(clients, registered_at(addr));
    if client_at(clients, addr) is Some {
        let client = client_at(clients, addr)->0;
        let owned = owned_by(allocs, client.id);
        let test = owner_is(client.id);
        assert forall|k: int| 0 <= k < owned.len() implies owned[k].node_id == client.id by {
            allocs.lemma_filter_pred(test, k);
        }
        assert forall|k: int|
            0 <= k < allocs.len() && allocs[k].node_id == client.id implies owned.contains(
            allocs[k],
        ) by {
            allocs.lemma_filter_contains(test, k);
        }
        let place = choose|i: int|
            0 <= i < clients.len() && clients[i] == client && registered_at(addr)(client)
                && forall|j: int| 0 <= j < i ==> !registered_at(addr)(clients[j]);
        assert(with_allocs(clients[place], allocs) == with_allocs(client, allocs));
        assert forall|j: int| 0 <= j < place implies clients[j].address != Some(addr) by {
            assert(!registered_at(addr)(clients[j]));
        }
    } else {
        assert forall|i: int| 0 <= i < clients.len() implies clients[i].address != Some(addr) by {
            assert(!registered_at(addr)(clients[i]));
        }
    }
    if forall|i: int| 0 <= i < clients.len() ==> clients[i].address != Some(addr) {
        assert forall|i: int| 0 <= i < clients.len() implies !registered_at(addr)(clients[i]) by {}
    }
}

impl BitteNode {
    /// Makes the node of one instance and joins it with what the scheduler
    /// knows of it.
    pub fn join(instance: Instance, clients: &NomadClients, allocs: &NomadAllocs) -> (node: Self)
        ensures
            node@ == joined(instance@, clients.deep_view(), allocs.deep_view()),
    {
        let mut node = BitteNode::from(instance);
        node.nomad_client = NomadClient::lookup(clients, allocs, node.priv_ip);
        node
    }

    /// Reconciles what the fetches have brought into the cluster's nodes.
    ///
    /// `allocs` and `clients` are the outcomes of the two scheduler queries,
    /// missing where the scheduler was not asked; `inventory` holds the
    /// outcome of the inventory query of each region. Any failed fetch fails
    /// the whole, with the error of the first that failed.
    pub fn find_nodes(
        provider: BitteProvider,
        allocs: Option<Result<NomadAllocs, Error>>,
        clients: Option<Result<NomadClients, Error>>,
        inventory: Vec<Result<Vec<Instance>, Error>>,
    ) -> (nodes: Result<BitteNodes, Error>)
        ensures
            seen(nodes) == described(
                seen_if_started(allocs),
                seen_if_started(clients),
                seen_inventory(inventory@),
            ),
    {
        match provider {
            BitteProvider::AWS => {
                let ghost all = seen_inventory(inventory@);
                let ghost asked_allocs = seen_if_started(allocs);
                let ghost asked_clients = seen_if_started(clients);
                let placed = match allocs {
                    Some(Ok(placed)) => placed,
                    Some(Err(error)) => {
                        return Err(error);
                    },
                    None => Vec::new(),
                };
                let registered = match clients {
                    Some(Ok(registered)) => registered,
                    Some(Err(error)) => {
                        return Err(error);
                    },
                    None => Vec::new(),
                };
                let mut result: BitteNodes = Vec::new();
                proof {
                    assert(all.take(0) =~= Seq::empty());
                    assert(result.deep_view() =~= reconcile(
                        all_instances(all.take(0)),
                        registered.deep_view(),
                        placed.deep_view(),
                    ));
                    assert(all.skip(0) =~= all);
                }
                for response in regions: inventory.into_iter()
                    invariant
                        regions.seq() == inventory@,
                        all == seen_inventory(inventory@),
                        asked_allocs == seen_if_started(allocs),
                        asked_clients == seen_if_started(clients),
                        failure(asked_allocs) is None,
                        failure(asked_clients) is None,
                        brought(asked_allocs) == placed.deep_view(),
                        brought(asked_clients) == registered.deep_view(),
                        first_region_failure(all) == first_region_failure(
                            all.skip(regions.index() as int),
                        ),
                        result.deep_view() == reconcile(
                            all_instances(all.take(regions.index() as int)),
                            registered.deep_view(),
                            placed.deep_view(),
                        ),
                {
                    let ghost r = regions.index() as int;
                    let ghost before = all_instances(all.take(r));
                    proof {
                        assert(all.skip(r)[0] == seen(response));
                        assert(all.skip(r).drop_first() =~= all.skip(r + 1));
                        assert(all.take(r + 1).drop_last() =~= all.take(r));
                        assert(all.take(r + 1).last() == seen(response));
                    }
                    match response {
                        Ok(instances) => {
                            let ghost found = instances.deep_view();
                            proof {
                                assert(found.take(0) =~= Seq::empty());
                                assert(before + found.take(0) =~= before);
                            }
                            for instance in it: instances.into_iter()
                                invariant
                                    it.seq().len() == found.len(),
                                    forall|k: int|
                                        0 <= k < found.len() ==> (#[trigger] it.seq()[k])@
                                            == found[k],
                                    result.deep_view() == reconcile(
                                        before + found.take(it.index() as int),
                                        registered.deep_view(),
                                        placed.deep_view(),
                                    ),
                            {
                                let ghost k = it.index() as int;
                                let ghost old_nodes = result.deep_view();
                                let node = BitteNode::join(instance, &registered, &placed);
                                result.push(node);
                                proof {
                                    assert(before + found.take(k + 1) =~= (before + found.take(
                                        k,
                                    )).push(found[k]));
                                    assert(result.deep_view() =~= old_nodes.push(node@));
                                    assert(result.deep_view() =~= reconcile(
                                        before + found.take(k + 1),
                                        registered.deep_view(),
                                        placed.deep_view(),
                                    ));
                                }
                            }
                            proof {
                                assert(found.take(found.len() as int) =~= found);
                            }
                        },
                        Err(error) => {
                            return Err(error);
                        },
                    }
                }
                proof {
                    assert(all.take(all.len() as int) =~= all);
                    assert(all.skip(all.len() as int) =~= Seq::empty());
                }
                Ok(result)
            },
        }
    }
}

} // verus!
