//! Lookups over a collection of nodes.

use vstd::prelude::*;
use vstd::string::*;
use crate::address::IpAddress;
use crate::bitte::node::{BitteNode, BitteNodeView, BitteNodes};
use crate::bitte::BitteFind;
use crate::error::{Error, ErrorView, Query, QueryView};
use crate::ident::{hyphenated, hyphenated_text};
use crate::nomad::allocation::{NomadAlloc, NomadAllocView};
use crate::search::{first_of, lemma_first_of, lemma_first_of_at, lemma_selection_is_exact};
use crate::text::{parse_u32, same_text, unsigned_decimal};

verus! {

/// What a node is looked up by: a text and, where the text spells an IP
/// address, that address.
#[derive(Debug, PartialEq, Eq)]
pub struct Needle {
    pub text: String,
    pub addr: Option<IpAddress>,
}

/// What a [`Needle`] holds.
pub struct NeedleView {
    pub text: Seq<char>,
    pub addr: Option<IpAddress>,
}

impl View for Needle {
    type V = NeedleView;

    open spec fn view(&self) -> NeedleView {
        NeedleView { text: self.text@, addr: self.addr }
    }
}

impl DeepView for Needle {
    type V = NeedleView;

    open spec fn deep_view(&self) -> NeedleView {
        self@
    }
}

impl Needle {
    /// A needle of the given text; `addr` is the IP address that the text
    /// spells, if it spells one.
    pub fn new(text: &str, addr: Option<IpAddress>) -> (needle: Needle)
        ensures
            needle@ == (NeedleView { text: text@, addr }),
    {
        Needle { text: text.to_owned(), addr }
    }
}

/// A placement that is looked for: a job, one of its task groups, the index
/// of the placement as text, and the namespace of the job.
pub struct Placed {
    pub job: Seq<char>,
    pub group: Seq<char>,
    pub index: Seq<char>,
    pub namespace: Seq<char>,
}

/// Whether `needle` names `node`: by the node's id, by its name, by the
/// hyphenated id of the client attached to it, or by its private or public
/// address.
pub open spec fn matches_needle(node: BitteNodeView, needle: NeedleView) -> bool {
    ||| node.id == needle.text
    ||| node.name == needle.text
    ||| (node.nomad_client matches Some(client) && hyphenated_text(client.id) == needle.text)
    ||| needle.addr == Some(node.priv_ip)
    ||| needle.addr == Some(node.pub_ip)
}

/// Whether one of `needles` names `node`.
pub open spec fn matches_any(node: BitteNodeView, needles: Seq<NeedleView>) -> bool {
    exists|i: int| 0 <= i < needles.len() && matches_needle(node, #[trigger] needles[i])
}

/// Whether `node` is a client node: of the class `class` by the scheduler's
/// account where a class is asked for, a member of an autoscaling group
/// where none is. A node without a client, and a client without a class, is
/// of no class, not even of the class with the empty name.
pub open spec fn is_client(node: BitteNodeView, class: Option<Seq<char>>) -> bool {
    match class {
        Some(class) => node.nomad_client matches Some(client) && client.node_class == Some(
            class,
        ),
        None => node.asg is Some,
    }
}

/// Whether `alloc` is the running placement that `placed` describes.
pub open spec fn is_placement(alloc: NomadAllocView, placed: Placed) -> bool {
    &&& alloc.namespace == placed.namespace
    &&& alloc.job_id == placed.job
    &&& alloc.task_group == placed.group
    &&& alloc.index.get() is Some
    &&& alloc.index.get() == unsigned_decimal(placed.index)
    &&& alloc.status == "running"@
}

/// The test that an allocation is the running placement `placed`.
pub open spec fn placed_as(placed: Placed) -> spec_fn(NomadAllocView) -> bool {
    |alloc: NomadAllocView| is_placement(alloc, placed)
}

/// The first allocation on `node` that is the placement `placed`.
pub open spec fn placement_on(node: BitteNodeView, placed: Placed) -> Option<NomadAllocView> {
    match node.nomad_client {
        Some(client) => match client.allocs {
            Some(allocs) => first_of(allocs, placed_as(placed)),
            None => None,
        },
        None => None,
    }
}

/// The test that `needle` names a node.
pub open spec fn named_by(needle: NeedleView) -> spec_fn(BitteNodeView) -> bool {
    |node: BitteNodeView| matches_needle(node, needle)
}

/// The test that one of `needles` names a node.
pub open spec fn named_by_any(needles: Seq<NeedleView>) -> spec_fn(BitteNodeView) -> bool {
    |node: BitteNodeView| matches_any(node, needles)
}

/// The test that a node is a client node of the class `class`.
pub open spec fn client_of(class: Option<Seq<char>>) -> spec_fn(BitteNodeView) -> bool {
    |node: BitteNodeView| is_client(node, class)
}

/// The test that a node runs the placement `placed`.
pub open spec fn running(placed: Placed) -> spec_fn(BitteNodeView) -> bool {
    |node: BitteNodeView| placement_on(node, placed) is Some
}

/// A lookup by one needle finds the first node that the needle names: a
/// node that the needle names is found if the needle names no node before
/// it, and a node with the needle's address as its private address is named.
/// The lookup finds none exactly when the needle names no node: when no node
/// has the needle's text as its id, its name or the hyphenated id of its
/// client, nor the needle's address as its private or public address.
pub proof fn lemma_find_needle(nodes: Seq<BitteNodeView>, needle: NeedleView)
    ensures
        first_of(nodes, named_by(needle)) is None <==> forall|i: int|
            0 <= i < nodes.len() ==> !matches_needle(nodes[i], needle),
        first_of(nodes, named_by(needle)) matches Some(found) ==> exists|i: int|
            0 <= i < nodes.len() && nodes[i] == found && matches_needle(found, needle)
                && forall|j: int| 0 <= j < i ==> !matches_needle(nodes[j], needle),
        forall|i: int|
            0 <= i < nodes.len() && needle.addr == Some(nodes[i].priv_ip) ==> first_of(
                nodes,
                named_by(needle),
            ) is Some,
        forall|i: int|
            0 <= i < nodes.len() && matches_needle(nodes[i], needle) && (forall|j: int|
                0 <= j < i ==> !matches_needle(nodes[j], needle)) ==> first_of(
                nodes,
                named_by(needle),
            ) == Some(nodes[i]),
{
    lemma_first_of(nodes, named_by(needle));
    assert forall|i: int|
        0 <= i < nodes.len() && matches_needle(nodes[i], needle) && (forall|j: int|
            0 <= j < i ==> !matches_needle(nodes[j], needle)) implies first_of(
        nodes,
        named_by(needle),
    ) == Some(nodes[i]) by {
        assert forall|j: int| 0 <= j < i implies !named_by(needle)(nodes[j]) by {
            assert(!matches_needle(nodes[j], needle));
        }
        lemma_first_of_at(nodes, named_by(needle), i);
    }
    if first_of(nodes, named_by(needle)) is Some {
        let found = first_of(nodes, named_by(needle))->0;
        let test = named_by(needle);
        let k = choose|i: int|
            0 <= i < nodes.len() && nodes[i] == found && test(found) && forall|j: int|
                0 <= j < i ==> !test(nodes[j]);
        assert(matches_needle(found, needle));
        assert forall|j: int| 0 <= j < k implies !matches_needle(nodes[j], needle) by {
            assert(!test(nodes[j]));
        }
    } else {
        assert forall|i: int| 0 <= i < nodes.len() implies !matches_needle(nodes[i], needle) by {
            assert(!named_by(needle)(nodes[i]));
        }
    }
    assert forall|i: int|
        0 <= i < nodes.len() && needle.addr == Some(nodes[i].priv_ip) implies first_of(
        nodes,
        named_by(needle),
    ) is Some by {
        assert(named_by(needle)(nodes[i]));
    }
}

/// A lookup of the client nodes without a class finds exactly the nodes
/// that belong to an autoscaling group, whether a client is attached to
/// them or not. With a class it finds exactly the nodes that have a client
/// attached whose class is that class, whether they belong to an autoscaling
/// group or not; a client without a class is found under no class.
pub proof fn lemma_find_clients(
    nodes: Seq<BitteNodeView>,
    class: Option<Seq<char>>,
    node: BitteNodeView,
)
    ensures
        class is None ==> (nodes.filter(client_of(class)).contains(node) <==> nodes.contains(node)
            && node.asg is Some),
        class matches Some(wanted) ==> (nodes.filter(client_of(class)).contains(node)
            <==> nodes.contains(node) && node.nomad_client is Some
            && node.nomad_client->0.node_class == Some(wanted)),
        class is Some && (node.nomad_client is None || node.nomad_client->0.node_class is None)
            ==> !nodes.filter(client_of(class)).contains(node),
{
    lemma_selection_is_exact(nodes, client_of(class), node);
}

/// A lookup by several needles finds exactly the nodes that one of the
/// needles names.
pub proof fn lemma_find_needles(
    nodes: Seq<BitteNodeView>,
    needles: Seq<NeedleView>,
    node: BitteNodeView,
)
    ensures
        nodes.filter(named_by_any(needles)).contains(node) <==> nodes.contains(node) && exists|
            i: int,
        | 0 <= i < needles.len() && matches_needle(node, #[trigger] needles[i]),
{
    lemma_selection_is_exact(nodes, named_by_any(needles), node);
}

/// A lookup by placement finds the first node on which an allocation is the
/// running placement looked for, together with the first such allocation on
/// it; it finds none exactly when no allocation on any node has the
/// namespace, the job, the task group and the index looked for and is
/// running.
pub proof fn lemma_find_with_job(nodes: Seq<BitteNodeView>, placed: Placed)
    ensures
        first_of(nodes, running(placed)) is None <==> forall|i: int|
            0 <= i < nodes.len() ==> placement_on(nodes[i], placed) is None,
        first_of(nodes, running(placed)) matches Some(node) ==> placement_on(node, placed)
            matches Some(alloc) && is_placement(alloc, placed) && node.nomad_client->0.allocs->0.contains(
            alloc,
        ),
        forall|i: int|
            0 <= i < nodes.len() ==> (placement_on(nodes[i], placed) is None <==> (
            nodes[i].nomad_client matches Some(client) ==> client.allocs matches Some(allocs)
                ==> forall|k: int| 0 <= k < allocs.len() ==> !is_placement(allocs[k], placed))),
{
    lemma_first_of(nodes, running(placed));
    if first_of(nodes, running(placed)) is Some {
        let node = first_of(nodes, running(placed))->0;
        let test = running(placed);
        let k = choose|i: int|
            0 <= i < nodes.len() && nodes[i] == node && test(node) && forall|j: int|
                0 <= j < i ==> !test(nodes[j]);
        assert(placement_on(node, placed) is Some);
        let allocs = node.nomad_client->0.allocs->0;
        lemma_first_of(allocs, placed_as(placed));
    } else {
        assert forall|i: int| 0 <= i < nodes.len() implies placement_on(nodes[i], placed)
            is None by {
            assert(!running(placed)(nodes[i]));
        }
    }
    if forall|i: int| 0 <= i < nodes.len() ==> placement_on(nodes[i], placed) is None {
        assert forall|i: int| 0 <= i < nodes.len() implies !running(placed)(nodes[i]) by {}
    }
    assert forall|i: int| 0 <= i < nodes.len() implies (placement_on(nodes[i], placed) is None
        <==> (nodes[i].nomad_client matches Some(client) ==> client.allocs matches Some(allocs)
        ==> forall|k: int| 0 <= k < allocs.len() ==> !is_placement(allocs[k], placed))) by {
        if nodes[i].nomad_client is Some && nodes[i].nomad_client->0.allocs is Some {
            let allocs = nodes[i].nomad_client->0.allocs->0;
            lemma_first_of(allocs, placed_as(placed));
            if first_of(allocs, placed_as(placed)) is None {
                assert forall|k: int| 0 <= k < allocs.len() implies !is_placement(
                    allocs[k],
                    placed,
                ) by {
                    assert(!placed_as(placed)(allocs[k]));
                }
            }
            if forall|k: int| 0 <= k < allocs.len() ==> !is_placement(allocs[k], placed) {
                assert forall|k: int| 0 <= k < allocs.len() implies !placed_as(placed)(
                    allocs[k],
                ) by {}
            }
        }
    }
}

/// Whether `needle` names `node`.
pub fn node_matches(node: &BitteNode, needle: &Needle) -> (named: bool)
    ensures
        named == matches_needle(node@, needle@),
{
    if node.id == needle.text || node.name == needle.text {
        return true;
    }
    let by_client = match &node.nomad_client {
        Some(client) => hyphenated(client.id) == needle.text,
        None => false,
    };
    if by_client {
        return true;
    }
    match needle.addr {
        Some(addr) => addr == node.priv_ip || addr == node.pub_ip,
        None => false,
    }
}

/// Whether one of `needles` names `node`.
pub fn node_matches_any(node: &BitteNode, needles: &Vec<Needle>) -> (named: bool)
    ensures
        named == matches_any(node@, needles.deep_view()),
{
    let mut i: usize = 0;
    while i < needles.len()
        invariant
            i <= needles.len(),
            forall|j: int| 0 <= j < i ==> !matches_needle(node@, #[trigger] needles.deep_view()[j]),
        decreases needles.len() - i,
    {
        if node_matches(node, &needles[i]) {
            assert(matches_needle(node@, needles.deep_view()[i as int]));
            return true;
        }
        i += 1;
    }
    false
}

/// Whether `node` is a client node of the class `class`.
pub fn node_is_client(node: &BitteNode, class: &Option<String>) -> (client: bool)
    ensures
        client == is_client(node@, class.deep_view()),
{
    match class {
        Some(class) => match &node.nomad_client {
            Some(client) => match &client.node_class {
                Some(own) => *own == *class,
                None => false,
            },
            None => false,
        },
        None => node.asg.is_some(),
    }
}

/// Whether `alloc` is the running placement with the given job, task group,
/// index and namespace; `wanted` is the number that `index` spells.
fn alloc_is_placement(
    alloc: &NomadAlloc,
    name: &str,
    group: &str,
    index: &str,
    wanted: Option<u32>,
    namespace: &str,
) -> (placed: bool)
    requires
        wanted == unsigned_decimal(index@),
    ensures
        placed == is_placement(
            alloc@,
            Placed { job: name@, group: group@, index: index@, namespace: namespace@ },
        ),
{
    let same_index = match (alloc.index.get(), wanted) {
        (Some(own), Some(wanted)) => own == wanted,
        _ => false,
    };
    same_text(alloc.namespace.as_str(), namespace) && same_text(alloc.job_id.as_str(), name)
        && same_text(alloc.task_group.as_str(), group) && same_index && same_text(
        alloc.status.as_str(),
        "running",
    )
}

/// Copies out the first allocation on `node` that is the running placement
/// with the given job, task group, index and namespace; `wanted` is the
/// number that `index` spells.
fn placement_of(
    node: &BitteNode,
    name: &str,
    group: &str,
    index: &str,
    wanted: Option<u32>,
    namespace: &str,
) -> (found: Option<NomadAlloc>)
    requires
        wanted == unsigned_decimal(index@),
    ensures
        found.deep_view() == placement_on(
            node@,
            Placed { job: name@, group: group@, index: index@, namespace: namespace@ },
        ),
{
    let ghost placed = Placed { job: name@, group: group@, index: index@, namespace: namespace@ };
    let ghost test = placed_as(placed);
    match &node.nomad_client {
        Some(client) => match &client.allocs {
            Some(allocs) => {
                let mut i: usize = 0;
                assert(allocs.deep_view().skip(0) =~= allocs.deep_view());
                while i < allocs.len()
                    invariant
                        i <= allocs.len(),
                        wanted == unsigned_decimal(index@),
                        placed == (Placed {
                            job: name@,
                            group: group@,
                            index: index@,
                            namespace: namespace@,
                        }),
                        test == placed_as(placed),
                        node@.nomad_client == Some(client@),
                        client@.allocs == Some(allocs.deep_view()),
                        first_of(allocs.deep_view(), test) == first_of(
                            allocs.deep_view().skip(i as int),
                            test,
                        ),
                    decreases allocs.len() - i,
                {
                    let ghost rest = allocs.deep_view().skip(i as int);
                    proof {
                        assert(rest[0] == allocs[i as int]@);
                        assert(rest.drop_first() =~= allocs.deep_view().skip(i + 1));
                    }
                    if alloc_is_placement(&allocs[i], name, group, index, wanted, namespace) {
                        return Some(allocs[i].clone());
                    }
                    i += 1;
                }
                None
            },
            None => None,
        },
        None => None,
    }
}

impl BitteFind for BitteNodes {
    type Item = BitteNode;

    /// Hands out the first node that `needle` names. Where it names none,
    /// the lookup fails with `NoMatch`, which holds the needle's text.
    fn find_needle(self, needle: &Needle) -> (found: Result<BitteNode, Error>)
        ensures
            match found {
                Ok(node) => first_of(self.deep_view(), named_by(needle@)) == Some(node@),
                Err(error) => {
                    &&& first_of(self.deep_view(), named_by(needle@)) is None
                    &&& error@ == ErrorView::NoMatch(QueryView::Needle(needle@.text))
                },
            },
    {
        let ghost all = self.deep_view();
        let ghost items = self@;
        assert(all.skip(0) =~= all);
        for node in it: self.into_iter()
            invariant
                it.seq() == items,
                items == self@,
                all == self.deep_view(),
                first_of(all, named_by(needle@)) == first_of(
                    all.skip(it.index() as int),
                    named_by(needle@),
                ),
        {
            let ghost rest = all.skip(it.index() as int);
            proof {
                assert(rest[0] == node@);
                assert(rest.drop_first() =~= all.skip(it.index() + 1));
            }
            if node_matches(&node, needle) {
                return Ok(node);
            }
        }
        Err(Error::NoMatch(Query::Needle(needle.text.clone())))
    }

    /// Hands out the nodes that one of `needles` names, in their order.
    fn find_needles(self, needles: &Vec<Needle>) -> (found: Self)
        ensures
            found.deep_view() == self.deep_view().filter(named_by_any(needles.deep_view())),
    {
        let ghost all = self.deep_view();
        let ghost items = self@;
        let ghost test = named_by_any(needles.deep_view());
        let mut found: BitteNodes = Vec::new();
        proof {
            reveal(Seq::filter);
            assert(all.take(0) =~= Seq::<BitteNodeView>::empty());
            assert(found.deep_view() =~= all.take(0).filter(test));
        }
        for node in it: self.into_iter()
            invariant
                it.seq() == items,
                items == self@,
                all == self.deep_view(),
                test == named_by_any(needles.deep_view()),
                found.deep_view() == all.take(it.index() as int).filter(test),
        {
            let ghost seen = all.take(it.index() as int);
            let ghost before = found.deep_view();
            proof {
                assert(all.take(it.index() + 1) =~= seen.push(node@));
                seen.lemma_filter_push(node@, test);
            }
            if node_matches_any(&node, needles) {
                found.push(node);
                assert(found.deep_view() =~= before.push(node@));
            }
        }
        proof {
            assert(all.take(all.len() as int) =~= all);
        }
        found
    }

    /// Hands out the client nodes, in their order: those whose attached
    /// client has the class `node_class` where one is given, those that
    /// belong to an autoscaling group where none is.
    fn find_clients(self, node_class: Option<String>) -> (found: Self)
        ensures
            found.deep_view() == self.deep_view().filter(client_of(node_class.deep_view())),
    {
        let ghost all = self.deep_view();
        let ghost items = self@;
        let ghost test = client_of(node_class.deep_view());
        let mut found: BitteNodes = Vec::new();
        proof {
            reveal(Seq::filter);
            assert(all.take(0) =~= Seq::<BitteNodeView>::empty());
            assert(found.deep_view() =~= all.take(0).filter(test));
        }
        for node in it: self.into_iter()
            invariant
                it.seq() == items,
                items == self@,
                all == self.deep_view(),
                test == client_of(node_class.deep_view()),
                found.deep_view() == all.take(it.index() as int).filter(test),
        {
            let ghost seen = all.take(it.index() as int);
            let ghost before = found.deep_view();
            proof {
                assert(all.take(it.index() + 1) =~= seen.push(node@));
                seen.lemma_filter_push(node@, test);
            }
            if node_is_client(&node, &node_class) {
                found.push(node);
                assert(found.deep_view() =~= before.push(node@));
            }
        }
        proof {
            assert(all.take(all.len() as int) =~= all);
        }
        found
    }

    /// Hands out the first node that runs the placement with the given job,
    /// task group, index and namespace, and the first such placement on it.
    /// Where no node runs one, the lookup fails with `NoMatch`, which holds
    /// the four inputs.
    fn find_with_job(self, name: &str, group: &str, index: &str, namespace: &str) -> (found: Result<
        (BitteNode, NomadAlloc),
        Error,
    >)
        ensures
            ({
                let placed = Placed {
                    job: name@,
                    group: group@,
                    index: index@,
                    namespace: namespace@,
                };
                match found {
                    Ok((node, alloc)) => {
                        &&& first_of(self.deep_view(), running(placed)) == Some(node@)
                        &&& placement_on(node@, placed) == Some(alloc@)
                    },
                    Err(error) => {
                        &&& first_of(self.deep_view(), running(placed)) is None
                        &&& error@ == ErrorView::NoMatch(
                            QueryView::Placement {
                                job: name@,
                                group: group@,
                                index: index@,
                                namespace: namespace@,
                            },
                        )
                    },
                }
            }),
    {
        let ghost placed = Placed { job: name@, group: group@, index: index@, namespace: namespace@ };
        let ghost all = self.deep_view();
        let ghost items = self@;
        let wanted = parse_u32(index);
        assert(all.skip(0) =~= all);
        for node in it: self.into_iter()
            invariant
                it.seq() == items,
                items == self@,
                all == self.deep_view(),
                wanted == unsigned_decimal(index@),
                placed == (Placed {
                    job: name@,
                    group: group@,
                    index: index@,
                    namespace: namespace@,
                }),
                first_of(all, running(placed)) == first_of(
                    all.skip(it.index() as int),
                    running(placed),
                ),
        {
            let ghost rest = all.skip(it.index() as int);
            proof {
                assert(rest[0] == node@);
                assert(rest.drop_first() =~= all.skip(it.index() + 1));
            }
            match placement_of(&node, name, group, index, wanted, namespace) {
                Some(alloc) => {
                    return Ok((node, alloc));
                },
                None => {},
            }
        }
        Err(
            Error::NoMatch(
                Query::Placement {
                    job: name.to_owned(),
                    group: group.to_owned(),
                    index: index.to_owned(),
                    namespace: namespace.to_owned(),
                },
            ),
        )
    }
}

} // verus!
