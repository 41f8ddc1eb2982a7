//! Information about a cluster: its nodes in tables.

use vstd::prelude::*;
use vstd::string::*;
use crate::address::IpAddress;
use crate::bitte::node::sort::{sort_by_name, sort_nodes};
use crate::bitte::node::{BitteNode, BitteNodeView, BitteNodes};
use crate::bitte::{BitteCluster, BitteClusterView, BitteProvider};
use crate::text::{copy_or_empty, has_text, or_empty, same_text};

verus! {

/// Show information about instances and auto-scaling groups
#[derive(Debug)]
pub struct Info {
    /// output as JSON
    pub json: bool,
    /// leave out of the JSON output what the scheduler knows of the nodes
    pub no_allocs: bool,
}

/// What the command shows: the cluster itself, to be written out, or its
/// nodes laid out in tables.
#[derive(Debug)]
pub enum Report {
    Json(BitteCluster),
    Tables(InfoTables),
}

/// What a [`Report`] holds.
pub enum ReportView {
    Json(BitteClusterView),
    Tables(InfoTablesView),
}

impl View for Report {
    type V = ReportView;

    open spec fn view(&self) -> ReportView {
        match self {
            Report::Json(cluster) => ReportView::Json(cluster@),
            Report::Tables(tables) => ReportView::Tables(tables@),
        }
    }
}

/// The nodes `nodes` without what the scheduler knows of them.
pub open spec fn without_clients(nodes: Seq<BitteNodeView>) -> Seq<BitteNodeView> {
    Seq::new(nodes.len(), |i: int| BitteNodeView { nomad_client: None, ..nodes[i] })
}

/// What the command shows of `cluster`: with `json` the cluster, without
/// the scheduler's knowledge where that is to be left out, and else its
/// tables.
pub open spec fn reported(cluster: BitteClusterView, json: bool, no_allocs: bool) -> ReportView {
    if json {
        ReportView::Json(
            if no_allocs {
                BitteClusterView { nodes: without_clients(cluster.nodes), ..cluster }
            } else {
                cluster
            },
        )
    } else {
        ReportView::Tables(tables_of(cluster.provider, cluster.nodes))
    }
}

/// One line of a table: a node by its label, its two addresses and its
/// zone.
#[derive(Debug, PartialEq, Eq)]
pub struct InfoRow {
    pub label: String,
    pub priv_ip: IpAddress,
    pub pub_ip: IpAddress,
    pub zone: String,
}

/// A table of nodes; its title heads the column of labels.
#[derive(Debug, PartialEq, Eq)]
pub struct InfoTable {
    pub title: String,
    pub rows: Vec<InfoRow>,
}

/// The tables that describe a cluster: one of the core nodes, and one for
/// each group of client nodes.
#[derive(Debug, PartialEq, Eq)]
pub struct InfoTables {
    pub core: InfoTable,
    pub clients: Vec<InfoTable>,
}

/// What an [`InfoRow`] holds.
pub struct InfoRowView {
    pub label: Seq<char>,
    pub priv_ip: IpAddress,
    pub pub_ip: IpAddress,
    pub zone: Seq<char>,
}

/// What an [`InfoTable`] holds.
pub struct InfoTableView {
    pub title: Seq<char>,
    pub rows: Seq<InfoRowView>,
}

/// What an [`InfoTables`] holds.
pub struct InfoTablesView {
    pub core: InfoTableView,
    pub clients: Seq<InfoTableView>,
}

impl View for InfoRow {
    type V = InfoRowView;

    open spec fn view(&self) -> InfoRowView {
        InfoRowView {
            label: self.label@,
            priv_ip: self.priv_ip,
            pub_ip: self.pub_ip,
            zone: self.zone@,
        }
    }
}

impl DeepView for InfoRow {
    type V = InfoRowView;

    open spec fn deep_view(&self) -> InfoRowView {
        self@
    }
}

impl View for InfoTable {
    type V = InfoTableView;

    open spec fn view(&self) -> InfoTableView {
        InfoTableView { title: self.title@, rows: self.rows.deep_view() }
    }
}

impl DeepView for InfoTable {
    type V = InfoTableView;

    open spec fn deep_view(&self) -> InfoTableView {
        self@
    }
}

impl View for InfoTables {
    type V = InfoTablesView;

    open spec fn view(&self) -> InfoTablesView {
        InfoTablesView { core: self.core@, clients: self.clients.deep_view() }
    }
}

/// The heads of the columns of a table with the title `title`: the title
/// over the labels, then the private address, the public address and the
/// zone.
pub open spec fn header_of(title: Seq<char>) -> Seq<Seq<char>> {
    seq![title, "Private IP"@, "Public IP"@, "Zone"@]
}

impl InfoTable {
    /// The heads of the table's columns.
    pub fn header(&self) -> (heads: Vec<String>)
        ensures
            heads.deep_view() == header_of(self.title@),
    {
        let mut heads: Vec<String> = Vec::new();
        heads.push(self.title.clone());
        heads.push(String::from_str("Private IP"));
        heads.push(String::from_str("Public IP"));
        heads.push(String::from_str("Zone"));
        assert(heads.deep_view() =~= header_of(self.title@));
        heads
    }
}

/// The group of a client node: the class of the client attached to it, in
/// round brackets behind a space; the empty text where no client is attached
/// or the client has no class.
pub open spec fn group_of(node: BitteNodeView) -> Seq<char> {
    match node.nomad_client {
        Some(client) => match client.node_class {
            Some(class) => " ("@ + class + ")"@,
            None => Seq::empty(),
        },
        None => Seq::empty(),
    }
}

/// The line of `node` under the label `label`.
pub open spec fn row_of(node: BitteNodeView, label: Seq<char>) -> InfoRowView {
    InfoRowView { label, priv_ip: node.priv_ip, pub_ip: node.pub_ip, zone: or_empty(node.zone) }
}

/// The lines of the core nodes among `nodes`, which are those outside every
/// autoscaling group, by name and in the nodes' order.
pub open spec fn core_rows(nodes: Seq<BitteNodeView>) -> Seq<InfoRowView>
    decreases nodes.len(),
{
    if nodes.len() == 0 {
        Seq::empty()
    } else {
        let rest = core_rows(nodes.drop_last());
        let node = nodes.last();
        if node.asg is None {
            rest.push(row_of(node, node.name))
        } else {
            rest
        }
    }
}

/// The lines of the client nodes of the group `group` among `nodes`, by id
/// and in the nodes' order.
pub open spec fn group_rows(nodes: Seq<BitteNodeView>, group: Seq<char>) -> Seq<InfoRowView>
    decreases nodes.len(),
{
    if nodes.len() == 0 {
        Seq::empty()
    } else {
        let rest = group_rows(nodes.drop_last(), group);
        let node = nodes.last();
        if node.asg is Some && group_of(node) == group {
            rest.push(row_of(node, node.id))
        } else {
            rest
        }
    }
}

/// The groups of the client nodes among `nodes`, each once, in the order in
/// which they first occur.
pub open spec fn groups_of(nodes: Seq<BitteNodeView>) -> Seq<Seq<char>>
    decreases nodes.len(),
{
    if nodes.len() == 0 {
        Seq::empty()
    } else {
        let rest = groups_of(nodes.drop_last());
        let node = nodes.last();
        if node.asg is Some && !rest.contains(group_of(node)) {
            rest.push(group_of(node))
        } else {
            rest
        }
    }
}

/// The title of the table of the core nodes.
pub open spec fn core_title(provider: BitteProvider) -> Seq<char> {
    provider.spec_name() + " Core Instance"@
}

/// The title of the table of the client nodes of the group `group`.
pub open spec fn group_title(provider: BitteProvider, group: Seq<char>) -> Seq<char> {
    provider.spec_name() + " Instance ID"@ + group
}

/// The table of the client nodes of the group `group` among `nodes`.
pub open spec fn group_table(
    provider: BitteProvider,
    nodes: Seq<BitteNodeView>,
    group: Seq<char>,
) -> InfoTableView {
    InfoTableView { title: group_title(provider, group), rows: group_rows(nodes, group) }
}

/// The tables of the nodes `nodes`, taken in the order of their names: the
/// core nodes in one table, the client nodes in one table for each group.
pub open spec fn tables_of(provider: BitteProvider, nodes: Seq<BitteNodeView>) -> InfoTablesView {
    let sorted = sort_by_name(nodes);
    let groups = groups_of(sorted);
    InfoTablesView {
        core: InfoTableView { title: core_title(provider), rows: core_rows(sorted) },
        clients: Seq::new(groups.len(), |k: int| group_table(provider, sorted, groups[k])),
    }
}

/// Names the group of a client node.
pub fn group_label(node: &BitteNode) -> (group: String)
    ensures
        group@ == group_of(node@),
{
    match &node.nomad_client {
        Some(client) => match &client.node_class {
            Some(class) => {
                let mut group = String::from_str(" (");
                group.append(class.as_str());
                group.append(")");
                group
            },
            None => String::new(),
        },
        None => String::new(),
    }
}

/// Makes the line of `node` under the label `label`.
fn make_row(node: &BitteNode, label: &String) -> (row: InfoRow)
    ensures
        row@ == row_of(node@, label@),
{
    InfoRow {
        label: label.clone(),
        priv_ip: node.priv_ip,
        pub_ip: node.pub_ip,
        zone: copy_or_empty(&node.zone),
    }
}

/// Where the text `wanted` stands in `list`.
fn position(list: &Vec<String>, wanted: &str) -> (at: Option<usize>)
    ensures
        match at {
            Some(k) => k < list.len() && list.deep_view()[k as int] == wanted@,
            None => !list.deep_view().contains(wanted@),
        },
{
    let mut i: usize = 0;
    while i < list.len()
        invariant
            i <= list.len(),
            forall|j: int| 0 <= j < i ==> list.deep_view()[j] != wanted@,
        decreases list.len() - i,
    {
        if same_text(list[i].as_str(), wanted) {
            return Some(i);
        }
        i += 1;
    }
    None
}

/// Takes from `nodes` what the scheduler knows of them.
pub fn hide_clients(nodes: BitteNodes) -> (bare: BitteNodes)
    ensures
        bare.deep_view() == without_clients(nodes.deep_view()),
{
    let ghost all = nodes.deep_view();
    let ghost items = nodes@;
    let mut bare: BitteNodes = Vec::new();
    assert(bare.deep_view() =~= without_clients(all.take(0)));
    for node in it: nodes.into_iter()
        invariant
            it.seq() == items,
            items == nodes@,
            all == nodes.deep_view(),
            bare.deep_view() == without_clients(all.take(it.index() as int)),
    {
        let ghost before = bare.deep_view();
        let mut node = node;
        node.nomad_client = None;
        bare.push(node);
        proof {
            assert(bare.deep_view() =~= before.push(node@));
            assert(bare.deep_view() =~= without_clients(all.take(it.index() + 1)));
        }
    }
    assert(all.take(all.len() as int) =~= all);
    bare
}

/// Decides what the command shows of `cluster`.
pub fn info(sub: Info, cluster: BitteCluster) -> (report: Report)
    ensures
        report@ == reported(cluster@, sub.json, sub.no_allocs),
{
    info_print(cluster, sub.json, sub.no_allocs)
}

/// Makes what is shown of `cluster`: with `json` the cluster as it is to be
/// written out, else its nodes in tables.
pub fn info_print(cluster: BitteCluster, json: bool, no_allocs: bool) -> (report: Report)
    ensures
        report@ == reported(cluster@, json, no_allocs),
{
    if json {
        if no_allocs {
            Report::Json(
                BitteCluster {
                    name: cluster.name,
                    nodes: hide_clients(cluster.nodes),
                    domain: cluster.domain,
                    provider: cluster.provider,
                    ttl: cluster.ttl,
                },
            )
        } else {
            Report::Json(cluster)
        }
    } else {
        Report::Tables(tables(cluster))
    }
}

/// Lays the nodes of `cluster` out in tables.
pub fn tables(cluster: BitteCluster) -> (tables: InfoTables)
    ensures
        tables@ == tables_of(cluster@.provider, cluster@.nodes),
{
    let provider = cluster.provider;
    let sorted = sort_nodes(cluster.nodes);
    let ghost all = sorted.deep_view();
    let mut core_title_text = provider.name();
    core_title_text.append(" Core Instance");
    let mut core: Vec<InfoRow> = Vec::new();
    let mut groups: Vec<String> = Vec::new();
    let mut clients: Vec<InfoTable> = Vec::new();
    let mut i: usize = 0;
    proof {
        assert(all.take(0) =~= Seq::<BitteNodeView>::empty());
        assert(core.deep_view() =~= core_rows(all.take(0)));
        assert(groups.deep_view() =~= groups_of(all.take(0)));
    }
    while i < sorted.len()
        invariant
            i <= sorted.len(),
            all == sorted.deep_view(),
            core.deep_view() == core_rows(all.take(i as int)),
            groups.deep_view() == groups_of(all.take(i as int)),
            clients.len() == groups.len(),
            forall|a: int, b: int|
                0 <= a < b < groups.len() ==> groups.deep_view()[a] != groups.deep_view()[b],
            forall|k: int|
                0 <= k < clients.len() ==> (#[trigger] clients[k])@ == group_table(
                    provider,
                    all.take(i as int),
                    groups.deep_view()[k],
                ),
        decreases sorted.len() - i,
    {
        let node = &sorted[i];
        let ghost seen = all.take(i as int);
        let ghost upto = all.take(i + 1);
        let ghost old_core = core.deep_view();
        let ghost old_groups = groups.deep_view();
        let ghost old_clients = clients@;
        proof {
            assert(upto.drop_last() =~= seen);
            assert(upto.last() == node@);
        }
        if node.asg.is_some() {
            let group = group_label(node);
            let row = make_row(node, &node.id);
            match position(&groups, group.as_str()) {
                Some(k) => {
                    let mut table = clients.remove(k);
                    let ghost old_rows = table.rows.deep_view();
                    table.rows.push(row);
                    assert(table.rows.deep_view() =~= old_rows.push(row@));
                    clients.insert(k, table);
                    assert(clients@ =~= old_clients.update(k as int, table));
                    assert forall|j: int| 0 <= j < clients.len() implies (#[trigger] clients[j])@
                        == group_table(provider, upto, groups.deep_view()[j]) by {
                        if j != k {
                            assert(clients[j] == old_clients[j]);
                            assert(groups.deep_view()[j] != group@);
                        }
                    }
                },
                None => {
                    let mut title = provider.name();
                    title.append(" Instance ID");
                    title.append(group.as_str());
                    let mut rows: Vec<InfoRow> = Vec::new();
                    rows.push(row);
                    proof {
                        assert(rows.deep_view() =~= Seq::<InfoRowView>::empty().push(row@));
                        lemma_unseen_group_has_no_rows(seen, group@);
                    }
                    groups.push(group);
                    clients.push(InfoTable { title, rows });
                    assert(groups.deep_view() =~= old_groups.push(group@));
                    assert forall|j: int| 0 <= j < clients.len() implies (#[trigger] clients[j])@
                        == group_table(provider, upto, groups.deep_view()[j]) by {
                        if j < old_clients.len() {
                            assert(clients[j] == old_clients[j]);
                            assert(old_groups[j] == groups.deep_view()[j]);
                            assert(old_groups.contains(old_groups[j]));
                        }
                    }
                },
            }
        } else {
            let row = make_row(node, &node.name);
            core.push(row);
            assert(core.deep_view() =~= old_core.push(row@));
            assert forall|j: int| 0 <= j < clients.len() implies (#[trigger] clients[j])@
                == group_table(provider, upto, groups.deep_view()[j]) by {
                assert(clients[j] == old_clients[j]);
            }
        }
        i += 1;
    }
    proof {
        assert(all.take(sorted.len() as int) =~= all);
        assert(clients.deep_view() =~= tables_of(cluster@.provider, cluster@.nodes).clients);
    }
    InfoTables { core: InfoTable { title: core_title_text, rows: core }, clients }
}

/// A group that is not among the groups of `nodes` has no lines.
pub proof fn lemma_unseen_group_has_no_rows(nodes: Seq<BitteNodeView>, group: Seq<char>)
    requires
        !groups_of(nodes).contains(group),
    ensures
        group_rows(nodes, group) == Seq::<InfoRowView>::empty(),
    decreases nodes.len(),
{
    if nodes.len() > 0 {
        let rest = groups_of(nodes.drop_last());
        let node = nodes.last();
        if rest.contains(group) {
            let k = choose|k: int| 0 <= k < rest.len() && rest[k] == group;
            assert(groups_of(nodes)[k] == group);
        }
        lemma_unseen_group_has_no_rows(nodes.drop_last(), group);
        if node.asg is Some && group_of(node) == group {
            if rest.contains(group_of(node)) {
            } else {
                assert(groups_of(nodes)[rest.len() as int] == group);
            }
        }
    }
}

} // verus!
