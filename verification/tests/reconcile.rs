use bitte::address::IpAddress;
use bitte::bitte::node::instance::{Instance, Placement, Tag};
use bitte::bitte::node::BitteNode;
use bitte::bitte::{BitteCluster, BitteProvider, VALIDITY_SECS};
use bitte::error::{Error, Malformed, Remote};
use bitte::nomad::allocation::{AllocIndex, NomadAlloc};
use bitte::nomad::client::NomadClient;

fn tag(key: &str, value: &str) -> Tag {
    Tag { key: Some(key.to_string()), value: Some(value.to_string()) }
}

fn instance(id: &str, name: &str, last: Option<u8>) -> Instance {
    Instance {
        instance_id: Some(id.to_string()),
        tags: Some(vec![tag("Cluster", "testnet"), tag("Name", name), tag("UID", "sys")]),
        private_ip_address: last.map(|l| IpAddress::v4(10, 0, 0, l)),
        public_ip_address: last.map(|l| IpAddress::v4(52, 0, 0, l)),
        instance_type: Some("c5.xlarge".to_string()),
        placement: Some(Placement { availability_zone: Some("eu-central-1a".to_string()) }),
    }
}

fn client(id: u128, last: Option<u8>) -> NomadClient {
    NomadClient {
        id,
        allocs: None,
        address: last.map(|l| IpAddress::v4(10, 0, 0, l)),
        node_class: Some("c5".to_string()),
    }
}

fn placed(id: u128, node: u128) -> NomadAlloc {
    NomadAlloc {
        id,
        job_id: "api".to_string(),
        namespace: "default".to_string(),
        task_group: "web".to_string(),
        status: "running".to_string(),
        index: AllocIndex::Int(0),
        node_id: node,
    }
}

fn alloc_ids(node: &BitteNode) -> Vec<u128> {
    node.nomad_client.as_ref().unwrap().allocs.as_ref().unwrap().iter().map(|a| a.id).collect()
}

fn same_nodes(a: &[BitteNode], b: &[BitteNode]) -> bool {
    a.len() == b.len()
        && a.iter().zip(b.iter()).all(|(x, y)| {
            x.id == y.id
                && x.name == y.name
                && x.priv_ip == y.priv_ip
                && x.pub_ip == y.pub_ip
                && x.nixos == y.nixos
                && x.nomad_client == y.nomad_client
                && x.node_type == y.node_type
                && x.zone == y.zone
                && x.asg == y.asg
        })
}

#[test]
fn node_is_made_from_instance_fields_and_tags() {
    let mut record = instance("i-1", "core-1", Some(4));
    record.tags.as_mut().unwrap().push(tag("aws:autoscaling:groupName", "clients"));
    let node = BitteNode::from(record);
    assert_eq!(node.id, "i-1");
    assert_eq!(node.name, "core-1");
    assert_eq!(node.nixos, "sys");
    assert_eq!(node.priv_ip, IpAddress::V4(0x0a00_0004));
    assert_eq!(node.pub_ip, IpAddress::V4(0x3400_0004));
    assert_eq!(node.node_type.as_deref(), Some("c5.xlarge"));
    assert_eq!(node.zone.as_deref(), Some("eu-central-1a"));
    assert_eq!(node.asg.as_deref(), Some("clients"));
    assert!(node.nomad_client.is_none());
}

#[test]
fn node_without_addresses_has_the_all_zero_address() {
    let node = BitteNode::from(instance("i-1", "core-1", None));
    assert_eq!(node.priv_ip, IpAddress::v4(0, 0, 0, 0));
    assert_eq!(node.pub_ip, IpAddress::V4(0));
    assert!(node.priv_ip.is_unspecified());
}

#[test]
fn node_with_one_missing_address_keeps_the_other() {
    let mut record = instance("i-1", "core-1", Some(4));
    record.public_ip_address = None;
    let node = BitteNode::from(record);
    assert_eq!(node.priv_ip, IpAddress::v4(10, 0, 0, 4));
    assert_eq!(node.pub_ip, IpAddress::v4(0, 0, 0, 0));
}

#[test]
fn node_from_bare_instance_has_empty_texts() {
    let node = BitteNode::from(Instance {
        instance_id: None,
        tags: None,
        private_ip_address: None,
        public_ip_address: None,
        instance_type: None,
        placement: None,
    });
    assert_eq!(node.id, "");
    assert_eq!(node.name, "");
    assert_eq!(node.nixos, "");
    assert!(node.node_type.is_none());
    assert!(node.zone.is_none());
    assert!(node.asg.is_none());
}

#[test]
fn first_tag_of_a_key_decides() {
    let mut record = instance("i-1", "first", Some(4));
    record.tags.as_mut().unwrap().push(tag("Name", "second"));
    record.tags.as_mut().unwrap().insert(0, Tag { key: None, value: Some("stray".to_string()) });
    assert_eq!(BitteNode::from(record).name, "first");
}

#[test]
fn tag_without_value_gives_no_group_and_an_empty_name() {
    let mut record = instance("i-1", "x", Some(4));
    record.tags = Some(vec![
        Tag { key: Some("Name".to_string()), value: None },
        Tag { key: Some("aws:autoscaling:groupName".to_string()), value: None },
        tag("Name", "late"),
    ]);
    let node = BitteNode::from(record);
    assert_eq!(node.name, "");
    assert!(node.asg.is_none());
}

#[test]
fn placement_without_zone_gives_no_zone() {
    let mut record = instance("i-1", "x", Some(4));
    record.placement = Some(Placement { availability_zone: None });
    assert!(BitteNode::from(record).zone.is_none());
}

#[test]
fn nodes_are_joined_with_the_first_client_at_their_private_address() {
    let inventory = vec![Ok(vec![instance("i-1", "a", Some(4)), instance("i-2", "b", Some(5))])];
    let clients = vec![client(7, Some(5)), client(8, Some(5)), client(9, None)];
    let allocs = vec![placed(1, 8), placed(2, 7), placed(3, 9), placed(4, 7)];
    let nodes =
        BitteNode::find_nodes(BitteProvider::AWS, Some(Ok(allocs)), Some(Ok(clients)), inventory)
            .unwrap();
    assert_eq!(nodes.len(), 2);
    assert!(nodes[0].nomad_client.is_none());
    let attached = nodes[1].nomad_client.as_ref().unwrap();
    assert_eq!(attached.id, 7);
    assert_eq!(attached.address, Some(IpAddress::v4(10, 0, 0, 5)));
    assert_eq!(attached.node_class.as_deref(), Some("c5"));
    assert_eq!(alloc_ids(&nodes[1]), vec![2, 4]);
}

#[test]
fn client_without_allocations_gets_an_empty_list() {
    let inventory = vec![Ok(vec![instance("i-1", "a", Some(4))])];
    let nodes = BitteNode::find_nodes(
        BitteProvider::AWS,
        Some(Ok(vec![placed(1, 8)])),
        Some(Ok(vec![client(7, Some(4))])),
        inventory,
    )
    .unwrap();
    assert_eq!(alloc_ids(&nodes[0]), Vec::<u128>::new());
}

#[test]
fn nodes_of_all_regions_come_in_order_and_none_is_lost() {
    let inventory = vec![
        Ok(vec![instance("i-1", "a", Some(1)), instance("i-2", "b", Some(2))]),
        Ok(Vec::new()),
        Ok(vec![instance("i-3", "c", Some(3))]),
        Ok(vec![instance("i-4", "d", Some(4)), instance("i-5", "e", Some(5)), instance("i-6", "f", Some(6))]),
    ];
    let nodes = BitteNode::find_nodes(BitteProvider::AWS, None, None, inventory).unwrap();
    let ids: Vec<&str> = nodes.iter().map(|n| n.id.as_str()).collect();
    assert_eq!(ids, vec!["i-1", "i-2", "i-3", "i-4", "i-5", "i-6"]);
    assert_eq!(nodes.len(), 2 + 0 + 1 + 3);
}

#[test]
fn without_scheduler_no_node_has_a_client() {
    let inventory = vec![Ok(vec![instance("i-1", "a", Some(1)), instance("i-2", "b", Some(2))])];
    let nodes = BitteNode::find_nodes(BitteProvider::AWS, None, None, inventory).unwrap();
    assert!(nodes.iter().all(|n| n.nomad_client.is_none()));
}

#[test]
fn no_regions_give_no_nodes() {
    let nodes = BitteNode::find_nodes(BitteProvider::AWS, None, None, Vec::new()).unwrap();
    assert!(nodes.is_empty());
}

#[test]
fn reconciling_twice_gives_the_same_nodes() {
    let run = || {
        BitteNode::find_nodes(
            BitteProvider::AWS,
            Some(Ok(vec![placed(1, 7), placed(2, 8), placed(3, 7)])),
            Some(Ok(vec![client(7, Some(5)), client(8, Some(4))])),
            vec![
                Ok(vec![instance("i-1", "a", Some(4)), instance("i-2", "b", Some(5))]),
                Ok(vec![instance("i-3", "c", None)]),
            ],
        )
        .unwrap()
    };
    let first = run();
    let second = run();
    assert!(same_nodes(&first, &second));
    assert_eq!(alloc_ids(&first[0]), vec![2]);
    assert_eq!(alloc_ids(&first[1]), vec![1, 3]);
}

#[test]
fn failed_region_fails_the_whole_with_its_error() {
    let inventory = vec![
        Ok(vec![instance("i-1", "a", Some(1))]),
        Err(Error::NetworkFailure(Remote::Region("eu-west-1".to_string()))),
        Err(Error::NetworkFailure(Remote::Region("us-east-2".to_string()))),
    ];
    let error = BitteNode::find_nodes(BitteProvider::AWS, None, None, inventory).unwrap_err();
    assert_eq!(error, Error::NetworkFailure(Remote::Region("eu-west-1".to_string())));
    assert_eq!(error.message(), "failed to connect to ec2.eu-west-1.amazonaws.com");
}

#[test]
fn failed_allocations_fail_before_clients_and_regions() {
    let url = "https://nomad.example.org/v1/allocations".to_string();
    let error = BitteNode::find_nodes(
        BitteProvider::AWS,
        Some(Err(Error::DecodeFailure(Malformed::Response(url.clone())))),
        Some(Err(Error::JoinFailure("task 7 panicked".to_string()))),
        vec![Err(Error::NetworkFailure(Remote::Region("eu-west-1".to_string())))],
    )
    .unwrap_err();
    assert_eq!(error, Error::DecodeFailure(Malformed::Response(url)));
}

#[test]
fn failed_clients_fail_before_regions() {
    let error = BitteNode::find_nodes(
        BitteProvider::AWS,
        Some(Ok(Vec::new())),
        Some(Err(Error::JoinFailure("task 7 panicked".to_string()))),
        vec![Err(Error::NetworkFailure(Remote::Region("eu-west-1".to_string())))],
    )
    .unwrap_err();
    assert_eq!(error, Error::JoinFailure("task 7 panicked".to_string()));
    assert_eq!(error.message(), "task 7 panicked");
}

#[test]
fn cluster_holds_the_reconciled_nodes_and_its_horizon() {
    let cluster = BitteCluster::new(
        "testnet".to_string(),
        "example.org".to_string(),
        BitteProvider::AWS,
        Some(Ok(vec![placed(1, 7)])),
        Some(Ok(vec![client(7, Some(5))])),
        vec![Ok(vec![instance("i-2", "b", Some(5))])],
        1_700_000_000,
    )
    .unwrap();
    assert_eq!(cluster.name, "testnet");
    assert_eq!(cluster.domain, "example.org");
    assert_eq!(cluster.provider, BitteProvider::AWS);
    assert_eq!(cluster.ttl, 1_700_000_300);
    assert_eq!(VALIDITY_SECS, 300);
    assert_eq!(cluster.nodes.len(), 1);
    assert_eq!(alloc_ids(&cluster.nodes[0]), vec![1]);
}

#[test]
fn cluster_is_not_described_when_a_fetch_failed() {
    let outcome = BitteCluster::new(
        "testnet".to_string(),
        "example.org".to_string(),
        BitteProvider::AWS,
        None,
        None,
        vec![Err(Error::NetworkFailure(Remote::Region("eu-west-1".to_string())))],
        0,
    );
    assert_eq!(outcome.unwrap_err(), Error::NetworkFailure(Remote::Region("eu-west-1".to_string())));
}
