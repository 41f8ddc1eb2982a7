use bitte::address::IpAddress;
use bitte::bitte::{BitteCluster, BitteProvider, Header, InventoryQuery};
use bitte::cli::init_log;
use bitte::cli::opts::{Globals, Nomad};
use bitte::error::Error;
use bitte::nomad::allocation::NomadAlloc;
use bitte::nomad::client::NomadClient;
use bitte::nomad::endpoint_url;

fn texts(list: &[&str]) -> Vec<String> {
    list.iter().map(|s| s.to_string()).collect()
}

fn globals(default: Option<&str>, others: Option<&[&str]>) -> Globals {
    Globals {
        provider: BitteProvider::AWS,
        domain: "example.org".to_string(),
        name: "testnet".to_string(),
        aws_region: default.map(|s| s.to_string()),
        aws_asg_regions: others.map(texts),
    }
}

#[test]
fn regions_hold_each_named_region_once() {
    let named = globals(Some("eu-central-1"), Some(&["us-east-2", "eu-central-1", "us-east-2", "eu-west-1"]));
    assert_eq!(named.regions(), texts(&["us-east-2", "eu-central-1", "eu-west-1"]));
}

#[test]
fn default_region_is_added_to_the_others() {
    assert_eq!(
        globals(Some("eu-central-1"), Some(&["us-east-2"])).regions(),
        texts(&["us-east-2", "eu-central-1"])
    );
    assert_eq!(globals(Some("eu-central-1"), None).regions(), texts(&["eu-central-1"]));
    assert_eq!(globals(None, Some(&["us-east-2"])).regions(), texts(&["us-east-2"]));
    assert!(globals(None, None).regions().is_empty());
    assert!(globals(None, Some(&[])).regions().is_empty());
}

#[test]
fn default_options_name_nothing() {
    let globals = Globals::default();
    assert_eq!(globals.provider, BitteProvider::AWS);
    assert_eq!(globals.domain, "");
    assert_eq!(globals.name, "");
    assert!(globals.aws_region.is_none());
    assert!(globals.aws_asg_regions.is_none());
    assert!(Nomad::default().nomad.is_none());
}

#[test]
fn plan_holds_one_inventory_query_for_each_region() {
    let regions = texts(&["eu-central-1", "us-east-2", "eu-west-1"]);
    let plan = BitteCluster::init("testnet", "example.org", &regions, None);
    assert_eq!(plan.inventory.len(), 3);
    let asked: Vec<&str> = plan.inventory.iter().map(|q| q.region.as_str()).collect();
    assert_eq!(asked, vec!["eu-central-1", "us-east-2", "eu-west-1"]);
    for query in &plan.inventory {
        assert_eq!(query.filters.len(), 2);
        assert_eq!(query.filters[0].name, "tag:Cluster");
        assert_eq!(query.filters[0].values, texts(&["testnet"]));
        assert_eq!(query.filters[1].name, "instance-state-name");
        assert_eq!(query.filters[1].values, texts(&["running"]));
    }
}

#[test]
fn plan_asks_a_region_once_however_often_it_is_named() {
    let regions = texts(&["eu-central-1", "us-east-2", "eu-central-1", "us-east-2", "eu-central-1"]);
    let plan = BitteCluster::init("testnet", "example.org", &regions, None);
    let asked: Vec<&str> = plan.inventory.iter().map(|q| q.region.as_str()).collect();
    assert_eq!(asked, vec!["eu-central-1", "us-east-2"]);
}

#[test]
fn plan_for_no_region_holds_no_inventory_query() {
    let plan = BitteCluster::init("testnet", "example.org", &Vec::new(), None);
    assert!(plan.inventory.is_empty());
}

#[test]
fn plan_without_token_does_not_ask_the_scheduler() {
    let plan = BitteCluster::init("testnet", "example.org", &texts(&["eu-central-1"]), None);
    assert!(plan.header.is_none());
    assert!(plan.allocations.is_none());
    assert!(plan.clients.is_none());
}

#[test]
fn plan_with_token_asks_the_scheduler_under_the_token() {
    let token = 0x0123_4567_89ab_cdef_0011_2233_4455_6677u128;
    let plan = BitteCluster::init("testnet", "example.org", &texts(&["eu-central-1"]), Some(token));
    assert_eq!(
        plan.header,
        Some(Header {
            name: "X-Nomad-Token".to_string(),
            value: "01234567-89ab-cdef-0011-223344556677".to_string(),
            sensitive: true,
        })
    );
    let allocations = plan.allocations.unwrap();
    assert_eq!(allocations.url, "https://nomad.example.org/v1/allocations");
    assert_eq!(
        allocations.query,
        vec![
            ("namespace".to_string(), "*".to_string()),
            ("task_states".to_string(), "false".to_string())
        ]
    );
    let clients = plan.clients.unwrap();
    assert_eq!(clients.url, "https://nomad.example.org/v1/nodes");
    assert!(clients.query.is_empty());
    assert_eq!(plan.inventory.len(), 1);
}

#[test]
fn token_header_has_all_digits_in_place() {
    let plan = BitteCluster::init("t", "d", &Vec::new(), Some(u128::MAX));
    assert_eq!(plan.header.unwrap().value, "ffffffff-ffff-ffff-ffff-ffffffffffff");
    let plan = BitteCluster::init("t", "d", &Vec::new(), Some(0));
    assert_eq!(plan.header.unwrap().value, "00000000-0000-0000-0000-000000000000");
    let plan = BitteCluster::init("t", "d", &Vec::new(), Some(1 << 127));
    assert_eq!(plan.header.unwrap().value, "80000000-0000-0000-0000-000000000000");
}

#[test]
fn requests_name_their_endpoints() {
    assert_eq!(NomadAlloc::request("a.b").url, "https://nomad.a.b/v1/allocations");
    assert_eq!(NomadClient::request("a.b").url, "https://nomad.a.b/v1/nodes");
    assert_eq!(endpoint_url("a.b", "/v1/jobs"), "https://nomad.a.b/v1/jobs");
    assert_eq!(InventoryQuery::new("c", "r").region, "r");
}

#[test]
fn provider_is_read_in_any_case() {
    for name in ["AWS", "aws", "Aws", "aWs", "awS", "AwS"] {
        assert_eq!(BitteProvider::parse(name), Ok(BitteProvider::AWS));
        assert_eq!(name.parse::<BitteProvider>(), Ok(BitteProvider::AWS));
    }
    assert_eq!(BitteProvider::AWS.name(), "AWS");
    assert_eq!(BitteProvider::default(), BitteProvider::AWS);
}

#[test]
fn unknown_provider_is_invalid_configuration() {
    for name in ["", "gcp", "aw", "awss", " aws", "aws ", "\u{e4}ws", "a\u{17f}s"] {
        let error = BitteProvider::parse(name).unwrap_err();
        assert_eq!(error, Error::ConfigInvalid(name.to_string()));
    }
    assert_eq!(
        BitteProvider::parse("gcp").unwrap_err().message(),
        "current BITTE_PROVIDER is not valid: gcp"
    );
}

#[test]
fn log_level_follows_the_verbosity() {
    assert_eq!(init_log(0), "warn");
    assert_eq!(init_log(1), "info");
    assert_eq!(init_log(2), "debug");
    assert_eq!(init_log(3), "trace");
    assert_eq!(init_log(u64::MAX), "trace");
}

#[test]
fn addresses_are_the_integers_of_their_octets() {
    assert_eq!(IpAddress::v4(10, 0, 0, 5), IpAddress::V4(0x0a00_0005));
    assert_eq!(IpAddress::v4(255, 255, 255, 255), IpAddress::V4(u32::MAX));
    assert_eq!(IpAddress::v4(1, 2, 3, 4), IpAddress::V4(0x0102_0304));
    assert_eq!(IpAddress::unspecified(), IpAddress::V4(0));
    assert!(IpAddress::unspecified().is_unspecified());
    assert!(!IpAddress::V6(0).is_unspecified());
    assert!(!IpAddress::v4(0, 0, 0, 1).is_unspecified());
    assert_ne!(IpAddress::V4(1), IpAddress::V6(1));
    assert_eq!(IpAddress::or_unspecified(None), IpAddress::V4(0));
    assert_eq!(IpAddress::or_unspecified(Some(IpAddress::V6(9))), IpAddress::V6(9));
}
