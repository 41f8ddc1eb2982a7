use bitte::address::IpAddress;
use bitte::bitte::node::find::Needle;
use bitte::bitte::node::BitteNode;
use bitte::bitte::{BitteCluster, BitteProvider};
use bitte::cli::subs::deploy::{deploy, deploy_target, secrets_script, Deploy};
use bitte::cli::subs::info::{group_label, hide_clients, info, info_print, tables, Info, InfoRow, Report};
use bitte::cli::subs::ssh::{
    hosts_of, init_ssh, next_step, ssh, ssh_key_path, Job, Progress, Ssh, SshPlan, SshStep,
};
use bitte::error::{Error, Query};
use bitte::nomad::allocation::{AllocIndex, NomadAlloc};
use bitte::nomad::client::NomadClient;

fn texts(list: &[&str]) -> Vec<String> {
    list.iter().map(|s| s.to_string()).collect()
}

fn node(id: &str, name: &str, last: u8, group: Option<&str>, class: Option<Option<&str>>) -> BitteNode {
    BitteNode {
        id: id.to_string(),
        name: name.to_string(),
        priv_ip: IpAddress::v4(10, 0, 0, last),
        pub_ip: IpAddress::v4(52, 0, 0, last),
        nixos: format!("{}-system", name),
        nomad_client: class.map(|class| NomadClient {
            id: last as u128,
            allocs: Some(vec![NomadAlloc {
                id: 0xabc0 + last as u128,
                job_id: "api".to_string(),
                namespace: "default".to_string(),
                task_group: "web".to_string(),
                status: "running".to_string(),
                index: AllocIndex::Int(last as u32),
                node_id: last as u128,
            }]),
            address: Some(IpAddress::v4(10, 0, 0, last)),
            node_class: class.map(|c| c.to_string()),
        }),
        node_type: None,
        zone: if last % 2 == 0 { Some("zone-a".to_string()) } else { None },
        asg: group.map(|g| g.to_string()),
    }
}

fn cluster() -> BitteCluster {
    BitteCluster {
        name: "testnet".to_string(),
        nodes: vec![
            node("i-4", "monitoring", 4, None, None),
            node("i-5", "client-b", 5, Some("asg-c5"), Some(Some("c5"))),
            node("i-6", "core-1", 6, None, None),
            node("i-7", "client-a", 7, Some("asg-m5"), Some(Some("m5"))),
            node("i-8", "client-c", 8, Some("asg-c5"), Some(Some("c5"))),
            node("i-9", "client-d", 9, Some("asg-x"), Some(None)),
            node("i-10", "client-e", 10, Some("asg-y"), None),
        ],
        domain: "example.org".to_string(),
        provider: BitteProvider::AWS,
        ttl: 300,
    }
}

fn options() -> Ssh {
    Ssh {
        job: None,
        namespace: None,
        all: false,
        parallel: false,
        clients: false,
        class: None,
        delay: None,
        args: Vec::new(),
        host: None,
    }
}

fn public(lasts: &[u8]) -> Vec<IpAddress> {
    lasts.iter().map(|l| IpAddress::v4(52, 0, 0, *l)).collect()
}

#[test]
fn shells_on_all_nodes_run_in_sequence() {
    let opts = Ssh { all: true, args: texts(&["uptime"]), ..options() };
    assert_eq!(
        ssh(opts, cluster()),
        Ok(SshPlan::Sequence {
            hosts: public(&[4, 5, 6, 7, 8, 9, 10]),
            args: texts(&["uptime"]),
            delay: None
        })
    );
}

#[test]
fn shells_in_sequence_keep_the_delay() {
    let opts = Ssh { all: true, delay: Some(30), clients: true, args: texts(&["uptime"]), ..options() };
    assert_eq!(
        ssh(opts, cluster()),
        Ok(SshPlan::Sequence {
            hosts: public(&[5, 7, 8, 9, 10]),
            args: texts(&["uptime"]),
            delay: Some(30)
        })
    );
}

#[test]
fn shells_in_parallel_go_to_the_clients_of_a_class() {
    let opts = Ssh {
        parallel: true,
        clients: true,
        class: Some("c5".to_string()),
        delay: Some(3),
        args: texts(&["uptime", "-p"]),
        ..options()
    };
    assert_eq!(
        ssh(opts, cluster()),
        Ok(SshPlan::Parallel { hosts: public(&[5, 8]), args: texts(&["uptime", "-p"]) })
    );
}

#[test]
fn all_comes_before_parallel_and_job() {
    let opts = Ssh {
        all: true,
        parallel: true,
        job: Some(Job { name: "api".to_string(), group: "web".to_string(), index: "5".to_string() }),
        ..options()
    };
    assert!(matches!(ssh(opts, cluster()), Ok(SshPlan::Sequence { .. })));
}

#[test]
fn shell_by_job_opens_in_the_allocation_directory() {
    let opts = Ssh {
        job: Some(Job { name: "api".to_string(), group: "web".to_string(), index: "7".to_string() }),
        ..options()
    };
    assert_eq!(
        ssh(opts, cluster()),
        Ok(SshPlan::Single {
            host: IpAddress::v4(52, 0, 0, 7),
            args: texts(&[
                "-t",
                "cd /var/lib/nomad/alloc/00000000-0000-0000-0000-00000000abc7 && exec $SHELL"
            ]),
        })
    );
}

#[test]
fn shell_by_job_keeps_given_arguments() {
    let opts = Ssh {
        job: Some(Job { name: "api".to_string(), group: "web".to_string(), index: "8".to_string() }),
        namespace: Some("default".to_string()),
        args: texts(&["ls", "-l"]),
        ..options()
    };
    assert_eq!(
        ssh(opts, cluster()),
        Ok(SshPlan::Single { host: IpAddress::v4(52, 0, 0, 8), args: texts(&["ls", "-l"]) })
    );
}

#[test]
fn shell_by_job_in_another_namespace_finds_nothing() {
    let opts = Ssh {
        job: Some(Job { name: "api".to_string(), group: "web".to_string(), index: "8".to_string() }),
        namespace: Some("prod".to_string()),
        ..options()
    };
    assert_eq!(
        ssh(opts, cluster()),
        Err(Error::NoMatch(Query::Placement {
            job: "api".to_string(),
            group: "web".to_string(),
            index: "8".to_string(),
            namespace: "prod".to_string(),
        }))
    );
}

#[test]
fn shell_by_needle_takes_the_first_argument_as_the_host() {
    let opts = Ssh { args: texts(&["core-1", "journalctl", "-f"]), ..options() };
    assert_eq!(
        ssh(opts, cluster()),
        Ok(SshPlan::Single { host: IpAddress::v4(52, 0, 0, 6), args: texts(&["journalctl", "-f"]) })
    );
    let opts = Ssh {
        args: texts(&["10.0.0.9"]),
        host: Some(IpAddress::v4(10, 0, 0, 9)),
        ..options()
    };
    assert_eq!(
        ssh(opts, cluster()),
        Ok(SshPlan::Single { host: IpAddress::v4(52, 0, 0, 9), args: Vec::new() })
    );
}

#[test]
fn shell_without_host_is_refused() {
    let error = ssh(options(), cluster()).unwrap_err();
    assert_eq!(error, Error::Usage("first arg must be a host".to_string()));
    assert_eq!(error.message(), "first arg must be a host");
}

#[test]
fn shell_to_unknown_host_is_no_match() {
    let opts = Ssh { args: texts(&["nowhere", "ls"]), ..options() };
    assert_eq!(
        ssh(opts, cluster()),
        Err(Error::NoMatch(Query::Needle("nowhere".to_string())))
    );
}

#[test]
fn shell_arguments_are_laid_out_in_order() {
    assert_eq!(
        init_ssh("52.0.0.4", &texts(&["uptime", "-p"]), "testnet", false),
        texts(&["-x", "-p", "22", "-o", "StrictHostKeyChecking=accept-new", "root@52.0.0.4", "uptime", "-p"])
    );
    assert_eq!(
        init_ssh("52.0.0.4", &Vec::new(), "testnet", true),
        texts(&[
            "-x",
            "-p",
            "22",
            "-i",
            "secrets/ssh-testnet",
            "-o",
            "StrictHostKeyChecking=accept-new",
            "root@52.0.0.4"
        ])
    );
    assert_eq!(ssh_key_path("testnet"), "secrets/ssh-testnet");
}

#[test]
fn hosts_are_the_public_addresses() {
    assert_eq!(hosts_of(&cluster().nodes), public(&[4, 5, 6, 7, 8, 9, 10]));
    assert!(hosts_of(&Vec::new()).is_empty());
}

#[test]
fn deployment_goes_to_the_clients_or_to_the_named_nodes() {
    let ids = |nodes: Vec<BitteNode>| -> Vec<String> { nodes.into_iter().map(|n| n.id).collect() };
    let to_clients = Deploy { clients: true, nodes: vec![Needle::new("core-1", None)], class: None };
    assert_eq!(ids(deploy(to_clients, cluster())), texts(&["i-5", "i-7", "i-8", "i-9", "i-10"]));
    let to_class = Deploy { clients: true, nodes: Vec::new(), class: Some("m5".to_string()) };
    assert_eq!(ids(deploy(to_class, cluster())), texts(&["i-7"]));
    let to_named = Deploy {
        clients: false,
        nodes: vec![Needle::new("core-1", None), Needle::new("i-4", None)],
        class: Some("m5".to_string()),
    };
    assert_eq!(ids(deploy(to_named, cluster())), texts(&["i-4", "i-6"]));
    let to_none = Deploy { clients: false, nodes: Vec::new(), class: None };
    assert!(deploy(to_none, cluster()).is_empty());
}

#[test]
fn deployment_names_its_targets() {
    assert_eq!(deploy_target("core-1-system", "52.0.0.6"), ".#core-1-system@52.0.0.6:22");
    assert_eq!(
        secrets_script("core-1-system"),
        ".#nixosConfigurations.'core-1-system'.config.secrets.generateScript"
    );
}

fn row(label: &str, last: u8, zone: &str) -> InfoRow {
    InfoRow {
        label: label.to_string(),
        priv_ip: IpAddress::v4(10, 0, 0, last),
        pub_ip: IpAddress::v4(52, 0, 0, last),
        zone: zone.to_string(),
    }
}

#[test]
fn tables_list_core_nodes_by_name_and_clients_by_group() {
    let tables = tables(cluster());
    assert_eq!(tables.core.title, "AWS Core Instance");
    assert_eq!(tables.core.rows, vec![row("core-1", 6, "zone-a"), row("monitoring", 4, "zone-a")]);
    assert_eq!(tables.clients.len(), 3);
    assert_eq!(tables.clients[0].title, "AWS Instance ID (m5)");
    assert_eq!(tables.clients[0].rows, vec![row("i-7", 7, "")]);
    assert_eq!(tables.clients[1].title, "AWS Instance ID (c5)");
    assert_eq!(tables.clients[1].rows, vec![row("i-5", 5, ""), row("i-8", 8, "zone-a")]);
    assert_eq!(tables.clients[2].title, "AWS Instance ID");
    assert_eq!(tables.clients[2].rows, vec![row("i-9", 9, ""), row("i-10", 10, "zone-a")]);
}

#[test]
fn tables_of_an_empty_cluster_are_empty() {
    let mut empty = cluster();
    empty.nodes.clear();
    let tables = tables(empty);
    assert_eq!(tables.core.title, "AWS Core Instance");
    assert!(tables.core.rows.is_empty());
    assert!(tables.clients.is_empty());
}

#[test]
fn group_is_the_class_in_brackets() {
    assert_eq!(group_label(&node("i", "n", 1, Some("g"), Some(Some("c5")))), " (c5)");
    assert_eq!(group_label(&node("i", "n", 1, Some("g"), Some(None))), "");
    assert_eq!(group_label(&node("i", "n", 1, Some("g"), None)), "");
}

#[test]
fn report_is_the_cluster_or_its_tables() {
    match info(Info { json: false, no_allocs: true }, cluster()) {
        Report::Tables(shown) => assert_eq!(shown, tables(cluster())),
        other => panic!("expected tables, got {:?}", other),
    }
    match info(Info { json: true, no_allocs: false }, cluster()) {
        Report::Json(written) => {
            assert_eq!(written.name, "testnet");
            assert_eq!(written.domain, "example.org");
            assert_eq!(written.ttl, 300);
            assert_eq!(written.nodes.len(), 7);
            assert_eq!(written.nodes[0].id, "i-4");
            assert!(written.nodes[1].nomad_client.is_some());
        }
        other => panic!("expected the cluster, got {:?}", other),
    }
}

#[test]
fn report_can_leave_out_what_the_scheduler_knows() {
    match info_print(cluster(), true, true) {
        Report::Json(written) => {
            assert_eq!(written.nodes.len(), 7);
            assert!(written.nodes.iter().all(|n| n.nomad_client.is_none()));
            let ids: Vec<&str> = written.nodes.iter().map(|n| n.id.as_str()).collect();
            assert_eq!(ids, vec!["i-4", "i-5", "i-6", "i-7", "i-8", "i-9", "i-10"]);
            assert_eq!(written.nodes[1].asg.as_deref(), Some("asg-c5"));
            assert_eq!(written.nodes[1].priv_ip, IpAddress::v4(10, 0, 0, 5));
        }
        other => panic!("expected the cluster, got {:?}", other),
    }
    assert!(hide_clients(Vec::new()).is_empty());
}

fn run_sequence(hosts: &Vec<IpAddress>, delay: Option<u64>, fails_at: Option<usize>) -> Vec<SshStep> {
    let mut progress = Progress::start();
    let mut steps = Vec::new();
    loop {
        let step = progress.next(hosts, delay);
        steps.push(step);
        let succeeded = match step {
            SshStep::Run(_) => Some(progress.done) != fails_at,
            SshStep::Wait(_) => true,
            SshStep::Done | SshStep::Abort => return steps,
        };
        progress = progress.advance(hosts, delay, succeeded);
    }
}

#[test]
fn sequence_visits_every_host_in_order() {
    let hosts = public(&[4, 5, 6]);
    assert_eq!(
        run_sequence(&hosts, None, None),
        vec![SshStep::Run(hosts[0]), SshStep::Run(hosts[1]), SshStep::Run(hosts[2]), SshStep::Done]
    );
    assert_eq!(run_sequence(&Vec::new(), Some(5), None), vec![SshStep::Done]);
}

#[test]
fn sequence_waits_between_two_shells_only() {
    let hosts = public(&[4, 5, 6]);
    assert_eq!(
        run_sequence(&hosts, Some(30), None),
        vec![
            SshStep::Run(hosts[0]),
            SshStep::Wait(30),
            SshStep::Run(hosts[1]),
            SshStep::Wait(30),
            SshStep::Run(hosts[2]),
            SshStep::Done
        ]
    );
    assert_eq!(
        run_sequence(&public(&[4]), Some(30), None),
        vec![SshStep::Run(IpAddress::v4(52, 0, 0, 4)), SshStep::Done]
    );
    assert_eq!(
        run_sequence(&public(&[4, 5]), Some(0), None),
        vec![
            SshStep::Run(IpAddress::v4(52, 0, 0, 4)),
            SshStep::Wait(0),
            SshStep::Run(IpAddress::v4(52, 0, 0, 5)),
            SshStep::Done
        ]
    );
}

#[test]
fn sequence_ends_at_the_first_failure() {
    let hosts = public(&[4, 5, 6]);
    assert_eq!(
        run_sequence(&hosts, Some(30), Some(1)),
        vec![SshStep::Run(hosts[0]), SshStep::Wait(30), SshStep::Run(hosts[1]), SshStep::Abort]
    );
    assert_eq!(run_sequence(&hosts, None, Some(0)), vec![SshStep::Run(hosts[0]), SshStep::Abort]);
    assert_eq!(
        run_sequence(&hosts, None, Some(2)),
        vec![SshStep::Run(hosts[0]), SshStep::Run(hosts[1]), SshStep::Run(hosts[2]), SshStep::Abort]
    );
}

#[test]
fn next_step_is_decided_from_the_progress() {
    let hosts = public(&[4, 5]);
    assert_eq!(next_step(&hosts, Some(3), 0, false, false), SshStep::Run(hosts[0]));
    assert_eq!(next_step(&hosts, Some(3), 1, false, false), SshStep::Wait(3));
    assert_eq!(next_step(&hosts, Some(3), 1, false, true), SshStep::Run(hosts[1]));
    assert_eq!(next_step(&hosts, None, 1, false, false), SshStep::Run(hosts[1]));
    assert_eq!(next_step(&hosts, Some(3), 2, false, false), SshStep::Done);
    assert_eq!(next_step(&hosts, Some(3), 9, false, false), SshStep::Done);
    assert_eq!(next_step(&hosts, Some(3), 1, true, false), SshStep::Abort);
    assert_eq!(next_step(&hosts, Some(3), 2, true, true), SshStep::Abort);
    let over = Progress { done: 2, last_failed: false, waited: false };
    assert_eq!(over.advance(&hosts, Some(3), true), over);
}
