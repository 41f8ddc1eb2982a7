//! Remote shells: on which nodes, in which order, with which arguments.

use vstd::prelude::*;
use vstd::string::*;
use crate::address::IpAddress;
use crate::bitte::node::find::{
    client_of, named_by, placement_on, running, Needle, NeedleView, Placed,
};
use crate::bitte::node::{BitteNodeView, BitteNodes};
use crate::bitte::{BitteCluster, BitteFind};
use crate::error::{Error, ErrorView, QueryView};
use crate::ident::{hyphenated, hyphenated_text};
use crate::search::first_of;

verus! {

/// A placement given by job, task group and index.
#[derive(Debug, PartialEq, Eq)]
pub struct Job {
    pub name: String,
    pub group: String,
    pub index: String,
}

/// SSH to instances
#[derive(Debug)]
pub struct Ssh {
    /// specify client by: job, group, alloc_index;
    /// this will also 'cd' to the alloc dir if <ARGS> is empty
    pub job: Option<Job>,
    /// Nomad namespace to search for jobs with `-j`
    pub namespace: Option<String>,
    /// run <ARGS> on all nodes
    pub all: bool,
    /// run <ARGS> on nodes in parallel
    pub parallel: bool,
    /// for '-a' or '-p': execute commands only on Nomad clients
    pub clients: bool,
    /// the Nomad node class to filter clients against
    pub class: Option<String>,
    /// for '-a': seconds to delay between commands
    pub delay: Option<u64>,
    /// arguments to ssh
    pub args: Vec<String>,
    /// the IP address that the first argument spells, if it spells one
    pub host: Option<IpAddress>,
}

/// What a command that opens remote shells has decided to do.
#[derive(Debug, PartialEq, Eq)]
pub enum SshPlan {
    /// One shell after the other, in the hosts' order, as [`next_step`]
    /// decides: the first that fails ends the sequence, and where a delay is
    /// given, that many seconds pass between two shells.
    Sequence { hosts: Vec<IpAddress>, args: Vec<String>, delay: Option<u64> },
    /// All shells at once, each on its own; every one is waited for.
    Parallel { hosts: Vec<IpAddress>, args: Vec<String> },
    /// One shell.
    Single { host: IpAddress, args: Vec<String> },
}

/// What a [`Job`] holds.
pub struct JobView {
    pub name: Seq<char>,
    pub group: Seq<char>,
    pub index: Seq<char>,
}

/// What an [`Ssh`] holds.
pub struct SshView {
    pub job: Option<JobView>,
    pub namespace: Option<Seq<char>>,
    pub all: bool,
    pub parallel: bool,
    pub clients: bool,
    pub class: Option<Seq<char>>,
    pub delay: Option<u64>,
    pub args: Seq<Seq<char>>,
    pub host: Option<IpAddress>,
}

/// What an [`SshPlan`] holds.
pub enum SshPlanView {
    Sequence { hosts: Seq<IpAddress>, args: Seq<Seq<char>>, delay: Option<u64> },
    Parallel { hosts: Seq<IpAddress>, args: Seq<Seq<char>> },
    Single { host: IpAddress, args: Seq<Seq<char>> },
}

impl View for Job {
    type V = JobView;

    open spec fn view(&self) -> JobView {
        JobView { name: self.name@, group: self.group@, index: self.index@ }
    }
}

impl DeepView for Job {
    type V = JobView;

    open spec fn deep_view(&self) -> JobView {
        self@
    }
}

impl View for Ssh {
    type V = SshView;

    open spec fn view(&self) -> SshView {
        SshView {
            job: self.job.deep_view(),
            namespace: self.namespace.deep_view(),
            all: self.all,
            parallel: self.parallel,
            clients: self.clients,
            class: self.class.deep_view(),
            delay: self.delay,
            args: self.args.deep_view(),
            host: self.host,
        }
    }
}

impl View for SshPlan {
    type V = SshPlanView;

    open spec fn view(&self) -> SshPlanView {
        match self {
            SshPlan::Sequence { hosts, args, delay } => SshPlanView::Sequence {
                hosts: hosts@,
                args: args.deep_view(),
                delay: *delay,
            },
            SshPlan::Parallel { hosts, args } => SshPlanView::Parallel {
                hosts: hosts@,
                args: args.deep_view(),
            },
            SshPlan::Single { host, args } => SshPlanView::Single {
                host: *host,
                args: args.deep_view(),
            },
        }
    }
}

/// The public addresses of `nodes`, in their order.
pub open spec fn public_addresses(nodes: Seq<BitteNodeView>) -> Seq<IpAddress> {
    Seq::new(nodes.len(), |i: int| nodes[i].pub_ip)
}

/// The nodes that a command for many nodes goes to: the client nodes where
/// only those are asked for, else all.
pub open spec fn addressed(opts: SshView, nodes: Seq<BitteNodeView>) -> Seq<BitteNodeView> {
    if opts.clients {
        nodes.filter(client_of(opts.class))
    } else {
        nodes
    }
}

/// The namespace in which a job is looked for.
pub open spec fn namespace_of(opts: SshView) -> Seq<char> {
    match opts.namespace {
        Some(namespace) => namespace,
        None => "default"@,
    }
}

/// The arguments that open a shell in the directory of the allocation `id`.
pub open spec fn enter_allocation(id: u128) -> Seq<Seq<char>> {
    seq!["-t"@, "cd /var/lib/nomad/alloc/"@ + hyphenated_text(id) + " && exec $SHELL"@]
}

/// What the command decides on the nodes `nodes`.
///
/// With `all`, a sequence over the addressed nodes, and with `parallel`
/// shells on all of them at once. With a job, one shell on the first node
/// that runs the placement; without arguments it opens in the directory of
/// the allocation. Otherwise the first argument is the needle of the one
/// node, and the other arguments go to the shell.
pub open spec fn ssh_plan(opts: SshView, nodes: Seq<BitteNodeView>) -> Result<
    SshPlanView,
    ErrorView,
> {
    if opts.all {
        Ok(
            SshPlanView::Sequence {
                hosts: public_addresses(addressed(opts, nodes)),
                args: opts.args,
                delay: opts.delay,
            },
        )
    } else if opts.parallel {
        Ok(
            SshPlanView::Parallel {
                hosts: public_addresses(addressed(opts, nodes)),
                args: opts.args,
            },
        )
    } else if opts.job is Some {
        let job = opts.job->0;
        let placed = Placed {
            job: job.name,
            group: job.group,
            index: job.index,
            namespace: namespace_of(opts),
        };
        match first_of(nodes, running(placed)) {
            Some(node) => Ok(
                SshPlanView::Single {
                    host: node.pub_ip,
                    args: if opts.args.len() == 0 {
                        enter_allocation(placement_on(node, placed)->0.id)
                    } else {
                        opts.args
                    },
                },
            ),
            None => Err(
                ErrorView::NoMatch(
                    QueryView::Placement {
                        job: job.name,
                        group: job.group,
                        index: job.index,
                        namespace: namespace_of(opts),
                    },
                ),
            ),
        }
    } else if opts.args.len() == 0 {
        Err(ErrorView::Usage("first arg must be a host"@))
    } else {
        let needle = NeedleView { text: opts.args[0], addr: opts.host };
        match first_of(nodes, named_by(needle)) {
            Some(node) => Ok(SshPlanView::Single { host: node.pub_ip, args: opts.args.skip(1) }),
            None => Err(ErrorView::NoMatch(QueryView::Needle(opts.args[0]))),
        }
    }
}

/// The public addresses of `nodes`, in their order.
pub fn hosts_of(nodes: &BitteNodes) -> (hosts: Vec<IpAddress>)
    ensures
        hosts@ == public_addresses(nodes.deep_view()),
{
    let mut hosts: Vec<IpAddress> = Vec::new();
    let mut i: usize = 0;
    while i < nodes.len()
        invariant
            i <= nodes.len(),
            hosts@ == public_addresses(nodes.deep_view().take(i as int)),
        decreases nodes.len() - i,
    {
        hosts.push(nodes[i].pub_ip);
        i += 1;
        assert(hosts@ =~= public_addresses(nodes.deep_view().take(i as int)));
    }
    assert(nodes.deep_view().take(nodes.len() as int) =~= nodes.deep_view());
    hosts
}

/// Decides what a command that opens remote shells does on `cluster`.
pub fn ssh(opts: Ssh, cluster: BitteCluster) -> (plan: Result<SshPlan, Error>)
    ensures
        match plan {
            Ok(plan) => ssh_plan(opts@, cluster@.nodes) == Ok::<SshPlanView, ErrorView>(plan@),
            Err(error) => ssh_plan(opts@, cluster@.nodes) == Err::<SshPlanView, ErrorView>(error@),
        },
{
    if opts.all || opts.parallel {
        let nodes = if opts.clients {
            cluster.nodes.find_clients(opts.class)
        } else {
            cluster.nodes
        };
        let hosts = hosts_of(&nodes);
        if opts.all {
            Ok(SshPlan::Sequence { hosts, args: opts.args, delay: opts.delay })
        } else {
            Ok(SshPlan::Parallel { hosts, args: opts.args })
        }
    } else {
        match opts.job {
            Some(job) => {
                let namespace = match opts.namespace {
                    Some(namespace) => namespace,
                    None => String::from_str("default"),
                };
                match cluster.nodes.find_with_job(
                    job.name.as_str(),
                    job.group.as_str(),
                    job.index.as_str(),
                    namespace.as_str(),
                ) {
                    Ok((node, alloc)) => {
                        let args = if opts.args.len() == 0 {
                            let mut enter = String::from_str("cd /var/lib/nomad/alloc/");
                            enter.append(hyphenated(alloc.id).as_str());
                            enter.append(" && exec $SHELL");
                            let mut args: Vec<String> = Vec::new();
                            args.push(String::from_str("-t"));
                            args.push(enter);
                            assert(args.deep_view() =~= enter_allocation(alloc.id));
                            args
                        } else {
                            opts.args
                        };
                        Ok(SshPlan::Single { host: node.pub_ip, args })
                    },
                    Err(error) => Err(error),
                }
            },
            None => {
                let mut args = opts.args;
                if args.len() == 0 {
                    return Err(Error::Usage(String::from_str("first arg must be a host")));
                }
                let ghost given = args.deep_view();
                let first = args.remove(0);
                assert(args.deep_view() =~= given.skip(1));
                let needle = Needle { text: first, addr: opts.host };
                match cluster.nodes.find_needle(&needle) {
                    Ok(node) => Ok(SshPlan::Single { host: node.pub_ip, args }),
                    Err(error) => Err(error),
                }
            },
        }
    }
}

/// What is done next in a sequence of shells.
#[derive(Clone, Copy, Debug, PartialEq, Eq, Structural)]
pub enum SshStep {
    /// Open the shell on this host.
    Run(IpAddress),
    /// Let this many seconds pass.
    Wait(u64),
    /// Every shell has run; the sequence has succeeded.
    Done,
    /// A shell has failed; the sequence ends with its failure, and the
    /// hosts that are left are not visited.
    Abort,
}

/// The next step of a sequence of shells on `hosts` of which the first
/// `done` have run, the last of them with a failure if `last_failed`, and
/// after which the delay has passed if `waited`.
///
/// A failure ends the sequence at once. Without one, the sequence is done
/// when every host has been visited. Where a delay is set, it passes between
/// two shells, once: before every shell but the first, and not behind the
/// last. Otherwise the shell on the next host is opened.
pub open spec fn sequence_step(
    hosts: Seq<IpAddress>,
    delay: Option<u64>,
    done: nat,
    last_failed: bool,
    waited: bool,
) -> SshStep {
    if last_failed {
        SshStep::Abort
    } else if done >= hosts.len() {
        SshStep::Done
    } else if done > 0 && delay is Some && !waited {
        SshStep::Wait(delay->0)
    } else {
        SshStep::Run(hosts[done as int])
    }
}

/// Decides the next step of a sequence of shells on `hosts`: `done` says how
/// many shells have run, `last_failed` whether the last of them failed, and
/// `waited` whether the delay has passed since.
pub fn next_step(
    hosts: &Vec<IpAddress>,
    delay: Option<u64>,
    done: usize,
    last_failed: bool,
    waited: bool,
) -> (step: SshStep)
    ensures
        step == sequence_step(hosts@, delay, done as nat, last_failed, waited),
{
    if last_failed {
        SshStep::Abort
    } else if done >= hosts.len() {
        SshStep::Done
    } else {
        match delay {
            Some(seconds) if done > 0 && !waited => SshStep::Wait(seconds),
            _ => SshStep::Run(hosts[done]),
        }
    }
}

/// How far a sequence of shells has come: how many shells have run, whether
/// the last of them failed, and whether the delay has passed since.
#[derive(Clone, Copy, Debug, PartialEq, Eq, Structural)]
pub struct Progress {
    pub done: usize,
    pub last_failed: bool,
    pub waited: bool,
}

/// How far a sequence on `hosts` has come after its next step was taken from
/// `progress`; `succeeded` says how the shell ended if the step opened one.
/// A shell that has run counts as done, and fails the sequence if it failed;
/// a delay that has passed is noted; a sequence that is over stays as it is.
pub open spec fn progress_after(
    hosts: Seq<IpAddress>,
    delay: Option<u64>,
    progress: Progress,
    succeeded: bool,
) -> Progress {
    match sequence_step(
        hosts,
        delay,
        progress.done as nat,
        progress.last_failed,
        progress.waited,
    ) {
        SshStep::Run(_) => Progress {
            done: (progress.done + 1) as usize,
            last_failed: !succeeded,
            waited: false,
        },
        SshStep::Wait(_) => Progress { waited: true, ..progress },
        _ => progress,
    }
}

impl Progress {
    /// A sequence of which nothing has run.
    pub fn start() -> (progress: Progress)
        ensures
            progress == (Progress { done: 0, last_failed: false, waited: false }),
    {
        Progress { done: 0, last_failed: false, waited: false }
    }

    /// The next step of the sequence on `hosts`.
    pub fn next(&self, hosts: &Vec<IpAddress>, delay: Option<u64>) -> (step: SshStep)
        ensures
            step == sequence_step(hosts@, delay, self.done as nat, self.last_failed, self.waited),
    {
        next_step(hosts, delay, self.done, self.last_failed, self.waited)
    }

    /// Notes that the next step of the sequence on `hosts` was taken;
    /// `succeeded` says how the shell ended if the step opened one.
    pub fn advance(self, hosts: &Vec<IpAddress>, delay: Option<u64>, succeeded: bool) -> (after:
        Progress)
        ensures
            after == progress_after(hosts@, delay, self, succeeded),
            after.done as int == if self.next_opens(hosts@, delay) {
                self.done + 1
            } else {
                self.done as int
            },
    {
        match next_step(hosts, delay, self.done, self.last_failed, self.waited) {
            SshStep::Run(_) => {
                assert(self.done < hosts.len());
                Progress { done: self.done + 1, last_failed: !succeeded, waited: false }
            },
            SshStep::Wait(_) => Progress {
                done: self.done,
                last_failed: self.last_failed,
                waited: true,
            },
            _ => self,
        }
    }

    /// Whether the next step of the sequence on `hosts` opens a shell.
    pub open spec fn next_opens(self, hosts: Seq<IpAddress>, delay: Option<u64>) -> bool {
        sequence_step(hosts, delay, self.done as nat, self.last_failed, self.waited) is Run
    }
}

/// In a sequence no shell is opened after a failure, the shells are opened
/// on the hosts in their order, and the delay passes only between two
/// shells: never before the first, never behind the last, and not twice in
/// a row.
pub proof fn lemma_sequence_step(
    hosts: Seq<IpAddress>,
    delay: Option<u64>,
    done: nat,
    last_failed: bool,
    waited: bool,
)
    ensures
        last_failed <==> sequence_step(hosts, delay, done, last_failed, waited) == SshStep::Abort,
        sequence_step(hosts, delay, done, last_failed, waited) == SshStep::Done <==> !last_failed
            && done >= hosts.len(),
        sequence_step(hosts, delay, done, last_failed, waited) matches SshStep::Run(host) ==> done
            < hosts.len() && host == hosts[done as int] && (done == 0 || delay is None || waited),
        sequence_step(hosts, delay, done, last_failed, waited) matches SshStep::Wait(seconds) ==> 0
            < done < hosts.len() && delay == Some(seconds) && !waited,
        sequence_step(hosts, delay, done, false, true) is Run <==> done < hosts.len(),
{
}

/// Where the private key of the cluster `cluster` is kept.
pub open spec fn key_path(cluster: Seq<char>) -> Seq<char> {
    "secrets/ssh-"@ + cluster
}

/// The arguments of the shell on the host `host` of the cluster `cluster`:
/// no display forwarding, port 22, the cluster's key where there is one, new
/// host keys accepted, the root user on the host, then `args`.
pub open spec fn shell_arguments(
    host: Seq<char>,
    args: Seq<Seq<char>>,
    cluster: Seq<char>,
    with_key: bool,
) -> Seq<Seq<char>> {
    seq!["-x"@, "-p"@, "22"@] + (if with_key {
        seq!["-i"@, key_path(cluster)]
    } else {
        Seq::empty()
    }) + seq!["-o"@, "StrictHostKeyChecking=accept-new"@, "root@"@ + host] + args
}

/// Names the file in which the private key of the cluster `cluster` is kept.
pub fn ssh_key_path(cluster: &str) -> (path: String)
    ensures
        path@ == key_path(cluster@),
{
    let mut path = String::from_str("secrets/ssh-");
    path.append(cluster);
    path
}

/// Builds the arguments of the shell on the host `host` of the cluster
/// `cluster`; `with_key` says whether the cluster's key is there.
pub fn init_ssh(host: &str, args: &Vec<String>, cluster: &str, with_key: bool) -> (flags: Vec<
    String,
>)
    ensures
        flags.deep_view() == shell_arguments(host@, args.deep_view(), cluster@, with_key),
{
    let mut flags: Vec<String> = Vec::new();
    flags.push(String::from_str("-x"));
    flags.push(String::from_str("-p"));
    flags.push(String::from_str("22"));
    if with_key {
        flags.push(String::from_str("-i"));
        flags.push(ssh_key_path(cluster));
    }
    flags.push(String::from_str("-o"));
    flags.push(String::from_str("StrictHostKeyChecking=accept-new"));
    let mut user_host = String::from_str("root@");
    user_host.append(host);
    flags.push(user_host);
    let ghost fixed = flags.deep_view();
    assert(fixed =~= shell_arguments(host@, Seq::empty(), cluster@, with_key));
    let mut i: usize = 0;
    while i < args.len()
        invariant
            i <= args.len(),
            flags.deep_view() == fixed + args.deep_view().take(i as int),
        decreases args.len() - i,
    {
        let ghost before = flags.deep_view();
        let next = args[i].clone();
        flags.push(next);
        proof {
            assert(flags.deep_view() =~= before.push(next@));
            assert(args.deep_view().take(i + 1) =~= args.deep_view().take(i as int).push(next@));
        }
        i += 1;
    }
    assert(args.deep_view().take(args.len() as int) =~= args.deep_view());
    assert(flags.deep_view() =~= shell_arguments(host@, args.deep_view(), cluster@, with_key));
    flags
}

} // verus!
