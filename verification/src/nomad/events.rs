//! Records of the scheduler's event stream.

use vstd::prelude::*;
use vstd::string::*;

verus! {

/// The state of one task of an allocation, with the events that led to it.
#[derive(Debug)]
pub struct TaskState {
    pub state: String,
    pub failed: bool,
    pub restarts: i64,
    pub last_restart: String,
    pub started_at: String,
    pub finished_at: String,
    pub events: Vec<Event>,
}

/// A port that was given to an allocation.
#[derive(Debug)]
pub struct Port {
    pub label: String,
    pub value: i64,
    pub to: i64,
    pub host_network: Option<String>,
    pub host_ip: Option<String>,
}

/// One event in the life of a task.
#[derive(Debug)]
pub struct Event {
    pub event_type: String,
    pub time: i64,
    pub message: String,
    pub display_message: String,
    pub details: Details,
    pub fails_task: bool,
    pub restart_reason: String,
    pub setup_error: String,
    pub driver_error: String,
    pub exit_code: i64,
    pub signal: i64,
    pub kill_timeout: i64,
    pub kill_error: String,
    pub kill_reason: String,
    pub start_delay: i64,
    pub download_error: String,
    pub validation_error: String,
    pub disk_limit: i64,
    pub failed_sibling: String,
    pub vault_error: String,
    pub task_signal_reason: String,
    pub task_signal: String,
    pub driver_message: String,
    pub generic_source: String,
}

/// The share of processor time given to a task.
#[derive(Debug)]
pub struct Cpu {
    pub cpu_shares: i64,
}

/// The memory given to a task.
#[derive(Debug)]
pub struct Memory {
    pub memory_mb: i64,
}

/// The free-form details of a task event.
#[derive(Debug)]
pub struct Details {
    pub exit_code: Option<String>,
    pub exit_message: Option<String>,
    pub failed_sibling: Option<String>,
    pub fails_task: Option<String>,
    pub image: Option<String>,
    pub kill_timeout: Option<String>,
    pub message: Option<String>,
    pub oom_killed: Option<String>,
    pub restart_reason: Option<String>,
    pub signal: Option<String>,
    pub start_delay: Option<String>,
}

/// The health of an allocation as its deployment sees it.
#[derive(Debug)]
pub struct DeploymentStatus {
    pub healthy: bool,
    pub timestamp: String,
    pub canary: bool,
    pub modify_index: i64,
}

/// How often a placement failed for want of a resource.
#[derive(Debug)]
pub struct DimensionExhausted {
    pub memory: i64,
}

/// The number of nodes available in each datacenter.
#[derive(Debug)]
pub struct NodesAvailable {
    pub eu_central_1: i64,
    pub us_east_2: i64,
}

/// The reschedule attempts of an allocation.
#[derive(Debug)]
pub struct RescheduleTracker {
    pub events: Vec<RescheduleTrackerEvent>,
}

/// One reschedule attempt of an allocation.
#[derive(Debug)]
pub struct RescheduleTrackerEvent {
    pub reschedule_time: i64,
    pub prev_alloc_id: String,
    pub prev_node_id: String,
    pub delay: i64,
}

/// The allocations of each task group that wait to be placed.
#[derive(Debug)]
pub struct QueuedAllocations {
    pub mantis: Option<i64>,
    pub explorer: Option<i64>,
}

/// A constraint on the nodes that may run a task group.
#[derive(Debug)]
pub struct Constraint {
    pub l_target: String,
    pub r_target: String,
    pub operand: String,
}

/// The ephemeral disk of a task group.
#[derive(Debug)]
pub struct EphemeralDisk {
    pub sticky: bool,
    pub size_mb: i64,
    pub migrate: bool,
}

/// How the allocations of a task group are migrated.
#[derive(Debug)]
pub struct Migrate {
    pub max_parallel: i64,
    pub health_check: HealthCheck,
    pub min_healthy_time: i64,
    pub healthy_deadline: i64,
}

/// How the allocations of a task group are rescheduled.
#[derive(Debug)]
pub struct ReschedulePolicy {
    pub attempts: i64,
    pub interval: i64,
    pub delay: i64,
    pub delay_function: DelayFunction,
    pub max_delay: i64,
    pub unlimited: bool,
}

/// How the tasks of a task group are restarted.
#[derive(Debug)]
pub struct RestartPolicy {
    pub attempts: i64,
    pub interval: i64,
    pub delay: i64,
    pub mode: RestartPolicyMode,
}

/// When a failing health check restarts its task.
#[derive(Debug)]
pub struct CheckRestart {
    pub limit: i64,
    pub grace: i64,
    pub ignore_warnings: bool,
}

/// The schedule of a periodic job.
#[derive(Debug)]
pub struct Periodic {
    pub enabled: bool,
    pub time_zone: String,
    pub spec_type: String,
    pub spec: String,
    pub prohibit_overlap: bool,
}

/// The driver configuration of a task.
#[derive(Debug)]
pub struct Config {
    pub args: Option<Vec<String>>,
    pub command: Option<String>,
    pub flake: Option<String>,
}

/// How the logs of a task are rotated.
#[derive(Debug)]
pub struct LogConfig {
    pub max_files: i64,
    pub max_file_size_mb: i64,
}

/// A template that is rendered into a task.
#[derive(Debug)]
pub struct Template {
    pub source_path: String,
    pub dest_path: String,
    pub embedded_tmpl: String,
    pub change_mode: ChangeMode,
    pub change_signal: String,
    pub splay: i64,
    pub perms: String,
    pub left_delim: String,
    pub right_delim: String,
    pub envvars: bool,
    pub vault_grace: i64,
}

/// The access of a task to the secret store.
#[derive(Debug)]
pub struct Vault {
    pub policies: Vec<String>,
    pub namespace: String,
    pub env: bool,
    pub change_mode: ChangeMode,
    pub change_signal: String,
}

/// How a job is updated.
#[derive(Debug)]
pub struct Update {
    pub stagger: i64,
    pub max_parallel: i64,
    pub health_check: HealthCheck,
    pub min_healthy_time: i64,
    pub healthy_deadline: i64,
    pub progress_deadline: i64,
    pub auto_revert: bool,
    pub auto_promote: bool,
    pub canary: i64,
}

/// The kinds of event in the event stream.
#[derive(Debug, Clone, Copy, PartialEq, Eq, Structural)]
pub enum NomadEventType {
    AllocationUpdateDesiredStatus,
    AllocationUpdated,
    DeploymentStatusUpdate,
    EvaluationUpdated,
    JobRegistered,
    PlanResult,
}

/// The modes of a network.
#[derive(Debug)]
pub enum Mode {
    Bridge,
    Host,
}

/// The states of a task or of a job.
#[derive(Debug)]
pub enum Stat {
    Dead,
    Pending,
    Running,
}

/// What a client says of an allocation.
#[derive(Debug)]
pub enum ClientDescription {
    AllTasksHaveCompleted,
    Empty,
    FailedTasks,
    NoTasksHaveStarted,
    TasksAreRunning,
}

/// The states of an allocation on its client.
#[derive(Debug)]
pub enum Status {
    Complete,
    Failed,
    Pending,
    Running,
}

/// Why the scheduler wants an allocation in a state.
#[derive(Debug)]
pub enum DesiredDescription {
    AllocIsBeingUpdatedDueToJobUpdate,
    AllocIsLostSinceItsNodeIsDown,
    AllocNotNeededDueToJobUpdate,
    AllocWasRescheduledBecauseItFailed,
    Empty,
}

/// The states in which the scheduler wants an allocation.
#[derive(Debug)]
pub enum DesiredStatus {
    Run,
    Stop,
}

/// The states of a deployment.
#[derive(Debug)]
pub enum DeploymentStatusEnum {
    Failed,
    Running,
    Successful,
}

/// What the scheduler says of a deployment.
#[derive(Debug)]
pub enum DeploymentStatusDescription {
    DeploymentCompletedSuccessfully,
    DeploymentIsRunning,
    FailedDueToProgressDeadline,
}

/// The kinds of evaluation.
#[derive(Debug)]
pub enum EvaluationType {
    Service,
    Batch,
}

/// What the scheduler says of an evaluation.
#[derive(Debug)]
pub enum EvaluationStatusDescription {
    CreatedForDelayedRescheduling,
    Empty,
}

/// What triggered an evaluation.
#[derive(Debug)]
pub enum TriggeredBy {
    AllocFailure,
    DeploymentWatcher,
    JobRegister,
    NodeUpdate,
}

/// How the health of an updated allocation is found.
#[derive(Debug)]
pub enum HealthCheck {
    Checks,
    Empty,
}

/// How the delay between reschedule attempts grows.
#[derive(Debug)]
pub enum DelayFunction {
    Exponential,
}

/// What happens when the restarts of a task are used up.
#[derive(Debug)]
pub enum RestartPolicyMode {
    Fail,
}

/// How the address of a service is chosen.
#[derive(Debug)]
pub enum AddressMode {
    Auto,
    Host,
}

/// The kinds of health check.
#[derive(Debug)]
pub enum Type {
    Http,
    Tcp,
}

/// The drivers that run tasks.
#[derive(Debug)]
pub enum Driver {
    Exec,
    Docker,
}

/// What a task does when its template changes.
#[derive(Debug)]
pub enum ChangeMode {
    Noop,
    Signal,
    Restart,
}

/// The topics of the event stream.
#[derive(Debug, Clone, Copy, PartialEq, Eq, Structural)]
pub enum Topic {
    Allocation,
    Deployment,
    Evaluation,
    Job,
}

impl Topic {
    /// The topic's name as it is written.
    pub open spec fn spec_name(self) -> Seq<char> {
        match self {
            Topic::Allocation => "Allocation"@,
            Topic::Deployment => "Deployment"@,
            Topic::Evaluation => "Evaluation"@,
            Topic::Job => "Job"@,
        }
    }

    /// The topic's name as it is written.
    pub fn name(&self) -> (text: String)
        ensures
            text@ == self.spec_name(),
    {
        match self {
            Topic::Allocation => String::from_str("Allocation"),
            Topic::Deployment => String::from_str("Deployment"),
            Topic::Evaluation => String::from_str("Evaluation"),
            Topic::Job => String::from_str("Job"),
        }
    }
}

impl NomadEventType {
    /// The kind's name as it is written.
    pub open spec fn spec_name(self) -> Seq<char> {
        match self {
            NomadEventType::AllocationUpdateDesiredStatus => "AllocationUpdateDesiredStatus"@,
            NomadEventType::AllocationUpdated => "AllocationUpdated"@,
            NomadEventType::DeploymentStatusUpdate => "DeploymentStatusUpdate"@,
            NomadEventType::EvaluationUpdated => "EvaluationUpdated"@,
            NomadEventType::JobRegistered => "JobRegistered"@,
            NomadEventType::PlanResult => "PlanResult"@,
        }
    }

    /// The kind's name as it is written.
    pub fn name(&self) -> (text: String)
        ensures
            text@ == self.spec_name(),
    {
        match self {
            NomadEventType::AllocationUpdateDesiredStatus => String::from_str(
                "AllocationUpdateDesiredStatus",
            ),
            NomadEventType::AllocationUpdated => String::from_str("AllocationUpdated"),
            NomadEventType::DeploymentStatusUpdate => String::from_str("DeploymentStatusUpdate"),
            NomadEventType::EvaluationUpdated => String::from_str("EvaluationUpdated"),
            NomadEventType::JobRegistered => String::from_str("JobRegistered"),
            NomadEventType::PlanResult => String::from_str("PlanResult"),
        }
    }
}

/// What an event says of its subject: the job of the allocation, of the
/// evaluation or of the deployment that it is about, or the name of the job.
#[derive(Debug)]
pub struct Payload {
    pub allocation: Option<String>,
    pub evaluation: Option<String>,
    pub job: Option<String>,
    pub deployment: Option<String>,
}

/// One event of the stream.
#[derive(Debug)]
pub struct EventsSortedEvent {
    pub topic: Topic,
    pub event_type: NomadEventType,
    pub key: String,
    pub namespace: String,
    pub filter_keys: Option<Vec<String>>,
    pub index: i64,
    pub payload: Payload,
}

/// A batch of events of the stream.
#[derive(Debug)]
pub struct NomadEvent {
    pub index: Option<i64>,
    pub events: Option<Vec<EventsSortedEvent>>,
}

/// What a [`Payload`] holds.
pub struct PayloadView {
    pub allocation: Option<Seq<char>>,
    pub evaluation: Option<Seq<char>>,
    pub job: Option<Seq<char>>,
    pub deployment: Option<Seq<char>>,
}

/// What an [`EventsSortedEvent`] holds.
pub struct EventView {
    pub topic: Topic,
    pub event_type: NomadEventType,
    pub key: Seq<char>,
    pub namespace: Seq<char>,
    pub filter_keys: Option<Seq<Seq<char>>>,
    pub index: i64,
    pub payload: PayloadView,
}

/// What a [`NomadEvent`] holds.
pub struct NomadEventView {
    pub index: Option<i64>,
    pub events: Option<Seq<EventView>>,
}

impl View for Payload {
    type V = PayloadView;

    open spec fn view(&self) -> PayloadView {
        PayloadView {
            allocation: self.allocation.deep_view(),
            evaluation: self.evaluation.deep_view(),
            job: self.job.deep_view(),
            deployment: self.deployment.deep_view(),
        }
    }
}

impl View for EventsSortedEvent {
    type V = EventView;

    open spec fn view(&self) -> EventView {
        EventView {
            topic: self.topic,
            event_type: self.event_type,
            key: self.key@,
            namespace: self.namespace@,
            filter_keys: self.filter_keys.deep_view(),
            index: self.index,
            payload: self.payload@,
        }
    }
}

impl DeepView for EventsSortedEvent {
    type V = EventView;

    open spec fn deep_view(&self) -> EventView {
        self@
    }
}

/// The indented line that gives `value` under `label`, after an empty line;
/// nothing where there is no value.
pub open spec fn subject_line(label: Seq<char>, value: Option<Seq<char>>) -> Seq<char> {
    match value {
        Some(value) => "\n    "@ + label + ": "@ + value + "\n"@,
        None => Seq::empty(),
    }
}

impl PayloadView {
    /// The payload in words: a line for each subject that it has.
    pub open spec fn text(self) -> Seq<char> {
        subject_line("JobID"@, self.allocation) + subject_line("JobID"@, self.evaluation)
            + subject_line("Name"@, self.job) + subject_line("JobID"@, self.deployment)
    }
}

impl EventView {
    /// The event in words: its topic, namespace, key, kind and payload, a
    /// line each. Its index and its filter keys are not put into words.
    pub open spec fn text(self) -> Seq<char> {
        "Topic: "@ + self.topic.spec_name() + "\n"@ + "  Namespace: "@ + self.namespace + "\n"@
            + "  Key: "@ + self.key + "\n"@ + "  Type: "@ + self.event_type.spec_name() + "\n"@
            + "  Payload: "@ + self.payload.text() + "\n"@
    }
}

/// The events in words, one after the other.
pub open spec fn events_text(events: Seq<EventView>) -> Seq<char>
    decreases events.len(),
{
    if events.len() == 0 {
        Seq::empty()
    } else {
        events_text(events.drop_last()) + events.last().text()
    }
}

/// Puts a subject of a payload into words.
fn write_subject(text: &mut String, label: &str, value: &Option<String>)
    ensures
        final(text)@ == old(text)@ + subject_line(label@, value.deep_view()),
{
    match value {
        Some(value) => {
            let ghost before = text@;
            text.append("\n    ");
            text.append(label);
            text.append(": ");
            text.append(value.as_str());
            text.append("\n");
            assert(text@ =~= before + ("\n    "@ + label@ + ": "@ + value@ + "\n"@));
        },
        None => {
            assert(text@ =~= text@ + Seq::<char>::empty());
        },
    }
}

impl Payload {
    /// The payload in words.
    pub fn text(&self) -> (text: String)
        ensures
            text@ == self@.text(),
    {
        let mut text = String::new();
        write_subject(&mut text, "JobID", &self.allocation);
        write_subject(&mut text, "JobID", &self.evaluation);
        write_subject(&mut text, "Name", &self.job);
        write_subject(&mut text, "JobID", &self.deployment);
        assert(text@ =~= self@.text());
        text
    }
}

impl EventsSortedEvent {
    /// The event in words.
    pub fn text(&self) -> (text: String)
        ensures
            text@ == self@.text(),
    {
        let mut text = String::from_str("Topic: ");
        text.append(self.topic.name().as_str());
        text.append("\n");
        text.append("  Namespace: ");
        text.append(self.namespace.as_str());
        text.append("\n");
        text.append("  Key: ");
        text.append(self.key.as_str());
        text.append("\n");
        text.append("  Type: ");
        text.append(self.event_type.name().as_str());
        text.append("\n");
        text.append("  Payload: ");
        text.append(self.payload.text().as_str());
        text.append("\n");
        text
    }
}

impl View for NomadEvent {
    type V = NomadEventView;

    open spec fn view(&self) -> NomadEventView {
        NomadEventView { index: self.index, events: self.events.deep_view() }
    }
}

impl NomadEventView {
    /// The batch in words: its events, one after the other; nothing where
    /// the batch holds no list. The index of the batch, and the index and
    /// the filter keys of its events, are not put into words.
    pub open spec fn text(self) -> Seq<char> {
        match self.events {
            Some(events) => events_text(events),
            None => Seq::empty(),
        }
    }
}

impl NomadEvent {
    /// The batch in words.
    pub fn text(&self) -> (text: String)
        ensures
            text@ == self@.text(),
    {
        let mut text = String::new();
        match &self.events {
            Some(events) => {
                let mut i: usize = 0;
                proof {
                    assert(events.deep_view().take(0) =~= Seq::<EventView>::empty());
                }
                while i < events.len()
                    invariant
                        i <= events.len(),
                        text@ == events_text(events.deep_view().take(i as int)),
                    decreases events.len() - i,
                {
                    proof {
                        let upto = events.deep_view().take(i + 1);
                        assert(upto.drop_last() =~= events.deep_view().take(i as int));
                        assert(upto.last() == events[i as int]@);
                    }
                    text.append(events[i].text().as_str());
                    i += 1;
                }
                proof {
                    assert(events.deep_view().take(events.len() as int) =~= events.deep_view());
                }
            },
            None => {},
        }
        text
    }
}

} // verus!
