//! The automaton that moves a pipeline toward its desired state.
//!
//! The automaton does nothing itself: it says what to do next, and takes what came
//! of it.  It polls the runtime state of the pipeline, compares the state that the
//! pipeline is in with the one it is meant to be in, looks at the process where
//! that is needed, and saves the state that the pipeline is then in.

use crate::pipeline_manager::error::{
    errors_say_all_of_themselves, same_db_error, same_failure, same_response, Cause, DbError, DbFault, ErrorResponse, Failure, ManagerError, ManagerFault, PipelineStatus,
    ResponseView, RunnerError, RunnerFault,
};
use crate::pipeline_manager::ids::{PipelineId, TenantId};
use crate::pipeline_manager::state::{cause_of, PipelineRuntimeState, StateView};
use crate::text::{
    cat3, cat4, nat_text, parse_port, port_value, trim, trimmed, NumberError,
};
use actix_web::http::StatusCode;
use chrono::Utc;
use vstd::prelude::*;

verus! {

/// How often, in milliseconds, to poll the pipeline during normal operation, when
/// its state is not normally expected to change.
pub const DEFAULT_PIPELINE_POLL_PERIOD: u64 = 10_000;

/// How long to wait for the pipeline process to initialize its HTTP server.
pub const PROVISIONING_TIMEOUT: u64 = 10_000;

/// How often to check for the pipeline port file during the provisioning phase.
pub const PROVISIONING_POLL_PERIOD: u64 = 300;

/// How long to wait for the pipeline to initialize all connectors.
pub const INITIALIZATION_TIMEOUT: u64 = 20_000;

/// How often to poll for the pipeline initialization status.
pub const INITIALIZATION_POLL_PERIOD: u64 = 300;

/// How long to wait for the pipeline process to exit.
pub const SHUTDOWN_TIMEOUT: u64 = 3_000;

/// How often to poll for the pipeline process to exit.
pub const SHUTDOWN_POLL_PERIOD: u64 = 300;

/// More than `timeout` milliseconds have gone by since `since`.
pub open spec fn expired(now: i64, since: i64, timeout: u64) -> bool {
    now - since > timeout
}

/// Whether more than `timeout` milliseconds have gone by since `since`.
pub fn timeout_expired_at(now: i64, since: i64, timeout: u64) -> (r: bool)
    ensures
        r == expired(now, since, timeout),
{
    now as i128 - since as i128 > timeout as i128
}

/// Calls `chrono::Utc::now`, for the time of the machine in milliseconds.
#[verifier::external_body]
fn now_millis() -> i64 {
    Utc::now().timestamp_millis()
}

/// Whether more than `timeout` milliseconds have gone by since `since`, at the
/// time of the call.
pub fn timeout_expired(since: i64, timeout: u64) -> (r: bool)
    ensures
        exists|now: i64| r == #[trigger] expired(now, since, timeout),
{
    timeout_expired_at(now_millis(), since, timeout)
}

/// How the HTTP library shows a status.
pub uninterp spec fn status_shown(status: u16) -> Seq<char>;

/// Shows an HTTP status by the `Display` of `actix_web::http::StatusCode`, which
/// has the codes from 100 to 999: the code, a space, and what the code stands for.
#[verifier::external_body]
fn status_text(status: u16) -> (r: String)
    requires
        100 <= status < 1000,
    ensures
        r@ == status_shown(status),
        exists|reason: Seq<char>| r@ == #[trigger] (nat_text(status as nat) + " "@ + reason),
{
    StatusCode::from_u16(status).unwrap().to_string()
}

/// The status tells of success.
pub open spec fn is_success(status: u16) -> bool {
    200 <= status < 300
}

/// What a pipeline answers to a request.
#[derive(Debug, Clone)]
pub struct Reply {
    /// The HTTP status.
    pub status: u16,
    /// The body, where it has the form of an error response.
    pub error: Option<ErrorResponse>,
    /// The state that the body reports in its global metrics.
    pub state: Option<String>,
    /// The body as indented JSON.
    pub body: String,
}

/// What a pipeline answers, its texts as characters.
pub struct ReplyView {
    pub status: u16,
    pub error: Option<ResponseView>,
    pub state: Seq<char>,
    pub body: Seq<char>,
}

impl View for Reply {
    type V = ReplyView;

    open spec fn view(&self) -> ReplyView {
        ReplyView {
            status: self.status,
            error: match self.error {
                Some(response) => Some(response@),
                None => None,
            },
            state: match self.state {
                Some(state) => state@,
                None => Seq::empty(),
            },
            body: self.body@,
        }
    }
}

/// What to look at, and for what, in a pair of states.
#[derive(Debug, Clone, Copy, PartialEq, Eq, Structural)]
pub enum Probe {
    /// Start a process.
    Provision,
    /// The port file.
    PortFile,
    /// Kill the process.
    Kill,
    /// The statistics, for whether the pipeline is initialized.
    Initialization,
    /// The answer to a request to run.
    Start,
    /// The answer to a request to pause.
    Pause,
    /// The answer to a request to shut down.
    Shutdown,
    /// Whether the process has exited.
    Exit,
    /// The statistics, for the state that the pipeline reports.
    Monitor,
    /// Forget about the failure.
    Clear,
    /// Nothing.
    Idle,
}

/// What to look at when a pipeline is in one state and meant to be in another.
pub open spec fn probe_for(current: PipelineStatus, desired: PipelineStatus) -> Probe {
    let up = desired == PipelineStatus::Running || desired == PipelineStatus::Paused;
    let down = desired == PipelineStatus::Shutdown;
    match current {
        PipelineStatus::Shutdown => if down {
            Probe::Idle
        } else {
            Probe::Provision
        },
        PipelineStatus::Provisioning => if up {
            Probe::PortFile
        } else if down {
            Probe::Kill
        } else {
            Probe::Idle
        },
        PipelineStatus::Initializing => if up {
            Probe::Initialization
        } else if down {
            Probe::Kill
        } else {
            Probe::Idle
        },
        PipelineStatus::Paused => if desired == PipelineStatus::Running {
            Probe::Start
        } else if down {
            Probe::Shutdown
        } else {
            Probe::Monitor
        },
        PipelineStatus::Running => if desired == PipelineStatus::Paused {
            Probe::Pause
        } else if down {
            Probe::Shutdown
        } else {
            Probe::Monitor
        },
        PipelineStatus::ShuttingDown => Probe::Exit,
        PipelineStatus::Failed => if down {
            Probe::Clear
        } else {
            Probe::Idle
        },
    }
}

/// What follows from what was seen.
pub enum Finding {
    /// The pipeline has entered a state.
    Entered(PipelineStatus),
    /// The process listens to a port.
    Listening(u16),
    /// The process has to be killed.
    Broken(Cause),
    /// Look again after so many milliseconds.
    Pending(u64),
    /// The process has exited.
    Exited,
}

/// An error of the runner as the cause of a failure.
pub open spec fn caused(fault: RunnerFault) -> Cause {
    Cause::Manager(ManagerFault::Runner(fault))
}

/// What follows from the port file, whose contents are absent where it cannot be
/// read.
pub open spec fn port_finding(
    id: PipelineId,
    contents: Option<Seq<char>>,
    since: i64,
    now: i64,
) -> Finding {
    match contents {
        Some(text) => match port_value(trimmed(text)) {
            Ok(port) => Finding::Listening(port as u16),
            Err(e) => Finding::Broken(caused(RunnerFault::PortFileParse(id, e.message()))),
        },
        None => if expired(now, since, PROVISIONING_TIMEOUT) {
            Finding::Broken(caused(RunnerFault::ProvisioningTimeout(id, PROVISIONING_TIMEOUT)))
        } else {
            Finding::Pending(PROVISIONING_POLL_PERIOD)
        },
    }
}

/// The cause of a failure that a pipeline answered with: the error response in the
/// body, or else the status and the body.
pub open spec fn reported(id: PipelineId, reply: ReplyView) -> Cause {
    match reply.error {
        Some(response) => Cause::Reported(response),
        None => caused(RunnerFault::HttpForward(id, unexpected(
            status_shown(reply.status),
            reply.body,
        ))),
    }
}

/// The message about a response that is no error response.
pub open spec fn unexpected(status: Seq<char>, body: Seq<char>) -> Seq<char> {
    "Pipeline returned HTTP status "@ + status + ", response body:"@ + body
}

/// What follows from the answer to a request.
pub open spec fn reply_finding(
    probe: Probe,
    id: PipelineId,
    answer: Result<ReplyView, Seq<char>>,
    since: i64,
    now: i64,
) -> Finding {
    match answer {
        Err(error) => Finding::Broken(caused(RunnerFault::HttpForward(id, error))),
        Ok(reply) => if is_success(reply.status) {
            match probe {
                Probe::Start => Finding::Entered(PipelineStatus::Running),
                Probe::Shutdown => Finding::Entered(PipelineStatus::ShuttingDown),
                Probe::Monitor => if reply.state == "Paused"@ {
                    Finding::Entered(PipelineStatus::Paused)
                } else if reply.state == "Running"@ {
                    Finding::Entered(PipelineStatus::Running)
                } else {
                    Finding::Broken(
                        caused(
                            RunnerFault::HttpForward(
                                id,
                                "Pipeline reported unexpected status '"@ + reply.state
                                    + "', expected 'Paused' or 'Running'"@,
                            ),
                        ),
                    )
                },
                _ => Finding::Entered(PipelineStatus::Paused),
            }
        } else if probe == Probe::Initialization && reply.status == 503 {
            if expired(now, since, INITIALIZATION_TIMEOUT) {
                Finding::Broken(
                    caused(RunnerFault::InitializationTimeout(id, INITIALIZATION_TIMEOUT)),
                )
            } else {
                Finding::Pending(INITIALIZATION_POLL_PERIOD)
            }
        } else {
            Finding::Broken(reported(id, reply))
        },
    }
}

/// What follows from whether the process has exited.
pub open spec fn exit_finding(id: PipelineId, exited: bool, since: i64, now: i64) -> Finding {
    if exited {
        Finding::Exited
    } else if expired(now, since, SHUTDOWN_TIMEOUT) {
        Finding::Broken(caused(RunnerFault::ShutdownTimeout(id, SHUTDOWN_TIMEOUT)))
    } else {
        Finding::Pending(SHUTDOWN_POLL_PERIOD)
    }
}

/// The state of a pipeline whose process was killed: it is shut down where it is
/// meant to be so, and failed otherwise.
pub open spec fn killed(state: StateView, error: Option<Cause>, now: i64) -> StateView {
    if state.desired == PipelineStatus::Shutdown {
        state.entering(PipelineStatus::Shutdown, error, now)
    } else {
        state.entering(PipelineStatus::Failed, error, now)
    }
}

/// Where the automaton is, its texts as characters.
pub enum PhaseView {
    Waiting(u64),
    Reading,
    Committing(StateView),
    Provisioning(StateView),
    Launching(StateView),
    Probing(Probe, StateView),
    Saving(StateView, bool),
    Stopped(ManagerFault),
}

/// Where a poll of the given state starts.
pub open spec fn examined(state: StateView, now: i64) -> PhaseView {
    let probe = probe_for(state.current, state.desired);
    match probe {
        Probe::Provision => PhaseView::Committing(
            state.entering(PipelineStatus::Provisioning, None, now),
        ),
        Probe::Kill => PhaseView::Saving(killed(state, None, now), true),
        Probe::Clear => PhaseView::Saving(
            state.entering(PipelineStatus::Shutdown, state.error, now),
            false,
        ),
        Probe::Idle => PhaseView::Waiting(DEFAULT_PIPELINE_POLL_PERIOD),
        _ => PhaseView::Probing(probe, state),
    }
}

/// How a poll goes on after a finding.
pub open spec fn concluded(state: StateView, finding: Finding, now: i64) -> PhaseView {
    match finding {
        Finding::Entered(status) => PhaseView::Saving(state.entering(status, None, now), false),
        Finding::Listening(port) => PhaseView::Saving(
            StateView {
                port,
                created: now,
                ..state.entering(PipelineStatus::Initializing, None, now)
            },
            false,
        ),
        Finding::Broken(cause) => PhaseView::Saving(killed(state, Some(cause), now), true),
        Finding::Pending(millis) => PhaseView::Waiting(millis),
        Finding::Exited => PhaseView::Saving(
            state.entering(PipelineStatus::Shutdown, None, now),
            true,
        ),
    }
}

/// The probes that send a request.
pub open spec fn is_request(probe: Probe) -> bool {
    match probe {
        Probe::Initialization | Probe::Start | Probe::Pause | Probe::Shutdown | Probe::Monitor => {
            true
        },
        _ => false,
    }
}

/// What came of an action, its texts as characters.
pub enum EventView {
    Woken,
    State(Result<StateView, DbFault>),
    Revision(Result<(), DbFault>),
    Saved(Result<(), DbFault>),
    Launched(Result<(), ManagerFault>),
    PortFile(Option<Seq<char>>),
    Response(Result<ReplyView, Seq<char>>),
    Process(bool),
}

/// Where the automaton goes on; what came of something else than the action at
/// hand leaves it where it is.
pub open spec fn next_phase(
    id: PipelineId,
    phase: PhaseView,
    event: EventView,
    now: i64,
) -> PhaseView {
    match (phase, event) {
        (PhaseView::Waiting(_), EventView::Woken) => PhaseView::Reading,
        (PhaseView::Reading, EventView::State(Ok(state))) => examined(state, now),
        (PhaseView::Reading, EventView::State(Err(e))) => PhaseView::Stopped(ManagerFault::Db(e)),
        (PhaseView::Committing(state), EventView::Revision(Ok(_))) => PhaseView::Provisioning(
            state,
        ),
        (PhaseView::Committing(_), EventView::Revision(Err(e))) => PhaseView::Stopped(
            ManagerFault::Db(e),
        ),
        (PhaseView::Provisioning(state), EventView::Saved(Ok(_))) => PhaseView::Launching(state),
        (PhaseView::Provisioning(_), EventView::Saved(Err(e))) => PhaseView::Stopped(
            ManagerFault::Db(e),
        ),
        (PhaseView::Launching(_), EventView::Launched(Ok(_))) => PhaseView::Waiting(
            DEFAULT_PIPELINE_POLL_PERIOD,
        ),
        (PhaseView::Launching(state), EventView::Launched(Err(e))) => PhaseView::Saving(
            killed(state, Some(Cause::Manager(e)), now),
            true,
        ),
        (PhaseView::Probing(Probe::PortFile, state), EventView::PortFile(contents)) => concluded(
            state,
            port_finding(id, contents, state.since, now),
            now,
        ),
        (PhaseView::Probing(Probe::Exit, state), EventView::Process(exited)) => concluded(
            state,
            exit_finding(id, exited, state.since, now),
            now,
        ),
        (PhaseView::Probing(probe, state), EventView::Response(answer)) => if is_request(probe) {
            concluded(state, reply_finding(probe, id, answer, state.since, now), now)
        } else {
            phase
        },
        (PhaseView::Saving(_, _), EventView::Saved(Ok(_))) => PhaseView::Waiting(
            DEFAULT_PIPELINE_POLL_PERIOD,
        ),
        (PhaseView::Saving(_, _), EventView::Saved(Err(e))) => PhaseView::Stopped(
            ManagerFault::Db(e),
        ),
        (_, _) => phase,
    }
}

/// The endpoint that a probe asks.
pub open spec fn endpoint_of(probe: Probe) -> Seq<char> {
    match probe {
        Probe::Start => "start"@,
        Probe::Pause => "pause"@,
        Probe::Shutdown => "shutdown"@,
        _ => "stats"@,
    }
}

/// What came of an action.
#[derive(Debug)]
pub enum Event {
    /// The automaton was notified, or its time was up.
    Woken,
    /// The runtime state was read.
    State(Result<PipelineRuntimeState, DbError>),
    /// The last committed revision was read.
    Revision(Result<(), DbError>),
    /// The runtime state was saved.
    Saved(Result<(), DbError>),
    /// The process was started.
    Launched(Result<(), ManagerError>),
    /// The contents of the port file, absent where it cannot be read.
    PortFile(Option<String>),
    /// The answer of the pipeline, or why there is none.
    Response(Result<Reply, String>),
    /// Whether the process has exited, which it also has where there is none.
    Process(bool),
}

impl View for Event {
    type V = EventView;

    open spec fn view(&self) -> EventView {
        match *self {
            Event::Woken => EventView::Woken,
            Event::State(Ok(state)) => EventView::State(Ok(state@)),
            Event::State(Err(e)) => EventView::State(Err(e@)),
            Event::Revision(Ok(_)) => EventView::Revision(Ok(())),
            Event::Revision(Err(e)) => EventView::Revision(Err(e@)),
            Event::Saved(Ok(_)) => EventView::Saved(Ok(())),
            Event::Saved(Err(e)) => EventView::Saved(Err(e@)),
            Event::Launched(Ok(_)) => EventView::Launched(Ok(())),
            Event::Launched(Err(e)) => EventView::Launched(Err(e@)),
            Event::PortFile(Some(contents)) => EventView::PortFile(Some(contents@)),
            Event::PortFile(None) => EventView::PortFile(None),
            Event::Response(Ok(reply)) => EventView::Response(Ok(reply@)),
            Event::Response(Err(e)) => EventView::Response(Err(e@)),
            Event::Process(exited) => EventView::Process(exited),
        }
    }
}

/// The answers carry an HTTP status.
pub open spec fn is_valid_event(event: Event) -> bool {
    event matches Event::Response(Ok(reply)) ==> 100 <= reply.status < 1000
}

/// Where the automaton is.
#[derive(Debug)]
pub enum Phase {
    /// Waiting to be notified, for so many milliseconds at most.
    Waiting(u64),
    /// Reading the runtime state.
    Reading,
    /// Reading the last committed revision.
    Committing(PipelineRuntimeState),
    /// Saving that the pipeline is being provisioned.
    Provisioning(PipelineRuntimeState),
    /// Starting the process.
    Launching(PipelineRuntimeState),
    /// Looking at the process.
    Probing(Probe, PipelineRuntimeState),
    /// Saving the runtime state, once the process has been killed where that is
    /// asked for.
    Saving(PipelineRuntimeState, bool),
    /// The automaton has ended with an error.
    Stopped(ManagerError),
}

impl View for Phase {
    type V = PhaseView;

    open spec fn view(&self) -> PhaseView {
        match *self {
            Phase::Waiting(millis) => PhaseView::Waiting(millis),
            Phase::Reading => PhaseView::Reading,
            Phase::Committing(state) => PhaseView::Committing(state@),
            Phase::Provisioning(state) => PhaseView::Provisioning(state@),
            Phase::Launching(state) => PhaseView::Launching(state@),
            Phase::Probing(probe, state) => PhaseView::Probing(probe, state@),
            Phase::Saving(state, kill) => PhaseView::Saving(state@, kill),
            Phase::Stopped(error) => PhaseView::Stopped(error@),
        }
    }
}

/// What to do next.
#[derive(Debug)]
pub enum Action<'a> {
    /// Wait to be notified, for so many milliseconds at most.
    Wait(u64),
    /// Read the runtime state.
    ReadState,
    /// Read the last committed revision.
    ReadRevision,
    /// Kill the process where asked, and then save the runtime state.
    SaveState { state: &'a PipelineRuntimeState, kill: bool },
    /// Start a process for the revision that was read.
    Launch,
    /// Read the port file.
    ReadPortFile,
    /// Send a request to an endpoint of the pipeline.
    Request { endpoint: &'static str, port: u16 },
    /// See whether the process has exited.
    CheckProcess,
    /// End with an error.
    Stop(&'a ManagerError),
}

/// The action belongs to the phase.
pub open spec fn action_fits(phase: Phase, action: Action) -> bool {
    match phase {
        Phase::Waiting(millis) => action == Action::Wait(millis),
        Phase::Reading => action is ReadState,
        Phase::Committing(_) => action is ReadRevision,
        Phase::Provisioning(state) => action matches Action::SaveState { state: s, kill } && *s
            == state && !kill,
        Phase::Launching(_) => action is Launch,
        Phase::Probing(Probe::PortFile, _) => action is ReadPortFile,
        Phase::Probing(Probe::Exit, _) => action is CheckProcess,
        Phase::Probing(probe, state) => action matches Action::Request { endpoint, port }
            && endpoint@ == endpoint_of(probe) && port == state.port,
        Phase::Saving(state, kill) => action matches Action::SaveState { state: s, kill: k } && *s
            == state && k == kill,
        Phase::Stopped(error) => action matches Action::Stop(e) && *e == error,
    }
}

/// The automaton of a pipeline.
#[derive(Debug)]
pub struct PipelineAutomaton {
    pub pipeline_id: PipelineId,
    pub tenant_id: TenantId,
    pub phase: Phase,
}

/// What to look at when a pipeline is in one state and meant to be in another.
pub fn choose_probe(current: PipelineStatus, desired: PipelineStatus) -> (r: Probe)
    ensures
        r == probe_for(current, desired),
{
    match (current, desired) {
        (PipelineStatus::Shutdown, PipelineStatus::Shutdown) => Probe::Idle,
        (PipelineStatus::Shutdown, _) => Probe::Provision,
        (PipelineStatus::Provisioning, PipelineStatus::Running) | (
            PipelineStatus::Provisioning,
            PipelineStatus::Paused,
        ) => Probe::PortFile,
        (PipelineStatus::Provisioning, PipelineStatus::Shutdown) => Probe::Kill,
        (PipelineStatus::Initializing, PipelineStatus::Running) | (
            PipelineStatus::Initializing,
            PipelineStatus::Paused,
        ) => Probe::Initialization,
        (PipelineStatus::Initializing, PipelineStatus::Shutdown) => Probe::Kill,
        (PipelineStatus::Paused, PipelineStatus::Running) => Probe::Start,
        (PipelineStatus::Running, PipelineStatus::Paused) => Probe::Pause,
        (PipelineStatus::Running, PipelineStatus::Shutdown) | (
            PipelineStatus::Paused,
            PipelineStatus::Shutdown,
        ) => Probe::Shutdown,
        (PipelineStatus::ShuttingDown, _) => Probe::Exit,
        (PipelineStatus::Running, _) | (PipelineStatus::Paused, _) => Probe::Monitor,
        (PipelineStatus::Failed, PipelineStatus::Shutdown) => Probe::Clear,
        (_, _) => Probe::Idle,
    }
}

/// What follows from what was seen.
#[derive(Debug)]
pub enum Outcome {
    Entered(PipelineStatus),
    Listening(u16),
    Broken(Failure),
    Pending(u64),
    Exited,
}

impl View for Outcome {
    type V = Finding;

    open spec fn view(&self) -> Finding {
        match *self {
            Outcome::Entered(status) => Finding::Entered(status),
            Outcome::Listening(port) => Finding::Listening(port),
            Outcome::Broken(failure) => Finding::Broken(failure@),
            Outcome::Pending(millis) => Finding::Pending(millis),
            Outcome::Exited => Finding::Exited,
        }
    }
}

/// An error of the runner as the cause of a failure.
fn broken(error: RunnerError) -> (r: Outcome)
    ensures
        r@ == Finding::Broken(caused(error@)),
{
    Outcome::Broken(Failure::Manager(ManagerError::Runner(error)))
}

/// The port in the contents of a port file, absent where the file could not be
/// read.
pub fn read_pipeline_port_file(
    pipeline_id: PipelineId,
    contents: Option<String>,
) -> (r: Result<Option<u16>, RunnerError>)
    ensures
        match contents {
            None => r matches Ok(port) && port is None,
            Some(text) => match port_value(trimmed(text@)) {
                Ok(value) => r matches Ok(port) && port == Some(value as u16),
                Err(fault) => r matches Err(e) && e@ == RunnerFault::PortFileParse(
                    pipeline_id,
                    fault.message(),
                ),
            },
        },
{
    match contents {
        None => Ok(None),
        Some(text) => {
            let text = trim(text.as_str());
            match parse_port(text.as_str()) {
                Ok(port) => Ok(Some(port)),
                Err(e) => Err(
                    RunnerError::PortFileParseError { pipeline_id, error: e.text().to_owned() },
                ),
            }
        },
    }
}

/// What follows from the port file.
fn judge_port_file(
    pipeline_id: PipelineId,
    contents: Option<String>,
    since: i64,
    now: i64,
) -> (r: Outcome)
    ensures
        r@ == port_finding(
            pipeline_id,
            match contents {
                Some(text) => Some(text@),
                None => None,
            },
            since,
            now,
        ),
{
    match read_pipeline_port_file(pipeline_id, contents) {
        Ok(Some(port)) => Outcome::Listening(port),
        Ok(None) => {
            if timeout_expired_at(now, since, PROVISIONING_TIMEOUT) {
                broken(
                    RunnerError::PipelineProvisioningTimeout {
                        pipeline_id,
                        timeout_millis: PROVISIONING_TIMEOUT,
                    },
                )
            } else {
                Outcome::Pending(PROVISIONING_POLL_PERIOD)
            }
        },
        Err(e) => broken(e),
    }
}

/// The failure of a pipeline that answered with a status and a body that is no
/// error response.
pub fn unexpected_response(pipeline_id: PipelineId, status: &str, body: &str) -> (r: Failure)
    ensures
        r@ == caused(RunnerFault::HttpForward(pipeline_id, unexpected(status@, body@))),
{
    let error = cat4("Pipeline returned HTTP status ", status, ", response body:", body);
    Failure::Manager(ManagerError::Runner(RunnerError::HttpForwardError { pipeline_id, error }))
}

/// The failure of a pipeline that answered with an error: the error response in
/// the body, or else the status and the body.
pub fn error_response_from_json(pipeline_id: PipelineId, reply: Reply) -> (r: Failure)
    requires
        100 <= reply.status < 1000,
    ensures
        r@ == reported(pipeline_id, reply@),
{
    match reply.error {
        Some(response) => Failure::Reported(response),
        None => {
            let status = status_text(reply.status);
            unexpected_response(pipeline_id, status.as_str(), reply.body.as_str())
        },
    }
}

/// What follows from the answer to a request.
fn judge_response(
    probe: Probe,
    pipeline_id: PipelineId,
    answer: Result<Reply, String>,
    since: i64,
    now: i64,
) -> (r: Outcome)
    requires
        answer matches Ok(reply) ==> 100 <= reply.status < 1000,
    ensures
        r@ == reply_finding(
            probe,
            pipeline_id,
            match answer {
                Ok(reply) => Ok(reply@),
                Err(e) => Err(e@),
            },
            since,
            now,
        ),
{
    let reply = match answer {
        Err(error) => {
            return broken(RunnerError::HttpForwardError { pipeline_id, error });
        },
        Ok(reply) => reply,
    };
    if 200 <= reply.status && reply.status < 300 {
        match probe {
            Probe::Start => Outcome::Entered(PipelineStatus::Running),
            Probe::Shutdown => Outcome::Entered(PipelineStatus::ShuttingDown),
            Probe::Monitor => {
                let state = match reply.state {
                    Some(state) => state,
                    None => String::new(),
                };
                if state == "Paused".to_owned() {
                    Outcome::Entered(PipelineStatus::Paused)
                } else if state == "Running".to_owned() {
                    Outcome::Entered(PipelineStatus::Running)
                } else {
                    broken(
                        RunnerError::HttpForwardError {
                            pipeline_id,
                            error: cat3(
                                "Pipeline reported unexpected status '",
                                state.as_str(),
                                "', expected 'Paused' or 'Running'",
                            ),
                        },
                    )
                }
            },
            _ => Outcome::Entered(PipelineStatus::Paused),
        }
    } else if probe == Probe::Initialization && reply.status == 503 {
        if timeout_expired_at(now, since, INITIALIZATION_TIMEOUT) {
            broken(
                RunnerError::PipelineInitializationTimeout {
                    pipeline_id,
                    timeout_millis: INITIALIZATION_TIMEOUT,
                },
            )
        } else {
            Outcome::Pending(INITIALIZATION_POLL_PERIOD)
        }
    } else {
        Outcome::Broken(error_response_from_json(pipeline_id, reply))
    }
}

/// What follows from whether the process has exited.
fn judge_process(pipeline_id: PipelineId, exited: bool, since: i64, now: i64) -> (r: Outcome)
    ensures
        r@ == exit_finding(pipeline_id, exited, since, now),
{
    if exited {
        Outcome::Exited
    } else if timeout_expired_at(now, since, SHUTDOWN_TIMEOUT) {
        broken(
            RunnerError::PipelineShutdownTimeout { pipeline_id, timeout_millis: SHUTDOWN_TIMEOUT },
        )
    } else {
        Outcome::Pending(SHUTDOWN_POLL_PERIOD)
    }
}

/// The state of a pipeline whose process was killed.
pub fn force_kill_pipeline(
    state: PipelineRuntimeState,
    error: Option<Failure>,
    now: i64,
) -> (r: PipelineRuntimeState)
    ensures
        r@ == killed(state@, cause_of(error), now),
{
    let mut state = state;
    if state.desired_status == PipelineStatus::Shutdown {
        state.set_current_status(PipelineStatus::Shutdown, error, now);
    } else {
        state.set_current_status(PipelineStatus::Failed, error, now);
    }
    state
}

/// Where a poll of the given state starts.
fn examine(state: PipelineRuntimeState, now: i64) -> (r: Phase)
    ensures
        r@ == examined(state@, now),
{
    let mut state = state;
    let probe = choose_probe(state.current_status, state.desired_status);
    match probe {
        Probe::Provision => {
            state.set_current_status(PipelineStatus::Provisioning, None, now);
            Phase::Committing(state)
        },
        Probe::Kill => Phase::Saving(force_kill_pipeline(state, None, now), true),
        Probe::Clear => {
            let mut error: Option<Failure> = None;
            std::mem::swap(&mut error, &mut state.error);
            state.set_current_status(PipelineStatus::Shutdown, error, now);
            Phase::Saving(state, false)
        },
        Probe::Idle => Phase::Waiting(DEFAULT_PIPELINE_POLL_PERIOD),
        _ => Phase::Probing(probe, state),
    }
}

/// How a poll goes on after an outcome.
fn conclude(state: PipelineRuntimeState, outcome: Outcome, now: i64) -> (r: Phase)
    ensures
        r@ == concluded(state@, outcome@, now),
{
    let mut state = state;
    match outcome {
        Outcome::Entered(status) => {
            state.set_current_status(status, None, now);
            Phase::Saving(state, false)
        },
        Outcome::Listening(port) => {
            state.set_current_status(PipelineStatus::Initializing, None, now);
            state.set_port(port);
            state.set_created(now);
            Phase::Saving(state, false)
        },
        Outcome::Broken(failure) => {
            Phase::Saving(force_kill_pipeline(state, Some(failure), now), true)
        },
        Outcome::Pending(millis) => Phase::Waiting(millis),
        Outcome::Exited => {
            state.set_current_status(PipelineStatus::Shutdown, None, now);
            Phase::Saving(state, true)
        },
    }
}

impl PipelineAutomaton {
    /// The automaton of a pipeline, waiting for its first poll.
    pub fn new(pipeline_id: PipelineId, tenant_id: TenantId) -> (r: Self)
        ensures
            r.pipeline_id == pipeline_id,
            r.tenant_id == tenant_id,
            r.phase@ == PhaseView::Waiting(DEFAULT_PIPELINE_POLL_PERIOD),
    {
        PipelineAutomaton {
            pipeline_id,
            tenant_id,
            phase: Phase::Waiting(DEFAULT_PIPELINE_POLL_PERIOD),
        }
    }

    /// What to do next.
    pub fn action(&self) -> (r: Action<'_>)
        ensures
            action_fits(self.phase, r),
    {
        match &self.phase {
            Phase::Waiting(millis) => Action::Wait(*millis),
            Phase::Reading => Action::ReadState,
            Phase::Committing(_) => Action::ReadRevision,
            Phase::Provisioning(state) => Action::SaveState { state, kill: false },
            Phase::Launching(_) => Action::Launch,
            Phase::Probing(probe, state) => match probe {
                Probe::PortFile => Action::ReadPortFile,
                Probe::Exit => Action::CheckProcess,
                Probe::Start => Action::Request { endpoint: "start", port: state.port },
                Probe::Pause => Action::Request { endpoint: "pause", port: state.port },
                Probe::Shutdown => Action::Request { endpoint: "shutdown", port: state.port },
                _ => Action::Request { endpoint: "stats", port: state.port },
            },
            Phase::Saving(state, kill) => Action::SaveState { state, kill: *kill },
            Phase::Stopped(error) => Action::Stop(error),
        }
    }

    /// Takes what came of the action, at time `now`.
    pub fn do_run(self, event: Event, now: i64) -> (r: Self)
        requires
            is_valid_event(event),
        ensures
            r.pipeline_id == self.pipeline_id,
            r.tenant_id == self.tenant_id,
            r.phase@ == next_phase(self.pipeline_id, self.phase@, event@, now),
    {
        let pipeline_id = self.pipeline_id;
        let phase = match (self.phase, event) {
            (Phase::Waiting(_), Event::Woken) => Phase::Reading,
            (Phase::Reading, Event::State(Ok(state))) => examine(state, now),
            (Phase::Reading, Event::State(Err(e))) => Phase::Stopped(ManagerError::Db(e)),
            (Phase::Committing(state), Event::Revision(Ok(_))) => Phase::Provisioning(state),
            (Phase::Committing(_), Event::Revision(Err(e))) => Phase::Stopped(ManagerError::Db(e)),
            (Phase::Provisioning(state), Event::Saved(Ok(_))) => Phase::Launching(state),
            (Phase::Provisioning(_), Event::Saved(Err(e))) => Phase::Stopped(ManagerError::Db(e)),
            (Phase::Launching(_), Event::Launched(Ok(_))) => Phase::Waiting(
                DEFAULT_PIPELINE_POLL_PERIOD,
            ),
            (Phase::Launching(state), Event::Launched(Err(e))) => Phase::Saving(
                force_kill_pipeline(state, Some(Failure::Manager(e)), now),
                true,
            ),
            (Phase::Probing(Probe::PortFile, state), Event::PortFile(contents)) => {
                let outcome = judge_port_file(pipeline_id, contents, state.status_since, now);
                conclude(state, outcome, now)
            },
            (Phase::Probing(Probe::Exit, state), Event::Process(exited)) => {
                let outcome = judge_process(pipeline_id, exited, state.status_since, now);
                conclude(state, outcome, now)
            },
            (Phase::Probing(probe, state), Event::Response(answer)) => {
                match probe {
                    Probe::Initialization | Probe::Start | Probe::Pause | Probe::Shutdown
                    | Probe::Monitor => {
                        let outcome = judge_response(
                            probe,
                            pipeline_id,
                            answer,
                            state.status_since,
                            now,
                        );
                        conclude(state, outcome, now)
                    },
                    _ => Phase::Probing(probe, state),
                }
            },
            (Phase::Saving(_, _), Event::Saved(Ok(_))) => Phase::Waiting(
                DEFAULT_PIPELINE_POLL_PERIOD,
            ),
            (Phase::Saving(_, _), Event::Saved(Err(e))) => Phase::Stopped(ManagerError::Db(e)),
            (phase, _) => phase,
        };
        PipelineAutomaton { pipeline_id, tenant_id: self.tenant_id, phase }
    }

    /// Takes what came of the action, at the time of the call.
    pub fn run(self, event: Event) -> (r: Self)
        requires
            is_valid_event(event),
        ensures
            r.pipeline_id == self.pipeline_id,
            r.tenant_id == self.tenant_id,
            exists|now: i64| r.phase@ == #[trigger] next_phase(
                self.pipeline_id,
                self.phase@,
                event@,
                now,
            ),
    {
        self.do_run(event, now_millis())
    }
}

/// The runtime state that a phase carries.
pub open spec fn carried(phase: PhaseView) -> Option<StateView> {
    match phase {
        PhaseView::Committing(state) => Some(state),
        PhaseView::Provisioning(state) => Some(state),
        PhaseView::Launching(state) => Some(state),
        PhaseView::Probing(_, state) => Some(state),
        PhaseView::Saving(state, _) => Some(state),
        _ => None,
    }
}

/// The automaton never changes what the user asked for: a state it carries has the
/// desired status of the state it carried before or has just read.
pub proof fn desired_status_is_kept(id: PipelineId, phase: PhaseView, event: EventView, now: i64)
    ensures
        carried(next_phase(id, phase, event, now)) matches Some(new) ==> match (phase, event) {
            (PhaseView::Reading, EventView::State(Ok(read))) => new.desired == read.desired
                && new.pipeline_id == read.pipeline_id,
            _ => carried(phase) matches Some(old_state) && new.desired == old_state.desired
                && new.pipeline_id == old_state.pipeline_id,
        },
{
}

/// The states that a pipeline may enter from a state, given what the user asked
/// for.
pub open spec fn may_enter(
    from: PipelineStatus,
    desired: PipelineStatus,
    to: PipelineStatus,
) -> bool {
    match from {
        PipelineStatus::Shutdown => to == PipelineStatus::Provisioning && desired
            != PipelineStatus::Shutdown,
        PipelineStatus::Provisioning => to == PipelineStatus::Initializing || ends(desired, to),
        PipelineStatus::Initializing => to == PipelineStatus::Paused || ends(desired, to),
        PipelineStatus::Paused | PipelineStatus::Running => to == PipelineStatus::Paused || to
            == PipelineStatus::Running || (to == PipelineStatus::ShuttingDown && desired
            == PipelineStatus::Shutdown) || ends(desired, to),
        PipelineStatus::ShuttingDown => to == PipelineStatus::Shutdown || ends(desired, to),
        PipelineStatus::Failed => to == PipelineStatus::Shutdown && desired
            == PipelineStatus::Shutdown,
    }
}

/// The state of a pipeline whose process was killed.
pub open spec fn ends(desired: PipelineStatus, to: PipelineStatus) -> bool {
    to == if desired == PipelineStatus::Shutdown {
        PipelineStatus::Shutdown
    } else {
        PipelineStatus::Failed
    }
}

/// The phase is reached by the automaton: what it looks at fits the state, and a
/// process is started only for a pipeline that is meant to be up.
pub open spec fn is_reached(phase: PhaseView) -> bool {
    match phase {
        PhaseView::Probing(probe, state) => probe == probe_for(state.current, state.desired) && (
        is_request(probe) || probe == Probe::PortFile || probe == Probe::Exit),
        PhaseView::Committing(state)
        | PhaseView::Provisioning(state)
        | PhaseView::Launching(state) => state.current == PipelineStatus::Provisioning
            && state.desired != PipelineStatus::Shutdown,
        _ => true,
    }
}

/// The automaton stays within the phases it is meant to reach.
pub proof fn phases_are_reached(id: PipelineId, phase: PhaseView, event: EventView, now: i64)
    requires
        is_reached(phase),
    ensures
        is_reached(next_phase(id, phase, event, now)),
{
}

/// A pipeline changes its state only along the allowed steps: whenever the
/// automaton turns to save a state, the state that it read or carried before may
/// be followed by it.
pub proof fn only_allowed_steps_are_taken(
    id: PipelineId,
    phase: PhaseView,
    event: EventView,
    now: i64,
)
    requires
        is_reached(phase),
    ensures
        match (phase, event) {
            (PhaseView::Reading, EventView::State(Ok(read))) => match examined(read, now) {
                PhaseView::Committing(new) => may_enter(read.current, read.desired, new.current),
                PhaseView::Saving(new, _) => may_enter(read.current, read.desired, new.current),
                PhaseView::Probing(_, same) => same == read,
                _ => true,
            },
            (PhaseView::Launching(old_state), _) => next_phase(id, phase, event, now) matches
                PhaseView::Saving(new, _) ==> may_enter(
                old_state.current,
                old_state.desired,
                new.current,
            ),
            (PhaseView::Probing(_, old_state), _) => next_phase(id, phase, event, now) matches
                PhaseView::Saving(new, _) ==> may_enter(
                old_state.current,
                old_state.desired,
                new.current,
            ),
            _ => true,
        },
{
}

/// Whenever a pipeline is to be saved as shut down or failed, its process is
/// killed first, unless it had failed before.
pub proof fn no_process_is_left_behind(
    id: PipelineId,
    phase: PhaseView,
    event: EventView,
    now: i64,
)
    requires
        is_reached(phase),
        next_phase(id, phase, event, now) matches PhaseView::Saving(new, kill) && (new.current
            == PipelineStatus::Shutdown || new.current == PipelineStatus::Failed) && !kill,
        !(phase is Saving),
    ensures
        phase is Reading,
        event matches EventView::State(Ok(read)) && read.current == PipelineStatus::Failed,
{
}

/// How far a pipeline is from being shut down.
pub open spec fn distance(status: PipelineStatus) -> nat {
    match status {
        PipelineStatus::Shutdown => 0,
        PipelineStatus::Paused | PipelineStatus::Running => 2,
        _ => 1,
    }
}

/// A pipeline that is meant to shut down comes closer to it with every poll that
/// gets an answer.  It stays where it is only while its process takes its time to
/// exit, and that no longer than the timeout.
pub proof fn shutdown_comes_closer(
    id: PipelineId,
    state: StateView,
    event: EventView,
    read_at: i64,
    now: i64,
)
    requires
        state.desired == PipelineStatus::Shutdown,
        state.current != PipelineStatus::Shutdown,
    ensures
        match examined(state, read_at) {
            PhaseView::Saving(new, _) => new.current == PipelineStatus::Shutdown,
            PhaseView::Probing(probe, same) => same == state && match next_phase(
                id,
                PhaseView::Probing(probe, state),
                event,
                now,
            ) {
                PhaseView::Saving(new, _) => distance(new.current) < distance(state.current),
                PhaseView::Waiting(millis) => state.current == PipelineStatus::ShuttingDown && event
                    == EventView::Process(false) && !expired(now, state.since, SHUTDOWN_TIMEOUT)
                    && millis == SHUTDOWN_POLL_PERIOD,
                other => other == PhaseView::Probing(probe, state),
            },
            _ => false,
        },
{
}

/// A pipeline whose port file does not appear in time, or which does not become
/// ready in time, is killed and reported to have timed out.
pub proof fn slow_starts_are_given_up(id: PipelineId, state: StateView, reply: ReplyView, now: i64)
    requires
        state.desired == PipelineStatus::Running || state.desired == PipelineStatus::Paused,
        reply.status == 503,
    ensures
        state.current == PipelineStatus::Provisioning && expired(
            now,
            state.since,
            PROVISIONING_TIMEOUT,
        ) ==> next_phase(
            id,
            PhaseView::Probing(Probe::PortFile, state),
            EventView::PortFile(None),
            now,
        ) == PhaseView::Saving(
            state.entering(
                PipelineStatus::Failed,
                Some(caused(RunnerFault::ProvisioningTimeout(id, PROVISIONING_TIMEOUT))),
                now,
            ),
            true,
        ),
        state.current == PipelineStatus::Initializing && expired(
            now,
            state.since,
            INITIALIZATION_TIMEOUT,
        ) ==> next_phase(
            id,
            PhaseView::Probing(Probe::Initialization, state),
            EventView::Response(Ok(reply)),
            now,
        ) == PhaseView::Saving(
            state.entering(
                PipelineStatus::Failed,
                Some(caused(RunnerFault::InitializationTimeout(id, INITIALIZATION_TIMEOUT))),
                now,
            ),
            true,
        ),
{
}

/// A pipeline that failed stays as it is until it is told to shut down, and then
/// keeps the cause of its failure.
pub proof fn failures_are_kept_until_shutdown(state: StateView, now: i64)
    requires
        state.current == PipelineStatus::Failed,
    ensures
        state.desired != PipelineStatus::Shutdown ==> examined(state, now) == PhaseView::Waiting(
            DEFAULT_PIPELINE_POLL_PERIOD,
        ),
        state.desired == PipelineStatus::Shutdown ==> (examined(state, now) matches
            PhaseView::Saving(new, _) && new.current == PipelineStatus::Shutdown && new.error
            == state.error),
{
}

/// A pipeline that is in the state it is meant to be in is only watched: its
/// statistics are read while it is paused or running, and nothing is done while it
/// is shut down.
pub proof fn settled_pipelines_are_watched(state: StateView, now: i64)
    requires
        state.current == state.desired,
    ensures
        state.current == PipelineStatus::Shutdown ==> examined(state, now) == PhaseView::Waiting(
            DEFAULT_PIPELINE_POLL_PERIOD,
        ),
        state.current == PipelineStatus::Paused || state.current == PipelineStatus::Running
            ==> examined(state, now) == PhaseView::Probing(Probe::Monitor, state) && endpoint_of(
            Probe::Monitor,
        ) == "stats"@,
{
}

/// A pipeline that the automaton saves as failed comes with the cause of its failure.
pub proof fn failed_pipelines_say_why(
    id: PipelineId,
    phase: PhaseView,
    event: EventView,
    now: i64,
)
    requires
        is_reached(phase),
        !(phase is Saving),
        next_phase(id, phase, event, now) matches PhaseView::Saving(new, _) && new.current
            == PipelineStatus::Failed,
    ensures
        next_phase(id, phase, event, now) matches PhaseView::Saving(new, _) && new.error is Some,
{
}

/// The automaton asks an endpoint of the pipeline, at a port.
pub open spec fn asks(automaton: PipelineAutomaton, endpoint: Seq<char>, port: u16) -> bool {
    forall|a: Action<'_>| #[trigger]
        call_ensures(PipelineAutomaton::action, (&automaton,), a) ==> (a matches Action::Request {
            endpoint: e,
            port: p,
        } && e@ == endpoint && p == port)
}

/// The automaton waits for so many milliseconds at most, and then reads the state again.
pub open spec fn sleeps(automaton: PipelineAutomaton, millis: u64) -> bool {
    &&& forall|a: Action<'_>| #[trigger]
        call_ensures(PipelineAutomaton::action, (&automaton,), a) ==> a == Action::Wait(millis)
    &&& forall|next: PipelineAutomaton, now: i64| #[trigger]
        call_ensures(PipelineAutomaton::do_run, (automaton, Event::Woken, now), next) ==> reads(
            next,
        )
}

/// The automaton reads the state of the pipeline.
pub open spec fn reads(automaton: PipelineAutomaton) -> bool {
    forall|a: Action<'_>| #[trigger]
        call_ensures(PipelineAutomaton::action, (&automaton,), a) ==> a is ReadState
}

/// The automaton saves a state, and kills the process first where asked; once the state is
/// saved it sleeps, and an error of the database ends it.
pub open spec fn saves(
    automaton: PipelineAutomaton,
    saved: PipelineRuntimeState,
    kill: bool,
) -> bool {
    &&& forall|a: Action<'_>| #[trigger]
        call_ensures(PipelineAutomaton::action, (&automaton,), a) ==> (a matches Action::SaveState {
            state,
            kill: k,
        } && *state == saved && k == kill)
    &&& forall|next: PipelineAutomaton, now: i64| #[trigger]
        call_ensures(PipelineAutomaton::do_run, (automaton, Event::Saved(Ok(())), now), next)
            ==> sleeps(next, 10_000)
    &&& forall|next: PipelineAutomaton, now: i64, e: DbError| #[trigger]
        call_ensures(PipelineAutomaton::do_run, (automaton, Event::Saved(Err(e)), now), next)
            ==> stops(next, e)
}

/// The automaton has ended with an error of the database.
pub open spec fn stops(automaton: PipelineAutomaton, error: DbError) -> bool {
    forall|a: Action<'_>| #[trigger]
        call_ensures(PipelineAutomaton::action, (&automaton,), a) ==> (a matches Action::Stop(
            ManagerError::Db(e),
        ) && same_db_error(*e, error))
}

/// The second state is the first one with another status, entered at a time.  All that is
/// kept besides is what the pipeline is, what the user asked for, where the process listens
/// and when it was created.
pub open spec fn enters(
    from: PipelineRuntimeState,
    to: PipelineRuntimeState,
    status: PipelineStatus,
    now: i64,
) -> bool {
    &&& to.current_status == status
    &&& to.status_since == now
    &&& to.pipeline_id == from.pipeline_id
    &&& to.desired_status == from.desired_status
    &&& to.port == from.port
    &&& to.created == from.created
}

/// The automaton saves that the pipeline has entered a status, without an error and with its
/// process alive.
pub open spec fn saves_as(
    automaton: PipelineAutomaton,
    from: PipelineRuntimeState,
    status: PipelineStatus,
    now: i64,
) -> bool {
    exists|to: PipelineRuntimeState| #[trigger]
        saves(automaton, to, false) && enters(from, to, status, now) && to.error is None
}

/// The automaton kills the process, and saves that the pipeline has failed, or that it is
/// shut down where the user asked for that, with the given cause.
pub open spec fn kills(
    automaton: PipelineAutomaton,
    from: PipelineRuntimeState,
    cause: Failure,
    now: i64,
) -> bool {
    exists|to: PipelineRuntimeState| #[trigger]
        saves(automaton, to, true) && enters(
            from,
            to,
            if from.desired_status == PipelineStatus::Shutdown {
                PipelineStatus::Shutdown
            } else {
                PipelineStatus::Failed
            },
            now,
        ) && (to.error matches Some(failure) && same_failure(failure, cause))
}

/// An error of a request to the pipeline as a cause.
pub open spec fn forward_cause(id: PipelineId, error: String) -> Failure {
    Failure::Manager(
        ManagerError::Runner(RunnerError::HttpForwardError { pipeline_id: id, error }),
    )
}

/// An error of running the pipeline as a cause.
pub open spec fn runner_cause(error: RunnerError) -> Failure {
    Failure::Manager(ManagerError::Runner(error))
}

proof fn lemma_sleeps(automaton: PipelineAutomaton, millis: u64)
    requires
        automaton.phase == Phase::Waiting(millis),
    ensures
        sleeps(automaton, millis),
{
    assert forall|next: PipelineAutomaton, now: i64| #[trigger]
        call_ensures(PipelineAutomaton::do_run, (automaton, Event::Woken, now), next) implies reads(
        next,
    ) by {
        assert(next.phase is Reading);
    }
}

proof fn lemma_saves(automaton: PipelineAutomaton, state: PipelineRuntimeState, kill: bool)
    requires
        automaton.phase == Phase::Saving(state, kill),
    ensures
        saves(automaton, state, kill),
{
    assert forall|next: PipelineAutomaton, now: i64| #[trigger]
        call_ensures(
            PipelineAutomaton::do_run,
            (automaton, Event::Saved(Ok(())), now),
            next,
        ) implies sleeps(next, 10_000) by {
        lemma_sleeps(next, 10_000);
    }
    assert forall|next: PipelineAutomaton, now: i64, e: DbError| #[trigger]
        call_ensures(
            PipelineAutomaton::do_run,
            (automaton, Event::Saved(Err(e)), now),
            next,
        ) implies stops(next, e) by {
        lemma_stops(next, e);
    }
}

proof fn lemma_stops(automaton: PipelineAutomaton, error: DbError)
    requires
        automaton.phase@ == PhaseView::Stopped(ManagerFault::Db(error@)),
    ensures
        stops(automaton, error),
{
    assert(automaton.phase is Stopped);
}

proof fn lemma_phases(automaton: PipelineAutomaton, from: PipelineRuntimeState, now: i64)
    ensures
        automaton.phase@ matches PhaseView::Waiting(millis) ==> sleeps(automaton, millis),
        automaton.phase@ matches PhaseView::Saving(view, kill) ==> (automaton.phase matches
            Phase::Saving(state, k) && state@ == view && k == kill && saves(
            automaton,
            state,
            kill,
        )),
        forall|status: PipelineStatus|
            automaton.phase@ == PhaseView::Saving(
                #[trigger] from@.entering(status, None, now),
                false,
            ) ==> saves_as(automaton, from, status, now),
        forall|cause: Failure|
            automaton.phase@ == PhaseView::Saving(
                #[trigger] killed(from@, Some(cause@), now),
                true,
            ) ==> kills(automaton, from, cause, now),
{
    if let PhaseView::Waiting(millis) = automaton.phase@ {
        lemma_sleeps(automaton, millis);
    }
    if let PhaseView::Saving(view, kill) = automaton.phase@ {
        let state = automaton.phase->Saving_0;
        lemma_saves(automaton, state, kill);
        assert forall|cause: Failure|
            automaton.phase@ == PhaseView::Saving(
                #[trigger] killed(from@, Some(cause@), now),
                true,
            ) implies kills(automaton, from, cause, now) by {
            assert(saves(automaton, state, true));
            assert(state.error is Some);
            match (state.error->0, cause) {
                (Failure::Manager(x), Failure::Manager(y)) => {
                    assert(x@ == y@);
                },
                (Failure::Reported(x), Failure::Reported(y)) => {
                    assert(x@ == y@);
                },
                _ => {},
            }
        }
    }
}

/// A new automaton belongs to its pipeline and its tenant, sleeps, and keeps both for good.
pub proof fn automata_belong_to_their_pipelines(
    pipeline: PipelineId,
    tenant: TenantId,
    automaton: PipelineAutomaton,
    event: Event,
    now: i64,
    next: PipelineAutomaton,
)
    ensures
        call_ensures(PipelineAutomaton::new, (pipeline, tenant), automaton)
            ==> automaton.pipeline_id == pipeline && automaton.tenant_id == tenant && sleeps(
            automaton,
            10_000,
        ),
        call_ensures(PipelineAutomaton::do_run, (automaton, event, now), next) || call_ensures(
            PipelineAutomaton::run,
            (automaton, event),
            next,
        ) ==> next.pipeline_id == automaton.pipeline_id && next.tenant_id == automaton.tenant_id,
{
    if call_ensures(PipelineAutomaton::new, (pipeline, tenant), automaton) {
        lemma_sleeps(automaton, 10_000);
    }
}

/// The cause that an answer of the pipeline with an error status gives: the error response
/// in its body, or else a message with the status and the body.
pub open spec fn tells_the_error(cause: Failure, id: PipelineId, reply: Reply) -> bool {
    match reply.error {
        Some(response) => cause matches Failure::Reported(told) && same_response(told, response),
        None => cause matches Failure::Manager(
            ManagerError::Runner(RunnerError::HttpForwardError { pipeline_id, error }),
        ) && pipeline_id == id && error@ == "Pipeline returned HTTP status "@ + status_shown(
            reply.status,
        ) + ", response body:"@ + reply.body@,
    }
}

/// A pipeline that answers with an error is reported with that error.
pub proof fn errors_of_pipelines_are_told(id: PipelineId, reply: Reply, r: Failure)
    requires
        call_ensures(error_response_from_json, (id, reply), r),
    ensures
        tells_the_error(r, id, reply),
{
}

/// A pipeline that runs or is paused, and is not meant to change, is asked for its
/// statistics.  It goes on as it reports only where it answers with success that it is
/// paused or running.  Whatever else comes back, an error of the request included, it is
/// killed and saved as failed, and it is not waited for.
pub proof fn dead_pipelines_are_failed(
    automaton: PipelineAutomaton,
    state: PipelineRuntimeState,
    read_at: i64,
    asking: PipelineAutomaton,
    answer: Result<Reply, String>,
    now: i64,
    after: PipelineAutomaton,
)
    requires
        automaton.phase is Reading,
        (state.current_status == PipelineStatus::Running && state.desired_status
            != PipelineStatus::Paused) || (state.current_status == PipelineStatus::Paused
            && state.desired_status != PipelineStatus::Running),
        state.desired_status != PipelineStatus::Shutdown,
        call_ensures(PipelineAutomaton::do_run, (automaton, Event::State(Ok(state)), read_at), asking),
        call_ensures(PipelineAutomaton::do_run, (asking, Event::Response(answer), now), after),
    ensures
        asks(asking, "stats"@, state.port),
        match answer {
            Err(error) => kills(
                after,
                state,
                runner_cause(
                    RunnerError::HttpForwardError { pipeline_id: automaton.pipeline_id, error },
                ),
                now,
            ),
            Ok(reply) => if 200 <= reply.status < 300 {
                match reply.state {
                    Some(text) => if text@ == "Running"@ {
                        saves_as(after, state, PipelineStatus::Running, now)
                    } else if text@ == "Paused"@ {
                        saves_as(after, state, PipelineStatus::Paused, now)
                    } else {
                        fails(after, state, now) && forall|error: String|
                            error@ == "Pipeline reported unexpected status '"@ + text@
                                + "', expected 'Paused' or 'Running'"@ ==> kills(
                                after,
                                state,
                                #[trigger] forward_cause(automaton.pipeline_id, error),
                                now,
                            )
                    },
                    None => fails(after, state, now),
                }
            } else {
                fails(after, state, now) && forall|cause: Failure|
                    tells_the_error(cause, automaton.pipeline_id, reply) ==> #[trigger] kills(
                        after,
                        state,
                        cause,
                        now,
                    )
            },
        },
{
    lemma_phases(after, state, now);
    reveal_strlit("Running");
    reveal_strlit("Paused");
    assert("Running"@.len() == 7);
    assert("Paused"@.len() == 6);
    assert(asking.phase matches Phase::Probing(Probe::Monitor, s) && s@ == state@);
    match answer {
        Err(error) => {
            let cause = runner_cause(
                RunnerError::HttpForwardError { pipeline_id: automaton.pipeline_id, error },
            );
            assert(after.phase@ == PhaseView::Saving(killed(state@, Some(cause@), now), true));
        },
        Ok(reply) => {
            lemma_fails(after, state, now);
            lemma_told(after, state, automaton.pipeline_id, reply, now);
            assert forall|error: String|
                200 <= reply.status < 300 && reply.state is Some && reply.state->0@ != "Running"@
                    && reply.state->0@ != "Paused"@ && error@
                    == "Pipeline reported unexpected status '"@ + reply.state->0@
                    + "', expected 'Paused' or 'Running'"@ implies kills(
                after,
                state,
                #[trigger] forward_cause(automaton.pipeline_id, error),
                now,
            ) by {
                let cause = forward_cause(automaton.pipeline_id, error);
                assert(after.phase@ == PhaseView::Saving(killed(state@, Some(cause@), now), true));
            }
        },
    }
}

/// The process is killed and the pipeline saved as failed, or as shut down where the user
/// asked for that, with some cause.
pub open spec fn fails(
    automaton: PipelineAutomaton,
    from: PipelineRuntimeState,
    now: i64,
) -> bool {
    exists|to: PipelineRuntimeState| #[trigger]
        saves(automaton, to, true) && enters(
            from,
            to,
            if from.desired_status == PipelineStatus::Shutdown {
                PipelineStatus::Shutdown
            } else {
                PipelineStatus::Failed
            },
            now,
        ) && to.error is Some
}

proof fn lemma_fails(automaton: PipelineAutomaton, from: PipelineRuntimeState, now: i64)
    ensures
        forall|cause: Cause|
            automaton.phase@ == PhaseView::Saving(
                #[trigger] killed(from@, Some(cause), now),
                true,
            ) ==> fails(automaton, from, now),
{
    if let PhaseView::Saving(view, kill) = automaton.phase@ {
        let state = automaton.phase->Saving_0;
        lemma_saves(automaton, state, kill);
    }
}

proof fn lemma_told(
    automaton: PipelineAutomaton,
    from: PipelineRuntimeState,
    id: PipelineId,
    reply: Reply,
    now: i64,
)
    ensures
        automaton.phase@ == PhaseView::Saving(
            killed(from@, Some(reported(id, reply@)), now),
            true,
        ) ==> forall|cause: Failure|
            tells_the_error(cause, id, reply) ==> #[trigger] kills(automaton, from, cause, now),
{
    lemma_phases(automaton, from, now);
    assert forall|cause: Failure| tells_the_error(cause, id, reply) implies cause@ == reported(
        id,
        reply@,
    ) by {
        if let Some(response) = reply.error {
            errors_say_all_of_themselves(
                ManagerError::Db(DbError::RevisionNotChanged),
                ManagerError::Db(DbError::RevisionNotChanged),
                cause->Reported_0,
                response,
            );
        }
    }
    assert forall|cause: Failure|
        automaton.phase@ == PhaseView::Saving(
            killed(from@, Some(reported(id, reply@)), now),
            true,
        ) && tells_the_error(cause, id, reply) implies #[trigger] kills(
        automaton,
        from,
        cause,
        now,
    ) by {
        assert(automaton.phase@ == PhaseView::Saving(killed(from@, Some(cause@), now), true));
    }
}

/// A pipeline whose status is to change is asked for it: to start, to pause or to shut
/// down.  Where it answers with success it has changed, and where it does not it is killed,
/// with the error of the request or of the answer as the cause.
pub proof fn pipelines_are_told_to_change(
    automaton: PipelineAutomaton,
    state: PipelineRuntimeState,
    read_at: i64,
    asking: PipelineAutomaton,
    answer: Result<Reply, String>,
    now: i64,
    after: PipelineAutomaton,
)
    requires
        automaton.phase is Reading,
        state.current_status == PipelineStatus::Running || state.current_status
            == PipelineStatus::Paused,
        state.desired_status == PipelineStatus::Running || state.desired_status
            == PipelineStatus::Paused || state.desired_status == PipelineStatus::Shutdown,
        state.current_status != state.desired_status,
        call_ensures(PipelineAutomaton::do_run, (automaton, Event::State(Ok(state)), read_at), asking),
        call_ensures(PipelineAutomaton::do_run, (asking, Event::Response(answer), now), after),
    ensures
        state.desired_status == PipelineStatus::Running ==> asks(asking, "start"@, state.port),
        state.desired_status == PipelineStatus::Paused ==> asks(asking, "pause"@, state.port),
        state.desired_status == PipelineStatus::Shutdown ==> asks(asking, "shutdown"@, state.port),
        match answer {
            Err(error) => kills(
                after,
                state,
                runner_cause(
                    RunnerError::HttpForwardError { pipeline_id: automaton.pipeline_id, error },
                ),
                now,
            ),
            Ok(reply) => if 200 <= reply.status < 300 {
                saves_as(
                    after,
                    state,
                    if state.desired_status == PipelineStatus::Shutdown {
                        PipelineStatus::ShuttingDown
                    } else {
                        state.desired_status
                    },
                    now,
                )
            } else {
                fails(after, state, now) && forall|cause: Failure|
                    tells_the_error(cause, automaton.pipeline_id, reply) ==> #[trigger] kills(
                        after,
                        state,
                        cause,
                        now,
                    )
            },
        },
{
    lemma_phases(after, state, now);
    assert(asking.phase matches Phase::Probing(_, s) && s@ == state@);
    match answer {
        Err(error) => {
            let cause = runner_cause(
                RunnerError::HttpForwardError { pipeline_id: automaton.pipeline_id, error },
            );
            assert(after.phase@ == PhaseView::Saving(killed(state@, Some(cause@), now), true));
        },
        Ok(reply) => {
            lemma_fails(after, state, now);
            lemma_told(after, state, automaton.pipeline_id, reply, now);
        },
    }
}

/// A pipeline that is initializing, and meant to be up, is asked for its statistics.  It is
/// paused once it answers with success.  While it answers that the service is unavailable it
/// is asked again after a while, until its time is up, and then it is killed.
pub proof fn initializing_pipelines_are_waited_for(
    automaton: PipelineAutomaton,
    state: PipelineRuntimeState,
    read_at: i64,
    asking: PipelineAutomaton,
    answer: Result<Reply, String>,
    now: i64,
    after: PipelineAutomaton,
)
    requires
        automaton.phase is Reading,
        state.current_status == PipelineStatus::Initializing,
        state.desired_status == PipelineStatus::Running || state.desired_status
            == PipelineStatus::Paused,
        call_ensures(PipelineAutomaton::do_run, (automaton, Event::State(Ok(state)), read_at), asking),
        call_ensures(PipelineAutomaton::do_run, (asking, Event::Response(answer), now), after),
    ensures
        asks(asking, "stats"@, state.port),
        match answer {
            Err(error) => kills(
                after,
                state,
                runner_cause(
                    RunnerError::HttpForwardError { pipeline_id: automaton.pipeline_id, error },
                ),
                now,
            ),
            Ok(reply) => if 200 <= reply.status < 300 {
                saves_as(after, state, PipelineStatus::Paused, now)
            } else if reply.status == 503 {
                if now > state.status_since + 20_000 {
                    kills(
                        after,
                        state,
                        runner_cause(
                            RunnerError::PipelineInitializationTimeout {
                                pipeline_id: automaton.pipeline_id,
                                timeout_millis: 20_000,
                            },
                        ),
                        now,
                    )
                } else {
                    sleeps(after, 300)
                }
            } else {
                fails(after, state, now) && forall|cause: Failure|
                    tells_the_error(cause, automaton.pipeline_id, reply) ==> #[trigger] kills(
                        after,
                        state,
                        cause,
                        now,
                    )
            },
        },
{
    lemma_phases(after, state, now);
    assert(asking.phase matches Phase::Probing(_, s) && s@ == state@);
    match answer {
        Err(error) => {
            let cause = runner_cause(
                RunnerError::HttpForwardError { pipeline_id: automaton.pipeline_id, error },
            );
            assert(after.phase@ == PhaseView::Saving(killed(state@, Some(cause@), now), true));
        },
        Ok(reply) => {
            lemma_fails(after, state, now);
            lemma_told(after, state, automaton.pipeline_id, reply, now);
            let cause = runner_cause(
                RunnerError::PipelineInitializationTimeout {
                    pipeline_id: automaton.pipeline_id,
                    timeout_millis: 20_000,
                },
            );
            if reply.status == 503 && now > state.status_since + 20_000 {
                assert(after.phase@ == PhaseView::Saving(killed(state@, Some(cause@), now), true));
            }
        },
    }
}

/// A pipeline that is being provisioned, and meant to be up, tells its port in its port
/// file.  The port is recorded once it can be read, a file that holds no port is an error,
/// and a file that does not appear is waited for until its time is up.
pub proof fn provisioned_pipelines_tell_their_port(
    automaton: PipelineAutomaton,
    state: PipelineRuntimeState,
    read_at: i64,
    looking: PipelineAutomaton,
    contents: Option<String>,
    trimmed_text: String,
    text: &str,
    port: Result<u16, NumberError>,
    told: &'static str,
    now: i64,
    after: PipelineAutomaton,
)
    requires
        automaton.phase is Reading,
        state.current_status == PipelineStatus::Provisioning,
        state.desired_status == PipelineStatus::Running || state.desired_status
            == PipelineStatus::Paused,
        call_ensures(PipelineAutomaton::do_run, (automaton, Event::State(Ok(state)), read_at), looking),
        call_ensures(PipelineAutomaton::do_run, (looking, Event::PortFile(contents), now), after),
        contents matches Some(all) ==> exists|s: &str|
            s@ == all@ && #[trigger] call_ensures(trim, (s,), trimmed_text),
        text@ == trimmed_text@,
        call_ensures(parse_port, (text,), port),
        port matches Err(e) ==> call_ensures(NumberError::text, (e,), told),
    ensures
        forall|a: Action<'_>| #[trigger]
            call_ensures(PipelineAutomaton::action, (&looking,), a) ==> a is ReadPortFile,
        match contents {
            Some(_) => match port {
                Ok(p) => exists|to: PipelineRuntimeState| #[trigger]
                    saves(after, to, false) && to.current_status == PipelineStatus::Initializing
                        && to.port == p && to.status_since == now && to.created == now && to.error
                        is None && to.desired_status == state.desired_status && to.pipeline_id
                        == state.pipeline_id,
                Err(_) => exists|to: PipelineRuntimeState| #[trigger]
                    saves(after, to, true) && enters(state, to, PipelineStatus::Failed, now) && (
                    to.error matches Some(
                        Failure::Manager(
                            ManagerError::Runner(
                                RunnerError::PortFileParseError { pipeline_id, error },
                            ),
                        ),
                    ) && pipeline_id == automaton.pipeline_id && error@ == told@),
            },
            None => if now > state.status_since + 10_000 {
                kills(
                    after,
                    state,
                    runner_cause(
                        RunnerError::PipelineProvisioningTimeout {
                            pipeline_id: automaton.pipeline_id,
                            timeout_millis: 10_000,
                        },
                    ),
                    now,
                )
            } else {
                sleeps(after, 300)
            },
        },
{
    lemma_phases(after, state, now);
    assert(looking.phase matches Phase::Probing(Probe::PortFile, s) && s@ == state@);
    match contents {
        Some(all) => {
            assert(after.phase is Saving);
            let to = after.phase->Saving_0;
            if port is Ok {
                assert(saves(after, to, false));
            } else {
                assert(saves(after, to, true));
                assert(to.error is Some);
            }
        },
        None => {
            let cause = runner_cause(
                RunnerError::PipelineProvisioningTimeout {
                    pipeline_id: automaton.pipeline_id,
                    timeout_millis: 10_000,
                },
            );
            if now > state.status_since + 10_000 {
                assert(after.phase@ == PhaseView::Saving(killed(state@, Some(cause@), now), true));
            }
        },
    }
}

/// A pipeline that is shut down, and not meant to be so, is provisioned: its revision is
/// read, then it is saved as being provisioned, and then its process is launched.  A process
/// that cannot be launched is killed, and the pipeline saved as failed with the error.
pub proof fn pipelines_are_provisioned(
    automaton: PipelineAutomaton,
    state: PipelineRuntimeState,
    read_at: i64,
    committing: PipelineAutomaton,
    committed_at: i64,
    saving: PipelineAutomaton,
    saved_at: i64,
    launching: PipelineAutomaton,
    error: ManagerError,
    now: i64,
    after: PipelineAutomaton,
)
    requires
        automaton.phase is Reading,
        state.current_status == PipelineStatus::Shutdown,
        state.desired_status != PipelineStatus::Shutdown,
        call_ensures(
            PipelineAutomaton::do_run,
            (automaton, Event::State(Ok(state)), read_at),
            committing,
        ),
        call_ensures(
            PipelineAutomaton::do_run,
            (committing, Event::Revision(Ok(())), committed_at),
            saving,
        ),
        call_ensures(PipelineAutomaton::do_run, (saving, Event::Saved(Ok(())), saved_at), launching),
    ensures
        forall|a: Action<'_>| #[trigger]
            call_ensures(PipelineAutomaton::action, (&committing,), a) ==> a is ReadRevision,
        forall|a: Action<'_>| #[trigger]
            call_ensures(PipelineAutomaton::action, (&saving,), a) ==> (a matches Action::SaveState {
                state: to,
                kill,
            } && !kill && enters(state, *to, PipelineStatus::Provisioning, read_at) && to.error
                is None),
        forall|a: Action<'_>| #[trigger]
            call_ensures(PipelineAutomaton::action, (&launching,), a) ==> a is Launch,
        call_ensures(PipelineAutomaton::do_run, (launching, Event::Launched(Ok(())), now), after)
            ==> sleeps(after, 10_000),
        call_ensures(
            PipelineAutomaton::do_run,
            (launching, Event::Launched(Err(error)), now),
            after,
        ) ==> kills(after, state, Failure::Manager(error), now),
{
    lemma_phases(after, state, now);
    assert(launching.phase matches Phase::Launching(s) && s@ == state@.entering(
        PipelineStatus::Provisioning,
        None,
        read_at,
    ));
    let cause = Failure::Manager(error);
    if call_ensures(
        PipelineAutomaton::do_run,
        (launching, Event::Launched(Err(error)), now),
        after,
    ) {
        assert(after.phase@ == PhaseView::Saving(killed(state@, Some(cause@), now), true));
    }
}

/// A pipeline that is told to shut down before it is up is killed at once.
pub proof fn starting_pipelines_are_killed(
    automaton: PipelineAutomaton,
    state: PipelineRuntimeState,
    now: i64,
    after: PipelineAutomaton,
)
    requires
        automaton.phase is Reading,
        state.current_status == PipelineStatus::Provisioning || state.current_status
            == PipelineStatus::Initializing,
        state.desired_status == PipelineStatus::Shutdown,
        call_ensures(PipelineAutomaton::do_run, (automaton, Event::State(Ok(state)), now), after),
    ensures
        exists|to: PipelineRuntimeState| #[trigger]
            saves(after, to, true) && enters(state, to, PipelineStatus::Shutdown, now) && to.error
                is None,
{
    lemma_phases(after, state, now);
    assert(saves(after, after.phase->Saving_0, true));
}

/// A pipeline that is shutting down is saved as shut down once its process has exited, and
/// what is left of the process is killed.  A process that does not exit in time is killed.
pub proof fn exits_are_waited_for(
    automaton: PipelineAutomaton,
    state: PipelineRuntimeState,
    read_at: i64,
    looking: PipelineAutomaton,
    exited: bool,
    now: i64,
    after: PipelineAutomaton,
)
    requires
        automaton.phase is Reading,
        state.current_status == PipelineStatus::ShuttingDown,
        call_ensures(PipelineAutomaton::do_run, (automaton, Event::State(Ok(state)), read_at), looking),
        call_ensures(PipelineAutomaton::do_run, (looking, Event::Process(exited), now), after),
    ensures
        forall|a: Action<'_>| #[trigger]
            call_ensures(PipelineAutomaton::action, (&looking,), a) ==> a is CheckProcess,
        exited ==> exists|to: PipelineRuntimeState| #[trigger]
            saves(after, to, true) && enters(state, to, PipelineStatus::Shutdown, now) && to.error
                is None,
        !exited && now > state.status_since + 3_000 ==> kills(
            after,
            state,
            runner_cause(
                RunnerError::PipelineShutdownTimeout {
                    pipeline_id: automaton.pipeline_id,
                    timeout_millis: 3_000,
                },
            ),
            now,
        ),
        !exited && now <= state.status_since + 3_000 ==> sleeps(after, 300),
{
    lemma_phases(after, state, now);
    assert(looking.phase matches Phase::Probing(Probe::Exit, s) && s@ == state@);
    let cause = runner_cause(
        RunnerError::PipelineShutdownTimeout {
            pipeline_id: automaton.pipeline_id,
            timeout_millis: 3_000,
        },
    );
    if exited {
        assert(saves(after, after.phase->Saving_0, true));
    } else if now > state.status_since + 3_000 {
        assert(after.phase@ == PhaseView::Saving(killed(state@, Some(cause@), now), true));
    }
}

/// A pipeline that failed is saved as shut down, with its error, where the user asks for
/// that.  Nothing is done for one that the user asks nothing of: one that failed, one that is
/// shut down and meant to be so, or one on its way up that is not meant to be up or down.
pub proof fn pipelines_at_rest_are_left_alone(
    automaton: PipelineAutomaton,
    state: PipelineRuntimeState,
    now: i64,
    after: PipelineAutomaton,
)
    requires
        automaton.phase is Reading,
        call_ensures(PipelineAutomaton::do_run, (automaton, Event::State(Ok(state)), now), after),
    ensures
        state.current_status == PipelineStatus::Failed && state.desired_status
            == PipelineStatus::Shutdown ==> exists|to: PipelineRuntimeState| #[trigger]
            saves(after, to, false) && enters(state, to, PipelineStatus::Shutdown, now)
                && (match (to.error, state.error) {
                (Some(kept), Some(failure)) => same_failure(kept, failure),
                (None, None) => true,
                _ => false,
            }),
        state.current_status == PipelineStatus::Failed && state.desired_status
            != PipelineStatus::Shutdown ==> sleeps(after, 10_000),
        state.current_status == PipelineStatus::Shutdown && state.desired_status
            == PipelineStatus::Shutdown ==> sleeps(after, 10_000),
        (state.current_status == PipelineStatus::Provisioning || state.current_status
            == PipelineStatus::Initializing) && state.desired_status != PipelineStatus::Running
            && state.desired_status != PipelineStatus::Paused && state.desired_status
            != PipelineStatus::Shutdown ==> sleeps(after, 10_000),
{
    lemma_phases(after, state, now);
    if after.phase is Saving {
        let to = after.phase->Saving_0;
        assert(saves(after, to, after.phase->Saving_1));
        if let (Some(kept), Some(failure)) = (to.error, state.error) {
            assert(kept@ == failure@ ==> same_failure(kept, failure));
        }
    }
}

/// An error of the database ends the automaton, wherever it comes.
pub proof fn database_errors_end_the_automaton(
    automaton: PipelineAutomaton,
    error: DbError,
    now: i64,
    after: PipelineAutomaton,
)
    ensures
        automaton.phase is Reading && call_ensures(
            PipelineAutomaton::do_run,
            (automaton, Event::State(Err(error)), now),
            after,
        ) ==> stops(after, error),
        automaton.phase is Committing && call_ensures(
            PipelineAutomaton::do_run,
            (automaton, Event::Revision(Err(error)), now),
            after,
        ) ==> stops(after, error),
        (automaton.phase is Provisioning || automaton.phase is Saving) && call_ensures(
            PipelineAutomaton::do_run,
            (automaton, Event::Saved(Err(error)), now),
            after,
        ) ==> stops(after, error),
{
    if after.phase@ == PhaseView::Stopped(ManagerFault::Db(error@)) {
        lemma_stops(after, error);
    }
}

/// A timeout expires with the first millisecond behind it, and stays expired.
pub proof fn timeouts_expire_and_stay_so(
    since: i64,
    timeout: u64,
    now: i64,
    later: i64,
    r: bool,
    r_later: bool,
)
    requires
        call_ensures(timeout_expired_at, (now, since, timeout), r),
        call_ensures(timeout_expired_at, (later, since, timeout), r_later),
    ensures
        now - since == timeout ==> !r,
        now - since == timeout + 1 ==> r,
        now <= later && r ==> r_later,
{
}

/// The port in a port file is what its contents give when they are trimmed and read; a file
/// that cannot be read tells none.
pub proof fn port_files_are_read(
    id: PipelineId,
    contents: Option<String>,
    text: &str,
    port: Result<u16, NumberError>,
    told: &'static str,
    r: Result<Option<u16>, RunnerError>,
)
    requires
        call_ensures(read_pipeline_port_file, (id, contents), r),
        contents matches Some(all) ==> exists|s: &str, t: String|
            s@ == all@ && text@ == t@ && #[trigger] call_ensures(trim, (s,), t),
        call_ensures(parse_port, (text,), port),
        port matches Err(e) ==> call_ensures(NumberError::text, (e,), told),
    ensures
        contents is None ==> r == Ok::<Option<u16>, RunnerError>(None),
        contents is Some && port is Ok ==> r == Ok::<Option<u16>, RunnerError>(Some(port->Ok_0)),
        contents is Some && port is Err ==> (r matches Err(
            RunnerError::PortFileParseError { pipeline_id, error },
        ) && pipeline_id == id && error@ == told@),
{
}

/// Only the answer to its action moves the automaton: a wake-up while it sleeps, the state
/// while it reads, the revision while it commits, what came of saving, launching, looking at
/// the port file or the process, and the answer to a request.
pub proof fn only_answers_move_the_automaton(
    automaton: PipelineAutomaton,
    event: Event,
    now: i64,
    after: PipelineAutomaton,
)
    requires
        call_ensures(PipelineAutomaton::do_run, (automaton, event, now), after),
        !(automaton.phase is Waiting && event is Woken),
        !(automaton.phase is Reading && event is State),
        !(automaton.phase is Committing && event is Revision),
        !((automaton.phase is Provisioning || automaton.phase is Saving) && event is Saved),
        !(automaton.phase is Launching && event is Launched),
        !(automaton.phase is Probing && (event is PortFile || event is Process || event
            is Response)),
    ensures
        after.phase@ == automaton.phase@,
{
}

/// What is looked at says what is asked of the pipeline: it is started, paused or shut down
/// where the user asks for another state than it is in, a process is provisioned for a pipeline
/// that has none and is meant to have one, and one that is not up yet is killed where it is not
/// meant to be.
pub proof fn probes_follow_from_the_states(
    current: PipelineStatus,
    desired: PipelineStatus,
    r: Probe,
)
    requires
        call_ensures(choose_probe, (current, desired), r),
    ensures
        r == Probe::Provision <==> current == PipelineStatus::Shutdown && desired
            != PipelineStatus::Shutdown,
        r == Probe::Start <==> current == PipelineStatus::Paused && desired
            == PipelineStatus::Running,
        r == Probe::Pause <==> current == PipelineStatus::Running && desired
            == PipelineStatus::Paused,
        r == Probe::Shutdown <==> (current == PipelineStatus::Running || current
            == PipelineStatus::Paused) && desired == PipelineStatus::Shutdown,
        r == Probe::Kill <==> (current == PipelineStatus::Provisioning || current
            == PipelineStatus::Initializing) && desired == PipelineStatus::Shutdown,
        r == Probe::PortFile <==> current == PipelineStatus::Provisioning && (desired
            == PipelineStatus::Running || desired == PipelineStatus::Paused),
        r == Probe::Initialization <==> current == PipelineStatus::Initializing && (desired
            == PipelineStatus::Running || desired == PipelineStatus::Paused),
        r == Probe::Exit <==> current == PipelineStatus::ShuttingDown,
        r == Probe::Clear <==> current == PipelineStatus::Failed && desired
            == PipelineStatus::Shutdown,
        r == Probe::Monitor ==> current == PipelineStatus::Running || current
            == PipelineStatus::Paused,
{
}

/// A pipeline whose process was killed is shut down where the user asked for that, and has
/// failed otherwise; the cause is kept.
pub proof fn killed_pipelines_have_failed(
    state: PipelineRuntimeState,
    error: Option<Failure>,
    now: i64,
    r: PipelineRuntimeState,
)
    requires
        call_ensures(force_kill_pipeline, (state, error, now), r),
    ensures
        enters(
            state,
            r,
            if state.desired_status == PipelineStatus::Shutdown {
                PipelineStatus::Shutdown
            } else {
                PipelineStatus::Failed
            },
            now,
        ),
        match (r.error, error) {
            (Some(a), Some(b)) => same_failure(a, b),
            (None, None) => true,
            _ => false,
        },
{
    if let (Some(a), Some(b)) = (r.error, error) {
        assert(a@ == b@);
    }
}

/// An answer that is no error response is told with its status and its body.
pub proof fn unexpected_answers_are_told(id: PipelineId, status: &str, body: &str, r: Failure)
    requires
        call_ensures(unexpected_response, (id, status, body), r),
    ensures
        r matches Failure::Manager(
            ManagerError::Runner(RunnerError::HttpForwardError { pipeline_id, error }),
        ) && pipeline_id == id && error@ == "Pipeline returned HTTP status "@ + status@
            + ", response body:"@ + body@,
{
}

} // verus!
