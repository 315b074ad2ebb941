//! Requests to change the state of pipelines, and requests forwarded to them.

use crate::pipeline_manager::error::{
    same_db_error, DbError, DbFault, ManagerError, ManagerFault, PipelineStatus, RunnerError,
    RunnerFault,
};
use crate::pipeline_manager::ids::{
    has_version, hex_value, id_text, revision_bits, versions_are_shown, PipelineId,
};
use crate::pipeline_manager::state::{PipelineRuntimeState, StateView};
use crate::text::{
    all_digits, cat3, cat4, decimal_value, lemma_decimal_text, nat_text, unsigned_text,
};
use vstd::prelude::*;

verus! {

/// Why a request is refused in the given state, where it is.  Without a requested
/// status the request is to delete the pipeline.
pub open spec fn refusal(state: StateView, request: Option<PipelineStatus>) -> Option<Seq<char>> {
    match request {
        None => if state.current == PipelineStatus::Shutdown && state.desired
            == PipelineStatus::Shutdown {
            None
        } else {
            Some(
                "Cannot delete a running pipeline. Shutdown the pipeline first by invoking the '/shutdown' endpoint."@,
            )
        },
        Some(status) => if status != PipelineStatus::Paused && status != PipelineStatus::Running {
            None
        } else if state.desired == PipelineStatus::Shutdown && state.current
            != PipelineStatus::Shutdown {
            Some(
                "Cannot restart the pipeline while it is shutting down. Wait for the shutdown to complete before starting a new instance of the pipeline."@,
            )
        } else if state.desired != PipelineStatus::Shutdown && (state.current
            == PipelineStatus::ShuttingDown || state.current == PipelineStatus::Failed) {
            Some(
                "Cannot restart a failed pipeline. Clear the error state first by invoking the '/shutdown' endpoint."@,
            )
        } else {
            None
        },
    }
}

/// A pipeline is deleted only when it is shut down and meant to be so.
pub proof fn only_shut_down_pipelines_are_deleted(state: StateView)
    ensures
        refusal(state, None) is None <==> state.current == PipelineStatus::Shutdown
            && state.desired == PipelineStatus::Shutdown,
{
}

/// A pipeline can be told to shut down in every state.
pub proof fn shutdown_is_never_refused(state: StateView)
    ensures
        refusal(state, Some(PipelineStatus::Shutdown)) is None,
{
}

/// A pipeline can be told to pause or run exactly when it is shut down, or when it
/// is not meant to shut down and has neither failed nor begun to exit.
pub proof fn restart_waits_for_shutdown(state: StateView, status: PipelineStatus)
    requires
        status == PipelineStatus::Paused || status == PipelineStatus::Running,
    ensures
        refusal(state, Some(status)) is None <==> state.current == PipelineStatus::Shutdown || (
        state.desired != PipelineStatus::Shutdown && state.current != PipelineStatus::ShuttingDown
            && state.current != PipelineStatus::Failed),
{
}

/// The states in which a pipeline cannot be reached.
pub open spec fn is_unreachable(status: PipelineStatus) -> bool {
    status == PipelineStatus::Shutdown || status == PipelineStatus::Failed || status
        == PipelineStatus::Provisioning
}

/// The address of an endpoint of a pipeline.
pub open spec fn endpoint_address(port: u16, endpoint: Seq<char>) -> Seq<char> {
    "http://localhost:"@ + nat_text(port as nat) + "/"@ + endpoint
}

/// A component responsible for running and interacting with pipelines at runtime.
pub struct Runner;

impl Runner {
    /// Checks whether the status of a pipeline may be changed as requested; without
    /// a requested status, whether the pipeline may be deleted.
    pub fn validate_desired_state_request(
        pipeline_id: PipelineId,
        pipeline_state: &PipelineRuntimeState,
        request: Option<PipelineStatus>,
    ) -> (r: Result<(), RunnerError>)
        ensures
            match refusal(pipeline_state@, request) {
                None => r is Ok,
                Some(reason) => r matches Err(e) && e@ == RunnerFault::IllegalTransition(
                    pipeline_id,
                    reason,
                    pipeline_state.current_status,
                    pipeline_state.desired_status,
                    request,
                ),
            },
    {
        let current = pipeline_state.current_status;
        let desired = pipeline_state.desired_status;
        let reason = match request {
            None => {
                if current != PipelineStatus::Shutdown || desired != PipelineStatus::Shutdown {
                    "Cannot delete a running pipeline. Shutdown the pipeline first by invoking the '/shutdown' endpoint."
                } else {
                    return Ok(());
                }
            },
            Some(status) => {
                if status != PipelineStatus::Paused && status != PipelineStatus::Running {
                    return Ok(());
                }
                if desired == PipelineStatus::Shutdown && current != PipelineStatus::Shutdown {
                    "Cannot restart the pipeline while it is shutting down. Wait for the shutdown to complete before starting a new instance of the pipeline."
                } else if desired != PipelineStatus::Shutdown && (current
                    == PipelineStatus::ShuttingDown || current == PipelineStatus::Failed) {
                    "Cannot restart a failed pipeline. Clear the error state first by invoking the '/shutdown' endpoint."
                } else {
                    return Ok(());
                }
            },
        };
        Err(
            RunnerError::IllegalPipelineStateTransition {
                pipeline_id,
                error: reason.to_owned(),
                current_status: current,
                desired_status: desired,
                requested_status: request,
            },
        )
    }

    /// Whether an error of creating a revision can be passed over: it can where
    /// nothing has changed since the last revision.
    pub fn commit_revision(result: Result<(), DbError>) -> (r: Result<(), DbError>)
        ensures
            match result {
                Ok(_) => r is Ok,
                Err(e) => if e@ == DbFault::RevisionNotChanged {
                    r is Ok
                } else {
                    r == Err::<(), DbError>(e)
                },
            },
    {
        match result {
            Ok(_) => Ok(()),
            Err(DbError::RevisionNotChanged) => Ok(()),
            Err(e) => Err(e),
        }
    }

    /// The address to forward a request to, where the pipeline can be reached.
    pub fn forward_to_pipeline(
        pipeline_id: PipelineId,
        pipeline_state: &PipelineRuntimeState,
        endpoint: &str,
    ) -> (r: Result<String, RunnerError>)
        ensures
            if is_unreachable(pipeline_state.current_status) {
                r matches Err(e) && e@ == RunnerFault::PipelineShutdown(pipeline_id)
            } else {
                r matches Ok(url) && url@ == endpoint_address(pipeline_state.port, endpoint@)
            },
    {
        match pipeline_state.current_status {
            PipelineStatus::Shutdown | PipelineStatus::Failed | PipelineStatus::Provisioning => {
                Err(RunnerError::PipelineShutdown { pipeline_id })
            },
            _ => Ok(Self::pipeline_http_request(pipeline_state.port, endpoint)),
        }
    }

    /// The address of an endpoint of the pipeline at a port.
    pub fn pipeline_http_request(port: u16, endpoint: &str) -> (r: String)
        ensures
            r@ == endpoint_address(port, endpoint@),
    {
        let port_text = unsigned_text(port as u128);
        cat4("http://localhost:", port_text.as_str(), "/", endpoint)
    }

    /// The address to forward a stream to, with the query of the request, where the
    /// pipeline can be reached.
    pub fn forward_to_pipeline_as_stream(
        pipeline_id: PipelineId,
        pipeline_state: &PipelineRuntimeState,
        endpoint: &str,
        query: &str,
    ) -> (r: Result<String, RunnerError>)
        ensures
            if is_unreachable(pipeline_state.current_status) {
                r matches Err(e) && e@ == RunnerFault::PipelineShutdown(pipeline_id)
            } else {
                r matches Ok(url) && url@ == endpoint_address(pipeline_state.port, endpoint@)
                    + "?"@ + query@
            },
    {
        let address = Self::forward_to_pipeline(pipeline_id, pipeline_state, endpoint)?;
        Ok(cat3(address.as_str(), "?", query))
    }

    /// The headers to pass on: all but `connection`, in their order.  Names are in
    /// lower case.
    pub fn forwarded_headers(headers: Vec<(String, Vec<u8>)>) -> (r: Vec<(String, Vec<u8>)>)
        ensures
            r@ == headers@.filter(|h: (String, Vec<u8>)| h.0@ != "connection"@),
    {
        let ghost all = headers@;
        let ghost keep = |h: (String, Vec<u8>)| h.0@ != "connection"@;
        let mut rest = headers;
        let mut kept: Vec<(String, Vec<u8>)> = Vec::new();
        let connection = "connection".to_owned();
        proof {
            assert(all.skip(all.len() as int).filter(keep) =~= Seq::empty()) by {
                all.skip(all.len() as int).lemma_filter_len(keep);
            }
        }
        while rest.len() > 0
            invariant
                rest@.len() <= all.len(),
                rest@ =~= all.take(rest@.len() as int),
                connection@ == "connection"@,
                keep == (|h: (String, Vec<u8>)| h.0@ != "connection"@),
                kept@.reverse() =~= all.skip(rest@.len() as int).filter(keep),
            decreases rest@.len(),
        {
            let ghost n = rest@.len() - 1;
            let ghost before = kept@;
            match rest.pop() {
                Some(header) => {
                    proof {
                        assert(header == all[n]);
                        assert(all.skip(n) =~= seq![header] + all.skip(n + 1));
                        Seq::filter_distributes_over_add(seq![header], all.skip(n + 1), keep);
                        reveal_with_fuel(Seq::filter, 2);
                        assert(seq![header].drop_last() =~= Seq::empty());
                        assert(seq![header].filter(keep) =~= if keep(header) {
                            seq![header]
                        } else {
                            Seq::empty()
                        });
                        assert(all.skip(n).filter(keep) == seq![header].filter(keep) + all.skip(
                            n + 1,
                        ).filter(keep));
                    }
                    if header.0 != connection {
                        kept.push(header);
                        assert(kept@.reverse() =~= seq![header] + before.reverse());
                    } else {
                        assert(kept@.reverse() =~= Seq::<(String, Vec<u8>)>::empty() + before.reverse());
                    }
                },
                None => {},
            }
        }
        let mut result: Vec<(String, Vec<u8>)> = Vec::new();
        let ghost stack = kept@;
        while kept.len() > 0
            invariant
                kept@.len() <= stack.len(),
                kept@ =~= stack.take(kept@.len() as int),
                result@ =~= stack.skip(kept@.len() as int).reverse(),
            decreases kept@.len(),
        {
            match kept.pop() {
                Some(header) => {
                    result.push(header);
                },
                None => {},
            }
        }
        assert(result@ =~= stack.reverse());
        assert(all.skip(0) =~= all);
        result
    }

    /// The error of a request that could not be forwarded.
    pub fn forward_error(pipeline_id: PipelineId, error: String) -> (r: RunnerError)
        ensures
            r@ == RunnerFault::HttpForward(pipeline_id, error@),
    {
        RunnerError::HttpForwardError { pipeline_id, error }
    }
}

/// What a user asks of a pipeline.
#[derive(Debug, Clone, Copy, PartialEq, Eq, Structural)]
pub enum PipelineRequest {
    /// Start a new pipeline.
    Deploy,
    /// Shut the pipeline down, and keep its state in the database and the file
    /// system.
    Shutdown,
    /// Pause the pipeline.
    Pause,
    /// Run the pipeline.
    Start,
    /// Delete the pipeline from the database; shut it down first if it is running.
    Delete,
}

/// How long, in milliseconds, a deletion waits before it looks again whether the
/// pipeline has shut down.
pub const DELETION_POLL_PERIOD: u64 = 300;

/// The status that a request asks for; deletion asks for none.
pub open spec fn status_wanted(request: PipelineRequest) -> Option<PipelineStatus> {
    match request {
        PipelineRequest::Deploy | PipelineRequest::Pause => Some(PipelineStatus::Paused),
        PipelineRequest::Shutdown => Some(PipelineStatus::Shutdown),
        PipelineRequest::Start => Some(PipelineStatus::Running),
        PipelineRequest::Delete => None,
    }
}

/// What a request waits for.
#[derive(Debug, Clone, Copy, PartialEq, Eq, Structural)]
pub enum ControlStage {
    /// A new revision of the pipeline.
    Commit,
    /// The runtime state of the pipeline.
    Read,
    /// The pipeline to be told to shut down, before it is deleted.
    Stop,
    /// The automaton of a pipeline that is to shut down.
    Nudge,
    /// The pipeline to shut down.
    Wait,
    /// The change in the database.
    Write,
    /// The automaton of the pipeline.
    Notify,
}

/// What to do for a request.
#[derive(Debug, Clone, Copy)]
pub enum ControlAction {
    /// Create a revision with the given identifier.
    CreateRevision(u128),
    /// Read the runtime state.
    ReadState,
    /// Write the desired status.
    SetDesiredStatus(PipelineStatus),
    /// Delete the pipeline from the database.
    DeletePipeline,
    /// Notify the automaton.
    NotifyAutomaton,
    /// Wait for so many milliseconds.
    Wait(u64),
}

/// What came of it.
#[derive(Debug)]
pub enum ControlAnswer {
    /// The database was changed, or not.
    Changed(Result<(), DbError>),
    /// The runtime state.
    State(Result<PipelineRuntimeState, DbError>),
    /// The automaton was notified.
    Notified,
    /// The time is up.
    Waited,
}

/// What came of it, its texts as characters.
pub enum AnswerView {
    Changed(Result<(), DbFault>),
    State(Result<StateView, DbFault>),
    Notified,
    Waited,
}

impl View for ControlAnswer {
    type V = AnswerView;

    open spec fn view(&self) -> AnswerView {
        match *self {
            ControlAnswer::Changed(Ok(_)) => AnswerView::Changed(Ok(())),
            ControlAnswer::Changed(Err(e)) => AnswerView::Changed(Err(e@)),
            ControlAnswer::State(Ok(state)) => AnswerView::State(Ok(state@)),
            ControlAnswer::State(Err(e)) => AnswerView::State(Err(e@)),
            ControlAnswer::Notified => AnswerView::Notified,
            ControlAnswer::Waited => AnswerView::Waited,
        }
    }
}

/// How a request goes on.
pub enum ControlStep {
    Next(ControlStage),
    Done,
    Failed(ManagerFault),
}

/// How a request goes on after an answer; an answer to something else leaves it
/// where it is.
pub open spec fn control_step(
    pipeline_id: PipelineId,
    request: PipelineRequest,
    stage: ControlStage,
    answer: AnswerView,
) -> ControlStep {
    match (stage, answer) {
        (ControlStage::Commit, AnswerView::Changed(Ok(_))) => ControlStep::Next(ControlStage::Read),
        (ControlStage::Commit, AnswerView::Changed(Err(e))) => if e == DbFault::RevisionNotChanged {
            ControlStep::Next(ControlStage::Read)
        } else {
            ControlStep::Failed(ManagerFault::Db(e))
        },
        (ControlStage::Read, AnswerView::State(Ok(state))) => match refusal(
            state,
            status_wanted(request),
        ) {
            None => ControlStep::Next(ControlStage::Write),
            Some(reason) => if request != PipelineRequest::Delete {
                ControlStep::Failed(
                    ManagerFault::Runner(
                        RunnerFault::IllegalTransition(
                            pipeline_id,
                            reason,
                            state.current,
                            state.desired,
                            status_wanted(request),
                        ),
                    ),
                )
            } else if state.desired == PipelineStatus::Shutdown {
                ControlStep::Next(ControlStage::Wait)
            } else {
                ControlStep::Next(ControlStage::Stop)
            },
        },
        (ControlStage::Read, AnswerView::State(Err(e))) => ControlStep::Failed(ManagerFault::Db(e)),
        (ControlStage::Stop, AnswerView::Changed(Ok(_))) => ControlStep::Next(ControlStage::Nudge),
        (ControlStage::Stop, AnswerView::Changed(Err(e))) => ControlStep::Failed(
            ManagerFault::Db(e),
        ),
        (ControlStage::Nudge, AnswerView::Notified) => ControlStep::Next(ControlStage::Wait),
        (ControlStage::Wait, AnswerView::Waited) => ControlStep::Next(ControlStage::Read),
        (ControlStage::Write, AnswerView::Changed(Ok(_))) => ControlStep::Next(ControlStage::Notify),
        (ControlStage::Write, AnswerView::Changed(Err(e))) => ControlStep::Failed(
            ManagerFault::Db(e),
        ),
        (ControlStage::Notify, AnswerView::Notified) => ControlStep::Done,
        (_, _) => ControlStep::Next(stage),
    }
}

/// A request on its way.
#[derive(Debug, Clone, Copy)]
pub struct Control {
    pub pipeline_id: PipelineId,
    pub request: PipelineRequest,
    pub stage: ControlStage,
}

/// How a request goes on.
#[derive(Debug, Clone)]
pub enum ControlProgress {
    Next(Control),
    Done,
    Failed(ManagerError),
}

impl Control {
    /// Takes a request up.  Only a deployment creates a revision first.
    pub fn new(pipeline_id: PipelineId, request: PipelineRequest) -> (r: Self)
        ensures
            r.pipeline_id == pipeline_id,
            r.request == request,
            r.stage == if request == PipelineRequest::Deploy {
                ControlStage::Commit
            } else {
                ControlStage::Read
            },
    {
        let stage = if request == PipelineRequest::Deploy {
            ControlStage::Commit
        } else {
            ControlStage::Read
        };
        Control { pipeline_id, request, stage }
    }

    /// The status that the request asks for.
    pub fn wanted(&self) -> (r: Option<PipelineStatus>)
        ensures
            r == status_wanted(self.request),
    {
        match self.request {
            PipelineRequest::Deploy | PipelineRequest::Pause => Some(PipelineStatus::Paused),
            PipelineRequest::Shutdown => Some(PipelineStatus::Shutdown),
            PipelineRequest::Start => Some(PipelineStatus::Running),
            PipelineRequest::Delete => None,
        }
    }

    /// What to do next.
    pub fn action(&self) -> (r: ControlAction)
        ensures
            match self.stage {
                ControlStage::Commit => r matches ControlAction::CreateRevision(bits)
                    && has_version(bits, 7),
                ControlStage::Read => r is ReadState,
                ControlStage::Stop => r == ControlAction::SetDesiredStatus(
                    PipelineStatus::Shutdown,
                ),
                ControlStage::Nudge => r is NotifyAutomaton,
                ControlStage::Wait => r == ControlAction::Wait(DELETION_POLL_PERIOD),
                ControlStage::Write => match status_wanted(self.request) {
                    Some(status) => r == ControlAction::SetDesiredStatus(status),
                    None => r is DeletePipeline,
                },
                ControlStage::Notify => r is NotifyAutomaton,
            },
    {
        match self.stage {
            ControlStage::Commit => ControlAction::CreateRevision(revision_bits()),
            ControlStage::Read => ControlAction::ReadState,
            ControlStage::Stop => ControlAction::SetDesiredStatus(PipelineStatus::Shutdown),
            ControlStage::Nudge => ControlAction::NotifyAutomaton,
            ControlStage::Wait => ControlAction::Wait(DELETION_POLL_PERIOD),
            ControlStage::Write => match self.wanted() {
                Some(status) => ControlAction::SetDesiredStatus(status),
                None => ControlAction::DeletePipeline,
            },
            ControlStage::Notify => ControlAction::NotifyAutomaton,
        }
    }

    /// Takes an answer.
    pub fn reply(self, answer: ControlAnswer) -> (r: ControlProgress)
        ensures
            match control_step(self.pipeline_id, self.request, self.stage, answer@) {
                ControlStep::Next(stage) => r == ControlProgress::Next(Control { stage, ..self }),
                ControlStep::Done => r is Done,
                ControlStep::Failed(fault) => r matches ControlProgress::Failed(e) && e@ == fault,
            },
    {
        match (self.stage, answer) {
            (ControlStage::Commit, ControlAnswer::Changed(result)) => {
                match Runner::commit_revision(result) {
                    Ok(_) => ControlProgress::Next(Control { stage: ControlStage::Read, ..self }),
                    Err(e) => ControlProgress::Failed(ManagerError::Db(e)),
                }
            },
            (ControlStage::Read, ControlAnswer::State(Ok(state))) => {
                match Runner::validate_desired_state_request(
                    self.pipeline_id,
                    &state,
                    self.wanted(),
                ) {
                    Ok(_) => ControlProgress::Next(Control { stage: ControlStage::Write, ..self }),
                    Err(e) => {
                        if self.request != PipelineRequest::Delete {
                            ControlProgress::Failed(ManagerError::Runner(e))
                        } else if state.desired_status == PipelineStatus::Shutdown {
                            ControlProgress::Next(Control { stage: ControlStage::Wait, ..self })
                        } else {
                            ControlProgress::Next(Control { stage: ControlStage::Stop, ..self })
                        }
                    },
                }
            },
            (ControlStage::Read, ControlAnswer::State(Err(e))) => ControlProgress::Failed(
                ManagerError::Db(e),
            ),
            (ControlStage::Stop, ControlAnswer::Changed(Ok(_))) => ControlProgress::Next(
                Control { stage: ControlStage::Nudge, ..self },
            ),
            (ControlStage::Stop, ControlAnswer::Changed(Err(e))) => ControlProgress::Failed(
                ManagerError::Db(e),
            ),
            (ControlStage::Nudge, ControlAnswer::Notified) => ControlProgress::Next(
                Control { stage: ControlStage::Wait, ..self },
            ),
            (ControlStage::Wait, ControlAnswer::Waited) => ControlProgress::Next(
                Control { stage: ControlStage::Read, ..self },
            ),
            (ControlStage::Write, ControlAnswer::Changed(Ok(_))) => ControlProgress::Next(
                Control { stage: ControlStage::Notify, ..self },
            ),
            (ControlStage::Write, ControlAnswer::Changed(Err(e))) => ControlProgress::Failed(
                ManagerError::Db(e),
            ),
            (ControlStage::Notify, ControlAnswer::Notified) => ControlProgress::Done,
            (_, _) => ControlProgress::Next(self),
        }
    }
}

/// What a request asks for is written only after the state of the pipeline has been
/// read and does not refuse it: no other answer leads to the writing stage.
pub proof fn nothing_is_written_before_validation(
    pipeline_id: PipelineId,
    request: PipelineRequest,
    stage: ControlStage,
    answer: AnswerView,
)
    requires
        stage != ControlStage::Write,
        control_step(pipeline_id, request, stage, answer) == ControlStep::Next(ControlStage::Write),
    ensures
        stage == ControlStage::Read,
        answer matches AnswerView::State(Ok(state)) && refusal(state, status_wanted(request))
            is None,
{
}

/// A request that ends well has notified the automaton, and the automaton is
/// notified only after the change in the database succeeded.
pub proof fn success_follows_the_change(
    pipeline_id: PipelineId,
    request: PipelineRequest,
    stage: ControlStage,
    answer: AnswerView,
)
    ensures
        control_step(pipeline_id, request, stage, answer) is Done ==> stage == ControlStage::Notify,
        stage != ControlStage::Notify && control_step(pipeline_id, request, stage, answer)
            == ControlStep::Next(ControlStage::Notify) ==> stage == ControlStage::Write && (answer
            matches AnswerView::Changed(result) && result is Ok),
{
}

/// The answer to what a request waits for, given those of the database.
pub open spec fn answer_at(
    stage: ControlStage,
    revision: Result<(), DbFault>,
    state: Result<StateView, DbFault>,
    change: Result<(), DbFault>,
) -> AnswerView {
    match stage {
        ControlStage::Commit => AnswerView::Changed(revision),
        ControlStage::Read => AnswerView::State(state),
        ControlStage::Stop | ControlStage::Write => AnswerView::Changed(change),
        ControlStage::Nudge | ControlStage::Notify => AnswerView::Notified,
        ControlStage::Wait => AnswerView::Waited,
    }
}

/// How many stages can still come.
pub open spec fn control_rank(stage: ControlStage) -> nat {
    match stage {
        ControlStage::Commit => 7,
        ControlStage::Read => 6,
        ControlStage::Stop => 5,
        ControlStage::Nudge => 4,
        ControlStage::Wait => 3,
        ControlStage::Write => 2,
        ControlStage::Notify => 1,
    }
}

/// Why a request other than a deletion fails in the end, where it does.
pub open spec fn control_run(
    pipeline_id: PipelineId,
    request: PipelineRequest,
    stage: ControlStage,
    revision: Result<(), DbFault>,
    state: Result<StateView, DbFault>,
    change: Result<(), DbFault>,
) -> Option<ManagerFault>
    decreases control_rank(stage),
{
    match control_step(pipeline_id, request, stage, answer_at(stage, revision, state, change)) {
        ControlStep::Next(next) => if control_rank(next) < control_rank(stage) {
            control_run(pipeline_id, request, next, revision, state, change)
        } else {
            None
        },
        ControlStep::Done => None,
        ControlStep::Failed(fault) => Some(fault),
    }
}

/// A request to shut down, pause or start a pipeline fails exactly when the state
/// cannot be read, when the state refuses it, or when the database cannot be changed.
pub proof fn requests_fail_as_described(
    pipeline_id: PipelineId,
    request: PipelineRequest,
    revision: Result<(), DbFault>,
    state: Result<StateView, DbFault>,
    change: Result<(), DbFault>,
)
    requires
        request != PipelineRequest::Delete,
    ensures
        control_run(pipeline_id, request, ControlStage::Read, revision, state, change) == match state {
            Err(e) => Some(ManagerFault::Db(e)),
            Ok(s) => match refusal(s, status_wanted(request)) {
                Some(reason) => Some(
                    ManagerFault::Runner(
                        RunnerFault::IllegalTransition(
                            pipeline_id,
                            reason,
                            s.current,
                            s.desired,
                            status_wanted(request),
                        ),
                    ),
                ),
                None => match change {
                    Err(e) => Some(ManagerFault::Db(e)),
                    Ok(_) => None,
                },
            },
        },
{
    reveal_with_fuel(control_run, 4);
}

/// A deployment fails when its revision cannot be created, unless because nothing
/// has changed, and goes on like any other request otherwise.
pub proof fn deployments_commit_first(
    pipeline_id: PipelineId,
    request: PipelineRequest,
    revision: Result<(), DbFault>,
    state: Result<StateView, DbFault>,
    change: Result<(), DbFault>,
)
    ensures
        control_run(pipeline_id, request, ControlStage::Commit, revision, state, change)
            == match revision {
            Err(DbFault::Other(message)) => Some(ManagerFault::Db(DbFault::Other(message))),
            _ => control_run(pipeline_id, request, ControlStage::Read, revision, state, change),
        },
{
    reveal_with_fuel(control_run, 2);
}

/// The pipeline is shut down and meant to be so.
pub open spec fn is_down(state: StateView) -> bool {
    state.current == PipelineStatus::Shutdown && state.desired == PipelineStatus::Shutdown
}

/// Where a request stands after a sequence of answers.
pub open spec fn control_after(
    pipeline_id: PipelineId,
    request: PipelineRequest,
    stage: ControlStage,
    answers: Seq<AnswerView>,
) -> ControlStep
    decreases answers.len(),
{
    if answers.len() == 0 {
        ControlStep::Next(stage)
    } else {
        match control_step(pipeline_id, request, stage, answers[0]) {
            ControlStep::Next(next) => control_after(
                pipeline_id,
                request,
                next,
                answers.skip(1),
            ),
            end => end,
        }
    }
}

/// What a deletion is answered when its reads of the state give `reads`, one after the
/// other, and all changes of the database succeed.
pub open spec fn deletion_answers(reads: Seq<StateView>) -> Seq<AnswerView>
    decreases reads.len(),
{
    if reads.len() == 0 {
        Seq::empty()
    } else {
        let read = AnswerView::State(Ok(reads[0]));
        if is_down(reads[0]) {
            seq![read, AnswerView::Changed(Ok(())), AnswerView::Notified]
        } else if reads[0].desired == PipelineStatus::Shutdown {
            seq![read, AnswerView::Waited] + deletion_answers(reads.skip(1))
        } else {
            seq![read, AnswerView::Changed(Ok(())), AnswerView::Notified, AnswerView::Waited]
                + deletion_answers(reads.skip(1))
        }
    }
}

/// A deletion is never refused: a pipeline that is running is shut down first.  However
/// long that takes, the deletion succeeds once the pipeline is found to be shut down.
pub proof fn deletions_shut_down_first(pipeline_id: PipelineId, reads: Seq<StateView>)
    requires
        reads.len() > 0,
        forall|i: int| 0 <= i < reads.len() - 1 ==> !is_down(#[trigger] reads[i]),
        is_down(reads.last()),
    ensures
        control_after(
            pipeline_id,
            PipelineRequest::Delete,
            ControlStage::Read,
            deletion_answers(reads),
        ) is Done,
    decreases reads.len(),
{
    let answers = deletion_answers(reads);
    reveal_with_fuel(control_after, 5);
    if is_down(reads[0]) {
        assert(answers.skip(1)[0] == AnswerView::Changed(Ok(())));
        assert(answers.skip(1).skip(1)[0] == AnswerView::Notified);
    } else {
        let rest = reads.skip(1);
        assert forall|i: int| 0 <= i < rest.len() - 1 implies !is_down(#[trigger] rest[i]) by {
            assert(rest[i] == reads[i + 1]);
        }
        deletions_shut_down_first(pipeline_id, rest);
        if reads[0].desired == PipelineStatus::Shutdown {
            assert(answers.skip(1)[0] == AnswerView::Waited);
            assert(answers.skip(1).skip(1) =~= deletion_answers(rest));
        } else {
            assert(answers.skip(1)[0] == AnswerView::Changed(Ok(())));
            assert(answers.skip(1).skip(1)[0] == AnswerView::Notified);
            assert(answers.skip(1).skip(1).skip(1)[0] == AnswerView::Waited);
            assert(answers.skip(1).skip(1).skip(1).skip(1) =~= deletion_answers(rest));
        }
    }
}

/// A deletion fails only because of the database, and a pipeline that is not meant to
/// shut down is told to before anything else.
pub proof fn deletions_are_not_refused(
    pipeline_id: PipelineId,
    stage: ControlStage,
    answer: AnswerView,
    state: StateView,
)
    ensures
        control_step(pipeline_id, PipelineRequest::Delete, stage, answer) matches
            ControlStep::Failed(fault) ==> fault is Db,
        control_step(
            pipeline_id,
            PipelineRequest::Delete,
            ControlStage::Read,
            AnswerView::State(Ok(state)),
        ) == ControlStep::Next(
            if is_down(state) {
                ControlStage::Write
            } else if state.desired == PipelineStatus::Shutdown {
                ControlStage::Wait
            } else {
                ControlStage::Stop
            },
        ),
{
}

/// The text is the address of an endpoint at a port of this machine: the port stands in
/// decimal between the name of the machine and the next slash, and the endpoint behind it.
pub open spec fn is_address(url: Seq<char>, port: u16, endpoint: Seq<char>) -> bool {
    exists|n: int|
        {
            let digits = #[trigger] url.subrange(17, n);
            &&& 17 < n < url.len()
            &&& url.take(17) == "http://localhost:"@
            &&& all_digits(digits)
            &&& decimal_value(digits) == port
            &&& digits[0] == '0' ==> digits.len() == 1
            &&& url[n] == '/'
            &&& url.skip(n + 1) == endpoint
        }
}

proof fn lemma_address(port: u16, endpoint: Seq<char>)
    ensures
        is_address(endpoint_address(port, endpoint), port, endpoint),
{
    let url = endpoint_address(port, endpoint);
    reveal_strlit("http://localhost:");
    reveal_strlit("/");
    lemma_decimal_text(port as nat);
    let n = 17 + nat_text(port as nat).len() as int;
    assert(url.subrange(17, n) =~= nat_text(port as nat));
    assert(url.take(17) =~= "http://localhost:"@);
    assert(url.skip(n + 1) =~= endpoint);
}

/// A request to a pipeline goes to the port of the pipeline, and to the endpoint that was
/// asked for; the port can be read back from the address.
pub proof fn addresses_carry_the_port(port: u16, endpoint: &str, r: String)
    requires
        call_ensures(Runner::pipeline_http_request, (port, endpoint), r),
    ensures
        is_address(r@, port, endpoint@),
{
    lemma_address(port, endpoint@);
}

/// Addresses with different ports differ.
pub proof fn different_ports_have_different_addresses(
    a: u16,
    b: u16,
    x: Seq<char>,
    y: Seq<char>,
    url: Seq<char>,
)
    requires
        is_address(url, a, x),
        is_address(url, b, y),
    ensures
        a == b,
        x == y,
{
    let m = choose|n: int|
        {
            let digits = #[trigger] url.subrange(17, n);
            &&& 17 < n < url.len()
            &&& url.take(17) == "http://localhost:"@
            &&& all_digits(digits)
            &&& decimal_value(digits) == a
            &&& digits[0] == '0' ==> digits.len() == 1
            &&& url[n] == '/'
            &&& url.skip(n + 1) == x
        };
    let n = choose|n: int|
        {
            let digits = #[trigger] url.subrange(17, n);
            &&& 17 < n < url.len()
            &&& url.take(17) == "http://localhost:"@
            &&& all_digits(digits)
            &&& decimal_value(digits) == b
            &&& digits[0] == '0' ==> digits.len() == 1
            &&& url[n] == '/'
            &&& url.skip(n + 1) == y
        };
    if m < n {
        assert(url.subrange(17, n)[m - 17] == '/');
    } else if n < m {
        assert(url.subrange(17, m)[n - 17] == '/');
    }
}

/// A request is forwarded to the port in the state of the pipeline, with its endpoint and
/// its query, unless the pipeline is shut down, has failed or has not told its port yet:
/// such a pipeline is reported not to be running.
pub proof fn requests_go_to_reachable_pipelines(
    id: PipelineId,
    state: PipelineRuntimeState,
    endpoint: &str,
    query: &str,
    r: Result<String, RunnerError>,
)
    ensures
        call_ensures(Runner::forward_to_pipeline, (id, &state, endpoint), r) ==> match r {
            Ok(url) => state.current_status != PipelineStatus::Shutdown && state.current_status
                != PipelineStatus::Failed && state.current_status != PipelineStatus::Provisioning
                && is_address(url@, state.port, endpoint@),
            Err(e) => (state.current_status == PipelineStatus::Shutdown || state.current_status
                == PipelineStatus::Failed || state.current_status == PipelineStatus::Provisioning)
                && e == (RunnerError::PipelineShutdown { pipeline_id: id }),
        },
        call_ensures(Runner::forward_to_pipeline_as_stream, (id, &state, endpoint, query), r)
            ==> match r {
            Ok(url) => state.current_status != PipelineStatus::Shutdown && state.current_status
                != PipelineStatus::Failed && state.current_status != PipelineStatus::Provisioning
                && is_address(url@, state.port, endpoint@ + seq!['?'] + query@),
            Err(e) => (state.current_status == PipelineStatus::Shutdown || state.current_status
                == PipelineStatus::Failed || state.current_status == PipelineStatus::Provisioning)
                && e == (RunnerError::PipelineShutdown { pipeline_id: id }),
        },
{
    lemma_address(state.port, endpoint@);
    lemma_address(state.port, endpoint@ + seq!['?'] + query@);
    reveal_strlit("?");
    assert(endpoint_address(state.port, endpoint@) + "?"@ + query@ =~= endpoint_address(
        state.port,
        endpoint@ + seq!['?'] + query@,
    ));
}

/// Headers are passed on as often as they come, but for `connection`, and in their order:
/// what is passed on of two lists in a row is what is passed on of each, in a row.
pub proof fn headers_are_passed_on(
    all: Vec<(String, Vec<u8>)>,
    front: Vec<(String, Vec<u8>)>,
    back: Vec<(String, Vec<u8>)>,
    r: Vec<(String, Vec<u8>)>,
    r_front: Vec<(String, Vec<u8>)>,
    r_back: Vec<(String, Vec<u8>)>,
    header: (String, Vec<u8>),
)
    requires
        call_ensures(Runner::forwarded_headers, (all,), r),
        call_ensures(Runner::forwarded_headers, (front,), r_front),
        call_ensures(Runner::forwarded_headers, (back,), r_back),
    ensures
        all@ == front@ + back@ ==> r@ == r_front@ + r_back@,
        all@.len() == 0 ==> r@.len() == 0,
        all@ == seq![header] ==> r@ == if header.0@ == "connection"@ {
            Seq::<(String, Vec<u8>)>::empty()
        } else {
            seq![header]
        },
{
    let keep = |h: (String, Vec<u8>)| h.0@ != "connection"@;
    Seq::filter_distributes_over_add(front@, back@, keep);
    reveal_with_fuel(Seq::filter, 2);
    if all@ == seq![header] {
        assert(all@.drop_last() =~= Seq::empty());
        assert(all@.last() == header);
        assert(keep(header) <==> header.0@ != "connection"@);
        assert(all@.filter(keep) =~= if keep(header) {
            seq![header]
        } else {
            Seq::empty()
        });
        assert(r@ =~= if header.0@ == "connection"@ {
            Seq::<(String, Vec<u8>)>::empty()
        } else {
            seq![header]
        });
    }
}

/// A request that could not be forwarded fails with its own error, for its own pipeline.
pub proof fn forwarding_errors_are_handed_on(id: PipelineId, error: String, r: RunnerError)
    requires
        call_ensures(Runner::forward_error, (id, error), r),
    ensures
        r matches RunnerError::HttpForwardError { pipeline_id, error: e } && pipeline_id == id && e@
            == error@,
{
}

/// A request to change the status is refused, with the states it was refused in and the
/// status it asked for, exactly in the states in which the user has to do something else
/// first: wait for a shutdown to complete, clear the error of a failed pipeline, or shut the
/// pipeline down before it is deleted.
pub proof fn refusals_say_what_to_do_first(
    id: PipelineId,
    state: PipelineRuntimeState,
    request: Option<PipelineStatus>,
    r: Result<(), RunnerError>,
)
    requires
        call_ensures(Runner::validate_desired_state_request, (id, &state, request), r),
    ensures
        ({
            let current = state.current_status;
            let desired = state.desired_status;
            let restart = request == Some(PipelineStatus::Running) || request == Some(
                PipelineStatus::Paused,
            );
            match r {
                Ok(_) => {
                    &&& request is None ==> current == PipelineStatus::Shutdown && desired
                        == PipelineStatus::Shutdown
                    &&& restart ==> current == PipelineStatus::Shutdown || (desired
                        != PipelineStatus::Shutdown && current != PipelineStatus::ShuttingDown
                        && current != PipelineStatus::Failed)
                },
                Err(RunnerError::IllegalPipelineStateTransition {
                    pipeline_id,
                    error,
                    current_status,
                    desired_status,
                    requested_status,
                }) => {
                    &&& pipeline_id == id && current_status == current && desired_status == desired
                        && requested_status == request
                    &&& {
                        ||| request is None && (current != PipelineStatus::Shutdown || desired
                            != PipelineStatus::Shutdown) && error@
                            == "Cannot delete a running pipeline. Shutdown the pipeline first by invoking the '/shutdown' endpoint."@
                        ||| restart && desired == PipelineStatus::Shutdown && current
                            != PipelineStatus::Shutdown && error@
                            == "Cannot restart the pipeline while it is shutting down. Wait for the shutdown to complete before starting a new instance of the pipeline."@
                        ||| restart && desired != PipelineStatus::Shutdown && (current
                            == PipelineStatus::ShuttingDown || current == PipelineStatus::Failed)
                            && error@
                            == "Cannot restart a failed pipeline. Clear the error state first by invoking the '/shutdown' endpoint."@
                    }
                },
                Err(_) => false,
            }
        }),
{
}

/// Creating a revision fails with the error of the database, unless nothing has changed.
pub proof fn unchanged_revisions_are_no_error(
    result: Result<(), DbError>,
    r: Result<(), DbError>,
)
    requires
        call_ensures(Runner::commit_revision, (result,), r),
    ensures
        r is Ok <==> result is Ok || result == Err::<(), DbError>(DbError::RevisionNotChanged),
        r is Err ==> r == result,
{
}

/// What a request does with the state of the pipeline once it has read it: nothing but to
/// write the status and to notify the automaton, one after the other.
pub open spec fn writes_and_notifies(control: Control, status: PipelineStatus) -> bool {
    &&& forall|a: ControlAction| #[trigger]
        call_ensures(Control::action, (&control,), a) ==> a == ControlAction::SetDesiredStatus(
            status,
        )
    &&& forall|p: ControlProgress| #[trigger]
        call_ensures(Control::reply, (control, ControlAnswer::Changed(Ok(()))), p) ==> (p matches
            ControlProgress::Next(next) && notifies_and_ends(next))
    &&& forall|p: ControlProgress, e: DbError| #[trigger]
        call_ensures(Control::reply, (control, ControlAnswer::Changed(Err(e))), p) ==> (p matches
            ControlProgress::Failed(ManagerError::Db(d)) && same_db_error(d, e))
}

/// The request notifies the automaton and has then succeeded.
pub open spec fn notifies_and_ends(control: Control) -> bool {
    &&& forall|a: ControlAction| #[trigger]
        call_ensures(Control::action, (&control,), a) ==> a is NotifyAutomaton
    &&& forall|p: ControlProgress| #[trigger]
        call_ensures(Control::reply, (control, ControlAnswer::Notified), p) ==> p is Done
}

/// The request reads the state of the pipeline; where that allows it, it writes the status
/// that it asks for.
pub open spec fn reads_and_writes(control: Control, status: PipelineStatus) -> bool {
    &&& forall|a: ControlAction| #[trigger]
        call_ensures(Control::action, (&control,), a) ==> a is ReadState
    &&& forall|p: ControlProgress, state: PipelineRuntimeState| #[trigger]
        call_ensures(Control::reply, (control, ControlAnswer::State(Ok(state))), p) ==> if status
            == PipelineStatus::Shutdown || state.current_status == PipelineStatus::Shutdown || (
        state.desired_status != PipelineStatus::Shutdown && state.current_status
            != PipelineStatus::ShuttingDown && state.current_status != PipelineStatus::Failed) {
            p matches ControlProgress::Next(next) && writes_and_notifies(next, status)
        } else {
            p matches ControlProgress::Failed(
                ManagerError::Runner(RunnerError::IllegalPipelineStateTransition { .. }),
            )
        }
    &&& forall|p: ControlProgress, e: DbError| #[trigger]
        call_ensures(Control::reply, (control, ControlAnswer::State(Err(e))), p) ==> (p matches
            ControlProgress::Failed(ManagerError::Db(d)) && same_db_error(d, e))
}

/// A request to run, pause or shut down a pipeline reads the state of the pipeline, writes
/// the status that it is named after where the state allows it, notifies the automaton, and
/// has then succeeded.  A deployment creates a revision first, and then asks for the pipeline
/// to be paused.
pub proof fn requests_write_what_they_ask_for(id: PipelineId, r: Control)
    ensures
        call_ensures(Control::new, (id, PipelineRequest::Start), r) ==> reads_and_writes(
            r,
            PipelineStatus::Running,
        ),
        call_ensures(Control::new, (id, PipelineRequest::Pause), r) ==> reads_and_writes(
            r,
            PipelineStatus::Paused,
        ),
        call_ensures(Control::new, (id, PipelineRequest::Shutdown), r) ==> reads_and_writes(
            r,
            PipelineStatus::Shutdown,
        ),
        call_ensures(Control::new, (id, PipelineRequest::Deploy), r) ==> {
            &&& forall|a: ControlAction| #[trigger]
                call_ensures(Control::action, (&r,), a) ==> (a matches
                    ControlAction::CreateRevision(bits) && hex_value(id_text(bits)[14]) == 7)
            &&& forall|p: ControlProgress| #[trigger]
                call_ensures(Control::reply, (r, ControlAnswer::Changed(Ok(()))), p) ==> (p matches
                    ControlProgress::Next(next) && reads_and_writes(next, PipelineStatus::Paused))
            &&& forall|p: ControlProgress| #[trigger]
                call_ensures(
                    Control::reply,
                    (r, ControlAnswer::Changed(Err(DbError::RevisionNotChanged))),
                    p,
                ) ==> (p matches ControlProgress::Next(next) && reads_and_writes(
                    next,
                    PipelineStatus::Paused,
                ))
            &&& forall|p: ControlProgress, text: String| #[trigger]
                call_ensures(
                    Control::reply,
                    (r, ControlAnswer::Changed(Err(DbError::Other(text)))),
                    p,
                ) ==> (p matches ControlProgress::Failed(ManagerError::Db(DbError::Other(t))) && t@
                    == text@)
        },
{
    let c = Control { pipeline_id: id, request: PipelineRequest::Start, stage: ControlStage::Read };
    assert forall|a: ControlAction|
        r.stage == ControlStage::Commit && #[trigger] call_ensures(
            Control::action,
            (&r,),
            a,
        ) implies (a matches ControlAction::CreateRevision(bits) && hex_value(id_text(bits)[14])
        == 7) by {
        if let ControlAction::CreateRevision(bits) = a {
            versions_are_shown(bits, 7);
        }
    }
    lemma_reads_and_writes(c, PipelineStatus::Running);
    lemma_reads_and_writes(
        Control { request: PipelineRequest::Pause, ..c },
        PipelineStatus::Paused,
    );
    lemma_reads_and_writes(
        Control { request: PipelineRequest::Shutdown, ..c },
        PipelineStatus::Shutdown,
    );
    lemma_reads_and_writes(
        Control { request: PipelineRequest::Deploy, ..c },
        PipelineStatus::Paused,
    );
}

proof fn lemma_reads_and_writes(control: Control, status: PipelineStatus)
    requires
        control.stage == ControlStage::Read,
        status_wanted(control.request) == Some(status),
    ensures
        reads_and_writes(control, status),
{
    let writing = Control { stage: ControlStage::Write, ..control };
    let notifying = Control { stage: ControlStage::Notify, ..control };
    assert(notifies_and_ends(notifying));
    assert(writes_and_notifies(writing, status));
}

/// The deletion reads the state of the pipeline.  A pipeline that is down is deleted from
/// the database, and the automaton is notified.  Another one is waited for, once it has been
/// told to shut down.
pub open spec fn reads_and_deletes(control: Control) -> bool {
    &&& forall|a: ControlAction| #[trigger]
        call_ensures(Control::action, (&control,), a) ==> a is ReadState
    &&& forall|p: ControlProgress, state: PipelineRuntimeState| #[trigger]
        call_ensures(Control::reply, (control, ControlAnswer::State(Ok(state))), p) ==> (p matches
            ControlProgress::Next(next) && if state.desired_status != PipelineStatus::Shutdown {
            tells_to_shut_down(next)
        } else if state.current_status != PipelineStatus::Shutdown {
            waits(next)
        } else {
            deletes(next)
        })
}

/// The deletion removes the pipeline from the database, notifies the automaton and ends.
pub open spec fn deletes(control: Control) -> bool {
    &&& forall|a: ControlAction| #[trigger]
        call_ensures(Control::action, (&control,), a) ==> a is DeletePipeline
    &&& forall|p: ControlProgress| #[trigger]
        call_ensures(Control::reply, (control, ControlAnswer::Changed(Ok(()))), p) ==> (p matches
            ControlProgress::Next(next) && notifies_and_ends(next))
}

/// The deletion waits for some time.
pub open spec fn waits(control: Control) -> bool {
    forall|a: ControlAction| #[trigger]
        call_ensures(Control::action, (&control,), a) ==> a == ControlAction::Wait(300)
}

/// The deletion tells the pipeline to shut down, notifies the automaton, and waits.
pub open spec fn tells_to_shut_down(control: Control) -> bool {
    &&& forall|a: ControlAction| #[trigger]
        call_ensures(Control::action, (&control,), a) ==> a == ControlAction::SetDesiredStatus(
            PipelineStatus::Shutdown,
        )
    &&& forall|p: ControlProgress| #[trigger]
        call_ensures(Control::reply, (control, ControlAnswer::Changed(Ok(()))), p) ==> (p matches
            ControlProgress::Next(next) && {
            &&& forall|a: ControlAction| #[trigger]
                call_ensures(Control::action, (&next,), a) ==> a is NotifyAutomaton
            &&& forall|q: ControlProgress| #[trigger]
                call_ensures(Control::reply, (next, ControlAnswer::Notified), q) ==> (q matches
                    ControlProgress::Next(after) && waits(after) && wakes_to_read(after))
        })
}

/// Once its time is up, the deletion reads the state again.
pub open spec fn wakes_to_read(control: Control) -> bool {
    forall|p: ControlProgress| #[trigger]
        call_ensures(Control::reply, (control, ControlAnswer::Waited), p) ==> (p matches
            ControlProgress::Next(next) && forall|a: ControlAction| #[trigger]
            call_ensures(Control::action, (&next,), a) ==> a is ReadState)
}

/// A pipeline is deleted once it is down; before that it is told to shut down and waited
/// for, and its state is read again and again.
pub proof fn deletions_wait_for_the_shutdown(id: PipelineId, r: Control)
    requires
        call_ensures(Control::new, (id, PipelineRequest::Delete), r),
    ensures
        reads_and_deletes(r),
{
    let notifying = Control { stage: ControlStage::Notify, ..r };
    let waiting = Control { stage: ControlStage::Wait, ..r };
    assert(notifies_and_ends(notifying));
    assert(deletes(Control { stage: ControlStage::Write, ..r }));
    assert(waits(waiting));
    assert(wakes_to_read(waiting));
    assert(tells_to_shut_down(Control { stage: ControlStage::Stop, ..r }));
}

/// Only the answer to its action moves a request: any other one leaves it where it is.
pub proof fn only_answers_move_a_request(
    control: Control,
    answer: ControlAnswer,
    p: ControlProgress,
)
    requires
        call_ensures(Control::reply, (control, answer), p),
        !(answer is Changed && (control.stage == ControlStage::Commit || control.stage
            == ControlStage::Stop || control.stage == ControlStage::Write)),
        !(answer is State && control.stage == ControlStage::Read),
        !(answer is Notified && (control.stage == ControlStage::Nudge || control.stage
            == ControlStage::Notify)),
        !(answer is Waited && control.stage == ControlStage::Wait),
    ensures
        p == ControlProgress::Next(control),
{
}

} // verus!
