//! The runtime state of a pipeline.

use crate::pipeline_manager::error::{same_failure, Cause, Failure, PipelineStatus};
use crate::pipeline_manager::ids::PipelineId;
use vstd::prelude::*;

verus! {

/// The runtime state of a pipeline, as it is kept in the database.
#[derive(Debug, Clone)]
pub struct PipelineRuntimeState {
    pub pipeline_id: PipelineId,
    /// The port that the process listens to, once it has told it.
    pub port: u16,
    /// The state that the user asked for.
    pub desired_status: PipelineStatus,
    /// The state that the pipeline is in.
    pub current_status: PipelineStatus,
    /// When the pipeline entered its state, in milliseconds.
    pub status_since: i64,
    /// Why the pipeline failed.
    pub error: Option<Failure>,
    /// When the process was created, in milliseconds.
    pub created: i64,
}

/// A runtime state, its texts as characters.
pub struct StateView {
    pub pipeline_id: PipelineId,
    pub port: u16,
    pub desired: PipelineStatus,
    pub current: PipelineStatus,
    pub since: i64,
    pub error: Option<Cause>,
    pub created: i64,
}

impl StateView {
    /// The state after entering `status` at time `now`.
    pub open spec fn entering(
        self,
        status: PipelineStatus,
        error: Option<Cause>,
        now: i64,
    ) -> StateView {
        StateView { current: status, since: now, error, ..self }
    }
}

/// Why a pipeline failed, where it did.
pub open spec fn cause_of(error: Option<Failure>) -> Option<Cause> {
    match error {
        Some(failure) => Some(failure@),
        None => None,
    }
}

impl View for PipelineRuntimeState {
    type V = StateView;

    open spec fn view(&self) -> StateView {
        StateView {
            pipeline_id: self.pipeline_id,
            port: self.port,
            desired: self.desired_status,
            current: self.current_status,
            since: self.status_since,
            error: cause_of(self.error),
            created: self.created,
        }
    }
}

impl PipelineRuntimeState {
    /// Enters a state at time `now`.
    pub fn set_current_status(&mut self, status: PipelineStatus, error: Option<Failure>, now: i64)
        ensures
            final(self)@ == old(self)@.entering(status, cause_of(error), now),
    {
        self.current_status = status;
        self.status_since = now;
        self.error = error;
    }

    /// Records the port of the process.
    pub fn set_port(&mut self, port: u16)
        ensures
            final(self)@ == (StateView { port, ..old(self)@ }),
    {
        self.port = port;
    }

    /// Records that the process was created at time `now`.
    pub fn set_created(&mut self, now: i64)
        ensures
            final(self)@ == (StateView { created: now, ..old(self)@ }),
    {
        self.created = now;
    }
}

/// Entering a status records the status, when it was entered and why the pipeline failed,
/// and nothing else; so do the records of the port and of the creation of the process.
pub proof fn records_change_nothing_else(
    status: PipelineStatus,
    error: Option<Failure>,
    now: i64,
    port: u16,
)
    ensures
        forall|s: &mut PipelineRuntimeState| #[trigger]
            call_ensures(
                PipelineRuntimeState::set_current_status,
                (s, status, error, now),
                (),
            ) ==> {
                &&& final(s).current_status == status
                &&& final(s).status_since == now
                &&& match (final(s).error, error) {
                    (Some(a), Some(b)) => same_failure(a, b),
                    (None, None) => true,
                    _ => false,
                }
                &&& final(s).pipeline_id == s.pipeline_id
                &&& final(s).port == s.port
                &&& final(s).desired_status == s.desired_status
                &&& final(s).created == s.created
            },
        forall|s: &mut PipelineRuntimeState| #[trigger]
            call_ensures(PipelineRuntimeState::set_port, (s, port), ()) ==> {
                &&& final(s).port == port
                &&& final(s).current_status == s.current_status
                &&& final(s).desired_status == s.desired_status
                &&& final(s).status_since == s.status_since
                &&& final(s).pipeline_id == s.pipeline_id
                &&& final(s).created == s.created
            },
        forall|s: &mut PipelineRuntimeState| #[trigger]
            call_ensures(PipelineRuntimeState::set_created, (s, now), ()) ==> {
                &&& final(s).created == now
                &&& final(s).port == s.port
                &&& final(s).current_status == s.current_status
                &&& final(s).desired_status == s.desired_status
                &&& final(s).status_since == s.status_since
                &&& final(s).pipeline_id == s.pipeline_id
            },
{
    assert forall|s: &mut PipelineRuntimeState| #[trigger]
        call_ensures(
            PipelineRuntimeState::set_current_status,
            (s, status, error, now),
            (),
        ) implies (match (final(s).error, error) {
        (Some(a), Some(b)) => same_failure(a, b),
        (None, None) => true,
        _ => false,
    }) by {
        if let (Some(a), Some(b)) = (final(s).error, error) {
            assert(a@ == b@);
        }
    }
}

} // verus!
