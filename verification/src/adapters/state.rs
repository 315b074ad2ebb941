//! The state of the server, and the requests that need no connection.

use crate::adapters::error::{
    errors_say_all_of_themselves, same_controller_error, same_pipeline_error, status_of,
    ControllerError, PipelineError, PipelineFault,
};
use vstd::prelude::*;

verus! {

/// Tracks the initialization state of the pipeline.
///
/// Enables the server to report the state of the pipeline while it is
/// initializing or when it has failed to initialize.
#[derive(Debug)]
pub enum InitializationState {
    /// Initialization in progress.
    Initializing,
    /// Initialization has failed.
    InitializationError(ControllerError),
    /// Initialization completed successfully.
    InitializationComplete,
}

/// What the server knows of its pipeline.
#[derive(Debug)]
pub struct ServerState {
    pub initialization_state: InitializationState,
    /// The metadata of the pipeline as JSON.
    pub metadata: String,
    /// There is a controller.
    pub has_controller: bool,
    /// The metrics have been set up.
    pub has_metrics: bool,
    /// The server can be told to stop.
    pub can_terminate: bool,
}

/// The error when there is no controller: the pipeline is initializing, failed to
/// initialize or has been shut down.
pub open spec fn absence(state: ServerState) -> PipelineFault {
    match state.initialization_state {
        InitializationState::Initializing => PipelineFault::Initializing,
        InitializationState::InitializationError(error) => PipelineFault::InitializationError(
            error@,
        ),
        InitializationState::InitializationComplete => PipelineFault::Terminating,
    }
}

/// Generate an appropriate error when there is no controller, which can mean that
/// the pipeline is initializing, failed to initialize or has been shut down.
pub fn missing_controller_error(state: &ServerState) -> (r: PipelineError)
    ensures
        r@ == absence(*state),
{
    match &state.initialization_state {
        InitializationState::Initializing => PipelineError::Initializing,
        InitializationState::InitializationError(error) => PipelineError::InitializationError {
            error: error.duplicate(),
        },
        InitializationState::InitializationComplete => PipelineError::Terminating,
    }
}

/// What the controller is asked to do.
#[derive(Debug, Clone, Copy, PartialEq, Eq, Structural)]
pub enum Command {
    Start,
    Pause,
    DumpProfile,
}

/// What a command is answered with once the controller has taken it.
pub open spec fn acknowledgement(command: Command) -> Seq<char> {
    match command {
        Command::Start => "The pipeline is running"@,
        Command::Pause => "Pipeline paused"@,
        Command::DumpProfile => "Profile dump initiated"@,
    }
}

/// What happens when the server shuts down.
#[derive(Debug)]
pub enum Shutdown {
    /// Stop the controller.
    StopController,
    /// There is nothing to stop: answer with the text.
    Answer(&'static str),
}

/// What happens once the controller has stopped.
#[derive(Debug)]
pub struct Termination {
    /// Tell the server to stop.
    pub stop_server: bool,
    /// Remove the port file.
    pub remove_port_file: bool,
    /// The answer.
    pub answer: &'static str,
}

impl ServerState {
    /// A pipeline that is initializing.
    pub fn new(can_terminate: bool) -> (r: Self)
        ensures
            r.initialization_state is Initializing,
            r.metadata@ == Seq::<char>::empty(),
            !r.has_controller,
            !r.has_metrics,
            r.can_terminate == can_terminate,
    {
        ServerState {
            initialization_state: InitializationState::Initializing,
            metadata: String::new(),
            has_controller: false,
            has_metrics: false,
            can_terminate,
        }
    }

    /// The answer to a command, which the controller takes where there is one.
    pub fn command(&self, command: Command) -> (r: Result<&'static str, PipelineError>)
        ensures
            match r {
                Ok(text) => self.has_controller && text@ == acknowledgement(command),
                Err(e) => !self.has_controller && e@ == absence(*self),
            },
    {
        if !self.has_controller {
            return Err(missing_controller_error(self));
        }
        match command {
            Command::Start => Ok("The pipeline is running"),
            Command::Pause => Ok("Pipeline paused"),
            Command::DumpProfile => Ok("Profile dump initiated"),
        }
    }

    /// Starts the pipeline.
    pub fn start(&self) -> (r: Result<&'static str, PipelineError>)
        ensures
            match r {
                Ok(text) => self.has_controller && text@ == acknowledgement(Command::Start),
                Err(e) => !self.has_controller && e@ == absence(*self),
            },
    {
        self.command(Command::Start)
    }

    /// Pauses the pipeline.
    pub fn pause(&self) -> (r: Result<&'static str, PipelineError>)
        ensures
            match r {
                Ok(text) => self.has_controller && text@ == acknowledgement(Command::Pause),
                Err(e) => !self.has_controller && e@ == absence(*self),
            },
    {
        self.command(Command::Pause)
    }

    /// Dumps a profile of the pipeline.
    pub fn dump_profile(&self) -> (r: Result<&'static str, PipelineError>)
        ensures
            match r {
                Ok(text) => self.has_controller && text@ == acknowledgement(Command::DumpProfile),
                Err(e) => !self.has_controller && e@ == absence(*self),
            },
    {
        self.command(Command::DumpProfile)
    }

    /// Whether the statistics can be read, and why not.
    pub fn stats(&self) -> (r: Result<(), PipelineError>)
        ensures
            match r {
                Ok(_) => self.has_controller,
                Err(e) => !self.has_controller && e@ == absence(*self),
            },
    {
        if self.has_controller {
            Ok(())
        } else {
            Err(missing_controller_error(self))
        }
    }

    /// The answer to a request for metrics, given what reading them gave.
    pub fn metrics(&self, read: Result<Vec<u8>, String>) -> (r: Result<Vec<u8>, PipelineError>)
        ensures
            match r {
                Ok(text) => self.has_controller && read == Ok::<Vec<u8>, String>(text),
                Err(e) => if self.has_controller {
                    read matches Err(error) && e@ == PipelineFault::Prometheus(error@)
                } else {
                    e@ == absence(*self)
                },
            },
    {
        if !self.has_controller {
            return Err(missing_controller_error(self));
        }
        match read {
            Ok(text) => Ok(text),
            Err(error) => Err(PipelineError::PrometheusError { error }),
        }
    }

    /// The metadata of the pipeline.
    pub fn metadata(&self) -> (r: String)
        ensures
            r@ == self.metadata@,
    {
        self.metadata.clone()
    }

    /// Takes the controller away, to stop it where there was one.
    pub fn shutdown(&mut self) -> (r: Shutdown)
        ensures
            !final(self).has_controller,
            final(self).initialization_state == old(self).initialization_state,
            final(self).metadata == old(self).metadata,
            final(self).has_metrics == old(self).has_metrics,
            final(self).can_terminate == old(self).can_terminate,
            match r {
                Shutdown::StopController => old(self).has_controller,
                Shutdown::Answer(text) => !old(self).has_controller && text@
                    == "Pipeline already terminated"@,
            },
    {
        if self.has_controller {
            self.has_controller = false;
            Shutdown::StopController
        } else {
            Shutdown::Answer("Pipeline already terminated")
        }
    }

    /// Goes on once the controller has stopped, or failed to.
    pub fn stopped(&self, result: Result<(), ControllerError>) -> (r: Result<
        Termination,
        ControllerError,
    >)
        ensures
            match result {
                Ok(_) => r matches Ok(t) && t.stop_server == self.can_terminate
                    && t.remove_port_file && t.answer@ == "Pipeline terminated"@,
                Err(e) => r matches Err(f) && f == e,
            },
    {
        match result {
            Ok(_) => Ok(
                Termination {
                    stop_server: self.can_terminate,
                    remove_port_file: true,
                    answer: "Pipeline terminated",
                },
            ),
            Err(e) => Err(e),
        }
    }
}

/// Once an initialized pipeline has been shut down, every request that needs it is
/// answered that the service is unavailable, and shutting it down again does
/// nothing.
pub proof fn nothing_runs_after_shutdown(state: ServerState)
    requires
        state.initialization_state is InitializationComplete,
        !state.has_controller,
    ensures
        absence(state) == PipelineFault::Terminating,
        status_of(absence(state)) == 503,
{
}

/// While a pipeline is initializing, every request that needs it is answered that
/// the service is unavailable.
pub proof fn initializing_pipelines_are_unavailable(state: ServerState)
    requires
        state.initialization_state is Initializing,
    ensures
        absence(state) == PipelineFault::Initializing,
        status_of(absence(state)) == 503,
{
}

/// Without a controller a request is told why: the pipeline is still initializing, it failed
/// to initialize with an error that is handed on, or it has been shut down.
pub proof fn absent_controllers_are_explained(state: ServerState, r: PipelineError)
    requires
        call_ensures(missing_controller_error, (&state,), r),
    ensures
        match state.initialization_state {
            InitializationState::Initializing => r is Initializing,
            InitializationState::InitializationError(error) => r matches
                PipelineError::InitializationError { error: e } && same_controller_error(e, error),
            InitializationState::InitializationComplete => r is Terminating,
        },
{
    if let (
        InitializationState::InitializationError(error),
        PipelineError::InitializationError { error: e },
    ) = (state.initialization_state, r) {
        errors_say_all_of_themselves(r, r, e, error);
    }
}

/// Commands are taken exactly where there is a controller, and each is acknowledged in its
/// own words; otherwise they are told why there is none.
pub proof fn commands_need_a_controller(
    state: ServerState,
    r: Result<&'static str, PipelineError>,
    s: Result<(), PipelineError>,
    why: PipelineError,
)
    requires
        call_ensures(missing_controller_error, (&state,), why),
    ensures
        call_ensures(ServerState::start, (&state,), r) ==> match r {
            Ok(text) => state.has_controller && text@ == "The pipeline is running"@,
            Err(e) => !state.has_controller && same_pipeline_error(e, why),
        },
        call_ensures(ServerState::pause, (&state,), r) ==> match r {
            Ok(text) => state.has_controller && text@ == "Pipeline paused"@,
            Err(e) => !state.has_controller && same_pipeline_error(e, why),
        },
        call_ensures(ServerState::dump_profile, (&state,), r) ==> match r {
            Ok(text) => state.has_controller && text@ == "Profile dump initiated"@,
            Err(e) => !state.has_controller && same_pipeline_error(e, why),
        },
        call_ensures(ServerState::stats, (&state,), s) ==> match s {
            Ok(_) => state.has_controller,
            Err(e) => !state.has_controller && same_pipeline_error(e, why),
        },
{
    if let Err(e) = r {
        assert(e@ == why@ ==> same_pipeline_error(e, why));
    }
    if let Err(e) = s {
        assert(e@ == why@ ==> same_pipeline_error(e, why));
    }
}

/// A command is acknowledged like the request of its name.
pub proof fn commands_are_acknowledged(
    state: ServerState,
    command: Command,
    r: Result<&'static str, PipelineError>,
)
    requires
        call_ensures(ServerState::command, (&state, command), r),
    ensures
        r is Ok <==> state.has_controller,
        r matches Ok(text) ==> (command == Command::Start ==> text@ == "The pipeline is running"@)
            && (command == Command::Pause ==> text@ == "Pipeline paused"@) && (command
            == Command::DumpProfile ==> text@ == "Profile dump initiated"@),
{
}

/// Metrics are handed on as they were read, and so is an error of reading them; without a
/// controller none are.
pub proof fn metrics_are_handed_on(
    state: ServerState,
    read: Result<Vec<u8>, String>,
    r: Result<Vec<u8>, PipelineError>,
    metadata: String,
)
    ensures
        call_ensures(ServerState::metrics, (&state, read), r) ==> {
            &&& state.has_controller && read is Ok <==> r is Ok
            &&& r is Ok ==> r->Ok_0@ == read->Ok_0@
            &&& state.has_controller && read is Err ==> (r matches Err(
                PipelineError::PrometheusError { error },
            ) && error@ == read->Err_0@)
        },
        call_ensures(ServerState::metadata, (&state,), metadata) ==> metadata@ == state.metadata@,
{
}

/// A shutdown stops the controller where there is one, and there is none behind it: the next
/// shutdown finds the pipeline terminated.  Once the controller has stopped, the port file is
/// removed, and the server is told to stop if it can be.
pub proof fn shutdowns_happen_once(
    state: ServerState,
    result: Result<(), ControllerError>,
    r: Result<Termination, ControllerError>,
    first: Shutdown,
    second: Shutdown,
)
    ensures
        forall|s: &mut ServerState, later: &mut ServerState|
            #![trigger call_ensures(ServerState::shutdown, (s,), first),
                call_ensures(ServerState::shutdown, (later,), second)]
            call_ensures(ServerState::shutdown, (s,), first) ==> {
                &&& first is StopController <==> s.has_controller
                &&& first matches Shutdown::Answer(text) ==> text@
                    == "Pipeline already terminated"@
                &&& *later == *final(s) && call_ensures(ServerState::shutdown, (later,), second)
                    ==> second is Answer
            },
        call_ensures(ServerState::stopped, (&state, result), r) ==> match result {
            Ok(_) => r matches Ok(end) && end.remove_port_file && end.stop_server
                == state.can_terminate && end.answer@ == "Pipeline terminated"@,
            Err(e) => r matches Err(f) && same_controller_error(e, f),
        },
{
}

/// A new server waits for its pipeline to initialize.
pub proof fn new_servers_are_initializing(can_terminate: bool, r: ServerState)
    requires
        call_ensures(ServerState::new, (can_terminate,), r),
    ensures
        r.initialization_state is Initializing,
        !r.has_controller && !r.has_metrics,
        r.can_terminate == can_terminate,
        r.metadata@.len() == 0,
{
}

} // verus!
