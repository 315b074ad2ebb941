//! Errors of the server of a pipeline.

use vstd::prelude::*;

verus! {

/// Errors of starting the server.
#[derive(Debug, Clone)]
pub enum ControllerError {
    /// An input or output error, with what was being done.
    Io { context: String, error: String },
    /// The configuration cannot be read.
    ConfigParse { error: String },
    /// The metrics cannot be set up.
    Prometheus { error: String },
    /// The controller reports an error.
    Controller { error: String },
}

/// What an error of starting the server says.
pub enum ControllerFault {
    Io(Seq<char>, Seq<char>),
    ConfigParse(Seq<char>),
    Prometheus(Seq<char>),
    Controller(Seq<char>),
}

impl View for ControllerError {
    type V = ControllerFault;

    open spec fn view(&self) -> ControllerFault {
        match *self {
            ControllerError::Io { context, error } => ControllerFault::Io(context@, error@),
            ControllerError::ConfigParse { error } => ControllerFault::ConfigParse(error@),
            ControllerError::Prometheus { error } => ControllerFault::Prometheus(error@),
            ControllerError::Controller { error } => ControllerFault::Controller(error@),
        }
    }
}

/// Errors of requests to the pipeline.
#[derive(Debug, Clone)]
#[allow(inconsistent_fields)]
pub enum PipelineError {
    /// The pipeline is still initializing.
    Initializing,
    /// The pipeline failed to initialize.
    InitializationError { error: ControllerError },
    /// The pipeline has been shut down.
    Terminating,
    /// A part of the address is missing.
    MissingUrlEncodedParam { param: &'static str },
    /// There are too many connections.
    ApiConnectionLimit,
    /// The metrics cannot be read.
    PrometheusError { error: String },
    /// Snapshots of tables are not supported.
    TableSnapshotNotImplemented,
    /// Quantiles cannot be watched.
    QuantileStreamingNotSupported,
    /// A neighborhood was asked for without saying which.
    MissingNeighborhoodSpec,
    /// The number of quantiles is zero or too large.
    NumQuantilesOutOfRange { quantiles: u32 },
    /// A neighborhood was asked for in a way that cannot be understood.
    InvalidNeighborhoodSpec { spec: String, parse_error: String },
    /// The controller reports an error.
    ControllerError { error: String },
}

/// What an error of a request says.
pub enum PipelineFault {
    Initializing,
    InitializationError(ControllerFault),
    Terminating,
    MissingUrlEncodedParam(Seq<char>),
    ApiConnectionLimit,
    Prometheus(Seq<char>),
    TableSnapshotNotImplemented,
    QuantileStreamingNotSupported,
    MissingNeighborhoodSpec,
    NumQuantilesOutOfRange(u32),
    InvalidNeighborhoodSpec(Seq<char>, Seq<char>),
    Controller(Seq<char>),
}

impl View for PipelineError {
    type V = PipelineFault;

    open spec fn view(&self) -> PipelineFault {
        match *self {
            PipelineError::Initializing => PipelineFault::Initializing,
            PipelineError::InitializationError { error } => PipelineFault::InitializationError(
                error@,
            ),
            PipelineError::Terminating => PipelineFault::Terminating,
            PipelineError::MissingUrlEncodedParam { param } => {
                PipelineFault::MissingUrlEncodedParam(param@)
            },
            PipelineError::ApiConnectionLimit => PipelineFault::ApiConnectionLimit,
            PipelineError::PrometheusError { error } => PipelineFault::Prometheus(error@),
            PipelineError::TableSnapshotNotImplemented => {
                PipelineFault::TableSnapshotNotImplemented
            },
            PipelineError::QuantileStreamingNotSupported => {
                PipelineFault::QuantileStreamingNotSupported
            },
            PipelineError::MissingNeighborhoodSpec => PipelineFault::MissingNeighborhoodSpec,
            PipelineError::NumQuantilesOutOfRange { quantiles } => {
                PipelineFault::NumQuantilesOutOfRange(quantiles)
            },
            PipelineError::InvalidNeighborhoodSpec { spec, parse_error } => {
                PipelineFault::InvalidNeighborhoodSpec(spec@, parse_error@)
            },
            PipelineError::ControllerError { error } => PipelineFault::Controller(error@),
        }
    }
}

/// The HTTP status of an error: the service is unavailable while there is no
/// pipeline to serve the request, mistakes of the client are bad requests, and the
/// rest are internal errors.
pub open spec fn status_of(fault: PipelineFault) -> u16 {
    match fault {
        PipelineFault::Initializing | PipelineFault::Terminating => 503,
        PipelineFault::ApiConnectionLimit => 429,
        PipelineFault::InitializationError(_)
        | PipelineFault::Prometheus(_)
        | PipelineFault::Controller(_) => 500,
        _ => 400,
    }
}

impl PipelineError {
    /// The HTTP status of the error.
    pub fn status_code(&self) -> (r: u16)
        ensures
            r == status_of(self@),
    {
        match self {
            PipelineError::Initializing | PipelineError::Terminating => 503,
            PipelineError::ApiConnectionLimit => 429,
            PipelineError::InitializationError { .. }
            | PipelineError::PrometheusError { .. }
            | PipelineError::ControllerError { .. } => 500,
            _ => 400,
        }
    }
}

impl ControllerError {
    /// Another error that says the same.
    pub fn duplicate(&self) -> (r: Self)
        ensures
            r == *self,
    {
        match self {
            ControllerError::Io { context, error } => ControllerError::Io {
                context: context.clone(),
                error: error.clone(),
            },
            ControllerError::ConfigParse { error } => ControllerError::ConfigParse {
                error: error.clone(),
            },
            ControllerError::Prometheus { error } => ControllerError::Prometheus {
                error: error.clone(),
            },
            ControllerError::Controller { error } => ControllerError::Controller {
                error: error.clone(),
            },
        }
    }
}

/// Two errors of starting the server are the same but for where their texts are kept.
pub open spec fn same_controller_error(a: ControllerError, b: ControllerError) -> bool {
    match (a, b) {
        (
            ControllerError::Io { context: c, error: x },
            ControllerError::Io { context: d, error: y },
        ) => c@ == d@ && x@ == y@,
        (ControllerError::ConfigParse { error: x }, ControllerError::ConfigParse { error: y }) => x@
            == y@,
        (ControllerError::Prometheus { error: x }, ControllerError::Prometheus { error: y }) => x@
            == y@,
        (ControllerError::Controller { error: x }, ControllerError::Controller { error: y }) => x@
            == y@,
        _ => false,
    }
}

/// Two errors of requests are the same but for where their texts are kept.
pub open spec fn same_pipeline_error(a: PipelineError, b: PipelineError) -> bool {
    match (a, b) {
        (PipelineError::Initializing, PipelineError::Initializing) => true,
        (
            PipelineError::InitializationError { error: x },
            PipelineError::InitializationError { error: y },
        ) => same_controller_error(x, y),
        (PipelineError::Terminating, PipelineError::Terminating) => true,
        (
            PipelineError::MissingUrlEncodedParam { param: x },
            PipelineError::MissingUrlEncodedParam { param: y },
        ) => x@ == y@,
        (PipelineError::ApiConnectionLimit, PipelineError::ApiConnectionLimit) => true,
        (
            PipelineError::PrometheusError { error: x },
            PipelineError::PrometheusError { error: y },
        ) => x@ == y@,
        (
            PipelineError::TableSnapshotNotImplemented,
            PipelineError::TableSnapshotNotImplemented,
        ) => true,
        (
            PipelineError::QuantileStreamingNotSupported,
            PipelineError::QuantileStreamingNotSupported,
        ) => true,
        (PipelineError::MissingNeighborhoodSpec, PipelineError::MissingNeighborhoodSpec) => true,
        (
            PipelineError::NumQuantilesOutOfRange { quantiles: x },
            PipelineError::NumQuantilesOutOfRange { quantiles: y },
        ) => x == y,
        (
            PipelineError::InvalidNeighborhoodSpec { spec: s, parse_error: x },
            PipelineError::InvalidNeighborhoodSpec { spec: t, parse_error: y },
        ) => s@ == t@ && x@ == y@,
        (
            PipelineError::ControllerError { error: x },
            PipelineError::ControllerError { error: y },
        ) => x@ == y@,
        _ => false,
    }
}

/// Nothing of an error is lost in what it says: errors that say the same are the same, but
/// for where their texts are kept.
pub proof fn errors_say_all_of_themselves(
    a: PipelineError,
    b: PipelineError,
    c: ControllerError,
    d: ControllerError,
)
    ensures
        a@ == b@ <==> same_pipeline_error(a, b),
        c@ == d@ <==> same_controller_error(c, d),
        call_ensures(ControllerError::duplicate, (&c,), d) ==> same_controller_error(c, d),
{
}

/// A service that is not there, or not there yet, is unavailable; too many connections are
/// too many requests; what the client got wrong is a bad request; and what the pipeline got
/// wrong is an internal error.
pub proof fn statuses_tell_whose_fault_it_is(e: PipelineError, r: u16)
    requires
        call_ensures(PipelineError::status_code, (&e,), r),
    ensures
        r == 503 <==> e is Initializing || e is Terminating,
        r == 429 <==> e is ApiConnectionLimit,
        r == 500 <==> e is InitializationError || e is PrometheusError || e is ControllerError,
        r == 400 <==> e is MissingUrlEncodedParam || e is TableSnapshotNotImplemented || e
            is QuantileStreamingNotSupported || e is MissingNeighborhoodSpec || e
            is NumQuantilesOutOfRange || e is InvalidNeighborhoodSpec,
{
}

} // verus!
