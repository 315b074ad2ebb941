//! Requests that stream data into a pipeline or out of it.
//!
//! Such a request registers a connection with the controller and attaches an
//! endpoint to it.  A `Connection` says what to do next, and takes what came of it.

use crate::adapters::error::{same_pipeline_error, PipelineError, PipelineFault};
use crate::adapters::state::{absence, missing_controller_error, ServerState};
use crate::pipeline_manager::ids::{
    has_version, hex_value, id_text, random_id, versions_are_shown,
};
use crate::text::{cat4, cat7};
use vstd::prelude::*;

verus! {

/// How the output of a query is delivered.
#[derive(Debug, Clone, Copy, PartialEq, Eq, Structural)]
pub enum EgressMode {
    /// Continuously monitor the output of the query.
    ///
    /// For queries that support snapshots, e.g., neighborhood queries, the
    /// endpoint outputs the initial snapshot followed by a stream of deltas.  For
    /// queries that don't support snapshots, the endpoint outputs the stream of
    /// deltas relative to the current output of the query.
    Watch,
    /// Output a single snapshot of query results.
    ///
    /// Currently only supported for quantile and neighborhood queries.
    Snapshot,
}

impl Default for EgressMode {
    /// If the mode is not specified, default to `Watch`.
    fn default() -> (r: Self)
        ensures
            r == EgressMode::Watch,
    {
        EgressMode::Watch
    }
}

/// A query over a table.
#[derive(Debug, Clone, Copy, PartialEq, Eq, Structural)]
pub enum OutputQuery {
    /// All of the table.
    Table,
    /// The rows near a given row.
    Neighborhood,
    /// Rows that split the table evenly.
    Quantiles,
}

/// Arguments to the `/egress` endpoint.
#[derive(Debug, Clone)]
pub struct EgressArgs {
    /// Query to execute on the table.
    pub query: OutputQuery,
    /// Output mode.
    pub mode: EgressMode,
    /// Data format used to encode the output of the query.
    pub format: String,
    /// For quantile queries: the number of quantiles to output.
    pub quantiles: u32,
}

/// The error of a request whose address lacks the name of the table.
pub open spec fn no_table() -> PipelineFault {
    PipelineFault::MissingUrlEncodedParam("table_name"@)
}

/// Why a request for output is refused, where it is.
pub open spec fn egress_fault(
    mode: EgressMode,
    query: OutputQuery,
    quantiles: u32,
    has_body: bool,
    max_quantiles: nat,
) -> Option<PipelineFault> {
    if mode == EgressMode::Watch && query == OutputQuery::Quantiles {
        Some(PipelineFault::QuantileStreamingNotSupported)
    } else if mode == EgressMode::Snapshot && query == OutputQuery::Table {
        Some(PipelineFault::TableSnapshotNotImplemented)
    } else if query == OutputQuery::Neighborhood && !has_body {
        Some(PipelineFault::MissingNeighborhoodSpec)
    } else if query == OutputQuery::Quantiles && (quantiles > max_quantiles || quantiles == 0) {
        Some(PipelineFault::NumQuantilesOutOfRange(quantiles))
    } else {
        None
    }
}

/// Checks the name of the table of a request for input.
pub fn check_ingress(table_name: Option<String>) -> (r: Result<String, PipelineError>)
    ensures
        match table_name {
            Some(table) => r matches Ok(t) && t == table,
            None => r matches Err(e) && e@ == no_table(),
        },
{
    match table_name {
        Some(table) => Ok(table),
        None => Err(PipelineError::MissingUrlEncodedParam { param: "table_name" }),
    }
}

/// Checks a request for output: its table, and whether its arguments go together.
pub fn check_egress(
    table_name: Option<String>,
    args: &EgressArgs,
    has_body: bool,
    max_quantiles: usize,
) -> (r: Result<String, PipelineError>)
    ensures
        match table_name {
            None => r matches Err(e) && e@ == no_table(),
            Some(table) => match egress_fault(
                args.mode,
                args.query,
                args.quantiles,
                has_body,
                max_quantiles as nat,
            ) {
                Some(fault) => r matches Err(e) && e@ == fault,
                None => r matches Ok(t) && t == table,
            },
        },
{
    let table = match table_name {
        None => {
            return Err(PipelineError::MissingUrlEncodedParam { param: "table_name" });
        },
        Some(table) => table,
    };
    match (args.mode, args.query) {
        (EgressMode::Watch, OutputQuery::Quantiles) => {
            return Err(PipelineError::QuantileStreamingNotSupported);
        },
        (EgressMode::Snapshot, OutputQuery::Table) => {
            return Err(PipelineError::TableSnapshotNotImplemented);
        },
        _ => {},
    }
    if args.query == OutputQuery::Neighborhood {
        if !has_body {
            return Err(PipelineError::MissingNeighborhoodSpec);
        }
    } else if args.query == OutputQuery::Quantiles && (args.quantiles as u64 > max_quantiles as u64
        || args.quantiles == 0) {
        return Err(PipelineError::NumQuantilesOutOfRange { quantiles: args.quantiles });
    }
    Ok(table)
}

/// Quantiles are output only as snapshots, and tables only as streams.
pub proof fn unsupported_modes_are_refused(quantiles: u32, has_body: bool, max_quantiles: nat)
    ensures
        egress_fault(EgressMode::Watch, OutputQuery::Quantiles, quantiles, has_body, max_quantiles)
            is Some,
        egress_fault(EgressMode::Snapshot, OutputQuery::Table, quantiles, has_body, max_quantiles)
            is Some,
        egress_fault(EgressMode::Watch, OutputQuery::Table, quantiles, has_body, max_quantiles)
            is None,
        forall|mode: EgressMode|
            (#[trigger] egress_fault(
                mode,
                OutputQuery::Neighborhood,
                quantiles,
                has_body,
                max_quantiles,
            ) is None) == has_body,
        egress_fault(
            EgressMode::Snapshot,
            OutputQuery::Quantiles,
            quantiles,
            has_body,
            max_quantiles,
        ) is None <==> 0 < quantiles <= max_quantiles,
{
}

/// The name of the endpoint of a request for input.
pub open spec fn ingress_name(table: Seq<char>, id: Seq<char>) -> Seq<char> {
    "api-ingress-"@ + table + "-"@ + id
}

/// The word for a mode in the name of an endpoint.
pub open spec fn mode_word(mode: EgressMode) -> Seq<char> {
    match mode {
        EgressMode::Watch => "watch"@,
        EgressMode::Snapshot => "snapshot"@,
    }
}

/// The word for a query in the name of an endpoint.
pub open spec fn query_word(query: OutputQuery) -> Seq<char> {
    match query {
        OutputQuery::Table => ""@,
        OutputQuery::Neighborhood => "neighborhood-"@,
        OutputQuery::Quantiles => "quantiles-"@,
    }
}

/// The name of the endpoint of a request for output.
pub open spec fn egress_name(
    mode: EgressMode,
    query: OutputQuery,
    table: Seq<char>,
    id: Seq<char>,
) -> Seq<char> {
    "api-"@ + mode_word(mode) + "-"@ + table + "-"@ + query_word(query) + id
}

/// The name of the endpoint of a request for input, given its identifier.
pub fn ingress_endpoint_name(table: &str, id: &str) -> (r: String)
    ensures
        r@ == ingress_name(table@, id@),
{
    cat4("api-ingress-", table, "-", id)
}

/// The name of the endpoint of a request for output, given its identifier.
pub fn egress_endpoint_name(mode: EgressMode, query: OutputQuery, table: &str, id: &str) -> (r:
    String)
    ensures
        r@ == egress_name(mode, query, table@, id@),
{
    let mode_text = match mode {
        EgressMode::Watch => "watch",
        EgressMode::Snapshot => "snapshot",
    };
    let query_text = match query {
        OutputQuery::Table => "",
        OutputQuery::Neighborhood => "neighborhood-",
        OutputQuery::Quantiles => "quantiles-",
    };
    cat7("api-", mode_text, "-", table, "-", query_text, id)
}

/// A name with a random identifier for the endpoint of a request for input.
pub fn new_ingress_endpoint_name(table: &str) -> (r: String)
    ensures
        exists|bits: u128|
            has_version(bits, 4) && r@ == ingress_name(table@, #[trigger] id_text(bits)),
{
    let id = random_id();
    ingress_endpoint_name(table, id.as_str())
}

/// A name with a random identifier for the endpoint of a request for output.
pub fn new_egress_endpoint_name(mode: EgressMode, query: OutputQuery, table: &str) -> (r: String)
    ensures
        exists|bits: u128|
            has_version(bits, 4) && r@ == egress_name(
                mode,
                query,
                table@,
                #[trigger] id_text(bits),
            ),
{
    let id = random_id();
    egress_endpoint_name(mode, query, table, id.as_str())
}

/// An endpoint that takes data in.
#[derive(Debug, Clone)]
pub struct IngressEndpoint {
    /// The name of the endpoint.
    pub name: String,
    /// The stream that the data goes to.
    pub stream: String,
    /// The name of the format of the data.
    pub format: String,
}

/// The endpoint of a request for input: data goes to the table.
pub fn ingress_endpoint(name: String, table: String, format: String) -> (r: IngressEndpoint)
    ensures
        r.name@ == name@,
        r.stream@ == table@,
        r.format@ == format@,
{
    IngressEndpoint { name, stream: table, format }
}

/// An endpoint that gives data out.
#[derive(Debug, Clone)]
pub struct EgressEndpoint {
    /// The name of the endpoint.
    pub name: String,
    /// The stream that the data comes from.
    pub stream: String,
    /// The query whose output the endpoint receives.
    pub query: OutputQuery,
    /// The name of the format of the data.
    pub format: String,
    /// Go on after the first output of the query.
    pub watch: bool,
}

/// The endpoint of a request for output: data comes from the query over the table, as a
/// stream when it is watched.
pub fn egress_endpoint(name: String, table: String, args: &EgressArgs) -> (r: EgressEndpoint)
    ensures
        r.name@ == name@,
        r.stream@ == table@,
        r.query == args.query,
        r.format@ == args.format@,
        r.watch == (args.mode == EgressMode::Watch),
{
    EgressEndpoint {
        name,
        stream: table,
        query: args.query,
        format: args.format.clone(),
        watch: args.mode == EgressMode::Watch,
    }
}

/// Which way the data of a connection goes.
#[derive(Debug, Clone, Copy, PartialEq, Eq, Structural)]
pub enum Direction {
    /// Into the pipeline.
    Input,
    /// Out of the pipeline, with the number of quantiles for a query that asks for
    /// them.
    Output(OutputQuery, u32),
}

/// What a connection waits for.
#[derive(Debug)]
pub enum ConnectionStage {
    /// The connection to be registered.
    Register,
    /// The endpoint to be attached.
    Attach,
    /// The connection to be unregistered, because there is no endpoint.
    Reject(PipelineError),
    /// The endpoint to take in all of the request.
    Receive(u64),
    /// The response to be opened, so that the endpoint can receive data from the
    /// pipeline.
    Open(u64),
    /// The query to be set up.
    Configure(u64),
    /// A step of the pipeline to be requested, to get the output of the query.
    Step(u64),
    /// The response to end.
    Respond(u64),
    /// The endpoint to be detached and the connection to be unregistered.
    Release(u64, Option<PipelineError>),
    /// Nothing: the request has been served, or failed.
    Finished(Option<PipelineError>),
}

/// What a connection waits for, its texts as characters.
pub enum StageView {
    Register,
    Attach,
    Reject(PipelineFault),
    Receive(u64),
    Open(u64),
    Configure(u64),
    Step(u64),
    Respond(u64),
    Release(u64, Option<PipelineFault>),
    Finished(Option<PipelineFault>),
}

/// An optional error, its texts as characters.
pub open spec fn fault_of(error: Option<PipelineError>) -> Option<PipelineFault> {
    match error {
        Some(e) => Some(e@),
        None => None,
    }
}

impl View for ConnectionStage {
    type V = StageView;

    open spec fn view(&self) -> StageView {
        match *self {
            ConnectionStage::Register => StageView::Register,
            ConnectionStage::Attach => StageView::Attach,
            ConnectionStage::Reject(e) => StageView::Reject(e@),
            ConnectionStage::Receive(id) => StageView::Receive(id),
            ConnectionStage::Open(id) => StageView::Open(id),
            ConnectionStage::Configure(id) => StageView::Configure(id),
            ConnectionStage::Step(id) => StageView::Step(id),
            ConnectionStage::Respond(id) => StageView::Respond(id),
            ConnectionStage::Release(id, e) => StageView::Release(id, fault_of(e)),
            ConnectionStage::Finished(e) => StageView::Finished(fault_of(e)),
        }
    }
}

/// What to do next.
#[derive(Debug, Clone, Copy, PartialEq, Eq, Structural)]
pub enum ConnectionAction {
    /// Register a connection with the controller.
    Register,
    /// Attach an endpoint to the controller.
    Attach,
    /// Unregister the connection.
    Unregister,
    /// Let an endpoint take in the request.
    Receive(u64),
    /// Open the response of an endpoint.
    OpenResponse(u64),
    /// Set the neighborhood that was asked for.  A reset produces a complete
    /// snapshot of it.
    SetNeighborhood { reset: bool },
    /// Set the number of quantiles.
    SetQuantiles(u32),
    /// Request a step of the pipeline.
    RequestStep,
    /// Hand out the response, and wait for its end.
    Respond(u64),
    /// Drop the response, if there is one; where there still is a controller, detach
    /// the endpoint and unregister the connection.
    Release(u64),
    /// Nothing.
    Finish,
}

/// What came of it.
#[derive(Debug)]
pub enum ConnectionAnswer {
    /// It was done.
    Done,
    /// The endpoint was attached under a number.
    Attached(u64),
    /// It failed with an error of the controller.
    Failed(String),
    /// The endpoint refused the request.
    Refused(PipelineError),
    /// The description of the neighborhood could not be understood.
    Misunderstood { spec: String, error: String },
}

/// What came of it, its texts as characters.
pub enum AnswerView {
    Done,
    Attached(u64),
    Failed(Seq<char>),
    Refused(PipelineFault),
    Misunderstood(Seq<char>, Seq<char>),
}

impl View for ConnectionAnswer {
    type V = AnswerView;

    open spec fn view(&self) -> AnswerView {
        match *self {
            ConnectionAnswer::Done => AnswerView::Done,
            ConnectionAnswer::Attached(id) => AnswerView::Attached(id),
            ConnectionAnswer::Failed(e) => AnswerView::Failed(e@),
            ConnectionAnswer::Refused(e) => AnswerView::Refused(e@),
            ConnectionAnswer::Misunderstood { spec, error } => AnswerView::Misunderstood(
                spec@,
                error@,
            ),
        }
    }
}

/// Where a connection goes on once its endpoint is attached.
pub open spec fn attached(direction: Direction, id: u64) -> StageView {
    match direction {
        Direction::Input => StageView::Receive(id),
        Direction::Output(_, _) => StageView::Open(id),
    }
}

/// Where a connection goes on once its response is open: a query other than for the
/// table has to be set up.
pub open spec fn opened(direction: Direction, id: u64) -> StageView {
    match direction {
        Direction::Output(OutputQuery::Neighborhood, _)
        | Direction::Output(OutputQuery::Quantiles, _) => StageView::Configure(id),
        _ => StageView::Respond(id),
    }
}

/// How a connection goes on after an answer; an answer to something else leaves it
/// where it is.
pub open spec fn connection_step(
    direction: Direction,
    stage: StageView,
    answer: AnswerView,
) -> StageView {
    match (stage, answer) {
        (StageView::Register, AnswerView::Done) => StageView::Attach,
        (StageView::Register, AnswerView::Failed(_)) => StageView::Finished(
            Some(PipelineFault::ApiConnectionLimit),
        ),
        (StageView::Attach, AnswerView::Attached(id)) => attached(direction, id),
        (StageView::Attach, AnswerView::Failed(e)) => StageView::Reject(
            PipelineFault::Controller(e),
        ),
        (StageView::Reject(e), AnswerView::Done) => StageView::Finished(Some(e)),
        (StageView::Receive(id), AnswerView::Done) => StageView::Release(id, None),
        (StageView::Receive(id), AnswerView::Refused(e)) => StageView::Release(id, Some(e)),
        (StageView::Open(id), AnswerView::Done) => opened(direction, id),
        (StageView::Configure(id), AnswerView::Done) => StageView::Step(id),
        (StageView::Configure(id), AnswerView::Misunderstood(spec, e)) => StageView::Release(
            id,
            Some(PipelineFault::InvalidNeighborhoodSpec(spec, e)),
        ),
        (StageView::Step(id), AnswerView::Done) => StageView::Respond(id),
        (StageView::Respond(id), AnswerView::Done) => StageView::Release(id, None),
        (StageView::Release(_, e), AnswerView::Done) => StageView::Finished(e),
        (_, _) => stage,
    }
}

/// What to do at a stage.
pub open spec fn action_at(direction: Direction, stage: StageView) -> ConnectionAction {
    match stage {
        StageView::Register => ConnectionAction::Register,
        StageView::Attach => ConnectionAction::Attach,
        StageView::Reject(_) => ConnectionAction::Unregister,
        StageView::Receive(id) => ConnectionAction::Receive(id),
        StageView::Open(id) => ConnectionAction::OpenResponse(id),
        StageView::Configure(_) => match direction {
            Direction::Output(OutputQuery::Quantiles, n) => ConnectionAction::SetQuantiles(n),
            _ => ConnectionAction::SetNeighborhood { reset: true },
        },
        StageView::Step(_) => ConnectionAction::RequestStep,
        StageView::Respond(id) => ConnectionAction::Respond(id),
        StageView::Release(id, _) => ConnectionAction::Release(id),
        StageView::Finished(_) => ConnectionAction::Finish,
    }
}

/// Where a request for input starts.
pub open spec fn ingress_start(state: ServerState, has_table: bool) -> StageView {
    if !has_table {
        StageView::Finished(Some(no_table()))
    } else if state.has_controller {
        StageView::Register
    } else {
        StageView::Finished(Some(absence(state)))
    }
}

/// Where a request for output starts.
pub open spec fn egress_start(
    state: ServerState,
    has_table: bool,
    args: EgressArgs,
    has_body: bool,
    max_quantiles: nat,
) -> StageView {
    if !has_table {
        StageView::Finished(Some(no_table()))
    } else {
        match egress_fault(args.mode, args.query, args.quantiles, has_body, max_quantiles) {
            Some(fault) => StageView::Finished(Some(fault)),
            None => if state.has_controller {
                StageView::Register
            } else {
                StageView::Finished(Some(PipelineFault::Terminating))
            },
        }
    }
}

/// A request that streams data.
#[derive(Debug)]
pub struct Connection {
    pub direction: Direction,
    /// The table, unless the request was answered at once.
    pub table: Option<String>,
    pub stage: ConnectionStage,
}

/// The table that a connection keeps, given where it starts.
pub open spec fn kept_table(start: StageView, table_name: Option<String>) -> Option<String> {
    if start is Register {
        table_name
    } else {
        None
    }
}

impl Connection {
    /// Starts to serve a request for input.  A request without a table is answered at
    /// once, and so is one without a controller.
    pub fn input_endpoint(state: &ServerState, table_name: Option<String>) -> (r: Self)
        ensures
            r.direction == Direction::Input,
            r.stage@ == ingress_start(*state, table_name is Some),
            r.table == kept_table(r.stage@, table_name),
    {
        let (table, stage) = match check_ingress(table_name) {
            Err(error) => (None, ConnectionStage::Finished(Some(error))),
            Ok(table) => {
                if state.has_controller {
                    (Some(table), ConnectionStage::Register)
                } else {
                    (None, ConnectionStage::Finished(Some(missing_controller_error(state))))
                }
            },
        };
        Connection { direction: Direction::Input, table, stage }
    }

    /// Starts to serve a request for output.  A request that is refused is answered at
    /// once; without a controller the pipeline is taken to be terminating.
    pub fn output_endpoint(
        state: &ServerState,
        table_name: Option<String>,
        args: &EgressArgs,
        has_body: bool,
        max_quantiles: usize,
    ) -> (r: Self)
        ensures
            r.direction == Direction::Output(args.query, args.quantiles),
            r.stage@ == egress_start(
                *state,
                table_name is Some,
                *args,
                has_body,
                max_quantiles as nat,
            ),
            r.table == kept_table(r.stage@, table_name),
    {
        let (table, stage) = match check_egress(table_name, args, has_body, max_quantiles) {
            Err(error) => (None, ConnectionStage::Finished(Some(error))),
            Ok(table) => {
                if state.has_controller {
                    (Some(table), ConnectionStage::Register)
                } else {
                    (None, ConnectionStage::Finished(Some(PipelineError::Terminating)))
                }
            },
        };
        Connection { direction: Direction::Output(args.query, args.quantiles), table, stage }
    }

    /// What to do next.
    pub fn action(&self) -> (r: ConnectionAction)
        ensures
            r == action_at(self.direction, self.stage@),
    {
        match &self.stage {
            ConnectionStage::Register => ConnectionAction::Register,
            ConnectionStage::Attach => ConnectionAction::Attach,
            ConnectionStage::Reject(_) => ConnectionAction::Unregister,
            ConnectionStage::Receive(id) => ConnectionAction::Receive(*id),
            ConnectionStage::Open(id) => ConnectionAction::OpenResponse(*id),
            ConnectionStage::Configure(_) => match self.direction {
                Direction::Output(OutputQuery::Quantiles, n) => ConnectionAction::SetQuantiles(n),
                _ => ConnectionAction::SetNeighborhood { reset: true },
            },
            ConnectionStage::Step(_) => ConnectionAction::RequestStep,
            ConnectionStage::Respond(id) => ConnectionAction::Respond(*id),
            ConnectionStage::Release(id, _) => ConnectionAction::Release(*id),
            ConnectionStage::Finished(_) => ConnectionAction::Finish,
        }
    }

    /// Takes what came of the action.
    pub fn reply(self, answer: ConnectionAnswer) -> (r: Self)
        ensures
            r.direction == self.direction,
            r.table == self.table,
            r.stage@ == connection_step(self.direction, self.stage@, answer@),
    {
        let stage = match (self.stage, answer) {
            (ConnectionStage::Register, ConnectionAnswer::Done) => ConnectionStage::Attach,
            (ConnectionStage::Register, ConnectionAnswer::Failed(_)) => {
                ConnectionStage::Finished(Some(PipelineError::ApiConnectionLimit))
            },
            (ConnectionStage::Attach, ConnectionAnswer::Attached(id)) => match self.direction {
                Direction::Input => ConnectionStage::Receive(id),
                Direction::Output(_, _) => ConnectionStage::Open(id),
            },
            (ConnectionStage::Open(id), ConnectionAnswer::Done) => match self.direction {
                Direction::Output(OutputQuery::Neighborhood, _)
                | Direction::Output(OutputQuery::Quantiles, _) => ConnectionStage::Configure(id),
                _ => ConnectionStage::Respond(id),
            },
            (ConnectionStage::Attach, ConnectionAnswer::Failed(error)) => {
                ConnectionStage::Reject(PipelineError::ControllerError { error })
            },
            (ConnectionStage::Reject(e), ConnectionAnswer::Done) => {
                ConnectionStage::Finished(Some(e))
            },
            (ConnectionStage::Receive(id), ConnectionAnswer::Done) => {
                ConnectionStage::Release(id, None)
            },
            (ConnectionStage::Receive(id), ConnectionAnswer::Refused(e)) => {
                ConnectionStage::Release(id, Some(e))
            },
            (ConnectionStage::Configure(id), ConnectionAnswer::Done) => ConnectionStage::Step(id),
            (ConnectionStage::Configure(id), ConnectionAnswer::Misunderstood { spec, error }) => {
                ConnectionStage::Release(
                    id,
                    Some(PipelineError::InvalidNeighborhoodSpec { spec, parse_error: error }),
                )
            },
            (ConnectionStage::Step(id), ConnectionAnswer::Done) => ConnectionStage::Respond(id),
            (ConnectionStage::Respond(id), ConnectionAnswer::Done) => {
                ConnectionStage::Release(id, None)
            },
            (ConnectionStage::Release(_, e), ConnectionAnswer::Done) => {
                ConnectionStage::Finished(e)
            },
            (stage, _) => stage,
        };
        Connection { direction: self.direction, table: self.table, stage }
    }
}

/// A refused request for output is answered with its fault in every state of the
/// server, and nothing is asked of the controller: the connection has finished and
/// stays so.
pub proof fn refused_requests_do_not_touch_the_controller(
    state: ServerState,
    args: EgressArgs,
    has_body: bool,
    max_quantiles: nat,
    answer: AnswerView,
)
    requires
        egress_fault(args.mode, args.query, args.quantiles, has_body, max_quantiles) is Some,
    ensures
        ({
            let direction = Direction::Output(args.query, args.quantiles);
            let stage = egress_start(state, true, args, has_body, max_quantiles);
            &&& stage == StageView::Finished(
                egress_fault(args.mode, args.query, args.quantiles, has_body, max_quantiles),
            )
            &&& action_at(direction, stage) == ConnectionAction::Finish
            &&& connection_step(direction, stage, answer) == stage
        }),
{
}

/// A request without a table is answered that it lacks one, in every state of the
/// server.
pub proof fn requests_need_a_table(
    state: ServerState,
    args: EgressArgs,
    has_body: bool,
    max_quantiles: nat,
)
    ensures
        ingress_start(state, false) == StageView::Finished(Some(no_table())),
        egress_start(state, false, args, has_body, max_quantiles) == StageView::Finished(
            Some(no_table()),
        ),
{
}

/// The response is open.
pub open spec fn is_open(stage: StageView) -> bool {
    stage is Configure || stage is Step || stage is Respond
}

/// The response is opened before the query is set up and before a step of the pipeline
/// is requested: such a stage is reached only from an open response, or by opening
/// it.
pub proof fn responses_open_before_data_comes(
    direction: Direction,
    stage: StageView,
    answer: AnswerView,
)
    requires
        !is_open(stage),
        is_open(connection_step(direction, stage, answer)),
    ensures
        stage matches StageView::Open(id) && action_at(direction, stage)
            == ConnectionAction::OpenResponse(id) && answer is Done,
{
}

/// The connection is registered with the controller.
pub open spec fn is_registered(stage: StageView) -> bool {
    !(stage is Register) && !(stage is Finished)
}

/// The endpoint is attached to the controller.
pub open spec fn is_attached(stage: StageView) -> bool {
    stage is Receive || stage is Open || stage is Configure || stage is Step
        || stage is Respond || stage is Release
}

/// A connection is registered only by a successful registration, and stays so until
/// it is unregistered, which happens exactly once: before a registered connection
/// finishes, its last action was to unregister it or to release it.
pub proof fn registrations_are_balanced(direction: Direction, stage: StageView, answer: AnswerView)
    ensures
        !is_registered(stage) && is_registered(connection_step(direction, stage, answer))
            ==> action_at(direction, stage) == ConnectionAction::Register && answer is Done,
        is_registered(stage) && !is_registered(connection_step(direction, stage, answer)) ==> (
        action_at(direction, stage) == ConnectionAction::Unregister || action_at(direction, stage)
            is Release) && answer is Done,
        (action_at(direction, stage) == ConnectionAction::Unregister || action_at(direction, stage)
            is Release) && answer is Done ==> connection_step(direction, stage, answer) is Finished,
{
}

/// An endpoint that was attached is detached exactly once, by the release that ends
/// the connection.
pub proof fn endpoints_are_detached(direction: Direction, stage: StageView, answer: AnswerView)
    ensures
        !is_attached(stage) && is_attached(connection_step(direction, stage, answer))
            ==> action_at(direction, stage) == ConnectionAction::Attach && answer is Attached,
        is_attached(stage) && !is_attached(connection_step(direction, stage, answer)) ==> action_at(
            direction,
            stage,
        ) is Release && answer is Done,
{
}

/// What the controller and the endpoint answer.
pub struct Answers {
    /// A connection can be registered.
    pub registers: bool,
    /// The number of the endpoint, or why it cannot be attached.
    pub attach: Result<u64, Seq<char>>,
    /// Why the endpoint refuses the request.
    pub receive: Option<PipelineFault>,
    /// The description of a neighborhood and why it is not understood.
    pub misunderstood: Option<(Seq<char>, Seq<char>)>,
}

impl Answers {
    /// The answer to an action.
    pub open spec fn at(self, action: ConnectionAction) -> AnswerView {
        match action {
            ConnectionAction::Register => if self.registers {
                AnswerView::Done
            } else {
                AnswerView::Failed(Seq::empty())
            },
            ConnectionAction::Attach => match self.attach {
                Ok(id) => AnswerView::Attached(id),
                Err(e) => AnswerView::Failed(e),
            },
            ConnectionAction::Receive(_) => match self.receive {
                Some(e) => AnswerView::Refused(e),
                None => AnswerView::Done,
            },
            ConnectionAction::SetNeighborhood { .. } => match self.misunderstood {
                Some((spec, e)) => AnswerView::Misunderstood(spec, e),
                None => AnswerView::Done,
            },
            _ => AnswerView::Done,
        }
    }
}

/// How many stages can still come.
pub open spec fn stages_left(stage: StageView) -> nat {
    match stage {
        StageView::Register => 8,
        StageView::Attach => 7,
        StageView::Open(_) => 6,
        StageView::Configure(_) => 5,
        StageView::Step(_) => 4,
        StageView::Receive(_) | StageView::Respond(_) => 3,
        StageView::Release(_, _) => 2,
        StageView::Reject(_) => 1,
        StageView::Finished(_) => 0,
    }
}

/// The error that a connection ends with, where it does.
pub open spec fn connection_run(
    direction: Direction,
    stage: StageView,
    answers: Answers,
) -> Option<PipelineFault>
    decreases stages_left(stage),
{
    if let StageView::Finished(error) = stage {
        error
    } else {
        let next = connection_step(direction, stage, answers.at(action_at(direction, stage)));
        if stages_left(next) < stages_left(stage) {
            connection_run(direction, next, answers)
        } else {
            None
        }
    }
}

/// A connection ends well exactly when it can be registered, its endpoint can be
/// attached, and the request can be taken in or the neighborhood that it asks for is
/// understood; otherwise the first of these that fails gives the error.
pub proof fn connections_fail_as_described(direction: Direction, answers: Answers)
    ensures
        connection_run(direction, StageView::Register, answers) == (if !answers.registers {
            Some(PipelineFault::ApiConnectionLimit)
        } else if let Err(e) = answers.attach {
            Some(PipelineFault::Controller(e))
        } else {
            match direction {
                Direction::Input => answers.receive,
                Direction::Output(OutputQuery::Neighborhood, _) => match answers.misunderstood {
                    Some((spec, e)) => Some(PipelineFault::InvalidNeighborhoodSpec(spec, e)),
                    None => None,
                },
                Direction::Output(_, _) => None,
            }
        }),
{
    reveal_with_fuel(connection_run, 9);
}

/// The connection does this next.
pub open spec fn does(connection: Connection, action: ConnectionAction) -> bool {
    forall|a: ConnectionAction| #[trigger]
        call_ensures(Connection::action, (&connection,), a) ==> a == action
}

/// The answer to an action that succeeds: the endpoint is attached under the number `id`, and
/// everything else is done.
pub open spec fn success_of(action: ConnectionAction, id: u64) -> ConnectionAnswer {
    if action == ConnectionAction::Attach {
        ConnectionAnswer::Attached(id)
    } else {
        ConnectionAnswer::Done
    }
}

/// The connection does these things in turn where each of them succeeds, and an endpoint is
/// attached under the number `id`.
pub open spec fn performs(
    connection: Connection,
    actions: Seq<ConnectionAction>,
    id: u64,
) -> bool
    decreases actions.len(),
{
    actions.len() > 0 ==> {
        &&& does(connection, actions[0])
        &&& forall|next: Connection| #[trigger]
            call_ensures(
                Connection::reply,
                (connection, success_of(actions[0], id)),
                next,
            ) ==> performs(next, actions.skip(1), id)
    }
}

/// The stages follow each other like the actions.
spec fn steps_through(
    direction: Direction,
    stage: StageView,
    actions: Seq<ConnectionAction>,
    id: u64,
) -> bool
    decreases actions.len(),
{
    actions.len() > 0 ==> {
        &&& action_at(direction, stage) == actions[0]
        &&& steps_through(
            direction,
            connection_step(
                direction,
                stage,
                if actions[0] == ConnectionAction::Attach {
                    AnswerView::Attached(id)
                } else {
                    AnswerView::Done
                },
            ),
            actions.skip(1),
            id,
        )
    }
}

proof fn lemma_performs(connection: Connection, actions: Seq<ConnectionAction>, id: u64)
    requires
        steps_through(connection.direction, connection.stage@, actions, id),
    ensures
        performs(connection, actions, id),
    decreases actions.len(),
{
    if actions.len() > 0 {
        assert forall|next: Connection| #[trigger]
            call_ensures(
                Connection::reply,
                (connection, success_of(actions[0], id)),
                next,
            ) implies performs(next, actions.skip(1), id) by {
            lemma_performs(next, actions.skip(1), id);
        }
    }
}

/// A request for input that finds a controller registers a connection, attaches an endpoint,
/// lets it take in the request, and releases it.
pub proof fn input_is_received_by_an_endpoint(
    state: ServerState,
    table: String,
    id: u64,
    r: Connection,
)
    requires
        state.has_controller,
        call_ensures(Connection::input_endpoint, (&state, Some(table)), r),
    ensures
        r.table == Some(table),
        performs(
            r,
            seq![
                ConnectionAction::Register,
                ConnectionAction::Attach,
                ConnectionAction::Receive(id),
                ConnectionAction::Release(id),
                ConnectionAction::Finish,
            ],
            id,
        ),
{
    let actions = seq![
        ConnectionAction::Register,
        ConnectionAction::Attach,
        ConnectionAction::Receive(id),
        ConnectionAction::Release(id),
        ConnectionAction::Finish,
    ];
    reveal_with_fuel(steps_through, 6);
    lemma_performs(r, actions, id);
}

/// A request for output that is not refused and finds a controller registers a connection,
/// attaches an endpoint and opens its response.  A neighborhood or quantiles are then set up
/// as asked for, and a step of the pipeline is requested, so that the pipeline outputs them.
/// Then the response is handed out, and released in the end.
pub proof fn output_is_set_up_before_it_is_handed_out(
    state: ServerState,
    table: String,
    args: EgressArgs,
    has_body: bool,
    max_quantiles: usize,
    id: u64,
    r: Connection,
)
    requires
        state.has_controller,
        call_ensures(
            Connection::output_endpoint,
            (&state, Some(table), &args, has_body, max_quantiles),
            r,
        ),
    ensures
        args.query == OutputQuery::Table && args.mode == EgressMode::Watch ==> r.table == Some(table)
            && performs(
            r,
            seq![
                ConnectionAction::Register,
                ConnectionAction::Attach,
                ConnectionAction::OpenResponse(id),
                ConnectionAction::Respond(id),
                ConnectionAction::Release(id),
                ConnectionAction::Finish,
            ],
            id,
        ),
        args.query == OutputQuery::Neighborhood && has_body ==> r.table == Some(table) && performs(
            r,
            seq![
                ConnectionAction::Register,
                ConnectionAction::Attach,
                ConnectionAction::OpenResponse(id),
                ConnectionAction::SetNeighborhood { reset: true },
                ConnectionAction::RequestStep,
                ConnectionAction::Respond(id),
                ConnectionAction::Release(id),
                ConnectionAction::Finish,
            ],
            id,
        ),
        args.query == OutputQuery::Quantiles && args.mode == EgressMode::Snapshot && 0
            < args.quantiles <= max_quantiles ==> r.table == Some(table) && performs(
            r,
            seq![
                ConnectionAction::Register,
                ConnectionAction::Attach,
                ConnectionAction::OpenResponse(id),
                ConnectionAction::SetQuantiles(args.quantiles),
                ConnectionAction::RequestStep,
                ConnectionAction::Respond(id),
                ConnectionAction::Release(id),
                ConnectionAction::Finish,
            ],
            id,
        ),
{
    reveal_with_fuel(steps_through, 9);
    if args.query == OutputQuery::Table && args.mode == EgressMode::Watch {
        lemma_performs(
            r,
            seq![
                ConnectionAction::Register,
                ConnectionAction::Attach,
                ConnectionAction::OpenResponse(id),
                ConnectionAction::Respond(id),
                ConnectionAction::Release(id),
                ConnectionAction::Finish,
            ],
            id,
        );
    }
    if args.query == OutputQuery::Neighborhood && has_body {
        lemma_performs(
            r,
            seq![
                ConnectionAction::Register,
                ConnectionAction::Attach,
                ConnectionAction::OpenResponse(id),
                ConnectionAction::SetNeighborhood { reset: true },
                ConnectionAction::RequestStep,
                ConnectionAction::Respond(id),
                ConnectionAction::Release(id),
                ConnectionAction::Finish,
            ],
            id,
        );
    }
    if args.query == OutputQuery::Quantiles && args.mode == EgressMode::Snapshot && 0
        < args.quantiles <= max_quantiles {
        lemma_performs(
            r,
            seq![
                ConnectionAction::Register,
                ConnectionAction::Attach,
                ConnectionAction::OpenResponse(id),
                ConnectionAction::SetQuantiles(args.quantiles),
                ConnectionAction::RequestStep,
                ConnectionAction::Respond(id),
                ConnectionAction::Release(id),
                ConnectionAction::Finish,
            ],
            id,
        );
    }
}

/// The connection has ended with an error.
pub open spec fn ends_with(connection: Connection, error: PipelineError) -> bool {
    does(connection, ConnectionAction::Finish) && (connection.stage matches
        ConnectionStage::Finished(Some(e)) && same_pipeline_error(e, error))
}

/// Does one thing, and ends with an error once that is done.
pub open spec fn does_and_ends(
    connection: Connection,
    action: ConnectionAction,
    error: PipelineError,
) -> bool {
    &&& does(connection, action)
    &&& forall|next: Connection| #[trigger]
        call_ensures(Connection::reply, (connection, ConnectionAnswer::Done), next) ==> ends_with(
            next,
            error,
        )
}

proof fn lemma_ends(connection: Connection, error: PipelineError)
    requires
        connection.stage@ == StageView::Finished(Some(error@)),
    ensures
        ends_with(connection, error),
{
    assert(connection.stage is Finished);
    let e = connection.stage->Finished_0->0;
    assert(e@ == error@ ==> same_pipeline_error(e, error));
}

/// A connection that fails ends with the error of what failed: too many connections where it
/// cannot be registered, the error of the controller where no endpoint can be attached, that
/// of the endpoint where it refuses the request, and the description where the neighborhood
/// is not understood.  A registered connection is unregistered before that, and an attached
/// endpoint released.
pub proof fn failing_connections_clean_up(
    connection: Connection,
    id: u64,
    text: String,
    spec_text: String,
    refusal: PipelineError,
    next: Connection,
)
    ensures
        connection.stage is Register && call_ensures(
            Connection::reply,
            (connection, ConnectionAnswer::Failed(text)),
            next,
        ) ==> ends_with(next, PipelineError::ApiConnectionLimit),
        connection.stage is Attach && call_ensures(
            Connection::reply,
            (connection, ConnectionAnswer::Failed(text)),
            next,
        ) ==> does_and_ends(
            next,
            ConnectionAction::Unregister,
            PipelineError::ControllerError { error: text },
        ),
        connection.stage == ConnectionStage::Receive(id) && call_ensures(
            Connection::reply,
            (connection, ConnectionAnswer::Refused(refusal)),
            next,
        ) ==> does_and_ends(next, ConnectionAction::Release(id), refusal),
        connection.stage == ConnectionStage::Configure(id) && call_ensures(
            Connection::reply,
            (connection, ConnectionAnswer::Misunderstood { spec: spec_text, error: text }),
            next,
        ) ==> does_and_ends(
            next,
            ConnectionAction::Release(id),
            PipelineError::InvalidNeighborhoodSpec { spec: spec_text, parse_error: text },
        ),
{
    let limit = PipelineError::ApiConnectionLimit;
    let controller = PipelineError::ControllerError { error: text };
    let unknown = PipelineError::InvalidNeighborhoodSpec { spec: spec_text, parse_error: text };
    if next.stage@ == StageView::Finished(Some(limit@)) {
        lemma_ends(next, limit);
    }
    assert forall|error: PipelineError|
        next.stage@ == StageView::Release(id, Some(#[trigger] error@)) || next.stage@
            == StageView::Reject(error@) implies forall|last: Connection| #[trigger]
        call_ensures(Connection::reply, (next, ConnectionAnswer::Done), last) ==> ends_with(
            last,
            error,
        ) by {
        assert forall|last: Connection| #[trigger]
            call_ensures(Connection::reply, (next, ConnectionAnswer::Done), last) implies ends_with(
            last,
            error,
        ) by {
            lemma_ends(last, error);
        }
    }
    assert(controller@ == PipelineFault::Controller(text@));
    assert(unknown@ == PipelineFault::InvalidNeighborhoodSpec(spec_text@, text@));
    assert(refusal@ == refusal@);
}

/// A request is answered at once where its address lacks a table, where its arguments do not
/// go together, and where there is no controller; in that order.
pub proof fn unserved_requests_are_answered_at_once(
    state: ServerState,
    table: Option<String>,
    args: EgressArgs,
    has_body: bool,
    max_quantiles: usize,
    input: Connection,
    output: Connection,
    why: PipelineError,
)
    requires
        call_ensures(Connection::input_endpoint, (&state, table), input),
        call_ensures(
            Connection::output_endpoint,
            (&state, table, &args, has_body, max_quantiles),
            output,
        ),
        call_ensures(missing_controller_error, (&state,), why),
    ensures
        table is None ==> lacks_a_table(input) && lacks_a_table(output),
        table is Some && !state.has_controller ==> ends_with(input, why),
        table is Some ==> {
            let fails = |e: PipelineError| ends_with(output, e);
            if args.query == OutputQuery::Quantiles && args.mode == EgressMode::Watch {
                fails(PipelineError::QuantileStreamingNotSupported)
            } else if args.query == OutputQuery::Table && args.mode == EgressMode::Snapshot {
                fails(PipelineError::TableSnapshotNotImplemented)
            } else if args.query == OutputQuery::Neighborhood && !has_body {
                fails(PipelineError::MissingNeighborhoodSpec)
            } else if args.query == OutputQuery::Quantiles && !(0 < args.quantiles
                <= max_quantiles) {
                fails(PipelineError::NumQuantilesOutOfRange { quantiles: args.quantiles })
            } else if !state.has_controller {
                fails(PipelineError::Terminating)
            } else {
                does(output, ConnectionAction::Register)
            }
        },
{
    if input.stage@ == StageView::Finished(Some(why@)) {
        lemma_ends(input, why);
    }
    if let StageView::Finished(Some(fault)) = output.stage@ {
        let e = output.stage->Finished_0->0;
        lemma_ends(output, e);
    }
}

/// The connection has ended because the address lacks the name of the table.
pub open spec fn lacks_a_table(connection: Connection) -> bool {
    does(connection, ConnectionAction::Finish) && (connection.stage matches
        ConnectionStage::Finished(Some(PipelineError::MissingUrlEncodedParam { param })) && param@
        == "table_name"@)
}

/// Requests are checked like the connections that serve them: the table is handed back, or
/// the error told.
pub proof fn checks_hand_the_table_back(
    table: Option<String>,
    args: EgressArgs,
    has_body: bool,
    max_quantiles: usize,
    input: Result<String, PipelineError>,
    output: Result<String, PipelineError>,
)
    requires
        call_ensures(check_ingress, (table,), input),
        call_ensures(check_egress, (table, &args, has_body, max_quantiles), output),
    ensures
        table matches Some(t) ==> (input matches Ok(r) && r@ == t@),
        table is None ==> (input matches Err(PipelineError::MissingUrlEncodedParam { param })
            && param@ == "table_name"@) && (output matches Err(
            PipelineError::MissingUrlEncodedParam { param },
        ) && param@ == "table_name"@),
        table matches Some(t) ==> match output {
            Ok(r) => r@ == t@ && !(args.query == OutputQuery::Quantiles && args.mode
                == EgressMode::Watch) && !(args.query == OutputQuery::Table && args.mode
                == EgressMode::Snapshot) && !(args.query == OutputQuery::Neighborhood && !has_body)
                && !(args.query == OutputQuery::Quantiles && !(0 < args.quantiles
                <= max_quantiles)),
            Err(PipelineError::QuantileStreamingNotSupported) => args.query
                == OutputQuery::Quantiles && args.mode == EgressMode::Watch,
            Err(PipelineError::TableSnapshotNotImplemented) => args.query == OutputQuery::Table
                && args.mode == EgressMode::Snapshot,
            Err(PipelineError::MissingNeighborhoodSpec) => args.query == OutputQuery::Neighborhood
                && !has_body,
            Err(PipelineError::NumQuantilesOutOfRange { quantiles }) => quantiles == args.quantiles
                && args.query == OutputQuery::Quantiles && args.mode == EgressMode::Snapshot && !(0
                < args.quantiles <= max_quantiles),
            Err(_) => false,
        },
{
}

/// The names of endpoints tell the mode, the table and the query, and end in the identifier.
pub proof fn endpoint_names_tell_the_request(
    mode: EgressMode,
    query: OutputQuery,
    table: &str,
    id: &str,
    input: String,
    output: String,
)
    requires
        call_ensures(ingress_endpoint_name, (table, id), input),
        call_ensures(egress_endpoint_name, (mode, query, table, id), output),
    ensures
        input@ == "api-ingress-"@ + table@ + "-"@ + id@,
        output@ == "api-"@ + (if mode == EgressMode::Watch {
            "watch"@
        } else {
            "snapshot"@
        }) + "-"@ + table@ + "-"@ + (if query == OutputQuery::Table {
            ""@
        } else if query == OutputQuery::Neighborhood {
            "neighborhood-"@
        } else {
            "quantiles-"@
        }) + id@,
{
}

/// New endpoints are named with new random identifiers.
pub proof fn new_endpoints_get_random_names(
    mode: EgressMode,
    query: OutputQuery,
    table: &str,
    input: String,
    output: String,
)
    ensures
        call_ensures(new_ingress_endpoint_name, (table,), input) ==> exists|bits: u128|
            input@ == "api-ingress-"@ + table@ + "-"@ + #[trigger] id_text(bits) && hex_value(
                id_text(bits)[14],
            ) == 4,
        call_ensures(new_egress_endpoint_name, (mode, query, table), output) ==> exists|
            bits: u128,
        |
            output@ == "api-"@ + (if mode == EgressMode::Watch {
                "watch"@
            } else {
                "snapshot"@
            }) + "-"@ + table@ + "-"@ + (if query == OutputQuery::Table {
                ""@
            } else if query == OutputQuery::Neighborhood {
                "neighborhood-"@
            } else {
                "quantiles-"@
            }) + #[trigger] id_text(bits) && hex_value(id_text(bits)[14]) == 4,
{
    if call_ensures(new_ingress_endpoint_name, (table,), input) {
        let bits = choose|bits: u128|
            has_version(bits, 4) && input@ == ingress_name(table@, #[trigger] id_text(bits));
        versions_are_shown(bits, 4);
    }
    if call_ensures(new_egress_endpoint_name, (mode, query, table), output) {
        let bits = choose|bits: u128|
            has_version(bits, 4) && output@ == egress_name(
                mode,
                query,
                table@,
                #[trigger] id_text(bits),
            );
        versions_are_shown(bits, 4);
    }
}

/// An endpoint has the name it is given, belongs to the table and has the format of the
/// request; one for output has its query too, and is watched where the request says so, which
/// it does unless told otherwise.
pub proof fn endpoints_follow_their_requests(
    name: String,
    table: String,
    format: String,
    args: EgressArgs,
    input: IngressEndpoint,
    output: EgressEndpoint,
    mode: EgressMode,
)
    ensures
        call_ensures(ingress_endpoint, (name, table, format), input) ==> input.name@ == name@
            && input.stream@ == table@ && input.format@ == format@,
        call_ensures(egress_endpoint, (name, table, &args), output) ==> output.name@ == name@
            && output.stream@ == table@ && output.format@ == args.format@ && output.query
            == args.query && (output.watch <==> args.mode == EgressMode::Watch),
        call_ensures(<EgressMode as Default>::default, (), mode) ==> mode == EgressMode::Watch,
{
}

/// Only the answer to its action moves a connection: any other one leaves it where it is, and a
/// connection that has ended stays so.
pub proof fn only_answers_move_a_connection(
    connection: Connection,
    answer: ConnectionAnswer,
    next: Connection,
)
    requires
        call_ensures(Connection::reply, (connection, answer), next),
        connection.stage is Finished || answer is Failed && !(connection.stage is Register
            || connection.stage is Attach) || answer is Attached && !(connection.stage is Attach)
            || answer is Refused && !(connection.stage is Receive) || answer is Misunderstood
            && !(connection.stage is Configure) || answer is Done && connection.stage is Attach,
    ensures
        next.stage@ == connection.stage@,
{
}

/// A connection keeps its table and which way its data goes.
pub proof fn connections_keep_their_request(
    connection: Connection,
    answer: ConnectionAnswer,
    next: Connection,
)
    requires
        call_ensures(Connection::reply, (connection, answer), next),
    ensures
        next.table == connection.table,
        next.direction == connection.direction,
{
}

} // verus!
