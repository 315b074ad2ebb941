//! Errors of the pipeline manager.

use crate::pipeline_manager::ids::PipelineId;
use crate::text::{
    all_digits, cat2, cat3, cat4, cat5, decimal_value, digit, digit_char, lemma_decimal_text,
    nat_text, unsigned_text,
};
use vstd::prelude::*;

verus! {

/// The state of a pipeline.
#[derive(Debug, Clone, Copy, PartialEq, Eq, Structural)]
pub enum PipelineStatus {
    /// There is no process.
    Shutdown,
    /// The process has been started, and has not told its port yet.
    Provisioning,
    /// The process is initializing its connectors.
    Initializing,
    /// The process is ready and does not run.
    Paused,
    /// The process is running.
    Running,
    /// The process has been told to exit.
    ShuttingDown,
    /// The process was killed because of an error.
    Failed,
}

/// Errors of running and reaching pipelines.
#[derive(Debug, Clone)]
pub enum RunnerError {
    PipelineShutdown { pipeline_id: PipelineId },
    HttpForwardError { pipeline_id: PipelineId, error: String },
    PortFileParseError { pipeline_id: PipelineId, error: String },
    PipelineProvisioningTimeout { pipeline_id: PipelineId, timeout_millis: u64 },
    PipelineInitializationTimeout { pipeline_id: PipelineId, timeout_millis: u64 },
    PipelineShutdownTimeout { pipeline_id: PipelineId, timeout_millis: u64 },
    PipelineStartupError { pipeline_id: PipelineId, error: String },
    IllegalPipelineStateTransition {
        pipeline_id: PipelineId,
        error: String,
        current_status: PipelineStatus,
        desired_status: PipelineStatus,
        requested_status: Option<PipelineStatus>,
    },
}

/// What an error of the runner says, its texts as characters.
pub enum RunnerFault {
    PipelineShutdown(PipelineId),
    HttpForward(PipelineId, Seq<char>),
    PortFileParse(PipelineId, Seq<char>),
    ProvisioningTimeout(PipelineId, u64),
    InitializationTimeout(PipelineId, u64),
    ShutdownTimeout(PipelineId, u64),
    Startup(PipelineId, Seq<char>),
    IllegalTransition(
        PipelineId,
        Seq<char>,
        PipelineStatus,
        PipelineStatus,
        Option<PipelineStatus>,
    ),
}

impl View for RunnerError {
    type V = RunnerFault;

    open spec fn view(&self) -> RunnerFault {
        match *self {
            RunnerError::PipelineShutdown { pipeline_id } => RunnerFault::PipelineShutdown(
                pipeline_id,
            ),
            RunnerError::HttpForwardError { pipeline_id, error } => RunnerFault::HttpForward(
                pipeline_id,
                error@,
            ),
            RunnerError::PortFileParseError { pipeline_id, error } => RunnerFault::PortFileParse(
                pipeline_id,
                error@,
            ),
            RunnerError::PipelineProvisioningTimeout { pipeline_id, timeout_millis } => {
                RunnerFault::ProvisioningTimeout(pipeline_id, timeout_millis)
            },
            RunnerError::PipelineInitializationTimeout { pipeline_id, timeout_millis } => {
                RunnerFault::InitializationTimeout(pipeline_id, timeout_millis)
            },
            RunnerError::PipelineShutdownTimeout { pipeline_id, timeout_millis } => {
                RunnerFault::ShutdownTimeout(pipeline_id, timeout_millis)
            },
            RunnerError::PipelineStartupError { pipeline_id, error } => RunnerFault::Startup(
                pipeline_id,
                error@,
            ),
            RunnerError::IllegalPipelineStateTransition {
                pipeline_id,
                error,
                current_status,
                desired_status,
                requested_status,
            } => RunnerFault::IllegalTransition(
                pipeline_id,
                error@,
                current_status,
                desired_status,
                requested_status,
            ),
        }
    }
}

/// The digits of a number of thousandths behind a decimal point, without the zeros at the
/// end.
pub open spec fn thousandths_shown(n: nat) -> Seq<char> {
    if n == 0 {
        Seq::empty()
    } else if n % 100 == 0 {
        seq!['.', digit(n / 100)]
    } else if n % 10 == 0 {
        seq!['.', digit(n / 100), digit(n / 10 % 10)]
    } else {
        seq!['.', digit(n / 100), digit(n / 10 % 10), digit(n % 10)]
    }
}

/// A duration of so many milliseconds as text: in seconds, or in milliseconds below a
/// second.
pub open spec fn duration_shown(millis: u64) -> Seq<char> {
    if millis == 0 {
        "0ns"@
    } else if millis < 1000 {
        nat_text(millis as nat) + "ms"@
    } else {
        nat_text(millis as nat / 1000) + thousandths_shown(millis as nat % 1000) + "s"@
    }
}

/// Shows the digits of a number of thousandths.
fn thousandths_text(n: u64) -> (r: String)
    requires
        n < 1000,
    ensures
        r@ == thousandths_shown(n as nat),
{
    let mut out = String::new();
    if n > 0 {
        out.push('.');
        out.push(digit_char((n / 100) as u8));
        if n % 100 != 0 {
            out.push(digit_char((n / 10 % 10) as u8));
        }
        if n % 10 != 0 {
            out.push(digit_char((n % 10) as u8));
        }
    }
    assert(out@ =~= thousandths_shown(n as nat));
    out
}

/// Shows a duration.
pub fn duration_text(millis: u64) -> (r: String)
    ensures
        r@ == duration_shown(millis),
{
    if millis == 0 {
        "0ns".to_string()
    } else if millis < 1000 {
        cat2(unsigned_text(millis as u128).as_str(), "ms")
    } else {
        cat3(
            unsigned_text((millis / 1000) as u128).as_str(),
            thousandths_text(millis % 1000).as_str(),
            "s",
        )
    }
}

/// What an error is called.
pub open spec fn code_of(fault: RunnerFault) -> Seq<char> {
    match fault {
        RunnerFault::PipelineShutdown(_) => "PipelineShutdown"@,
        RunnerFault::HttpForward(_, _) => "HttpForwardError"@,
        RunnerFault::PortFileParse(_, _) => "PortFileParseError"@,
        RunnerFault::ProvisioningTimeout(_, _) => "PipelineProvisioningTimeout"@,
        RunnerFault::InitializationTimeout(_, _) => "PipelineInitializationTimeout"@,
        RunnerFault::ShutdownTimeout(_, _) => "PipelineShutdownTimeout"@,
        RunnerFault::Startup(_, _) => "PipelineStartupError"@,
        RunnerFault::IllegalTransition(_, _, _, _, _) => "IllegalPipelineStateTransition"@,
    }
}

/// The message of a timeout around the text of its duration.
pub open spec fn timeout_message(
    id: PipelineId,
    what: Seq<char>,
    duration: Seq<char>,
) -> Seq<char> {
    "Waiting for pipeline '"@ + id.text() + what + duration
}

/// The message of an error.
pub open spec fn message_of(fault: RunnerFault) -> Seq<char> {
    match fault {
        RunnerFault::PipelineShutdown(id) => "Pipeline '"@ + id.text()
            + "' is not currently running."@,
        RunnerFault::HttpForward(id, error) => "Error forwarding HTTP request to pipeline '"@
            + id.text() + "': '"@ + error + "'"@,
        RunnerFault::PortFileParse(id, error) => "Could not parse port for pipeline '"@ + id.text()
            + "' from port file: '"@ + error + "'"@,
        RunnerFault::ProvisioningTimeout(id, millis) => timeout_message(
            id,
            "' to start timed out after "@,
            duration_shown(millis),
        ),
        RunnerFault::InitializationTimeout(id, millis) => timeout_message(
            id,
            "' initialization timed out after "@,
            duration_shown(millis),
        ),
        RunnerFault::ShutdownTimeout(id, millis) => timeout_message(
            id,
            "' to shutdown timed out after "@,
            duration_shown(millis),
        ),
        RunnerFault::Startup(id, error) => "Failed to start pipeline '"@ + id.text() + "': '"@
            + error + "'"@,
        RunnerFault::IllegalTransition(_, error, _, _, _) => {
            "Action is not applicable in the current state of the pipeline: "@ + error
        },
    }
}

/// The HTTP status of an error: not found where the pipeline does not run, and an
/// internal error otherwise.
pub open spec fn status_of(fault: RunnerFault) -> u16 {
    match fault {
        RunnerFault::PipelineShutdown(_) => 404,
        _ => 500,
    }
}

/// Joins the message of a timeout.
pub fn timeout_text(id: PipelineId, what: &str, duration: &str) -> (r: String)
    ensures
        r@ == timeout_message(id, what@, duration@),
{
    let id_text = id.to_text();
    cat4("Waiting for pipeline '", id_text.as_str(), what, duration)
}

impl RunnerError {
    /// The name of the error.
    pub fn error_code(&self) -> (r: &'static str)
        ensures
            r@ == code_of(self@),
    {
        match self {
            RunnerError::PipelineShutdown { .. } => "PipelineShutdown",
            RunnerError::HttpForwardError { .. } => "HttpForwardError",
            RunnerError::PortFileParseError { .. } => "PortFileParseError",
            RunnerError::PipelineProvisioningTimeout { .. } => "PipelineProvisioningTimeout",
            RunnerError::PipelineInitializationTimeout { .. } => "PipelineInitializationTimeout",
            RunnerError::PipelineShutdownTimeout { .. } => "PipelineShutdownTimeout",
            RunnerError::PipelineStartupError { .. } => "PipelineStartupError",
            RunnerError::IllegalPipelineStateTransition { .. } => "IllegalPipelineStateTransition",
        }
    }

    /// The message of the error.
    pub fn to_text(&self) -> (r: String)
        ensures
            r@ == message_of(self@),
    {
        match self {
            RunnerError::PipelineShutdown { pipeline_id } => cat3(
                "Pipeline '",
                pipeline_id.to_text().as_str(),
                "' is not currently running.",
            ),
            RunnerError::HttpForwardError { pipeline_id, error } => cat5(
                "Error forwarding HTTP request to pipeline '",
                pipeline_id.to_text().as_str(),
                "': '",
                error.as_str(),
                "'",
            ),
            RunnerError::PipelineProvisioningTimeout { pipeline_id, timeout_millis } => {
                timeout_text(
                    *pipeline_id,
                    "' to start timed out after ",
                    duration_text(*timeout_millis).as_str(),
                )
            },
            RunnerError::PipelineInitializationTimeout { pipeline_id, timeout_millis } => {
                timeout_text(
                    *pipeline_id,
                    "' initialization timed out after ",
                    duration_text(*timeout_millis).as_str(),
                )
            },
            RunnerError::PipelineShutdownTimeout { pipeline_id, timeout_millis } => {
                timeout_text(
                    *pipeline_id,
                    "' to shutdown timed out after ",
                    duration_text(*timeout_millis).as_str(),
                )
            },
            RunnerError::PortFileParseError { pipeline_id, error } => cat5(
                "Could not parse port for pipeline '",
                pipeline_id.to_text().as_str(),
                "' from port file: '",
                error.as_str(),
                "'",
            ),
            RunnerError::PipelineStartupError { pipeline_id, error } => cat5(
                "Failed to start pipeline '",
                pipeline_id.to_text().as_str(),
                "': '",
                error.as_str(),
                "'",
            ),
            RunnerError::IllegalPipelineStateTransition { error, .. } => cat2(
                "Action is not applicable in the current state of the pipeline: ",
                error.as_str(),
            ),
        }
    }

    /// The HTTP status of the error.
    pub fn status_code(&self) -> (r: u16)
        ensures
            r == status_of(self@),
    {
        match self {
            RunnerError::PipelineShutdown { .. } => 404,
            _ => 500,
        }
    }
}

/// Errors of the database.
#[derive(Debug, Clone)]
pub enum DbError {
    /// The pipeline has not changed since its last revision.
    RevisionNotChanged,
    /// Another error, with its message.
    Other(String),
}

/// Errors of the manager.
#[derive(Debug, Clone)]
pub enum ManagerError {
    Runner(RunnerError),
    Io { context: String, error: String },
    Db(DbError),
}

/// An error response of a pipeline.
#[derive(Debug, Clone)]
pub struct ErrorResponse {
    /// Human-readable error message.
    pub message: String,
    /// The name of the error.
    pub error_code: String,
    /// Detailed error metadata as JSON.
    pub details: String,
}

/// Why a pipeline failed.
#[derive(Debug, Clone)]
pub enum Failure {
    /// An error of the manager.
    Manager(ManagerError),
    /// An error that the pipeline reported.
    Reported(ErrorResponse),
}

/// What an error of the database says.
pub enum DbFault {
    RevisionNotChanged,
    Other(Seq<char>),
}

impl View for DbError {
    type V = DbFault;

    open spec fn view(&self) -> DbFault {
        match *self {
            DbError::RevisionNotChanged => DbFault::RevisionNotChanged,
            DbError::Other(message) => DbFault::Other(message@),
        }
    }
}

/// What an error of the manager says.
pub enum ManagerFault {
    Runner(RunnerFault),
    Io(Seq<char>, Seq<char>),
    Db(DbFault),
}

impl View for ManagerError {
    type V = ManagerFault;

    open spec fn view(&self) -> ManagerFault {
        match *self {
            ManagerError::Runner(error) => ManagerFault::Runner(error@),
            ManagerError::Io { context, error } => ManagerFault::Io(context@, error@),
            ManagerError::Db(error) => ManagerFault::Db(error@),
        }
    }
}

/// What an error response says: its message, its code and its details.
pub struct ResponseView {
    pub message: Seq<char>,
    pub error_code: Seq<char>,
    pub details: Seq<char>,
}

impl View for ErrorResponse {
    type V = ResponseView;

    open spec fn view(&self) -> ResponseView {
        ResponseView {
            message: self.message@,
            error_code: self.error_code@,
            details: self.details@,
        }
    }
}

/// Why a pipeline failed, its texts as characters.
pub enum Cause {
    Manager(ManagerFault),
    Reported(ResponseView),
}

impl View for Failure {
    type V = Cause;

    open spec fn view(&self) -> Cause {
        match *self {
            Failure::Manager(error) => Cause::Manager(error@),
            Failure::Reported(response) => Cause::Reported(response@),
        }
    }
}

/// Two errors of different names have different codes, and errors of one name
/// share their code.
pub proof fn codes_name_the_errors(a: RunnerFault, b: RunnerFault)
    ensures
        (code_of(a) == code_of(b)) <==> match a {
            RunnerFault::PipelineShutdown(_) => b is PipelineShutdown,
            RunnerFault::HttpForward(_, _) => b is HttpForward,
            RunnerFault::PortFileParse(_, _) => b is PortFileParse,
            RunnerFault::ProvisioningTimeout(_, _) => b is ProvisioningTimeout,
            RunnerFault::InitializationTimeout(_, _) => b is InitializationTimeout,
            RunnerFault::ShutdownTimeout(_, _) => b is ShutdownTimeout,
            RunnerFault::Startup(_, _) => b is Startup,
            RunnerFault::IllegalTransition(_, _, _, _, _) => b is IllegalTransition,
        },
{
    reveal_strlit("PipelineShutdown");
    reveal_strlit("HttpForwardError");
    reveal_strlit("PortFileParseError");
    reveal_strlit("PipelineProvisioningTimeout");
    reveal_strlit("PipelineInitializationTimeout");
    reveal_strlit("PipelineShutdownTimeout");
    reveal_strlit("PipelineStartupError");
    reveal_strlit("IllegalPipelineStateTransition");
    assert("PipelineShutdown"@.len() == 16);
    assert("HttpForwardError"@.len() == 16);
    assert("PortFileParseError"@.len() == 18);
    assert("PipelineProvisioningTimeout"@.len() == 27);
    assert("PipelineInitializationTimeout"@.len() == 29);
    assert("PipelineShutdownTimeout"@.len() == 23);
    assert("PipelineStartupError"@.len() == 20);
    assert("IllegalPipelineStateTransition"@.len() == 30);
    assert("PipelineShutdown"@[0] == 'P');
    assert("HttpForwardError"@[0] == 'H');
}

/// Two errors of the database are the same but for where their texts are kept.
pub open spec fn same_db_error(a: DbError, b: DbError) -> bool {
    match (a, b) {
        (DbError::RevisionNotChanged, DbError::RevisionNotChanged) => true,
        (DbError::Other(x), DbError::Other(y)) => x@ == y@,
        _ => false,
    }
}

/// Two error responses have the same texts.
pub open spec fn same_response(a: ErrorResponse, b: ErrorResponse) -> bool {
    a.message@ == b.message@ && a.error_code@ == b.error_code@ && a.details@ == b.details@
}

/// Two errors of running a pipeline are the same but for where their texts are kept.
pub open spec fn same_runner_error(a: RunnerError, b: RunnerError) -> bool {
    match (a, b) {
        (
            RunnerError::PipelineShutdown { pipeline_id: i },
            RunnerError::PipelineShutdown { pipeline_id: j },
        ) => i == j,
        (
            RunnerError::HttpForwardError { pipeline_id: i, error: x },
            RunnerError::HttpForwardError { pipeline_id: j, error: y },
        ) => i == j && x@ == y@,
        (
            RunnerError::PortFileParseError { pipeline_id: i, error: x },
            RunnerError::PortFileParseError { pipeline_id: j, error: y },
        ) => i == j && x@ == y@,
        (
            RunnerError::PipelineProvisioningTimeout { pipeline_id: i, timeout_millis: m },
            RunnerError::PipelineProvisioningTimeout { pipeline_id: j, timeout_millis: n },
        ) => i == j && m == n,
        (
            RunnerError::PipelineInitializationTimeout { pipeline_id: i, timeout_millis: m },
            RunnerError::PipelineInitializationTimeout { pipeline_id: j, timeout_millis: n },
        ) => i == j && m == n,
        (
            RunnerError::PipelineShutdownTimeout { pipeline_id: i, timeout_millis: m },
            RunnerError::PipelineShutdownTimeout { pipeline_id: j, timeout_millis: n },
        ) => i == j && m == n,
        (
            RunnerError::PipelineStartupError { pipeline_id: i, error: x },
            RunnerError::PipelineStartupError { pipeline_id: j, error: y },
        ) => i == j && x@ == y@,
        (
            RunnerError::IllegalPipelineStateTransition {
                pipeline_id: i,
                error: x,
                current_status: c,
                desired_status: d,
                requested_status: r,
            },
            RunnerError::IllegalPipelineStateTransition {
                pipeline_id: j,
                error: y,
                current_status: c2,
                desired_status: d2,
                requested_status: r2,
            },
        ) => i == j && x@ == y@ && c == c2 && d == d2 && r == r2,
        _ => false,
    }
}

/// Two errors of the manager are the same but for where their texts are kept.
pub open spec fn same_manager_error(a: ManagerError, b: ManagerError) -> bool {
    match (a, b) {
        (ManagerError::Runner(x), ManagerError::Runner(y)) => same_runner_error(x, y),
        (ManagerError::Db(x), ManagerError::Db(y)) => same_db_error(x, y),
        (
            ManagerError::Io { context: c, error: x },
            ManagerError::Io { context: d, error: y },
        ) => c@ == d@ && x@ == y@,
        _ => false,
    }
}

/// Two causes of a failure are the same but for where their texts are kept.
pub open spec fn same_failure(a: Failure, b: Failure) -> bool {
    match (a, b) {
        (Failure::Manager(x), Failure::Manager(y)) => same_manager_error(x, y),
        (Failure::Reported(x), Failure::Reported(y)) => same_response(x, y),
        _ => false,
    }
}

/// Nothing of an error is lost in what it says: errors that say the same are the same, but
/// for where their texts are kept.
pub proof fn errors_say_all_of_themselves(
    a: ManagerError,
    b: ManagerError,
    x: ErrorResponse,
    y: ErrorResponse,
)
    ensures
        a@ == b@ <==> same_manager_error(a, b),
        x@ == y@ <==> same_response(x, y),
        Failure::Manager(a)@ == Failure::Manager(b)@ <==> same_manager_error(a, b),
        Failure::Reported(x)@ == Failure::Reported(y)@ <==> same_response(x, y),
        Failure::Manager(a)@ != Failure::Reported(x)@,
{
}

/// A pipeline that is not running is not found; everything else is an internal error.
pub proof fn only_absent_pipelines_are_not_found(e: RunnerError, r: u16)
    requires
        call_ensures(RunnerError::status_code, (&e,), r),
    ensures
        e is PipelineShutdown ==> r == 404,
        !(e is PipelineShutdown) ==> r == 500,
{
}

/// The code of an error is the name of its variant.
pub proof fn errors_are_coded_by_name(e: RunnerError, r: &'static str)
    requires
        call_ensures(RunnerError::error_code, (&e,), r),
    ensures
        e is PipelineShutdown ==> r@ == "PipelineShutdown"@,
        e is HttpForwardError ==> r@ == "HttpForwardError"@,
        e is PortFileParseError ==> r@ == "PortFileParseError"@,
        e is PipelineProvisioningTimeout ==> r@ == "PipelineProvisioningTimeout"@,
        e is PipelineInitializationTimeout ==> r@ == "PipelineInitializationTimeout"@,
        e is PipelineShutdownTimeout ==> r@ == "PipelineShutdownTimeout"@,
        e is PipelineStartupError ==> r@ == "PipelineStartupError"@,
        e is IllegalPipelineStateTransition ==> r@ == "IllegalPipelineStateTransition"@,
{
}

/// The message of an error names the pipeline by its identifier, and hands on the text of
/// the error or the duration of the timeout; only the message about a refused request does
/// not name the pipeline.
pub proof fn messages_name_the_pipeline(
    e: RunnerError,
    id: PipelineId,
    id_text: String,
    millis: u64,
    duration: String,
    r: String,
)
    requires
        call_ensures(RunnerError::to_text, (&e,), r),
        call_ensures(PipelineId::to_text, (id,), id_text),
        call_ensures(duration_text, (millis,), duration),
    ensures
        e matches RunnerError::PipelineShutdown { pipeline_id } ==> (pipeline_id == id ==> r@
            == "Pipeline '"@ + id_text@ + "' is not currently running."@),
        e matches RunnerError::HttpForwardError { pipeline_id, error } ==> (pipeline_id == id ==> r@
            == "Error forwarding HTTP request to pipeline '"@ + id_text@ + "': '"@ + error@ + "'"@),
        e matches RunnerError::PortFileParseError { pipeline_id, error } ==> (pipeline_id == id
            ==> r@ == "Could not parse port for pipeline '"@ + id_text@ + "' from port file: '"@
            + error@ + "'"@),
        e matches RunnerError::PipelineStartupError { pipeline_id, error } ==> (pipeline_id == id
            ==> r@ == "Failed to start pipeline '"@ + id_text@ + "': '"@ + error@ + "'"@),
        e matches RunnerError::PipelineProvisioningTimeout { pipeline_id, timeout_millis } ==> (
        pipeline_id == id && timeout_millis == millis ==> r@ == "Waiting for pipeline '"@ + id_text@
            + "' to start timed out after "@ + duration@),
        e matches RunnerError::PipelineInitializationTimeout { pipeline_id, timeout_millis } ==> (
        pipeline_id == id && timeout_millis == millis ==> r@ == "Waiting for pipeline '"@ + id_text@
            + "' initialization timed out after "@ + duration@),
        e matches RunnerError::PipelineShutdownTimeout { pipeline_id, timeout_millis } ==> (
        pipeline_id == id && timeout_millis == millis ==> r@ == "Waiting for pipeline '"@ + id_text@
            + "' to shutdown timed out after "@ + duration@),
        e matches RunnerError::IllegalPipelineStateTransition { error, .. } ==> r@
            == "Action is not applicable in the current state of the pipeline: "@ + error@,
{
}

proof fn lemma_thousandths(m: nat)
    requires
        m < 1000,
    ensures
        ({
            let rest = thousandths_shown(m);
            &&& rest.len() == 0 ==> m == 0
            &&& rest.len() > 0 ==> rest[0] == '.' && all_digits(rest.skip(1)) && rest.last()
                != '0' && {
                ||| rest.len() == 2 && decimal_value(rest.skip(1)) * 100 == m
                ||| rest.len() == 3 && decimal_value(rest.skip(1)) * 10 == m
                ||| rest.len() == 4 && decimal_value(rest.skip(1)) == m
            }
        }),
{
    let a = digit(m / 100);
    let b = digit(m / 10 % 10);
    let c = digit(m % 10);
    reveal_with_fuel(decimal_value, 4);
    if m == 0 {
    } else if m % 100 == 0 {
        assert(thousandths_shown(m).skip(1) =~= seq![a]);
        assert(seq![a].drop_last() =~= Seq::empty());
    } else if m % 10 == 0 {
        assert(thousandths_shown(m).skip(1) =~= seq![a, b]);
        assert(seq![a, b].drop_last() =~= seq![a]);
        assert(seq![a].drop_last() =~= Seq::empty());
    } else {
        assert(thousandths_shown(m).skip(1) =~= seq![a, b, c]);
        assert(seq![a, b, c].drop_last() =~= seq![a, b]);
        assert(seq![a, b].drop_last() =~= seq![a]);
        assert(seq![a].drop_last() =~= Seq::empty());
    }
}

/// A duration is told to the millisecond: the text ends in the unit, and the decimal number
/// in front of it, without needless zeros, times the unit is the duration.
pub proof fn durations_are_told_to_the_millisecond(millis: u64, r: String)
    requires
        call_ensures(duration_text, (millis,), r),
    ensures
        millis == 0 ==> r@ == seq!['0', 'n', 's'],
        0 < millis < 1000 ==> r@.len() > 2 && r@.skip(r@.len() - 2) == seq!['m', 's'] && all_digits(
            r@.take(r@.len() - 2),
        ) && decimal_value(r@.take(r@.len() - 2)) == millis && r@[0] != '0',
        millis >= 1000 ==> r@.len() > 1 && r@.last() == 's' && exists|n: int|
            {
                let whole = #[trigger] r@.take(n);
                let rest = r@.subrange(n, r@.len() - 1);
                &&& 0 < n < r@.len()
                &&& all_digits(whole) && whole[0] != '0'
                &&& rest.len() == 0 ==> decimal_value(whole) * 1000 == millis
                &&& rest.len() > 0 ==> rest[0] == '.' && all_digits(rest.skip(1)) && rest.last()
                    != '0' && {
                    ||| rest.len() == 2 && decimal_value(whole) * 1000 + decimal_value(rest.skip(1))
                        * 100 == millis
                    ||| rest.len() == 3 && decimal_value(whole) * 1000 + decimal_value(rest.skip(1))
                        * 10 == millis
                    ||| rest.len() == 4 && decimal_value(whole) * 1000 + decimal_value(rest.skip(1))
                        == millis
                }
            },
{
    reveal_strlit("0ns");
    reveal_strlit("ms");
    reveal_strlit("s");
    if millis == 0 {
        assert(r@ =~= seq!['0', 'n', 's']);
    } else if millis < 1000 {
        lemma_decimal_text(millis as nat);
        let t = nat_text(millis as nat);
        assert(r@.take(r@.len() - 2) =~= t);
        assert(r@.skip(r@.len() - 2) =~= seq!['m', 's']);
    } else {
        let w = millis as nat / 1000;
        let m = millis as nat % 1000;
        lemma_decimal_text(w);
        let t = nat_text(w);
        let n = t.len() as int;
        let rest = thousandths_shown(m);
        assert(r@.take(n) =~= t);
        assert(r@.subrange(n, r@.len() - 1) =~= rest);
        lemma_thousandths(m);
        assert(r@.take(n)[0] == t[0]);
    }
}

/// The message of a timeout is put together around the identifier of the pipeline.
pub proof fn timeouts_name_the_pipeline(
    id: PipelineId,
    id_text: String,
    what: &str,
    duration: &str,
    r: String,
)
    requires
        call_ensures(timeout_text, (id, what, duration), r),
        call_ensures(PipelineId::to_text, (id,), id_text),
    ensures
        r@ == "Waiting for pipeline '"@ + id_text@ + what@ + duration@,
{
}

} // verus!
