//! Starting the server.
//!
//! A `Startup` says what to do next, and takes what came of it.

use crate::adapters::error::{ControllerError, ControllerFault};
use crate::pipeline_manager::config::SERVER_PORT_FILE;
use crate::text::{
    all_digits, cat2, decimal_value, lemma_decimal_text, nat_text, port_is_read_back, port_value,
    trimmed, unsigned_text, NumberError,
};
use vstd::prelude::*;

verus! {

/// The server's page when it has no other.
pub fn index_data(resource: Option<Vec<u8>>) -> (r: Vec<u8>)
    ensures
        match resource {
            Some(data) => r == data,
            None => r@ == vstd::utf8::encode_utf8(
                "<html><head><title>DBSP server</title></head></html>"@,
            ),
        },
{
    match resource {
        Some(data) => data,
        None => vstd::slice::slice_to_vec(
            "<html><head><title>DBSP server</title></head></html>".as_bytes(),
        ),
    }
}

/// What the server is doing.
#[derive(Debug, Clone, Copy, PartialEq, Eq, Structural)]
pub enum StartupStage {
    /// Listening to the port that was asked for.
    BindDefault(u16),
    /// Listening to any port, because the one that was asked for is in use.
    BindOther(u16),
    /// Listening to any port.
    BindAny,
    /// Finding out which port it is.
    FindPort,
    /// Initializing the pipeline, up to where messages can be logged.
    Initialize(u16),
    /// Serving what comes in at the port.
    Listen(u16),
    /// Telling which port it is.
    WritePortFile(u16),
    /// Serving until the end.
    Serve,
}

/// What to do next.
#[derive(Debug)]
pub enum StartupAction {
    /// Listen to a port at an address of the machine, where zero stands for any port.
    Bind { address: &'static str, port: u16 },
    /// Ask the listener for its port.
    LocalPort,
    /// Start to initialize the pipeline, and wait for its log.
    StartInitialization,
    /// Serve what comes in at the listener.
    Listen,
    /// Write a file.
    WriteFile { path: &'static str, contents: String },
    /// Wait for the server to end.
    Serve,
}

/// What came of it.
#[derive(Debug)]
pub enum StartupAnswer {
    /// It was done.
    Done,
    /// The port.
    Port(u16),
    /// The text of an error.
    Failed(String),
}

/// How the start goes on.
#[derive(Debug)]
pub enum StartupProgress {
    Next(StartupStage),
    /// The server has ended.
    Ended,
    Failed(ControllerError),
}

/// How the start goes on, its texts as characters.
pub enum StartupStep {
    Next(StartupStage),
    Ended,
    Failed(ControllerFault),
}

/// What came of an action, its text as characters.
pub enum AnswerView {
    Done,
    Port(u16),
    Failed(Seq<char>),
}

impl View for StartupAnswer {
    type V = AnswerView;

    open spec fn view(&self) -> AnswerView {
        match *self {
            StartupAnswer::Done => AnswerView::Done,
            StartupAnswer::Port(port) => AnswerView::Port(port),
            StartupAnswer::Failed(error) => AnswerView::Failed(error@),
        }
    }
}

/// What was being done when a stage failed.
pub open spec fn context_of(stage: StartupStage) -> Seq<char> {
    match stage {
        StartupStage::BindDefault(port) | StartupStage::BindOther(port) => "binding to TCP port "@
            + nat_text(port as nat),
        StartupStage::BindAny => "binding to TCP port"@,
        StartupStage::FindPort => "retrieving local socket address of the TCP listener"@,
        StartupStage::Listen(_) => "binding server to the listener"@,
        StartupStage::WritePortFile(_) => "writing server port file"@,
        StartupStage::Initialize(_) => "initializing the pipeline"@,
        StartupStage::Serve => "in the HTTP server"@,
    }
}

/// How the start goes on after an answer.  A port that cannot be had is no error:
/// any other will do.  An answer to something else leaves the start where it is.
pub open spec fn startup_step(stage: StartupStage, answer: AnswerView) -> StartupStep {
    match (stage, answer) {
        (StartupStage::BindDefault(port), AnswerView::Failed(_)) => StartupStep::Next(
            StartupStage::BindOther(port),
        ),
        (StartupStage::Initialize(port), AnswerView::Failed(_)) => StartupStep::Next(
            StartupStage::Listen(port),
        ),
        (_, AnswerView::Failed(error)) => StartupStep::Failed(
            ControllerFault::Io(context_of(stage), error),
        ),
        (StartupStage::BindDefault(_), AnswerView::Done)
        | (StartupStage::BindOther(_), AnswerView::Done)
        | (StartupStage::BindAny, AnswerView::Done) => StartupStep::Next(StartupStage::FindPort),
        (StartupStage::FindPort, AnswerView::Port(port)) => StartupStep::Next(
            StartupStage::Initialize(port),
        ),
        (StartupStage::Initialize(port), AnswerView::Done) => StartupStep::Next(
            StartupStage::Listen(port),
        ),
        (StartupStage::Listen(port), AnswerView::Done) => StartupStep::Next(
            StartupStage::WritePortFile(port),
        ),
        (StartupStage::WritePortFile(_), AnswerView::Done) => StartupStep::Next(
            StartupStage::Serve,
        ),
        (StartupStage::Serve, AnswerView::Done) => StartupStep::Ended,
        (_, _) => StartupStep::Next(stage),
    }
}

/// The line that the server writes to its port file.
pub open spec fn port_line(port: u16) -> Seq<char> {
    nat_text(port as nat) + "\n"@
}

impl StartupStage {
    /// Starts the server, at the given port if it can be had.
    pub fn run_server(default_port: Option<u16>) -> (r: Self)
        ensures
            r == match default_port {
                Some(port) => StartupStage::BindDefault(port),
                None => StartupStage::BindAny,
            },
    {
        match default_port {
            Some(port) => StartupStage::BindDefault(port),
            None => StartupStage::BindAny,
        }
    }

    /// What to do next.
    pub fn action(self) -> (r: StartupAction)
        ensures
            match self {
                StartupStage::BindDefault(port) => r matches StartupAction::Bind {
                    address,
                    port: p,
                } && address@ == "127.0.0.1"@ && p == port,
                StartupStage::BindOther(_) | StartupStage::BindAny => r matches
                    StartupAction::Bind { address, port } && address@ == "127.0.0.1"@ && port == 0,
                StartupStage::FindPort => r is LocalPort,
                StartupStage::Initialize(_) => r is StartInitialization,
                StartupStage::Listen(_) => r is Listen,
                StartupStage::WritePortFile(port) => r matches StartupAction::WriteFile {
                    path,
                    contents,
                } && path@ == "port"@ && contents@ == port_line(port),
                StartupStage::Serve => r is Serve,
            },
    {
        match self {
            StartupStage::BindDefault(port) => StartupAction::Bind { address: "127.0.0.1", port },
            StartupStage::BindOther(_) | StartupStage::BindAny => {
                StartupAction::Bind { address: "127.0.0.1", port: 0 }
            },
            StartupStage::FindPort => StartupAction::LocalPort,
            StartupStage::Initialize(_) => StartupAction::StartInitialization,
            StartupStage::Listen(_) => StartupAction::Listen,
            StartupStage::WritePortFile(port) => StartupAction::WriteFile {
                path: SERVER_PORT_FILE,
                contents: cat2(unsigned_text(port as u128).as_str(), "\n"),
            },
            StartupStage::Serve => StartupAction::Serve,
        }
    }

    /// What was being done when the stage failed.
    fn context(self) -> (r: String)
        ensures
            r@ == context_of(self),
    {
        match self {
            StartupStage::BindDefault(port) | StartupStage::BindOther(port) => cat2(
                "binding to TCP port ",
                unsigned_text(port as u128).as_str(),
            ),
            StartupStage::BindAny => "binding to TCP port".to_owned(),
            StartupStage::FindPort => {
                "retrieving local socket address of the TCP listener".to_owned()
            },
            StartupStage::Listen(_) => "binding server to the listener".to_owned(),
            StartupStage::WritePortFile(_) => "writing server port file".to_owned(),
            StartupStage::Initialize(_) => "initializing the pipeline".to_owned(),
            StartupStage::Serve => "in the HTTP server".to_owned(),
        }
    }

    /// Takes what came of the action.
    pub fn reply(self, answer: StartupAnswer) -> (r: StartupProgress)
        ensures
            match startup_step(self, answer@) {
                StartupStep::Next(stage) => r == StartupProgress::Next(stage),
                StartupStep::Ended => r is Ended,
                StartupStep::Failed(fault) => r matches StartupProgress::Failed(e) && e@ == fault,
            },
    {
        match (self, answer) {
            (StartupStage::BindDefault(port), StartupAnswer::Failed(_)) => StartupProgress::Next(
                StartupStage::BindOther(port),
            ),
            (StartupStage::Initialize(port), StartupAnswer::Failed(_)) => StartupProgress::Next(
                StartupStage::Listen(port),
            ),
            (_, StartupAnswer::Failed(error)) => StartupProgress::Failed(
                ControllerError::Io { context: self.context(), error },
            ),
            (StartupStage::BindDefault(_), StartupAnswer::Done)
            | (StartupStage::BindOther(_), StartupAnswer::Done)
            | (StartupStage::BindAny, StartupAnswer::Done) => StartupProgress::Next(
                StartupStage::FindPort,
            ),
            (StartupStage::FindPort, StartupAnswer::Port(port)) => StartupProgress::Next(
                StartupStage::Initialize(port),
            ),
            (StartupStage::Initialize(port), StartupAnswer::Done) => StartupProgress::Next(
                StartupStage::Listen(port),
            ),
            (StartupStage::Listen(port), StartupAnswer::Done) => StartupProgress::Next(
                StartupStage::WritePortFile(port),
            ),
            (StartupStage::WritePortFile(_), StartupAnswer::Done) => StartupProgress::Next(
                StartupStage::Serve,
            ),
            (StartupStage::Serve, StartupAnswer::Done) => StartupProgress::Ended,
            (_, _) => StartupProgress::Next(self),
        }
    }
}

/// The manager reads from the port file the port that the server wrote to it.
pub proof fn manager_reads_the_port(port: u16)
    ensures
        port_value(trimmed(port_line(port))) == Ok::<nat, NumberError>(port as nat),
{
    reveal_strlit("\n");
    assert(port_line(port) =~= nat_text(port as nat).push('\n'));
    port_is_read_back(port);
}

/// The port that is told is the one that the listener reported, and it is told only
/// once the server listens.
pub proof fn told_port_is_the_found_port(stage: StartupStage, answer: AnswerView, port: u16)
    ensures
        startup_step(stage, answer) == StartupStep::Next(StartupStage::WritePortFile(port))
            ==> stage == StartupStage::WritePortFile(port) || (stage == StartupStage::Listen(port)
            && answer is Done),
        startup_step(stage, answer) == StartupStep::Next(StartupStage::Listen(port)) ==> stage
            == StartupStage::Listen(port) || stage == StartupStage::Initialize(port),
        startup_step(stage, answer) == StartupStep::Next(StartupStage::Initialize(port)) ==> stage
            == StartupStage::Initialize(port) || (stage == StartupStage::FindPort && answer
            == AnswerView::Port(port)),
{
}

/// A port in use never keeps the server from starting: only when no port at all
/// can be had does it fail.
pub proof fn busy_ports_are_no_error(port: u16, error: Seq<char>)
    ensures
        startup_step(StartupStage::BindDefault(port), AnswerView::Failed(error))
            == StartupStep::Next(StartupStage::BindOther(port)),
        startup_step(StartupStage::BindOther(port), AnswerView::Done) == StartupStep::Next(
            StartupStage::FindPort,
        ),
{
}

/// What the world answers to each stage: the text of an error, or nothing.
pub struct Answers {
    pub bind_default: Option<Seq<char>>,
    pub bind_other: Option<Seq<char>>,
    pub port: Result<u16, Seq<char>>,
    pub initialize: Option<Seq<char>>,
    pub listen: Option<Seq<char>>,
    pub write: Option<Seq<char>>,
    pub serve: Option<Seq<char>>,
}

/// An error, or the tidings that it was done.
pub open spec fn told(error: Option<Seq<char>>) -> AnswerView {
    match error {
        Some(e) => AnswerView::Failed(e),
        None => AnswerView::Done,
    }
}

impl Answers {
    /// The answer to a stage.
    pub open spec fn at(self, stage: StartupStage) -> AnswerView {
        match stage {
            StartupStage::BindDefault(_) => told(self.bind_default),
            StartupStage::BindOther(_) | StartupStage::BindAny => told(self.bind_other),
            StartupStage::FindPort => match self.port {
                Ok(port) => AnswerView::Port(port),
                Err(e) => AnswerView::Failed(e),
            },
            StartupStage::Initialize(_) => told(self.initialize),
            StartupStage::Listen(_) => told(self.listen),
            StartupStage::WritePortFile(_) => told(self.write),
            StartupStage::Serve => told(self.serve),
        }
    }
}

/// How many stages can still come.
pub open spec fn stages_left(stage: StartupStage) -> nat {
    match stage {
        StartupStage::BindDefault(_) => 7,
        StartupStage::BindOther(_) | StartupStage::BindAny => 6,
        StartupStage::FindPort => 5,
        StartupStage::Initialize(_) => 4,
        StartupStage::Listen(_) => 3,
        StartupStage::WritePortFile(_) => 2,
        StartupStage::Serve => 1,
    }
}

/// Why the server fails in the end, where it does.
pub open spec fn startup_run(stage: StartupStage, answers: Answers) -> Option<ControllerFault>
    decreases stages_left(stage),
{
    match startup_step(stage, answers.at(stage)) {
        StartupStep::Next(next) => if stages_left(next) < stages_left(stage) {
            startup_run(next, answers)
        } else {
            None
        },
        StartupStep::Ended => None,
        StartupStep::Failed(fault) => Some(fault),
    }
}

/// How a server fails that has a listener.
pub open spec fn listening_fault(answers: Answers) -> Option<ControllerFault> {
    if let Err(e) = answers.port {
        Some(ControllerFault::Io(context_of(StartupStage::FindPort), e))
    } else if let Some(e) = answers.listen {
        Some(ControllerFault::Io("binding server to the listener"@, e))
    } else if let Some(e) = answers.write {
        Some(ControllerFault::Io("writing server port file"@, e))
    } else if let Some(e) = answers.serve {
        Some(ControllerFault::Io("in the HTTP server"@, e))
    } else {
        None
    }
}

/// The server runs to its end exactly when some port can be had and told, and
/// nothing fails behind that; otherwise the first failure gives the error.  A
/// pipeline that fails to initialize does not keep the server from running.
pub proof fn startup_fails_as_described(default_port: Option<u16>, answers: Answers)
    ensures
        startup_run(
            match default_port {
                Some(port) => StartupStage::BindDefault(port),
                None => StartupStage::BindAny,
            },
            answers,
        ) == match default_port {
            Some(port) => if answers.bind_default is Some && answers.bind_other is Some {
                Some(
                    ControllerFault::Io(
                        "binding to TCP port "@ + nat_text(port as nat),
                        answers.bind_other->0,
                    ),
                )
            } else {
                listening_fault(answers)
            },
            None => if answers.bind_other is Some {
                Some(ControllerFault::Io("binding to TCP port"@, answers.bind_other->0))
            } else {
                listening_fault(answers)
            },
        },
{
    reveal_with_fuel(startup_run, 8);
}

/// The start has failed with an input or output error.
pub open spec fn fails_with(p: StartupProgress, context: Seq<char>, error: String) -> bool {
    p matches StartupProgress::Failed(ControllerError::Io { context: c, error: e }) && c@ == context
        && e@ == error@
}

/// The server listens to a port of this machine, where zero stands for any.
pub open spec fn binds(stage: StartupStage, port: u16) -> bool {
    forall|a: StartupAction| #[trigger]
        call_ensures(StartupStage::action, (stage,), a) ==> (a matches StartupAction::Bind {
            address,
            port: p,
        } && address@ == "127.0.0.1"@ && p == port)
}

/// The server asks for the port that it listens to, and goes on to initialize the pipeline.
pub open spec fn finds_port(stage: StartupStage) -> bool {
    &&& forall|a: StartupAction| #[trigger]
        call_ensures(StartupStage::action, (stage,), a) ==> a is LocalPort
    &&& forall|p: StartupProgress, port: u16| #[trigger]
        call_ensures(StartupStage::reply, (stage, StartupAnswer::Port(port)), p) ==> (p matches
            StartupProgress::Next(next) && initializes(next, port))
    &&& forall|p: StartupProgress, e: String| #[trigger]
        call_ensures(StartupStage::reply, (stage, StartupAnswer::Failed(e)), p) ==> fails_with(
            p,
            "retrieving local socket address of the TCP listener"@,
            e,
        )
}

/// The server starts to initialize the pipeline, and then listens, whatever comes of it.
pub open spec fn initializes(stage: StartupStage, port: u16) -> bool {
    &&& forall|a: StartupAction| #[trigger]
        call_ensures(StartupStage::action, (stage,), a) ==> a is StartInitialization
    &&& forall|p: StartupProgress| #[trigger]
        call_ensures(StartupStage::reply, (stage, StartupAnswer::Done), p) ==> (p matches
            StartupProgress::Next(next) && listens(next, port))
    &&& forall|p: StartupProgress, e: String| #[trigger]
        call_ensures(StartupStage::reply, (stage, StartupAnswer::Failed(e)), p) ==> (p matches
            StartupProgress::Next(next) && listens(next, port))
}

/// The server serves its listener, and then tells its port.
pub open spec fn listens(stage: StartupStage, port: u16) -> bool {
    &&& forall|a: StartupAction| #[trigger]
        call_ensures(StartupStage::action, (stage,), a) ==> a is Listen
    &&& forall|p: StartupProgress| #[trigger]
        call_ensures(StartupStage::reply, (stage, StartupAnswer::Done), p) ==> (p matches
            StartupProgress::Next(next) && tells(next, port))
    &&& forall|p: StartupProgress, e: String| #[trigger]
        call_ensures(StartupStage::reply, (stage, StartupAnswer::Failed(e)), p) ==> fails_with(
            p,
            "binding server to the listener"@,
            e,
        )
}

/// The server writes its port in decimal, and a line end, to the file `port`, and then
/// serves to its end.
pub open spec fn tells(stage: StartupStage, port: u16) -> bool {
    &&& forall|a: StartupAction| #[trigger]
        call_ensures(StartupStage::action, (stage,), a) ==> (a matches StartupAction::WriteFile {
            path,
            contents,
        } && path@ == "port"@ && contents@.len() > 1 && contents@.last() == '\n' && all_digits(
            contents@.drop_last(),
        ) && decimal_value(contents@.drop_last()) == port)
    &&& forall|p: StartupProgress| #[trigger]
        call_ensures(StartupStage::reply, (stage, StartupAnswer::Done), p) ==> (p matches
            StartupProgress::Next(next) && serves(next))
    &&& forall|p: StartupProgress, e: String| #[trigger]
        call_ensures(StartupStage::reply, (stage, StartupAnswer::Failed(e)), p) ==> fails_with(
            p,
            "writing server port file"@,
            e,
        )
}

/// The server serves to its end.
pub open spec fn serves(stage: StartupStage) -> bool {
    &&& forall|a: StartupAction| #[trigger]
        call_ensures(StartupStage::action, (stage,), a) ==> a is Serve
    &&& forall|p: StartupProgress| #[trigger]
        call_ensures(StartupStage::reply, (stage, StartupAnswer::Done), p) ==> p is Ended
    &&& forall|p: StartupProgress, e: String| #[trigger]
        call_ensures(StartupStage::reply, (stage, StartupAnswer::Failed(e)), p) ==> fails_with(
            p,
            "in the HTTP server"@,
            e,
        )
}

/// Once bound, the server finds out its port.
pub open spec fn goes_on_once_bound(stage: StartupStage) -> bool {
    forall|p: StartupProgress| #[trigger]
        call_ensures(StartupStage::reply, (stage, StartupAnswer::Done), p) ==> (p matches
            StartupProgress::Next(next) && finds_port(next))
}

proof fn lemma_goes_on(stage: StartupStage, port: u16)
    requires
        stage is BindDefault || stage is BindOther || stage is BindAny,
    ensures
        goes_on_once_bound(stage),
{
    reveal_strlit("\n");
    assert forall|port: u16| #[trigger] tells(StartupStage::WritePortFile(port), port) by {
        lemma_decimal_text(port as nat);
        assert(port_line(port).drop_last() =~= nat_text(port as nat));
        assert(serves(StartupStage::Serve));
    }
    assert forall|port: u16| #[trigger] listens(StartupStage::Listen(port), port) by {
        assert(tells(StartupStage::WritePortFile(port), port));
    }
    assert forall|port: u16| #[trigger] initializes(StartupStage::Initialize(port), port) by {
        assert(listens(StartupStage::Listen(port), port));
    }
    assert(finds_port(StartupStage::FindPort)) by {
        assert forall|p: StartupProgress, port: u16| #[trigger]
            call_ensures(
                StartupStage::reply,
                (StartupStage::FindPort, StartupAnswer::Port(port)),
                p,
            ) implies (p matches StartupProgress::Next(next) && initializes(next, port)) by {
            assert(initializes(StartupStage::Initialize(port), port));
        }
    }
}

/// A server without a port of its own listens to any port of this machine.  Then it finds out
/// which one, starts to initialize its pipeline, serves the listener, tells the port, and
/// serves to its end; only the initialization may fail without failing the server.
pub proof fn servers_tell_the_port_they_serve(r: StartupStage)
    requires
        call_ensures(StartupStage::run_server, (None,), r),
    ensures
        binds(r, 0),
        goes_on_once_bound(r),
        forall|p: StartupProgress, e: String| #[trigger]
            call_ensures(StartupStage::reply, (r, StartupAnswer::Failed(e)), p) ==> fails_with(
                p,
                "binding to TCP port"@,
                e,
            ),
{
    lemma_goes_on(r, 0);
}

/// A server with a port of its own listens to that one, and to any other where it cannot be
/// had.  Where none can be had, the error names the port that was asked for.
pub proof fn servers_prefer_their_port(port: u16, digits: String, r: StartupStage)
    requires
        call_ensures(StartupStage::run_server, (Some(port),), r),
        call_ensures(unsigned_text, (port as u128,), digits),
    ensures
        binds(r, port),
        goes_on_once_bound(r),
        forall|p: StartupProgress, e: String| #[trigger]
            call_ensures(StartupStage::reply, (r, StartupAnswer::Failed(e)), p) ==> (p matches
                StartupProgress::Next(next) && binds(next, 0) && goes_on_once_bound(next)
                && forall|q: StartupProgress, f: String| #[trigger]
                call_ensures(StartupStage::reply, (next, StartupAnswer::Failed(f)), q)
                    ==> fails_with(q, "binding to TCP port "@ + digits@, f)),
{
    lemma_goes_on(r, port);
    lemma_goes_on(StartupStage::BindOther(port), port);
}

/// The page of a server is the resource it has, and a bare one where it has none.
pub proof fn pages_come_from_resources(resource: Option<Vec<u8>>, r: Vec<u8>)
    requires
        call_ensures(index_data, (resource,), r),
    ensures
        resource matches Some(data) ==> r@ == data@,
        resource is None ==> r@ == vstd::utf8::encode_utf8(
            "<html><head><title>DBSP server</title></head></html>"@,
        ),
{
}

/// Only the answer to its action moves the start: any other one leaves it where it is.
pub proof fn only_answers_move_the_start(
    stage: StartupStage,
    answer: StartupAnswer,
    p: StartupProgress,
)
    requires
        call_ensures(StartupStage::reply, (stage, answer), p),
        answer is Port && !(stage is FindPort) || answer is Done && stage is FindPort,
    ensures
        p == StartupProgress::Next(stage),
{
}

} // verus!
