//! Initializing the pipeline of a server.
//!
//! A `Bootstrap` says what to do next, takes what came of it, and records in the
//! state of the server how far the pipeline is.

use crate::adapters::error::{same_controller_error, ControllerError, ControllerFault};
use crate::adapters::state::{InitializationState, ServerState};
use crate::text::{cat3, cat5};
use vstd::prelude::*;
use vstd::utf8::{decode_utf8, valid_utf8};

verus! {

/// How the standard library describes what keeps bytes from being UTF-8.
pub uninterp spec fn utf8_fault(bytes: Seq<u8>) -> Seq<char>;

/// Calls `String::from_utf8`, which gives the text that the bytes encode in UTF-8,
/// and an error where they do not.
#[verifier::external_body]
fn text_of_bytes(bytes: Vec<u8>) -> (r: Result<String, String>)
    ensures
        match r {
            Ok(text) => valid_utf8(bytes@) && text@ == decode_utf8(bytes@),
            Err(e) => !valid_utf8(bytes@) && e@ == utf8_fault(bytes@),
        },
{
    match String::from_utf8(bytes) {
        Ok(text) => Ok(text),
        Err(e) => Err(e.to_string()),
    }
}

/// What the initialization is doing.
#[derive(Debug)]
pub enum BootstrapStage {
    /// Reading the configuration file.
    ReadConfig,
    /// Parsing the text of the configuration.
    ParseConfig(String),
    /// Setting up the log of the pipeline with the given label.  The number of workers
    /// is kept for the circuit, here and below.
    InitLogger(String, u16),
    /// Reading the metadata file.
    ReadMetadata(String, u16),
    /// Building the circuit and its controller.
    CreateController(u16),
    /// Setting up the metrics.
    CreateMetrics,
}

/// What the initialization is doing, its texts as characters.
pub enum StageView {
    ReadConfig,
    ParseConfig(Seq<char>),
    InitLogger(Seq<char>, u16),
    ReadMetadata(Seq<char>, u16),
    CreateController(u16),
    CreateMetrics,
}

impl View for BootstrapStage {
    type V = StageView;

    open spec fn view(&self) -> StageView {
        match *self {
            BootstrapStage::ReadConfig => StageView::ReadConfig,
            BootstrapStage::ParseConfig(text) => StageView::ParseConfig(text@),
            BootstrapStage::InitLogger(label, workers) => StageView::InitLogger(label@, workers),
            BootstrapStage::ReadMetadata(path, workers) => StageView::ReadMetadata(path@, workers),
            BootstrapStage::CreateController(workers) => StageView::CreateController(workers),
            BootstrapStage::CreateMetrics => StageView::CreateMetrics,
        }
    }
}

/// What to do next.
#[derive(Debug)]
pub enum BootstrapAction<'a> {
    /// Read a file.
    ReadFile(&'a str),
    /// Parse the text of a configuration.
    ParseConfig(&'a str),
    /// Set up the log with a label, and then tell that messages can be logged.
    InitLogger(&'a str),
    /// Build the circuit, with so many workers, and its controller.
    CreateController { workers: u16 },
    /// Set up the metrics.
    CreateMetrics,
}

/// What came of it.
#[derive(Debug)]
pub enum BootstrapAnswer {
    /// The contents of a file.
    File(Result<Vec<u8>, String>),
    /// The name of the pipeline in its configuration, where it has one, and the number
    /// of workers.
    Config(Result<(Option<String>, u16), String>),
    /// It was done.
    Done,
    /// There is a controller, or not.
    Controller(Result<(), ControllerError>),
    /// There are metrics, or not.
    Metrics(Result<(), String>),
}

/// What came of it, its texts as characters.
pub enum AnswerView {
    File(Result<Seq<u8>, Seq<char>>),
    Config(Result<(Seq<char>, u16), Seq<char>>),
    Done,
    Controller(Result<(), ControllerFault>),
    Metrics(Result<(), Seq<char>>),
}

impl View for BootstrapAnswer {
    type V = AnswerView;

    open spec fn view(&self) -> AnswerView {
        match *self {
            BootstrapAnswer::File(Ok(bytes)) => AnswerView::File(Ok(bytes@)),
            BootstrapAnswer::File(Err(e)) => AnswerView::File(Err(e@)),
            BootstrapAnswer::Config(Ok((Some(name), workers))) => AnswerView::Config(
                Ok((name@, workers)),
            ),
            BootstrapAnswer::Config(Ok((None, workers))) => AnswerView::Config(
                Ok((Seq::empty(), workers)),
            ),
            BootstrapAnswer::Config(Err(e)) => AnswerView::Config(Err(e@)),
            BootstrapAnswer::Done => AnswerView::Done,
            BootstrapAnswer::Controller(Ok(_)) => AnswerView::Controller(Ok(())),
            BootstrapAnswer::Controller(Err(e)) => AnswerView::Controller(Err(e@)),
            BootstrapAnswer::Metrics(Ok(_)) => AnswerView::Metrics(Ok(())),
            BootstrapAnswer::Metrics(Err(e)) => AnswerView::Metrics(Err(e@)),
        }
    }
}

/// How the initialization goes on, its texts as characters.
pub enum BootstrapStep {
    Next(StageView),
    Complete,
    Failed(ControllerFault),
}

/// The message about a file that is not in UTF-8.
pub open spec fn not_utf8(what: Seq<char>, path: Seq<char>, error: Seq<char>) -> Seq<char> {
    what + path + "' ("@ + error + ")"@
}

/// How the reading of the configuration goes on.
pub open spec fn config_read(
    config_file: Seq<char>,
    contents: Result<Seq<u8>, Seq<char>>,
) -> BootstrapStep {
    match contents {
        Err(e) => BootstrapStep::Failed(
            ControllerFault::Io("reading configuration file '"@ + config_file + "'"@, e),
        ),
        Ok(bytes) => if valid_utf8(bytes) {
            BootstrapStep::Next(StageView::ParseConfig(decode_utf8(bytes)))
        } else {
            BootstrapStep::Failed(
                ControllerFault::ConfigParse(
                    not_utf8(
                        "invalid UTF8 string in configuration file '"@,
                        config_file,
                        utf8_fault(bytes),
                    ),
                ),
            )
        },
    }
}

/// How the reading of the metadata goes on.
pub open spec fn metadata_read(
    metadata_file: Seq<char>,
    workers: u16,
    contents: Result<Seq<u8>, Seq<char>>,
) -> BootstrapStep {
    match contents {
        Err(e) => BootstrapStep::Failed(
            ControllerFault::Io("reading metadata file '"@ + metadata_file + "'"@, e),
        ),
        Ok(bytes) => if valid_utf8(bytes) {
            BootstrapStep::Next(StageView::CreateController(workers))
        } else {
            BootstrapStep::Failed(
                ControllerFault::ConfigParse(
                    not_utf8(
                        "invalid UTF8 string in the metadata file '"@,
                        metadata_file,
                        utf8_fault(bytes),
                    ),
                ),
            )
        },
    }
}

/// How the initialization goes on after an answer; an answer to something else
/// leaves it where it is.
pub open spec fn bootstrap_step(
    stage: StageView,
    config_file: Seq<char>,
    metadata_file: Option<Seq<char>>,
    answer: AnswerView,
) -> BootstrapStep {
    match (stage, answer) {
        (StageView::ReadConfig, AnswerView::File(contents)) => config_read(config_file, contents),
        (StageView::ParseConfig(_), AnswerView::Config(Ok((name, workers)))) => BootstrapStep::Next(
            StageView::InitLogger("["@ + name + "]"@, workers),
        ),
        (StageView::ParseConfig(_), AnswerView::Config(Err(e))) => BootstrapStep::Failed(
            ControllerFault::ConfigParse(e),
        ),
        (StageView::InitLogger(_, workers), AnswerView::Done) => match metadata_file {
            Some(path) => BootstrapStep::Next(StageView::ReadMetadata(path, workers)),
            None => BootstrapStep::Next(StageView::CreateController(workers)),
        },
        (StageView::ReadMetadata(path, workers), AnswerView::File(contents)) => metadata_read(
            path,
            workers,
            contents,
        ),
        (StageView::CreateController(_), AnswerView::Controller(Ok(_))) => BootstrapStep::Next(
            StageView::CreateMetrics,
        ),
        (StageView::CreateController(_), AnswerView::Controller(Err(e))) => BootstrapStep::Failed(e),
        (StageView::CreateMetrics, AnswerView::Metrics(Ok(_))) => BootstrapStep::Complete,
        (StageView::CreateMetrics, AnswerView::Metrics(Err(e))) => BootstrapStep::Failed(
            ControllerFault::Prometheus(e),
        ),
        (_, _) => BootstrapStep::Next(stage),
    }
}

/// The metadata that the server has after an answer.
pub open spec fn metadata_after(
    stage: StageView,
    metadata_file: Option<Seq<char>>,
    answer: AnswerView,
    before: Seq<char>,
) -> Seq<char> {
    match (stage, answer) {
        (StageView::InitLogger(_, _), AnswerView::Done) => if metadata_file is None {
            Seq::empty()
        } else {
            before
        },
        (StageView::ReadMetadata(_, _), AnswerView::File(Ok(bytes))) => if valid_utf8(bytes) {
            decode_utf8(bytes)
        } else {
            before
        },
        (_, _) => before,
    }
}

/// Messages cannot be logged yet: an error at such a stage is printed, and those
/// who wait for the log are told to go on.
pub open spec fn is_before_log(stage: StageView) -> bool {
    stage is ReadConfig || stage is ParseConfig
}

/// An initialization on its way.
#[derive(Debug)]
pub struct Bootstrap {
    pub config_file: String,
    pub metadata_file: Option<String>,
    pub stage: BootstrapStage,
}

/// How the initialization goes on.
#[derive(Debug)]
pub enum BootstrapProgress {
    Next(Bootstrap),
    /// The pipeline is initialized.
    Complete,
    /// The pipeline failed to initialize.
    Failed {
        error: ControllerError,
        /// The log has not been set up.
        before_log: bool,
    },
}

/// The text of a configuration file, from its contents.
pub fn parse_config(config_file: &str, contents: Result<Vec<u8>, String>) -> (r: Result<
    String,
    ControllerError,
>)
    ensures
        match config_read(
            config_file@,
            match contents {
                Ok(bytes) => Ok(bytes@),
                Err(e) => Err(e@),
            },
        ) {
            BootstrapStep::Next(StageView::ParseConfig(text)) => r matches Ok(t) && t@ == text,
            BootstrapStep::Failed(fault) => r matches Err(e) && e@ == fault,
            _ => false,
        },
{
    match contents {
        Err(error) => Err(
            ControllerError::Io {
                context: cat3("reading configuration file '", config_file, "'"),
                error,
            },
        ),
        Ok(bytes) => match text_of_bytes(bytes) {
            Ok(text) => Ok(text),
            Err(e) => Err(
                undecodable("invalid UTF8 string in configuration file '", config_file, e.as_str()),
            ),
        },
    }
}

/// The error about a file that is not in UTF-8.
pub fn undecodable(what: &str, path: &str, error: &str) -> (r: ControllerError)
    ensures
        r@ == ControllerFault::ConfigParse(not_utf8(what@, path@, error@)),
{
    ControllerError::ConfigParse { error: cat5(what, path, "' (", error, ")") }
}

/// The label of the log of a pipeline: its name in brackets.
pub fn pipeline_label(name: Option<String>) -> (r: String)
    ensures
        r@ == "["@ + (match name {
            Some(n) => n@,
            None => Seq::empty(),
        }) + "]"@,
{
    match name {
        Some(n) => cat3("[", n.as_str(), "]"),
        None => cat3("[", String::new().as_str(), "]"),
    }
}

impl Bootstrap {
    /// The path of the metadata file.
    pub open spec fn metadata_path(&self) -> Option<Seq<char>> {
        match self.metadata_file {
            Some(path) => Some(path@),
            None => None,
        }
    }

    /// Starts the initialization.
    pub fn do_bootstrap(config_file: String, metadata_file: Option<String>) -> (r: Self)
        ensures
            r.config_file == config_file,
            r.metadata_file == metadata_file,
            r.stage@ == StageView::ReadConfig,
    {
        Bootstrap { config_file, metadata_file, stage: BootstrapStage::ReadConfig }
    }

    /// What to do next.
    pub fn action(&self) -> (r: BootstrapAction<'_>)
        ensures
            match self.stage@ {
                StageView::ReadConfig => r matches BootstrapAction::ReadFile(path) && path@
                    == self.config_file@,
                StageView::ParseConfig(text) => r matches BootstrapAction::ParseConfig(t) && t@
                    == text,
                StageView::InitLogger(label, _) => r matches BootstrapAction::InitLogger(l) && l@
                    == label,
                StageView::ReadMetadata(path, _) => r matches BootstrapAction::ReadFile(p) && p@
                    == path,
                StageView::CreateController(configured) => r matches
                    BootstrapAction::CreateController { workers } && workers == configured,
                StageView::CreateMetrics => r is CreateMetrics,
            },
    {
        match &self.stage {
            BootstrapStage::ReadConfig => BootstrapAction::ReadFile(self.config_file.as_str()),
            BootstrapStage::ParseConfig(text) => BootstrapAction::ParseConfig(text.as_str()),
            BootstrapStage::InitLogger(label, _) => BootstrapAction::InitLogger(label.as_str()),
            BootstrapStage::ReadMetadata(path, _) => BootstrapAction::ReadFile(path.as_str()),
            BootstrapStage::CreateController(workers) => {
                BootstrapAction::CreateController { workers: *workers }
            },
            BootstrapStage::CreateMetrics => BootstrapAction::CreateMetrics,
        }
    }

    /// Takes what came of the action, and records it in the state of the server.
    pub fn bootstrap(self, answer: BootstrapAnswer, state: &mut ServerState) -> (r:
        BootstrapProgress)
        ensures
            final(state).can_terminate == old(state).can_terminate,
            final(state).metadata@ == metadata_after(
                self.stage@,
                self.metadata_path(),
                answer@,
                old(state).metadata@,
            ),
            match bootstrap_step(self.stage@, self.config_file@, self.metadata_path(), answer@) {
                BootstrapStep::Next(stage) => {
                    &&& r matches BootstrapProgress::Next(next)
                    &&& next.stage@ == stage
                    &&& next.config_file == self.config_file
                    &&& next.metadata_file == self.metadata_file
                    &&& final(state).initialization_state == old(state).initialization_state
                    &&& final(state).has_controller == old(state).has_controller
                    &&& final(state).has_metrics == old(state).has_metrics
                },
                BootstrapStep::Complete => {
                    &&& r is Complete
                    &&& final(state).initialization_state is InitializationComplete
                    &&& final(state).has_controller
                    &&& final(state).has_metrics
                },
                BootstrapStep::Failed(fault) => {
                    &&& r matches BootstrapProgress::Failed { error, before_log }
                    &&& error@ == fault
                    &&& before_log == is_before_log(self.stage@)
                    &&& final(state).initialization_state
                        matches InitializationState::InitializationError(e)
                    &&& e@ == fault
                    &&& final(state).has_controller == old(state).has_controller
                    &&& final(state).has_metrics == old(state).has_metrics
                },
            },
    {
        let config_file = self.config_file;
        let metadata_file = self.metadata_file;
        let before_log = match &self.stage {
            BootstrapStage::ReadConfig => true,
            BootstrapStage::ParseConfig(_) => true,
            _ => false,
        };
        let outcome: Result<BootstrapStage, ControllerError> = match (self.stage, answer) {
            (BootstrapStage::ReadConfig, BootstrapAnswer::File(contents)) => {
                match parse_config(config_file.as_str(), contents) {
                    Ok(text) => Ok(BootstrapStage::ParseConfig(text)),
                    Err(e) => Err(e),
                }
            },
            (BootstrapStage::ParseConfig(_), BootstrapAnswer::Config(Ok((name, workers)))) => Ok(
                BootstrapStage::InitLogger(pipeline_label(name), workers),
            ),
            (BootstrapStage::ParseConfig(_), BootstrapAnswer::Config(Err(error))) => Err(
                ControllerError::ConfigParse { error },
            ),
            (BootstrapStage::InitLogger(_, workers), BootstrapAnswer::Done) => {
                match &metadata_file {
                    Some(path) => Ok(BootstrapStage::ReadMetadata(path.clone(), workers)),
                    None => {
                        state.metadata = String::new();
                        Ok(BootstrapStage::CreateController(workers))
                    },
                }
            },
            (BootstrapStage::ReadMetadata(path, _), BootstrapAnswer::File(Err(error))) => Err(
                ControllerError::Io {
                    context: cat3("reading metadata file '", path.as_str(), "'"),
                    error,
                },
            ),
            (BootstrapStage::ReadMetadata(path, workers), BootstrapAnswer::File(Ok(bytes))) => {
                match text_of_bytes(bytes) {
                    Ok(text) => {
                        state.metadata = text;
                        Ok(BootstrapStage::CreateController(workers))
                    },
                    Err(e) => Err(
                        undecodable(
                            "invalid UTF8 string in the metadata file '",
                            path.as_str(),
                            e.as_str(),
                        ),
                    ),
                }
            },
            (BootstrapStage::CreateController(_), BootstrapAnswer::Controller(Ok(_))) => Ok(
                BootstrapStage::CreateMetrics,
            ),
            (BootstrapStage::CreateController(_), BootstrapAnswer::Controller(Err(e))) => Err(e),
            (BootstrapStage::CreateMetrics, BootstrapAnswer::Metrics(Ok(_))) => {
                state.has_metrics = true;
                state.has_controller = true;
                state.initialization_state = InitializationState::InitializationComplete;
                return BootstrapProgress::Complete;
            },
            (BootstrapStage::CreateMetrics, BootstrapAnswer::Metrics(Err(error))) => Err(
                ControllerError::Prometheus { error },
            ),
            (stage, _) => Ok(stage),
        };
        match outcome {
            Ok(stage) => BootstrapProgress::Next(Bootstrap { config_file, metadata_file, stage }),
            Err(error) => {
                state.initialization_state = InitializationState::InitializationError(
                    error.duplicate(),
                );
                BootstrapProgress::Failed { error, before_log }
            },
        }
    }
}

/// Those who wait for the log are told to go on: the log has been set up, or the
/// initialization has failed before.
pub open spec fn tells_of_log(stage: StageView, step: BootstrapStep, answer: AnswerView) -> bool {
    (stage is InitLogger && answer is Done) || (step is Failed && is_before_log(stage))
}

/// The log has been set up.
pub open spec fn has_log(stage: StageView) -> bool {
    !is_before_log(stage) && !(stage is InitLogger)
}

/// Those who wait for the log are told exactly once: not before, not again once the
/// log is there, and not left waiting when the initialization ends.
pub proof fn log_is_told_of_once(
    stage: StageView,
    config_file: Seq<char>,
    metadata_file: Option<Seq<char>>,
    answer: AnswerView,
)
    ensures
        ({
            let step = bootstrap_step(stage, config_file, metadata_file, answer);
            &&& tells_of_log(stage, step, answer) ==> !has_log(stage)
            &&& step matches BootstrapStep::Next(next) ==> has_log(next) == (has_log(stage)
                || tells_of_log(stage, step, answer))
            &&& !(step is Next) ==> has_log(stage) || tells_of_log(stage, step, answer)
        }),
{
}

/// What the world answers to each stage.
pub struct Answers {
    pub config: Result<Seq<u8>, Seq<char>>,
    pub parsed: Result<(Seq<char>, u16), Seq<char>>,
    pub metadata: Result<Seq<u8>, Seq<char>>,
    pub controller: Result<(), ControllerFault>,
    pub metrics: Result<(), Seq<char>>,
}

impl Answers {
    /// The answer to a stage.
    pub open spec fn at(self, stage: StageView) -> AnswerView {
        match stage {
            StageView::ReadConfig => AnswerView::File(self.config),
            StageView::ParseConfig(_) => AnswerView::Config(self.parsed),
            StageView::InitLogger(_, _) => AnswerView::Done,
            StageView::ReadMetadata(_, _) => AnswerView::File(self.metadata),
            StageView::CreateController(_) => AnswerView::Controller(self.controller),
            StageView::CreateMetrics => AnswerView::Metrics(self.metrics),
        }
    }
}

/// How many stages can still come.
pub open spec fn stages_left(stage: StageView) -> nat {
    match stage {
        StageView::ReadConfig => 6,
        StageView::ParseConfig(_) => 5,
        StageView::InitLogger(_, _) => 4,
        StageView::ReadMetadata(_, _) => 3,
        StageView::CreateController(_) => 2,
        StageView::CreateMetrics => 1,
    }
}

/// Why the initialization fails in the end, where it does.
pub open spec fn bootstrap_run(
    stage: StageView,
    config_file: Seq<char>,
    metadata_file: Option<Seq<char>>,
    answers: Answers,
) -> Option<ControllerFault>
    decreases stages_left(stage),
{
    match bootstrap_step(stage, config_file, metadata_file, answers.at(stage)) {
        BootstrapStep::Next(next) => if stages_left(next) < stages_left(stage) {
            bootstrap_run(next, config_file, metadata_file, answers)
        } else {
            None
        },
        BootstrapStep::Complete => None,
        BootstrapStep::Failed(fault) => Some(fault),
    }
}

/// The fault of a step, where it is one.
pub open spec fn fault_in(step: BootstrapStep) -> Option<ControllerFault> {
    match step {
        BootstrapStep::Failed(fault) => Some(fault),
        _ => None,
    }
}

/// The pipeline is initialized exactly when its configuration can be read and
/// parsed, its metadata, if it has any, can be read, and its controller and its
/// metrics can be created; otherwise the first of these that fails gives the error.
pub proof fn initialization_fails_as_described(
    config_file: Seq<char>,
    metadata_file: Option<Seq<char>>,
    answers: Answers,
)
    ensures
        bootstrap_run(StageView::ReadConfig, config_file, metadata_file, answers) == (if let Some(
            fault,
        ) = fault_in(config_read(config_file, answers.config)) {
            Some(fault)
        } else if let Err(e) = answers.parsed {
            Some(ControllerFault::ConfigParse(e))
        } else if metadata_file is Some && fault_in(
            metadata_read(metadata_file->0, answers.parsed->Ok_0.1, answers.metadata),
        ) is Some {
            fault_in(metadata_read(metadata_file->0, answers.parsed->Ok_0.1, answers.metadata))
        } else if let Err(fault) = answers.controller {
            Some(fault)
        } else if let Err(e) = answers.metrics {
            Some(ControllerFault::Prometheus(e))
        } else {
            None
        }),
{
    reveal_with_fuel(bootstrap_run, 7);
}

/// The number of workers that a stage keeps for the circuit.
pub open spec fn workers_kept(stage: StageView) -> Option<u16> {
    match stage {
        StageView::InitLogger(_, workers) => Some(workers),
        StageView::ReadMetadata(_, workers) => Some(workers),
        StageView::CreateController(workers) => Some(workers),
        _ => None,
    }
}

/// The circuit is built with the number of workers in the configuration: it is kept
/// from where the configuration was parsed to where the circuit is built.
pub proof fn circuits_get_the_configured_workers(
    stage: StageView,
    config_file: Seq<char>,
    metadata_file: Option<Seq<char>>,
    answer: AnswerView,
)
    ensures
        bootstrap_step(stage, config_file, metadata_file, answer) matches BootstrapStep::Next(next)
            ==> (workers_kept(next) matches Some(workers) ==> match (stage, answer) {
            (StageView::ParseConfig(_), AnswerView::Config(Ok((_, configured)))) => workers
                == configured,
            _ => workers_kept(stage) == Some(workers),
        }),
{
}

/// The initialization reads a file next.
pub open spec fn reads_file(b: Bootstrap, path: Seq<char>) -> bool {
    forall|a: BootstrapAction<'_>| #[trigger]
        call_ensures(Bootstrap::action, (&b,), a) ==> (a matches BootstrapAction::ReadFile(p) && p@
            == path)
}

/// The initialization builds the circuit next, with so many workers.
pub open spec fn builds_circuit(b: Bootstrap, workers: u16) -> bool {
    &&& b.stage == BootstrapStage::CreateController(workers)
    &&& forall|a: BootstrapAction<'_>| #[trigger]
        call_ensures(Bootstrap::action, (&b,), a) ==> a == (BootstrapAction::CreateController {
            workers,
        })
}

/// The initialization has failed with an error, which is told and kept in the state of the
/// server; there is neither a controller nor are there metrics that were not there before.
pub open spec fn has_failed(
    p: BootstrapProgress,
    before: ServerState,
    after: ServerState,
    error: ControllerError,
    before_log: bool,
) -> bool {
    &&& p matches BootstrapProgress::Failed { error: e, before_log: b } && same_controller_error(
        e,
        error,
    ) && b == before_log
    &&& after.initialization_state matches InitializationState::InitializationError(e)
        && same_controller_error(e, error)
    &&& after.has_controller == before.has_controller
    &&& after.has_metrics == before.has_metrics
    &&& after.can_terminate == before.can_terminate
}

/// The initialization goes on, and the server is in the state it was in but for its metadata.
pub open spec fn goes_on(
    b: Bootstrap,
    p: BootstrapProgress,
    before: ServerState,
    after: ServerState,
) -> bool {
    &&& p matches BootstrapProgress::Next(next) && next.config_file == b.config_file
        && next.metadata_file == b.metadata_file
    &&& after.initialization_state == before.initialization_state
    &&& after.has_controller == before.has_controller
    &&& after.has_metrics == before.has_metrics
    &&& after.can_terminate == before.can_terminate
}

/// The error about a file that is not in UTF-8.
pub open spec fn is_decoding_error(
    error: ControllerError,
    what: Seq<char>,
    path: Seq<char>,
    bytes: Seq<u8>,
) -> bool {
    error matches ControllerError::ConfigParse { error: e } && e@ == what + path + "' ("@
        + utf8_fault(bytes) + ")"@
}

/// The error about a file that cannot be read.
pub open spec fn is_reading_error(
    error: ControllerError,
    what: Seq<char>,
    path: Seq<char>,
    cause: String,
) -> bool {
    error matches ControllerError::Io { context, error: e } && context@ == what + path + "'"@ && e@
        == cause@
}

proof fn lemma_failed(b: Bootstrap, answer: BootstrapAnswer, error: ControllerError)
    requires
        bootstrap_step(b.stage@, b.config_file@, b.metadata_path(), answer@)
            == BootstrapStep::Failed(error@),
    ensures
        forall|s: &mut ServerState, p: BootstrapProgress| #[trigger]
            call_ensures(Bootstrap::bootstrap, (b, answer, s), p) ==> has_failed(
                p,
                *s,
                *final(s),
                error,
                b.stage is ReadConfig || b.stage is ParseConfig,
            ),
{
    assert forall|s: &mut ServerState, p: BootstrapProgress| #[trigger]
        call_ensures(Bootstrap::bootstrap, (b, answer, s), p) implies has_failed(
        p,
        *s,
        *final(s),
        error,
        b.stage is ReadConfig || b.stage is ParseConfig,
    ) by {
        assert(p is Failed);
        let e = p->Failed_error;
        assert(e@ == error@ ==> same_controller_error(e, error));
        if let InitializationState::InitializationError(f) = final(s).initialization_state {
            assert(f@ == error@ ==> same_controller_error(f, error));
        }
    }
}

/// The initialization first reads the configuration.  A file that cannot be read, or is not
/// in UTF-8, fails it; otherwise its text is parsed.
pub proof fn configurations_are_read_first(
    config_file: String,
    metadata_file: Option<String>,
    b: Bootstrap,
    bytes: Vec<u8>,
    cause: String,
    told: ControllerError,
)
    requires
        call_ensures(Bootstrap::do_bootstrap, (config_file, metadata_file), b),
    ensures
        reads_file(b, config_file@),
        b.metadata_file == metadata_file,
        valid_utf8(bytes@) ==> forall|s: &mut ServerState, p: BootstrapProgress| #[trigger]
            call_ensures(Bootstrap::bootstrap, (b, BootstrapAnswer::File(Ok(bytes)), s), p)
                ==> goes_on(b, p, *s, *final(s)) && final(s).metadata@ == s.metadata@ && (p matches
                BootstrapProgress::Next(next) && next.stage is ParseConfig && forall|
                a: BootstrapAction<'_>,
            | #[trigger]
                call_ensures(Bootstrap::action, (&next,), a) ==> (a matches
                    BootstrapAction::ParseConfig(text) && text@ == decode_utf8(bytes@))),
        !valid_utf8(bytes@) && is_decoding_error(
            told,
            "invalid UTF8 string in configuration file '"@,
            config_file@,
            bytes@,
        ) ==> forall|s: &mut ServerState, p: BootstrapProgress| #[trigger]
            call_ensures(Bootstrap::bootstrap, (b, BootstrapAnswer::File(Ok(bytes)), s), p)
                ==> has_failed(p, *s, *final(s), told, true),
        is_reading_error(told, "reading configuration file '"@, config_file@, cause) ==> forall|
            s: &mut ServerState,
            p: BootstrapProgress,
        | #[trigger]
            call_ensures(Bootstrap::bootstrap, (b, BootstrapAnswer::File(Err(cause)), s), p)
                ==> has_failed(p, *s, *final(s), told, true),
{
    if !valid_utf8(bytes@) && is_decoding_error(
        told,
        "invalid UTF8 string in configuration file '"@,
        config_file@,
        bytes@,
    ) {
        lemma_failed(b, BootstrapAnswer::File(Ok(bytes)), told);
    }
    if is_reading_error(told, "reading configuration file '"@, config_file@, cause) {
        lemma_failed(b, BootstrapAnswer::File(Err(cause)), told);
    }
}

/// A configuration that was parsed gives the log its label, the name of the pipeline in
/// brackets, and the number of workers is kept for the circuit; one that cannot be parsed
/// fails the initialization.
pub proof fn configurations_name_the_pipeline(
    b: Bootstrap,
    text: String,
    name: Option<String>,
    workers: u16,
    cause: String,
)
    requires
        b.stage == BootstrapStage::ParseConfig(text),
    ensures
        forall|s: &mut ServerState, p: BootstrapProgress| #[trigger]
            call_ensures(Bootstrap::bootstrap, (b, BootstrapAnswer::Config(Err(cause)), s), p)
                ==> has_failed(
                p,
                *s,
                *final(s),
                ControllerError::ConfigParse { error: cause },
                true,
            ),
        forall|s: &mut ServerState, p: BootstrapProgress| #[trigger]
            call_ensures(
                Bootstrap::bootstrap,
                (b, BootstrapAnswer::Config(Ok((name, workers))), s),
                p,
            ) ==> goes_on(b, p, *s, *final(s)) && final(s).metadata@ == s.metadata@ && (p matches
                BootstrapProgress::Next(next) && next.stage matches BootstrapStage::InitLogger(l, w)
                && w == workers && forall|a: BootstrapAction<'_>| #[trigger]
                call_ensures(Bootstrap::action, (&next,), a) ==> (a matches
                    BootstrapAction::InitLogger(label) && label@ == seq!['['] + (match name {
                    Some(n) => n@,
                    None => Seq::empty(),
                }) + seq![']'])),
{
    reveal_strlit("[");
    reveal_strlit("]");
    assert("["@ =~= seq!['[']);
    assert("]"@ =~= seq![']']);
    lemma_failed(
        b,
        BootstrapAnswer::Config(Err(cause)),
        ControllerError::ConfigParse { error: cause },
    );
    assert forall|s: &mut ServerState, p: BootstrapProgress| #[trigger]
        call_ensures(
            Bootstrap::bootstrap,
            (b, BootstrapAnswer::Config(Ok((name, workers))), s),
            p,
        ) implies (p matches BootstrapProgress::Next(next) && next.stage matches
        BootstrapStage::InitLogger(l, w) && w == workers && l@ == seq!['['] + (match name {
        Some(n) => n@,
        None => Seq::empty(),
    }) + seq![']']) by {
        let next = p->Next_0;
        assert(next.stage is InitLogger);
    }
}

/// Once the log is set up, the metadata is read, where there is a file for it; without one
/// there is none, and the circuit is built with the number of workers that was kept.
pub proof fn metadata_is_read_before_the_circuit_is_built(
    b: Bootstrap,
    label: String,
    workers: u16,
)
    requires
        b.stage == BootstrapStage::InitLogger(label, workers),
    ensures
        forall|s: &mut ServerState, p: BootstrapProgress| #[trigger]
            call_ensures(Bootstrap::bootstrap, (b, BootstrapAnswer::Done, s), p) ==> goes_on(
                b,
                p,
                *s,
                *final(s),
            ) && (p matches BootstrapProgress::Next(next) && match b.metadata_file {
                Some(path) => reads_file(next, path@) && (next.stage matches
                    BootstrapStage::ReadMetadata(f, w) && f@ == path@ && w == workers),
                None => builds_circuit(next, workers) && final(s).metadata@.len() == 0,
            }),
{
    assert forall|s: &mut ServerState, p: BootstrapProgress| #[trigger]
        call_ensures(Bootstrap::bootstrap, (b, BootstrapAnswer::Done, s), p) implies (p matches
        BootstrapProgress::Next(next) && match b.metadata_file {
        Some(path) => reads_file(next, path@) && (next.stage matches BootstrapStage::ReadMetadata(
            f,
            w,
        ) && f@ == path@ && w == workers),
        None => builds_circuit(next, workers),
    }) by {
        let next = p->Next_0;
        assert(next.stage is ReadMetadata || next.stage is CreateController);
    }
}

/// Metadata becomes that of the server, and then the circuit is built with the number of
/// workers that was kept; metadata that cannot be read, or is not in UTF-8, fails the
/// initialization.
pub proof fn metadata_is_kept(
    b: Bootstrap,
    path: String,
    workers: u16,
    bytes: Vec<u8>,
    cause: String,
    told: ControllerError,
)
    requires
        b.stage == BootstrapStage::ReadMetadata(path, workers),
    ensures
        valid_utf8(bytes@) ==> forall|s: &mut ServerState, p: BootstrapProgress| #[trigger]
            call_ensures(Bootstrap::bootstrap, (b, BootstrapAnswer::File(Ok(bytes)), s), p)
                ==> goes_on(b, p, *s, *final(s)) && final(s).metadata@ == decode_utf8(bytes@) && (p
                matches BootstrapProgress::Next(next) && builds_circuit(next, workers)),
        !valid_utf8(bytes@) && is_decoding_error(
            told,
            "invalid UTF8 string in the metadata file '"@,
            path@,
            bytes@,
        ) ==> forall|s: &mut ServerState, p: BootstrapProgress| #[trigger]
            call_ensures(Bootstrap::bootstrap, (b, BootstrapAnswer::File(Ok(bytes)), s), p)
                ==> has_failed(p, *s, *final(s), told, false),
        is_reading_error(told, "reading metadata file '"@, path@, cause) ==> forall|
            s: &mut ServerState,
            p: BootstrapProgress,
        | #[trigger]
            call_ensures(Bootstrap::bootstrap, (b, BootstrapAnswer::File(Err(cause)), s), p)
                ==> has_failed(p, *s, *final(s), told, false),
{
    if !valid_utf8(bytes@) && is_decoding_error(
        told,
        "invalid UTF8 string in the metadata file '"@,
        path@,
        bytes@,
    ) {
        lemma_failed(b, BootstrapAnswer::File(Ok(bytes)), told);
    }
    if is_reading_error(told, "reading metadata file '"@, path@, cause) {
        lemma_failed(b, BootstrapAnswer::File(Err(cause)), told);
    }
    assert forall|s: &mut ServerState, p: BootstrapProgress| #[trigger]
        call_ensures(
            Bootstrap::bootstrap,
            (b, BootstrapAnswer::File(Ok(bytes)), s),
            p,
        ) && valid_utf8(bytes@) implies (p matches BootstrapProgress::Next(next) && builds_circuit(
        next,
        workers,
    )) by {
        let next = p->Next_0;
        assert(next.stage is CreateController);
    }
}

/// The pipeline is initialized once it has a controller and then metrics: from then on the
/// server has both.  An error of either fails the initialization.
pub proof fn initialized_pipelines_have_a_controller(
    b: Bootstrap,
    workers: u16,
    last: Bootstrap,
    fault: ControllerError,
    cause: String,
)
    requires
        b.stage == BootstrapStage::CreateController(workers),
        last.stage is CreateMetrics,
    ensures
        builds_circuit(b, workers),
        forall|s: &mut ServerState, p: BootstrapProgress| #[trigger]
            call_ensures(Bootstrap::bootstrap, (b, BootstrapAnswer::Controller(Err(fault)), s), p)
                ==> has_failed(p, *s, *final(s), fault, false),
        forall|s: &mut ServerState, p: BootstrapProgress| #[trigger]
            call_ensures(Bootstrap::bootstrap, (b, BootstrapAnswer::Controller(Ok(())), s), p)
                ==> goes_on(b, p, *s, *final(s)) && final(s).metadata@ == s.metadata@ && (p matches
                BootstrapProgress::Next(next) && next.stage is CreateMetrics),
        forall|a: BootstrapAction<'_>| #[trigger]
            call_ensures(Bootstrap::action, (&last,), a) ==> a is CreateMetrics,
        forall|s: &mut ServerState, p: BootstrapProgress| #[trigger]
            call_ensures(Bootstrap::bootstrap, (last, BootstrapAnswer::Metrics(Ok(())), s), p) ==> {
                &&& p is Complete
                &&& final(s).initialization_state is InitializationComplete
                &&& final(s).has_controller
                &&& final(s).has_metrics
                &&& final(s).metadata@ == s.metadata@
                &&& final(s).can_terminate == s.can_terminate
            },
        forall|s: &mut ServerState, p: BootstrapProgress| #[trigger]
            call_ensures(Bootstrap::bootstrap, (last, BootstrapAnswer::Metrics(Err(cause)), s), p)
                ==> has_failed(
                p,
                *s,
                *final(s),
                ControllerError::Prometheus { error: cause },
                false,
            ),
{
    lemma_failed(b, BootstrapAnswer::Controller(Err(fault)), fault);
    lemma_failed(
        last,
        BootstrapAnswer::Metrics(Err(cause)),
        ControllerError::Prometheus { error: cause },
    );
    assert forall|s: &mut ServerState, p: BootstrapProgress| #[trigger]
        call_ensures(
            Bootstrap::bootstrap,
            (b, BootstrapAnswer::Controller(Ok(())), s),
            p,
        ) implies (p matches BootstrapProgress::Next(next) && next.stage is CreateMetrics) by {
        let next = p->Next_0;
        assert(next.stage is CreateMetrics);
    }
}

/// The text of a configuration is what its bytes encode, and the label of a log is the name of
/// the pipeline in brackets.
pub proof fn texts_of_the_initialization(
    path: &str,
    bytes: Vec<u8>,
    cause: String,
    r: Result<String, ControllerError>,
    name: Option<String>,
    label: String,
)
    ensures
        call_ensures(parse_config, (path, Ok::<Vec<u8>, String>(bytes)), r) ==> match r {
            Ok(text) => valid_utf8(bytes@) && text@ == decode_utf8(bytes@),
            Err(e) => !valid_utf8(bytes@) && is_decoding_error(
                e,
                "invalid UTF8 string in configuration file '"@,
                path@,
                bytes@,
            ),
        },
        call_ensures(parse_config, (path, Err::<Vec<u8>, String>(cause)), r) ==> (r matches Err(e)
            && is_reading_error(e, "reading configuration file '"@, path@, cause)),
        call_ensures(pipeline_label, (name,), label) ==> label@ == seq!['['] + (match name {
            Some(n) => n@,
            None => Seq::empty(),
        }) + seq![']'],
{
    reveal_strlit("[");
    reveal_strlit("]");
    assert("["@ =~= seq!['[']);
    assert("]"@ =~= seq![']']);
}

/// Only the answer to its action moves the initialization: any other one leaves it, and the
/// server, as they are.
pub proof fn only_answers_move_the_initialization(b: Bootstrap, answer: BootstrapAnswer)
    requires
        !(b.stage is ReadConfig && answer is File) && !(b.stage is ParseConfig && answer is Config)
            && !(b.stage is InitLogger && answer is Done) && !(b.stage is ReadMetadata && answer
            is File) && !(b.stage is CreateController && answer is Controller) && !(b.stage
            is CreateMetrics && answer is Metrics),
    ensures
        forall|s: &mut ServerState, p: BootstrapProgress| #[trigger]
            call_ensures(Bootstrap::bootstrap, (b, answer, s), p) ==> goes_on(b, p, *s, *final(s))
                && final(s).metadata@ == s.metadata@ && (p matches BootstrapProgress::Next(next)
                && next.stage@ == b.stage@),
{
}

/// A file that is not in UTF-8 is told with its path and what is wrong with it.
pub proof fn undecodable_files_are_named(what: &str, path: &str, error: &str, r: ControllerError)
    requires
        call_ensures(undecodable, (what, path, error), r),
    ensures
        r matches ControllerError::ConfigParse { error: e } && e@ == what@ + path@ + "' ("@ + error@
            + ")"@,
{
}

} // verus!
