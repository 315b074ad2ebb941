//! Starting the process of a pipeline.
//!
//! A `Launch` says what to do next in the file system, and takes what came of it.

use crate::pipeline_manager::config::{joined, ManagerConfig};
use crate::pipeline_manager::error::{ManagerError, ManagerFault, RunnerError, RunnerFault};
use crate::pipeline_manager::ids::PipelineId;
use crate::text::cat3;
use vstd::prelude::*;

verus! {

/// What a pipeline process is started from.
#[derive(Debug, Clone)]
pub struct PipelineRevision {
    pub pipeline_id: PipelineId,
    /// The configuration of the pipeline.
    pub config: String,
    /// The metadata of the revision as JSON.
    pub metadata: String,
    /// The path of the compiled program.
    pub executable: String,
}

/// What a launch is about to do.
#[derive(Debug, Clone, Copy, PartialEq, Eq, Structural)]
pub enum LaunchStage {
    /// Delete what an earlier process of the pipeline left.
    RemoveDirectory,
    CreateDirectory,
    WriteConfig,
    WriteMetadata,
    Spawn,
}

/// A pipeline process on its way.
#[derive(Debug, Clone)]
pub struct Launch {
    pub revision: PipelineRevision,
    /// The directory of the pipeline.
    pub directory: String,
    /// The path of its configuration.
    pub config_file: String,
    /// The path of its metadata.
    pub metadata_file: String,
    pub stage: LaunchStage,
}

/// What to do next.
#[derive(Debug)]
pub enum LaunchAction<'a> {
    /// Remove a directory and all it holds, if it exists.
    RemoveDirectory(&'a str),
    /// Create a directory and those it lies in, where they do not exist.
    CreateDirectories(&'a str),
    /// Write a file.
    WriteFile { path: &'a str, contents: &'a str },
    /// Run a program in a directory, without input.
    Spawn { program: &'a str, directory: &'a str, arguments: Vec<&'a str> },
}

/// How a launch goes on.
#[derive(Debug)]
pub enum LaunchProgress {
    Next(Launch),
    /// The process has been started.
    Done,
    Failed(ManagerError),
}

/// How a launch goes on, its texts as characters.
pub enum LaunchStep {
    Next(LaunchStage),
    Done,
    Failed(ManagerFault),
}

impl Launch {
    /// The paths are those of the configuration for the pipeline.
    pub open spec fn follows(&self, config: ManagerConfig) -> bool {
        &&& self.directory@ == config.pipeline(self.revision.pipeline_id)
        &&& self.config_file@ == joined(
            config.pipeline(self.revision.pipeline_id),
            "config.yaml"@,
        )
        &&& self.metadata_file@ == joined(
            config.pipeline(self.revision.pipeline_id),
            "metadata.json"@,
        )
    }

    /// How the launch goes on after a stage has succeeded, or failed with an error.
    /// A directory that could not be removed is no error: it need not exist.
    pub open spec fn step(&self, result: Result<(), Seq<char>>) -> LaunchStep {
        match (self.stage, result) {
            (LaunchStage::RemoveDirectory, _) => LaunchStep::Next(LaunchStage::CreateDirectory),
            (LaunchStage::CreateDirectory, Ok(_)) => LaunchStep::Next(LaunchStage::WriteConfig),
            (LaunchStage::WriteConfig, Ok(_)) => LaunchStep::Next(LaunchStage::WriteMetadata),
            (LaunchStage::WriteMetadata, Ok(_)) => LaunchStep::Next(LaunchStage::Spawn),
            (LaunchStage::Spawn, Ok(_)) => LaunchStep::Done,
            (LaunchStage::CreateDirectory, Err(e)) => LaunchStep::Failed(
                ManagerFault::Io("creating pipeline directory '"@ + self.directory@ + "'"@, e),
            ),
            (LaunchStage::WriteConfig, Err(e)) => LaunchStep::Failed(
                ManagerFault::Io("writing config file '"@ + self.config_file@ + "'"@, e),
            ),
            (LaunchStage::WriteMetadata, Err(e)) => LaunchStep::Failed(
                ManagerFault::Io("writing metadata file '"@ + self.metadata_file@ + "'"@, e),
            ),
            (LaunchStage::Spawn, Err(e)) => LaunchStep::Failed(
                ManagerFault::Runner(RunnerFault::Startup(self.revision.pipeline_id, e)),
            ),
        }
    }

    /// Starts the launch of a pipeline process.
    pub fn start(config: &ManagerConfig, revision: PipelineRevision) -> (r: Self)
        ensures
            r.revision == revision,
            r.follows(*config),
            r.stage == LaunchStage::RemoveDirectory,
    {
        let id = revision.pipeline_id;
        Launch {
            revision,
            directory: config.pipeline_dir(id),
            config_file: config.config_file_path(id),
            metadata_file: config.metadata_file_path(id),
            stage: LaunchStage::RemoveDirectory,
        }
    }

    /// What to do next.  The process runs in the directory of the pipeline, and is
    /// told where its configuration and its metadata are.
    pub fn action(&self) -> (r: LaunchAction<'_>)
        ensures
            match self.stage {
                LaunchStage::RemoveDirectory => r matches LaunchAction::RemoveDirectory(path)
                    && path@ == self.directory@,
                LaunchStage::CreateDirectory => r matches LaunchAction::CreateDirectories(path)
                    && path@ == self.directory@,
                LaunchStage::WriteConfig => r matches LaunchAction::WriteFile { path, contents }
                    && path@ == self.config_file@ && contents@ == self.revision.config@,
                LaunchStage::WriteMetadata => r matches LaunchAction::WriteFile { path, contents }
                    && path@ == self.metadata_file@ && contents@ == self.revision.metadata@,
                LaunchStage::Spawn => r matches LaunchAction::Spawn {
                    program,
                    directory,
                    arguments,
                } && program@ == self.revision.executable@ && directory@ == self.directory@
                    && arguments@.len() == 4 && arguments@[0]@ == "--config-file"@
                    && arguments@[1]@ == self.config_file@ && arguments@[2]@ == "--metadata-file"@
                    && arguments@[3]@ == self.metadata_file@,
            },
    {
        match self.stage {
            LaunchStage::RemoveDirectory => LaunchAction::RemoveDirectory(self.directory.as_str()),
            LaunchStage::CreateDirectory => LaunchAction::CreateDirectories(
                self.directory.as_str(),
            ),
            LaunchStage::WriteConfig => LaunchAction::WriteFile {
                path: self.config_file.as_str(),
                contents: self.revision.config.as_str(),
            },
            LaunchStage::WriteMetadata => LaunchAction::WriteFile {
                path: self.metadata_file.as_str(),
                contents: self.revision.metadata.as_str(),
            },
            LaunchStage::Spawn => {
                let mut arguments: Vec<&str> = Vec::new();
                arguments.push("--config-file");
                arguments.push(self.config_file.as_str());
                arguments.push("--metadata-file");
                arguments.push(self.metadata_file.as_str());
                LaunchAction::Spawn {
                    program: self.revision.executable.as_str(),
                    directory: self.directory.as_str(),
                    arguments,
                }
            },
        }
    }

    /// Takes what came of the action: success, or the text of an error.
    pub fn reply(self, result: Result<(), String>) -> (r: LaunchProgress)
        ensures
            match self.step(
                match result {
                    Ok(_) => Ok(()),
                    Err(e) => Err(e@),
                },
            ) {
                LaunchStep::Next(stage) => r == LaunchProgress::Next(Launch { stage, ..self }),
                LaunchStep::Done => r is Done,
                LaunchStep::Failed(fault) => r matches LaunchProgress::Failed(e) && e@ == fault,
            },
    {
        match (self.stage, result) {
            (LaunchStage::RemoveDirectory, _) => LaunchProgress::Next(
                Launch { stage: LaunchStage::CreateDirectory, ..self },
            ),
            (LaunchStage::CreateDirectory, Ok(_)) => LaunchProgress::Next(
                Launch { stage: LaunchStage::WriteConfig, ..self },
            ),
            (LaunchStage::WriteConfig, Ok(_)) => LaunchProgress::Next(
                Launch { stage: LaunchStage::WriteMetadata, ..self },
            ),
            (LaunchStage::WriteMetadata, Ok(_)) => LaunchProgress::Next(
                Launch { stage: LaunchStage::Spawn, ..self },
            ),
            (LaunchStage::Spawn, Ok(_)) => LaunchProgress::Done,
            (LaunchStage::CreateDirectory, Err(error)) => LaunchProgress::Failed(
                ManagerError::Io {
                    context: cat3("creating pipeline directory '", self.directory.as_str(), "'"),
                    error,
                },
            ),
            (LaunchStage::WriteConfig, Err(error)) => LaunchProgress::Failed(
                ManagerError::Io {
                    context: cat3("writing config file '", self.config_file.as_str(), "'"),
                    error,
                },
            ),
            (LaunchStage::WriteMetadata, Err(error)) => LaunchProgress::Failed(
                ManagerError::Io {
                    context: cat3("writing metadata file '", self.metadata_file.as_str(), "'"),
                    error,
                },
            ),
            (LaunchStage::Spawn, Err(error)) => LaunchProgress::Failed(
                ManagerError::Runner(
                    RunnerError::PipelineStartupError {
                        pipeline_id: self.revision.pipeline_id,
                        error,
                    },
                ),
            ),
        }
    }
}

/// The process is started only once its directory exists and its configuration and
/// its metadata have been written to it.
pub proof fn spawn_comes_last(launch: Launch, result: Result<(), Seq<char>>)
    ensures
        launch.step(result) is Done ==> launch.stage == LaunchStage::Spawn,
        launch.step(result) == LaunchStep::Next(LaunchStage::Spawn) ==> launch.stage
            == LaunchStage::WriteMetadata && result is Ok,
        launch.step(result) == LaunchStep::Next(LaunchStage::WriteMetadata) ==> launch.stage
            == LaunchStage::WriteConfig && result is Ok,
        launch.step(result) == LaunchStep::Next(LaunchStage::WriteConfig) ==> launch.stage
            == LaunchStage::CreateDirectory && result is Ok,
{
}

/// What the world answers to each stage.
pub struct Answers {
    pub remove: Result<(), Seq<char>>,
    pub create: Result<(), Seq<char>>,
    pub config: Result<(), Seq<char>>,
    pub metadata: Result<(), Seq<char>>,
    pub spawn: Result<(), Seq<char>>,
}

impl Answers {
    /// The answer to a stage.
    pub open spec fn at(self, stage: LaunchStage) -> Result<(), Seq<char>> {
        match stage {
            LaunchStage::RemoveDirectory => self.remove,
            LaunchStage::CreateDirectory => self.create,
            LaunchStage::WriteConfig => self.config,
            LaunchStage::WriteMetadata => self.metadata,
            LaunchStage::Spawn => self.spawn,
        }
    }
}

/// How many stages can still come.
pub open spec fn stages_left(stage: LaunchStage) -> nat {
    match stage {
        LaunchStage::RemoveDirectory => 5,
        LaunchStage::CreateDirectory => 4,
        LaunchStage::WriteConfig => 3,
        LaunchStage::WriteMetadata => 2,
        LaunchStage::Spawn => 1,
    }
}

/// Why a launch fails in the end, where it does.
pub open spec fn launch_run(launch: Launch, answers: Answers) -> Option<ManagerFault>
    decreases stages_left(launch.stage),
{
    match launch.step(answers.at(launch.stage)) {
        LaunchStep::Next(next) => if stages_left(next) < stages_left(launch.stage) {
            launch_run(Launch { stage: next, ..launch }, answers)
        } else {
            None
        },
        LaunchStep::Done => None,
        LaunchStep::Failed(fault) => Some(fault),
    }
}

/// A process is started exactly when its directory can be created, its
/// configuration and its metadata can be written, and its program can be run;
/// otherwise the first of these that fails gives the error.
pub proof fn launches_fail_as_described(launch: Launch, answers: Answers)
    requires
        launch.stage == LaunchStage::RemoveDirectory,
    ensures
        launch_run(launch, answers) == (if let Err(e) = answers.create {
            Some(ManagerFault::Io("creating pipeline directory '"@ + launch.directory@ + "'"@, e))
        } else if let Err(e) = answers.config {
            Some(ManagerFault::Io("writing config file '"@ + launch.config_file@ + "'"@, e))
        } else if let Err(e) = answers.metadata {
            Some(ManagerFault::Io("writing metadata file '"@ + launch.metadata_file@ + "'"@, e))
        } else if let Err(e) = answers.spawn {
            Some(ManagerFault::Runner(RunnerFault::Startup(launch.revision.pipeline_id, e)))
        } else {
            None
        }),
{
    reveal_with_fuel(launch_run, 6);
}

/// The launch has failed with an input or output error.
pub open spec fn fails_with(p: LaunchProgress, context: Seq<char>, error: String) -> bool {
    p matches LaunchProgress::Failed(ManagerError::Io { context: c, error: e }) && c@ == context
        && e@ == error@
}

/// The launch goes on with the same revision.
pub open spec fn next_of(launch: Launch, p: LaunchProgress) -> bool {
    p matches LaunchProgress::Next(next) && next.revision == launch.revision
}

/// The process is started last: its program runs in the directory of the pipeline, and is told
/// the paths of its configuration and of its metadata.
pub open spec fn spawns(
    launch: Launch,
    directory: Seq<char>,
    config_file: Seq<char>,
    metadata_file: Seq<char>,
) -> bool {
    &&& forall|a: LaunchAction<'_>| #[trigger]
        call_ensures(Launch::action, (&launch,), a) ==> (a matches LaunchAction::Spawn {
            program,
            directory: d,
            arguments,
        } && program@ == launch.revision.executable@ && d@ == directory && arguments@.len() == 4
            && arguments@[0]@ == "--config-file"@ && arguments@[1]@ == config_file
            && arguments@[2]@ == "--metadata-file"@ && arguments@[3]@ == metadata_file)
    &&& forall|p: LaunchProgress| #[trigger]
        call_ensures(Launch::reply, (launch, Ok(())), p) ==> p is Done
    &&& forall|p: LaunchProgress, e: String| #[trigger]
        call_ensures(Launch::reply, (launch, Err(e)), p) ==> (p matches LaunchProgress::Failed(
            ManagerError::Runner(RunnerError::PipelineStartupError { pipeline_id, error }),
        ) && pipeline_id == launch.revision.pipeline_id && error@ == e@)
}

/// A file is written.
pub open spec fn writes(launch: Launch, path: Seq<char>, contents: Seq<char>) -> bool {
    forall|a: LaunchAction<'_>| #[trigger]
        call_ensures(Launch::action, (&launch,), a) ==> (a matches LaunchAction::WriteFile {
            path: p,
            contents: c,
        } && p@ == path && c@ == contents)
}

/// The metadata is written, and then the process is started.
pub open spec fn writes_metadata(
    launch: Launch,
    directory: Seq<char>,
    config_file: Seq<char>,
    metadata_file: Seq<char>,
) -> bool {
    &&& writes(launch, metadata_file, launch.revision.metadata@)
    &&& forall|p: LaunchProgress| #[trigger]
        call_ensures(Launch::reply, (launch, Ok(())), p) ==> next_of(launch, p) && spawns(
            p->Next_0,
            directory,
            config_file,
            metadata_file,
        )
    &&& forall|p: LaunchProgress, e: String| #[trigger]
        call_ensures(Launch::reply, (launch, Err(e)), p) ==> fails_with(
            p,
            "writing metadata file '"@ + metadata_file + "'"@,
            e,
        )
}

/// The configuration is written, and then the metadata.
pub open spec fn writes_config(
    launch: Launch,
    directory: Seq<char>,
    config_file: Seq<char>,
    metadata_file: Seq<char>,
) -> bool {
    &&& writes(launch, config_file, launch.revision.config@)
    &&& forall|p: LaunchProgress| #[trigger]
        call_ensures(Launch::reply, (launch, Ok(())), p) ==> next_of(launch, p) && writes_metadata(
            p->Next_0,
            directory,
            config_file,
            metadata_file,
        )
    &&& forall|p: LaunchProgress, e: String| #[trigger]
        call_ensures(Launch::reply, (launch, Err(e)), p) ==> fails_with(
            p,
            "writing config file '"@ + config_file + "'"@,
            e,
        )
}

/// The directory is created, and then the configuration is written.
pub open spec fn creates_directory(
    launch: Launch,
    directory: Seq<char>,
    config_file: Seq<char>,
    metadata_file: Seq<char>,
) -> bool {
    &&& forall|a: LaunchAction<'_>| #[trigger]
        call_ensures(Launch::action, (&launch,), a) ==> (a matches LaunchAction::CreateDirectories(
            path,
        ) && path@ == directory)
    &&& forall|p: LaunchProgress| #[trigger]
        call_ensures(Launch::reply, (launch, Ok(())), p) ==> next_of(launch, p) && writes_config(
            p->Next_0,
            directory,
            config_file,
            metadata_file,
        )
    &&& forall|p: LaunchProgress, e: String| #[trigger]
        call_ensures(Launch::reply, (launch, Err(e)), p) ==> fails_with(
            p,
            "creating pipeline directory '"@ + directory + "'"@,
            e,
        )
}

proof fn lemma_creates(launch: Launch)
    requires
        launch.stage == LaunchStage::CreateDirectory,
    ensures
        creates_directory(
            launch,
            launch.directory@,
            launch.config_file@,
            launch.metadata_file@,
        ),
{
    let (d, c, m) = (launch.directory@, launch.config_file@, launch.metadata_file@);
    let config = Launch { stage: LaunchStage::WriteConfig, ..launch };
    let metadata = Launch { stage: LaunchStage::WriteMetadata, ..launch };
    let spawn = Launch { stage: LaunchStage::Spawn, ..launch };
    assert(spawns(spawn, d, c, m));
    assert(writes_metadata(metadata, d, c, m));
    assert(writes_config(config, d, c, m));
}

/// A launch removes what an earlier process left in the directory of the pipeline, and goes on
/// whether there was anything or not.  Then it creates the directory, writes the configuration
/// and the metadata of the revision to their files, and starts the process; the first of
/// these that fails gives the error.
pub proof fn launches_start_afresh(
    config: ManagerConfig,
    revision: PipelineRevision,
    directory: String,
    config_file: String,
    metadata_file: String,
    r: Launch,
    result: Result<(), String>,
    p: LaunchProgress,
)
    requires
        call_ensures(Launch::start, (&config, revision), r),
        call_ensures(ManagerConfig::pipeline_dir, (&config, revision.pipeline_id), directory),
        call_ensures(ManagerConfig::config_file_path, (&config, revision.pipeline_id), config_file),
        call_ensures(
            ManagerConfig::metadata_file_path,
            (&config, revision.pipeline_id),
            metadata_file,
        ),
        call_ensures(Launch::reply, (r, result), p),
    ensures
        r.revision == revision,
        forall|a: LaunchAction<'_>| #[trigger]
            call_ensures(Launch::action, (&r,), a) ==> (a matches LaunchAction::RemoveDirectory(
                path,
            ) && path@ == directory@),
        next_of(r, p) && creates_directory(
            p->Next_0,
            directory@,
            config_file@,
            metadata_file@,
        ),
{
    lemma_creates(Launch { stage: LaunchStage::CreateDirectory, ..r });
}

} // verus!
