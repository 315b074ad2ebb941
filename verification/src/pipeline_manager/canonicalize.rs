//! Turning the paths of a configuration into absolute paths.
//!
//! The file system is asked one thing at a time.  A `Canonicalization` says what
//! to ask next, and takes the answer.

use crate::pipeline_manager::config::ManagerConfig;
use crate::text::{cat2, cat4};
use vstd::prelude::*;

verus! {

/// What the file system is asked to do.
#[derive(Debug, Clone)]
pub enum FileRequest {
    /// Open a directory, and create it and those it lies in where they do not exist.
    CreateDirectories(String),
    /// Find the absolute path of an existing file or directory.
    Resolve(String),
    /// Create a file or make it empty.
    CreateFile(String),
}

/// The paths of a configuration.
pub struct Paths {
    pub working: Seq<char>,
    pub logfile: Option<Seq<char>>,
    pub compiler: Seq<char>,
    pub sources: Option<Seq<char>>,
    pub html: Option<Seq<char>>,
}

/// What is being asked.
#[derive(Debug, Clone, Copy, PartialEq, Eq, Structural)]
pub enum Stage {
    ResolveWorkingDirectory,
    OpenWorkingDirectory,
    CreateLogfile,
    ResolveLogfile,
    ResolveCompiler,
    ResolveSources,
    ResolveHtml,
}

/// How a canonicalization goes on, over the paths.
pub enum Outcome {
    Next(Stage, Paths),
    Done(Paths),
    Failed(Seq<char>),
}

/// An optional text as characters.
pub open spec fn chars(text: Option<String>) -> Option<Seq<char>> {
    match text {
        Some(s) => Some(s@),
        None => None,
    }
}

/// The paths of a configuration.
pub open spec fn paths_of(config: ManagerConfig) -> Paths {
    Paths {
        working: config.working_directory@,
        logfile: chars(config.logfile),
        compiler: config.sql_compiler_home@,
        sources: chars(config.dbsp_override_path),
        html: chars(config.static_html),
    }
}

/// Two configurations agree on everything but their paths.
pub open spec fn same_settings(a: ManagerConfig, b: ManagerConfig) -> bool {
    &&& a.port == b.port
    &&& a.bind_address@ == b.bind_address@
    &&& a.debug == b.debug
    &&& a.unix_daemon == b.unix_daemon
    &&& a.db_connection_string@ == b.db_connection_string@
    &&& a.dump_openapi == b.dump_openapi
    &&& chars(a.config_file) == chars(b.config_file)
    &&& chars(a.initial_sql) == chars(b.initial_sql)
    &&& a.dev_mode == b.dev_mode
}

/// The path that a stage is about.
pub open spec fn path_at(stage: Stage, paths: Paths) -> Seq<char> {
    match stage {
        Stage::ResolveWorkingDirectory | Stage::OpenWorkingDirectory => paths.working,
        Stage::CreateLogfile | Stage::ResolveLogfile => paths.logfile->0,
        Stage::ResolveCompiler => paths.compiler,
        Stage::ResolveSources => paths.sources->0,
        Stage::ResolveHtml => paths.html->0,
    }
}

/// What is said in front of the path when the stage fails.
pub open spec fn complaint(stage: Stage) -> Seq<char> {
    match stage {
        Stage::OpenWorkingDirectory => "unable to create or open working directry '"@,
        Stage::ResolveWorkingDirectory => "error canonicalizing working directory path '"@,
        Stage::CreateLogfile => "unable to create or truncate log file '"@,
        Stage::ResolveLogfile => "error canonicalizing log file path '"@,
        Stage::ResolveCompiler => "failed to access SQL compiler home '"@,
        Stage::ResolveSources => "failed to access dbsp override directory '"@,
        Stage::ResolveHtml => "failed to access '"@,
    }
}

/// The message when a stage fails on a path.
pub open spec fn failure(stage: Stage, path: Seq<char>, error: Seq<char>) -> Seq<char> {
    complaint(stage) + path + "': "@ + error
}

/// The optional paths that are absent are passed over.
pub open spec fn stage_is_due(stage: Stage, paths: Paths) -> bool {
    match stage {
        Stage::CreateLogfile | Stage::ResolveLogfile => paths.logfile is Some,
        Stage::ResolveSources => paths.sources is Some,
        Stage::ResolveHtml => paths.html is Some,
        _ => true,
    }
}

/// The file of the log: where none is given, a daemon uses one in the working
/// directory.
pub open spec fn effective_logfile(paths: Paths, daemon: bool) -> Option<Seq<char>> {
    if paths.logfile is None && daemon {
        Some(paths.working + "/manager.log"@)
    } else {
        paths.logfile
    }
}

/// What comes behind the stages of the optional paths.
pub open spec fn after_sources(paths: Paths) -> Outcome {
    if paths.html is Some {
        Outcome::Next(Stage::ResolveHtml, paths)
    } else {
        Outcome::Done(paths)
    }
}

/// How a stage goes on when it has succeeded with `found`.
pub open spec fn succeeded(stage: Stage, paths: Paths, daemon: bool, found: Seq<char>) -> Outcome {
    match stage {
        Stage::ResolveWorkingDirectory => Outcome::Next(
            Stage::OpenWorkingDirectory,
            Paths { working: found, ..paths },
        ),
        Stage::OpenWorkingDirectory => {
            let paths1 = Paths { logfile: effective_logfile(paths, daemon), ..paths };
            if paths1.logfile is Some {
                Outcome::Next(Stage::CreateLogfile, paths1)
            } else {
                Outcome::Next(Stage::ResolveCompiler, paths1)
            }
        },
        Stage::CreateLogfile => Outcome::Next(Stage::ResolveLogfile, paths),
        Stage::ResolveLogfile => Outcome::Next(
            Stage::ResolveCompiler,
            Paths { logfile: Some(found), ..paths },
        ),
        Stage::ResolveCompiler => {
            let paths1 = Paths { compiler: found, ..paths };
            if paths1.sources is Some {
                Outcome::Next(Stage::ResolveSources, paths1)
            } else {
                after_sources(paths1)
            }
        },
        Stage::ResolveSources => after_sources(Paths { sources: Some(found), ..paths }),
        Stage::ResolveHtml => Outcome::Done(Paths { html: Some(found), ..paths }),
    }
}

/// How a stage goes on when it got an answer.
pub open spec fn answered(
    stage: Stage,
    paths: Paths,
    daemon: bool,
    answer: Result<Seq<char>, Seq<char>>,
) -> Outcome {
    match answer {
        Ok(found) => succeeded(stage, paths, daemon, found),
        Err(error) => Outcome::Failed(failure(stage, path_at(stage, paths), error)),
    }
}

/// A configuration on its way to absolute paths.
#[derive(Debug, Clone)]
pub struct Canonicalization {
    config: ManagerConfig,
    stage: Stage,
}

/// How a canonicalization goes on.
#[derive(Debug, Clone)]
pub enum Progress {
    /// There is more to ask.
    Next(Canonicalization),
    /// All paths are absolute.
    Done(ManagerConfig),
    /// A path does not exist or cannot be read.
    Failed(String),
}

impl ManagerConfig {
    /// Convert all directory paths in the configuration to absolute paths.
    ///
    /// Starts the conversion of the working directory, the location of the SQL
    /// compiler, the override of dependencies and the directory of static content,
    /// which fails if any of them does not exist or is not readable.  The log file,
    /// if there is one, is created first.
    pub fn canonicalize(self) -> (r: Canonicalization)
        ensures
            r.wf(),
            r.stage() == Stage::ResolveWorkingDirectory,
            r.settings() == self,
    {
        Canonicalization { config: self, stage: Stage::ResolveWorkingDirectory }
    }
}

impl Canonicalization {
    /// The stage.
    pub closed spec fn stage(&self) -> Stage {
        self.stage
    }

    /// The configuration so far.
    pub closed spec fn settings(&self) -> ManagerConfig {
        self.config
    }

    /// The stage is about a path that is there.
    pub open spec fn wf(&self) -> bool {
        stage_is_due(self.stage(), paths_of(self.settings()))
    }

    /// The path that the stage is about.
    fn path(&self) -> (r: &String)
        requires
            self.wf(),
        ensures
            r@ == path_at(self.stage(), paths_of(self.settings())),
    {
        let option = match self.stage {
            Stage::ResolveWorkingDirectory | Stage::OpenWorkingDirectory => {
                return &self.config.working_directory;
            },
            Stage::ResolveCompiler => {
                return &self.config.sql_compiler_home;
            },
            Stage::CreateLogfile | Stage::ResolveLogfile => &self.config.logfile,
            Stage::ResolveSources => &self.config.dbsp_override_path,
            Stage::ResolveHtml => &self.config.static_html,
        };
        match option {
            Some(path) => path,
            None => vstd::pervasive::unreached(),
        }
    }

    /// What to ask of the file system.
    pub fn request(&self) -> (r: FileRequest)
        requires
            self.wf(),
        ensures
            match self.stage() {
                Stage::OpenWorkingDirectory => r matches FileRequest::CreateDirectories(path)
                    && path@ == path_at(self.stage(), paths_of(self.settings())),
                Stage::CreateLogfile => r matches FileRequest::CreateFile(path) && path@ == path_at(
                    self.stage(),
                    paths_of(self.settings()),
                ),
                _ => r matches FileRequest::Resolve(path) && path@ == path_at(
                    self.stage(),
                    paths_of(self.settings()),
                ),
            },
    {
        let path = self.path().clone();
        match self.stage {
            Stage::OpenWorkingDirectory => FileRequest::CreateDirectories(path),
            Stage::CreateLogfile => FileRequest::CreateFile(path),
            _ => FileRequest::Resolve(path),
        }
    }

    /// Takes the answer: the absolute path where one was asked for, or why the
    /// request failed.
    pub fn reply(self, answer: Result<String, String>) -> (r: Progress)
        requires
            self.wf(),
        ensures
            match answered(
                self.stage(),
                paths_of(self.settings()),
                self.settings().unix_daemon,
                match answer {
                    Ok(found) => Ok(found@),
                    Err(error) => Err(error@),
                },
            ) {
                Outcome::Next(stage, paths) => r matches Progress::Next(next) && next.wf()
                    && next.stage() == stage && paths_of(next.settings()) == paths
                    && same_settings(next.settings(), self.settings()),
                Outcome::Done(paths) => r matches Progress::Done(config) && paths_of(config)
                    == paths && same_settings(config, self.settings()),
                Outcome::Failed(message) => r matches Progress::Failed(text) && text@ == message,
            },
    {
        match answer {
            Err(error) => {
                let front = match self.stage {
                    Stage::OpenWorkingDirectory => "unable to create or open working directry '",
                    Stage::ResolveWorkingDirectory => {
                        "error canonicalizing working directory path '"
                    },
                    Stage::CreateLogfile => "unable to create or truncate log file '",
                    Stage::ResolveLogfile => "error canonicalizing log file path '",
                    Stage::ResolveCompiler => "failed to access SQL compiler home '",
                    Stage::ResolveSources => "failed to access dbsp override directory '",
                    Stage::ResolveHtml => "failed to access '",
                };
                Progress::Failed(cat4(front, self.path().as_str(), "': ", error.as_str()))
            },
            Ok(found) => self.accept(found),
        }
    }

    /// Goes on with what the file system found.
    fn accept(self, found: String) -> (r: Progress)
        requires
            self.wf(),
        ensures
            match succeeded(
                self.stage(),
                paths_of(self.settings()),
                self.settings().unix_daemon,
                found@,
            ) {
                Outcome::Next(stage, paths) => r matches Progress::Next(next) && next.wf()
                    && next.stage() == stage && paths_of(next.settings()) == paths
                    && same_settings(next.settings(), self.settings()),
                Outcome::Done(paths) => r matches Progress::Done(config) && paths_of(config)
                    == paths && same_settings(config, self.settings()),
                Outcome::Failed(message) => false,
            },
    {
        let mut config = self.config;
        match self.stage {
            Stage::ResolveWorkingDirectory => {
                config.working_directory = found;
                Progress::Next(Canonicalization { config, stage: Stage::OpenWorkingDirectory })
            },
            Stage::OpenWorkingDirectory => {
                if config.logfile.is_none() && config.unix_daemon {
                    config.logfile = Some(cat2(config.working_directory.as_str(), "/manager.log"));
                }
                let stage = if config.logfile.is_some() {
                    Stage::CreateLogfile
                } else {
                    Stage::ResolveCompiler
                };
                Progress::Next(Canonicalization { config, stage })
            },
            Stage::CreateLogfile => Progress::Next(
                Canonicalization { config, stage: Stage::ResolveLogfile },
            ),
            Stage::ResolveLogfile => {
                config.logfile = Some(found);
                Progress::Next(Canonicalization { config, stage: Stage::ResolveCompiler })
            },
            Stage::ResolveCompiler => {
                config.sql_compiler_home = found;
                if config.dbsp_override_path.is_some() {
                    Progress::Next(Canonicalization { config, stage: Stage::ResolveSources })
                } else if config.static_html.is_some() {
                    Progress::Next(Canonicalization { config, stage: Stage::ResolveHtml })
                } else {
                    Progress::Done(config)
                }
            },
            Stage::ResolveSources => {
                config.dbsp_override_path = Some(found);
                if config.static_html.is_some() {
                    Progress::Next(Canonicalization { config, stage: Stage::ResolveHtml })
                } else {
                    Progress::Done(config)
                }
            },
            Stage::ResolveHtml => {
                config.static_html = Some(found);
                Progress::Done(config)
            },
        }
    }
}

/// The answers of a file system.
pub struct Files {
    /// Why directories cannot be created.
    pub create_directories: spec_fn(Seq<char>) -> Option<Seq<char>>,
    /// The absolute path, or why there is none.
    pub resolve: spec_fn(Seq<char>) -> Result<Seq<char>, Seq<char>>,
    /// Why a file cannot be created.
    pub create_file: spec_fn(Seq<char>) -> Option<Seq<char>>,
}

impl Files {
    /// The answer to the request of a stage.
    pub open spec fn answer(self, stage: Stage, path: Seq<char>) -> Result<Seq<char>, Seq<char>> {
        match stage {
            Stage::OpenWorkingDirectory => match (self.create_directories)(path) {
                Some(error) => Err(error),
                None => Ok(Seq::empty()),
            },
            Stage::CreateLogfile => match (self.create_file)(path) {
                Some(error) => Err(error),
                None => Ok(Seq::empty()),
            },
            _ => (self.resolve)(path),
        }
    }
}

/// How many stages can still come.
pub open spec fn stages_left(stage: Stage) -> nat {
    match stage {
        Stage::ResolveWorkingDirectory => 7,
        Stage::OpenWorkingDirectory => 6,
        Stage::CreateLogfile => 5,
        Stage::ResolveLogfile => 4,
        Stage::ResolveCompiler => 3,
        Stage::ResolveSources => 2,
        Stage::ResolveHtml => 1,
    }
}

/// The outcome of asking to the end.
pub open spec fn run(stage: Stage, paths: Paths, daemon: bool, files: Files) -> Result<
    Paths,
    Seq<char>,
>
    decreases stages_left(stage),
{
    match answered(stage, paths, daemon, files.answer(stage, path_at(stage, paths))) {
        Outcome::Next(next, paths1) => if stages_left(next) < stages_left(stage) {
            run(next, paths1, daemon, files)
        } else {
            Err(Seq::empty())
        },
        Outcome::Done(paths1) => Ok(paths1),
        Outcome::Failed(message) => Err(message),
    }
}

/// An optional path made absolute.
pub open spec fn resolved(
    stage: Stage,
    path: Option<Seq<char>>,
    files: Files,
) -> Result<Option<Seq<char>>, Seq<char>> {
    match path {
        None => Ok(None),
        Some(p) => match (files.resolve)(p) {
            Ok(found) => Ok(Some(found)),
            Err(error) => Err(failure(stage, p, error)),
        },
    }
}

/// The log file made absolute, once it has been created.
pub open spec fn resolved_logfile(path: Option<Seq<char>>, files: Files) -> Result<
    Option<Seq<char>>,
    Seq<char>,
> {
    match path {
        None => Ok(None),
        Some(p) => match (files.create_file)(p) {
            Some(error) => Err(failure(Stage::CreateLogfile, p, error)),
            None => resolved(Stage::ResolveLogfile, path, files),
        },
    }
}

/// Each of the paths is replaced by the absolute path that the file system gives for
/// it, and the first one that fails decides the message.  The working directory must
/// exist and be a directory.
pub open spec fn canonical(paths: Paths, daemon: bool, files: Files) -> Result<Paths, Seq<char>> {
    match (files.resolve)(paths.working) {
        Err(error) => Err(failure(Stage::ResolveWorkingDirectory, paths.working, error)),
        Ok(working) => if let Some(error) = (files.create_directories)(working) {
            Err(failure(Stage::OpenWorkingDirectory, working, error))
        } else {
            match resolved_logfile(effective_logfile(Paths { working, ..paths }, daemon), files) {
                Err(message) => Err(message),
                Ok(logfile) => match (files.resolve)(paths.compiler) {
                    Err(error) => Err(failure(Stage::ResolveCompiler, paths.compiler, error)),
                    Ok(compiler) => match resolved(Stage::ResolveSources, paths.sources, files) {
                        Err(message) => Err(message),
                        Ok(sources) => match resolved(Stage::ResolveHtml, paths.html, files) {
                            Err(message) => Err(message),
                            Ok(html) => Ok(Paths { working, logfile, compiler, sources, html }),
                        },
                    },
                },
            }
        },
    }
}

/// Asking to the end makes all paths absolute, or fails with the message of the
/// first path that cannot be made so.
pub proof fn asking_to_the_end_canonicalizes(paths: Paths, daemon: bool, files: Files)
    ensures
        run(Stage::ResolveWorkingDirectory, paths, daemon, files) == canonical(
            paths,
            daemon,
            files,
        ),
{
    reveal_with_fuel(run, 8);
}

/// A daemon always has a log file in the end.
pub proof fn daemons_have_a_logfile(paths: Paths, files: Files)
    ensures
        canonical(paths, true, files) matches Ok(end) ==> end.logfile is Some,
{
}

/// The paths do not all exist: the file system does not resolve one of them.
pub open spec fn lacks_a_path(paths: Paths, files: Files) -> bool {
    ||| (files.resolve)(paths.working) is Err
    ||| (files.resolve)(paths.compiler) is Err
    ||| paths.sources matches Some(p) && (files.resolve)(p) is Err
    ||| paths.html matches Some(p) && (files.resolve)(p) is Err
}

/// Canonicalization fails if any of the paths does not exist.
pub proof fn missing_paths_are_errors(paths: Paths, daemon: bool, files: Files)
    requires
        lacks_a_path(paths, files),
    ensures
        canonical(paths, daemon, files) is Err,
{
}

/// A path that was resolved resolves to itself, and a file that was created can be
/// created under its absolute path.
pub open spec fn is_settled(files: Files) -> bool {
    &&& forall|p: Seq<char>, q: Seq<char>|
        #[trigger] (files.resolve)(p) == Ok::<Seq<char>, Seq<char>>(q) ==> #[trigger] (
        files.resolve)(q) == Ok::<Seq<char>, Seq<char>>(q)
    &&& forall|p: Seq<char>, q: Seq<char>|
        #[trigger] (files.resolve)(p) == Ok::<Seq<char>, Seq<char>>(q) && (files.create_file)(p)
            is None ==> #[trigger] (files.create_file)(q) is None
}

/// Canonicalizing a canonical configuration changes nothing.
pub proof fn canonicalization_is_idempotent(paths: Paths, daemon: bool, files: Files)
    requires
        is_settled(files),
    ensures
        canonical(paths, daemon, files) matches Ok(end) ==> canonical(end, daemon, files) == Ok::<
            Paths,
            Seq<char>,
        >(end),
{
    if let Ok(end) = canonical(paths, daemon, files) {
        lemma_settled(files, paths.working, end.working);
        lemma_settled(files, paths.compiler, end.compiler);
        if let Some(p) = paths.sources {
            lemma_settled(files, p, end.sources->0);
        }
        if let Some(p) = paths.html {
            lemma_settled(files, p, end.html->0);
        }
        if let Some(p) = effective_logfile(Paths { working: end.working, ..paths }, daemon) {
            lemma_settled(files, p, end.logfile->0);
        }
        assert(canonical(end, daemon, files) == Ok::<Paths, Seq<char>>(end));
    }
}

proof fn lemma_settled(files: Files, p: Seq<char>, q: Seq<char>)
    requires
        is_settled(files),
        (files.resolve)(p) == Ok::<Seq<char>, Seq<char>>(q),
    ensures
        (files.resolve)(q) == Ok::<Seq<char>, Seq<char>>(q),
        (files.create_file)(p) is None ==> (files.create_file)(q) is None,
{
}

/// Canonicalization keeps absent paths absent, except for the log file of a daemon.
pub proof fn absent_paths_stay_absent(paths: Paths, daemon: bool, files: Files)
    ensures
        canonical(paths, daemon, files) matches Ok(end) ==> {
            &&& end.sources is None <==> paths.sources is None
            &&& end.html is None <==> paths.html is None
            &&& end.logfile is None <==> paths.logfile is None && !daemon
        },
{
}

/// The configuration has these paths, and agrees with another one on everything else.
pub open spec fn has_paths(
    config: ManagerConfig,
    given: ManagerConfig,
    working: Seq<char>,
    logfile: Option<Seq<char>>,
    compiler: Seq<char>,
    sources: Option<Seq<char>>,
    html: Option<Seq<char>>,
) -> bool {
    &&& config.working_directory@ == working
    &&& match (config.logfile, logfile) {
        (Some(a), Some(b)) => a@ == b,
        (None, None) => true,
        _ => false,
    }
    &&& config.sql_compiler_home@ == compiler
    &&& match (config.dbsp_override_path, sources) {
        (Some(a), Some(b)) => a@ == b,
        (None, None) => true,
        _ => false,
    }
    &&& match (config.static_html, html) {
        (Some(a), Some(b)) => a@ == b,
        (None, None) => true,
        _ => false,
    }
    &&& config.port == given.port
    &&& config.bind_address@ == given.bind_address@
    &&& config.debug == given.debug
    &&& config.unix_daemon == given.unix_daemon
    &&& config.db_connection_string@ == given.db_connection_string@
    &&& config.dump_openapi == given.dump_openapi
    &&& config.dev_mode == given.dev_mode
    &&& match (config.config_file, given.config_file) {
        (Some(a), Some(b)) => a@ == b@,
        (None, None) => true,
        _ => false,
    }
    &&& match (config.initial_sql, given.initial_sql) {
        (Some(a), Some(b)) => a@ == b@,
        (None, None) => true,
        _ => false,
    }
}

/// The file system is asked for the absolute path of a path.
pub open spec fn resolves(c: Canonicalization, path: Seq<char>) -> bool {
    forall|r: FileRequest| #[trigger]
        call_ensures(Canonicalization::request, (&c,), r) ==> (r matches FileRequest::Resolve(p)
            && p@ == path)
}

/// A failing request ends the conversion with a message about the path.
pub open spec fn complains(c: Canonicalization, complaint: Seq<char>, path: Seq<char>) -> bool {
    forall|p: Progress, e: String| #[trigger]
        call_ensures(Canonicalization::reply, (c, Err(e)), p) ==> (p matches Progress::Failed(text)
            && text@ == complaint + path + "': "@ + e@)
}

/// The directory of static content is resolved last.
pub open spec fn html_is_resolved(
    c: Canonicalization,
    given: ManagerConfig,
    working: Seq<char>,
    logfile: Option<Seq<char>>,
    compiler: Seq<char>,
    sources: Option<Seq<char>>,
) -> bool {
    given.static_html matches Some(path) && {
        &&& resolves(c, path@)
        &&& complains(c, "failed to access '"@, path@)
        &&& forall|p: Progress, found: String| #[trigger]
            call_ensures(Canonicalization::reply, (c, Ok(found)), p) ==> (p matches Progress::Done(
                config,
            ) && has_paths(config, given, working, logfile, compiler, sources, Some(found@)))
    }
}

/// What follows once the sources have been looked at: the static content, where there is any.
pub open spec fn goes_on_to_html(
    p: Progress,
    given: ManagerConfig,
    working: Seq<char>,
    logfile: Option<Seq<char>>,
    compiler: Seq<char>,
    sources: Option<Seq<char>>,
) -> bool {
    if given.static_html is Some {
        p matches Progress::Next(next) && html_is_resolved(
            next,
            given,
            working,
            logfile,
            compiler,
            sources,
        )
    } else {
        p matches Progress::Done(config) && has_paths(
            config,
            given,
            working,
            logfile,
            compiler,
            sources,
            None,
        )
    }
}

/// The override of the dependencies is resolved.
pub open spec fn sources_are_resolved(
    c: Canonicalization,
    given: ManagerConfig,
    working: Seq<char>,
    logfile: Option<Seq<char>>,
    compiler: Seq<char>,
) -> bool {
    given.dbsp_override_path matches Some(path) && {
        &&& resolves(c, path@)
        &&& complains(c, "failed to access dbsp override directory '"@, path@)
        &&& forall|p: Progress, found: String| #[trigger]
            call_ensures(Canonicalization::reply, (c, Ok(found)), p) ==> goes_on_to_html(
                p,
                given,
                working,
                logfile,
                compiler,
                Some(found@),
            )
    }
}

/// The home of the compiler is resolved, and then the optional directories that there are.
pub open spec fn compiler_is_resolved(
    c: Canonicalization,
    given: ManagerConfig,
    working: Seq<char>,
    logfile: Option<Seq<char>>,
) -> bool {
    &&& resolves(c, given.sql_compiler_home@)
    &&& complains(c, "failed to access SQL compiler home '"@, given.sql_compiler_home@)
    &&& forall|p: Progress, found: String| #[trigger]
        call_ensures(Canonicalization::reply, (c, Ok(found)), p) ==> if given.dbsp_override_path
            is Some {
            p matches Progress::Next(next) && sources_are_resolved(
                next,
                given,
                working,
                logfile,
                found@,
            )
        } else {
            goes_on_to_html(p, given, working, logfile, found@, None)
        }
}

/// The log file is created, and then resolved.
pub open spec fn logfile_is_created(
    c: Canonicalization,
    given: ManagerConfig,
    working: Seq<char>,
    path: Seq<char>,
) -> bool {
    &&& forall|r: FileRequest| #[trigger]
        call_ensures(Canonicalization::request, (&c,), r) ==> (r matches FileRequest::CreateFile(p)
            && p@ == path)
    &&& complains(c, "unable to create or truncate log file '"@, path)
    &&& forall|p: Progress, done: String| #[trigger]
        call_ensures(Canonicalization::reply, (c, Ok(done)), p) ==> (p matches Progress::Next(next)
            && {
            &&& resolves(next, path)
            &&& complains(next, "error canonicalizing log file path '"@, path)
            &&& forall|q: Progress, found: String| #[trigger]
                call_ensures(Canonicalization::reply, (next, Ok(found)), q) ==> (q matches
                    Progress::Next(last) && compiler_is_resolved(
                    last,
                    given,
                    working,
                    Some(found@),
                ))
        })
}

/// The working directory is opened under its absolute path.  A daemon without a log file gets
/// one there.
pub open spec fn working_directory_is_opened(
    c: Canonicalization,
    given: ManagerConfig,
    working: Seq<char>,
) -> bool {
    &&& forall|r: FileRequest| #[trigger]
        call_ensures(Canonicalization::request, (&c,), r) ==> (r matches
            FileRequest::CreateDirectories(p) && p@ == working)
    &&& complains(c, "unable to create or open working directry '"@, working)
    &&& forall|p: Progress, done: String| #[trigger]
        call_ensures(Canonicalization::reply, (c, Ok(done)), p) ==> (p matches Progress::Next(next)
            && match given.logfile {
            Some(path) => logfile_is_created(next, given, working, path@),
            None => if given.unix_daemon {
                logfile_is_created(next, given, working, working + "/manager.log"@)
            } else {
                compiler_is_resolved(next, given, working, None)
            },
        })
}

/// The configuration so far, as the file system has answered.
spec fn so_far(
    c: Canonicalization,
    given: ManagerConfig,
    stage: Stage,
    paths: Paths,
) -> bool {
    c.wf() && c.stage() == stage && paths_of(c.settings()) == paths && same_settings(
        c.settings(),
        given,
    )
}

proof fn lemma_html(c: Canonicalization, given: ManagerConfig, paths: Paths)
    requires
        so_far(c, given, Stage::ResolveHtml, paths),
        paths.html == chars(given.static_html),
    ensures
        html_is_resolved(c, given, paths.working, paths.logfile, paths.compiler, paths.sources),
{
}

proof fn lemma_sources(c: Canonicalization, given: ManagerConfig, paths: Paths)
    requires
        so_far(c, given, Stage::ResolveSources, paths),
        paths.html == chars(given.static_html),
        paths.sources == chars(given.dbsp_override_path),
    ensures
        sources_are_resolved(c, given, paths.working, paths.logfile, paths.compiler),
{
    assert forall|p: Progress, found: String| #[trigger]
        call_ensures(Canonicalization::reply, (c, Ok(found)), p) implies goes_on_to_html(
        p,
        given,
        paths.working,
        paths.logfile,
        paths.compiler,
        Some(found@),
    ) by {
        if let Progress::Next(next) = p {
            lemma_html(next, given, Paths { sources: Some(found@), ..paths });
        }
    }
}

proof fn lemma_compiler(c: Canonicalization, given: ManagerConfig, paths: Paths)
    requires
        so_far(c, given, Stage::ResolveCompiler, paths),
        paths.compiler == given.sql_compiler_home@,
        paths.html == chars(given.static_html),
        paths.sources == chars(given.dbsp_override_path),
    ensures
        compiler_is_resolved(c, given, paths.working, paths.logfile),
{
    assert forall|p: Progress, found: String| #[trigger]
        call_ensures(
            Canonicalization::reply,
            (c, Ok(found)),
            p,
        ) implies if given.dbsp_override_path is Some {
        p matches Progress::Next(next) && sources_are_resolved(
            next,
            given,
            paths.working,
            paths.logfile,
            found@,
        )
    } else {
        goes_on_to_html(p, given, paths.working, paths.logfile, found@, None)
    } by {
        if let Progress::Next(next) = p {
            let now = Paths { compiler: found@, ..paths };
            if given.dbsp_override_path is Some {
                lemma_sources(next, given, now);
            } else {
                lemma_html(next, given, now);
            }
        }
    }
}

proof fn lemma_logfile(c: Canonicalization, given: ManagerConfig, paths: Paths, path: Seq<char>)
    requires
        so_far(c, given, Stage::CreateLogfile, paths),
        paths.logfile == Some(path),
        paths.compiler == given.sql_compiler_home@,
        paths.html == chars(given.static_html),
        paths.sources == chars(given.dbsp_override_path),
    ensures
        logfile_is_created(c, given, paths.working, path),
{
    assert forall|p: Progress, done: String| #[trigger]
        call_ensures(Canonicalization::reply, (c, Ok(done)), p) implies (p matches Progress::Next(
        next,
    ) && {
        &&& resolves(next, path)
        &&& complains(next, "error canonicalizing log file path '"@, path)
        &&& forall|q: Progress, found: String| #[trigger]
            call_ensures(Canonicalization::reply, (next, Ok(found)), q) ==> (q matches
                Progress::Next(last) && compiler_is_resolved(
                last,
                given,
                paths.working,
                Some(found@),
            ))
    }) by {
        let next = p->Next_0;
        assert forall|q: Progress, found: String| #[trigger]
            call_ensures(Canonicalization::reply, (next, Ok(found)), q) implies (q matches
            Progress::Next(last) && compiler_is_resolved(
            last,
            given,
            paths.working,
            Some(found@),
        )) by {
            lemma_compiler(q->Next_0, given, Paths { logfile: Some(found@), ..paths });
        }
    }
}

/// The working directory is resolved first, then opened, then the log file is created and
/// resolved where there is one, then the home of the compiler, the override of the
/// dependencies and the directory of static content are resolved, as far as they are given.
/// In the end each path is what the file system found for it and nothing else has changed;
/// the first request that fails ends the conversion with a message about its path.
pub proof fn all_paths_become_absolute(given: ManagerConfig, c: Canonicalization)
    requires
        call_ensures(ManagerConfig::canonicalize, (given,), c),
    ensures
        resolves(c, given.working_directory@),
        complains(c, "error canonicalizing working directory path '"@, given.working_directory@),
        forall|p: Progress, found: String| #[trigger]
            call_ensures(Canonicalization::reply, (c, Ok(found)), p) ==> (p matches Progress::Next(
                next,
            ) && working_directory_is_opened(next, given, found@)),
{
    let paths = paths_of(given);
    assert forall|p: Progress, found: String| #[trigger]
        call_ensures(Canonicalization::reply, (c, Ok(found)), p) implies (p matches Progress::Next(
        next,
    ) && working_directory_is_opened(next, given, found@)) by {
        let next = p->Next_0;
        let now = Paths { working: found@, ..paths };
        assert forall|q: Progress, done: String| #[trigger]
            call_ensures(Canonicalization::reply, (next, Ok(done)), q) implies (q matches
            Progress::Next(last) && match given.logfile {
            Some(path) => logfile_is_created(last, given, found@, path@),
            None => if given.unix_daemon {
                logfile_is_created(last, given, found@, found@ + "/manager.log"@)
            } else {
                compiler_is_resolved(last, given, found@, None)
            },
        }) by {
            let last = q->Next_0;
            if let Some(path) = given.logfile {
                lemma_logfile(last, given, now, path@);
            } else if given.unix_daemon {
                let path = found@ + "/manager.log"@;
                lemma_logfile(last, given, Paths { logfile: Some(path), ..now }, path);
            } else {
                lemma_compiler(last, given, now);
            }
        }
    }
}

} // verus!
