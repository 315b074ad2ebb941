//! Pipeline manager configuration.

use crate::pipeline_manager::ids::{different_ids_differ_in_text, PipelineId, ProjectId};
use crate::text::{cat2, cat3, chars_of};
use vstd::prelude::*;

verus! {

/// The file in its directory to which a pipeline writes the port it listens to.
pub const SERVER_PORT_FILE: &'static str = "port";

/// The default port of the HTTP service.
pub fn default_server_port() -> (r: u16)
    ensures
        r == 8080,
{
    8080
}

/// The default address of the HTTP service.
pub fn default_server_address() -> (r: String)
    ensures
        r@ == "127.0.0.1"@,
{
    "127.0.0.1".to_owned()
}

/// The default working directory.
pub fn default_working_directory() -> (r: String)
    ensures
        r@ == "."@,
{
    ".".to_owned()
}

/// The default location of the SQL compiler.
pub fn default_sql_compiler_home() -> (r: String)
    ensures
        r@ == "../sql-to-dbsp-compiler"@,
{
    "../sql-to-dbsp-compiler".to_owned()
}

/// The default connection string: none.
pub fn default_db_connection_string() -> (r: String)
    ensures
        r@ == ""@,
{
    "".to_owned()
}

/// The path of `part` below the directory `base`.
pub open spec fn joined(base: Seq<char>, part: Seq<char>) -> Seq<char> {
    if base.len() == 0 || base.last() == '/' {
        base + part
    } else {
        base + "/"@ + part
    }
}

/// Joins a directory and the relative path `part`.
fn join(base: &str, part: &str) -> (r: String)
    ensures
        r@ == joined(base@, part@),
{
    let chars = chars_of(base);
    if chars.len() == 0 || chars[chars.len() - 1] == '/' {
        cat2(base, part)
    } else {
        cat3(base, "/", part)
    }
}

/// Pipeline manager configuration read from a YAML config file or from command
/// line arguments.
#[derive(Debug, Clone)]
pub struct ManagerConfig {
    /// Port number for the HTTP service.
    pub port: u16,
    /// Bind address for the HTTP service.
    pub bind_address: String,
    /// File to write manager logs to.
    pub logfile: Option<String>,
    /// Directory where the manager stores its filesystem state: generated Rust
    /// crates, pipeline logs, etc.
    pub working_directory: String,
    /// Location of the SQL-to-DBSP compiler.
    pub sql_compiler_home: String,
    /// Source tree to take the dependencies of generated Rust crates from.
    pub dbsp_override_path: Option<String>,
    /// Compile pipelines in debug mode.
    pub debug: bool,
    /// Run as a UNIX daemon (detach from terminal).
    pub unix_daemon: bool,
    /// The relational database to use for state management:
    /// `postgres://<host>:<port>` or `postgres-embed`.
    pub db_connection_string: String,
    /// Directory to serve static content from.
    pub static_html: Option<String>,
    /// Dump the OpenAPI description and exit.
    pub dump_openapi: bool,
    /// Server configuration YAML file.
    pub config_file: Option<String>,
    /// SQL file to inject into the database when the manager starts.
    pub initial_sql: Option<String>,
    /// Run in development mode.
    pub dev_mode: bool,
}

/// Whether `text` starts with `prefix`.
pub open spec fn starts_with(text: Seq<char>, prefix: Seq<char>) -> bool {
    prefix.len() <= text.len() && text.take(prefix.len() as int) == prefix
}

/// The name of the crate of a project.
pub open spec fn crate_name_of(project: ProjectId) -> Seq<char> {
    "project"@ + project.text()
}

impl ManagerConfig {
    /// The directory of the generated cargo workspace.
    pub open spec fn workspace(&self) -> Seq<char> {
        joined(self.working_directory@, "cargo_workspace"@)
    }

    /// The directory of the crate of a project.
    pub open spec fn project(&self, project: ProjectId) -> Seq<char> {
        joined(self.workspace(), crate_name_of(project))
    }

    /// The directory of a pipeline.
    pub open spec fn pipeline(&self, pipeline: PipelineId) -> Seq<char> {
        joined(joined(self.working_directory@, "pipelines"@), "pipeline"@ + pipeline.text())
    }

    /// Crate name for a project.
    ///
    /// The name comes from the project id, not from its name, so projects can be
    /// renamed without recompiling.
    pub fn crate_name(project_id: ProjectId) -> (r: String)
        ensures
            r@ == crate_name_of(project_id),
    {
        let id = project_id.to_text();
        cat2("project", id.as_str())
    }

    /// Directory where the manager maintains the generated cargo workspace.
    pub fn workspace_dir(&self) -> (r: String)
        ensures
            r@ == self.workspace(),
    {
        join(self.working_directory.as_str(), "cargo_workspace")
    }

    /// Where Postgres embed stores the database.
    pub fn postgres_embed_data_dir(&self) -> (r: String)
        ensures
            r@ == joined(self.working_directory@, "data"@),
    {
        join(self.working_directory.as_str(), "data")
    }

    /// Manager pid file.
    pub fn manager_pid_file_path(&self) -> (r: String)
        ensures
            r@ == joined(self.working_directory@, "manager.pid"@),
    {
        join(self.working_directory.as_str(), "manager.pid")
    }

    /// Whether the connection string names a database that can be used:
    /// `postgres://` and `postgres-embed` do.
    pub fn has_valid_connection_string(&self) -> (r: bool)
        ensures
            r == starts_with(self.db_connection_string@, "postgres"@),
    {
        let text = chars_of(self.db_connection_string.as_str());
        let prefix = chars_of("postgres");
        if text.len() < prefix.len() {
            return false;
        }
        let mut i: usize = 0;
        while i < prefix.len()
            invariant
                i <= prefix@.len() <= text@.len(),
                text@ == self.db_connection_string@,
                prefix@ == "postgres"@,
                text@.take(i as int) =~= prefix@.take(i as int),
            decreases prefix@.len() - i,
        {
            if text[i] != prefix[i] {
                assert(text@.take(prefix@.len() as int)[i as int] != prefix@[i as int]);
                return false;
            }
            i += 1;
        }
        assert(prefix@.take(prefix@.len() as int) =~= prefix@);
        true
    }

    /// Database connection string.
    pub fn database_connection_string(&self) -> (r: String)
        requires
            starts_with(self.db_connection_string@, "postgres"@),
        ensures
            r@ == self.db_connection_string@,
    {
        self.db_connection_string.clone()
    }

    /// Directory where the manager generates Rust crate for the project.
    pub fn project_dir(&self, project_id: ProjectId) -> (r: String)
        ensures
            r@ == self.project(project_id),
    {
        join(self.workspace_dir().as_str(), Self::crate_name(project_id).as_str())
    }

    /// File name where the manager stores the SQL code of the project.
    pub fn sql_file_path(&self, project_id: ProjectId) -> (r: String)
        ensures
            r@ == joined(self.project(project_id), "project.sql"@),
    {
        join(self.project_dir(project_id).as_str(), "project.sql")
    }

    /// SQL compiler executable.
    pub fn sql_compiler_path(&self) -> (r: String)
        ensures
            r@ == joined(joined(self.sql_compiler_home@, "SQL-compiler"@), "sql-to-dbsp"@),
    {
        join(join(self.sql_compiler_home.as_str(), "SQL-compiler").as_str(), "sql-to-dbsp")
    }

    /// Location of the Rust libraries that ship with the SQL compiler.
    pub fn sql_lib_path(&self) -> (r: String)
        ensures
            r@ == joined(self.sql_compiler_home@, "lib"@),
    {
        join(self.sql_compiler_home.as_str(), "lib")
    }

    /// File to redirect compiler's stderr stream.
    pub fn compiler_stderr_path(&self, project_id: ProjectId) -> (r: String)
        ensures
            r@ == joined(self.project(project_id), "err.log"@),
    {
        join(self.project_dir(project_id).as_str(), "err.log")
    }

    /// File to redirect compiler's stdout stream.
    pub fn compiler_stdout_path(&self, project_id: ProjectId) -> (r: String)
        ensures
            r@ == joined(self.project(project_id), "out.log"@),
    {
        join(self.project_dir(project_id).as_str(), "out.log")
    }

    /// Path to the generated `main.rs` for the project.
    pub fn rust_program_path(&self, project_id: ProjectId) -> (r: String)
        ensures
            r@ == joined(joined(self.project(project_id), "src"@), "main.rs"@),
    {
        join(join(self.project_dir(project_id).as_str(), "src").as_str(), "main.rs")
    }

    /// Location of the template `Cargo.toml` file that ships with the SQL
    /// compiler.
    pub fn project_toml_template_path(&self) -> (r: String)
        ensures
            r@ == joined(joined(self.sql_compiler_home@, "temp"@), "Cargo.toml"@),
    {
        join(join(self.sql_compiler_home.as_str(), "temp").as_str(), "Cargo.toml")
    }

    /// Path to the generated `Cargo.toml` file for the project.
    pub fn project_toml_path(&self, project_id: ProjectId) -> (r: String)
        ensures
            r@ == joined(self.project(project_id), "Cargo.toml"@),
    {
        join(self.project_dir(project_id).as_str(), "Cargo.toml")
    }

    /// Top-level `Cargo.toml` file for the generated Rust workspace.
    pub fn workspace_toml_path(&self) -> (r: String)
        ensures
            r@ == joined(self.workspace(), "Cargo.toml"@),
    {
        join(self.workspace_dir().as_str(), "Cargo.toml")
    }

    /// Location of the compiled executable for the project.
    pub fn project_executable(&self, project_id: ProjectId) -> (r: String)
        ensures
            r@ == joined(
                joined(
                    joined(self.workspace(), "target"@),
                    if self.debug {
                        "debug"@
                    } else {
                        "release"@
                    },
                ),
                crate_name_of(project_id),
            ),
    {
        let target = join(self.workspace_dir().as_str(), "target");
        let profile = if self.debug {
            "debug"
        } else {
            "release"
        };
        join(join(target.as_str(), profile).as_str(), Self::crate_name(project_id).as_str())
    }

    /// Location to store pipeline files at runtime.
    pub fn pipeline_dir(&self, pipeline_id: PipelineId) -> (r: String)
        ensures
            r@ == self.pipeline(pipeline_id),
    {
        let id = pipeline_id.to_text();
        let name = cat2("pipeline", id.as_str());
        join(join(self.working_directory.as_str(), "pipelines").as_str(), name.as_str())
    }

    /// Location to write the pipeline config file.
    pub fn config_file_path(&self, pipeline_id: PipelineId) -> (r: String)
        ensures
            r@ == joined(self.pipeline(pipeline_id), "config.yaml"@),
    {
        join(self.pipeline_dir(pipeline_id).as_str(), "config.yaml")
    }

    /// Location to write the pipeline metadata file.
    pub fn metadata_file_path(&self, pipeline_id: PipelineId) -> (r: String)
        ensures
            r@ == joined(self.pipeline(pipeline_id), "metadata.json"@),
    {
        join(self.pipeline_dir(pipeline_id).as_str(), "metadata.json")
    }

    /// Location for pipeline port file.
    pub fn port_file_path(&self, pipeline_id: PipelineId) -> (r: String)
        ensures
            r@ == joined(self.pipeline(pipeline_id), "port"@),
    {
        join(self.pipeline_dir(pipeline_id).as_str(), SERVER_PORT_FILE)
    }

    /// The path to `schema.json` that contains a JSON description of input and
    /// output tables: it stands beside the SQL code of the project.
    pub fn schema_path(&self, project_id: ProjectId) -> (r: String)
        ensures
            r@ == joined(self.project(project_id), "schema.json"@),
    {
        join(self.project_dir(project_id).as_str(), "schema.json")
    }
}

proof fn lemma_joined_differ(base: Seq<char>, a: Seq<char>, b: Seq<char>)
    requires
        a != b,
    ensures
        joined(base, a) != joined(base, b),
{
    let front = if base.len() == 0 || base.last() == '/' {
        base
    } else {
        base + "/"@
    };
    assert(joined(base, a) =~= front + a);
    assert(joined(base, b) =~= front + b);
    if joined(base, a) == joined(base, b) {
        assert(a =~= (front + a).skip(front.len() as int));
        assert(b =~= (front + b).skip(front.len() as int));
    }
}

/// Different projects have different crate names, and their crates are generated
/// in different directories.
pub proof fn projects_do_not_share_files(config: ManagerConfig, a: ProjectId, b: ProjectId)
    requires
        a != b,
    ensures
        crate_name_of(a) != crate_name_of(b),
        config.project(a) != config.project(b),
{
    different_ids_differ_in_text(a.0, b.0);
    if crate_name_of(a) == crate_name_of(b) {
        let n = "project"@.len() as int;
        assert(a.text() =~= crate_name_of(a).skip(n));
        assert(b.text() =~= crate_name_of(b).skip(n));
    }
    lemma_joined_differ(config.workspace(), crate_name_of(a), crate_name_of(b));
}

/// Different pipelines keep their files in different directories.
pub proof fn pipelines_do_not_share_files(config: ManagerConfig, a: PipelineId, b: PipelineId)
    requires
        a != b,
    ensures
        config.pipeline(a) != config.pipeline(b),
{
    different_ids_differ_in_text(a.0, b.0);
    let x = "pipeline"@ + a.text();
    let y = "pipeline"@ + b.text();
    if x == y {
        let n = "pipeline"@.len() as int;
        assert(a.text() =~= x.skip(n));
        assert(b.text() =~= y.skip(n));
    }
    lemma_joined_differ(joined(config.working_directory@, "pipelines"@), x, y);
}

/// The path of `name` in a directory: a slash stands between them, unless the directory ends
/// in one or is the current one.
pub open spec fn below(directory: Seq<char>, name: Seq<char>) -> Seq<char> {
    directory + (if directory.len() > 0 && directory.last() != '/' {
        seq!['/']
    } else {
        Seq::empty()
    }) + name
}

proof fn lemma_joined_below()
    ensures
        forall|directory: Seq<char>, name: Seq<char>| #[trigger]
            joined(directory, name) == below(directory, name),
{
    reveal_strlit("/");
    assert forall|directory: Seq<char>, name: Seq<char>| #[trigger]
        joined(directory, name) == below(directory, name) by {
        assert(joined(directory, name) =~= below(directory, name));
    }
}

/// The files of the manager lie in its working directory, or in a directory there, under
/// their own names.
pub proof fn manager_files_lie_in_the_working_directory(config: ManagerConfig, r: String)
    ensures
        call_ensures(ManagerConfig::workspace_dir, (&config,), r) ==> r@ == below(config.working_directory@, "cargo_workspace"@),
        call_ensures(ManagerConfig::postgres_embed_data_dir, (&config,), r) ==> r@ == below(config.working_directory@, "data"@),
        call_ensures(ManagerConfig::manager_pid_file_path, (&config,), r) ==> r@ == below(config.working_directory@, "manager.pid"@),
        call_ensures(ManagerConfig::workspace_toml_path, (&config,), r) ==> r@ == below(below(config.working_directory@, "cargo_workspace"@), "Cargo.toml"@),
{
    lemma_joined_below();
}

/// The files of the compiler lie in its home.
pub proof fn compiler_files_lie_in_its_home(config: ManagerConfig, r: String)
    ensures
        call_ensures(ManagerConfig::sql_compiler_path, (&config,), r) ==> r@ == below(below(config.sql_compiler_home@, "SQL-compiler"@), "sql-to-dbsp"@),
        call_ensures(ManagerConfig::sql_lib_path, (&config,), r) ==> r@ == below(config.sql_compiler_home@, "lib"@),
        call_ensures(ManagerConfig::project_toml_template_path, (&config,), r) ==> r@ == below(below(config.sql_compiler_home@, "temp"@), "Cargo.toml"@),
{
    lemma_joined_below();
}

/// The crate of a project is named after its identifier, and generated in a directory of that
/// name in the workspace.  The files of the project lie there, and its executable in the
/// directory for the profile.
pub proof fn project_files_lie_in_its_crate(
    config: ManagerConfig,
    project: ProjectId,
    id: String,
    workspace: String,
    r: String,
)
    requires
        call_ensures(ProjectId::to_text, (project,), id),
        call_ensures(ManagerConfig::workspace_dir, (&config,), workspace),
    ensures
        call_ensures(ManagerConfig::crate_name, (project,), r) ==> r@ == "project"@ + id@,
        call_ensures(ManagerConfig::project_dir, (&config, project), r) ==> r@ == below(workspace@, "project"@ + id@),
        call_ensures(ManagerConfig::sql_file_path, (&config, project), r) ==> r@ == below(below(workspace@, "project"@ + id@), "project.sql"@),
        call_ensures(ManagerConfig::compiler_stderr_path, (&config, project), r) ==> r@ == below(below(workspace@, "project"@ + id@), "err.log"@),
        call_ensures(ManagerConfig::compiler_stdout_path, (&config, project), r) ==> r@ == below(below(workspace@, "project"@ + id@), "out.log"@),
        call_ensures(ManagerConfig::project_toml_path, (&config, project), r) ==> r@ == below(below(workspace@, "project"@ + id@), "Cargo.toml"@),
        call_ensures(ManagerConfig::schema_path, (&config, project), r) ==> r@ == below(below(workspace@, "project"@ + id@), "schema.json"@),
        call_ensures(ManagerConfig::rust_program_path, (&config, project), r) ==> r@ == below(below(below(workspace@, "project"@ + id@), "src"@), "main.rs"@),
        call_ensures(ManagerConfig::project_executable, (&config, project), r) ==> r@ == below(below(below(workspace@, "target"@), if config.debug {
            "debug"@
        } else {
            "release"@
        }), "project"@ + id@),
{
    lemma_joined_below();
}

/// The directory of a pipeline is named after its identifier, and the files of the pipeline
/// lie there.
pub proof fn pipeline_files_lie_in_its_directory(
    config: ManagerConfig,
    pipeline: PipelineId,
    id: String,
    directory: String,
    r: String,
)
    requires
        call_ensures(PipelineId::to_text, (pipeline,), id),
        call_ensures(ManagerConfig::pipeline_dir, (&config, pipeline), directory),
    ensures
        directory@ == below(below(config.working_directory@, "pipelines"@), "pipeline"@ + id@),
        call_ensures(ManagerConfig::config_file_path, (&config, pipeline), r) ==> r@ == below(directory@, "config.yaml"@),
        call_ensures(ManagerConfig::metadata_file_path, (&config, pipeline), r) ==> r@ == below(directory@, "metadata.json"@),
        call_ensures(ManagerConfig::port_file_path, (&config, pipeline), r) ==> r@ == below(directory@, "port"@),
{
    lemma_joined_below();
}

/// A connection string can be used exactly where it starts with `postgres`, and is then used as
/// it is.
pub proof fn databases_are_postgres(config: ManagerConfig, valid: bool, r: String)
    ensures
        call_ensures(ManagerConfig::has_valid_connection_string, (&config,), valid) ==> (valid
            <==> exists|rest: Seq<char>| #[trigger]
            ("postgres"@ + rest) == config.db_connection_string@),
        call_ensures(ManagerConfig::database_connection_string, (&config,), r) ==> r@
            == config.db_connection_string@,
{
    reveal_strlit("postgres");
    let text = config.db_connection_string@;
    if starts_with(text, "postgres"@) {
        assert("postgres"@ + text.skip(8) =~= text);
    }
    if exists|rest: Seq<char>| #[trigger] ("postgres"@ + rest) == text {
        let rest = choose|rest: Seq<char>| #[trigger] ("postgres"@ + rest) == text;
        assert(text.take(8) =~= "postgres"@);
    }
}

/// What is not configured: the service listens to port 8080 of this machine, works in the
/// current directory, and looks for the compiler beside it; there is no database.
pub proof fn defaults_are_local(port: u16, r: String)
    ensures
        call_ensures(default_server_port, (), port) ==> port == 8080,
        call_ensures(default_server_address, (), r) ==> r@ == "127.0.0.1"@,
        call_ensures(default_working_directory, (), r) ==> r@ == "."@,
        call_ensures(default_sql_compiler_home, (), r) ==> r@ == "../sql-to-dbsp-compiler"@,
        call_ensures(default_db_connection_string, (), r) ==> r@.len() == 0,
{
    reveal_strlit("");
}

} // verus!
