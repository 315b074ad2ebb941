use dbsp::pipeline_manager::canonicalize::{Canonicalization, FileRequest, Progress};
use dbsp::pipeline_manager::config::{
    default_db_connection_string, default_server_address, default_server_port,
    default_sql_compiler_home, default_working_directory, ManagerConfig, SERVER_PORT_FILE,
};
use dbsp::pipeline_manager::ids::{random_id, revision_bits, show_id, PipelineId, ProjectId};

fn config() -> ManagerConfig {
    ManagerConfig {
        port: default_server_port(),
        bind_address: default_server_address(),
        logfile: None,
        working_directory: "/work".to_string(),
        sql_compiler_home: "/sql".to_string(),
        dbsp_override_path: None,
        debug: false,
        unix_daemon: false,
        db_connection_string: default_db_connection_string(),
        static_html: None,
        dump_openapi: false,
        config_file: None,
        initial_sql: None,
        dev_mode: false,
    }
}

const PROJECT: ProjectId = ProjectId(0x0123456789abcdef0011223344556677);
const PIPELINE: PipelineId = PipelineId(1);

#[test]
fn defaults() {
    assert_eq!(8080, default_server_port());
    assert_eq!("127.0.0.1", default_server_address());
    assert_eq!(".", default_working_directory());
    assert_eq!("../sql-to-dbsp-compiler", default_sql_compiler_home());
    assert_eq!("", default_db_connection_string());
    assert_eq!("port", SERVER_PORT_FILE);
}

#[test]
fn identifiers_are_shown_in_groups() {
    assert_eq!("01234567-89ab-cdef-0011-223344556677", PROJECT.to_text());
    assert_eq!("00000000-0000-0000-0000-000000000001", PIPELINE.to_text());
    assert_eq!("ffffffff-ffff-ffff-ffff-ffffffffffff", show_id(u128::MAX));
    assert_eq!(uuid::Uuid::from_u128(PROJECT.0).to_string(), show_id(PROJECT.0));
    let id = random_id();
    assert_eq!(36, id.len());
    assert_eq!(Some(4), uuid::Uuid::parse_str(&id).map(|u| u.get_version_num()).ok());
    assert_ne!(id, random_id());
    assert_eq!(7, uuid::Uuid::from_u128(revision_bits()).get_version_num());
}

#[test]
fn project_paths() {
    let c = config();
    let dir = "/work/cargo_workspace/project01234567-89ab-cdef-0011-223344556677";
    assert_eq!("project01234567-89ab-cdef-0011-223344556677", ManagerConfig::crate_name(PROJECT));
    assert_eq!("/work/cargo_workspace", c.workspace_dir());
    assert_eq!("/work/data", c.postgres_embed_data_dir());
    assert_eq!("/work/manager.pid", c.manager_pid_file_path());
    assert_eq!(dir, c.project_dir(PROJECT));
    assert_eq!(format!("{dir}/project.sql"), c.sql_file_path(PROJECT));
    assert_eq!(format!("{dir}/err.log"), c.compiler_stderr_path(PROJECT));
    assert_eq!(format!("{dir}/out.log"), c.compiler_stdout_path(PROJECT));
    assert_eq!(format!("{dir}/src/main.rs"), c.rust_program_path(PROJECT));
    assert_eq!(format!("{dir}/Cargo.toml"), c.project_toml_path(PROJECT));
    assert_eq!(format!("{dir}/schema.json"), c.schema_path(PROJECT));
    assert_eq!("/work/cargo_workspace/Cargo.toml", c.workspace_toml_path());
    assert_eq!("/sql/SQL-compiler/sql-to-dbsp", c.sql_compiler_path());
    assert_eq!("/sql/lib", c.sql_lib_path());
    assert_eq!("/sql/temp/Cargo.toml", c.project_toml_template_path());
    assert_eq!(
        "/work/cargo_workspace/target/release/project01234567-89ab-cdef-0011-223344556677",
        c.project_executable(PROJECT)
    );
    let debug = ManagerConfig { debug: true, ..config() };
    assert_eq!(
        "/work/cargo_workspace/target/debug/project01234567-89ab-cdef-0011-223344556677",
        debug.project_executable(PROJECT)
    );
    assert_ne!(c.project_dir(PROJECT), c.project_dir(ProjectId(2)));
}

#[test]
fn pipeline_paths() {
    let c = config();
    let dir = "/work/pipelines/pipeline00000000-0000-0000-0000-000000000001";
    assert_eq!(dir, c.pipeline_dir(PIPELINE));
    assert_eq!(format!("{dir}/config.yaml"), c.config_file_path(PIPELINE));
    assert_eq!(format!("{dir}/metadata.json"), c.metadata_file_path(PIPELINE));
    assert_eq!(format!("{dir}/port"), c.port_file_path(PIPELINE));
    assert_ne!(c.pipeline_dir(PIPELINE), c.pipeline_dir(PipelineId(2)));
}

#[test]
fn paths_are_joined_like_std_paths() {
    for base in ["", "/", "a", "a/", "/a/b", "."] {
        let c = ManagerConfig { working_directory: base.to_string(), ..config() };
        let expected = std::path::Path::new(base).join("data").display().to_string();
        assert_eq!(expected, c.postgres_embed_data_dir());
        let expected = std::path::Path::new(base)
            .join("pipelines")
            .join("pipeline00000000-0000-0000-0000-000000000001")
            .join("port")
            .display()
            .to_string();
        assert_eq!(expected, c.port_file_path(PIPELINE));
    }
}

#[test]
fn connection_strings() {
    for (text, valid) in [
        ("postgres://localhost:5432", true),
        ("postgres-embed", true),
        ("postgres", true),
        ("", false),
        ("postgre", false),
        ("mysql://postgres", false),
    ] {
        let c = ManagerConfig { db_connection_string: text.to_string(), ..config() };
        assert_eq!(valid, c.has_valid_connection_string());
        if valid {
            assert_eq!(text, c.database_connection_string());
        }
    }
}

/// Runs a canonicalization in a file system where resolving puts a path under
/// `/root` and the requests in `broken` fail.
fn run(config: ManagerConfig, broken: &str) -> (Vec<String>, Result<ManagerConfig, String>) {
    let mut asked = vec![];
    let mut current: Canonicalization = config.canonicalize();
    loop {
        let (line, answer) = match current.request() {
            FileRequest::CreateDirectories(path) => (format!("mkdir {path}"), String::new()),
            FileRequest::Resolve(path) => {
                let found = if path.starts_with('/') { path.clone() } else { format!("/root/{path}") };
                (format!("resolve {path}"), found)
            }
            FileRequest::CreateFile(path) => (format!("create {path}"), String::new()),
        };
        asked.push(line.clone());
        let answer = if line == broken { Err("no".to_string()) } else { Ok(answer) };
        match current.reply(answer) {
            Progress::Next(next) => current = next,
            Progress::Done(config) => return (asked, Ok(config)),
            Progress::Failed(message) => return (asked, Err(message)),
        }
    }
}

fn full() -> ManagerConfig {
    ManagerConfig {
        working_directory: "w".to_string(),
        logfile: Some("l".to_string()),
        sql_compiler_home: "s".to_string(),
        dbsp_override_path: Some("d".to_string()),
        static_html: Some("h".to_string()),
        ..config()
    }
}

#[test]
fn all_paths_are_made_absolute() {
    let (asked, result) = run(full(), "");
    assert_eq!(
        vec!["resolve w", "mkdir /root/w", "create l", "resolve l", "resolve s", "resolve d", "resolve h"],
        asked
    );
    let c = result.unwrap();
    assert_eq!("/root/w", c.working_directory);
    assert_eq!(Some("/root/l".to_string()), c.logfile);
    assert_eq!("/root/s", c.sql_compiler_home);
    assert_eq!(Some("/root/d".to_string()), c.dbsp_override_path);
    assert_eq!(Some("/root/h".to_string()), c.static_html);
    assert_eq!(8080, c.port);
}

#[test]
fn absent_paths_are_passed_over() {
    let c = ManagerConfig { logfile: None, dbsp_override_path: None, static_html: None, ..full() };
    let (asked, result) = run(c, "");
    assert_eq!(vec!["resolve w", "mkdir /root/w", "resolve s"], asked);
    assert_eq!(None, result.unwrap().logfile);
    let c = ManagerConfig { dbsp_override_path: None, ..full() };
    let (asked, _) = run(c, "");
    assert_eq!("resolve h", asked[5]);
}

#[test]
fn daemons_log_to_the_working_directory() {
    let c = ManagerConfig { logfile: None, unix_daemon: true, ..full() };
    let (asked, result) = run(c, "");
    assert_eq!("create /root/w/manager.log", asked[2]);
    assert_eq!(Some("/root/w/manager.log".to_string()), result.unwrap().logfile);
    let c = ManagerConfig { unix_daemon: true, ..full() };
    assert_eq!("create l", run(c, "").0[2]);
}

#[test]
fn the_first_failure_is_reported() {
    for (broken, message) in [
        ("resolve w", "error canonicalizing working directory path 'w': no"),
        ("mkdir /root/w", "unable to create or open working directry '/root/w': no"),
        ("create l", "unable to create or truncate log file 'l': no"),
        ("resolve l", "error canonicalizing log file path 'l': no"),
        ("resolve s", "failed to access SQL compiler home 's': no"),
        ("resolve d", "failed to access dbsp override directory 'd': no"),
        ("resolve h", "failed to access 'h': no"),
    ] {
        let (asked, result) = run(full(), broken);
        assert_eq!(broken, asked.last().unwrap());
        assert_eq!(message, result.unwrap_err());
    }
}

#[test]
fn canonical_configurations_stay_as_they_are() {
    for config in [full(), ManagerConfig { logfile: None, unix_daemon: true, ..full() }] {
        let once = run(config, "").1.unwrap();
        let twice = run(once.clone(), "").1.unwrap();
        assert_eq!(format!("{once:?}"), format!("{twice:?}"));
    }
}
