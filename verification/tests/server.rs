use dbsp::adapters::bootstrap::{
    parse_config, pipeline_label, undecodable, Bootstrap, BootstrapAction, BootstrapAnswer,
    BootstrapProgress,
};
use dbsp::adapters::endpoints::{
    check_egress, check_ingress, egress_endpoint, egress_endpoint_name, ingress_endpoint,
    ingress_endpoint_name,
    new_egress_endpoint_name, new_ingress_endpoint_name, Connection, ConnectionAction,
    ConnectionAnswer, ConnectionStage, EgressArgs, EgressMode, OutputQuery,
};
use dbsp::adapters::error::{ControllerError, PipelineError};
use dbsp::adapters::listen::{
    index_data, StartupAction, StartupAnswer, StartupProgress, StartupStage,
};
use dbsp::adapters::state::{
    missing_controller_error, Command, InitializationState, ServerState, Shutdown,
};

fn ready() -> ServerState {
    let mut state = ServerState::new(true);
    state.has_controller = true;
    state.has_metrics = true;
    state.initialization_state = InitializationState::InitializationComplete;
    state
}

#[test]
fn requests_need_a_controller() {
    let state = ServerState::new(false);
    assert!(matches!(state.start(), Err(PipelineError::Initializing)));
    assert!(matches!(state.stats(), Err(PipelineError::Initializing)));
    assert_eq!(503, state.pause().unwrap_err().status_code());
    assert!(matches!(state.metrics(Ok(vec![])), Err(PipelineError::Initializing)));
    assert_eq!("", state.metadata());

    let mut failed = ServerState::new(false);
    failed.initialization_state = InitializationState::InitializationError(
        ControllerError::ConfigParse { error: "bad".to_string() },
    );
    match missing_controller_error(&failed) {
        PipelineError::InitializationError { error: ControllerError::ConfigParse { error } } => {
            assert_eq!("bad", error)
        }
        other => panic!("{other:?}"),
    }
    assert_eq!(500, failed.dump_profile().unwrap_err().status_code());
}

#[test]
fn commands_are_acknowledged() {
    let state = ready();
    assert_eq!("The pipeline is running", state.start().unwrap());
    assert_eq!("Pipeline paused", state.pause().unwrap());
    assert_eq!("Profile dump initiated", state.dump_profile().unwrap());
    assert_eq!("Pipeline paused", state.command(Command::Pause).unwrap());
    assert!(state.stats().is_ok());
    assert_eq!(vec![1, 2], state.metrics(Ok(vec![1, 2])).unwrap());
    assert!(matches!(
        state.metrics(Err("e".to_string())),
        Err(PipelineError::PrometheusError { .. })
    ));
}

#[test]
fn start_after_shutdown_must_fail() {
    let mut state = ready();
    assert!(matches!(state.shutdown(), Shutdown::StopController));
    let end = state.stopped(Ok(())).unwrap();
    assert!(end.stop_server && end.remove_port_file);
    assert_eq!("Pipeline terminated", end.answer);
    assert_eq!(503, state.start().unwrap_err().status_code());
    assert!(matches!(state.start(), Err(PipelineError::Terminating)));
    assert!(matches!(state.shutdown(), Shutdown::Answer("Pipeline already terminated")));
    let error = ControllerError::Controller { error: "stuck".to_string() };
    assert!(matches!(state.stopped(Err(error)), Err(ControllerError::Controller { .. })));
    state.can_terminate = false;
    assert!(!state.stopped(Ok(())).unwrap().stop_server);
}

#[test]
fn error_statuses() {
    for (error, status) in [
        (PipelineError::Initializing, 503),
        (PipelineError::Terminating, 503),
        (PipelineError::MissingUrlEncodedParam { param: "p" }, 400),
        (PipelineError::ApiConnectionLimit, 429),
        (PipelineError::PrometheusError { error: String::new() }, 500),
        (PipelineError::TableSnapshotNotImplemented, 400),
        (PipelineError::QuantileStreamingNotSupported, 400),
        (PipelineError::MissingNeighborhoodSpec, 400),
        (PipelineError::NumQuantilesOutOfRange { quantiles: 0 }, 400),
        (
            PipelineError::InvalidNeighborhoodSpec {
                spec: String::new(),
                parse_error: String::new(),
            },
            400,
        ),
        (PipelineError::ControllerError { error: String::new() }, 500),
    ] {
        assert_eq!(status, error.status_code());
    }
}

fn advance(stage: StartupStage, answer: StartupAnswer) -> StartupStage {
    match stage.reply(answer) {
        StartupProgress::Next(next) => next,
        other => panic!("{other:?}"),
    }
}

#[test]
fn servers_tell_their_port() {
    let stage = StartupStage::run_server(None);
    assert!(matches!(stage.action(), StartupAction::Bind { address: "127.0.0.1", port: 0 }));
    let stage = advance(stage, StartupAnswer::Done);
    assert!(matches!(stage.action(), StartupAction::LocalPort));
    let stage = advance(stage, StartupAnswer::Port(4567));
    assert!(matches!(stage.action(), StartupAction::StartInitialization));
    let stage = advance(stage, StartupAnswer::Done);
    assert!(matches!(stage.action(), StartupAction::Listen));
    let stage = advance(stage, StartupAnswer::Done);
    match stage.action() {
        StartupAction::WriteFile { path, contents } => {
            assert_eq!(("port", "4567\n"), (path, contents.as_str()));
            assert_eq!(Ok(4567), dbsp::text::parse_port(&dbsp::text::trim(&contents)));
        }
        other => panic!("{other:?}"),
    }
    let stage = advance(stage, StartupAnswer::Done);
    assert!(matches!(stage.action(), StartupAction::Serve));
    assert!(matches!(stage.reply(StartupAnswer::Done), StartupProgress::Ended));
}

#[test]
fn busy_ports_are_replaced() {
    let stage = StartupStage::run_server(Some(80));
    assert!(matches!(stage.action(), StartupAction::Bind { address: "127.0.0.1", port: 80 }));
    let stage = advance(stage, StartupAnswer::Failed("busy".to_string()));
    assert!(matches!(stage.action(), StartupAction::Bind { address: "127.0.0.1", port: 0 }));
    assert_eq!(StartupStage::FindPort, advance(stage, StartupAnswer::Done));
}

#[test]
fn failing_starts_say_what_failed() {
    for (stage, context) in [
        (StartupStage::BindOther(80), "binding to TCP port 80"),
        (StartupStage::BindAny, "binding to TCP port"),
        (StartupStage::FindPort, "retrieving local socket address of the TCP listener"),
        (StartupStage::Listen(1), "binding server to the listener"),
        (StartupStage::WritePortFile(1), "writing server port file"),
        (StartupStage::Serve, "in the HTTP server"),
    ] {
        match stage.reply(StartupAnswer::Failed("e".to_string())) {
            StartupProgress::Failed(ControllerError::Io { context: c, error }) => {
                assert_eq!((context, "e"), (c.as_str(), error.as_str()))
            }
            other => panic!("{other:?}"),
        }
    }
}

#[test]
fn the_page_has_a_default() {
    assert_eq!(
        b"<html><head><title>DBSP server</title></head></html>".to_vec(),
        index_data(None)
    );
    assert_eq!(vec![1, 2], index_data(Some(vec![1, 2])));
}

fn go_on(progress: BootstrapProgress) -> Bootstrap {
    match progress {
        BootstrapProgress::Next(next) => next,
        other => panic!("{other:?}"),
    }
}

fn until_log(metadata: Option<&str>, state: &mut ServerState) -> Bootstrap {
    let b = Bootstrap::do_bootstrap("c.yaml".to_string(), metadata.map(|m| m.to_string()));
    assert!(matches!(b.action(), BootstrapAction::ReadFile("c.yaml")));
    let b = go_on(b.bootstrap(BootstrapAnswer::File(Ok(b"name: n".to_vec())), state));
    assert!(matches!(b.action(), BootstrapAction::ParseConfig("name: n")));
    let b = go_on(b.bootstrap(BootstrapAnswer::Config(Ok((Some("n".to_string()), 6))), state));
    assert!(matches!(b.action(), BootstrapAction::InitLogger("[n]")));
    go_on(b.bootstrap(BootstrapAnswer::Done, state))
}

#[test]
fn pipelines_initialize() {
    let mut state = ServerState::new(false);
    let b = until_log(Some("m.json"), &mut state);
    assert!(matches!(b.action(), BootstrapAction::ReadFile("m.json")));
    let b = go_on(b.bootstrap(BootstrapAnswer::File(Ok("{\"ä\":1}".as_bytes().to_vec())), &mut state));
    assert_eq!("{\"ä\":1}", state.metadata());
    assert!(matches!(b.action(), BootstrapAction::CreateController { workers: 6 }));
    let b = go_on(b.bootstrap(BootstrapAnswer::Controller(Ok(())), &mut state));
    assert!(matches!(b.action(), BootstrapAction::CreateMetrics));
    assert!(!state.has_controller);
    let end = b.bootstrap(BootstrapAnswer::Metrics(Ok(())), &mut state);
    assert!(matches!(end, BootstrapProgress::Complete));
    assert!(state.has_controller && state.has_metrics);
    assert!(state.start().is_ok());
}

#[test]
fn pipelines_without_metadata_initialize() {
    let mut state = ServerState::new(false);
    let b = until_log(None, &mut state);
    assert!(matches!(b.action(), BootstrapAction::CreateController { workers: 6 }));
    assert_eq!("", state.metadata());
    let error = ControllerError::Controller { error: "x".to_string() };
    match b.bootstrap(BootstrapAnswer::Controller(Err(error)), &mut state) {
        BootstrapProgress::Failed { before_log, .. } => assert!(!before_log),
        other => panic!("{other:?}"),
    }
    assert!(matches!(state.start(), Err(PipelineError::InitializationError { .. })));
}

#[test]
fn failing_initializations_are_recorded() {
    let mut state = ServerState::new(false);
    let b = Bootstrap::do_bootstrap("c".to_string(), None);
    match b.bootstrap(BootstrapAnswer::File(Err("gone".to_string())), &mut state) {
        BootstrapProgress::Failed { error: ControllerError::Io { context, error }, before_log } => {
            assert_eq!("reading configuration file 'c'", context);
            assert_eq!("gone", error);
            assert!(before_log);
        }
        other => panic!("{other:?}"),
    }
    assert!(matches!(state.stats(), Err(PipelineError::InitializationError { .. })));

    let bytes = vec![b'a', 0xff];
    let reason = String::from_utf8(bytes.clone()).unwrap_err().to_string();
    match parse_config("c", Ok(bytes.clone())) {
        Err(ControllerError::ConfigParse { error }) => assert_eq!(
            format!("invalid UTF8 string in configuration file 'c' ({reason})"),
            error
        ),
        other => panic!("{other:?}"),
    }
    let mut state = ServerState::new(false);
    let b = until_log(Some("m"), &mut state);
    match b.bootstrap(BootstrapAnswer::File(Ok(bytes)), &mut state) {
        BootstrapProgress::Failed { error: ControllerError::ConfigParse { error }, before_log } => {
            assert_eq!(
                format!("invalid UTF8 string in the metadata file 'm' ({reason})"),
                error
            );
            assert!(!before_log);
        }
        other => panic!("{other:?}"),
    }
    let mut state = ServerState::new(false);
    let b = until_log(Some("m"), &mut state);
    match b.bootstrap(BootstrapAnswer::File(Err("gone".to_string())), &mut state) {
        BootstrapProgress::Failed { error: ControllerError::Io { context, .. }, .. } => {
            assert_eq!("reading metadata file 'm'", context)
        }
        other => panic!("{other:?}"),
    }
    let mut state = ServerState::new(false);
    let b = until_log(None, &mut state);
    let b = go_on(b.bootstrap(BootstrapAnswer::Controller(Ok(())), &mut state));
    match b.bootstrap(BootstrapAnswer::Metrics(Err("p".to_string())), &mut state) {
        BootstrapProgress::Failed { error: ControllerError::Prometheus { error }, .. } => {
            assert_eq!("p", error)
        }
        other => panic!("{other:?}"),
    }
    assert!(!state.has_controller);
    let b = Bootstrap::do_bootstrap("c".to_string(), None);
    let b = go_on(b.bootstrap(BootstrapAnswer::File(Ok(vec![])), &mut state));
    match b.bootstrap(BootstrapAnswer::Config(Err("yaml".to_string())), &mut state) {
        BootstrapProgress::Failed { error: ControllerError::ConfigParse { error }, before_log } => {
            assert_eq!("yaml", error);
            assert!(before_log);
        }
        other => panic!("{other:?}"),
    }
}

#[test]
fn labels_and_decoding_errors() {
    assert_eq!("[]", pipeline_label(None));
    assert_eq!("[p]", pipeline_label(Some("p".to_string())));
    match undecodable("in '", "f", "why") {
        ControllerError::ConfigParse { error } => assert_eq!("in 'f' (why)", error),
        other => panic!("{other:?}"),
    }
}

fn args(mode: EgressMode, query: OutputQuery, quantiles: u32) -> EgressArgs {
    EgressArgs { query, mode, format: "csv".to_string(), quantiles }
}

fn table() -> Option<String> {
    Some("t".to_string())
}

#[test]
fn refused_requests_are_answered_at_once() {
    for state in [ready(), ServerState::new(false)] {
        let start = |table, mode, query, quantiles, body| {
            let args = args(mode, query, quantiles);
            let c = Connection::output_endpoint(&state, table, &args, body, 100);
            assert_eq!(ConnectionAction::Finish, c.action());
            match c.stage {
                ConnectionStage::Finished(Some(error)) => error,
                other => panic!("{other:?}"),
            }
        };
        assert!(matches!(
            start(table(), EgressMode::Snapshot, OutputQuery::Quantiles, 0, false),
            PipelineError::NumQuantilesOutOfRange { quantiles: 0 }
        ));
        assert!(matches!(
            start(table(), EgressMode::Watch, OutputQuery::Quantiles, 5, false),
            PipelineError::QuantileStreamingNotSupported
        ));
        assert!(matches!(
            start(table(), EgressMode::Snapshot, OutputQuery::Table, 5, false),
            PipelineError::TableSnapshotNotImplemented
        ));
        assert!(matches!(
            start(table(), EgressMode::Watch, OutputQuery::Neighborhood, 5, false),
            PipelineError::MissingNeighborhoodSpec
        ));
        assert!(matches!(
            start(None, EgressMode::Watch, OutputQuery::Table, 5, false),
            PipelineError::MissingUrlEncodedParam { param: "table_name" }
        ));
        let c = Connection::input_endpoint(&state, None);
        assert!(matches!(
            c.stage,
            ConnectionStage::Finished(Some(PipelineError::MissingUrlEncodedParam { .. }))
        ));
    }
}

#[test]
fn endpoints_follow_the_request() {
    for (mode, watch) in [(EgressMode::Watch, true), (EgressMode::Snapshot, false)] {
        for query in [OutputQuery::Table, OutputQuery::Neighborhood, OutputQuery::Quantiles] {
            let args = args(mode, query, 12);
            let e = egress_endpoint("n".to_string(), "t".to_string(), &args);
            assert_eq!(("n", "t"), (e.name.as_str(), e.stream.as_str()));
            assert_eq!((query, watch), (e.query, e.watch));
            assert_eq!(args.format, e.format);
        }
    }
    let e = ingress_endpoint("n".to_string(), "t".to_string(), "csv".to_string());
    assert_eq!(("n", "t", "csv"), (e.name.as_str(), e.stream.as_str(), e.format.as_str()));
}

#[test]
fn connections_keep_their_table() {
    let c = Connection::input_endpoint(&ready(), table());
    assert_eq!(table(), c.table);
    assert_eq!(table(), c.reply(ConnectionAnswer::Done).table);
    let watch = args(EgressMode::Watch, OutputQuery::Table, 0);
    let c = Connection::output_endpoint(&ready(), table(), &watch, false, 100);
    assert_eq!(table(), c.reply(ConnectionAnswer::Failed("e".to_string())).table);
    let c = Connection::output_endpoint(&ServerState::new(false), table(), &watch, false, 100);
    assert_eq!(None, c.table);
}

#[test]
fn errors_of_endpoints_are_handed_on() {
    let c = Connection::input_endpoint(&ready(), table())
        .reply(ConnectionAnswer::Done)
        .reply(ConnectionAnswer::Attached(7))
        .reply(ConnectionAnswer::Refused(PipelineError::ApiConnectionLimit));
    assert_eq!(ConnectionAction::Release(7), c.action());
    assert!(matches!(
        c.reply(ConnectionAnswer::Done).stage,
        ConnectionStage::Finished(Some(PipelineError::ApiConnectionLimit))
    ));
}

#[test]
fn egress_arguments_are_checked() {
    let check = |mode, query, quantiles, body| {
        check_egress(table(), &args(mode, query, quantiles), body, 100)
    };
    assert_eq!(EgressMode::Watch, EgressMode::default());
    assert!(matches!(
        check_egress(None, &args(EgressMode::Watch, OutputQuery::Quantiles, 1), false, 100),
        Err(PipelineError::MissingUrlEncodedParam { param: "table_name" })
    ));
    assert!(matches!(
        check(EgressMode::Watch, OutputQuery::Quantiles, 10, true),
        Err(PipelineError::QuantileStreamingNotSupported)
    ));
    assert!(matches!(
        check(EgressMode::Snapshot, OutputQuery::Table, 10, true),
        Err(PipelineError::TableSnapshotNotImplemented)
    ));
    assert!(matches!(
        check(EgressMode::Watch, OutputQuery::Neighborhood, 10, false),
        Err(PipelineError::MissingNeighborhoodSpec)
    ));
    assert!(matches!(
        check(EgressMode::Snapshot, OutputQuery::Quantiles, 0, false),
        Err(PipelineError::NumQuantilesOutOfRange { quantiles: 0 })
    ));
    assert!(matches!(
        check(EgressMode::Snapshot, OutputQuery::Quantiles, 101, false),
        Err(PipelineError::NumQuantilesOutOfRange { quantiles: 101 })
    ));
    assert_eq!("t", check(EgressMode::Snapshot, OutputQuery::Quantiles, 100, false).unwrap());
    assert_eq!("t", check(EgressMode::Watch, OutputQuery::Table, 0, false).unwrap());
    assert_eq!("t", check(EgressMode::Watch, OutputQuery::Neighborhood, 0, true).unwrap());
    assert_eq!("t", check(EgressMode::Snapshot, OutputQuery::Neighborhood, 0, true).unwrap());
    assert_eq!("t", check_ingress(table()).unwrap());
    assert!(matches!(
        check_ingress(None),
        Err(PipelineError::MissingUrlEncodedParam { param: "table_name" })
    ));
}

#[test]
fn endpoint_names() {
    assert_eq!("api-ingress-t-id", ingress_endpoint_name("t", "id"));
    assert_eq!(
        "api-watch-t-id",
        egress_endpoint_name(EgressMode::Watch, OutputQuery::Table, "t", "id")
    );
    assert_eq!(
        "api-snapshot-t-quantiles-id",
        egress_endpoint_name(EgressMode::Snapshot, OutputQuery::Quantiles, "t", "id")
    );
    assert_eq!(
        "api-watch-t-neighborhood-id",
        egress_endpoint_name(EgressMode::Watch, OutputQuery::Neighborhood, "t", "id")
    );
    let name = new_ingress_endpoint_name("t");
    assert!(name.starts_with("api-ingress-t-"));
    assert_eq!("api-ingress-t-".len() + 36, name.len());
    let name = new_egress_endpoint_name(EgressMode::Snapshot, OutputQuery::Neighborhood, "t");
    assert!(name.starts_with("api-snapshot-t-neighborhood-"));
    assert_ne!(
        name,
        new_egress_endpoint_name(EgressMode::Snapshot, OutputQuery::Neighborhood, "t")
    );
}

#[test]
fn inputs_register_attach_and_release() {
    let c = Connection::input_endpoint(&ready(), table());
    assert_eq!(ConnectionAction::Register, c.action());
    let c = c.reply(ConnectionAnswer::Done);
    assert_eq!(ConnectionAction::Attach, c.action());
    let c = c.reply(ConnectionAnswer::Attached(7));
    assert_eq!(ConnectionAction::Receive(7), c.action());
    let c = c.reply(ConnectionAnswer::Done);
    assert_eq!(ConnectionAction::Release(7), c.action());
    let c = c.reply(ConnectionAnswer::Done);
    assert_eq!(ConnectionAction::Finish, c.action());
    assert!(matches!(c.stage, ConnectionStage::Finished(None)));
}

#[test]
fn outputs_are_set_up_by_their_query() {
    let attach = |mode, query| {
        Connection::output_endpoint(&ready(), table(), &args(mode, query, 12), true, 100)
            .reply(ConnectionAnswer::Done)
            .reply(ConnectionAnswer::Attached(3))
    };
    let c = attach(EgressMode::Watch, OutputQuery::Table);
    assert_eq!(ConnectionAction::OpenResponse(3), c.action());
    assert_eq!(ConnectionAction::Respond(3), c.reply(ConnectionAnswer::Done).action());
    let c = attach(EgressMode::Snapshot, OutputQuery::Quantiles);
    assert_eq!(ConnectionAction::OpenResponse(3), c.action());
    let c = c.reply(ConnectionAnswer::Done);
    assert_eq!(ConnectionAction::SetQuantiles(12), c.action());
    let c = c.reply(ConnectionAnswer::Done);
    assert_eq!(ConnectionAction::RequestStep, c.action());
    let c = c.reply(ConnectionAnswer::Done);
    assert_eq!(ConnectionAction::Respond(3), c.action());
    let c = c.reply(ConnectionAnswer::Done);
    assert_eq!(ConnectionAction::Release(3), c.action());

    let c = attach(EgressMode::Watch, OutputQuery::Neighborhood);
    assert_eq!(ConnectionAction::OpenResponse(3), c.action());
    let c = c.reply(ConnectionAnswer::Done);
    assert_eq!(ConnectionAction::SetNeighborhood { reset: true }, c.action());
    let c = c.reply(ConnectionAnswer::Misunderstood {
        spec: "{}".to_string(),
        error: "bad".to_string(),
    });
    assert_eq!(ConnectionAction::Release(3), c.action());
    match c.reply(ConnectionAnswer::Done).stage {
        ConnectionStage::Finished(Some(error)) => {
            assert_eq!(400, error.status_code());
            assert!(matches!(error, PipelineError::InvalidNeighborhoodSpec { .. }));
        }
        other => panic!("{other:?}"),
    }
}

#[test]
fn refused_connections_are_not_left_registered() {
    let c = Connection::input_endpoint(&ready(), table()).reply(ConnectionAnswer::Failed(String::new()));
    assert!(matches!(
        c.stage,
        ConnectionStage::Finished(Some(PipelineError::ApiConnectionLimit))
    ));
    let c = Connection::input_endpoint(&ready(), table())
        .reply(ConnectionAnswer::Done)
        .reply(ConnectionAnswer::Failed("no table".to_string()));
    assert_eq!(ConnectionAction::Unregister, c.action());
    match c.reply(ConnectionAnswer::Done).stage {
        ConnectionStage::Finished(Some(PipelineError::ControllerError { error })) => {
            assert_eq!("no table", error)
        }
        other => panic!("{other:?}"),
    }
    let c = Connection::input_endpoint(&ServerState::new(false), table());
    assert!(matches!(c.stage, ConnectionStage::Finished(Some(PipelineError::Initializing))));
    let c = Connection::output_endpoint(
        &ServerState::new(false),
        table(),
        &args(EgressMode::Watch, OutputQuery::Table, 0),
        false,
        100,
    );
    assert!(matches!(c.stage, ConnectionStage::Finished(Some(PipelineError::Terminating))));
}
