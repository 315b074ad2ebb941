use dbsp::pipeline_manager::automaton::{
    choose_probe, error_response_from_json, force_kill_pipeline, read_pipeline_port_file,
    timeout_expired, timeout_expired_at, unexpected_response, Action, Event, Phase,
    PipelineAutomaton, Probe, Reply,
};
use dbsp::pipeline_manager::config::{default_server_address, ManagerConfig};
use dbsp::pipeline_manager::error::{
    duration_text, timeout_text, DbError, ErrorResponse, Failure, ManagerError, PipelineStatus, RunnerError,
};
use dbsp::pipeline_manager::ids::{PipelineId, TenantId};
use dbsp::pipeline_manager::launch::{
    Launch, LaunchAction, LaunchProgress, LaunchStage, PipelineRevision,
};
use dbsp::pipeline_manager::local_runner::LocalRunner;
use dbsp::pipeline_manager::runner::{
    Control, ControlAction, ControlAnswer, ControlProgress, PipelineRequest, Runner,
};
use dbsp::pipeline_manager::state::PipelineRuntimeState;
use std::time::Duration;

const ID: PipelineId = PipelineId(1);
const ID_TEXT: &str = "00000000-0000-0000-0000-000000000001";

const ALL: [PipelineStatus; 7] = [
    PipelineStatus::Shutdown,
    PipelineStatus::Provisioning,
    PipelineStatus::Initializing,
    PipelineStatus::Paused,
    PipelineStatus::Running,
    PipelineStatus::ShuttingDown,
    PipelineStatus::Failed,
];

fn state(current: PipelineStatus, desired: PipelineStatus) -> PipelineRuntimeState {
    PipelineRuntimeState {
        pipeline_id: ID,
        port: 1234,
        desired_status: desired,
        current_status: current,
        status_since: 1_000,
        error: None,
        created: 0,
    }
}

fn reply(status: u16) -> Reply {
    Reply { status, error: None, state: None, body: "{}".to_string() }
}

#[test]
fn error_texts() {
    let error = "boom".to_string();
    let errors = [
        (
            RunnerError::PipelineShutdown { pipeline_id: ID },
            "PipelineShutdown",
            format!("Pipeline '{ID_TEXT}' is not currently running."),
            404,
        ),
        (
            RunnerError::HttpForwardError { pipeline_id: ID, error: error.clone() },
            "HttpForwardError",
            format!("Error forwarding HTTP request to pipeline '{ID_TEXT}': 'boom'"),
            500,
        ),
        (
            RunnerError::PortFileParseError { pipeline_id: ID, error: error.clone() },
            "PortFileParseError",
            format!("Could not parse port for pipeline '{ID_TEXT}' from port file: 'boom'"),
            500,
        ),
        (
            RunnerError::PipelineProvisioningTimeout { pipeline_id: ID, timeout_millis: 10_000 },
            "PipelineProvisioningTimeout",
            format!("Waiting for pipeline '{ID_TEXT}' to start timed out after 10s"),
            500,
        ),
        (
            RunnerError::PipelineInitializationTimeout { pipeline_id: ID, timeout_millis: 1_500 },
            "PipelineInitializationTimeout",
            format!("Waiting for pipeline '{ID_TEXT}' initialization timed out after 1.5s"),
            500,
        ),
        (
            RunnerError::PipelineShutdownTimeout { pipeline_id: ID, timeout_millis: 300 },
            "PipelineShutdownTimeout",
            format!("Waiting for pipeline '{ID_TEXT}' to shutdown timed out after 300ms"),
            500,
        ),
        (
            RunnerError::PipelineStartupError { pipeline_id: ID, error: error.clone() },
            "PipelineStartupError",
            format!("Failed to start pipeline '{ID_TEXT}': 'boom'"),
            500,
        ),
        (
            RunnerError::IllegalPipelineStateTransition {
                pipeline_id: ID,
                error,
                current_status: PipelineStatus::Running,
                desired_status: PipelineStatus::Running,
                requested_status: None,
            },
            "IllegalPipelineStateTransition",
            "Action is not applicable in the current state of the pipeline: boom".to_string(),
            500,
        ),
    ];
    for (error, code, message, status) in errors {
        assert_eq!(code, error.error_code());
        assert_eq!(message, error.to_text());
        assert_eq!(status, error.status_code());
    }
    assert_eq!(format!("Waiting for pipeline '{ID_TEXT}' x 1s"), timeout_text(ID, "' x ", "1s"));
}

#[test]
fn only_shut_down_pipelines_can_be_deleted() {
    for current in ALL {
        for desired in ALL {
            let result = Runner::validate_desired_state_request(ID, &state(current, desired), None);
            let down = PipelineStatus::Shutdown;
            assert_eq!(current == down && desired == down, result.is_ok());
            if let Err(e) = result {
                assert_eq!(
                    "Action is not applicable in the current state of the pipeline: Cannot delete a running pipeline. Shutdown the pipeline first by invoking the '/shutdown' endpoint.",
                    e.to_text()
                );
            }
        }
    }
}

#[test]
fn shutdown_is_accepted_in_every_state() {
    for current in ALL {
        for desired in ALL {
            let request = Some(PipelineStatus::Shutdown);
            assert!(
                Runner::validate_desired_state_request(ID, &state(current, desired), request)
                    .is_ok()
            );
        }
    }
}

#[test]
fn restarts_wait_for_shutdown() {
    for request in [PipelineStatus::Paused, PipelineStatus::Running] {
        for current in ALL {
            for desired in ALL {
                let result = Runner::validate_desired_state_request(
                    ID,
                    &state(current, desired),
                    Some(request),
                );
                let text = match result {
                    Ok(()) => "",
                    Err(RunnerError::IllegalPipelineStateTransition {
                        error,
                        current_status,
                        desired_status,
                        requested_status,
                        ..
                    }) => {
                        assert_eq!(current, current_status);
                        assert_eq!(desired, desired_status);
                        assert_eq!(Some(request), requested_status);
                        if error.starts_with("Cannot restart the pipeline while it is shutting down. Wait for the shutdown to complete before starting a new instance of the pipeline.") {
                            "shutting down"
                        } else {
                            assert_eq!("Cannot restart a failed pipeline. Clear the error state first by invoking the '/shutdown' endpoint.", error);
                            "failed"
                        }
                    }
                    Err(_) => unreachable!(),
                };
                let expected = if desired == PipelineStatus::Shutdown {
                    if current == PipelineStatus::Shutdown { "" } else { "shutting down" }
                } else if matches!(current, PipelineStatus::ShuttingDown | PipelineStatus::Failed) {
                    "failed"
                } else {
                    ""
                };
                assert_eq!(expected, text);
            }
        }
    }
}

fn next(progress: ControlProgress) -> Control {
    match progress {
        ControlProgress::Next(control) => control,
        other => panic!("{other:?}"),
    }
}

#[test]
fn deployments_commit_validate_write_and_notify() {
    let control = Control::new(ID, PipelineRequest::Deploy);
    assert!(matches!(control.action(), ControlAction::CreateRevision(_)));
    let control = next(control.reply(ControlAnswer::Changed(Err(DbError::RevisionNotChanged))));
    assert!(matches!(control.action(), ControlAction::ReadState));
    let idle = state(PipelineStatus::Shutdown, PipelineStatus::Shutdown);
    let control = next(control.reply(ControlAnswer::State(Ok(idle))));
    assert!(matches!(
        control.action(),
        ControlAction::SetDesiredStatus(PipelineStatus::Paused)
    ));
    let control = next(control.reply(ControlAnswer::Changed(Ok(()))));
    assert!(matches!(control.action(), ControlAction::NotifyAutomaton));
    assert!(matches!(control.reply(ControlAnswer::Notified), ControlProgress::Done));
}

#[test]
fn requests_ask_for_their_status() {
    for (request, expected) in [
        (PipelineRequest::Shutdown, Some(PipelineStatus::Shutdown)),
        (PipelineRequest::Pause, Some(PipelineStatus::Paused)),
        (PipelineRequest::Start, Some(PipelineStatus::Running)),
        (PipelineRequest::Delete, None),
    ] {
        let control = Control::new(ID, request);
        assert!(matches!(control.action(), ControlAction::ReadState));
        let idle = state(PipelineStatus::Shutdown, PipelineStatus::Shutdown);
        let control = next(control.reply(ControlAnswer::State(Ok(idle))));
        match (control.action(), expected) {
            (ControlAction::SetDesiredStatus(status), Some(e)) => assert_eq!(e, status),
            (ControlAction::DeletePipeline, None) => {}
            other => panic!("{other:?}"),
        }
    }
}

#[test]
fn failing_requests_stop() {
    let other = || DbError::Other("db".to_string());
    let control = Control::new(ID, PipelineRequest::Deploy);
    assert!(matches!(
        control.reply(ControlAnswer::Changed(Err(other()))),
        ControlProgress::Failed(ManagerError::Db(DbError::Other(_)))
    ));
    let control = Control::new(ID, PipelineRequest::Start);
    assert!(matches!(
        control.reply(ControlAnswer::State(Err(other()))),
        ControlProgress::Failed(ManagerError::Db(_))
    ));
    let failed = state(PipelineStatus::Failed, PipelineStatus::Running);
    assert!(matches!(
        control.reply(ControlAnswer::State(Ok(failed))),
        ControlProgress::Failed(ManagerError::Runner(
            RunnerError::IllegalPipelineStateTransition { .. }
        ))
    ));
    let idle = state(PipelineStatus::Shutdown, PipelineStatus::Shutdown);
    let control = next(control.reply(ControlAnswer::State(Ok(idle))));
    assert!(matches!(
        control.reply(ControlAnswer::Changed(Err(DbError::RevisionNotChanged))),
        ControlProgress::Failed(ManagerError::Db(DbError::RevisionNotChanged))
    ));
}

#[test]
fn requests_are_forwarded_to_reachable_pipelines() {
    for current in ALL {
        let state = state(current, PipelineStatus::Running);
        let plain = Runner::forward_to_pipeline(ID, &state, "stats");
        let stream = Runner::forward_to_pipeline_as_stream(ID, &state, "egress/t", "a=b");
        let unreachable = matches!(
            current,
            PipelineStatus::Shutdown | PipelineStatus::Failed | PipelineStatus::Provisioning
        );
        if unreachable {
            assert!(matches!(plain, Err(RunnerError::PipelineShutdown { .. })));
            assert!(matches!(stream, Err(RunnerError::PipelineShutdown { .. })));
        } else {
            assert_eq!("http://localhost:1234/stats", plain.unwrap());
            assert_eq!("http://localhost:1234/egress/t?a=b", stream.unwrap());
        }
    }
    assert_eq!("http://localhost:80/x", Runner::pipeline_http_request(80, "x"));
    assert_eq!(
        format!("Error forwarding HTTP request to pipeline '{ID_TEXT}': 'e'"),
        Runner::forward_error(ID, "e".to_string()).to_text()
    );
}

#[test]
fn the_connection_header_is_not_forwarded() {
    let header = |name: &str, value: &str| (name.to_string(), value.as_bytes().to_vec());
    let kept = Runner::forwarded_headers(vec![
        header("a", "1"),
        header("connection", "close"),
        header("b", "2"),
        header("a", "3"),
    ]);
    assert_eq!(vec![header("a", "1"), header("b", "2"), header("a", "3")], kept);
    assert!(Runner::forwarded_headers(vec![]).is_empty());
}

#[test]
fn probes_for_all_pairs_of_states() {
    for current in ALL {
        for desired in ALL {
            let expected = match (current, desired) {
                (PipelineStatus::Shutdown, PipelineStatus::Shutdown) => Probe::Idle,
                (PipelineStatus::Shutdown, _) => Probe::Provision,
                (PipelineStatus::Provisioning, PipelineStatus::Running | PipelineStatus::Paused) => Probe::PortFile,
                (PipelineStatus::Provisioning | PipelineStatus::Initializing, PipelineStatus::Shutdown) => Probe::Kill,
                (PipelineStatus::Initializing, PipelineStatus::Running | PipelineStatus::Paused) => Probe::Initialization,
                (PipelineStatus::Paused, PipelineStatus::Running) => Probe::Start,
                (PipelineStatus::Running, PipelineStatus::Paused) => Probe::Pause,
                (PipelineStatus::Running | PipelineStatus::Paused, PipelineStatus::Shutdown) => Probe::Shutdown,
                (PipelineStatus::ShuttingDown, _) => Probe::Exit,
                (PipelineStatus::Running | PipelineStatus::Paused, _) => Probe::Monitor,
                (PipelineStatus::Failed, PipelineStatus::Shutdown) => Probe::Clear,
                _ => Probe::Idle,
            };
            assert_eq!(expected, choose_probe(current, desired));
        }
    }
}

/// The phase after reading a state and handing in the answer.
fn poll(state: PipelineRuntimeState, event: Event, now: i64) -> Phase {
    let automaton = PipelineAutomaton::new(ID, TenantId(2));
    assert!(matches!(automaton.action(), Action::Wait(10_000)));
    let automaton = automaton.do_run(Event::Woken, now);
    assert!(matches!(automaton.action(), Action::ReadState));
    let automaton = automaton.do_run(Event::State(Ok(state)), now);
    automaton.do_run(event, now).phase
}

fn saved(phase: Phase) -> (PipelineRuntimeState, bool) {
    match phase {
        Phase::Saving(state, kill) => (state, kill),
        other => panic!("{other:?}"),
    }
}

#[test]
fn pipelines_are_provisioned() {
    let automaton = PipelineAutomaton::new(ID, TenantId(2)).do_run(Event::Woken, 5);
    let read = state(PipelineStatus::Shutdown, PipelineStatus::Running);
    let automaton = automaton.do_run(Event::State(Ok(read)), 77);
    assert!(matches!(automaton.action(), Action::ReadRevision));
    let automaton = automaton.do_run(Event::Revision(Ok(())), 78);
    match automaton.action() {
        Action::SaveState { state, kill } => {
            assert_eq!(PipelineStatus::Provisioning, state.current_status);
            assert_eq!(77, state.status_since);
            assert!(!kill);
        }
        other => panic!("{other:?}"),
    }
    let automaton = automaton.do_run(Event::Saved(Ok(())), 79);
    assert!(matches!(automaton.action(), Action::Launch));
    let automaton = automaton.do_run(Event::Launched(Ok(())), 80);
    assert!(matches!(automaton.action(), Action::Wait(10_000)));
}

#[test]
fn failed_launches_are_recorded() {
    let automaton = PipelineAutomaton::new(ID, TenantId(2)).do_run(Event::Woken, 5);
    let read = state(PipelineStatus::Shutdown, PipelineStatus::Running);
    let automaton = automaton
        .do_run(Event::State(Ok(read)), 6)
        .do_run(Event::Revision(Ok(())), 7)
        .do_run(Event::Saved(Ok(())), 8);
    let error = RunnerError::PipelineStartupError { pipeline_id: ID, error: "x".to_string() };
    let automaton = automaton.do_run(Event::Launched(Err(ManagerError::Runner(error))), 9);
    let (state, kill) = saved(automaton.phase);
    assert!(kill);
    assert_eq!(PipelineStatus::Failed, state.current_status);
    assert!(matches!(state.error, Some(Failure::Manager(ManagerError::Runner(_)))));
}

#[test]
fn database_errors_end_the_automaton() {
    let error = || DbError::Other("db".to_string());
    let start = || PipelineAutomaton::new(ID, TenantId(2)).do_run(Event::Woken, 5);
    let read = || state(PipelineStatus::Shutdown, PipelineStatus::Running);
    let stopped = start().do_run(Event::State(Err(error())), 6);
    assert!(matches!(stopped.action(), Action::Stop(ManagerError::Db(_))));
    let committing = || start().do_run(Event::State(Ok(read())), 6);
    let stopped = committing().do_run(Event::Revision(Err(error())), 7);
    assert!(matches!(stopped.action(), Action::Stop(_)));
    let stopped = committing().do_run(Event::Revision(Ok(())), 7).do_run(Event::Saved(Err(error())), 8);
    assert!(matches!(stopped.action(), Action::Stop(_)));
    let down = state(PipelineStatus::Failed, PipelineStatus::Shutdown);
    let stopped = start().do_run(Event::State(Ok(down)), 6).do_run(Event::Saved(Err(error())), 7);
    assert!(matches!(stopped.action(), Action::Stop(_)));
}

#[test]
fn port_files_end_provisioning() {
    let provisioning = || state(PipelineStatus::Provisioning, PipelineStatus::Paused);
    let (s, kill) = saved(poll(provisioning(), Event::PortFile(Some("4321\n".to_string())), 50));
    assert_eq!(
        (PipelineStatus::Initializing, 4321, 50, 50, false),
        (s.current_status, s.port, s.created, s.status_since, kill)
    );
    let (s, kill) = saved(poll(provisioning(), Event::PortFile(Some("none".to_string())), 50));
    assert_eq!((PipelineStatus::Failed, true), (s.current_status, kill));
    assert!(matches!(
        s.error,
        Some(Failure::Manager(ManagerError::Runner(RunnerError::PortFileParseError { .. })))
    ));
    assert!(matches!(poll(provisioning(), Event::PortFile(None), 11_000), Phase::Waiting(300)));
    let (s, kill) = saved(poll(provisioning(), Event::PortFile(None), 11_001));
    assert_eq!((PipelineStatus::Failed, true), (s.current_status, kill));
    assert!(matches!(
        s.error,
        Some(Failure::Manager(ManagerError::Runner(
            RunnerError::PipelineProvisioningTimeout { timeout_millis: 10_000, .. }
        )))
    ));
}

#[test]
fn port_file_contents() {
    assert_eq!(Some(8080), read_pipeline_port_file(ID, Some(" 8080\n".to_string())).unwrap());
    assert_eq!(None, read_pipeline_port_file(ID, None).unwrap());
    assert_eq!(
        format!("Could not parse port for pipeline '{ID_TEXT}' from port file: 'number too large to fit in target type'"),
        read_pipeline_port_file(ID, Some("70000".to_string())).unwrap_err().to_text()
    );
}

#[test]
fn initialization_ends_or_times_out() {
    let initializing = || state(PipelineStatus::Initializing, PipelineStatus::Running);
    let (s, kill) = saved(poll(initializing(), Event::Response(Ok(reply(200))), 50));
    assert_eq!((PipelineStatus::Paused, false), (s.current_status, kill));
    let busy = || Event::Response(Ok(reply(503)));
    assert!(matches!(poll(initializing(), busy(), 21_000), Phase::Waiting(300)));
    let (s, kill) = saved(poll(initializing(), busy(), 21_001));
    assert_eq!((PipelineStatus::Failed, true), (s.current_status, kill));
    assert!(matches!(
        s.error,
        Some(Failure::Manager(ManagerError::Runner(
            RunnerError::PipelineInitializationTimeout { timeout_millis: 20_000, .. }
        )))
    ));
    let (s, _) = saved(poll(initializing(), Event::Response(Ok(reply(500))), 50));
    match s.error {
        Some(Failure::Manager(ManagerError::Runner(e))) => assert_eq!(
            format!("Error forwarding HTTP request to pipeline '{ID_TEXT}': 'Pipeline returned HTTP status 500 Internal Server Error, response body:{{}}'"),
            e.to_text()
        ),
        other => panic!("{other:?}"),
    }
    let (s, _) = saved(poll(initializing(), Event::Response(Err("gone".to_string())), 50));
    assert_eq!(PipelineStatus::Failed, s.current_status);
    let doomed = state(PipelineStatus::Initializing, PipelineStatus::Shutdown);
    let (s, kill) = saved(poll(doomed, Event::Woken, 50));
    assert_eq!((PipelineStatus::Shutdown, true), (s.current_status, kill));
    assert!(s.error.is_none());
}

#[test]
fn requests_move_running_and_paused_pipelines() {
    for (current, desired, endpoint, entered) in [
        (PipelineStatus::Paused, PipelineStatus::Running, "start", PipelineStatus::Running),
        (PipelineStatus::Running, PipelineStatus::Paused, "pause", PipelineStatus::Paused),
        (PipelineStatus::Running, PipelineStatus::Shutdown, "shutdown", PipelineStatus::ShuttingDown),
        (PipelineStatus::Paused, PipelineStatus::Shutdown, "shutdown", PipelineStatus::ShuttingDown),
    ] {
        let automaton = PipelineAutomaton::new(ID, TenantId(2))
            .do_run(Event::Woken, 1)
            .do_run(Event::State(Ok(state(current, desired))), 2);
        match automaton.action() {
            Action::Request { endpoint: e, port } => assert_eq!((endpoint, 1234), (e, port)),
            other => panic!("{other:?}"),
        }
        let (s, kill) = saved(automaton.do_run(Event::Response(Ok(reply(202))), 3).phase);
        assert_eq!((entered, false, 3), (s.current_status, kill, s.status_since));
        let (s, kill) = saved(poll(state(current, desired), Event::Response(Ok(reply(404))), 4));
        let ended = if desired == PipelineStatus::Shutdown {
            PipelineStatus::Shutdown
        } else {
            PipelineStatus::Failed
        };
        assert_eq!((ended, true, desired), (s.current_status, kill, s.desired_status));
        assert!(s.error.is_some());
    }
}

#[test]
fn settled_pipelines_report_their_state() {
    let settled = || state(PipelineStatus::Running, PipelineStatus::Running);
    let report = |text: Option<&str>| {
        let state = text.map(|t| t.to_string());
        Event::Response(Ok(Reply { state, ..reply(200) }))
    };
    let (s, _) = saved(poll(settled(), report(Some("Paused")), 9));
    assert_eq!(PipelineStatus::Paused, s.current_status);
    let (s, _) = saved(poll(settled(), report(Some("Running")), 9));
    assert_eq!(PipelineStatus::Running, s.current_status);
    for (text, shown) in [(Some("Broken"), "Broken"), (None, "")] {
        let (s, kill) = saved(poll(settled(), report(text), 9));
        assert_eq!((PipelineStatus::Failed, true), (s.current_status, kill));
        match s.error {
            Some(Failure::Manager(ManagerError::Runner(e))) => assert_eq!(
                format!("Error forwarding HTTP request to pipeline '{ID_TEXT}': 'Pipeline reported unexpected status '{shown}', expected 'Paused' or 'Running''"),
                e.to_text()
            ),
            other => panic!("{other:?}"),
        }
    }
    assert!(matches!(
        poll(state(PipelineStatus::Shutdown, PipelineStatus::Shutdown), Event::Woken, 9),
        Phase::Reading
    ));
}

#[test]
fn pipelines_shut_down_when_their_process_exits() {
    let leaving = || state(PipelineStatus::ShuttingDown, PipelineStatus::Shutdown);
    let (s, kill) = saved(poll(leaving(), Event::Process(true), 9));
    assert_eq!((PipelineStatus::Shutdown, true), (s.current_status, kill));
    assert!(matches!(poll(leaving(), Event::Process(false), 4_000), Phase::Waiting(300)));
    let (s, kill) = saved(poll(leaving(), Event::Process(false), 4_001));
    assert_eq!((PipelineStatus::Shutdown, true), (s.current_status, kill));
    assert!(matches!(
        s.error,
        Some(Failure::Manager(ManagerError::Runner(
            RunnerError::PipelineShutdownTimeout { timeout_millis: 3_000, .. }
        )))
    ));
}

#[test]
fn failures_wait_for_shutdown() {
    let mut failed = state(PipelineStatus::Failed, PipelineStatus::Shutdown);
    failed.error = Some(Failure::Reported(ErrorResponse {
        message: "m".to_string(),
        error_code: "c".to_string(),
        details: "null".to_string(),
    }));
    let (s, kill) = saved(poll(failed, Event::Woken, 9));
    assert_eq!((PipelineStatus::Shutdown, false), (s.current_status, kill));
    assert!(matches!(s.error, Some(Failure::Reported(_))));
    let stuck = state(PipelineStatus::Failed, PipelineStatus::Running);
    let automaton = PipelineAutomaton::new(ID, TenantId(2))
        .do_run(Event::Woken, 1)
        .do_run(Event::State(Ok(stuck)), 2);
    assert!(matches!(automaton.action(), Action::Wait(10_000)));
}

#[test]
fn killed_pipelines_fail_unless_meant_to_shut_down() {
    let up = force_kill_pipeline(state(PipelineStatus::Running, PipelineStatus::Paused), None, 3);
    assert_eq!((PipelineStatus::Failed, 3), (up.current_status, up.status_since));
    let down = force_kill_pipeline(state(PipelineStatus::Running, PipelineStatus::Shutdown), None, 4);
    assert_eq!((PipelineStatus::Shutdown, 4), (down.current_status, down.status_since));
}

#[test]
fn reported_errors_are_passed_on() {
    let response = ErrorResponse {
        message: "m".to_string(),
        error_code: "c".to_string(),
        details: "{}".to_string(),
    };
    let with = Reply { error: Some(response), ..reply(400) };
    match error_response_from_json(ID, with) {
        Failure::Reported(r) => assert_eq!("m", r.message),
        other => panic!("{other:?}"),
    }
    match unexpected_response(ID, "418 I'm a teapot", "\"x\"") {
        Failure::Manager(ManagerError::Runner(RunnerError::HttpForwardError { error, .. })) => {
            assert_eq!(
                "Pipeline returned HTTP status 418 I'm a teapot, response body:\"x\"",
                error
            )
        }
        other => panic!("{other:?}"),
    }
}

#[test]
fn timeouts_expire() {
    assert!(!timeout_expired_at(1_300, 1_000, 300));
    assert!(timeout_expired_at(1_301, 1_000, 300));
    assert!(timeout_expired_at(i64::MAX, i64::MIN, u64::MAX - 1));
    assert!(!timeout_expired_at(i64::MIN, i64::MAX, 0));
    assert!(timeout_expired(0, 1));
    assert!(!timeout_expired(i64::MAX, 1));
}

#[test]
fn the_clock_of_the_machine_is_used() {
    let before = chrono::Utc::now().timestamp_millis();
    let automaton = PipelineAutomaton::new(ID, TenantId(2))
        .run(Event::Woken)
        .run(Event::State(Ok(state(PipelineStatus::Initializing, PipelineStatus::Shutdown))));
    let after = chrono::Utc::now().timestamp_millis();
    let (s, _) = saved(automaton.phase);
    assert!(before <= s.status_since && s.status_since <= after);
}

fn config() -> ManagerConfig {
    ManagerConfig {
        port: 1,
        bind_address: default_server_address(),
        logfile: None,
        working_directory: "/w".to_string(),
        sql_compiler_home: "/s".to_string(),
        dbsp_override_path: None,
        debug: false,
        unix_daemon: false,
        db_connection_string: String::new(),
        static_html: None,
        dump_openapi: false,
        config_file: None,
        initial_sql: None,
        dev_mode: false,
    }
}

#[test]
fn launches_write_files_and_spawn() {
    let revision = PipelineRevision {
        pipeline_id: ID,
        config: "name: x".to_string(),
        metadata: "{}".to_string(),
        executable: "/bin/p".to_string(),
    };
    let dir = format!("/w/pipelines/pipeline{ID_TEXT}");
    let mut launch = Launch::start(&config(), revision);
    let mut log = vec![];
    loop {
        log.push(match launch.action() {
            LaunchAction::RemoveDirectory(path) => format!("rm {path}"),
            LaunchAction::CreateDirectories(path) => format!("mkdir {path}"),
            LaunchAction::WriteFile { path, contents } => format!("write {path} {contents}"),
            LaunchAction::Spawn { program, directory, arguments } => {
                format!("{directory}$ {program} {}", arguments.join(" "))
            }
        });
        let answer = if launch.stage == LaunchStage::RemoveDirectory {
            Err("missing".to_string())
        } else {
            Ok(())
        };
        match launch.reply(answer) {
            LaunchProgress::Next(next) => launch = next,
            LaunchProgress::Done => break,
            LaunchProgress::Failed(e) => panic!("{e:?}"),
        }
    }
    assert_eq!(
        vec![
            format!("rm {dir}"),
            format!("mkdir {dir}"),
            format!("write {dir}/config.yaml name: x"),
            format!("write {dir}/metadata.json {{}}"),
            format!("{dir}$ /bin/p --config-file {dir}/config.yaml --metadata-file {dir}/metadata.json"),
        ],
        log
    );
}

#[test]
fn failing_launches_say_what_failed() {
    let dir = format!("/w/pipelines/pipeline{ID_TEXT}");
    for (stage, expected) in [
        (LaunchStage::CreateDirectory, format!("creating pipeline directory '{dir}'")),
        (LaunchStage::WriteConfig, format!("writing config file '{dir}/config.yaml'")),
        (LaunchStage::WriteMetadata, format!("writing metadata file '{dir}/metadata.json'")),
    ] {
        let revision = PipelineRevision {
            pipeline_id: ID,
            config: String::new(),
            metadata: String::new(),
            executable: String::new(),
        };
        let launch = Launch { stage, ..Launch::start(&config(), revision.clone()) };
        match launch.reply(Err("full".to_string())) {
            LaunchProgress::Failed(ManagerError::Io { context, error }) => {
                assert_eq!((expected, "full".to_string()), (context, error))
            }
            other => panic!("{other:?}"),
        }
        let launch = Launch { stage: LaunchStage::Spawn, ..Launch::start(&config(), revision) };
        assert!(matches!(
            launch.reply(Err("no".to_string())),
            LaunchProgress::Failed(ManagerError::Runner(RunnerError::PipelineStartupError { .. }))
        ));
    }
}

#[test]
fn each_pipeline_gets_one_automaton() {
    let mut runner = LocalRunner::new();
    let first = runner.notify_pipeline_automaton(TenantId(9), PipelineId(1)).unwrap();
    assert_eq!((PipelineId(1), TenantId(9)), (first.pipeline_id, first.tenant_id));
    assert!(runner.notify_pipeline_automaton(TenantId(9), PipelineId(1)).is_none());
    assert!(runner.notify_pipeline_automaton(TenantId(9), PipelineId(2)).is_some());
    assert!(runner.notify_pipeline_automaton(TenantId(9), PipelineId(2)).is_none());
}

#[test]
fn deletions_shut_the_pipeline_down_first() {
    let control = Control::new(ID, PipelineRequest::Delete);
    let running = state(PipelineStatus::Running, PipelineStatus::Running);
    let control = next(control.reply(ControlAnswer::State(Ok(running))));
    assert!(matches!(
        control.action(),
        ControlAction::SetDesiredStatus(PipelineStatus::Shutdown)
    ));
    let control = next(control.reply(ControlAnswer::Changed(Ok(()))));
    assert!(matches!(control.action(), ControlAction::NotifyAutomaton));
    let control = next(control.reply(ControlAnswer::Notified));
    assert!(matches!(control.action(), ControlAction::Wait(300)));
    let control = next(control.reply(ControlAnswer::Waited));
    assert!(matches!(control.action(), ControlAction::ReadState));
    let leaving = state(PipelineStatus::ShuttingDown, PipelineStatus::Shutdown);
    let control = next(control.reply(ControlAnswer::State(Ok(leaving))));
    assert!(matches!(control.action(), ControlAction::Wait(300)));
    let control = next(control.reply(ControlAnswer::Waited));
    let down = state(PipelineStatus::Shutdown, PipelineStatus::Shutdown);
    let control = next(control.reply(ControlAnswer::State(Ok(down))));
    assert!(matches!(control.action(), ControlAction::DeletePipeline));
    let control = next(control.reply(ControlAnswer::Changed(Ok(()))));
    assert!(matches!(control.action(), ControlAction::NotifyAutomaton));
    assert!(matches!(control.reply(ControlAnswer::Notified), ControlProgress::Done));
}

#[test]
fn durations_are_shown_in_seconds_or_milliseconds() {
    for (millis, text) in [(0, "0ns"), (7, "7ms"), (1000, "1s"), (1050, "1.05s"), (61007, "61.007s")] {
        assert_eq!(text, duration_text(millis));
    }
    for i in 0..20_000u64 {
        for millis in [i, i * 977, u64::MAX - i] {
            assert_eq!(format!("{:?}", Duration::from_millis(millis)), duration_text(millis));
        }
    }
}
