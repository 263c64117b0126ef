use rumblebot::runner::InitEvent;
use rumblebot::runner::ProgramError;
use rumblebot::runner::RunnerCore;
use rumblebot::runner::RunnerState;
use rumblebot::runner::TurnEvent;

#[test]
fn greeting_makes_a_ready_runner_and_turns_flow() {
    let (mut core, init) = RunnerCore::new(InitEvent::Greeted, None);
    assert!(init.is_ok());
    assert_eq!(core.state, RunnerState::Ready);
    for n in 1..=10u64 {
        let turn = core.begin_turn();
        assert_eq!(turn, n);
        let r = core.finish_turn(TurnEvent::Responded { output: format!("actions {}", n) });
        assert_eq!(r.unwrap(), format!("actions {}", n));
        assert_eq!(core.state, RunnerState::Ready);
    }
    assert_eq!(core.turns_started, 10);
    assert_eq!(core.turns_finished, 10);
}

#[test]
fn missing_handshake_is_an_init_error_before_any_turn() {
    let (core, init) = RunnerCore::new(InitEvent::Closed, None);
    match init {
        Err(ProgramError::InitError { summary, details }) => {
            assert_eq!(summary, "robot closed its stream before the handshake");
            assert!(details.is_none());
        }
        other => panic!("unexpected init outcome: {:?}", other),
    }
    assert_eq!(core.state, RunnerState::Faulted);
    assert_eq!(core.turns_started, 0);
}

#[test]
fn malformed_handshake_carries_the_line() {
    let (core, init) = RunnerCore::new(
        InitEvent::Malformed { line: "not json".to_string() },
        Some(1000),
    );
    match init {
        Err(ProgramError::InitError { summary, details }) => {
            assert_eq!(summary, "robot handshake line did not decode");
            assert_eq!(details.as_deref(), Some("not json"));
        }
        other => panic!("unexpected init outcome: {:?}", other),
    }
    assert_eq!(core.state, RunnerState::Faulted);
}

#[test]
fn robot_reported_init_failure_is_passed_through() {
    let reported = ProgramError::Runtime { message: "import failed".to_string() };
    let (core, init) = RunnerCore::new(InitEvent::Reported { error: reported.clone() }, None);
    assert_eq!(init.unwrap_err(), reported);
    assert_eq!(core.state, RunnerState::Faulted);
}

#[test]
fn expired_timer_reports_the_configured_duration_and_faults() {
    let (mut core, init) = RunnerCore::new(InitEvent::Greeted, None);
    assert!(init.is_ok());
    core.set_timeout(50);
    let turn = core.begin_turn();
    assert_eq!(turn, 1);
    let r = core.finish_turn(TurnEvent::TimerExpired);
    match r {
        Err(ProgramError::Timeout { millis }) => assert_eq!(millis, 50),
        other => panic!("unexpected turn outcome: {:?}", other),
    }
    assert_eq!(core.state, RunnerState::Faulted);
    assert_eq!(core.turns_started, 1);
    assert_eq!(core.turns_finished, 1);
}

#[test]
fn a_response_is_never_a_timeout() {
    let (mut core, _) = RunnerCore::new(InitEvent::Greeted, Some(50));
    core.begin_turn();
    let r = core.finish_turn(TurnEvent::Responded { output: "acts".to_string() });
    assert_eq!(r.unwrap(), "acts");
    assert_eq!(core.state, RunnerState::Ready);
}

#[test]
fn malformed_reply_faults_with_the_line() {
    let (mut core, _) = RunnerCore::new(InitEvent::Greeted, None);
    core.begin_turn();
    let r = core.finish_turn(TurnEvent::Malformed { line: "garbage".to_string() });
    match r {
        Err(ProgramError::IO { message }) => {
            assert_eq!(message, "turn reply did not decode: garbage");
        }
        other => panic!("unexpected turn outcome: {:?}", other),
    }
    assert_eq!(core.state, RunnerState::Faulted);
}

#[test]
fn closed_stream_faults_mid_match() {
    let (mut core, _) = RunnerCore::new(InitEvent::Greeted, None);
    core.begin_turn();
    let r = core.finish_turn(TurnEvent::Closed);
    match r {
        Err(ProgramError::IO { message }) => {
            assert_eq!(message, "robot closed its stream mid-match");
        }
        other => panic!("unexpected turn outcome: {:?}", other),
    }
    assert_eq!(core.state, RunnerState::Faulted);
}

#[test]
fn robot_reported_turn_failure_leaves_the_runner_ready() {
    let (mut core, _) = RunnerCore::new(InitEvent::Greeted, None);
    core.begin_turn();
    let reported = ProgramError::Runtime { message: "division by zero".to_string() };
    let r = core.finish_turn(TurnEvent::Reported { error: reported.clone() });
    assert_eq!(r.unwrap_err(), reported);
    assert_eq!(core.state, RunnerState::Ready);
    let turn = core.begin_turn();
    assert_eq!(turn, 2);
}

#[test]
fn turns_are_strictly_sequential() {
    let (mut core, _) = RunnerCore::new(InitEvent::Greeted, None);
    core.begin_turn();
    assert_eq!(core.turns_started, core.turns_finished + 1);
    core.finish_turn(TurnEvent::Responded { output: "a".to_string() }).unwrap();
    assert_eq!(core.turns_started, core.turns_finished);
    core.begin_turn();
    assert_eq!(core.turns_started, 2);
    assert_eq!(core.turns_finished, 1);
}

#[test]
fn closing_releases_whatever_state_preceded() {
    let (mut ready, _) = RunnerCore::new(InitEvent::Greeted, None);
    ready.close();
    assert_eq!(ready.state, RunnerState::Closed);

    let (mut faulted, _) = RunnerCore::new(InitEvent::Closed, None);
    faulted.close();
    assert_eq!(faulted.state, RunnerState::Closed);
}
