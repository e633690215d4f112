use novem_core::engine::{readiness_timeout_message, EmbeddedPythonEngine, EngineState};
use novem_core::probe::{ProbeVerdict, ReadinessProber};

#[test]
fn stop_with_no_process_is_a_noop() {
    let mut engine = EmbeddedPythonEngine::new();
    assert_eq!(engine.state, EngineState::Stopped);
    // However often stop is requested, nothing is owed and nothing changes.
    for _ in 0..5 {
        let kill_owed = engine.begin_stop();
        assert!(!kill_owed);
        assert_eq!(engine.state, EngineState::Stopped);
    }
}

#[test]
fn full_start_and_stop_cycle() {
    let mut engine = EmbeddedPythonEngine::new();
    assert_eq!(engine.get_port(), 8765);
    engine.begin_start("/eng".to_string());
    assert_eq!(engine.state, EngineState::Starting);
    engine.on_ready();
    assert_eq!(engine.state, EngineState::Running);
    let kill_owed = engine.begin_stop();
    assert!(kill_owed);
    assert_eq!(engine.state, EngineState::Stopping);
    engine.finish_stop();
    assert_eq!(engine.state, EngineState::Stopped);
}

#[test]
fn spawn_failure_returns_to_stopped() {
    let mut engine = EmbeddedPythonEngine::new();
    engine.begin_start("/eng".to_string());
    engine.on_spawn_failure();
    assert_eq!(engine.state, EngineState::Stopped);
    // The directory stays remembered, so a restart can be attempted.
    assert_eq!(engine.restart_target().unwrap(), "/eng");
}

#[test]
fn readiness_timeout_returns_to_stopped() {
    let mut engine = EmbeddedPythonEngine::new();
    engine.begin_start("/eng".to_string());
    engine.on_ready_timeout();
    assert_eq!(engine.state, EngineState::Stopped);
}

#[test]
fn restart_fails_without_a_remembered_directory() {
    let engine = EmbeddedPythonEngine::new();
    let r = engine.restart_target();
    assert_eq!(r.unwrap_err(), "Cannot restart: compute engine path not set");
}

#[test]
fn prober_succeeds_once_the_process_answers() {
    // The process starts answering five seconds in; timeout 30 s, interval 1 s.
    let mut prober = ReadinessProber::new(30_000, 1_000);
    for _ in 0..5 {
        assert_eq!(prober.on_probe(false), ProbeVerdict::KeepWaiting);
    }
    assert_eq!(prober.on_probe(true), ProbeVerdict::Ready);
}

#[test]
fn prober_times_out_after_the_budget_and_not_earlier() {
    let mut prober = ReadinessProber::new(30_000, 1_000);
    // Thirty unanswered probes still fit the budget...
    for _ in 0..30 {
        assert_eq!(prober.on_probe(false), ProbeVerdict::KeepWaiting);
    }
    // ...and the next one overruns it.
    assert_eq!(prober.on_probe(false), ProbeVerdict::TimedOut);
}

#[test]
fn timeout_message_names_the_budget() {
    assert_eq!(
        readiness_timeout_message(30_000),
        "FastAPI server failed to start within 30 seconds"
    );
}
