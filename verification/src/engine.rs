//! The process supervisor's lifecycle state machine.
//!
//! The supervisor owns at most one child process. Spawning, killing,
//! waiting and sleeping happen outside this crate; each of those actions'
//! outcomes comes back here as an event, and the transitions below — all
//! pure and verified — decide what the state becomes and what action is
//! owed next.

use vstd::prelude::*;

use crate::probe::{spec_probe_run, ReadinessProber};
use crate::text::{spec_dec, u64_to_dec};

verus! {

/// The lifecycle states of the supervised process.
#[derive(PartialEq, Eq, Structural, Clone, Copy, Debug)]
pub enum EngineState {
    /// No process is held.
    Stopped,
    /// A process was spawned and is being polled for readiness.
    Starting,
    /// The process answered a readiness probe and serves requests.
    Running,
    /// A termination signal is being delivered and awaited.
    Stopping,
}

/// The supervisor's state: the lifecycle state, the fixed local port the
/// process is bound to, and the engine directory remembered from the last
/// start so that a restart can reuse it.
pub struct EmbeddedPythonEngine {
    pub state: EngineState,
    pub port: u16,
    pub compute_engine_path: Option<String>,
}

/// The port every supervised process binds to.
pub const ENGINE_PORT: u16 = 8765;

impl EmbeddedPythonEngine {
    /// While a process is starting or running, the directory it was
    /// started from is remembered.
    pub open spec fn wf(self) -> bool {
        (self.state is Starting || self.state is Running) ==> self.compute_engine_path is Some
    }

    pub open spec fn spec_begin_start(self, dir: String) -> EmbeddedPythonEngine {
        EmbeddedPythonEngine {
            state: EngineState::Starting,
            port: self.port,
            compute_engine_path: Some(dir),
        }
    }

    pub open spec fn spec_on_spawn_failure(self) -> EmbeddedPythonEngine {
        EmbeddedPythonEngine { state: EngineState::Stopped, ..self }
    }

    pub open spec fn spec_on_ready(self) -> EmbeddedPythonEngine {
        EmbeddedPythonEngine { state: EngineState::Running, ..self }
    }

    pub open spec fn spec_on_ready_timeout(self) -> EmbeddedPythonEngine {
        EmbeddedPythonEngine { state: EngineState::Stopped, ..self }
    }

    /// Pure form of `begin_stop`: the boolean says whether a process is
    /// held and so a termination action is owed.
    pub open spec fn spec_begin_stop(self) -> (EmbeddedPythonEngine, bool) {
        if self.state is Starting || self.state is Running {
            (EmbeddedPythonEngine { state: EngineState::Stopping, ..self }, true)
        } else {
            (self, false)
        }
    }

    pub open spec fn spec_finish_stop(self) -> EmbeddedPythonEngine {
        EmbeddedPythonEngine { state: EngineState::Stopped, ..self }
    }

    /// A fresh supervisor: stopped, bound to the canonical port, with no
    /// directory remembered yet.
    pub fn new() -> (r: Self)
        ensures
            r.wf(),
            r.state is Stopped,
            r.port == ENGINE_PORT,
            r.compute_engine_path is None,
    {
        EmbeddedPythonEngine {
            state: EngineState::Stopped,
            port: ENGINE_PORT,
            compute_engine_path: None,
        }
    }

    /// The fixed local port; exposed even while the process is down so
    /// that callers can pre-format URLs.
    pub fn get_port(&self) -> (r: u16)
        ensures
            r == self.port,
    {
        self.port
    }

    /// Records the engine directory and enters `Starting`; the caller owes
    /// a spawn in that directory.
    pub fn begin_start(&mut self, dir: String)
        requires
            old(self).state is Stopped,
        ensures
            *final(self) == old(self).spec_begin_start(dir),
            final(self).wf(),
    {
        self.state = EngineState::Starting;
        self.compute_engine_path = Some(dir);
    }

    /// The spawn failed: back to `Stopped`; the directory stays remembered.
    pub fn on_spawn_failure(&mut self)
        requires
            old(self).state is Starting,
        ensures
            *final(self) == old(self).spec_on_spawn_failure(),
            final(self).wf(),
    {
        self.state = EngineState::Stopped;
    }

    /// A readiness probe answered: the process is `Running`.
    pub fn on_ready(&mut self)
        requires
            old(self).state is Starting,
            old(self).wf(),
        ensures
            *final(self) == old(self).spec_on_ready(),
            final(self).wf(),
    {
        self.state = EngineState::Running;
    }

    /// The readiness budget elapsed unanswered: back to `Stopped`.
    pub fn on_ready_timeout(&mut self)
        requires
            old(self).state is Starting,
        ensures
            *final(self) == old(self).spec_on_ready_timeout(),
            final(self).wf(),
    {
        self.state = EngineState::Stopped;
    }

    /// Requests a stop. With no process held this succeeds as a no-op and
    /// returns `false`; otherwise the state becomes `Stopping` and the
    /// caller owes a kill-and-wait, then `finish_stop`. Safe to call from
    /// a shutdown hook in any state.
    pub fn begin_stop(&mut self) -> (kill_owed: bool)
        ensures
            *final(self) == old(self).spec_begin_stop().0,
            kill_owed == old(self).spec_begin_stop().1,
            final(self).wf(),
    {
        match self.state {
            EngineState::Starting | EngineState::Running => {
                self.state = EngineState::Stopping;
                true
            },
            _ => false,
        }
    }

    /// The held process has exited and its handle is cleared.
    pub fn finish_stop(&mut self)
        requires
            old(self).state is Stopping,
        ensures
            *final(self) == old(self).spec_finish_stop(),
            final(self).wf(),
    {
        self.state = EngineState::Stopped;
    }

    /// The directory a restart would start from: the remembered one, or a
    /// descriptive failure when none was ever resolved.
    pub fn restart_target(&self) -> (r: Result<String, String>)
        ensures
            match r {
                Ok(dir) => self.compute_engine_path is Some
                    && dir@ == self.compute_engine_path->0@,
                Err(m) => self.compute_engine_path is None
                    && m@ == "Cannot restart: compute engine path not set"@,
            },
    {
        match &self.compute_engine_path {
            Some(dir) => Ok(dir.clone()),
            None => Err(String::from_str("Cannot restart: compute engine path not set")),
        }
    }
}

/// The readiness-timeout failure, with the budget it names:
/// `"FastAPI server failed to start within N seconds"`.
pub fn readiness_timeout_message(timeout_ms: u64) -> (r: String)
    ensures
        r@ == "FastAPI server failed to start within "@ + spec_dec(timeout_ms as int / 1000)
            + " seconds"@,
{
    let secs = u64_to_dec(timeout_ms / 1000);
    String::from_str("FastAPI server failed to start within ").concat(secs.as_str()).concat(
        " seconds",
    )
}

/// One whole start attempt, as seen from the events it exchanges: enter
/// `Starting`; if the spawn fails, back to `Stopped`; otherwise the probe
/// run decides between `Running` and `Stopped`. The boolean reports
/// success.
pub open spec fn spec_start_exchange(
    e: EmbeddedPythonEngine,
    dir: String,
    spawn_ok: bool,
    p: ReadinessProber,
    probes: Seq<bool>,
) -> (EmbeddedPythonEngine, bool) {
    let started = e.spec_begin_start(dir);
    if !spawn_ok {
        (started.spec_on_spawn_failure(), false)
    } else if spec_probe_run(p, probes) is Ready {
        (started.spec_on_ready(), true)
    } else {
        (started.spec_on_ready_timeout(), false)
    }
}

/// One whole restart: stop whatever is held — finishing a stop already in
/// flight before anything else — then start again from the remembered
/// directory; it fails without starting when none is remembered.
pub open spec fn spec_restart(
    e: EmbeddedPythonEngine,
    spawn_ok: bool,
    p: ReadinessProber,
    probes: Seq<bool>,
) -> (EmbeddedPythonEngine, bool) {
    let stop_step = e.spec_begin_stop();
    let stopped = if stop_step.0.state is Stopping {
        stop_step.0.spec_finish_stop()
    } else {
        stop_step.0
    };
    match stopped.compute_engine_path {
        Some(dir) => spec_start_exchange(stopped, dir, spawn_ok, p, probes),
        None => (stopped, false),
    }
}

/// With no process running, stopping is a no-op that succeeds, however
/// often it is repeated.
pub open spec fn spec_stops(e: EmbeddedPythonEngine, n: nat) -> EmbeddedPythonEngine
    decreases n,
{
    if n == 0 {
        e
    } else {
        spec_stops(e.spec_begin_stop().0, (n - 1) as nat)
    }
}

/// Stop is idempotent: in `Stopped`, one stop owes no action and changes
/// nothing, and so any number of stops in a row change nothing.
pub proof fn lemma_stop_idempotent(e: EmbeddedPythonEngine, n: nat)
    requires
        e.state is Stopped,
    ensures
        e.spec_begin_stop() == (e, false),
        spec_stops(e, n) == e,
    decreases n,
{
    if n > 0 {
        lemma_stop_idempotent(e, (n - 1) as nat);
    }
}

/// From any supervisor state: a restart succeeds exactly when a directory
/// is remembered, the spawn works and a readiness probe answers within
/// the budget; it ends in `Running` exactly when it reports success, and
/// in `Stopped` when it reports failure — never left in `Starting` or
/// `Stopping`. The wait it makes is bound by the readiness budget: of the
/// probes the run consumes, all but the last fit inside the timeout.
pub proof fn lemma_restart_terminal(
    e: EmbeddedPythonEngine,
    spawn_ok: bool,
    p: ReadinessProber,
    probes: Seq<bool>,
)
    requires
        p.wf(),
        p.elapsed_ms == 0,
    ensures
        ({
            let r = spec_restart(e, spawn_ok, p, probes);
            &&& r.1 == (e.compute_engine_path is Some && spawn_ok && spec_probe_run(p, probes)
                is Ready)
            &&& r.1 ==> r.0.state is Running
            &&& !r.1 ==> r.0.state is Stopped
            &&& !(r.0.state is Starting)
            &&& !(r.0.state is Stopping)
        }),
        crate::probe::spec_probe_count(p, probes) * p.interval_ms <= p.timeout_ms
            + p.interval_ms,
{
    crate::probe::lemma_probe_count_bounded(p, probes);
    let c = crate::probe::spec_probe_count(p, probes);
    assert((c - 1) * p.interval_ms == c * p.interval_ms - p.interval_ms) by (nonlinear_arith);
}

} // verus!
