//! The readiness prober: after the compute process is spawned, its health
//! endpoint is polled at a fixed interval until it answers or a fixed
//! overall timeout elapses. The waiting and the HTTP probe happen outside
//! this crate; the prober here is the verified clock of that loop, fed one
//! probe outcome at a time.

use vstd::prelude::*;

verus! {

/// What the prober says after one probe outcome.
#[derive(PartialEq, Eq, Structural, Clone, Copy, Debug)]
pub enum ProbeVerdict {
    /// The process answered: startup may complete.
    Ready,
    /// No answer yet and time remains: sleep one interval and probe again.
    KeepWaiting,
    /// No answer and the overall timeout has elapsed.
    TimedOut,
}

/// The prober's state: a fixed budget and the time spent so far.
pub struct ReadinessProber {
    /// Overall budget in milliseconds.
    pub timeout_ms: u64,
    /// Fixed pause between probes in milliseconds.
    pub interval_ms: u64,
    /// Time charged for the probes made so far, in milliseconds.
    pub elapsed_ms: u64,
}

impl ReadinessProber {
    /// The interval is positive and one more step cannot overflow the clock.
    pub open spec fn wf(self) -> bool {
        1 <= self.interval_ms && self.timeout_ms + self.interval_ms <= u64::MAX
    }

    /// One probe outcome, as a pure transition: a healthy answer ends the
    /// wait at once; an unhealthy one charges one interval, and the wait
    /// times out as soon as the charged time exceeds the budget.
    pub open spec fn spec_on_probe(self, healthy: bool) -> (ReadinessProber, ProbeVerdict) {
        if healthy {
            (self, ProbeVerdict::Ready)
        } else {
            let stepped = ReadinessProber {
                timeout_ms: self.timeout_ms,
                interval_ms: self.interval_ms,
                elapsed_ms: (self.elapsed_ms + self.interval_ms) as u64,
            };
            if stepped.elapsed_ms > self.timeout_ms {
                (stepped, ProbeVerdict::TimedOut)
            } else {
                (stepped, ProbeVerdict::KeepWaiting)
            }
        }
    }

    pub fn new(timeout_ms: u64, interval_ms: u64) -> (r: Self)
        requires
            1 <= interval_ms,
            timeout_ms + interval_ms <= u64::MAX,
        ensures
            r.wf(),
            r.timeout_ms == timeout_ms,
            r.interval_ms == interval_ms,
            r.elapsed_ms == 0,
    {
        ReadinessProber { timeout_ms, interval_ms, elapsed_ms: 0 }
    }

    /// Records one probe outcome and says whether to finish, wait on, or
    /// give up. Callable while the prober has not yet spent its budget.
    pub fn on_probe(&mut self, healthy: bool) -> (v: ProbeVerdict)
        requires
            old(self).wf(),
            old(self).elapsed_ms <= old(self).timeout_ms,
        ensures
            *final(self) == old(self).spec_on_probe(healthy).0,
            v == old(self).spec_on_probe(healthy).1,
            final(self).wf(),
            v is KeepWaiting ==> final(self).elapsed_ms <= final(self).timeout_ms,
    {
        if healthy {
            ProbeVerdict::Ready
        } else {
            self.elapsed_ms = self.elapsed_ms + self.interval_ms;
            if self.elapsed_ms > self.timeout_ms {
                ProbeVerdict::TimedOut
            } else {
                ProbeVerdict::KeepWaiting
            }
        }
    }
}

/// The verdict reached by feeding a sequence of probe outcomes to the
/// prober, stopping at the first verdict other than `KeepWaiting`;
/// `KeepWaiting` when the sequence runs out undecided.
pub open spec fn spec_probe_run(p: ReadinessProber, probes: Seq<bool>) -> ProbeVerdict
    decreases probes.len(),
{
    if probes.len() == 0 {
        ProbeVerdict::KeepWaiting
    } else {
        let step = p.spec_on_probe(probes[0]);
        if step.1 is KeepWaiting {
            spec_probe_run(step.0, probes.drop_first())
        } else {
            step.1
        }
    }
}

/// How many probe outcomes the run consumes before reaching its verdict
/// (all of them when it stays undecided).
pub open spec fn spec_probe_count(p: ReadinessProber, probes: Seq<bool>) -> int
    decreases probes.len(),
{
    if probes.len() == 0 {
        0
    } else {
        let step = p.spec_on_probe(probes[0]);
        if step.1 is KeepWaiting {
            1 + spec_probe_count(step.0, probes.drop_first())
        } else {
            1
        }
    }
}

/// A process that first answers at probe `i` is found ready, provided the
/// time charged up to that probe still lies within the budget; exactly
/// `i + 1` probes are consumed.
pub proof fn lemma_probe_run_ready(p: ReadinessProber, probes: Seq<bool>, i: int)
    requires
        p.wf(),
        0 <= i < probes.len(),
        probes[i],
        forall|j: int| 0 <= j < i ==> !probes[j],
        p.elapsed_ms + i * p.interval_ms <= p.timeout_ms,
    ensures
        spec_probe_run(p, probes) is Ready,
        spec_probe_count(p, probes) == i + 1,
    decreases i,
{
    if i == 0 {
    } else {
        let step = p.spec_on_probe(probes[0]);
        assert((i - 1) * p.interval_ms + p.interval_ms == i * p.interval_ms) by (nonlinear_arith);
        assert(step.0.elapsed_ms + (i - 1) * step.0.interval_ms <= step.0.timeout_ms);
        lemma_probe_run_ready(step.0, probes.drop_first(), i - 1);
    }
}

/// A process that never answers makes the run time out, as soon as the
/// probes on hand cover the budget; the number of probes consumed is
/// exactly the first that overruns it — neither earlier nor later.
pub proof fn lemma_probe_run_timeout(p: ReadinessProber, probes: Seq<bool>)
    requires
        p.wf(),
        forall|j: int| 0 <= j < probes.len() ==> !probes[j],
        p.elapsed_ms <= p.timeout_ms,
        p.elapsed_ms + probes.len() * p.interval_ms > p.timeout_ms,
    ensures
        spec_probe_run(p, probes) is TimedOut,
        p.elapsed_ms + spec_probe_count(p, probes) * p.interval_ms > p.timeout_ms,
        p.elapsed_ms + (spec_probe_count(p, probes) - 1) * p.interval_ms <= p.timeout_ms,
    decreases probes.len(),
{
    assert(probes.len() >= 1) by {
        if probes.len() == 0 {
            assert(p.elapsed_ms + 0 * p.interval_ms > p.timeout_ms) by (nonlinear_arith)
                requires
                    p.elapsed_ms + probes.len() * p.interval_ms > p.timeout_ms,
                    probes.len() == 0,
            ;
        }
    }
    let step = p.spec_on_probe(probes[0]);
    if step.1 is KeepWaiting {
        assert((probes.len() - 1) * p.interval_ms + p.interval_ms == probes.len() * p.interval_ms)
            by (nonlinear_arith);
        lemma_probe_run_timeout(step.0, probes.drop_first());
        let c = spec_probe_count(step.0, probes.drop_first());
        assert((c + 1) * p.interval_ms == c * p.interval_ms + p.interval_ms) by (nonlinear_arith);
        assert(c * p.interval_ms == (c - 1) * p.interval_ms + p.interval_ms) by (nonlinear_arith);
    } else {
        assert(1 * p.interval_ms == p.interval_ms) by (nonlinear_arith);
        assert(0 * p.interval_ms == 0) by (nonlinear_arith);
    }
}

/// Conversely, while the probes on hand still fit inside the budget, a
/// silent process has not yet been given up on: the wait goes on.
pub proof fn lemma_probe_run_not_early(p: ReadinessProber, probes: Seq<bool>)
    requires
        p.wf(),
        forall|j: int| 0 <= j < probes.len() ==> !probes[j],
        p.elapsed_ms + probes.len() * p.interval_ms <= p.timeout_ms,
    ensures
        spec_probe_run(p, probes) is KeepWaiting,
    decreases probes.len(),
{
    if probes.len() == 0 {
    } else {
        let step = p.spec_on_probe(probes[0]);
        assert((probes.len() - 1) * p.interval_ms + p.interval_ms == probes.len() * p.interval_ms)
            by (nonlinear_arith);
        assert(probes.len() * p.interval_ms >= 1 * p.interval_ms) by (nonlinear_arith)
            requires probes.len() >= 1,
        ;
        lemma_probe_run_not_early(step.0, probes.drop_first());
    }
}

/// However the probes turn out, the run never consumes more of them than
/// the budget covers: all but the last consumed probe fit inside the
/// timeout.
pub proof fn lemma_probe_count_bounded(p: ReadinessProber, probes: Seq<bool>)
    requires
        p.wf(),
        p.elapsed_ms <= p.timeout_ms,
    ensures
        p.elapsed_ms + (spec_probe_count(p, probes) - 1) * p.interval_ms <= p.timeout_ms,
    decreases probes.len(),
{
    if probes.len() == 0 {
        assert(p.elapsed_ms + (0 - 1) * p.interval_ms <= p.timeout_ms) by (nonlinear_arith)
            requires
                p.elapsed_ms <= p.timeout_ms,
                p.interval_ms >= 1,
        ;
    } else {
        let step = p.spec_on_probe(probes[0]);
        if step.1 is KeepWaiting {
            lemma_probe_count_bounded(step.0, probes.drop_first());
            let c = spec_probe_count(step.0, probes.drop_first());
            assert((c + 1 - 1) * p.interval_ms == (c - 1) * p.interval_ms + p.interval_ms)
                by (nonlinear_arith);
        } else {
            assert((1 - 1) * p.interval_ms == 0) by (nonlinear_arith);
        }
    }
}

/// Once the probes on hand cover the budget, the wait ends one way or the
/// other: it cannot stay undecided past the timeout.
pub proof fn lemma_probe_run_decided(p: ReadinessProber, probes: Seq<bool>)
    requires
        p.wf(),
        p.elapsed_ms <= p.timeout_ms,
        p.elapsed_ms + probes.len() * p.interval_ms > p.timeout_ms,
    ensures
        !(spec_probe_run(p, probes) is KeepWaiting),
    decreases probes.len(),
{
    assert(probes.len() >= 1) by {
        if probes.len() == 0 {
            assert(p.elapsed_ms + 0 * p.interval_ms > p.timeout_ms) by (nonlinear_arith)
                requires
                    p.elapsed_ms + probes.len() * p.interval_ms > p.timeout_ms,
                    probes.len() == 0,
            ;
        }
    }
    let step = p.spec_on_probe(probes[0]);
    if step.1 is KeepWaiting {
        assert((probes.len() - 1) * p.interval_ms + p.interval_ms == probes.len() * p.interval_ms)
            by (nonlinear_arith);
        lemma_probe_run_decided(step.0, probes.drop_first());
    }
}

} // verus!
