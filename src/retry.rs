//! The per-host retry loop as a state machine. The caller performs each step
//! the machine asks for (a probe or a sleep) and reports back.
use vstd::prelude::*;

verus! {

/// What a single probe of a host found.
#[derive(Debug, PartialEq, Eq)]
pub enum ProbeOutcome {
    /// The host answered with a success status within the timeout.
    Reachable,
    /// Timeout, refused connection, or a non-success status.
    Unreachable,
    /// The probe could not even be attempted (e.g. a malformed host); the
    /// text says why.
    Unusable(String),
}

/// How a host's loop ended.
#[derive(Debug, PartialEq, Eq)]
pub enum Verdict {
    Healthy,
    Unhealthy,
    /// The host could not be probed at all, for the reason given.
    Unusable(String),
}

/// The next thing the loop asks its driver to do.
#[derive(Debug, PartialEq, Eq)]
pub enum Step {
    /// Probe the host once and report the outcome.
    Probe,
    /// Sleep the configured interval and report back.
    Sleep,
    /// The loop is over.
    Finish(Verdict),
}

#[derive(Debug, PartialEq, Eq)]
pub enum Status {
    Running,
    Succeeded,
    /// Ended by a probe that could not be attempted, for the reason given.
    Aborted(String),
}

/// State of one host's retry loop.
#[derive(Debug)]
pub struct RetryLoop {
    /// Attempt budget.
    pub retries: usize,
    /// Probes made so far.
    pub attempts: usize,
    /// Sleeps taken so far.
    pub sleeps: usize,
    /// Whether the pause is also taken after the final failed probe.
    pub final_sleep: bool,
    pub status: Status,
}

/// The outcome of attempt `i` (0-based) in `outcomes`; attempts past its end fail.
pub open spec fn outcome_at(outcomes: Seq<ProbeOutcome>, i: int) -> ProbeOutcome {
    if 0 <= i < outcomes.len() {
        outcomes[i]
    } else {
        ProbeOutcome::Unreachable
    }
}

/// How one probe attempt turned out, from what the transport reported:
/// `status_success` is whether the answer's status was of the success class,
/// or `None` when no answer came; `unattemptable` holds the reason when the
/// request could not be made at all. An answer decides by its status; no
/// answer is a failed attempt unless the request could not be made.
pub fn classify(status_success: Option<bool>, unattemptable: Option<String>) -> (r: ProbeOutcome)
    ensures
        r == match status_success {
            Some(true) => ProbeOutcome::Reachable,
            Some(false) => ProbeOutcome::Unreachable,
            None => match unattemptable {
                Some(c) => ProbeOutcome::Unusable(c),
                None => ProbeOutcome::Unreachable,
            },
        },
{
    match status_success {
        Some(true) => ProbeOutcome::Reachable,
        Some(false) => ProbeOutcome::Unreachable,
        None => match unattemptable {
            Some(c) => ProbeOutcome::Unusable(c),
            None => ProbeOutcome::Unreachable,
        },
    }
}

impl RetryLoop {
    /// A loop that has not made any attempt yet, pausing after every failed
    /// probe, the final one included.
    pub open spec fn fresh(retries: usize) -> RetryLoop {
        RetryLoop::fresh_with(retries, true)
    }

    /// A loop that has not made any attempt yet.
    pub open spec fn fresh_with(retries: usize, final_sleep: bool) -> RetryLoop {
        RetryLoop { retries, attempts: 0, sleeps: 0, final_sleep, status: Status::Running }
    }

    pub open spec fn wf(self) -> bool {
        &&& self.sleeps <= self.attempts
        &&& self.attempts <= self.retries
        &&& self.attempts <= self.sleeps + 1
        &&& self.status != Status::Running ==> self.attempts == self.sleeps + 1
    }

    /// Every failed attempt is followed by a sleep (the final one only with
    /// `final_sleep`); a success or an unusable host ends the loop at once;
    /// the budget spent, the host is unhealthy.
    pub open spec fn next_step(self) -> Step {
        match self.status {
            Status::Succeeded => Step::Finish(Verdict::Healthy),
            Status::Aborted(c) => Step::Finish(Verdict::Unusable(c)),
            Status::Running => if self.sleeps < self.attempts {
                if self.attempts == self.retries && !self.final_sleep {
                    Step::Finish(Verdict::Unhealthy)
                } else {
                    Step::Sleep
                }
            } else if self.attempts < self.retries {
                Step::Probe
            } else {
                Step::Finish(Verdict::Unhealthy)
            },
        }
    }

    pub open spec fn after_probe(self, o: ProbeOutcome) -> RetryLoop {
        RetryLoop {
            attempts: (self.attempts + 1) as usize,
            status: match o {
                ProbeOutcome::Reachable => Status::Succeeded,
                ProbeOutcome::Unreachable => Status::Running,
                ProbeOutcome::Unusable(c) => Status::Aborted(c),
            },
            ..self
        }
    }

    pub open spec fn after_sleep(self) -> RetryLoop {
        RetryLoop { sleeps: (self.sleeps + 1) as usize, ..self }
    }

    /// Steps left at most: a probe and a sleep for each unspent attempt.
    pub open spec fn measure(self) -> int {
        2 * self.retries - self.attempts - self.sleeps
    }

    /// The state in which the loop finishes when attempt `i` has outcome
    /// `outcome_at(outcomes, i)`.
    pub open spec fn run(self, outcomes: Seq<ProbeOutcome>) -> RetryLoop
        decreases self.measure(),
        when self.wf()
    {
        match self.next_step() {
            Step::Probe => self.after_probe(outcome_at(outcomes, self.attempts as int)).run(outcomes),
            Step::Sleep => self.after_sleep().run(outcomes),
            Step::Finish(_) => self,
        }
    }

    pub fn new(retries: usize) -> (r: RetryLoop)
        ensures
            r == RetryLoop::fresh(retries),
            r.wf(),
    {
        RetryLoop::with_final_sleep(retries, true)
    }

    /// A loop that pauses after the final failed probe only if `final_sleep`.
    pub fn with_final_sleep(retries: usize, final_sleep: bool) -> (r: RetryLoop)
        ensures
            r == RetryLoop::fresh_with(retries, final_sleep),
            r.wf(),
    {
        RetryLoop { retries, attempts: 0, sleeps: 0, final_sleep, status: Status::Running }
    }

    pub fn next(&self) -> (r: Step)
        ensures
            r == self.next_step(),
    {
        match &self.status {
            Status::Succeeded => Step::Finish(Verdict::Healthy),
            Status::Aborted(c) => Step::Finish(Verdict::Unusable(c.clone())),
            Status::Running => if self.sleeps < self.attempts {
                if self.attempts == self.retries && !self.final_sleep {
                    Step::Finish(Verdict::Unhealthy)
                } else {
                    Step::Sleep
                }
            } else if self.attempts < self.retries {
                Step::Probe
            } else {
                Step::Finish(Verdict::Unhealthy)
            },
        }
    }

    /// The verdict of a loop that has finished.
    pub open spec fn verdict(self) -> Verdict {
        match self.next_step() {
            Step::Finish(v) => v,
            _ => Verdict::Unhealthy,
        }
    }

    /// Records the outcome of the probe that `next` asked for.
    pub fn record_probe(&mut self, o: ProbeOutcome)
        requires
            old(self).wf(),
            old(self).next_step() == Step::Probe,
        ensures
            *final(self) == old(self).after_probe(o),
            final(self).wf(),
            final(self).measure() < old(self).measure(),
    {
        self.attempts = self.attempts + 1;
        self.status = match o {
            ProbeOutcome::Reachable => Status::Succeeded,
            ProbeOutcome::Unreachable => Status::Running,
            ProbeOutcome::Unusable(c) => Status::Aborted(c),
        };
    }

    /// Records that the sleep that `next` asked for is over.
    pub fn record_sleep(&mut self)
        requires
            old(self).wf(),
            old(self).next_step() == Step::Sleep,
        ensures
            *final(self) == old(self).after_sleep(),
            final(self).wf(),
            final(self).measure() < old(self).measure(),
    {
        self.sleeps = self.sleeps + 1;
    }
}

/// With a budget of zero the loop finishes unhealthy at once, having made no
/// probe and taken no sleep, whatever the host would have answered.
pub proof fn lemma_zero_retries(outcomes: Seq<ProbeOutcome>)
    ensures
        RetryLoop::fresh(0).run(outcomes).attempts == 0,
        RetryLoop::fresh(0).run(outcomes).sleeps == 0,
        RetryLoop::fresh(0).run(outcomes).next_step() == Step::Finish(Verdict::Unhealthy),
{
    assert(RetryLoop::fresh(0).run(outcomes) == RetryLoop::fresh(0));
}

/// From a running state with no sleep owed, where attempts up to `k - 1`
/// (0-based) fail and attempt `k - 1` succeeds, the loop ends after exactly
/// `k` probes and `k - 1` sleeps.
proof fn lemma_success_from(s: RetryLoop, outcomes: Seq<ProbeOutcome>, k: int)
    requires
        s.wf(),
        s.status == Status::Running,
        s.sleeps == s.attempts,
        s.attempts < k <= s.retries,
        forall|j: int| s.attempts <= j < k - 1 ==> outcome_at(outcomes, j) == ProbeOutcome::Unreachable,
        outcome_at(outcomes, k - 1) == ProbeOutcome::Reachable,
    ensures
        s.run(outcomes).retries == s.retries,
        s.run(outcomes).attempts == k,
        s.run(outcomes).sleeps == k - 1,
        s.run(outcomes).next_step() == Step::Finish(Verdict::Healthy),
    decreases k - s.attempts,
{
    let o = outcome_at(outcomes, s.attempts as int);
    let p = s.after_probe(o);
    assert(s.run(outcomes) == p.run(outcomes));
    if s.attempts == k - 1 {
        assert(p.run(outcomes) == p);
    } else {
        let q = p.after_sleep();
        assert(p.run(outcomes) == q.run(outcomes));
        lemma_success_from(q, outcomes, k);
    }
}

/// If attempt `k` (1-based, within the budget) is the first to succeed, the
/// loop reports the host healthy after exactly `k` probes and `k - 1` sleeps:
/// no probe follows the success.
pub proof fn lemma_early_success(retries: usize, outcomes: Seq<ProbeOutcome>, k: int)
    requires
        1 <= k <= retries,
        forall|j: int| 0 <= j < k - 1 ==> outcome_at(outcomes, j) == ProbeOutcome::Unreachable,
        outcome_at(outcomes, k - 1) == ProbeOutcome::Reachable,
    ensures
        RetryLoop::fresh(retries).run(outcomes).attempts == k,
        RetryLoop::fresh(retries).run(outcomes).sleeps == k - 1,
        RetryLoop::fresh(retries).run(outcomes).next_step() == Step::Finish(Verdict::Healthy),
{
    lemma_success_from(RetryLoop::fresh(retries), outcomes, k);
}

/// From a running state with no sleep owed, where every remaining attempt
/// fails, the loop spends its whole budget and sleeps after every probe (but
/// the final one, without `final_sleep`).
proof fn lemma_exhausted_from(s: RetryLoop, outcomes: Seq<ProbeOutcome>)
    requires
        s.wf(),
        s.status == Status::Running,
        s.sleeps == s.attempts,
        forall|j: int| s.attempts <= j < s.retries ==> outcome_at(outcomes, j) == ProbeOutcome::Unreachable,
    ensures
        s.run(outcomes).attempts == s.retries,
        s.run(outcomes).sleeps == if s.final_sleep || s.attempts == s.retries {
            s.retries as int
        } else {
            s.retries - 1
        },
        s.run(outcomes).next_step() == Step::Finish(Verdict::Unhealthy),
    decreases s.retries - s.attempts,
{
    if s.attempts == s.retries {
        assert(s.run(outcomes) == s);
    } else {
        let p = s.after_probe(outcome_at(outcomes, s.attempts as int));
        assert(s.run(outcomes) == p.run(outcomes));
        if p.attempts == p.retries && !p.final_sleep {
            assert(p.run(outcomes) == p);
        } else {
            let q = p.after_sleep();
            assert(p.run(outcomes) == q.run(outcomes));
            lemma_exhausted_from(q, outcomes);
        }
    }
}

/// If no attempt within the budget succeeds, the host is reported unhealthy
/// after exactly `retries` probes and `retries` sleeps, the last sleep
/// coming after the final failed probe.
pub proof fn lemma_exhausted(retries: usize, outcomes: Seq<ProbeOutcome>)
    requires
        forall|j: int| 0 <= j < retries ==> outcome_at(outcomes, j) == ProbeOutcome::Unreachable,
    ensures
        RetryLoop::fresh(retries).run(outcomes).attempts == retries,
        RetryLoop::fresh(retries).run(outcomes).sleeps == retries,
        RetryLoop::fresh(retries).run(outcomes).next_step() == Step::Finish(Verdict::Unhealthy),
{
    lemma_exhausted_from(RetryLoop::fresh(retries), outcomes);
}

/// Without the pause after the final failed probe, a budget of `retries > 0`
/// that is spent in failures takes `retries` probes and `retries - 1` sleeps.
pub proof fn lemma_exhausted_without_final_sleep(retries: usize, outcomes: Seq<ProbeOutcome>)
    requires
        retries > 0,
        forall|j: int| 0 <= j < retries ==> outcome_at(outcomes, j) == ProbeOutcome::Unreachable,
    ensures
        RetryLoop::fresh_with(retries, false).run(outcomes).attempts == retries,
        RetryLoop::fresh_with(retries, false).run(outcomes).sleeps == retries - 1,
        RetryLoop::fresh_with(retries, false).run(outcomes).next_step() == Step::Finish(
            Verdict::Unhealthy,
        ),
{
    lemma_exhausted_from(RetryLoop::fresh_with(retries, false), outcomes);
}

} // verus!
