//! Fan-out bookkeeping: one retry loop per host, and the ordered run result
//! assembled from the loops' verdicts in whatever order they finish.
use vstd::prelude::*;

use crate::config::Config;
use crate::retry::{ProbeOutcome, RetryLoop, Verdict};

verus! {

/// A run that could not be carried out.
#[derive(Debug, PartialEq, Eq)]
pub enum CheckError {
    /// This host (first) could not be probed at all, for this reason (second).
    Unusable(String, String),
}

/// One slot per host, filled with the host's verdict when its loop ends.
pub struct RunCollector {
    pub slots: Vec<Option<Verdict>>,
}

/// `n` empty slots.
pub open spec fn empty_slots(n: nat) -> Seq<Option<Verdict>> {
    Seq::new(n, |i: int| None::<Verdict>)
}

/// The slots after recording `events` (host index, verdict) in order.
pub open spec fn apply_all(slots: Seq<Option<Verdict>>, events: Seq<(int, Verdict)>) -> Seq<
    Option<Verdict>,
>
    decreases events.len(),
{
    if events.len() == 0 {
        slots
    } else {
        apply_all(slots, events.drop_last()).update(events.last().0, Some(events.last().1))
    }
}

/// Whether no two events name the same host and all name a host below `n`.
pub open spec fn events_ok(events: Seq<(int, Verdict)>, n: nat) -> bool {
    &&& forall|j: int| 0 <= j < events.len() ==> 0 <= #[trigger] events[j].0 < n
    &&& forall|j1: int, j2: int|
        0 <= j1 < events.len() && 0 <= j2 < events.len() && j1 != j2 ==> #[trigger] events[j1].0
            != #[trigger] events[j2].0
}

/// Whichever order the loops finish in, each host's slot holds that host's own
/// verdict, and the slot of a host whose loop has not finished stays empty.
pub proof fn lemma_completion_order(n: nat, events: Seq<(int, Verdict)>)
    requires
        events_ok(events, n),
    ensures
        apply_all(empty_slots(n), events).len() == n,
        forall|j: int|
            0 <= j < events.len() ==> apply_all(empty_slots(n), events)[#[trigger] events[j].0]
                == Some(events[j].1),
        forall|i: int|
            0 <= i < n && (forall|j: int| 0 <= j < events.len() ==> #[trigger] events[j].0 != i)
                ==> apply_all(empty_slots(n), events)[i] is None,
    decreases events.len(),
{
    if events.len() > 0 {
        let init = events.drop_last();
        assert(events_ok(init, n)) by {
            assert forall|j1: int, j2: int|
                0 <= j1 < init.len() && 0 <= j2 < init.len() && j1 != j2 implies #[trigger] init[j1].0
                != #[trigger] init[j2].0 by {
                assert(init[j1] == events[j1] && init[j2] == events[j2]);
            }
            assert forall|j: int| 0 <= j < init.len() implies 0 <= #[trigger] init[j].0 < n by {
                assert(init[j] == events[j]);
            }
        }
        lemma_completion_order(n, init);
        let last = events.last();
        let before = apply_all(empty_slots(n), init);
        assert forall|j: int| 0 <= j < events.len() implies apply_all(
            empty_slots(n),
            events,
        )[#[trigger] events[j].0] == Some(events[j].1) by {
            if j < events.len() - 1 {
                assert(init[j] == events[j]);
                assert(events[j].0 != events[events.len() - 1].0);
            }
        }
        assert forall|i: int|
            0 <= i < n && (forall|j: int| 0 <= j < events.len() ==> #[trigger] events[j].0 != i)
                implies apply_all(empty_slots(n), events)[i] is None by {
            assert(events[events.len() - 1].0 != i);
            assert forall|j: int| 0 <= j < init.len() implies #[trigger] init[j].0 != i by {
                assert(init[j] == events[j]);
            }
        }
    }
}

/// Whether a slot holds the verdict of a host that could not be probed.
pub open spec fn is_unusable(s: Option<Verdict>) -> bool {
    s matches Some(Verdict::Unusable(_))
}

/// Whether some event names host `i`.
pub open spec fn names_host(events: Seq<(int, Verdict)>, i: int) -> bool {
    exists|j: int| 0 <= j < events.len() && #[trigger] events[j].0 == i
}

/// Whether every host below `n` is named by some event.
pub open spec fn events_cover(events: Seq<(int, Verdict)>, n: nat) -> bool {
    forall|i: int| 0 <= i < n ==> #[trigger] names_host(events, i)
}

/// Two runs whose loops end with the same verdict per host fill the same
/// slots, whatever order the loops finish in, so they report the same result
/// in the same (input) order.
pub proof fn lemma_same_slots_any_order(
    verdicts: Seq<Verdict>,
    e1: Seq<(int, Verdict)>,
    e2: Seq<(int, Verdict)>,
)
    requires
        events_ok(e1, verdicts.len()),
        events_ok(e2, verdicts.len()),
        events_cover(e1, verdicts.len()),
        events_cover(e2, verdicts.len()),
        forall|j: int| 0 <= j < e1.len() ==> (#[trigger] e1[j]).1 == verdicts[e1[j].0],
        forall|j: int| 0 <= j < e2.len() ==> (#[trigger] e2[j]).1 == verdicts[e2[j].0],
    ensures
        apply_all(empty_slots(verdicts.len()), e1) == apply_all(empty_slots(verdicts.len()), e2),
        apply_all(empty_slots(verdicts.len()), e1) == verdicts.map_values(|v: Verdict| Some(v)),
{
    lemma_slots_hold_verdicts(verdicts, e1);
    lemma_slots_hold_verdicts(verdicts, e2);
}

proof fn lemma_slots_hold_verdicts(verdicts: Seq<Verdict>, e: Seq<(int, Verdict)>)
    requires
        events_ok(e, verdicts.len()),
        events_cover(e, verdicts.len()),
        forall|j: int| 0 <= j < e.len() ==> (#[trigger] e[j]).1 == verdicts[e[j].0],
    ensures
        apply_all(empty_slots(verdicts.len()), e) == verdicts.map_values(|v: Verdict| Some(v)),
{
    let n = verdicts.len();
    lemma_completion_order(n, e);
    let r = apply_all(empty_slots(n), e);
    let want = verdicts.map_values(|v: Verdict| Some(v));
    assert forall|i: int| 0 <= i < n implies r[i] == want[i] by {
        assert(names_host(e, i));
        let j = choose|j: int| 0 <= j < e.len() && #[trigger] e[j].0 == i;
        assert(r[e[j].0] == Some(e[j].1));
    }
    assert(r =~= want);
}

/// With no attempt budget, every host's loop ends unhealthy whatever the hosts
/// would answer, so no slot is unusable and every slot says unhealthy: the
/// run reports every host as not healthy.
pub proof fn lemma_zero_retries_run(slots: Seq<Option<Verdict>>, outcomes: Seq<Seq<ProbeOutcome>>)
    requires
        slots.len() == outcomes.len(),
        forall|i: int|
            0 <= i < slots.len() ==> #[trigger] slots[i] == Some(
                RetryLoop::fresh(0).run(outcomes[i]).verdict(),
            ),
    ensures
        forall|i: int| 0 <= i < slots.len() ==> #[trigger] slots[i] == Some(Verdict::Unhealthy),
        forall|i: int| 0 <= i < slots.len() ==> !is_unusable(#[trigger] slots[i]),
{
    assert forall|i: int| 0 <= i < slots.len() implies #[trigger] slots[i] == Some(
        Verdict::Unhealthy,
    ) by {
        crate::retry::lemma_zero_retries(outcomes[i]);
    }
}

impl RunCollector {
    /// Whether every host's loop has reported.
    pub open spec fn complete(self) -> bool {
        forall|i: int| 0 <= i < self.slots@.len() ==> (#[trigger] self.slots@[i]) is Some
    }

    /// Index of the first host in input order whose loop found it unusable.
    pub open spec fn first_unusable(self, i: int) -> bool {
        &&& 0 <= i < self.slots@.len()
        &&& is_unusable(self.slots@[i])
        &&& forall|j: int| 0 <= j < i ==> !is_unusable(self.slots@[j])
    }

    pub fn new(n: usize) -> (r: RunCollector)
        ensures
            r.slots@ == empty_slots(n as nat),
    {
        let mut slots: Vec<Option<Verdict>> = Vec::new();
        let mut i: usize = 0;
        while i < n
            invariant
                i <= n,
                slots@ == empty_slots(i as nat),
            decreases n - i,
        {
            slots.push(None);
            i = i + 1;
            assert(slots@ =~= empty_slots(i as nat));
        }
        RunCollector { slots }
    }

    /// Records the verdict of host `index`.
    pub fn record(&mut self, index: usize, v: Verdict)
        requires
            index < old(self).slots@.len(),
        ensures
            final(self).slots@ == old(self).slots@.update(index as int, Some(v)),
    {
        self.slots.set(index, Some(v));
    }
}

/// The engine's view of one run over a configuration.
pub struct HealthCheck<'a> {
    pub config: &'a Config,
}

impl<'a> HealthCheck<'a> {
    pub fn new(config: &'a Config) -> (r: Self)
        ensures
            r.config == config,
    {
        Self { config }
    }

    /// A fresh loop for one host; every host gets the same budget.
    pub fn start_loop(&self) -> (r: RetryLoop)
        ensures
            r == RetryLoop::fresh(self.config.retries),
            r.wf(),
    {
        RetryLoop::new(self.config.retries)
    }

    /// Empty slots, one per configured host.
    pub fn collector(&self) -> (r: RunCollector)
        ensures
            r.slots@ == empty_slots(self.config.hosts@.len()),
    {
        RunCollector::new(self.config.hosts.len())
    }

    /// The run result in input order: each host with whether it is healthy;
    /// or, if some host could not be probed at all, the first such host.
    pub fn report(&self, results: &RunCollector) -> (r: Result<Vec<(String, bool)>, CheckError>)
        requires
            results.slots@.len() == self.config.hosts@.len(),
            results.complete(),
        ensures
            r is Err <==> exists|i: int|
                0 <= i < results.slots@.len() && is_unusable(results.slots@[i]),
            r matches Err(CheckError::Unusable(h, c)) ==> exists|i: int|
                #[trigger] results.first_unusable(i) && i < self.config.hosts@.len() && h@
                    == self.config.hosts@[i]@ && results.slots@[i] == Some(
                    Verdict::Unusable(c),
                ),
            r matches Ok(v) ==> v@.len() == self.config.hosts@.len() && forall|i: int|
                0 <= i < v@.len() ==> (#[trigger] v@[i]).0@ == self.config.hosts@[i]@ && v@[i].1
                    == (results.slots@[i] == Some(Verdict::Healthy)),
    {
        let hosts = &self.config.hosts;
        let n = hosts.len();
        let mut out: Vec<(String, bool)> = Vec::new();
        let mut i: usize = 0;
        while i < n
            invariant
                i <= n,
                n == hosts@.len(),
                hosts@ == self.config.hosts@,
                results.slots@.len() == n,
                results.complete(),
                out@.len() == i,
                forall|j: int| 0 <= j < i ==> !is_unusable(results.slots@[j]),
                forall|j: int|
                    0 <= j < i ==> (#[trigger] out@[j]).0@ == hosts@[j]@ && out@[j].1
                        == (results.slots@[j] == Some(Verdict::Healthy)),
            decreases n - i,
        {
            assert(results.slots@[i as int] is Some);
            match &results.slots[i] {
                Some(Verdict::Unusable(c)) => {
                    let h = hosts[i].clone();
                    let c = c.clone();
                    assert(results.first_unusable(i as int) && h@ == self.config.hosts@[i as int]@);
                    return Err(CheckError::Unusable(h, c));
                },
                Some(Verdict::Healthy) => out.push((hosts[i].clone(), true)),
                _ => out.push((hosts[i].clone(), false)),
            }
            i = i + 1;
        }
        Ok(out)
    }
}

} // verus!
