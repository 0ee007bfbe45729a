use healthcheck::retry::{classify, ProbeOutcome, RetryLoop, Step, Verdict};

fn copy(o: &ProbeOutcome) -> ProbeOutcome {
    match o {
        ProbeOutcome::Reachable => ProbeOutcome::Reachable,
        ProbeOutcome::Unreachable => ProbeOutcome::Unreachable,
        ProbeOutcome::Unusable(c) => ProbeOutcome::Unusable(c.clone()),
    }
}

/// Runs a loop, answering its probes from `outcomes` (later probes fail), and
/// returns the verdict with the numbers of probes and sleeps.
fn drive(retries: usize, outcomes: &[ProbeOutcome]) -> (Verdict, usize, usize) {
    drive_loop(RetryLoop::new(retries), outcomes)
}

fn drive_loop(mut lp: RetryLoop, outcomes: &[ProbeOutcome]) -> (Verdict, usize, usize) {
    let mut probes = 0;
    let mut sleeps = 0;
    loop {
        match lp.next() {
            Step::Probe => {
                let o = outcomes.get(probes).map(copy).unwrap_or(ProbeOutcome::Unreachable);
                probes += 1;
                lp.record_probe(o);
            }
            Step::Sleep => {
                sleeps += 1;
                lp.record_sleep();
            }
            Step::Finish(v) => return (v, probes, sleeps),
        }
    }
}

use ProbeOutcome::{Reachable, Unreachable, Unusable};

#[test]
fn zero_retries_make_no_probe() {
    assert_eq!(drive(0, &[Reachable]), (Verdict::Unhealthy, 0, 0));
    assert_eq!(drive(0, &[]), (Verdict::Unhealthy, 0, 0));
}

#[test]
fn first_attempt_success_needs_no_sleep() {
    assert_eq!(drive(5, &[Reachable]), (Verdict::Healthy, 1, 0));
}

#[test]
fn success_on_fourth_of_four_attempts() {
    let host = [Unreachable, Unreachable, Unreachable, Reachable];
    assert_eq!(drive(4, &host), (Verdict::Healthy, 4, 3));
}

#[test]
fn three_attempts_are_not_enough() {
    let host = [Unreachable, Unreachable, Unreachable, Reachable];
    assert_eq!(drive(3, &host), (Verdict::Unhealthy, 3, 3));
}

#[test]
fn early_success_stops_probing() {
    let host = [Unreachable, Reachable, Reachable, Reachable];
    assert_eq!(drive(10, &host), (Verdict::Healthy, 2, 1));
}

#[test]
fn unusable_host_ends_the_loop() {
    let host = [Unreachable, Unusable("bad url".to_string()), Reachable];
    assert_eq!(drive(5, &host), (Verdict::Unusable("bad url".to_string()), 2, 1));
}

#[test]
fn new_loop_state() {
    let lp = RetryLoop::new(3);
    assert_eq!(lp.retries, 3);
    assert_eq!(lp.attempts, 0);
    assert_eq!(lp.sleeps, 0);
    assert!(lp.final_sleep);
    assert_eq!(lp.next(), Step::Probe);
}

#[test]
fn final_pause_can_be_skipped() {
    let host = [Unreachable, Unreachable, Unreachable, Reachable];
    assert_eq!(drive_loop(RetryLoop::with_final_sleep(3, false), &host), (Verdict::Unhealthy, 3, 2));
    assert_eq!(drive_loop(RetryLoop::with_final_sleep(4, false), &host), (Verdict::Healthy, 4, 3));
    assert_eq!(drive_loop(RetryLoop::with_final_sleep(0, false), &host), (Verdict::Unhealthy, 0, 0));
}

#[test]
fn healthy_host_finishes_while_failing_host_retries() {
    let mut failing = RetryLoop::new(2);
    let mut healthy = RetryLoop::new(2);
    assert_eq!(failing.next(), Step::Probe);
    failing.record_probe(Unreachable);
    assert_eq!(healthy.next(), Step::Probe);
    healthy.record_probe(Reachable);
    assert_eq!(healthy.next(), Step::Finish(Verdict::Healthy));
    assert_eq!(failing.next(), Step::Sleep);
    failing.record_sleep();
    assert_eq!(failing.next(), Step::Probe);
    failing.record_probe(Unreachable);
    failing.record_sleep();
    assert_eq!(failing.next(), Step::Finish(Verdict::Unhealthy));
    assert_eq!(healthy.attempts, 1);
    assert_eq!(healthy.sleeps, 0);
}

#[test]
fn classify_outcomes() {
    assert_eq!(classify(Some(true), None), Reachable);
    assert_eq!(classify(Some(false), None), Unreachable);
    assert_eq!(classify(None, None), Unreachable);
    assert_eq!(classify(None, Some("bad url".to_string())), Unusable("bad url".to_string()));
    assert_eq!(classify(Some(true), Some("ignored".to_string())), Reachable);
}
