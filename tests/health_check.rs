use std::time::Duration;

use healthcheck::config::Config;
use healthcheck::health_check::{CheckError, HealthCheck};
use healthcheck::retry::{ProbeOutcome, Step, Verdict};

fn config(hosts: &[&str], retries: usize) -> Config {
    Config {
        hosts: hosts.iter().map(|h| h.to_string()).collect(),
        timeout: Duration::from_millis(100),
        retries,
        interval: Duration::from_millis(100),
    }
}

fn finish(hc: &HealthCheck, reachable: bool) -> Verdict {
    let mut lp = hc.start_loop();
    loop {
        match lp.next() {
            Step::Probe => lp.record_probe(if reachable {
                ProbeOutcome::Reachable
            } else {
                ProbeOutcome::Unreachable
            }),
            Step::Sleep => lp.record_sleep(),
            Step::Finish(v) => return v,
        }
    }
}

#[test]
fn new_keeps_the_config() {
    let cfg = config(&["a"], 2);
    let hc = HealthCheck::new(&cfg);
    assert!(std::ptr::eq(hc.config, &cfg));
}

#[test]
fn result_follows_input_order_not_completion_order() {
    let cfg = config(&["hostA", "hostB"], 2);
    let hc = HealthCheck::new(&cfg);
    let a = finish(&hc, false);
    let b = finish(&hc, true);
    let mut results = hc.collector();
    results.record(1, b);
    results.record(0, a);
    assert_eq!(
        hc.report(&results).unwrap(),
        vec![("hostA".to_string(), false), ("hostB".to_string(), true)]
    );
}

#[test]
fn duplicate_hosts_are_independent() {
    let cfg = config(&["h", "h", "h"], 1);
    let hc = HealthCheck::new(&cfg);
    let mut results = hc.collector();
    results.record(2, Verdict::Healthy);
    results.record(0, Verdict::Unhealthy);
    results.record(1, Verdict::Healthy);
    assert_eq!(
        hc.report(&results).unwrap(),
        vec![("h".to_string(), false), ("h".to_string(), true), ("h".to_string(), true)]
    );
}

#[test]
fn unusable_host_fails_the_run() {
    let cfg = config(&["ok", "bad1", "bad2"], 3);
    let hc = HealthCheck::new(&cfg);
    let mut results = hc.collector();
    results.record(2, Verdict::Unusable("no scheme".to_string()));
    results.record(0, Verdict::Healthy);
    results.record(1, Verdict::Unusable("empty host".to_string()));
    assert_eq!(
        hc.report(&results),
        Err(CheckError::Unusable("bad1".to_string(), "empty host".to_string()))
    );
}

#[test]
fn collector_starts_empty() {
    let cfg = config(&["a", "b", "c"], 3);
    let hc = HealthCheck::new(&cfg);
    assert_eq!(hc.collector().slots, vec![None, None, None]);
    assert_eq!(hc.start_loop().retries, 3);
}

#[test]
fn zero_retries_report_every_host_unhealthy() {
    let cfg = config(&["a", "b"], 0);
    let hc = HealthCheck::new(&cfg);
    let mut results = hc.collector();
    results.record(1, finish(&hc, true));
    results.record(0, finish(&hc, true));
    assert_eq!(
        hc.report(&results).unwrap(),
        vec![("a".to_string(), false), ("b".to_string(), false)]
    );
}
