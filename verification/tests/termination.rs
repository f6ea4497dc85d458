use annalib::outcome::{NameOutcome, SignalAttempt, StopError, summarize};

fn attempt(pid: i32, delivered: bool) -> SignalAttempt {
    SignalAttempt { pid, delivered }
}

#[test]
fn no_such_process_to_stop() {
    assert_eq!(
        annalib::stop().ok().expect("Expected zero processes killed"),
        0
    );
}

#[test]
fn no_matches_anywhere_counts_zero() {
    let outcomes = vec![
        NameOutcome::Enumerated(vec![]),
        NameOutcome::Enumerated(vec![]),
        NameOutcome::Enumerated(vec![]),
    ];
    let report = summarize(outcomes).ok().expect("no systemic failure");
    assert_eq!(report.signaled, 0);
    assert_eq!(report.outcomes.len(), 3);
}

#[test]
fn three_signalable_processes_count_three() {
    let outcomes = vec![
        NameOutcome::Enumerated(vec![attempt(101, true), attempt(102, true)]),
        NameOutcome::Enumerated(vec![attempt(203, true)]),
        NameOutcome::Enumerated(vec![]),
    ];
    let report = summarize(outcomes).ok().expect("no systemic failure");
    assert_eq!(report.signaled, 3);
}

#[test]
fn one_already_exited_counts_two() {
    let outcomes = vec![
        NameOutcome::Enumerated(vec![attempt(101, true), attempt(102, false)]),
        NameOutcome::Enumerated(vec![attempt(203, true)]),
        NameOutcome::Enumerated(vec![]),
    ];
    let report = summarize(outcomes).ok().expect("no systemic failure");
    assert_eq!(report.signaled, 2);
}

#[test]
fn enumeration_unavailable_is_an_error_not_zero() {
    let outcomes = vec![
        NameOutcome::EnumerationFailed,
        NameOutcome::EnumerationFailed,
        NameOutcome::EnumerationFailed,
    ];
    let result = summarize(outcomes);
    assert!(matches!(result, Err(StopError::EnumerationUnavailable)));
}

#[test]
fn one_failed_enumeration_is_skipped_not_fatal() {
    let outcomes = vec![
        NameOutcome::Enumerated(vec![attempt(11, true)]),
        NameOutcome::EnumerationFailed,
        NameOutcome::Enumerated(vec![attempt(12, true), attempt(13, false)]),
    ];
    let report = summarize(outcomes).ok().expect("no systemic failure");
    assert_eq!(report.signaled, 2);
}

#[test]
fn refused_deliveries_do_not_reduce_the_rest() {
    let all_accepted = vec![
        NameOutcome::Enumerated(vec![attempt(21, true), attempt(22, true)]),
        NameOutcome::Enumerated(vec![attempt(23, true)]),
    ];
    let one_refused = vec![
        NameOutcome::Enumerated(vec![attempt(21, true), attempt(22, false)]),
        NameOutcome::Enumerated(vec![attempt(23, true)]),
    ];
    let full = summarize(all_accepted).ok().expect("no systemic failure");
    let partial = summarize(one_refused).ok().expect("no systemic failure");
    assert_eq!(full.signaled, 3);
    assert_eq!(partial.signaled, 2);
}

#[test]
fn second_pass_after_exits_counts_nothing_and_does_not_error() {
    let first = vec![
        NameOutcome::Enumerated(vec![attempt(31, true)]),
        NameOutcome::Enumerated(vec![]),
    ];
    let second = vec![
        NameOutcome::Enumerated(vec![]),
        NameOutcome::Enumerated(vec![]),
    ];
    assert_eq!(summarize(first).ok().expect("first pass").signaled, 1);
    assert_eq!(summarize(second).ok().expect("second pass").signaled, 0);
}

#[test]
fn empty_pass_is_not_a_systemic_failure() {
    let report = summarize(vec![]).ok().expect("nothing tried, nothing failed");
    assert_eq!(report.signaled, 0);
}

#[test]
fn report_keeps_the_per_name_record() {
    let outcomes = vec![
        NameOutcome::Enumerated(vec![attempt(41, true)]),
        NameOutcome::EnumerationFailed,
    ];
    let report = summarize(outcomes).ok().expect("no systemic failure");
    assert_eq!(report.outcomes.len(), 2);
    assert!(matches!(&report.outcomes[0], NameOutcome::Enumerated(a) if a.len() == 1));
    assert!(matches!(report.outcomes[1], NameOutcome::EnumerationFailed));
}

#[test]
fn kill_list_names_the_three_components() {
    let names = annalib::kill_list();
    assert_eq!(names, vec!["anna-monitor", "anna-route", "anna-kvs"]);
}

#[test]
fn terminate_all_without_names_signals_nothing() {
    let names: Vec<&str> = vec![];
    let report = annalib::terminate_all(&names).ok().expect("nothing tried");
    assert_eq!(report.signaled, 0);
    assert_eq!(report.outcomes.len(), 0);
}

#[test]
fn terminate_all_on_absent_names_counts_zero() {
    let names: Vec<&str> = vec!["annalib-test-absent-a", "annalib-test-absent-b"];
    let report = annalib::terminate_all(&names)
        .ok()
        .expect("enumeration works on this host");
    assert_eq!(report.signaled, 0);
    assert_eq!(report.outcomes.len(), 2);
}
