//! Library for working with a local deployment of the `anna` key-value store:
//! it discovers the store's component processes (monitor, routing tier and
//! key-value server) running on this host, requests their graceful
//! termination, and reports how many were successfully signaled.

use vstd::prelude::*;

pub mod info;
mod os;
pub mod outcome;

verus! {

use crate::outcome::{
    NameOutcome, SignalAttempt, StopError, TerminationReport, capped, summarize, systemic_failure,
    total_tally,
};

/// The fixed deployment topology: the monitor, the routing tier and the
/// key-value server, in the order in which they are stopped.
pub fn kill_list() -> (names: Vec<&'static str>)
    ensures
        names@.len() == 3,
        names@[0]@ == "anna-monitor"@,
        names@[1]@ == "anna-route"@,
        names@[2]@ == "anna-kvs"@,
{
    let mut names: Vec<&'static str> = Vec::new();
    names.push("anna-monitor");
    names.push("anna-route");
    names.push("anna-kvs");
    names
}

/// Attempt to signal every discovered identifier in turn, recording each
/// attempt's acceptance: one refused delivery never stops the remaining
/// attempts, it only goes into the record as not delivered.
fn signal_each(pids: &Vec<i32>) -> (attempts: Vec<SignalAttempt>)
    ensures
        attempts@.len() == pids@.len(),
        forall|k: int| 0 <= k < attempts@.len() ==> attempts@[k].pid == pids@[k],
{
    let mut attempts: Vec<SignalAttempt> = Vec::new();
    let mut i: usize = 0;
    while i < pids.len()
        invariant
            i <= pids@.len(),
            attempts@.len() == i,
            forall|k: int| 0 <= k < i ==> attempts@[k].pid == pids@[k],
        decreases pids@.len() - i,
    {
        let pid = pids[i];
        let delivered = os::signal_term(pid);
        attempts.push(SignalAttempt { pid, delivered });
        i = i + 1;
    }
    attempts
}

/// One best-effort termination pass over the given target names, in order:
/// enumerate each name's live processes, request graceful termination of
/// every identifier found, and tally the accepted signals. A name whose
/// enumeration fails contributes zero and the pass goes on; only a pass in
/// which no name at all could be enumerated is a systemic failure.
pub fn terminate_all(names: &Vec<&str>) -> (r: Result<TerminationReport, StopError>)
    ensures
        r matches Ok(rep) ==> {
            &&& rep.outcomes@.len() == names@.len()
            &&& rep.signaled as nat == capped(total_tally(rep.outcomes@))
            &&& !systemic_failure(rep.outcomes@)
        },
        r matches Err(e) ==> e is EnumerationUnavailable && names@.len() > 0,
{
    let mut outcomes: Vec<NameOutcome> = Vec::new();
    let mut i: usize = 0;
    while i < names.len()
        invariant
            i <= names@.len(),
            outcomes@.len() == i,
        decreases names@.len() - i,
    {
        let outcome = match os::locate(names[i]) {
            Some(pids) => NameOutcome::Enumerated(signal_each(&pids)),
            None => NameOutcome::EnumerationFailed,
        };
        outcomes.push(outcome);
        i = i + 1;
    }
    summarize(outcomes)
}

/// Stop the running store processes: for each fixed target name, find every
/// live process of that name and request its graceful termination. `Ok`
/// carries the number of accepted signals; the one error means the process
/// table could not be read for any name at all.
pub fn stop() -> (r: Result<usize, StopError>)
    ensures
        r matches Err(e) ==> e is EnumerationUnavailable,
{
    match terminate_all(&kill_list()) {
        Ok(report) => Ok(report.signaled),
        Err(e) => Err(e),
    }
}

} // verus!
