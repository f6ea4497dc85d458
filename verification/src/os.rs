//! The two OS primitives the library consumes, each behind a trusted wrapper:
//! a fresh snapshot of the process table filtered by exact name, and graceful
//! termination (SIGTERM) of one process. Both read or touch ambient OS state,
//! so their contracts promise nothing about which values come back.

use vstd::prelude::*;

verus! {

/// Relies on sysinfo: `System::new_all` takes a fresh snapshot of the live
/// process table and `processes_by_exact_name` yields the processes whose
/// name matches `name` exactly (no substring matching); `IS_SUPPORTED_SYSTEM`
/// is false on platforms where no table can be read, the one enumeration
/// failure sysinfo exposes. Which identifiers come back depends on what runs
/// on the host at call time, so nothing is promised of them.
#[verifier::external_body]
pub(crate) fn locate(name: &str) -> (pids: Option<Vec<i32>>)
{
    if !sysinfo::IS_SUPPORTED_SYSTEM {
        return None;
    }
    let system = sysinfo::System::new_all();
    Some(
        system
            .processes_by_exact_name(name.as_ref())
            .map(|p| p.pid().as_u32() as i32)
            .collect(),
    )
}

/// Relies on nix: `sys::signal::kill` asks the OS to deliver SIGTERM to the
/// identified process and returns `Ok` exactly when the OS accepted the
/// signal. Acceptance depends on what runs on the host and on the caller's
/// permissions at call time, so nothing is promised of the answer.
#[verifier::external_body]
pub(crate) fn signal_term(pid: i32) -> (delivered: bool)
{
    nix::sys::signal::kill(
        nix::unistd::Pid::from_raw(pid),
        Some(nix::sys::signal::Signal::SIGTERM),
    )
    .is_ok()
}

} // verus!
