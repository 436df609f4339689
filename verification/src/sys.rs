//! Trusted access to ambient operating-system state: the live process table,
//! signal delivery, and filesystem existence checks. Every function here
//! reads or pokes state that can change between two calls, so none of them
//! promises anything about what comes back; the verified callers state what
//! holds of every outcome.

use vstd::prelude::*;

use sysinfo::{PidExt, ProcessExt, Signal, SystemExt};

use crate::daemons::RawProcessInfo;
use crate::daemons::TermOutcome;

verus! {

/// Relies on sysinfo::System::new_all and SystemExt::processes for a fresh
/// snapshot of the live process table, and on ProcessExt::{pid, name, cmd,
/// user_id} (with PidExt::as_u32 and the Deref of sysinfo::Uid to u32) to
/// read each entry into plain values. The contents depend on the machine at
/// the moment of the call, so nothing is promised of them.
#[verifier::external_body]
pub(crate) fn snapshot_processes() -> Vec<RawProcessInfo> {
    sysinfo::System::new_all()
        .processes()
        .iter()
        .map(|(_, p)| RawProcessInfo {
            pid: p.pid().as_u32(),
            name: p.name().to_owned(),
            user_id: p.user_id().map(|u| **u),
            cmd: p.cmd().to_vec(),
        })
        .collect()
}

/// Relies on sysinfo::System::new_all, SystemExt::process and
/// ProcessExt::kill_with(Signal::Term): looks the pid up in a fresh snapshot
/// and asks the OS to deliver the termination signal. `Delivered` and
/// `Refused` report kill_with's Some(true) and Some(false), `Unsupported` its
/// None (the platform lacks that signal), and `NoProcess` a pid absent from
/// the snapshot. Which outcome occurs depends on the machine, so nothing is
/// promised of it.
#[verifier::external_body]
pub(crate) fn send_term_signal(pid: u32) -> TermOutcome {
    let system = sysinfo::System::new_all();
    match system.process(sysinfo::Pid::from_u32(pid)) {
        Some(process) => match process.kill_with(Signal::Term) {
            Some(true) => TermOutcome::Delivered,
            Some(false) => TermOutcome::Refused,
            None => TermOutcome::Unsupported,
        },
        None => TermOutcome::NoProcess,
    }
}

/// Relies on std::path::Path::exists: whether the path points at an existing
/// filesystem entity at the moment of the call. It only checks; it never
/// creates or modifies anything. The answer depends on the disk, so nothing
/// is promised of it.
#[verifier::external_body]
pub(crate) fn path_exists(p: &str) -> bool {
    std::path::Path::new(p).exists()
}

/// Relies on std::path::Path::canonicalize and OsStr-to-str conversion: the
/// absolute form of an existing path, or None when the path cannot be
/// resolved or is not valid text. It reads the filesystem and never modifies
/// it. The answer depends on the disk, so nothing is promised of it.
#[verifier::external_body]
pub(crate) fn canonicalize_path(p: &str) -> Option<String> {
    match std::path::Path::new(p).canonicalize() {
        Ok(buf) => buf.to_str().map(|s| s.to_owned()),
        Err(_) => None,
    }
}

} // verus!
