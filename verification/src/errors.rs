//! The error taxonomy of the daemon registry and lifecycle operations, with a
//! verified textual rendering for each case.

use vstd::prelude::*;

use crate::text::spec_dec_chars;
use crate::text::u32_to_string;

verus! {

/// What can go wrong when querying the registry, resolving a socket, or
/// terminating a daemon.
#[derive(Debug)]
pub enum DaemonError {
    /// No daemon with the given socket name is currently active.
    NotFound(String),
    /// The daemon process exists but the socket file at the carried path does
    /// not.
    SocketMissing(String),
    /// The operating system refused delivery of the termination signal to the
    /// named daemon.
    SignalRefused { name: String, pid: u32 },
    /// The platform offers no termination signal.
    UnsupportedSignal,
    /// The process with the carried pid no longer exists.
    ProcessVanished(u32),
    /// The file that a client was asked to visit does not exist.
    FileMissing(String),
}

/// The rendered description of each error.
pub open spec fn spec_message(e: DaemonError) -> Seq<char> {
    match e {
        DaemonError::NotFound(name) => "No Emacs daemon found with socket name "@ + name@,
        DaemonError::SocketMissing(path) => "Daemon socket at path "@ + path@
            + " does not exist."@,
        DaemonError::SignalRefused { name, pid } =>
            "Error trying to send kill signal to Emacs daemon '"@ + name@ + "' with Pid "@
            + spec_dec_chars(pid as nat) + "."@,
        DaemonError::UnsupportedSignal => "Signal::Term does not exist on this system."@,
        DaemonError::ProcessVanished(pid) =>
            "Error trying to send kill signal to Emacs daemon. No process found with Pid "@
            + spec_dec_chars(pid as nat) + "."@,
        DaemonError::FileMissing(path) => "File path "@ + path@ + " does not exist."@,
    }
}

impl DaemonError {
    /// A human-readable description of the error.
    pub fn message(&self) -> (r: String)
        ensures
            r@ == spec_message(*self),
    {
        match self {
            DaemonError::NotFound(name) => {
                let mut out = "No Emacs daemon found with socket name ".to_owned();
                out.append(name.as_str());
                out
            },
            DaemonError::SocketMissing(path) => {
                let mut out = "Daemon socket at path ".to_owned();
                out.append(path.as_str());
                out.append(" does not exist.");
                out
            },
            DaemonError::SignalRefused { name, pid } => {
                let mut out = "Error trying to send kill signal to Emacs daemon '".to_owned();
                out.append(name.as_str());
                out.append("' with Pid ");
                let digits = u32_to_string(*pid);
                out.append(digits.as_str());
                out.append(".");
                out
            },
            DaemonError::UnsupportedSignal => "Signal::Term does not exist on this system."
                .to_owned(),
            DaemonError::ProcessVanished(pid) => {
                let mut out =
                    "Error trying to send kill signal to Emacs daemon. No process found with Pid "
                    .to_owned();
                let digits = u32_to_string(*pid);
                out.append(digits.as_str());
                out.append(".");
                out
            },
            DaemonError::FileMissing(path) => {
                let mut out = "File path ".to_owned();
                out.append(path.as_str());
                out.append(" does not exist.");
                out
            },
        }
    }
}

} // verus!
