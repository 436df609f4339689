//! Connecting a client to a running daemon: locate the daemon in the live
//! registry, resolve its socket file, check the file to visit, and describe
//! the client process to spawn. The spawn itself is I/O and lives outside
//! the library.

use vstd::prelude::*;

use crate::config::Config;
use crate::daemons;
use crate::daemons::spec_daemons_from;
use crate::daemons::DaemonProcess;
use crate::daemons::RawProcessView;
use crate::errors::DaemonError;
use crate::standard_styled::CommandParts;
use crate::sys;
use crate::text::spec_join_path;

verus! {

/// A client process waiting to be spawned: which socket to connect to, which
/// file to visit, the fallback editor, and whether to open a new frame.
#[derive(Debug)]
pub struct ClientProcess {
    pub daemon_socket: String,
    pub visit_file: String,
    pub alternate_editor: Option<String>,
    pub create_new_frame: bool,
}

impl Clone for ClientProcess {
    fn clone(&self) -> (r: Self)
        ensures
            r.daemon_socket@ == self.daemon_socket@,
            r.visit_file@ == self.visit_file@,
            r.alternate_editor is Some <==> self.alternate_editor is Some,
            r.alternate_editor is Some ==> r.alternate_editor.unwrap()@
                == self.alternate_editor.unwrap()@,
            r.create_new_frame == self.create_new_frame,
    {
        ClientProcess {
            daemon_socket: self.daemon_socket.clone(),
            visit_file: self.visit_file.clone(),
            alternate_editor: match &self.alternate_editor {
                Some(e) => Some(e.clone()),
                None => None,
            },
            create_new_frame: self.create_new_frame,
        }
    }
}

impl ClientProcess {
    /// A client for the given socket path and file, with the defaults the
    /// connect flow uses: no alternate editor, a new frame.
    pub fn with_daemon(socket_name: String, visit_file: String) -> (r: Self)
        ensures
            r.daemon_socket@ == socket_name@,
            r.visit_file@ == visit_file@,
            r.alternate_editor is None,
            r.create_new_frame,
    {
        ClientProcess {
            daemon_socket: socket_name,
            visit_file,
            alternate_editor: None,
            create_new_frame: true,
        }
    }

    /// The command that spawns this client, given the canonical form of the
    /// file to visit: the client executable with the frame flag, the socket
    /// name, the alternate editor (defaulting to the configured fallback),
    /// and the canonical path as the final argument.
    pub fn client_command(&self, config: &Config, canonical: String) -> (r: CommandParts)
        ensures
            r.program@ == "emacsclient"@,
            r.args@.len() == 4,
            r.args@[0]@ == (if self.create_new_frame {
                "--create-frame"@
            } else {
                "--reuse-frame"@
            }),
            r.args@[1]@ == "--socket-name="@ + self.daemon_socket@,
            r.args@[2]@ == "--alternate-editor="@ + (match self.alternate_editor {
                Some(e) => e@,
                None => config.editor@,
            }),
            r.args@[3]@ == canonical@,
    {
        let mut args: Vec<String> = Vec::new();
        if self.create_new_frame {
            args.push("--create-frame".to_owned());
        } else {
            args.push("--reuse-frame".to_owned());
        }
        let mut socket_arg = "--socket-name=".to_owned();
        socket_arg.append(self.daemon_socket.as_str());
        args.push(socket_arg);
        let mut editor_arg = "--alternate-editor=".to_owned();
        match &self.alternate_editor {
            Some(e) => editor_arg.append(e.as_str()),
            None => editor_arg.append(config.alternative_editor().as_str()),
        }
        args.push(editor_arg);
        args.push(canonical);
        CommandParts { program: "emacsclient".to_owned(), args }
    }

    /// The command that spawns this client. Canonicalization asks the
    /// filesystem, so the final argument depends on the disk: whatever came
    /// back is handed to `client_command`, which fixes the whole argument
    /// list from it; a file that cannot be resolved yields `FileMissing`.
    pub fn spawn_command(&self, config: &Config) -> (r: Result<CommandParts, DaemonError>)
        ensures
            match r {
                Ok(c) => {
                    &&& c.program@ == "emacsclient"@
                    &&& c.args@.len() == 4
                    &&& c.args@[0]@ == (if self.create_new_frame {
                        "--create-frame"@
                    } else {
                        "--reuse-frame"@
                    })
                    &&& c.args@[1]@ == "--socket-name="@ + self.daemon_socket@
                    &&& c.args@[2]@ == "--alternate-editor="@ + (match self.alternate_editor {
                        Some(e) => e@,
                        None => config.editor@,
                    })
                },
                Err(e) => e matches DaemonError::FileMissing(f) && f@ == self.visit_file@,
            },
    {
        match sys::canonicalize_path(self.visit_file.as_str()) {
            None => Err(DaemonError::FileMissing(self.visit_file.clone())),
            Some(canonical) => Ok(self.client_command(config, canonical)),
        }
    }
}

/// Decide what connecting to `daemon_name` returns, once the registry has
/// been scanned and the filesystem has been asked: no record carrying the
/// name yields `NotFound` with that name; a matching record whose socket
/// file is gone yields `SocketMissing` with the attempted path; a matching
/// record with its socket but without the file to visit yields `FileMissing`
/// with that file; and a matching record with both yields the client, which
/// points at the resolved socket path and the given file. Nothing else can
/// come out.
pub fn connect_among(
    daemons: &Vec<DaemonProcess>,
    daemon_name: &str,
    file: &str,
    config: &Config,
    socket_on_disk: bool,
    file_on_disk: bool,
) -> (r: Result<ClientProcess, DaemonError>)
    ensures
        ({
            let expected = spec_join_path(config.server_socket_dir@, daemon_name@);
            let absent = forall|j: int|
                0 <= j < daemons@.len() ==> (#[trigger] daemons@[j]@.socket_name) != daemon_name@;
            if absent {
                r matches Err(DaemonError::NotFound(n)) && n@ == daemon_name@
            } else if !socket_on_disk {
                r matches Err(DaemonError::SocketMissing(p)) && p@ == expected
            } else if !file_on_disk {
                r matches Err(DaemonError::FileMissing(f)) && f@ == file@
            } else {
                r matches Ok(c) && c.daemon_socket@ == expected && c.visit_file@ == file@
                    && c.alternate_editor is None && c.create_new_frame
            }
        }),
{
    let expected = crate::text::join_path(config.server_socket_dir().as_str(), daemon_name);
    match daemons::find_by_name(daemons, daemon_name) {
        None => Err(DaemonError::NotFound(daemon_name.to_owned())),
        Some(_) => match daemons::socket_lookup(expected, socket_on_disk) {
            Err(e) => Err(e),
            Ok(socket) => {
                if file_on_disk {
                    Ok(ClientProcess::with_daemon(socket, file.to_owned()))
                } else {
                    Err(DaemonError::FileMissing(file.to_owned()))
                }
            },
        },
    }
}

/// Scan the live registry, resolve the named daemon's socket file, check the
/// file to visit, and describe the client to spawn: the decision over what
/// the scan and the filesystem answered is `connect_among`'s, stated there
/// in full. A name that no record of the scanned registry carries yields
/// `NotFound` with that name — and only then; a daemon whose socket file is
/// gone yields `SocketMissing` with the attempted path; a missing visit file
/// yields `FileMissing` with that file. On success the client points at the
/// resolved socket path and the given file.
pub fn connect(daemon_name: &str, file: &str, config: &Config) -> (r: Result<
    ClientProcess,
    DaemonError,
>)
    ensures
        match r {
            Ok(c) => {
                &&& c.daemon_socket@ == spec_join_path(config.server_socket_dir@, daemon_name@)
                &&& c.visit_file@ == file@
                &&& c.alternate_editor is None
                &&& c.create_new_frame
            },
            Err(e) => match e {
                DaemonError::NotFound(n) => n@ == daemon_name@,
                DaemonError::SocketMissing(p) => p@ == spec_join_path(
                    config.server_socket_dir@,
                    daemon_name@,
                ),
                DaemonError::FileMissing(f) => f@ == file@,
                _ => false,
            },
        },
        exists|snapshot: Seq<RawProcessView>|
            {
                let ds = #[trigger] spec_daemons_from(snapshot);
                if r matches Err(DaemonError::NotFound(_)) {
                    forall|j: int| 0 <= j < ds.len() ==> (#[trigger] ds[j]).socket_name
                        != daemon_name@
                } else {
                    exists|i: int| 0 <= i < ds.len() && (#[trigger] ds[i]).socket_name
                        == daemon_name@
                }
            },
{
    let all = daemons::get_all();
    let expected = crate::text::join_path(config.server_socket_dir().as_str(), daemon_name);
    let socket_on_disk = sys::path_exists(expected.as_str());
    let file_on_disk = sys::path_exists(file);
    let r = connect_among(&all, daemon_name, file, config, socket_on_disk, file_on_disk);
    proof {
        crate::clients::lemma_registry_reflects_absence(
            all@,
            r matches Err(DaemonError::NotFound(_)),
            daemon_name@,
        );
    }
    r
}

} // verus!
