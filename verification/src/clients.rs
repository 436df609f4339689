//! The earlier client-launching flow, kept alongside the newer one: it
//! carries no file to visit and builds its command line without touching the
//! filesystem, so its spawn command is a pure function of the client.

use vstd::prelude::*;

use crate::config::Config;
use crate::daemons;
use crate::daemons::spec_daemons_from;
use crate::daemons::DaemonProcess;
use crate::daemons::RawProcessView;
use crate::errors::DaemonError;
use crate::standard_styled::CommandParts;
use crate::text::spec_join_path;

verus! {

/// A client process waiting to be spawned: which socket to connect to, the
/// fallback editor, and whether to open a new frame.
#[derive(Debug)]
pub struct ClientProcess {
    pub daemon_socket: String,
    pub alternate_editor: Option<String>,
    pub create_new_frame: bool,
}

impl Clone for ClientProcess {
    fn clone(&self) -> (r: Self)
        ensures
            r.daemon_socket@ == self.daemon_socket@,
            r.alternate_editor is Some <==> self.alternate_editor is Some,
            r.alternate_editor is Some ==> r.alternate_editor.unwrap()@
                == self.alternate_editor.unwrap()@,
            r.create_new_frame == self.create_new_frame,
    {
        ClientProcess {
            daemon_socket: self.daemon_socket.clone(),
            alternate_editor: match &self.alternate_editor {
                Some(e) => Some(e.clone()),
                None => None,
            },
            create_new_frame: self.create_new_frame,
        }
    }
}

impl ClientProcess {
    /// A client for the given socket path: no alternate editor yet, a new
    /// frame.
    pub fn with_daemon(socket_name: String) -> (r: Self)
        ensures
            r.daemon_socket@ == socket_name@,
            r.alternate_editor is None,
            r.create_new_frame,
    {
        ClientProcess { daemon_socket: socket_name, alternate_editor: None, create_new_frame: true }
    }

    /// The command that spawns this client: the client executable with the
    /// frame flag, the socket name, and the alternate-editor argument (whose
    /// name part is blank when no editor is set).
    pub fn spawn_command(&self) -> (r: CommandParts)
        ensures
            r.program@ == "emacsclient"@,
            r.args@.len() == 3,
            r.args@[0]@ == (if self.create_new_frame {
                "--create-frame"@
            } else {
                "--reuse-frame"@
            }),
            r.args@[1]@ == "--socket-name="@ + self.daemon_socket@,
            r.args@[2]@ == "--alternate-editor="@ + (match self.alternate_editor {
                Some(e) => e@,
                None => Seq::<char>::empty(),
            }),
    {
        let mut args: Vec<String> = Vec::new();
        if self.create_new_frame {
            args.push("--create-frame".to_owned());
        } else {
            args.push("--reuse-frame".to_owned());
        }
        let mut socket_arg = "--socket-name=".to_owned();
        socket_arg.append(self.daemon_socket.as_str());
        args.push(socket_arg);
        let mut editor_arg = "--alternate-editor=".to_owned();
        match &self.alternate_editor {
            Some(e) => editor_arg.append(e.as_str()),
            None => {
                proof {
                    assert(editor_arg@ =~= "--alternate-editor="@ + Seq::<char>::empty());
                }
            },
        }
        args.push(editor_arg);
        CommandParts { program: "emacsclient".to_owned(), args }
    }
}

/// Decide what launching a client for `daemon_name` returns, once the
/// registry has been scanned and the filesystem has been asked: no record
/// carrying the name yields `NotFound` with that name; a matching record
/// whose socket file is gone yields `SocketMissing` with the attempted path;
/// and a matching record with its socket yields the client, carrying the
/// configured fallback editor. Nothing else can come out.
pub fn launch_among(
    daemons: &Vec<DaemonProcess>,
    daemon_name: &str,
    config: &Config,
    socket_on_disk: bool,
) -> (r: Result<ClientProcess, DaemonError>)
    ensures
        ({
            let expected = spec_join_path(config.server_socket_dir@, daemon_name@);
            let absent = forall|j: int|
                0 <= j < daemons@.len() ==> (#[trigger] daemons@[j]@.socket_name) != daemon_name@;
            if absent {
                r matches Err(DaemonError::NotFound(n)) && n@ == daemon_name@
            } else if !socket_on_disk {
                r matches Err(DaemonError::SocketMissing(p)) && p@ == expected
            } else {
                r matches Ok(c) && c.daemon_socket@ == expected && c.alternate_editor is Some
                    && c.alternate_editor.unwrap()@ == config.editor@ && c.create_new_frame
            }
        }),
{
    let expected = crate::text::join_path(config.server_socket_dir().as_str(), daemon_name);
    match daemons::find_by_name(daemons, daemon_name) {
        None => Err(DaemonError::NotFound(daemon_name.to_owned())),
        Some(_) => match daemons::socket_lookup(expected, socket_on_disk) {
            Err(e) => Err(e),
            Ok(socket) => {
                let mut c = ClientProcess::with_daemon(socket);
                c.alternate_editor = Some(config.alternative_editor().clone());
                Ok(c)
            },
        },
    }
}

/// Scan the live registry and describe the client that connects to the named
/// daemon, carrying the configured fallback editor: the decision over what
/// the scan and the filesystem answered is `launch_among`'s, stated there in
/// full. A name that no record of the scanned registry carries yields
/// `NotFound` with that name — and only then; a daemon whose socket file is
/// gone yields `SocketMissing` with the attempted path.
pub fn launch_client(daemon_name: &str, config: &Config) -> (r: Result<ClientProcess, DaemonError>)
    ensures
        match r {
            Ok(c) => {
                &&& c.daemon_socket@ == spec_join_path(config.server_socket_dir@, daemon_name@)
                &&& c.alternate_editor is Some
                &&& c.alternate_editor.unwrap()@ == config.editor@
                &&& c.create_new_frame
            },
            Err(e) => match e {
                DaemonError::NotFound(n) => n@ == daemon_name@,
                DaemonError::SocketMissing(p) => p@ == spec_join_path(
                    config.server_socket_dir@,
                    daemon_name@,
                ),
                _ => false,
            },
        },
        exists|snapshot: Seq<RawProcessView>|
            {
                let ds = #[trigger] spec_daemons_from(snapshot);
                if r matches Err(DaemonError::NotFound(_)) {
                    forall|j: int| 0 <= j < ds.len() ==> (#[trigger] ds[j]).socket_name
                        != daemon_name@
                } else {
                    exists|i: int| 0 <= i < ds.len() && (#[trigger] ds[i]).socket_name
                        == daemon_name@
                }
            },
{
    let all = daemons::get_all();
    let expected = crate::text::join_path(config.server_socket_dir().as_str(), daemon_name);
    let socket_on_disk = crate::sys::path_exists(expected.as_str());
    let r = launch_among(&all, daemon_name, config, socket_on_disk);
    proof {
        lemma_registry_reflects_absence(
            all@,
            r matches Err(DaemonError::NotFound(_)),
            daemon_name@,
        );
    }
    r
}

/// The lookup's outcome speaks for the registry of the snapshot behind the
/// given records: when no record carries the name, no record of that registry
/// does; otherwise that registry carries the name.
pub(crate) proof fn lemma_registry_reflects_absence(
    all: Seq<DaemonProcess>,
    absent: bool,
    name: Seq<char>,
)
    requires
        exists|snapshot: Seq<RawProcessView>|
            all.map_values(|d: DaemonProcess| d@) == #[trigger] spec_daemons_from(snapshot),
        absent <==> (forall|j: int|
            0 <= j < all.len() ==> (#[trigger] all[j]@.socket_name) != name),
    ensures
        exists|snapshot: Seq<RawProcessView>|
            {
                let ds = #[trigger] spec_daemons_from(snapshot);
                if absent {
                    forall|j: int| 0 <= j < ds.len() ==> (#[trigger] ds[j]).socket_name != name
                } else {
                    exists|i: int| 0 <= i < ds.len() && (#[trigger] ds[i]).socket_name == name
                }
            },
{
    let snapshot = choose|snapshot: Seq<RawProcessView>|
        all.map_values(|d: DaemonProcess| d@) == #[trigger] spec_daemons_from(snapshot);
    let ds = spec_daemons_from(snapshot);
    assert forall|j: int| 0 <= j < ds.len() implies #[trigger] ds[j] == all[j]@ by {
        assert(all.map_values(|d: DaemonProcess| d@)[j] == all[j]@);
    }
    if !absent {
        let i = choose|i: int| 0 <= i < all.len() && (#[trigger] all[i]@.socket_name) == name;
        assert(ds[i].socket_name == name);
    }
}

} // verus!
