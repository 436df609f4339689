//! The daemon process registry: reconstructing daemon identity (socket name,
//! owning user, pid) from raw process-table entries, querying the live
//! system, resolving socket paths, and signal-based termination.

use vstd::prelude::*;

use crate::config::Config;
use crate::errors::DaemonError;
use crate::standard_styled::CommandParts;
use crate::sys;
use crate::text;
use crate::text::after_last;
use crate::text::file_name_of;
use crate::text::lemma_after_first_at;
use crate::text::lemma_after_first_none;
use crate::text::lemma_after_last_at;
use crate::text::lower_of;
use crate::text::spec_contains_substr;
use crate::text::spec_dec_chars;
use crate::text::spec_join_path;
use crate::text::spec_pad_left;
use crate::text::spec_pad_right;
use crate::text::spec_parse_socket_name;
use crate::text::spec_starts_with;

verus! {

/// One entry of a process-table snapshot, reduced to plain values: the
/// process id, its display name, the owning user (absent when the OS does
/// not report one), and the full command line.
pub struct RawProcessInfo {
    pub pid: u32,
    pub name: String,
    pub user_id: Option<u32>,
    pub cmd: Vec<String>,
}

/// The mathematical content of a `RawProcessInfo`.
pub ghost struct RawProcessView {
    pub pid: u32,
    pub name: Seq<char>,
    pub user_id: Option<u32>,
    pub cmd: Seq<Seq<char>>,
}

impl View for RawProcessInfo {
    type V = RawProcessView;

    open spec fn view(&self) -> RawProcessView {
        RawProcessView {
            pid: self.pid,
            name: self.name@,
            user_id: self.user_id,
            cmd: self.cmd@.map_values(|s: String| s@),
        }
    }
}

/// One running daemon, as reconstructed from the process table.
#[derive(Debug)]
pub struct DaemonProcess {
    pub pid: u32,
    pub user_id: Option<u32>,
    pub socket_name: String,
}

/// The mathematical content of a `DaemonProcess`.
pub ghost struct DaemonProcessView {
    pub pid: u32,
    pub user_id: Option<u32>,
    pub socket_name: Seq<char>,
}

impl View for DaemonProcess {
    type V = DaemonProcessView;

    open spec fn view(&self) -> DaemonProcessView {
        DaemonProcessView {
            pid: self.pid,
            user_id: self.user_id,
            socket_name: self.socket_name@,
        }
    }
}

impl Clone for DaemonProcess {
    fn clone(&self) -> (r: Self)
        ensures
            r@ == self@,
    {
        DaemonProcess {
            pid: self.pid,
            user_id: self.user_id,
            socket_name: self.socket_name.clone(),
        }
    }
}

/// What the OS reported when asked to deliver the termination signal.
#[derive(Clone, Copy, PartialEq, Eq, Structural)]
pub enum TermOutcome {
    /// The signal was delivered.
    Delivered,
    /// The OS explicitly refused delivery.
    Refused,
    /// The platform has no such signal.
    Unsupported,
    /// No process with the pid exists any more.
    NoProcess,
}

/// A reconstructed daemon record is well formed: its socket name is a
/// non-empty bare file name, free of path separators and newlines.
pub open spec fn daemon_record_wf(d: DaemonProcessView) -> bool {
    d.socket_name.len() > 0 && !d.socket_name.contains('/') && !d.socket_name.contains('\n')
}

/// The record the parser extracts from one raw process, if any: the socket
/// name embedded in the second command-line argument, with pid and owner
/// copied verbatim.
pub open spec fn spec_record_of(p: RawProcessView) -> Option<DaemonProcessView> {
    if p.cmd.len() < 2 {
        None
    } else {
        match spec_parse_socket_name(p.cmd[1]) {
            Some(name) => Some(
                DaemonProcessView { pid: p.pid, user_id: p.user_id, socket_name: name },
            ),
            None => None,
        }
    }
}

/// The heuristic filter for daemon candidates: the display name begins,
/// case-insensitively, with the editor's base name, and the second
/// command-line argument mentions `daemon`.
pub open spec fn spec_is_candidate(p: RawProcessView) -> bool {
    &&& spec_starts_with(lower_of(p.name), "emacs"@)
    &&& p.cmd.len() >= 2
    &&& spec_contains_substr(p.cmd[1], "daemon"@)
}

/// What one process contributes to the registry: its record when it passes
/// the candidate filter and parses, nothing otherwise.
pub open spec fn spec_accept(p: RawProcessView) -> Seq<DaemonProcessView> {
    if spec_is_candidate(p) {
        match spec_record_of(p) {
            Some(d) => seq![d],
            None => Seq::empty(),
        }
    } else {
        Seq::empty()
    }
}

/// The registry a snapshot yields: the records of all candidate processes
/// that parse, in snapshot order.
pub open spec fn spec_daemons_from(ps: Seq<RawProcessView>) -> Seq<DaemonProcessView>
    decreases ps.len(),
{
    if ps.len() == 0 {
        Seq::empty()
    } else {
        spec_daemons_from(ps.drop_last()) + spec_accept(ps.last())
    }
}

/// The socket names of a registry, in order.
pub open spec fn spec_names_of(ds: Seq<DaemonProcessView>) -> Seq<Seq<char>> {
    ds.map_values(|d: DaemonProcessView| d.socket_name)
}

impl DaemonProcess {
    /// Extract a daemon record from one raw process entry; processes whose
    /// command line cannot be interpreted yield nothing.
    pub fn from_sys_process(p: &RawProcessInfo) -> (r: Option<DaemonProcess>)
        ensures
            match r {
                Some(d) => spec_record_of(p@) == Some(d@),
                None => spec_record_of(p@) is None,
            },
    {
        if p.cmd.len() < 2 {
            return None;
        }
        let arg: &String = &p.cmd[1];
        match text::parse_socket_name(arg.as_str()) {
            Some(name) => Some(
                DaemonProcess { pid: p.pid, user_id: p.user_id, socket_name: name },
            ),
            None => None,
        }
    }
}

/// Whether a raw process passes the daemon-candidate filter.
pub fn is_daemon_candidate(p: &RawProcessInfo) -> (b: bool)
    ensures
        b == spec_is_candidate(p@),
{
    let lowered = text::to_lowercase(p.name.as_str());
    if !text::starts_with_str(lowered.as_str(), "emacs") {
        return false;
    }
    if p.cmd.len() < 2 {
        return false;
    }
    text::contains_substr(p.cmd[1].as_str(), "daemon")
}

/// Every record a parse yields is well formed.
pub proof fn lemma_record_wf(p: RawProcessView)
    ensures
        match spec_record_of(p) {
            Some(d) => daemon_record_wf(d),
            None => true,
        },
{
    if p.cmd.len() >= 2 {
        let arg = p.cmd[1];
        match text::after_first(arg, '=') {
            Some(rhs) => {
                let tail = after_last(rhs, '\n');
                text::lemma_file_name_wf(tail);
                text::lemma_after_last_excludes(rhs, '\n');
                match file_name_of(tail) {
                    Some(n) => {
                        if n.contains('\n') {
                            assert(tail.contains('\n'));
                        }
                    },
                    None => {},
                }
            },
            None => {},
        }
    }
}

/// Every record of a registry is well formed.
pub proof fn lemma_daemons_from_wf(ps: Seq<RawProcessView>)
    ensures
        forall|i: int|
            0 <= i < spec_daemons_from(ps).len() ==> daemon_record_wf(
                #[trigger] spec_daemons_from(ps)[i],
            ),
    decreases ps.len(),
{
    if ps.len() > 0 {
        lemma_daemons_from_wf(ps.drop_last());
        lemma_record_wf(ps.last());
        let a = spec_daemons_from(ps.drop_last());
        let b = spec_accept(ps.last());
        assert forall|i: int| 0 <= i < spec_daemons_from(ps).len() implies daemon_record_wf(
            #[trigger] spec_daemons_from(ps)[i],
        ) by {
            assert(spec_daemons_from(ps) == a + b);
            if i < a.len() {
                assert((a + b)[i] == a[i]);
            } else {
                assert((a + b)[i] == b[i - a.len()]);
            }
        }
    }
}

/// Build the registry a snapshot yields: filter for candidates, parse each,
/// and keep the records that parse, in snapshot order.
pub fn daemons_from_snapshot(procs: &Vec<RawProcessInfo>) -> (r: Vec<DaemonProcess>)
    ensures
        r@.map_values(|d: DaemonProcess| d@) == spec_daemons_from(
            procs@.map_values(|p: RawProcessInfo| p@),
        ),
        forall|i: int| 0 <= i < r@.len() ==> daemon_record_wf(#[trigger] r@[i]@),
{
    let ghost views = procs@.map_values(|p: RawProcessInfo| p@);
    let mut out: Vec<DaemonProcess> = Vec::new();
    let n = procs.len();
    let mut i: usize = 0;
    proof {
        assert(views.take(0) =~= Seq::<RawProcessView>::empty());
    }
    while i < n
        invariant
            0 <= i <= n,
            n == procs@.len(),
            views == procs@.map_values(|p: RawProcessInfo| p@),
            out@.map_values(|d: DaemonProcess| d@) == spec_daemons_from(views.take(i as int)),
        decreases n - i,
    {
        let ghost prefix = views.take(i as int);
        if is_daemon_candidate(&procs[i]) {
            match DaemonProcess::from_sys_process(&procs[i]) {
                Some(d) => {
                    out.push(d);
                },
                None => {},
            }
        }
        proof {
            assert(views.take(i + 1).drop_last() =~= prefix);
            assert(views.take(i + 1).last() == views[i as int]);
            assert(out@.map_values(|d: DaemonProcess| d@) =~= spec_daemons_from(
                views.take(i + 1),
            ));
        }
        i = i + 1;
    }
    proof {
        assert(views.take(n as int) =~= views);
        lemma_daemons_from_wf(views);
        assert forall|k: int| 0 <= k < out@.len() implies daemon_record_wf(
            #[trigger] out@[k]@,
        ) by {
            assert(out@.map_values(|d: DaemonProcess| d@)[k] == out@[k]@);
        }
    }
    out
}

/// Scan the live process table and build the registry it yields. A fresh
/// snapshot is taken on every call, so two calls may differ; whatever the
/// snapshot was, the result is exactly the registry it yields, and every
/// record is well formed.
pub fn get_all() -> (r: Vec<DaemonProcess>)
    ensures
        exists|snapshot: Seq<RawProcessView>|
            r@.map_values(|d: DaemonProcess| d@) == #[trigger] spec_daemons_from(snapshot),
        forall|i: int| 0 <= i < r@.len() ==> daemon_record_wf(#[trigger] r@[i]@),
{
    let snapshot = sys::snapshot_processes();
    let r = daemons_from_snapshot(&snapshot);
    proof {
        let ghost views = snapshot@.map_values(|p: RawProcessInfo| p@);
        assert(r@.map_values(|d: DaemonProcess| d@) == spec_daemons_from(views));
    }
    r
}

/// The socket names of the given records, in order.
pub fn daemon_names(daemons: &Vec<DaemonProcess>) -> (r: Vec<String>)
    ensures
        r@.map_values(|s: String| s@) == spec_names_of(daemons@.map_values(|d: DaemonProcess| d@)),
{
    let mut out: Vec<String> = Vec::new();
    let n = daemons.len();
    let mut i: usize = 0;
    while i < n
        invariant
            0 <= i <= n,
            n == daemons@.len(),
            out@.len() == i,
            forall|j: int| 0 <= j < i ==> out@.map_values(|s: String| s@)[j] == daemons@[j]@.socket_name,
        decreases n - i,
    {
        out.push(daemons[i].socket_name.clone());
        i = i + 1;
    }
    proof {
        assert(out@.map_values(|s: String| s@) =~= spec_names_of(
            daemons@.map_values(|d: DaemonProcess| d@),
        ));
    }
    out
}

/// The socket names of all live daemons, in scan order: the projection of
/// `get_all` onto socket names.
pub fn active_daemons_names() -> (r: Vec<String>)
    ensures
        exists|snapshot: Seq<RawProcessView>|
            r@.map_values(|s: String| s@) == spec_names_of(
                #[trigger] spec_daemons_from(snapshot),
            ),
{
    let daemons = get_all();
    let r = daemon_names(&daemons);
    r
}

/// The parser round-trip law: an argument of the daemon encoding
/// `--bg-daemon=<x>,<y>\n<path>` parses to exactly the final component of
/// `<path>`, whatever `<x>` and `<y>` hold (embedded newlines, equals signs
/// and commas included), as long as the path itself is free of newlines.
pub proof fn lemma_parse_round_trip(x: Seq<char>, y: Seq<char>, p: Seq<char>, n: Seq<char>)
    requires
        !p.contains('\n'),
        file_name_of(p) == Some(n),
    ensures
        spec_parse_socket_name("--bg-daemon="@ + x + seq![','] + y + seq!['\n'] + p) == Some(n),
{
    reveal_strlit("--bg-daemon=");
    let lit = "--bg-daemon="@;
    let arg = lit + x + seq![','] + y + seq!['\n'] + p;
    assert(arg[11] == '=');
    assert(forall|j: int| 0 <= j < 11 ==> arg[j] == lit[j]);
    lemma_after_first_at(arg, '=', 11);
    let rhs = x + seq![','] + y + seq!['\n'] + p;
    assert(arg.subrange(12, arg.len() as int) =~= rhs);
    let k = x.len() + 1 + y.len();
    assert(rhs[k as int] == '\n');
    assert forall|j: int| k < j < rhs.len() implies rhs[j] != '\n' by {
        assert(rhs[j] == p[j - k - 1]);
    }
    lemma_after_last_at(rhs, '\n', k as int);
    assert(rhs.subrange(k as int + 1, rhs.len() as int) =~= p);
}

/// The parser rejection law, first half: an argument without `=` yields
/// nothing.
pub proof fn lemma_parse_rejects_without_equals(arg: Seq<char>)
    requires
        !arg.contains('='),
    ensures
        spec_parse_socket_name(arg) is None,
{
    lemma_after_first_none(arg, '=');
}

/// The parser rejection law, second half: a process with fewer than two
/// command-line arguments yields no record.
pub proof fn lemma_short_command_line_rejected(p: RawProcessView)
    requires
        p.cmd.len() < 2,
    ensures
        spec_record_of(p) is None,
{
}

/// Every record of a registry comes from a process that passed the
/// candidate filter and parsed: a process that fails either test is never
/// returned.
pub proof fn lemma_registry_from_candidates(ps: Seq<RawProcessView>)
    ensures
        forall|k: int|
            0 <= k < spec_daemons_from(ps).len() ==> exists|i: int|
                0 <= i < ps.len() && spec_is_candidate(#[trigger] ps[i]) && spec_record_of(ps[i])
                    == Some(#[trigger] spec_daemons_from(ps)[k]),
    decreases ps.len(),
{
    if ps.len() > 0 {
        lemma_registry_from_candidates(ps.drop_last());
        let a = spec_daemons_from(ps.drop_last());
        let b = spec_accept(ps.last());
        assert forall|k: int| 0 <= k < spec_daemons_from(ps).len() implies exists|i: int|
            0 <= i < ps.len() && spec_is_candidate(#[trigger] ps[i]) && spec_record_of(ps[i])
                == Some(#[trigger] spec_daemons_from(ps)[k]) by {
            assert(spec_daemons_from(ps) == a + b);
            if k < a.len() {
                assert((a + b)[k] == a[k]);
                let i = choose|i: int|
                    0 <= i < ps.drop_last().len() && spec_is_candidate(#[trigger] ps.drop_last()[i])
                        && spec_record_of(ps.drop_last()[i]) == Some(a[k]);
                assert(ps[i] == ps.drop_last()[i]);
                assert(spec_is_candidate(ps[i]));
            } else {
                assert((a + b)[k] == b[k - a.len()]);
                let i = ps.len() - 1;
                assert(spec_is_candidate(ps[i]));
            }
        }
    }
}

/// A process that fails the candidate filter contributes no record: when no
/// other process of the snapshot shares its pid (as on a real process table,
/// which is keyed by pid), no record of the registry carries that pid.
pub proof fn lemma_non_candidate_pid_excluded(ps: Seq<RawProcessView>, t: int)
    requires
        0 <= t < ps.len(),
        !spec_is_candidate(ps[t]),
        forall|i: int| 0 <= i < ps.len() && i != t ==> (#[trigger] ps[i]).pid != ps[t].pid,
    ensures
        forall|k: int|
            0 <= k < spec_daemons_from(ps).len() ==> (#[trigger] spec_daemons_from(ps)[k]).pid
                != ps[t].pid,
{
    lemma_registry_from_candidates(ps);
    assert forall|k: int| 0 <= k < spec_daemons_from(ps).len() implies (
    #[trigger] spec_daemons_from(ps)[k]).pid != ps[t].pid by {
        let i = choose|i: int|
            0 <= i < ps.len() && spec_is_candidate(#[trigger] ps[i]) && spec_record_of(ps[i])
                == Some(spec_daemons_from(ps)[k]);
        assert(i != t);
        assert(spec_daemons_from(ps)[k].pid == ps[i].pid);
    }
}

/// A snapshot without a single candidate yields an empty registry.
pub proof fn lemma_no_candidates_no_records(ps: Seq<RawProcessView>)
    requires
        forall|i: int| 0 <= i < ps.len() ==> !spec_is_candidate(#[trigger] ps[i]),
    ensures
        spec_daemons_from(ps).len() == 0,
    decreases ps.len(),
{
    if ps.len() > 0 {
        lemma_no_candidates_no_records(ps.drop_last());
        assert(!spec_is_candidate(ps.last()));
    }
}

/// The result of one termination attempt is accounted for: success returns
/// the pid that was signaled, and each failure mode carries what identifies
/// the daemon it concerns.
pub open spec fn spec_kill_result(d: DaemonProcessView, r: Result<u32, DaemonError>) -> bool {
    match r {
        Ok(pid) => pid == d.pid,
        Err(e) => match e {
            DaemonError::SignalRefused { name, pid } => name@ == d.socket_name && pid == d.pid,
            DaemonError::UnsupportedSignal => true,
            DaemonError::ProcessVanished(pid) => pid == d.pid,
            _ => false,
        },
    }
}

/// Map what the OS reported about signal delivery to the operation's result:
/// delivery yields the pid, refusal, a missing signal, and a vanished
/// process each yield their own error, and nothing else can come out.
pub fn term_result(outcome: TermOutcome, pid: u32, name: &String) -> (r: Result<u32, DaemonError>)
    ensures
        match outcome {
            TermOutcome::Delivered => r matches Ok(p) && p == pid,
            TermOutcome::Refused => r matches Err(DaemonError::SignalRefused { name: n, pid: q })
                && n@ == name@ && q == pid,
            TermOutcome::Unsupported => r matches Err(DaemonError::UnsupportedSignal),
            TermOutcome::NoProcess => r matches Err(DaemonError::ProcessVanished(q)) && q == pid,
        },
{
    match outcome {
        TermOutcome::Delivered => Ok(pid),
        TermOutcome::Refused => Err(
            DaemonError::SignalRefused { name: name.clone(), pid },
        ),
        TermOutcome::Unsupported => Err(DaemonError::UnsupportedSignal),
        TermOutcome::NoProcess => Err(DaemonError::ProcessVanished(pid)),
    }
}

/// Decide what a socket resolution returns once the filesystem has been
/// asked: the path itself when the socket file exists, and a `SocketMissing`
/// error carrying the attempted path when it does not.
pub fn socket_lookup(path: String, exists_on_disk: bool) -> (r: Result<String, DaemonError>)
    ensures
        exists_on_disk ==> (r matches Ok(p) && p@ == path@),
        !exists_on_disk ==> (r matches Err(DaemonError::SocketMissing(p)) && p@ == path@),
{
    if exists_on_disk {
        Ok(path)
    } else {
        Err(DaemonError::SocketMissing(path))
    }
}

/// The one-line rendering of a daemon record: its socket name left-aligned,
/// its pid right-aligned, and its socket path, in fixed-width fields.
pub open spec fn spec_show_line(d: DaemonProcessView, path: Seq<char>) -> Seq<char> {
    spec_pad_right(d.socket_name, 14) + " ["@ + "Pid: "@ + spec_pad_left(
        spec_dec_chars(d.pid as nat),
        8,
    ) + ", "@ + "Socket: "@ + spec_pad_right(path, 30) + " "@ + "]"@
}

impl DaemonProcess {
    /// Ask the OS to deliver the termination signal to this daemon's pid.
    /// The pid is looked up again at the moment of termination, so the
    /// record may have gone stale; whatever the OS reports, the result
    /// accounts for it as `spec_kill_result` describes.
    pub fn kill(&self) -> (r: Result<u32, DaemonError>)
        ensures
            spec_kill_result(self@, r),
    {
        let outcome = sys::send_term_signal(self.pid);
        term_result(outcome, self.pid, &self.socket_name)
    }

    /// The expected location of this daemon's socket file: the configured
    /// base directory joined with the socket name. The flat-directory
    /// convention is used: sockets live directly under the base directory; a
    /// deployment that namespaces sockets per owner passes the namespaced
    /// directory as the base. The filesystem is only asked whether the file
    /// exists; nothing is created or modified. The path comes back either
    /// way: as the success value, or inside the `SocketMissing` error when
    /// the file is gone.
    pub fn socket_file(&self, config: &Config) -> (r: Result<String, DaemonError>)
        ensures
            ({
                let expected = spec_join_path(config.server_socket_dir@, self.socket_name@);
                match r {
                    Ok(p) => p@ == expected,
                    Err(e) => e matches DaemonError::SocketMissing(p) && p@ == expected,
                }
            }),
    {
        let path = text::join_path(
            config.server_socket_dir().as_str(),
            self.socket_name.as_str(),
        );
        let on_disk = sys::path_exists(path.as_str());
        socket_lookup(path, on_disk)
    }

    /// Render this record for a listing, or report the socket file missing.
    pub fn show(&self, config: &Config) -> (r: Result<String, DaemonError>)
        ensures
            ({
                let expected = spec_join_path(config.server_socket_dir@, self.socket_name@);
                match r {
                    Ok(s) => s@ == spec_show_line(self@, expected),
                    Err(e) => e matches DaemonError::SocketMissing(p) && p@ == expected,
                }
            }),
    {
        match self.socket_file(config) {
            Err(e) => Err(e),
            Ok(path) => {
                let mut out = text::pad_right(self.socket_name.as_str(), 14);
                out.append(" [");
                out.append("Pid: ");
                let pid_digits = text::u32_to_string(self.pid);
                let pid_field = text::pad_left(pid_digits.as_str(), 8);
                out.append(pid_field.as_str());
                out.append(", ");
                out.append("Socket: ");
                let path_field = text::pad_right(path.as_str(), 30);
                out.append(path_field.as_str());
                out.append(" ");
                out.append("]");
                proof {
                    assert(out@ =~= spec_show_line(
                        self@,
                        spec_join_path(config.server_socket_dir@, self.socket_name@),
                    ));
                }
                Ok(out)
            },
        }
    }
}

/// The command that launches a new daemon: the editor executable with the
/// single argument `--daemon=<name>`, where the name defaults to the
/// configured default socket name.
pub fn build_new(name: Option<String>, config: &Config) -> (r: CommandParts)
    ensures
        r.program@ == "emacs"@,
        r.args@.len() == 1,
        r.args@[0]@ == "--daemon="@ + (match name {
            Some(n) => n@,
            None => config.default_socket@,
        }),
{
    let daemon_name = match name {
        Some(n) => n,
        None => config.default_socket_name().clone(),
    };
    let mut arg = "--daemon=".to_owned();
    arg.append(daemon_name.as_str());
    let mut args: Vec<String> = Vec::new();
    args.push(arg);
    CommandParts { program: "emacs".to_owned(), args }
}

/// Terminate the first of the given records that carries `name`. When none
/// carries it, the result is `NotFound` with that name and the OS is never
/// asked to deliver a signal; when one does, the outcome accounts for the
/// first record carrying the name, in order: duplicate names defer to the
/// earliest record.
pub fn kill_among(daemons: &Vec<DaemonProcess>, name: &str) -> (r: Result<u32, DaemonError>)
    ensures
        match r {
            Err(DaemonError::NotFound(n)) => n@ == name@ && (forall|j: int|
                0 <= j < daemons@.len() ==> #[trigger] daemons@[j]@.socket_name != name@),
            _ => exists|i: int|
                0 <= i < daemons@.len() && #[trigger] daemons@[i]@.socket_name == name@ && (
                forall|j: int| 0 <= j < i ==> daemons@[j]@.socket_name != name@)
                    && spec_kill_result(daemons@[i]@, r),
        },
        (forall|j: int| 0 <= j < daemons@.len() ==> #[trigger] daemons@[j]@.socket_name != name@)
            ==> (r matches Err(DaemonError::NotFound(n)) && n@ == name@),
{
    match find_by_name(daemons, name) {
        None => Err(DaemonError::NotFound(name.to_owned())),
        Some(i) => daemons[i].kill(),
    }
}

/// Ask the OS to terminate the daemon with the given socket name. The scanned
/// registry of some snapshot decides: when no record of it carries the name,
/// the result is `NotFound` with that name and no signal is sent; when one
/// does, the outcome accounts for the first record carrying the name, and
/// every error names that daemon.
pub fn kill_by_name(name: &str) -> (r: Result<u32, DaemonError>)
    ensures
        exists|snapshot: Seq<RawProcessView>|
            {
                let ds = #[trigger] spec_daemons_from(snapshot);
                match r {
                    Err(DaemonError::NotFound(n)) => n@ == name@ && (forall|j: int|
                        0 <= j < ds.len() ==> (#[trigger] ds[j]).socket_name != name@),
                    _ => exists|i: int|
                        0 <= i < ds.len() && (#[trigger] ds[i]).socket_name == name@ && (forall|
                            j: int,
                        | 0 <= j < i ==> ds[j].socket_name != name@) && spec_kill_result(ds[i], r),
                }
            },
        match r {
            Ok(_) => true,
            Err(e) => match e {
                DaemonError::NotFound(n) => n@ == name@,
                DaemonError::SignalRefused { name: n, pid: _ } => n@ == name@,
                DaemonError::UnsupportedSignal => true,
                DaemonError::ProcessVanished(_) => true,
                _ => false,
            },
        },
{
    let daemons = get_all();
    let r = kill_among(&daemons, name);
    proof {
        let snapshot = choose|snapshot: Seq<RawProcessView>|
            daemons@.map_values(|d: DaemonProcess| d@) == #[trigger] spec_daemons_from(snapshot);
        let ds = spec_daemons_from(snapshot);
        assert forall|j: int| 0 <= j < ds.len() implies #[trigger] ds[j] == daemons@[j]@ by {
            assert(daemons@.map_values(|d: DaemonProcess| d@)[j] == daemons@[j]@);
        }
        assert({
            let ds2 = spec_daemons_from(snapshot);
            match r {
                Err(DaemonError::NotFound(n)) => n@ == name@ && (forall|j: int|
                    0 <= j < ds2.len() ==> (#[trigger] ds2[j]).socket_name != name@),
                _ => exists|i: int|
                    0 <= i < ds2.len() && (#[trigger] ds2[i]).socket_name == name@ && (forall|
                        j: int,
                    | 0 <= j < i ==> ds2[j].socket_name != name@) && spec_kill_result(ds2[i], r),
            }
        }) by {
            if !(r matches Err(DaemonError::NotFound(_))) {
                let i = choose|i: int|
                    0 <= i < daemons@.len() && #[trigger] daemons@[i]@.socket_name == name@ && (
                    forall|j: int| 0 <= j < i ==> daemons@[j]@.socket_name != name@)
                        && spec_kill_result(daemons@[i]@, r);
                assert(ds[i].socket_name == name@);
                assert(spec_kill_result(ds[i], r));
            }
        }
    }
    r
}

/// One termination attempt per given record, in order, none skipped: a
/// partial-failure batch, never short-circuited.
pub fn kill_each(daemons: &Vec<DaemonProcess>) -> (r: Vec<Result<u32, DaemonError>>)
    ensures
        r@.len() == daemons@.len(),
        forall|i: int|
            0 <= i < r@.len() ==> spec_kill_result(daemons@[i]@, #[trigger] r@[i]),
{
    let mut out: Vec<Result<u32, DaemonError>> = Vec::new();
    let n = daemons.len();
    let mut i: usize = 0;
    while i < n
        invariant
            0 <= i <= n,
            n == daemons@.len(),
            out@.len() == i,
            forall|j: int| 0 <= j < i ==> spec_kill_result(daemons@[j]@, #[trigger] out@[j]),
        decreases n - i,
    {
        out.push(daemons[i].kill());
        i = i + 1;
    }
    out
}

/// Ask the OS to terminate every live daemon, collecting one result per
/// record of the snapshot's registry.
pub fn kill_all() -> (r: Vec<Result<u32, DaemonError>>)
    ensures
        exists|snapshot: Seq<RawProcessView>|
            {
                let ds = #[trigger] spec_daemons_from(snapshot);
                r@.len() == ds.len() && (forall|i: int|
                    0 <= i < ds.len() ==> spec_kill_result(ds[i], #[trigger] r@[i]))
            },
{
    let daemons = get_all();
    let r = kill_each(&daemons);
    proof {
        let snapshot = choose|snapshot: Seq<RawProcessView>|
            daemons@.map_values(|d: DaemonProcess| d@) == #[trigger] spec_daemons_from(snapshot);
        let ds = spec_daemons_from(snapshot);
        assert forall|i: int| 0 <= i < ds.len() implies spec_kill_result(
            ds[i],
            #[trigger] r@[i],
        ) by {
            assert(daemons@.map_values(|d: DaemonProcess| d@)[i] == daemons@[i]@);
        }
    }
    r
}

/// The index of the first record carrying `name`, if any; earlier records
/// never carry it.
pub fn find_by_name(daemons: &Vec<DaemonProcess>, name: &str) -> (r: Option<usize>)
    ensures
        match r {
            Some(i) => i < daemons@.len() && daemons@[i as int]@.socket_name == name@
                && (forall|j: int| 0 <= j < i ==> daemons@[j]@.socket_name != name@),
            None => forall|j: int| 0 <= j < daemons@.len() ==> daemons@[j]@.socket_name != name@,
        },
{
    let n = daemons.len();
    let mut i: usize = 0;
    while i < n
        invariant
            0 <= i <= n,
            n == daemons@.len(),
            forall|j: int| 0 <= j < i ==> daemons@[j]@.socket_name != name@,
        decreases n - i,
    {
        if text::str_eq(daemons[i].socket_name.as_str(), name) {
            return Some(i);
        }
        i = i + 1;
    }
    None
}

} // verus!
