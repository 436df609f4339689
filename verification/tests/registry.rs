use eud::client;
use eud::clients;
use eud::config::expand_tilde_as_home;
use eud::config::Config;
use eud::daemons::active_daemons_names;
use eud::daemons::build_new;
use eud::daemons::daemon_names;
use eud::daemons::daemons_from_snapshot;
use eud::daemons::find_by_name;
use eud::daemons::kill_among;
use eud::daemons::kill_by_name;
use eud::daemons::socket_lookup;
use eud::daemons::term_result;
use eud::daemons::DaemonProcess;
use eud::daemons::RawProcessInfo;
use eud::daemons::TermOutcome;
use eud::errors::DaemonError;
use eud::standard_styled::Style;
use eud::standard_styled::StyleKind;

fn plain_style() -> Style {
    Style::new(
        vec!["*".to_string()],
        StyleKind::Plain,
        StyleKind::Plain,
        StyleKind::Plain,
        None,
    )
}

fn test_config(dir: &str) -> Config {
    Config::new(
        "server".to_string(),
        dir.to_string(),
        "nano".to_string(),
        plain_style(),
    )
}

fn raw(pid: u32, name: &str, cmd: &[&str]) -> RawProcessInfo {
    RawProcessInfo {
        pid,
        name: name.to_string(),
        user_id: Some(1000),
        cmd: cmd.iter().map(|s| s.to_string()).collect(),
    }
}

#[test]
fn list_names_empty_on_empty_snapshot() {
    let snapshot: Vec<RawProcessInfo> = Vec::new();
    let daemons = daemons_from_snapshot(&snapshot);
    assert_eq!(daemons.len(), 0);
    let names = daemon_names(&daemons);
    assert!(names.is_empty());
}

#[test]
fn list_names_one_fake_daemon() {
    let snapshot = vec![raw(
        7,
        "emacs",
        &["emacs", "--bg-daemon=abc\nDEADBEEF,1\n/tmp/sockets/foo"],
    )];
    let daemons = daemons_from_snapshot(&snapshot);
    let names = daemon_names(&daemons);
    assert_eq!(names, vec!["foo".to_string()]);
    assert_eq!(daemons[0].pid, 7);
    assert_eq!(daemons[0].user_id, Some(1000));
}

#[test]
fn emacsclient_without_daemon_arg_is_excluded() {
    let snapshot = vec![
        raw(1, "emacsclient", &["emacsclient", "--create-frame"]),
        raw(2, "emacsclient", &["emacsclient"]),
    ];
    let daemons = daemons_from_snapshot(&snapshot);
    assert_eq!(daemons.len(), 0);
}

#[test]
fn unrelated_processes_are_excluded() {
    let snapshot = vec![
        raw(1, "bash", &["bash", "daemon"]),
        raw(2, "emacs", &["emacs"]),
        raw(3, "emacs", &["emacs", "--bg-daemon"]),
    ];
    // bash fails the name test; the bare emacs has one argument; the last
    // one mentions daemon but its argument has no equals sign.
    let daemons = daemons_from_snapshot(&snapshot);
    assert_eq!(daemons.len(), 0);
}

#[test]
fn upper_case_name_still_matches() {
    let snapshot = vec![raw(
        9,
        "EMACS",
        &["emacs", "--bg-daemon=x,y\n/s/bar"],
    )];
    let daemons = daemons_from_snapshot(&snapshot);
    let names = daemon_names(&daemons);
    assert_eq!(names, vec!["bar".to_string()]);
}

#[test]
fn scan_order_is_kept_and_first_match_wins() {
    let snapshot = vec![
        raw(1, "emacs", &["emacs", "--bg-daemon=x,y\n/s/alpha"]),
        raw(2, "emacs", &["emacs", "--bg-daemon=x,y\n/s/beta"]),
        raw(3, "emacs", &["emacs", "--bg-daemon=x,y\n/t/alpha"]),
    ];
    let daemons = daemons_from_snapshot(&snapshot);
    let names = daemon_names(&daemons);
    assert_eq!(names, vec!["alpha".to_string(), "beta".to_string(), "alpha".to_string()]);
    let hit = find_by_name(&daemons, "alpha");
    assert_eq!(hit, Some(0));
    assert_eq!(daemons[hit.unwrap()].pid, 1);
    assert_eq!(find_by_name(&daemons, "beta"), Some(1));
    assert_eq!(find_by_name(&daemons, "missing"), None);
}

#[test]
fn socket_lookup_is_deterministic_and_never_creates() {
    let path = "/nonexistent-eud-test-dir/sockets/foo";
    assert!(!std::path::Path::new(path).exists());
    let first = socket_lookup(path.to_string(), false);
    let second = socket_lookup(path.to_string(), false);
    match (&first, &second) {
        (Err(DaemonError::SocketMissing(a)), Err(DaemonError::SocketMissing(b))) => {
            assert_eq!(a, b);
            assert_eq!(a, path);
        }
        _ => panic!("expected SocketMissing twice"),
    }
    let hit = socket_lookup(path.to_string(), true);
    match hit {
        Ok(p) => assert_eq!(p, path),
        Err(_) => panic!("expected the path back"),
    }
    assert!(!std::path::Path::new(path).exists());
}

#[test]
fn socket_file_resolves_and_reports_missing() {
    let config = test_config("/");
    let present = DaemonProcess {
        pid: 1,
        user_id: None,
        socket_name: "tmp".to_string(),
    };
    assert_eq!(present.socket_file(&config).unwrap(), "/tmp");

    let config2 = test_config("/nonexistent-eud-test-dir");
    let absent = DaemonProcess {
        pid: 1,
        user_id: None,
        socket_name: "foo".to_string(),
    };
    let before = std::path::Path::new("/nonexistent-eud-test-dir/foo").exists();
    let first = absent.socket_file(&config2);
    let second = absent.socket_file(&config2);
    match (first, second) {
        (Err(DaemonError::SocketMissing(a)), Err(DaemonError::SocketMissing(b))) => {
            assert_eq!(a, "/nonexistent-eud-test-dir/foo");
            assert_eq!(a, b);
        }
        _ => panic!("expected SocketMissing twice"),
    }
    let after = std::path::Path::new("/nonexistent-eud-test-dir/foo").exists();
    assert!(!before);
    assert!(!after);
}

#[test]
fn show_renders_fixed_width_fields() {
    let config = test_config("/");
    let d = DaemonProcess {
        pid: 42,
        user_id: Some(1000),
        socket_name: "tmp".to_string(),
    };
    let line = d.show(&config).unwrap();
    assert_eq!(
        line,
        "tmp            [Pid:       42, Socket: /tmp                           ]"
    );
}

#[test]
fn kill_among_absent_name_never_signals() {
    // A registry that does not carry the name: the decision is NotFound and
    // no signal delivery is attempted (the records' pids are arbitrary).
    let snapshot = vec![
        raw(1, "emacs", &["emacs", "--bg-daemon=x,y\n/s/alpha"]),
        raw(2, "emacs", &["emacs", "--bg-daemon=x,y\n/s/beta"]),
    ];
    let daemons = daemons_from_snapshot(&snapshot);
    match kill_among(&daemons, "gamma") {
        Err(DaemonError::NotFound(n)) => assert_eq!(n, "gamma"),
        _ => panic!("expected NotFound"),
    }
    let empty: Vec<DaemonProcess> = Vec::new();
    match kill_among(&empty, "alpha") {
        Err(DaemonError::NotFound(n)) => assert_eq!(n, "alpha"),
        _ => panic!("expected NotFound"),
    }
}

#[test]
fn terminate_by_absent_name_yields_not_found() {
    let name = "eud-test-no-such-daemon-a9f3";
    match kill_by_name(name) {
        Err(DaemonError::NotFound(n)) => assert_eq!(n, name),
        _ => panic!("expected NotFound"),
    }
}

#[test]
fn term_result_maps_every_outcome() {
    let name = "srv".to_string();
    assert_eq!(term_result(TermOutcome::Delivered, 5, &name).unwrap(), 5);
    match term_result(TermOutcome::Refused, 5, &name) {
        Err(DaemonError::SignalRefused { name: n, pid }) => {
            assert_eq!(n, "srv");
            assert_eq!(pid, 5);
        }
        _ => panic!("expected SignalRefused"),
    }
    assert!(matches!(
        term_result(TermOutcome::Unsupported, 5, &name),
        Err(DaemonError::UnsupportedSignal)
    ));
    assert!(matches!(
        term_result(TermOutcome::NoProcess, 5, &name),
        Err(DaemonError::ProcessVanished(5))
    ));
}

#[test]
fn error_messages() {
    assert_eq!(
        DaemonError::NotFound("abc".to_string()).message(),
        "No Emacs daemon found with socket name abc"
    );
    assert_eq!(
        DaemonError::SocketMissing("/x/y".to_string()).message(),
        "Daemon socket at path /x/y does not exist."
    );
    assert_eq!(
        DaemonError::SignalRefused { name: "abc".to_string(), pid: 31 }.message(),
        "Error trying to send kill signal to Emacs daemon 'abc' with Pid 31."
    );
    assert_eq!(
        DaemonError::UnsupportedSignal.message(),
        "Signal::Term does not exist on this system."
    );
    assert_eq!(
        DaemonError::ProcessVanished(8).message(),
        "Error trying to send kill signal to Emacs daemon. No process found with Pid 8."
    );
    assert_eq!(
        DaemonError::FileMissing("/f".to_string()).message(),
        "File path /f does not exist."
    );
}

#[test]
fn build_new_uses_name_or_default() {
    let config = test_config("/");
    let named = build_new(Some("work".to_string()), &config);
    assert_eq!(named.program(), "emacs");
    assert_eq!(named.args().as_slice(), &["--daemon=work".to_string()]);
    let defaulted = build_new(None, &config);
    assert_eq!(defaulted.args().as_slice(), &["--daemon=server".to_string()]);
}

#[test]
fn active_daemons_names_are_well_formed() {
    // Whatever the live system holds, every reconstructed name is a
    // non-empty bare file name.
    for name in active_daemons_names() {
        assert!(!name.is_empty());
        assert!(!name.contains('/'));
        assert!(!name.contains('\n'));
    }
}

#[test]
fn config_holds_its_parts() {
    let config = test_config("/srv/sockets");
    assert_eq!(config.default_socket_name(), "server");
    assert_eq!(config.server_socket_dir(), "/srv/sockets");
    assert_eq!(config.alternative_editor(), "nano");
    assert_eq!(config.style().spinner.len(), 1);
}

#[test]
fn tilde_expansion() {
    assert_eq!(expand_tilde_as_home("~", "/home/u"), "/home/u");
    assert_eq!(
        expand_tilde_as_home("~/.emacs.d/sockets/", "/home/u"),
        "/home/u/.emacs.d/sockets/"
    );
    assert_eq!(expand_tilde_as_home("~//x", "/home/u"), "/home/u/x");
    assert_eq!(expand_tilde_as_home("/abs/path", "/home/u"), "/abs/path");
    assert_eq!(expand_tilde_as_home("~stranger", "/home/u"), "~stranger");
}

#[test]
fn connect_to_absent_daemon_is_not_found() {
    let config = test_config("/");
    let name = "eud-test-no-such-daemon-77c1";
    match client::connect(name, "/tmp", &config) {
        Err(DaemonError::NotFound(n)) => assert_eq!(n, name),
        _ => panic!("expected NotFound"),
    }
    match clients::launch_client(name, &config) {
        Err(DaemonError::NotFound(n)) => assert_eq!(n, name),
        _ => panic!("expected NotFound"),
    }
}

#[test]
fn connect_among_decides_every_branch() {
    let config = test_config("/srv/sockets");
    let snapshot = vec![raw(5, "emacs", &["emacs", "--bg-daemon=x,y\n/s/work"])];
    let daemons = daemons_from_snapshot(&snapshot);

    match client::connect_among(&daemons, "other", "/tmp", &config, true, true) {
        Err(DaemonError::NotFound(n)) => assert_eq!(n, "other"),
        _ => panic!("expected NotFound"),
    }
    match client::connect_among(&daemons, "work", "/tmp", &config, false, true) {
        Err(DaemonError::SocketMissing(p)) => assert_eq!(p, "/srv/sockets/work"),
        _ => panic!("expected SocketMissing"),
    }
    match client::connect_among(&daemons, "work", "/tmp", &config, true, false) {
        Err(DaemonError::FileMissing(f)) => assert_eq!(f, "/tmp"),
        _ => panic!("expected FileMissing"),
    }
    match client::connect_among(&daemons, "work", "/tmp", &config, true, true) {
        Ok(c) => {
            assert_eq!(c.daemon_socket, "/srv/sockets/work");
            assert_eq!(c.visit_file, "/tmp");
            assert!(c.alternate_editor.is_none());
            assert!(c.create_new_frame);
        }
        _ => panic!("expected a client"),
    }
}

#[test]
fn launch_among_decides_every_branch() {
    let config = test_config("/srv/sockets");
    let snapshot = vec![raw(5, "emacs", &["emacs", "--bg-daemon=x,y\n/s/work"])];
    let daemons = daemons_from_snapshot(&snapshot);

    match clients::launch_among(&daemons, "other", &config, true) {
        Err(DaemonError::NotFound(n)) => assert_eq!(n, "other"),
        _ => panic!("expected NotFound"),
    }
    match clients::launch_among(&daemons, "work", &config, false) {
        Err(DaemonError::SocketMissing(p)) => assert_eq!(p, "/srv/sockets/work"),
        _ => panic!("expected SocketMissing"),
    }
    match clients::launch_among(&daemons, "work", &config, true) {
        Ok(c) => {
            assert_eq!(c.daemon_socket, "/srv/sockets/work");
            assert_eq!(c.alternate_editor, Some("nano".to_string()));
            assert!(c.create_new_frame);
        }
        _ => panic!("expected a client"),
    }
}

#[test]
fn client_command_fixes_the_whole_argument_list() {
    let config = test_config("/");
    let c = client::ClientProcess::with_daemon(
        "/srv/sockets/foo".to_string(),
        "notes/today.txt".to_string(),
    );
    let cmd = c.client_command(&config, "/home/u/notes/today.txt".to_string());
    assert_eq!(cmd.program(), "emacsclient");
    let args = cmd.args();
    assert_eq!(args.len(), 4);
    assert_eq!(args[0], "--create-frame");
    assert_eq!(args[1], "--socket-name=/srv/sockets/foo");
    assert_eq!(args[2], "--alternate-editor=nano");
    assert_eq!(args[3], "/home/u/notes/today.txt");
}

#[test]
fn client_spawn_command_arguments() {
    let config = test_config("/");
    let c = client::ClientProcess::with_daemon("/srv/sockets/foo".to_string(), "/tmp".to_string());
    let cmd = c.spawn_command(&config).unwrap();
    assert_eq!(cmd.program(), "emacsclient");
    let args = cmd.args();
    assert_eq!(args.len(), 4);
    assert_eq!(args[0], "--create-frame");
    assert_eq!(args[1], "--socket-name=/srv/sockets/foo");
    assert_eq!(args[2], "--alternate-editor=nano");
    assert_eq!(args[3], "/tmp");
}

#[test]
fn client_spawn_command_missing_file() {
    let config = test_config("/");
    let c = client::ClientProcess::with_daemon(
        "/srv/sockets/foo".to_string(),
        "/nonexistent-eud-test-dir/file".to_string(),
    );
    match c.spawn_command(&config) {
        Err(DaemonError::FileMissing(f)) => assert_eq!(f, "/nonexistent-eud-test-dir/file"),
        _ => panic!("expected FileMissing"),
    }
}

#[test]
fn legacy_client_spawn_command_arguments() {
    let c = clients::ClientProcess::with_daemon("/srv/sockets/foo".to_string());
    let cmd = c.spawn_command();
    assert_eq!(cmd.program(), "emacsclient");
    let args = cmd.args();
    assert_eq!(args.len(), 3);
    assert_eq!(args[0], "--create-frame");
    assert_eq!(args[1], "--socket-name=/srv/sockets/foo");
    assert_eq!(args[2], "--alternate-editor=");
}

#[test]
fn legacy_client_spawn_command_carries_the_editor() {
    let mut c = clients::ClientProcess::with_daemon("/srv/sockets/foo".to_string());
    c.alternate_editor = Some("vi".to_string());
    let cmd = c.spawn_command();
    let args = cmd.args();
    assert_eq!(args.len(), 3);
    assert_eq!(args[2], "--alternate-editor=vi");
}
