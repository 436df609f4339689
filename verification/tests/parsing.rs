use eud::text::contains_substr;
use eud::text::file_name_str;
use eud::text::find_first;
use eud::text::find_last;
use eud::text::join_path;
use eud::text::pad_left;
use eud::text::pad_right;
use eud::text::parse_socket_name;
use eud::text::starts_with_str;
use eud::text::str_eq;
use eud::text::u32_to_string;

#[test]
fn parse_round_trip_plain() {
    assert_eq!(
        parse_socket_name("--bg-daemon=X,Y\n/a/b/my-socket"),
        Some("my-socket".to_string())
    );
}

#[test]
fn parse_round_trip_embedded_newlines() {
    assert_eq!(
        parse_socket_name("--bg-daemon=abc\nDEADBEEF,1\n/tmp/sockets/foo"),
        Some("foo".to_string())
    );
}

#[test]
fn parse_round_trip_ignores_prefix_content() {
    assert_eq!(
        parse_socket_name("--bg-daemon=we=ird,st\nuff,more\n/srv/s/name"),
        Some("name".to_string())
    );
}

#[test]
fn parse_relative_path() {
    assert_eq!(parse_socket_name("--bg-daemon=x,y\nserver"), Some("server".to_string()));
}

#[test]
fn parse_rejects_without_equals() {
    assert_eq!(parse_socket_name("--bg-daemon"), None);
    assert_eq!(parse_socket_name(""), None);
    assert_eq!(parse_socket_name("no separators here"), None);
}

#[test]
fn parse_rejects_empty_tail() {
    // The remainder after the last newline is empty: no file name.
    assert_eq!(parse_socket_name("--bg-daemon=x,y\n"), None);
    // The path is all separators.
    assert_eq!(parse_socket_name("--bg-daemon=x,y\n///"), None);
}

#[test]
fn file_name_edge_cases() {
    assert_eq!(file_name_str("/a/b/c"), Some("c".to_string()));
    assert_eq!(file_name_str("c"), Some("c".to_string()));
    assert_eq!(file_name_str("/a/b/"), Some("b".to_string()));
    assert_eq!(file_name_str("/a/b/."), Some("b".to_string()));
    assert_eq!(file_name_str("a//b"), Some("b".to_string()));
    assert_eq!(file_name_str(""), None);
    assert_eq!(file_name_str("/"), None);
    assert_eq!(file_name_str("."), None);
    assert_eq!(file_name_str(".."), None);
    assert_eq!(file_name_str("/a/.."), None);
    assert_eq!(file_name_str("..a"), Some("..a".to_string()));
    assert_eq!(file_name_str("/x/.hidden"), Some(".hidden".to_string()));
}

#[test]
fn substring_search() {
    assert!(contains_substr("--bg-daemon=x", "daemon"));
    assert!(contains_substr("daemon", "daemon"));
    assert!(contains_substr("anything", ""));
    assert!(!contains_substr("", "daemon"));
    assert!(!contains_substr("--create-frame", "daemon"));
    assert!(!contains_substr("daemo", "daemon"));
}

#[test]
fn prefix_and_equality() {
    assert!(starts_with_str("emacsclient", "emacs"));
    assert!(starts_with_str("emacs", "emacs"));
    assert!(!starts_with_str("emac", "emacs"));
    assert!(!starts_with_str("xemacs", "emacs"));
    assert!(str_eq("server", "server"));
    assert!(!str_eq("server", "server2"));
}

#[test]
fn char_searches() {
    assert_eq!(find_first("a=b=c", '='), Some(1));
    assert_eq!(find_last("a=b=c", '='), Some(3));
    assert_eq!(find_first("abc", '='), None);
    assert_eq!(find_last("abc", '='), None);
}

#[test]
fn decimal_rendering() {
    assert_eq!(u32_to_string(0), "0");
    assert_eq!(u32_to_string(7), "7");
    assert_eq!(u32_to_string(1234567), "1234567");
    assert_eq!(u32_to_string(u32::MAX), "4294967295");
}

#[test]
fn padding() {
    assert_eq!(pad_right("tmp", 6), "tmp   ");
    assert_eq!(pad_right("too-wide-already", 6), "too-wide-already");
    assert_eq!(pad_left("42", 8), "      42");
    assert_eq!(pad_left("123456789", 8), "123456789");
}

#[test]
fn path_joining() {
    assert_eq!(join_path("/srv/sockets", "foo"), "/srv/sockets/foo");
    assert_eq!(join_path("/srv/sockets/", "foo"), "/srv/sockets/foo");
    assert_eq!(join_path("", "foo"), "foo");
}
