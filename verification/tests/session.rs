use remote_shell::session::{
    frame_message, is_quit, reply_text, request_bytes, response_bytes, restore_command,
    tracks_directory, unframe_message, FLAG_BYTE,
};
use remote_shell::text::{split_on_spaces, str_begins_with, str_contains_char, str_equal, str_has_prefix};

#[test]
fn framing_round_trip() {
    let framed = frame_message(b"hello");
    assert_eq!(framed, b"hello\x03".to_vec());
    assert_eq!(unframe_message(framed), b"hello".to_vec());
    assert_eq!(unframe_message(vec![]), Vec::<u8>::new());
    assert_eq!(frame_message(b""), vec![FLAG_BYTE]);
}

#[test]
fn replies() {
    assert_eq!(reply_text("pwd", Ok(Some("/home".to_string()))), "/home");
    assert_eq!(reply_text("pushd", Ok(None)), "ok");
    assert_eq!(
        reply_text("popd", Err("Directory stack is empty.".to_string())),
        "popd: Directory stack is empty."
    );
    assert_eq!(response_bytes("ok"), b"ok\x03".to_vec());
    assert_eq!(response_bytes("é"), vec![0xc3, 0xa9, 3]);
}

#[test]
fn client_requests() {
    assert_eq!(request_bytes("ls -l\n"), b"ls -l\x03".to_vec());
    assert_eq!(request_bytes(""), vec![3]);
    assert!(tracks_directory("cd /tmp\n", "/tmp"));
    assert!(!tracks_directory("cd /nope\n", "cd: no such file or directory"));
    assert!(tracks_directory("popd", "/srv"));
    assert!(!tracks_directory("popd", "popd: directory stack is empty"));
    assert!(!tracks_directory("popd\n", "/srv"));
    assert!(!tracks_directory("ls\n", "a b"));
    assert!(is_quit("q"));
    assert!(is_quit("quit"));
    assert!(is_quit("q\n"));
    assert!(is_quit("quit\n"));
    assert!(!is_quit("q\n\n"));
    assert!(!is_quit("qq\n"));
    assert!(!is_quit("\n"));
    assert_eq!(restore_command("/srv/data"), "cd /srv/data");
}

#[test]
fn text_helpers() {
    assert_eq!(split_on_spaces("a  b "), vec!["a", "", "b", ""]);
    assert_eq!(split_on_spaces(""), vec![""]);
    assert_eq!(split_on_spaces("ünï cödé").join(" "), "ünï cödé");
    assert!(str_begins_with("-x", '-'));
    assert!(!str_begins_with("", '-'));
    assert!(str_equal("abc", "abc"));
    assert!(!str_equal("abc", "abd"));
    assert!(!str_equal("abc", "ab"));
    assert!(str_has_prefix("cd x", "cd "));
    assert!(!str_has_prefix("cd", "cd "));
    assert!(str_contains_char("-rl", 'l'));
    assert!(!str_contains_char("-rl", 'x'));
}
