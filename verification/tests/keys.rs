use pty_bridge::keys::{control, encode, encode_all, special, KeyFault, Special};

fn key(name: &str) -> Vec<u8> {
    encode(name, false).unwrap()
}

#[test]
fn plain_control_and_meta_keys() {
    assert_eq!(key("Enter"), b"\r");
    assert_eq!(key("esc"), b"\x1b");
    assert_eq!(key("C-c"), b"\x03");
    assert_eq!(key("C-D"), b"\x04");
    assert_eq!(key("C-["), b"\x1b");
    assert_eq!(key("C-Space"), b"\0");
    assert_eq!(key("M-x"), b"\x1bx");
    assert_eq!(key("M-Enter"), b"\x1b\r");
    assert_eq!(key("S-Tab"), b"\x1b[Z");
    assert_eq!(key("q"), b"q");
    assert_eq!(key("-"), b"-");
    assert_eq!(key("é"), "é".as_bytes());
}

#[test]
fn cursor_keys_follow_application_mode_and_modifiers() {
    assert_eq!(key("Up"), b"\x1b[A");
    assert_eq!(encode("Up", true).unwrap(), b"\x1bOA");
    assert_eq!(encode("C-Left", true).unwrap(), b"\x1b[1;5D");
    assert_eq!(key("S-Up"), b"\x1b[1;2A");
    assert_eq!(key("M-Right"), b"\x1b[1;3C");
    assert_eq!(key("F1"), b"\x1bOP");
    assert_eq!(key("F5"), b"\x1b[15~");
    assert_eq!(key("C-Delete"), b"\x1b[3;5~");
    assert_eq!(key("PageDown"), b"\x1b[6~");
}

#[test]
fn rejects_unknown_and_unsupported_keys() {
    assert!(encode("Hyper", false).is_err());
    assert!(encode("S-a", false).is_err());
    assert!(encode("C-Enter", false).is_err());
    assert!(encode("C-1", false).is_err());
    assert!(encode("C--", false).is_err());
    assert_eq!(
        encode_all(&["C-a".into(), "k".into()], false).unwrap(),
        b"\x01k"
    );
}

#[test]
fn key_errors_say_what_is_wrong() {
    let unknown = encode("Hyper", false).unwrap_err();
    assert_eq!(unknown.fault, KeyFault::Unknown);
    assert_eq!(unknown.describe(), "unknown key \"Hyper\"");
    let shifted = encode("S-a", false).unwrap_err();
    assert_eq!(shifted.fault, KeyFault::Shifted);
    assert_eq!(
        shifted.describe(),
        "S-a: use the shifted character instead of S-"
    );
    let modifier = encode("C-Enter", false).unwrap_err();
    assert_eq!(modifier.fault, KeyFault::UnsupportedModifier);
    assert_eq!(modifier.describe(), "C-Enter: unsupported modifier");
    let code = encode("C-1", false).unwrap_err();
    assert_eq!(code.fault, KeyFault::NoControlCode('1'));
    assert_eq!(code.describe(), "C-1: no Ctrl code for '1'");
}

#[test]
fn the_first_bad_key_is_reported() {
    let error = encode_all(&["a".into(), "Hyper".into(), "S-b".into()], false).unwrap_err();
    assert_eq!(error.name, "Hyper");
    assert_eq!(encode_all(&[], true).unwrap(), b"");
}

#[test]
fn prefixes_combine_in_any_order() {
    assert_eq!(key("C-M-Left"), b"\x1b[1;7D");
    assert_eq!(key("M-C-Left"), key("C-M-Left"));
    assert_eq!(key("C-M-x"), key("M-C-x"));
    assert_eq!(key("A-x"), key("M-x"));
    assert_eq!(key("C-S-M-F12"), b"\x1b[24;8~");
}

#[test]
fn modified_keys_ignore_cursor_mode() {
    assert_eq!(
        encode("M-Up", true).unwrap(),
        encode("M-Up", false).unwrap()
    );
    assert_eq!(encode("F1", true).unwrap(), encode("F1", false).unwrap());
    assert_ne!(
        encode("Home", true).unwrap(),
        encode("Home", false).unwrap()
    );
}

#[test]
fn names_stand_for_keys() {
    assert_eq!(special("up"), Some(Special::Final { byte: b'A', cursor: true }));
    assert_eq!(special("delete"), Some(Special::Tilde(3)));
    assert_eq!(special("hyper"), None);
    assert_eq!(control('a'), Some(1));
    assert_eq!(control('Z'), Some(26));
    assert_eq!(control('é'), None);
}
