use smtp::ascii::all_ascii;
use smtp::ascii::ascii_upcase;
use smtp::ascii::ascii_upcase_compare;

#[test]
fn test_ascii_upcase() {
    assert!(ascii_upcase(b'E') == b'E');
    assert!(ascii_upcase(b'e') == b'E');
}

#[test]
fn test_ascii_upcase_compare() {
    assert!(ascii_upcase_compare(b"ehlo", b"EHLO") == true);
    assert!(ascii_upcase_compare(b"EHLO", b"EHLO") == true);
    assert!(ascii_upcase_compare(b"bHLO", b"EHLO") == false);
    assert!(ascii_upcase_compare(b"EHLO ", b"EHLO") == false);
}

#[test]
fn upcase_leaves_non_letters_alone() {
    assert_eq!(ascii_upcase(b'0'), b'0');
    assert_eq!(ascii_upcase(b' '), b' ');
    assert_eq!(ascii_upcase(b'@'), b'@');
    assert_eq!(ascii_upcase(b'{'), b'{');
    assert_eq!(ascii_upcase(200), 200);
}

#[test]
fn compare_is_ascii_only() {
    // A non-ASCII byte compares equal only to itself, never to a letter.
    assert!(ascii_upcase_compare(&[200], &[200]));
    assert!(!ascii_upcase_compare(&[200], b"H"));
    assert!(ascii_upcase_compare(b"", b""));
}

#[test]
fn wire_gate_rejects_del_and_above() {
    // ASCII on the wire stops below DEL: byte 127 is already a hard error.
    assert!(all_ascii(b""));
    assert!(all_ascii(b"MAIL FROM:<a@b>\r\n"));
    assert!(all_ascii(&[126]));
    assert!(!all_ascii(&[127]));
    assert!(!all_ascii(&[128]));
    assert!(!all_ascii(&[200]));
    assert!(!all_ascii(b"MAIL\x7f\r\n"));
}
