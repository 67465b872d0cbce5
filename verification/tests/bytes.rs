use wispr_flow_linux_helper::bytes::{next_zero, to_text, two_pieces};

#[test]
fn text_is_read_or_is_empty() {
    assert_eq!(to_text("né".as_bytes()), "né");
    assert_eq!(to_text(b"a\xff"), "");
    assert_eq!(to_text(b""), "");
}

#[test]
fn pieces_stand_between_zeros() {
    let pair = |a: &str, b: Option<&str>| (a.to_string(), b.map(|s| s.to_string()));
    assert_eq!(two_pieces(b"a\0b\0"), pair("a", Some("b")));
    assert_eq!(two_pieces(b"\0a\0\0b"), pair("a", Some("b")));
    assert_eq!(two_pieces(b"a"), pair("a", None));
    assert_eq!(two_pieces(b"a\0\0"), pair("a", None));
    assert_eq!(two_pieces(b"\0\0"), pair("", None));
    assert_eq!(two_pieces(b"\xff\0\xff"), pair("", Some("")));
    assert_eq!(next_zero(b"ab\0c", 0), 2);
    assert_eq!(next_zero(b"ab\0c", 3), 4);
}
