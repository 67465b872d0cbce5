use wispr_flow_linux_helper::text::{
    contains, contains_field, decimal_text, hex_text, is_white_space, join, same, slice, stands_here,
    starts_with, to_chars, to_lower, to_text, to_upper, trimmed, trimmed_nul,
};

fn chars(s: &str) -> Vec<char> {
    s.chars().collect()
}

#[test]
fn white_space_is_that_of_char() {
    for c in '\0'..=char::MAX {
        assert_eq!(is_white_space(c), c.is_whitespace(), "{c:?}");
    }
}

#[test]
fn texts_are_trimmed_as_by_str() {
    for s in ["", " ", "a", " a b\n", "\u{3000}x\u{85}", "\u{200b}y", "\t\r\n"] {
        assert_eq!(to_text(&trimmed(s)), s.trim());
    }
    for s in ["", "\0", "\0a\0b\0\0", " \0", "plain"] {
        assert_eq!(to_text(&trimmed_nul(s)), s.trim_matches('\0'));
    }
}

#[test]
fn case_is_folded_in_ascii_only() {
    assert_eq!(to_text(&to_lower("ÄbC-Z[")), "Äbc-z[");
    assert_eq!(to_text(&to_upper("äbC-z{")), "äBC-Z{");
}

#[test]
fn parts_are_found_anywhere() {
    assert!(contains(&chars("gnome-terminal"), &chars("term")));
    assert!(contains(&chars("abab"), &chars("bab")));
    assert!(contains(&chars("x"), &chars("")));
    assert!(!contains(&chars("ab"), &chars("abc")));
    assert!(!contains(&chars("acb"), &chars("ab")));
    assert!(stands_here(&chars("xab"), &chars("ab"), 1));
    assert!(!stands_here(&chars("xab"), &chars("ab"), 2));
    assert!(!stands_here(&chars("x"), &chars("x"), usize::MAX));
}

#[test]
fn prefixes_and_slices() {
    assert!(starts_with("event12", "event"));
    assert!(!starts_with("even", "event"));
    assert!(starts_with("é", ""));
    assert_eq!(to_text(&slice(&chars("añb"), 1, 2)), "ñ");
    assert_eq!(to_chars("añ"), vec!['a', 'ñ']);
    assert!(same("ñ", "ñ"));
    assert!(!same("n", "N"));
}

#[test]
fn fields_stand_between_separators() {
    for (s, field) in [("a'b'c", "b"), ("a'b'c", "a"), ("a'b'c", "c"), ("''", ""), ("", "")] {
        assert!(contains_field(s, '\'', field), "{s:?} {field:?}");
    }
    for (s, field) in [("a'bc'd", "b"), ("a'b", "ab"), ("ab", ""), ("a'b'c", "a'b")] {
        assert!(!contains_field(s, '\'', field), "{s:?} {field:?}");
    }
    for s in ["", "a", "'", "a'b'a", "''a"] {
        for field in ["", "a", "b", "'"] {
            let expected = s.split('\'').any(|part| part == field);
            assert_eq!(contains_field(s, '\'', field), expected, "{s:?} {field:?}");
        }
    }
}

#[test]
fn numbers_are_written_out() {
    for n in [0, 7, 10, 255, 4096, 1_000_000_007, u64::MAX] {
        assert_eq!(decimal_text(n), format!("{n}"));
        assert_eq!(hex_text(n), format!("{n:#x}"));
    }
    assert_eq!(join("ab", "ñc"), "abñc");
}
