use remo_broker::paths::{file_name, join};
use remo_broker::text::{decimal_text, filled_line, parse_u16, trim, word};

#[test]
fn trims_as_std_does() {
    for s in ["", " ", "a", " a b ", "\u{85}x\u{3000}", "\u{200b}x", "\t\n\r\u{b}\u{c}y", "é "] {
        assert_eq!(trim(s), s.trim(), "{s:?}");
    }
    for c in 0..0x3100u32 {
        if let Some(c) = char::from_u32(c) {
            let s = format!("{c}x{c}");
            assert_eq!(trim(&s), s.trim(), "{c:?}");
        }
    }
}

#[test]
fn lines_and_words() {
    assert_eq!(filled_line(""), None);
    assert_eq!(filled_line(" \n\r\n"), None);
    assert_eq!(filled_line("\n a \nb").as_deref(), Some("a"));
    for (s, n) in [("a b  c", 0), ("a b  c", 2), ("a b  c", 3), ("  ", 0), (" é\u{a0}z", 1)] {
        assert_eq!(word(s, n).as_deref(), s.split_whitespace().nth(n), "{s:?} {n}");
    }
}

#[test]
fn numbers_as_std_reads_and_writes_them() {
    for s in ["0", "00080", "+1", "65535", "65536", "", "+", "-1", "1 ", "1a", "++1", "99999999999"] {
        assert_eq!(parse_u16(s), s.parse::<u16>().ok(), "{s:?}");
    }
    for n in [0, 9, 10, 21_600, 99_999, u64::MAX] {
        assert_eq!(decimal_text(n), n.to_string());
    }
}

#[test]
fn paths_as_std_takes_them() {
    let parts = ["", "/", "a", "/a", "a/", "a/b", ".", "..", "a/..", "a/.", "./", "//", "/a//"];
    for base in parts {
        let name = std::path::Path::new(base).file_name().map(|n| n.to_str().unwrap().to_owned());
        assert_eq!(file_name(base), name, "{base:?}");
        for rel in parts {
            let expected = std::path::Path::new(base).join(rel);
            assert_eq!(join(base, rel), expected.to_str().unwrap(), "{base:?} {rel:?}");
        }
    }
}
