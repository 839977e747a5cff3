use luhproc::pid::{parse_pid, parse_u32, render_pid, trim};

#[test]
fn pid_file_text_reads_back() {
    for pid in [0u32, 1, 42, 39241, u32::MAX] {
        let text = render_pid(pid);
        assert_eq!(parse_pid(&text), Some(pid));
        assert_eq!(parse_pid(&format!("{}\n", text)), Some(pid));
    }
    assert_eq!(render_pid(39241), "39241");
}

#[test]
fn parse_pid_trims_white_space() {
    assert_eq!(parse_pid("  1234 \n"), Some(1234));
    assert_eq!(parse_pid("\t+42\r\n"), Some(42));
    assert_eq!(parse_pid("\u{3000}7\u{a0}"), Some(7));
}

#[test]
fn parse_pid_rejects_what_is_not_a_u32() {
    assert_eq!(parse_pid(""), None);
    assert_eq!(parse_pid("   "), None);
    assert_eq!(parse_pid("abc"), None);
    assert_eq!(parse_pid("12a"), None);
    assert_eq!(parse_pid("1 2"), None);
    assert_eq!(parse_pid("-1"), None);
    assert_eq!(parse_pid("+"), None);
    assert_eq!(parse_pid("4294967296"), None);
    assert_eq!(parse_pid("99999999999999999999"), None);
}

#[test]
fn parse_u32_matches_std() {
    for text in ["0", "007", "+5", "4294967295", "4294967296", "", "+", "-0", " 1", "1 ", "x"] {
        assert_eq!(parse_u32(text), text.parse::<u32>().ok(), "text {:?}", text);
    }
}

#[test]
fn trim_matches_std() {
    for text in ["", "  ", " a ", "\n\tab c\r\n", "\u{2003}x\u{2029}", "\u{85}y\u{1680}", "z"] {
        assert_eq!(trim(text), text.trim(), "text {:?}", text);
    }
}
