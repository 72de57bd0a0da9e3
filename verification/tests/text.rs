use engram_dashboard_daemon::text::{decimal_text, longer_than_bytes, sanitize_for_log, trim_text, LOG_MAX_CHARS};

fn std_sanitize(text: &str) -> String {
    let mut out = String::new();
    for ch in text.chars().take(LOG_MAX_CHARS) {
        if ch.is_control() {
            out.extend(ch.escape_debug());
        } else {
            out.push(ch);
        }
    }
    if text.chars().nth(LOG_MAX_CHARS).is_some() {
        out.push('\u{2026}');
    }
    out
}

#[test]
fn the_log_field_matches_what_the_standard_escapes_give() {
    let cases = [
        "plain",
        "line\nbreak",
        "tab\there\r\0",
        "\u{1b}[31mred",
        "\u{7f}\u{85}\u{9f}",
        "caf\u{e9} \u{2028} ok",
        "",
    ];
    for c in cases {
        assert_eq!(sanitize_for_log(c), std_sanitize(c), "{c:?}");
    }
    let long = "x".repeat(100);
    assert_eq!(sanitize_for_log(&long), std_sanitize(&long));
    assert_eq!(sanitize_for_log(&long).chars().count(), LOG_MAX_CHARS + 1);
    let exact = "y".repeat(LOG_MAX_CHARS);
    assert_eq!(sanitize_for_log(&exact), exact);
}

#[test]
fn trimming_matches_str_trim() {
    for c in ["  a b  ", "\n\tx\u{a0}", "", "   ", "\u{3000}word\u{2029}", "no-space", "\u{85}y"] {
        assert_eq!(trim_text(c), c.trim(), "{c:?}");
    }
}

#[test]
fn decimal_and_byte_counts() {
    assert_eq!(decimal_text(0), "0");
    assert_eq!(decimal_text(65536), "65536");
    assert_eq!(decimal_text(u64::MAX), u64::MAX.to_string());
    assert!(!longer_than_bytes("가", 3));
    assert!(longer_than_bytes("가", 2));
    assert!(longer_than_bytes("\u{1f600}", 3));
    assert!(!longer_than_bytes("", 0));
}
