use ccometixline::width::{truncate_to_width, visible_width};

#[test]
fn plain_ascii_width() {
    assert_eq!(visible_width("hello"), 5);
    assert_eq!(visible_width(""), 0);
}

#[test]
fn wide_chars_count_double() {
    assert_eq!(visible_width("\u{4F60}\u{597D}"), 4);
    assert_eq!(visible_width("a\u{4F60}b"), 4);
}

#[test]
fn boundary_code_points() {
    assert_eq!(visible_width("\u{FF}"), 1);
    assert_eq!(visible_width("\u{100}"), 2);
}

#[test]
fn escape_sequences_zero_width() {
    assert_eq!(visible_width("\x1b[31mred\x1b[0m"), 3);
    assert_eq!(visible_width("\x1b[1;36mx\x1b[0m"), 1);
}

#[test]
fn unterminated_escape_consumes_rest() {
    assert_eq!(visible_width("ab\x1b[31"), 2);
    assert_eq!(visible_width("ab\x1b"), 2);
}

#[test]
fn truncate_fast_path_returns_input() {
    let t = "\x1b[31mhello\x1b[0m world";
    let r = truncate_to_width(t, 100);
    assert_eq!(r, t);
}

#[test]
fn truncate_noop_at_own_width() {
    let t = "\x1b[31mhello\x1b[0m world";
    let w = visible_width(t);
    let r = truncate_to_width(t, w);
    assert_eq!(r, t);
    assert_eq!(visible_width(&r), w);
}

#[test]
fn truncate_respects_budget() {
    let t = "abcdefghijklmnopqrstuvwxyz";
    for w in 4..=30 {
        let r = truncate_to_width(t, w);
        assert!(visible_width(&r) <= w);
    }
}

#[test]
fn truncate_appends_suffix() {
    let r = truncate_to_width("abcdefghij", 5);
    assert_eq!(r, "ab...\x1b[0m");
    assert_eq!(visible_width(&r), 5);
}

#[test]
fn truncate_copies_escapes_before_cut() {
    let r = truncate_to_width("\x1b[31mabcdefghij", 5);
    assert_eq!(r, "\x1b[31mab...\x1b[0m");
}

#[test]
fn truncate_wide_chars_within_budget() {
    // each character is two columns; the cut reserves three for the ellipsis
    let r = truncate_to_width("\u{4F60}\u{4F60}\u{4F60}\u{4F60}\u{4F60}", 8);
    assert_eq!(r, "\u{4F60}\u{4F60}...\x1b[0m");
    assert_eq!(visible_width(&r), 7);
}

#[test]
fn truncate_never_splits_escapes() {
    let t = "\x1b[31maaaa\x1b[32mbbbb\x1b[0m";
    for w in 0..=10 {
        let r = truncate_to_width(t, w);
        let mut in_esc = false;
        for c in r.chars() {
            if c == '\x1b' {
                in_esc = true;
            } else if in_esc && c.is_alphabetic() {
                in_esc = false;
            }
        }
        assert!(!in_esc);
    }
}

#[test]
fn wide_line_truncated_to_budget() {
    let mut t = String::new();
    t.push_str("\x1b[36m");
    for _ in 0..100 {
        t.push('x');
    }
    t.push_str("\x1b[0m");
    assert_eq!(visible_width(&t), 100);
    let r = truncate_to_width(&t, 20);
    assert!(r.ends_with("...\x1b[0m"));
    assert!(visible_width(&r) <= 20);
}
