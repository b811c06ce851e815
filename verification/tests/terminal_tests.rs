use ccometixline::terminal::{compute_budget, parse_columns, resolve_terminal_width};

#[test]
fn parse_plain_number() {
    assert_eq!(parse_columns("80"), Some(80));
    assert_eq!(parse_columns("0"), Some(0));
}

#[test]
fn parse_leading_plus() {
    assert_eq!(parse_columns("+120"), Some(120));
}

#[test]
fn parse_rejects_junk() {
    assert_eq!(parse_columns(""), None);
    assert_eq!(parse_columns("+"), None);
    assert_eq!(parse_columns("80x"), None);
    assert_eq!(parse_columns(" 80"), None);
    assert_eq!(parse_columns("-80"), None);
    assert_eq!(parse_columns("8.5"), None);
}

#[test]
fn parse_value_bounds() {
    assert_eq!(
        parse_columns("99999999999999999999999999999999999999"),
        None
    );
    let max = usize::MAX.to_string();
    assert_eq!(parse_columns(&max), Some(usize::MAX));
}

#[test]
fn resolver_prefers_live_error_stream() {
    assert_eq!(
        resolve_terminal_width(true, Some(91), Some("80"), Some(100)),
        Some(91)
    );
    // a dead error stream is skipped even when its width is known
    assert_eq!(
        resolve_terminal_width(false, Some(91), Some("80"), Some(100)),
        Some(80)
    );
}

#[test]
fn resolver_env_then_stdout() {
    assert_eq!(
        resolve_terminal_width(true, None, Some("80"), Some(100)),
        Some(80)
    );
    assert_eq!(
        resolve_terminal_width(false, None, Some("bad"), Some(100)),
        Some(100)
    );
    assert_eq!(resolve_terminal_width(false, None, None, Some(100)), Some(100));
    assert_eq!(resolve_terminal_width(false, None, None, None), None);
}

#[test]
fn budget_from_detected_width() {
    assert_eq!(compute_budget(Some(120), 60), 72);
    assert_eq!(compute_budget(Some(200), 60), 120);
    assert_eq!(compute_budget(Some(50), 60), 10);
    assert_eq!(compute_budget(Some(30), 60), 0);
}

#[test]
fn budget_fallback_without_width() {
    assert_eq!(compute_budget(None, 60), 72);
}
