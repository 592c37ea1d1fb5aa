use fabro_workflow::handler::llm::changed_files::parse_changed_files;
use fabro_workflow::handler::llm::preamble_stage::tail_lines;
use fabro_workflow::handler::llm::refresh::{parse_refresh_enabled, parse_refresh_interval};

#[test]
fn refresh_enabled_defaults_on_and_honors_falsy_values() {
    assert!(parse_refresh_enabled(None));
    for v in ["1", "true", "on", "yes", "anything"] {
        assert!(parse_refresh_enabled(Some(v)), "{v} should be enabled");
    }
    for v in [
        "0", "false", "off", "no", "FALSE", "Off", "No", "OFF", "", "  ",
    ] {
        assert!(!parse_refresh_enabled(Some(v)), "{v} should be disabled");
    }
}

#[test]
fn refresh_interval_parses_default_disable_and_override() {
    assert_eq!(parse_refresh_interval(None), Some(45 * 60));
    assert_eq!(parse_refresh_interval(Some("  ")), Some(45 * 60));
    assert_eq!(parse_refresh_interval(Some("0")), None);
    assert_eq!(parse_refresh_interval(Some("1800")), Some(30 * 60));
    assert_eq!(parse_refresh_interval(Some(" 900 ")), Some(15 * 60));
    for v in ["15m", "-1", "abc", "9999999999999999999999"] {
        assert_eq!(
            parse_refresh_interval(Some(v)),
            Some(45 * 60),
            "{v} should fall back to default"
        );
    }
}

#[test]
fn parse_changed_files_ignores_section_markers() {
    let files = parse_changed_files(
        "__FABRO_CHANGED_FILES_DIFF__\nsrc/main.rs\n\
         __FABRO_CHANGED_FILES_UNTRACKED__\nREADME.md\n",
    );
    assert_eq!(files, vec!["src/main.rs", "README.md"]);
}

#[test]
fn tail_lines_returns_full_text_when_under_limit() {
    let text = "line1\nline2\nline3";
    let result = tail_lines(text, 5, "");
    assert_eq!(result, text);
}

#[test]
fn tail_lines_returns_full_text_at_exact_limit() {
    let text = "line1\nline2\nline3";
    let result = tail_lines(text, 3, "");
    assert_eq!(result, text);
}

#[test]
fn tail_lines_truncates_and_shows_omission() {
    let text = "line1\nline2\nline3\nline4\nline5";
    let result = tail_lines(text, 2, "");
    assert_eq!(result, "(3 lines omitted)\nline4\nline5");
    assert!(!result.contains("line1"));
    assert!(!result.contains("line2"));
    assert!(!result.contains("line3"));
}

#[test]
fn tail_lines_applies_indent_to_each_line() {
    let result = tail_lines("a\nb\nc", 5, "  ");
    assert_eq!(result, "  a\n  b\n  c");
}

#[test]
fn tail_lines_truncates_with_indent() {
    let result = tail_lines("a\nb\nc\nd\ne", 2, ">> ");
    assert_eq!(result, ">> (3 lines omitted)\n>> d\n>> e");
}
