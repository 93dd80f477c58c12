use std::time::Instant;

use mdpdf::report::{saturating_millis, RenderResult};

fn result(success: bool, error: Option<&str>, warnings: &[&str]) -> RenderResult {
    RenderResult {
        input: "in.md".to_string(),
        output: "out.pdf".to_string(),
        success,
        time_ms: 1234,
        error: error.map(str::to_string),
        warnings: warnings.iter().map(|w| w.to_string()).collect(),
    }
}

#[test]
fn builder_ok_keeps_paths_and_warnings() {
    let start = Instant::now();
    let r = RenderResult::builder("a.md", "a.pdf", &start)
        .warnings(vec!["w1".to_string()])
        .ok();
    assert_eq!(r.input, "a.md");
    assert_eq!(r.output, "a.pdf");
    assert!(r.success);
    assert!(r.success());
    assert!(r.error.is_none());
    assert_eq!(r.warnings, vec!["w1".to_string()]);
}

#[test]
fn builder_fail_records_error() {
    let start = Instant::now();
    let r = RenderResult::builder("<stdin>", "x.pdf", &start).fail("no input on stdin");
    assert!(!r.success);
    assert_eq!(r.error.as_deref(), Some("no input on stdin"));
    assert_eq!(r.error(), Some(&"no input on stdin".to_string()));
    assert!(r.warnings.is_empty());
}

#[test]
fn millis_saturate_at_u64_max() {
    assert_eq!(saturating_millis(5), 5);
    assert_eq!(saturating_millis(u64::MAX as u128), u64::MAX);
    assert_eq!(saturating_millis(u64::MAX as u128 + 1), u64::MAX);
}

#[test]
fn human_lines_success() {
    assert_eq!(result(true, None, &[]).human_lines(), vec!["  ok: out.pdf (1234ms)"]);
}

#[test]
fn human_lines_failure_with_error_lines() {
    let r = result(false, Some("first\r\nsecond\n"), &[]);
    assert_eq!(r.human_lines(), vec!["  FAIL: in.md", "    first", "    second"]);
}

#[test]
fn human_lines_failure_shows_ten_error_lines() {
    let err = (1..=12).map(|i| format!("line {i}")).collect::<Vec<_>>().join("\n");
    let lines = result(false, Some(&err), &[]).human_lines();
    assert_eq!(lines.len(), 11);
    assert_eq!(lines[10], "    line 10");
}

#[test]
fn human_lines_failure_without_error() {
    assert_eq!(result(false, None, &[]).human_lines(), vec!["  FAIL: in.md"]);
}

#[test]
fn human_lines_warnings_block() {
    let lines = result(true, None, &["a", "b"]).human_lines();
    assert_eq!(
        lines,
        vec!["  ok: out.pdf (1234ms)", "  warnings:", "    a", "    b"]
    );
}
