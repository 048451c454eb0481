use loadgen::pattern::{LatencyPattern, PatternError};
use loadgen::task::{cleanup_id, combined_output, task_report};

const DEFAULT: &str = r#""total_dur\(ms\)": ([\d.]+)"#;

#[test]
fn output_is_stderr_newline_stdout() {
    assert_eq!(combined_output(b"out", b"err"), "err\nout");
    assert_eq!(combined_output(b"", b""), "\n");
}

#[test]
fn output_is_decoded_leniently() {
    assert_eq!(combined_output(b"a\xffb", b"caf\xc3\xa9"), "café\na\u{fffd}b");
}

#[test]
fn invalid_pattern_is_refused() {
    match LatencyPattern::new("foo(bar") {
        Err(PatternError::Invalid(message)) => assert!(message.contains("unclosed group")),
        Ok(_) => panic!("pattern accepted"),
    }
    assert!(LatencyPattern::new(DEFAULT).is_ok());
}

#[test]
fn candidates_in_line_order() {
    let p = LatencyPattern::new(DEFAULT).unwrap();
    let out = "start\n{\"total_dur(ms)\": 12.5}\nnoise \"total_dur(ms)\": 7\n\"total_dur(ms)\": x";
    assert_eq!(p.duration_candidates(out), vec!["12.5", "7"]);
    assert!(p.duration_candidates("nothing here").is_empty());
}

#[test]
fn candidates_need_group_one() {
    let p = LatencyPattern::new(r"a(b)?").unwrap();
    assert_eq!(p.duration_candidates("ab\na\nxab"), vec!["b", "b"]);
}

#[test]
fn cleanup_only_for_named_containers() {
    assert_eq!(cleanup_id(String::new()), None);
    assert_eq!(cleanup_id("abc123456".to_string()), Some("abc123456".to_string()));
}

#[test]
fn report_of_a_finished_request() {
    let p = LatencyPattern::new(DEFAULT).unwrap();
    let r = task_report(&p, b"\"total_dur(ms)\": 3.25\r\n", b"warn", "id1".to_string());
    assert_eq!(r.output, "warn\n\"total_dur(ms)\": 3.25\r\n");
    assert_eq!(r.candidates, vec!["3.25"]);
    assert_eq!(r.cleanup, Some("id1".to_string()));
    let r = task_report(&p, b"", b"", String::new());
    assert!(r.candidates.is_empty());
    assert_eq!(r.cleanup, None);
}
