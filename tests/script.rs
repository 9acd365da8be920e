use rtkaller::exec::ExecResult;
use rtkaller::script::{chars_of, extract_result, parse_record};

#[test]
fn record_verdicts() {
    assert_eq!(parse_record("rtkaller: result=success"), 0);
    assert_eq!(parse_record("  rtkaller:  result = crashed \r"), 2);
    assert_eq!(parse_record("rtkaller: result=timeout"), 1);
    assert_eq!(parse_record("rtkaller: status=success"), 1);
    assert_eq!(parse_record("rtkaller: result"), 1);
    assert_eq!(parse_record("x: rtkaller: result=success"), 1);
    assert_eq!(parse_record("\u{a0}rtkaller:\u{3000}result=success\u{2003}"), 0);
}

#[test]
fn result_from_output() {
    let out = "line one\nprefix rtkaller: result=success\nrtkaller: result=crashed\n";
    assert!(matches!(extract_result(out.to_string()), Some(ExecResult::Success(_))));
    let out = "a\r\nrtkaller: result=crashed\r\n".to_string();
    match extract_result(out.clone()) {
        Some(ExecResult::Crashed(info)) => assert_eq!(info, out),
        _ => panic!("expected a crash"),
    }
    let out = "rtkaller: result=weird".to_string();
    match extract_result(out.clone()) {
        Some(ExecResult::Failed(info)) => assert_eq!(info, out),
        _ => panic!("expected a failure"),
    }
    assert!(extract_result("no marker here\n".to_string()).is_none());
    assert!(extract_result(String::new()).is_none());
}

#[test]
fn chars_of_keeps_text() {
    assert_eq!(chars_of("aé\n"), vec!['a', 'é', '\n']);
}
