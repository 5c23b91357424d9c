use newline_lint::report::{exit_code, output, report, EXIT_FAILURE, EXIT_SUCCESS};
use newline_lint::target::LintTarget;

fn targets(paths: &[&str]) -> Vec<LintTarget> {
    let mut made = Vec::new();
    for path in paths {
        made.push(LintTarget::new(path.to_string(), true, Some(1)).unwrap());
    }
    made
}

#[test]
fn exit_codes_are_zero_and_one() {
    assert_eq!(EXIT_SUCCESS, 0);
    assert_eq!(EXIT_FAILURE, 1);
}

#[test]
fn report_lists_each_path_under_the_header() {
    let lines = report(&targets(&["/root/a.txt", "/root/dir/b.rs"]));
    assert_eq!(
        lines,
        vec![
            "".to_string(),
            "Following files missing newline at EOF".to_string(),
            "".to_string(),
            "  /root/a.txt".to_string(),
            "  /root/dir/b.rs".to_string(),
            "".to_string(),
        ]
    );
}

#[test]
fn report_on_one_file_has_five_lines() {
    let lines = report(&targets(&["a.txt"]));
    assert_eq!(lines.len(), 5);
    assert_eq!(lines[3], "  a.txt");
    assert_eq!(lines[4], "");
}

#[test]
fn report_on_nothing_is_header_and_blank_lines() {
    let lines = report(&[]);
    assert_eq!(
        lines,
        vec![
            "".to_string(),
            "Following files missing newline at EOF".to_string(),
            "".to_string(),
            "".to_string(),
        ]
    );
}

#[test]
fn output_without_violations_is_empty() {
    assert!(output(false, &[]).is_empty());
    assert!(output(true, &[]).is_empty());
}

#[test]
fn output_in_fix_mode_is_empty() {
    assert!(output(true, &targets(&["a.txt"])).is_empty());
}

#[test]
fn output_in_report_mode_is_the_report() {
    let found = targets(&["a.txt"]);
    assert_eq!(output(false, &found), report(&found));
    assert_eq!(output(false, &found)[3], "  a.txt");
}

#[test]
fn exit_code_fails_only_on_unfixed_violations() {
    assert_eq!(exit_code(false, 0), 0);
    assert_eq!(exit_code(false, 1), 1);
    assert_eq!(exit_code(false, 7), 1);
    assert_eq!(exit_code(true, 0), 0);
    assert_eq!(exit_code(true, 1), 0);
    assert_eq!(exit_code(true, 7), 0);
}
