use aws_sso_tools::login_code::{extract_code, CodeScanner};

const REAL_AWS_OUTPUT: &str = "\
Attempting to automatically open the SSO authorization page in your default browser.\n\
If the browser does not open or you wish to use a different device to authorize this request, open the following URL:\n\
\n\
https://device.sso.us-east-1.amazonaws.com/\n\
\n\
Then enter the code:\n\
\n\
ABCD-1234\n\
";

#[test]
fn extracts_code_from_real_aws_output() {
    assert_eq!(extract_code(REAL_AWS_OUTPUT), Some("ABCD-1234".to_owned()));
}

#[test]
fn returns_none_before_marker_arrives() {
    let partial = "Attempting to automatically open the SSO authorization page\n";
    assert_eq!(extract_code(partial), None);
}

#[test]
fn returns_none_when_code_line_is_empty() {
    let output = "Then enter the code:\n\n\n";
    assert_eq!(extract_code(output), None);
}

#[test]
fn returns_none_when_code_line_is_whitespace_only() {
    let output = "Then enter the code:\n\n   \n";
    assert_eq!(extract_code(output), None);
}

#[test]
fn trims_whitespace_from_code() {
    let output = "Then enter the code:\n\n  WXYZ-5678  \n";
    assert_eq!(extract_code(output), Some("WXYZ-5678".to_owned()));
}

#[test]
fn handles_code_at_end_of_string_without_trailing_newline() {
    let output = "Then enter the code:\n\nABCD-1234";
    assert_eq!(extract_code(output), Some("ABCD-1234".to_owned()));
}

#[test]
fn only_the_first_marker_counts() {
    let output = "Then enter the code:\n\n \nThen enter the code:\n\nLATE-0001\n";
    assert_eq!(extract_code(output), None);
}

#[test]
fn marker_needs_the_blank_line() {
    assert_eq!(extract_code("Then enter the code:\nABCD-1234\n"), None);
}

#[test]
fn scanner_reports_code_once_its_line_arrives() {
    let mut scanner = CodeScanner::new();
    let mut found = Vec::new();
    for line in REAL_AWS_OUTPUT.lines() {
        if let Some(code) = scanner.feed_line(line) {
            found.push(code);
        }
    }
    assert_eq!(found, vec!["ABCD-1234".to_owned()]);
}

#[test]
fn scanner_starts_over_after_a_report() {
    let mut scanner = CodeScanner::new();
    assert_eq!(scanner.feed_line("Then enter the code:"), None);
    assert_eq!(scanner.feed_line(""), None);
    assert_eq!(scanner.feed_line("  AAAA-1111 "), Some("AAAA-1111".to_owned()));
    assert_eq!(scanner.feed_line("BBBB-2222"), None);
    assert_eq!(scanner.feed_line("Then enter the code:"), None);
    assert_eq!(scanner.feed_line(""), None);
    assert_eq!(scanner.feed_line("CCCC-3333"), Some("CCCC-3333".to_owned()));
}
