use weegrep::executor::{execute, matching_lines, ReadOutcome};
use weegrep::outcome::{resolve_received, ErrorKind, SearchOutcome};
use weegrep::pattern::Pattern;

#[test]
fn compile_accepts_a_plain_pattern() {
    assert!(Pattern::compile("hello").is_some());
}

#[test]
fn compile_rejects_an_unbalanced_pattern() {
    assert!(Pattern::compile("(").is_none());
}

#[test]
fn matching_lines_keeps_scan_order() {
    let pattern = Pattern::compile("alpha").unwrap();
    let content = "alpha one\nbeta two\nalpha three\n";
    let matches = matching_lines(&pattern, content);
    assert_eq!(matches, vec!["alpha one".to_string(), "alpha three".to_string()]);
}

#[test]
fn matching_lines_uses_the_regex_engine() {
    let pattern = Pattern::compile("l+o").unwrap();
    let matches = matching_lines(&pattern, "hello\nworld\n");
    assert_eq!(matches, vec!["hello".to_string()]);
}

#[test]
fn matching_lines_anchors_each_line() {
    let pattern = Pattern::compile("^b").unwrap();
    let matches = matching_lines(&pattern, "abc\nbac\n");
    assert_eq!(matches, vec!["bac".to_string()]);
}

#[test]
fn matching_lines_on_empty_content() {
    let pattern = Pattern::compile("x").unwrap();
    let matches = matching_lines(&pattern, "");
    assert!(matches.is_empty());
}

#[test]
fn matching_lines_without_trailing_newline() {
    let pattern = Pattern::compile("b").unwrap();
    let matches = matching_lines(&pattern, "abc\nxyz");
    assert_eq!(matches, vec!["abc".to_string()]);
}

#[test]
fn matching_lines_keeps_interior_empty_lines() {
    let pattern = Pattern::compile("^$").unwrap();
    let matches = matching_lines(&pattern, "a\n\nb\n");
    assert_eq!(matches, vec![String::new()]);
}

#[test]
fn round_trip_of_planted_records() {
    let records = ["alpha one", "beta two", "alpha three", "gamma"];
    let mut content = String::new();
    for record in records {
        content.push_str(record);
        content.push('\n');
    }
    let pattern = Pattern::compile("alpha").unwrap();
    let matches = matching_lines(&pattern, &content);
    assert_eq!(matches, vec!["alpha one".to_string(), "alpha three".to_string()]);
}

#[test]
fn execute_on_content() {
    let pattern = Pattern::compile("hello").unwrap();
    let read = ReadOutcome::Content("2024-01-01\tAlice\thello world\n2024-01-02\tBob\tgoodbye\n".to_string());
    match execute(&pattern, read) {
        SearchOutcome::Success(lines) => {
            assert_eq!(lines, vec!["2024-01-01\tAlice\thello world".to_string()]);
        }
        SearchOutcome::Failure(_) => panic!("search over content must succeed"),
    }
}

#[test]
fn execute_on_missing_file() {
    let pattern = Pattern::compile("hello").unwrap();
    match execute(&pattern, ReadOutcome::NotFound) {
        SearchOutcome::Failure(kind) => assert_eq!(kind, ErrorKind::FileNotFound),
        SearchOutcome::Success(_) => panic!("a missing file must fail the search"),
    }
}

#[test]
fn execute_on_failed_read() {
    let pattern = Pattern::compile("hello").unwrap();
    match execute(&pattern, ReadOutcome::ReadFailed) {
        SearchOutcome::Failure(kind) => assert_eq!(kind, ErrorKind::IoError),
        SearchOutcome::Success(_) => panic!("a failed read must fail the search"),
    }
}

#[test]
fn channel_yield_passes_through() {
    let sent = SearchOutcome::Success(vec!["m".to_string()]);
    match resolve_received(Some(sent)) {
        SearchOutcome::Success(lines) => assert_eq!(lines, vec!["m".to_string()]),
        SearchOutcome::Failure(_) => panic!("a sent outcome must pass through"),
    }
}

#[test]
fn closed_channel_becomes_a_failure() {
    match resolve_received(None) {
        SearchOutcome::Failure(kind) => assert_eq!(kind, ErrorKind::ChannelClosed),
        SearchOutcome::Success(_) => panic!("a closed channel must fail the search"),
    }
}

#[test]
fn closed_channel_reports_like_a_read_failure() {
    assert_eq!(ErrorKind::ChannelClosed.message(), ErrorKind::IoError.message());
    assert_eq!(ErrorKind::IoError.message(), "Error searching: could not read the file");
    assert_eq!(ErrorKind::FileNotFound.message(), "Error searching: file not found");
}
