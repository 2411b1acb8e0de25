use weegrep::coordinator::{DispatchDecision, Grep};
use weegrep::outcome::{ErrorKind, SearchOutcome};
use weegrep::buffer::Theme;

fn marker_theme() -> Theme {
    Theme {
        date_color: String::from("<D>"),
        nick_color: String::from("<N>"),
        delimiter_color: String::from("<[>"),
        tag_color: String::from("<T>"),
        reset: String::from("<R>"),
    }
}

#[test]
fn dispatch_without_a_file_aborts_silently() {
    let grep = Grep::new(Theme::plain());
    let decision = grep.dispatch(None, Some("hello".to_string()));
    assert!(matches!(decision, DispatchDecision::AbortNoFile));
}

#[test]
fn dispatch_without_a_pattern_reports_it() {
    let grep = Grep::new(Theme::plain());
    let decision = grep.dispatch(Some("log.txt".to_string()), None);
    assert!(matches!(decision, DispatchDecision::MissingPattern));
}

#[test]
fn dispatch_with_an_invalid_pattern_reports_before_any_surface_exists() {
    let grep = Grep::new(Theme::plain());
    let decision = grep.dispatch(Some("log.txt".to_string()), Some("(".to_string()));
    match decision {
        DispatchDecision::InvalidPattern { report } => {
            assert_eq!(report, "Invalid regular expression: (");
        }
        _ => panic!("an unbalanced pattern must be rejected before dispatch"),
    }
    assert!(grep.surface().is_none());
}

#[test]
fn dispatch_with_a_valid_pattern_is_ready_to_run() {
    let grep = Grep::new(Theme::plain());
    let decision = grep.dispatch(Some("log.txt".to_string()), Some("hello".to_string()));
    match decision {
        DispatchDecision::Dispatch { file, pattern: _ } => assert_eq!(file, "log.txt"),
        _ => panic!("a valid pattern must dispatch"),
    }
}

#[test]
fn successful_delivery_renders_status_matches_summary() {
    let mut grep = Grep::new(marker_theme());
    let outcome = SearchOutcome::Success(vec![
        "2024-01-01\tAlice\thello world".to_string(),
    ]);
    let rendered = grep.deliver("hello", outcome, true);
    assert_eq!(
        rendered,
        vec![
            "<[>[<T>grep<[>]<R>\tSearch for hello".to_string(),
            "<D>2024-01-01<R> <N>Alice<R> hello world".to_string(),
            "<[>[<T>grep<[>]<R>\tSummary of search: 1 lines".to_string(),
        ]
    );
    let surface = grep.surface().as_ref().unwrap();
    assert_eq!(surface.rendered_lines().len(), 3);
    assert!(surface.was_switched());
}

#[test]
fn failed_delivery_renders_status_and_error_only() {
    let mut grep = Grep::new(marker_theme());
    let rendered = grep.deliver("hello", SearchOutcome::Failure(ErrorKind::FileNotFound), true);
    assert_eq!(
        rendered,
        vec![
            "<[>[<T>grep<[>]<R>\tSearch for hello".to_string(),
            "<[>[<T>grep<[>]<R>\tError searching: file not found".to_string(),
        ]
    );
    let surface = grep.surface().as_ref().unwrap();
    assert_eq!(surface.rendered_lines().len(), 2);
    assert!(surface.was_switched());
}

#[test]
fn delivery_with_auto_switch_off_never_requests_focus() {
    let mut grep = Grep::new(Theme::plain());
    let outcome = SearchOutcome::Success(vec!["a line".to_string()]);
    let _ = grep.deliver("a", outcome, false);
    let surface = grep.surface().as_ref().unwrap();
    assert!(!surface.was_switched());
}

#[test]
fn later_searches_append_to_the_same_surface() {
    let mut grep = Grep::new(Theme::plain());
    let first = grep.deliver("a", SearchOutcome::Success(vec!["a one".to_string()]), false);
    assert_eq!(first.len(), 3);
    let second = grep.deliver("b", SearchOutcome::Failure(ErrorKind::FileNotFound), false);
    assert_eq!(second.len(), 2);
    let surface = grep.surface().as_ref().unwrap();
    assert_eq!(surface.rendered_lines().len(), 5);
    assert_eq!(surface.rendered_lines()[0], first[0]);
    assert_eq!(surface.rendered_lines()[3], second[0]);
}

#[test]
fn get_or_create_is_idempotent() {
    let mut grep = Grep::new(Theme::plain());
    assert!(grep.surface().is_none());
    grep.get_or_create();
    assert!(grep.surface().is_some());
    let _ = grep.deliver("a", SearchOutcome::Success(vec!["a".to_string()]), false);
    grep.get_or_create();
    let surface = grep.surface().as_ref().unwrap();
    assert_eq!(surface.rendered_lines().len(), 3);
}

#[test]
fn empty_success_summarizes_zero_lines() {
    let mut grep = Grep::new(Theme::plain());
    let rendered = grep.deliver("q", SearchOutcome::Success(Vec::new()), false);
    assert_eq!(
        rendered,
        vec![
            "[grep]\tSearch for q".to_string(),
            "[grep]\tSummary of search: 0 lines".to_string(),
        ]
    );
}
