use weegrep::buffer::{GrepBuffer, Theme};
use weegrep::text::dec_string;

fn marker_theme() -> Theme {
    Theme {
        date_color: String::from("<D>"),
        nick_color: String::from("<N>"),
        delimiter_color: String::from("<[>"),
        tag_color: String::from("<T>"),
        reset: String::from("<R>"),
    }
}

#[test]
fn split_line_no_tabs() {
    let (date, nick, msg) = GrepBuffer::split_line("just a message");
    assert_eq!(date, "");
    assert_eq!(nick, "");
    assert_eq!(msg, "just a message");
}

#[test]
fn split_line_one_tab() {
    let (date, nick, msg) = GrepBuffer::split_line("left\tright");
    assert_eq!(date, "");
    assert_eq!(nick, "");
    assert_eq!(msg, "left\tright");
}

#[test]
fn split_line_below_two_tabs_keeps_the_line_unaltered() {
    let (date, nick, msg) = GrepBuffer::split_line("  padded \tstill one tab  ");
    assert_eq!(date, "");
    assert_eq!(nick, "");
    assert_eq!(msg, "  padded \tstill one tab  ");
}

#[test]
fn split_line_trims_unicode_blanks() {
    let (date, nick, msg) = GrepBuffer::split_line("\u{00A0}d\u{2003}\tn\u{000B}\t\u{2028}m\u{3000}");
    assert_eq!(date, "d");
    assert_eq!(nick, "n");
    assert_eq!(msg, "m");
}

#[test]
fn split_line_two_tabs() {
    let (date, nick, msg) = GrepBuffer::split_line("2024-01-01\tAlice\thello world");
    assert_eq!(date, "2024-01-01");
    assert_eq!(nick, "Alice");
    assert_eq!(msg, "hello world");
}

#[test]
fn split_line_extra_tabs_in_message() {
    let (date, nick, msg) = GrepBuffer::split_line("d\tn\tm1\tm2");
    assert_eq!(date, "d");
    assert_eq!(nick, "n");
    assert_eq!(msg, "m1    m2");
}

#[test]
fn split_line_trims_fields() {
    let (date, nick, msg) = GrepBuffer::split_line(" d \t n \t m \r\n");
    assert_eq!(date, "d");
    assert_eq!(nick, "n");
    assert_eq!(msg, "m");
}

#[test]
fn format_line_with_metadata() {
    let buffer = GrepBuffer::new(&marker_theme());
    let line = buffer.format_line("2024-01-01\tAlice\thello world");
    assert_eq!(line, "<D>2024-01-01<R> <N>Alice<R> hello world");
}

#[test]
fn format_line_without_metadata() {
    let buffer = GrepBuffer::new(&marker_theme());
    let line = buffer.format_line("bare message");
    assert_eq!(line, "<D><R>  bare message");
}

#[test]
fn colorize_nick_plain() {
    let buffer = GrepBuffer::new(&marker_theme());
    assert_eq!(buffer.colorize_nick("Alice"), "<N>Alice<R>");
}

#[test]
fn colorize_nick_role_prefix() {
    let buffer = GrepBuffer::new(&marker_theme());
    assert_eq!(buffer.colorize_nick("@Alice"), "@<N>Alice<R>");
    assert_eq!(buffer.colorize_nick("+Bob"), "+<N>Bob<R>");
    assert_eq!(buffer.colorize_nick("%Carol"), "%<N>Carol<R>");
    assert_eq!(buffer.colorize_nick("&Dan"), "&<N>Dan<R>");
    assert_eq!(buffer.colorize_nick("!Eve"), "!<N>Eve<R>");
}

#[test]
fn colorize_nick_empty() {
    let buffer = GrepBuffer::new(&marker_theme());
    assert_eq!(buffer.colorize_nick(""), "");
}

#[test]
fn print_status_shape() {
    let mut buffer = GrepBuffer::new(&marker_theme());
    let line = buffer.print_status("hello");
    assert_eq!(line, "<[>[<T>grep<[>]<R>\thello");
    assert_eq!(buffer.rendered_lines().len(), 1);
    assert_eq!(buffer.rendered_lines()[0], line);
}

#[test]
fn print_appends_in_order() {
    let mut buffer = GrepBuffer::new(&Theme::plain());
    let first = buffer.print("a\tb\tc");
    let second = buffer.print("x");
    assert_eq!(buffer.rendered_lines().len(), 2);
    assert_eq!(buffer.rendered_lines()[0], first);
    assert_eq!(buffer.rendered_lines()[1], second);
    assert_eq!(first, "a b c");
    assert_eq!(second, "  x");
}

#[test]
fn switch_to_records_focus_request() {
    let mut buffer = GrepBuffer::new(&Theme::plain());
    assert!(!buffer.was_switched());
    buffer.switch_to();
    assert!(buffer.was_switched());
}

#[test]
fn surface_identity_is_fixed() {
    assert_eq!(weegrep::buffer::surface_name(), "ripgrep");
    assert_eq!(weegrep::buffer::surface_title(), "ripgrep output buffer");
}

#[test]
fn decimal_rendering() {
    assert_eq!(dec_string(0), "0");
    assert_eq!(dec_string(7), "7");
    assert_eq!(dec_string(42), "42");
    assert_eq!(dec_string(1000), "1000");
    assert_eq!(dec_string(90210), "90210");
}
