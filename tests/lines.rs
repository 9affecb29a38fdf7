use stream_fmt::level::{Severity, StandardOutput};
use stream_fmt::render::{format_line, join_span_names, level_label, module_or_default};
use stream_fmt::visitor::{is_message_field, FmtEventVisitor};
use stream_fmt::FmtLayer;

fn names(list: &[&str]) -> Vec<String> {
    list.iter().map(|s| s.to_string()).collect()
}

#[test]
fn info_line_to_stdout() {
    let line = format_line(1, 234_567_000, Severity::Info, &Vec::new(), Some("app::server"), "\"started\"");
    assert_eq!(line, "[1.234567 INFO]()(app::server): \"started\"\n");
    assert_eq!(StandardOutput::new(&Severity::Info), StandardOutput::Stdout);
}

#[test]
fn error_line_to_stderr() {
    let spans = names(&["request", "handler"]);
    let line = format_line(0, 12_000, Severity::Error, &spans, None, "\"boom\"");
    assert_eq!(line, "[0.000012 ERROR](request | handler)(no module): \"boom\"\n");
    assert_eq!(StandardOutput::new(&Severity::Error), StandardOutput::Stderr);
}

#[test]
fn debug_line_without_message() {
    let mut visitor = FmtEventVisitor::new();
    visitor.record_debug("count", format!("{:?}", 3));
    visitor.record_debug("user", format!("{:?}", "ann"));
    assert_eq!(visitor.message(), "");
    let spans = names(&["outer"]);
    let line = format_line(2, 500_000_000, Severity::Debug, &spans, Some("a::b"), visitor.message());
    assert_eq!(line, "[2.500000 DEBUG](outer)(a::b): \n");
}

#[test]
fn message_field_is_debug_rendering() {
    let mut visitor = FmtEventVisitor::default();
    visitor.record_debug("before", format!("{:?}", 1));
    visitor.record_debug("message", format!("{:?}", "hello \"world\""));
    visitor.record_debug("after", format!("{:?}", true));
    assert_eq!(visitor.message(), "\"hello \\\"world\\\"\"");
}

#[test]
fn message_field_name_is_exact() {
    assert!(is_message_field("message"));
    assert!(!is_message_field("Message"));
    assert!(!is_message_field("messages"));
    assert!(!is_message_field("messag"));
    assert!(!is_message_field(""));
    let mut visitor = FmtEventVisitor::new();
    visitor.record_debug("MESSAGE", "x".to_string());
    assert_eq!(visitor.message(), "");
}

#[test]
fn channel_for_every_severity() {
    assert_eq!(StandardOutput::new(&Severity::Error), StandardOutput::Stderr);
    assert_eq!(StandardOutput::new(&Severity::Warn), StandardOutput::Stderr);
    assert_eq!(StandardOutput::new(&Severity::Info), StandardOutput::Stdout);
    assert_eq!(StandardOutput::new(&Severity::Debug), StandardOutput::Stdout);
    assert_eq!(StandardOutput::new(&Severity::Trace), StandardOutput::Stdout);
}

#[test]
fn labels_for_every_severity() {
    assert_eq!(level_label(Severity::Error), "ERROR");
    assert_eq!(level_label(Severity::Warn), "WARN");
    assert_eq!(level_label(Severity::Info), "INFO");
    assert_eq!(level_label(Severity::Debug), "DEBUG");
    assert_eq!(level_label(Severity::Trace), "TRACE");
}

#[test]
fn span_chain_separators() {
    assert_eq!(join_span_names(&Vec::new()), "");
    assert_eq!(join_span_names(&names(&["a"])), "a");
    let chain = join_span_names(&names(&["a", "b", "c", "d"]));
    assert_eq!(chain, "a | b | c | d");
    assert_eq!(chain.matches(" | ").count(), 3);
}

#[test]
fn missing_module_shows_no_module() {
    assert_eq!(module_or_default(None), "no module");
    assert_eq!(module_or_default(Some("x::y")), "x::y");
    let line = format_line(0, 0, Severity::Warn, &Vec::new(), None, "");
    assert_eq!(line, "[0.000000 WARN]()(no module): \n");
}

#[test]
fn elapsed_rounds_to_microseconds() {
    let at = |secs: u64, nanos: u32| format_line(secs, nanos, Severity::Trace, &Vec::new(), Some("m"), "");
    assert_eq!(at(0, 499), "[0.000000 TRACE]()(m): \n");
    assert_eq!(at(0, 500), "[0.000001 TRACE]()(m): \n");
    assert_eq!(at(3, 999_999_499), "[3.999999 TRACE]()(m): \n");
    assert_eq!(at(3, 999_999_500), "[4.000000 TRACE]()(m): \n");
    assert_eq!(at(10, 1_000), "[10.000001 TRACE]()(m): \n");
    assert_eq!(
        at(u64::MAX, 999_999_999),
        "[18446744073709551616.000000 TRACE]()(m): \n"
    );
}

#[test]
fn elapsed_never_decreases() {
    let layer = FmtLayer::new();
    let first = layer.elapsed();
    let second = layer.elapsed();
    assert!(first.1 < 1_000_000_000 && second.1 < 1_000_000_000);
    assert!(first <= second);
}

#[test]
fn format_event_stamps_and_routes() {
    let layer = FmtLayer::new();
    let mut visitor = FmtEventVisitor::new();
    visitor.record_debug("message", format!("{:?}", "ready"));
    let spans = names(&["main"]);
    let (channel, line) = layer.format_event(Severity::Warn, Some("svc"), &spans, &visitor);
    assert_eq!(channel, StandardOutput::Stderr);
    assert!(line.starts_with('['));
    assert!(line.ends_with(" WARN](main)(svc): \"ready\"\n"));
    let stamp = &line[1..line.find(' ').unwrap()];
    let (whole, frac) = stamp.split_once('.').unwrap();
    assert!(!whole.is_empty() && whole.chars().all(|c| c.is_ascii_digit()));
    assert_eq!(frac.len(), 6);
    assert!(frac.chars().all(|c| c.is_ascii_digit()));
}
