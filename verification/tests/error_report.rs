use prima_tracing::macros::error_report::{error_sources, Report, SourceInfo};

fn level(display: &str, debug: &str) -> SourceInfo {
    SourceInfo { display: display.to_string(), debug: debug.to_string() }
}

#[test]
fn it_prints_the_source_chain() {
    let report = Report::new(vec![
        level("top level", "TopLevelError(WrapperError(TestError))"),
        level("wrapper", "WrapperError(TestError)"),
        level("test error", "TestError"),
    ]);

    assert_eq!(report.render(), "top level: wrapper: test error");
    assert_eq!(
        report.render_debug(),
        "0: TopLevelError(WrapperError(TestError))\n1: WrapperError(TestError)\n2: TestError"
    );
}

#[test]
fn a_single_level_renders_without_separators() {
    let report = Report::new(vec![level("alone", "Alone")]);
    assert_eq!(report.render(), "alone");
    assert_eq!(report.render_debug(), "0: Alone");
}

#[test]
fn sources_walk_the_chain_outermost_first() {
    let report = Report::new(vec![
        level("top", "Top"),
        level("mid", "Mid"),
        level("root", "Root"),
    ]);
    let mut sources = report.sources();
    assert_eq!(sources.next(), Some("top".to_string()));
    assert_eq!(sources.next(), Some("mid".to_string()));
    assert_eq!(sources.next(), Some("root".to_string()));
    assert_eq!(sources.next(), None);
    assert_eq!(sources.next(), None);
}

#[test]
fn error_sources_start_at_the_given_texts() {
    let mut sources = error_sources(vec!["one".to_string(), "two".to_string()]);
    assert_eq!(sources.next(), Some("one".to_string()));
    assert_eq!(sources.next(), Some("two".to_string()));
    assert_eq!(sources.next(), None);
}
