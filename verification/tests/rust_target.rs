use cargo_monorepo::rust::{is_current_target_runtime, parse_target_runtime, unquote};

#[test]
fn test_unquote() {
    assert_eq!(unquote("\"foo\"").unwrap(), "foo");
    assert_eq!(unquote("\"f o o\"").unwrap(), "f o o");

    unquote("\"foo").unwrap_err();
    unquote("foo\"").unwrap_err();
    unquote("foo").unwrap_err();
}

#[test]
fn unquote_edge_cases() {
    assert_eq!(unquote("\"\"").unwrap(), "");
    assert_eq!(unquote("\"é\"").unwrap(), "é");
    unquote("").unwrap_err();
    let error = unquote("\"").unwrap_err();
    assert_eq!(error.description(), "failed to unquote string");
    assert_eq!(error.output(), Some("s: \""));
    assert_eq!(
        error.explanation(),
        Some("The string was supposed to be quoted but it wasn't.")
    );
    assert!(error.source().is_none());
}

const CFG: &str = "debug_assertions\npanic=\"unwind\"\ntarget_arch=\"x86_64\"\r\ntarget_endian=\"little\"\ntarget_env=\"gnu\"\ntarget_family=\"unix\"\ntarget_os=\"linux\"\ntarget_vendor=\"unknown\"\nunix\n";

#[test]
fn target_runtime_is_read_from_cfg() {
    assert_eq!(
        parse_target_runtime(CFG).unwrap(),
        "x86_64-unknown-linux-gnu"
    );
}

#[test]
fn target_runtime_last_setting_wins() {
    let cfg = "target_arch=\"a\"\ntarget_vendor=\"v\"\ntarget_os=\"o\"\ntarget_env=\"\"\ntarget_arch=\"b\"";
    assert_eq!(parse_target_runtime(cfg).unwrap(), "b-v-o-");
}

#[test]
fn target_runtime_needs_all_four_parts() {
    let error = parse_target_runtime("target_arch=\"x86_64\"\ntarget_os=\"linux\"\n").unwrap_err();
    assert_eq!(
        error.description(),
        "failed to determine current Rust runtime target"
    );
    assert!(error.source().is_none());
    assert_eq!(
        parse_target_runtime("").unwrap_err().description(),
        "failed to determine current Rust runtime target"
    );
}

#[test]
fn target_runtime_reports_an_unquoted_value() {
    let error = parse_target_runtime("target_arch=\"x86_64\"\ntarget_os=linux\n").unwrap_err();
    assert_eq!(error.description(), "failed to unquote target_os");
    let source = error.source().unwrap();
    assert_eq!(source.description(), "failed to unquote string");
    assert_eq!(source.output(), Some("s: linux"));
    assert_eq!(
        error.to_string(),
        "failed to unquote target_os: failed to unquote string\n\nThe string was supposed to be quoted but it wasn't."
    );
}

#[test]
fn current_target_runtime_is_compared() {
    assert!(is_current_target_runtime("x86_64-unknown-linux-gnu", CFG).unwrap());
    assert!(!is_current_target_runtime("x86_64-unknown-linux-musl", CFG).unwrap());
    assert!(is_current_target_runtime("anything", "").is_err());
}
