use dgossgen::parser::parse_dockerfile_content;
use dgossgen::parser::VariableResolver;

fn with(name: &str, value: &str) -> VariableResolver {
    let mut r = VariableResolver::new();
    r.set(&name.to_string(), value.to_string());
    r
}

#[test]
fn test_resolve_simple_var() {
    let resolver = with("PORT", "8080");
    assert_eq!(resolver.resolve("$PORT"), "8080");
    assert_eq!(resolver.resolve("${PORT}"), "8080");
}

#[test]
fn test_resolve_default() {
    let resolver = VariableResolver::new();
    assert_eq!(resolver.resolve("${PORT:-3000}"), "3000");
}

#[test]
fn test_resolve_unknown_kept() {
    let resolver = VariableResolver::new();
    assert_eq!(resolver.resolve("${UNKNOWN}"), "${UNKNOWN}");
    assert!(resolver.has_unresolved("${UNKNOWN}"));
}

#[test]
fn test_resolve_mixed() {
    let resolver = with("APP", "myapp");
    assert_eq!(resolver.resolve("/opt/$APP/config"), "/opt/myapp/config");
}

#[test]
fn test_resolve_unicode_input_without_panicking() {
    let resolver = with("APP", "servico");
    assert_eq!(resolver.resolve("π/$APP/ß"), "π/servico/ß");
}

#[test]
fn test_has_unresolved_ignores_literal_dollar_usage() {
    let resolver = VariableResolver::new();
    assert!(!resolver.has_unresolved("Price is $5.00"));
    assert!(!resolver.has_unresolved("echo $$"));
    assert!(!resolver.has_unresolved("status is $?"));
}

#[test]
fn resolve_dash_default_and_unterminated_and_plain_dollar() {
    let resolver = with("A", "1");
    assert_eq!(resolver.resolve("${B-two}"), "two");
    assert_eq!(resolver.resolve("x${A"), "x${A");
    assert_eq!(resolver.resolve("$A$"), "1$");
    assert_eq!(resolver.resolve("$$A"), "$1");
    assert_eq!(resolver.resolve("${A:-z}"), "1");
}

#[test]
fn unknown_reference_is_kept_verbatim() {
    let resolver = with("KNOWN", "v");
    assert_eq!(resolver.resolve("$MISSING"), "$MISSING");
    assert_eq!(resolver.resolve("${MISSING}"), "${MISSING}");
}

#[test]
fn multibyte_text_is_kept_whole() {
    let resolver = VariableResolver::new();
    assert_eq!(resolver.resolve("héllo wörld ☃ ${日本}"), "héllo wörld ☃ ${日本}");
}

#[test]
fn layered_loading_order() {
    let df = parse_dockerfile_content("ARG G=global\nFROM x\nARG G=stage\nARG S=s\nENV E=$S-$G\n").unwrap();
    let mut r = VariableResolver::new();
    r.load_build_args(&[("G".to_string(), "cli".to_string())]);
    r.load_global_args(&df.global_args);
    r.process_stage(&df.stages[0]);
    assert_eq!(r.resolve("$G $S $E"), "cli s s-cli");
    assert_eq!(r.variables().len(), 3);
}
