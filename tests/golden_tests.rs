use dgossgen::config::PolicyConfig;
use dgossgen::extractor;
use dgossgen::parser;

#[test]
fn test_secret_keys_not_in_output() {
    let content = "\nFROM alpine\nENV DB_PASSWORD=supersecret\nENV API_TOKEN=abc123\nENV APP_PORT=3000\nEXPOSE 3000\n";
    let df = parser::parse_dockerfile_content(content).unwrap();
    let _contract = extractor::extract_contract(&df, None, &[]);
    let policy = PolicyConfig::default();
    assert!(policy.is_secret_key("DB_PASSWORD"));
    assert!(policy.is_secret_key("API_TOKEN"));
    assert!(!policy.is_secret_key("APP_PORT"));
}
