use dgossgen::explain::{assertion_description, assertion_type_name};
use dgossgen::extractor::{AssertionKind, PackageManager};

#[test]
fn explain_names_and_descriptions() {
    let k = AssertionKind::FileExists {
        path: "/app".to_string(),
        filetype: Some("directory".to_string()),
        mode: None,
    };
    assert_eq!(assertion_type_name(&k), "file");
    assert_eq!(assertion_description(&k), "File '/app' exists (type: directory)");
    let o = AssertionKind::CommandOutput {
        command: "id -u".to_string(),
        exit_status: 0,
        expected_output: vec!["1001".to_string()],
    };
    assert_eq!(assertion_type_name(&o), "command (with output)");
    assert_eq!(assertion_description(&o), "Command 'id -u' exits with status 0 and outputs [\"1001\"]");
    let p = AssertionKind::PackageInstalled {
        package: "git".to_string(),
        manager: PackageManager::Apt,
        version_cmd: None,
    };
    assert_eq!(assertion_description(&p), "Package 'git' installed via Apt");
    let port = AssertionKind::PortListening { protocol: "tcp".to_string(), port: 80 };
    assert_eq!(assertion_description(&port), "Port 80/tcp is listening");
}
