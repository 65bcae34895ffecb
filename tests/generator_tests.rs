use dgossgen::config::PolicyConfig;
use dgossgen::extractor::extract_contract;
use dgossgen::generator::{
    command_to_name, deduplicate_resources, generate, render_goss, sanitize_command,
    sanitize_shell_arg, yaml_escape_key, GossResource,
};
use dgossgen::parser::parse_dockerfile_content;
use dgossgen::{Confidence, Profile};

#[test]
fn test_generate_basic() {
    let content = "\nFROM node:18\nWORKDIR /app\nCOPY . /app\nEXPOSE 3000\nCMD [\"node\", \"server.js\"]\n";
    let df = parse_dockerfile_content(content).unwrap();
    let contract = extract_contract(&df, None, &[]);
    let output = generate(&contract, Profile::Standard, &PolicyConfig::default(), None);
    assert!(!output.goss_yml.is_empty());
    assert!(output.goss_yml.contains("file:"));
    assert!(output.goss_yml.contains("/app"));
}

#[test]
fn test_generate_with_healthcheck() {
    let content = "\nFROM nginx\nEXPOSE 80\nHEALTHCHECK --interval=30s --timeout=3s CMD curl -f http://localhost/ || exit 1\n";
    let df = parse_dockerfile_content(content).unwrap();
    let contract = extract_contract(&df, None, &[]);
    let output = generate(&contract, Profile::Standard, &PolicyConfig::default(), None);
    assert!(output.goss_wait_yml.is_some());
    let wait = output.goss_wait_yml.unwrap();
    assert!(wait.contains("command:"));
}

#[test]
fn test_generate_no_wait_when_forced() {
    let content = "\nFROM nginx\nEXPOSE 80\n";
    let df = parse_dockerfile_content(content).unwrap();
    let contract = extract_contract(&df, None, &[]);
    let output = generate(&contract, Profile::Standard, &PolicyConfig::default(), Some(false));
    assert!(output.goss_wait_yml.is_none());
}

#[test]
fn test_command_to_name() {
    assert_eq!(command_to_name("nginx -v"), "nginx--v");
    assert_eq!(command_to_name("node --version"), "node---version");
}

#[test]
fn test_sanitize_shell_arg() {
    assert_eq!(sanitize_shell_arg("myuser"), "myuser");
    assert_eq!(sanitize_shell_arg("user name"), "'user name'");
}

#[test]
fn test_deduplicate_file_resources_prefers_mode_and_filetype() {
    let mut resources = vec![
        GossResource::File {
            path: "/docker-entrypoint.sh".to_string(),
            exists: true,
            filetype: None,
            mode: None,
            provenance: "COPY /docker-entrypoint.sh".to_string(),
            confidence: Confidence::Medium,
        },
        GossResource::File {
            path: "/docker-entrypoint.sh".to_string(),
            exists: true,
            filetype: Some("file".to_string()),
            mode: Some("0755".to_string()),
            provenance: "COPY /docker-entrypoint.sh (entrypoint script pattern)".to_string(),
            confidence: Confidence::High,
        },
    ];
    deduplicate_resources(&mut resources);
    assert_eq!(resources.len(), 1);
    assert!(matches!(
        &resources[0],
        GossResource::File { filetype: Some(ft), mode: Some(mode), confidence: Confidence::High, .. }
            if ft == "file" && mode == "0755"
    ));
}

#[test]
fn test_render_empty() {
    let output = render_goss(&[]);
    assert!(output.contains("command: {}"));
}

#[test]
fn test_render_file_resource() {
    let resources = vec![GossResource::File {
        path: "/app".to_string(),
        exists: true,
        filetype: Some("directory".to_string()),
        mode: None,
        provenance: "WORKDIR /app".to_string(),
        confidence: Confidence::High,
    }];
    let output = render_goss(&resources);
    assert!(output.contains("file:"));
    assert!(output.contains("/app:"));
    assert!(output.contains("exists: true"));
    assert!(output.contains("filetype: directory"));
}

#[test]
fn test_render_port_resource() {
    let resources = vec![GossResource::Port {
        address: "tcp:8080".to_string(),
        listening: true,
        provenance: "EXPOSE 8080".to_string(),
        confidence: Confidence::Medium,
    }];
    let output = render_goss(&resources);
    assert!(output.contains("port:"));
    assert!(output.contains("tcp:8080"));
    assert!(output.contains("listening: true"));
}

#[test]
fn test_yaml_escape_key() {
    assert_eq!(yaml_escape_key("simple"), "simple");
    assert_eq!(yaml_escape_key("tcp:8080"), "\"tcp:8080\"");
}

#[test]
fn test_stable_ordering() {
    let resources = vec![
        GossResource::Process {
            name: "nginx".to_string(),
            running: true,
            provenance: "CMD".to_string(),
            confidence: Confidence::Medium,
        },
        GossResource::File {
            path: "/app".to_string(),
            exists: true,
            filetype: None,
            mode: None,
            provenance: "COPY".to_string(),
            confidence: Confidence::Medium,
        },
        GossResource::Port {
            address: "tcp:80".to_string(),
            listening: true,
            provenance: "EXPOSE".to_string(),
            confidence: Confidence::Medium,
        },
    ];
    let output = render_goss(&resources);
    let file_pos = output.find("file:").unwrap();
    let port_pos = output.find("port:").unwrap();
    let process_pos = output.find("process:").unwrap();
    assert!(file_pos < port_pos);
    assert!(port_pos < process_pos);
}

#[test]
fn empty_document_is_exactly_one_line() {
    assert_eq!(render_goss(&[]), "command: {}\n");
}

#[test]
fn keys_are_sorted_within_a_section() {
    let mk = |p: &str| GossResource::File {
        path: p.to_string(),
        exists: true,
        filetype: None,
        mode: None,
        provenance: "x".to_string(),
        confidence: Confidence::Low,
    };
    let out = render_goss(&[mk("/b"), mk("/a"), mk("/c")]);
    let a = out.find("/a:").unwrap();
    let b = out.find("/b:").unwrap();
    let c = out.find("/c:").unwrap();
    assert!(a < b && b < c);
    assert!(out.starts_with("file:\n  # derived from x; confidence: low\n  /a:\n    exists: true\n"));
}

#[test]
fn sanitizers_and_quoting() {
    assert_eq!(sanitize_command("  ls\r\0 -la  "), "ls -la");
    assert_eq!(sanitize_shell_arg("it's"), "'it'\\''s'");
    assert_eq!(command_to_name("--a b--"), "a-b");
}

#[test]
fn command_with_output_rendering() {
    let r = vec![GossResource::CommandWithOutput {
        name: "id--u".to_string(),
        command: "id -u".to_string(),
        exit_status: 0,
        stdout: vec!["1001".to_string()],
        timeout: 10000,
        provenance: "USER 1001".to_string(),
        confidence: Confidence::High,
    }];
    let out = render_goss(&r);
    assert_eq!(
        out,
        "command:\n  # derived from USER 1001; confidence: high\n  id--u:\n    exec: \"id -u\"\n    exit-status: 0\n    stdout:\n      - \"1001\"\n    timeout: 10000\n"
    );
}

#[test]
fn minimal_wait_document() {
    let out = dgossgen::generator::render_goss_wait_minimal(8080, "tcp");
    assert_eq!(
        out,
        "# Minimal viable wait: port readiness check\n# derived from EXPOSE 8080; confidence: medium\nport:\n  tcp:8080:\n    listening: true\n"
    );
}

#[test]
fn identity_keys() {
    let g = GossResource::Http {
        url: "http://x".to_string(),
        status: 200,
        provenance: "p".to_string(),
        confidence: Confidence::High,
    };
    assert_eq!(g.identity_key(), "http:http://x");
}
