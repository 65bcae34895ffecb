use dgossgen::extractor::{extract_contract, AssertionKind};
use dgossgen::parser::parse_dockerfile_content;
use dgossgen::Confidence;

#[test]
fn test_extract_basic_contract() {
    let content = r#"
FROM node:18-alpine
WORKDIR /app
COPY package.json /app/
EXPOSE 3000
CMD ["node", "server.js"]
"#;
    let df = parse_dockerfile_content(content).unwrap();
    let contract = extract_contract(&df, None, &[]);
    assert_eq!(contract.base_image, "node:18-alpine");
    assert_eq!(contract.workdir, Some("/app".to_string()));
    assert_eq!(contract.exposed_ports.len(), 1);
    assert_eq!(contract.exposed_ports[0].port, 3000);
    assert!(!contract.assertions.is_empty());
}

#[test]
fn test_extract_with_healthcheck() {
    let content = r#"
FROM nginx:alpine
EXPOSE 80
HEALTHCHECK --interval=30s --timeout=3s CMD curl -f http://localhost/ || exit 1
"#;
    let df = parse_dockerfile_content(content).unwrap();
    let contract = extract_contract(&df, None, &[]);
    assert!(contract.healthcheck.is_some());
    let has_healthcheck_assertion = contract
        .assertions
        .iter()
        .any(|a| matches!(a.kind, AssertionKind::HealthcheckPasses { .. }));
    assert!(has_healthcheck_assertion);
}

#[test]
fn test_extract_multistage_target() {
    let content = r#"
FROM golang:1.21 AS builder
WORKDIR /src
COPY . .

FROM alpine:3.18
WORKDIR /app
COPY --from=builder /src/bin/app /app/app
EXPOSE 8080
ENTRYPOINT ["/app/app"]
"#;
    let df = parse_dockerfile_content(content).unwrap();
    let contract = extract_contract(&df, None, &[]);
    assert_eq!(contract.base_image, "alpine:3.18");
    assert_eq!(contract.workdir, Some("/app".to_string()));
}

#[test]
fn test_user_numeric() {
    let content = "\nFROM alpine\nUSER 1001\n";
    let df = parse_dockerfile_content(content).unwrap();
    let contract = extract_contract(&df, None, &[]);
    assert!(contract.assertions.iter().any(|a| matches!(
        &a.kind,
        AssertionKind::CommandOutput { command, expected_output, .. }
            if command == "id -u" && expected_output == &vec!["1001".to_string()]
    )));
}

#[test]
fn test_global_arg_resolves_base_image() {
    let content = "\nARG BASE_IMAGE=ubuntu:22.04\nFROM $BASE_IMAGE\n";
    let df = parse_dockerfile_content(content).unwrap();
    let contract = extract_contract(&df, None, &[]);
    assert_eq!(contract.base_image, "ubuntu:22.04");
}

#[test]
fn test_build_arg_overrides_global_arg_for_base_image() {
    let content = "\nARG BASE_IMAGE=ubuntu:22.04\nFROM ${BASE_IMAGE}\n";
    let df = parse_dockerfile_content(content).unwrap();
    let contract = extract_contract(
        &df,
        None,
        &[("BASE_IMAGE".to_string(), "alpine:3.20".to_string())],
    );
    assert_eq!(contract.base_image, "alpine:3.20");
}

#[test]
fn test_entrypoint_copy_generates_single_mode_aware_file_assertion() {
    let content = "\nFROM alpine\nCOPY docker-entrypoint.sh /docker-entrypoint.sh\n";
    let df = parse_dockerfile_content(content).unwrap();
    let contract = extract_contract(&df, None, &[]);
    let entrypoint_assertions: Vec<_> = contract
        .assertions
        .iter()
        .filter(|a| matches!(&a.kind, AssertionKind::FileExists { path, .. } if path == "/docker-entrypoint.sh"))
        .collect();
    assert_eq!(entrypoint_assertions.len(), 1);
    assert!(matches!(
        &entrypoint_assertions[0].kind,
        AssertionKind::FileExists { filetype: Some(ft), mode: Some(mode), .. } if ft == "file" && mode == "0755"
    ));
}

#[test]
fn workdir_relative_join_and_user_group() {
    let df = parse_dockerfile_content("FROM x\nWORKDIR /srv/\nWORKDIR app\nUSER web:staff\nCOPY a.txt conf/\n").unwrap();
    let c = extract_contract(&df, None, &[]);
    assert_eq!(c.workdir.as_deref(), Some("/srv/app"));
    assert!(c.assertions.iter().any(|a| matches!(&a.kind, AssertionKind::UserExists { username } if username == "web")));
    assert!(c.assertions.iter().any(|a| matches!(
        &a.kind,
        AssertionKind::FileExists { path, filetype: Some(ft), .. } if path == "/srv/app/conf/" && ft == "directory"
    )));
    assert_eq!(c.filesystem_paths, vec!["/srv/app/conf/".to_string()]);
}

#[test]
fn process_assertions_skip_shells_and_follow_entrypoint() {
    let df = parse_dockerfile_content("FROM x\nCMD /bin/sh -c run\nENTRYPOINT [\"/usr/bin/app\"]\nCMD [\"serve\"]\n").unwrap();
    let c = extract_contract(&df, None, &[]);
    let procs: Vec<(String, Confidence)> = c
        .assertions
        .iter()
        .filter_map(|a| match &a.kind {
            AssertionKind::ProcessRunning { name } => Some((name.clone(), a.confidence)),
            _ => None,
        })
        .collect();
    assert_eq!(procs, vec![("app".to_string(), Confidence::Medium)]);
}

#[test]
fn expose_assertion_provenance_and_confidence() {
    let df = parse_dockerfile_content("FROM x\nEXPOSE 53/UDP 80\n").unwrap();
    let c = extract_contract(&df, None, &[]);
    assert_eq!(c.assertions.len(), 2);
    assert_eq!(c.assertions[0].provenance, "EXPOSE 53/udp");
    assert_eq!(c.assertions[0].confidence, Confidence::Medium);
    assert_eq!(c.assertions[0].source_line, 2);
    assert_eq!(c.assertions[1].provenance, "EXPOSE 80/tcp");
}

#[test]
fn missing_target_gives_empty_contract() {
    let df = parse_dockerfile_content("FROM x AS a\nEXPOSE 1\n").unwrap();
    let c = extract_contract(&df, Some("nope"), &[]);
    assert!(c.assertions.is_empty());
    assert_eq!(c.base_image, "");
    let c2 = extract_contract(&df, Some("A"), &[]);
    assert_eq!(c2.exposed_ports.len(), 1);
}

#[test]
fn run_installs_components_and_service_checks() {
    let df = parse_dockerfile_content("FROM x\nRUN apt-get install -y nginx\nRUN apt-get install -y nginx redis\n").unwrap();
    let c = extract_contract(&df, None, &[]);
    let names: Vec<String> = c.installed_components.iter().map(|x| x.name.clone()).collect();
    assert_eq!(names, vec!["nginx".to_string(), "redis".to_string()]);
    assert!(c.assertions.iter().any(|a| matches!(&a.kind, AssertionKind::CommandExit { command, .. } if command == "redis-cli --version")));
    assert!(c.assertions.iter().all(|a| !a.provenance.is_empty()));
}
