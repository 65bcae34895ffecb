use dgossgen::config::PolicyConfig;
use dgossgen::extractor::{extract_contract, AssertionKind, ContractAssertion, PackageManager, RuntimeContract};
use dgossgen::generator::{generate, render_goss, GossResource};
use dgossgen::parser::{parse_dockerfile_content, PortSpec, VariableResolver};
use dgossgen::probe::{merge_evidence, ProbeEvidence};
use dgossgen::{Confidence, Profile};

fn main_doc(src: &str, profile: Profile) -> String {
    let df = parse_dockerfile_content(src).unwrap();
    let c = extract_contract(&df, None, &[]);
    generate(&c, profile, &PolicyConfig::default(), None).goss_yml
}

#[test]
fn scenario_nginx_baseline() {
    let src = "FROM nginx:alpine\nRUN apk add --no-cache nginx\nEXPOSE 80\nEXPOSE 443\nHEALTHCHECK --interval=30s --timeout=3s CMD curl -f http://localhost/ || exit 1\n";
    let df = parse_dockerfile_content(src).unwrap();
    let c = extract_contract(&df, None, &[]);
    let out = generate(&c, Profile::Standard, &PolicyConfig::default(), None);
    assert!(out.goss_yml.contains("tcp:80"));
    assert!(out.goss_yml.contains("tcp:443"));
    assert!(out.goss_yml.contains("/etc/nginx/nginx.conf"));
    assert!(out.goss_yml.contains("nginx--v"));
    let wait = out.goss_wait_yml.unwrap();
    assert!(wait.contains("healthcheck:"));
    assert!(wait.contains("exec: \"curl -f http://localhost/ || exit 1\""));
}

#[test]
fn scenario_numeric_user() {
    let doc = main_doc("FROM alpine\nUSER 1001\n", Profile::Standard);
    assert!(doc.contains("  id--u:\n    exec: \"id -u\"\n    exit-status: 0\n    stdout:\n      - \"1001\"\n"));
}

#[test]
fn scenario_global_arg_base_image() {
    let df = parse_dockerfile_content("ARG BASE_IMAGE=ubuntu:22.04\nFROM $BASE_IMAGE\n").unwrap();
    assert_eq!(extract_contract(&df, None, &[]).base_image, "ubuntu:22.04");
    let c = extract_contract(&df, None, &[("BASE_IMAGE".to_string(), "alpine:3.20".to_string())]);
    assert_eq!(c.base_image, "alpine:3.20");
}

#[test]
fn scenario_entrypoint_script_copy() {
    let df = parse_dockerfile_content("FROM alpine\nCOPY docker-entrypoint.sh /docker-entrypoint.sh\n").unwrap();
    let c = extract_contract(&df, None, &[]);
    let mut policy = PolicyConfig::default();
    policy.assert_file_modes = true;
    let doc = generate(&c, Profile::Strict, &policy, None).goss_yml;
    assert_eq!(doc.matches("/docker-entrypoint.sh:").count(), 1);
    assert!(doc.contains("    filetype: file\n    mode: \"0755\"\n"));
}

#[test]
fn scenario_pip_flag_filtering() {
    let df = parse_dockerfile_content(
        "FROM python:3.11-slim\nRUN pip install --no-cache-dir -r requirements.txt flask==2.0\n",
    )
    .unwrap();
    let c = extract_contract(&df, None, &[]);
    let pkgs: Vec<(String, PackageManager)> = c
        .assertions
        .iter()
        .filter_map(|a| match &a.kind {
            AssertionKind::PackageInstalled { package, manager, .. } => Some((package.clone(), manager.clone())),
            _ => None,
        })
        .collect();
    assert_eq!(pkgs, vec![("flask".to_string(), PackageManager::Pip)]);
}

#[test]
fn scenario_probe_evidence_raises_confidence() {
    let mut c = RuntimeContract {
        exposed_ports: vec![PortSpec { port: 8080, protocol: "tcp".to_string() }],
        assertions: vec![ContractAssertion::new(
            AssertionKind::PortListening { protocol: "tcp".to_string(), port: 8080 },
            "EXPOSE 8080/tcp",
            2,
            Confidence::Medium,
        )],
        ..Default::default()
    };
    let ev = ProbeEvidence { listening_ports: vec![(8080, "tcp".to_string())], ..Default::default() };
    merge_evidence(&mut c, &ev);
    assert_eq!(c.assertions.len(), 1);
    assert_eq!(c.assertions[0].confidence, Confidence::High);
}

#[test]
fn extracted_assertions_have_provenance_and_ports_are_asserted() {
    let df = parse_dockerfile_content(
        "FROM node\nWORKDIR app\nCOPY . .\nEXPOSE 3000 53/udp\nRUN npm install express && useradd -m node2\nCMD node server.js\n",
    )
    .unwrap();
    let c = extract_contract(&df, None, &[]);
    assert!(c.assertions.iter().all(|a| !a.provenance.is_empty()));
    for p in &c.exposed_ports {
        assert!(c.assertions.iter().any(|a| matches!(
            &a.kind,
            AssertionKind::PortListening { protocol, port } if *port == p.port && protocol == &p.protocol
        )));
    }
}

#[test]
fn generation_is_idempotent() {
    let src = "FROM nginx\nEXPOSE 80\nRUN apt-get install -y nginx curl\nHEALTHCHECK CMD curl -f localhost\n";
    let df = parse_dockerfile_content(src).unwrap();
    let c = extract_contract(&df, None, &[]);
    let a = generate(&c, Profile::Strict, &PolicyConfig::default(), None);
    let b = generate(&c, Profile::Strict, &PolicyConfig::default(), None);
    assert_eq!(a.goss_yml, b.goss_yml);
    assert_eq!(a.goss_wait_yml, b.goss_wait_yml);
    assert_eq!(a.warnings, b.warnings);
}

#[test]
fn stricter_profiles_emit_at_least_as_many_lines() {
    let src = "FROM ubuntu\nWORKDIR /srv\nCOPY --chmod=600 a /srv/a\nEXPOSE 8080\nRUN apt-get install -y nginx git\nCMD nginx -g 'daemon off;'\n";
    let strict = main_doc(src, Profile::Strict).lines().count();
    let standard = main_doc(src, Profile::Standard).lines().count();
    let minimal = main_doc(src, Profile::Minimal).lines().count();
    assert!(strict >= standard && standard >= minimal);
    assert!(strict > minimal);
}

#[test]
fn merge_never_lowers_confidence() {
    let mut c = RuntimeContract {
        assertions: vec![
            ContractAssertion::new(AssertionKind::ProcessRunning { name: "app".to_string() }, "CMD app", 1, Confidence::High),
            ContractAssertion::new(AssertionKind::PortListening { protocol: "tcp".to_string(), port: 1 }, "EXPOSE 1/tcp", 2, Confidence::Low),
        ],
        ..Default::default()
    };
    let ev = ProbeEvidence { running_processes: vec!["other".to_string()], ..Default::default() };
    merge_evidence(&mut c, &ev);
    assert_eq!(c.assertions[0].confidence, Confidence::High);
    assert_eq!(c.assertions[1].confidence, Confidence::Low);
}

#[test]
fn emitted_keys_are_unique() {
    let doc = main_doc(
        "FROM x\nCOPY a /app/\nCOPY b /app/\nRUN apt-get install -y nginx\nRUN apt-get install -y nginx\n",
        Profile::Strict,
    );
    let keys: Vec<&str> = doc.lines().filter(|l| l.starts_with("  ") && !l.starts_with("   ") && !l.starts_with("  #")).collect();
    let mut sorted = keys.clone();
    sorted.sort();
    sorted.dedup();
    assert_eq!(sorted.len(), keys.len());
}

#[test]
fn unknown_references_stay_verbatim_and_unicode_is_kept() {
    let r = VariableResolver::new();
    assert_eq!(r.resolve("${NOPE}/$NOPE"), "${NOPE}/$NOPE");
    assert_eq!(r.resolve("日本語 ☃"), "日本語 ☃");
}

#[test]
fn low_value_packages_never_asserted() {
    let df = parse_dockerfile_content("FROM x\nRUN apt-get install -y lsb-release dirmngr vim\nRUN apk add gnupg2\n").unwrap();
    let c = extract_contract(&df, None, &[]);
    let pkgs: Vec<String> = c
        .assertions
        .iter()
        .filter_map(|a| match &a.kind {
            AssertionKind::PackageInstalled { package, .. } => Some(package.clone()),
            _ => None,
        })
        .collect();
    assert_eq!(pkgs, vec!["vim".to_string()]);
}

#[test]
fn sections_follow_the_fixed_order() {
    let r = vec![
        GossResource::Http { url: "http://h".to_string(), status: 200, provenance: "p".to_string(), confidence: Confidence::High },
        GossResource::Command { name: "c".to_string(), command: "c".to_string(), exit_status: 0, timeout: 1, provenance: "p".to_string(), confidence: Confidence::High },
        GossResource::Process { name: "n".to_string(), running: true, provenance: "p".to_string(), confidence: Confidence::High },
        GossResource::Port { address: "tcp:1".to_string(), listening: true, provenance: "p".to_string(), confidence: Confidence::High },
        GossResource::File { path: "/f".to_string(), exists: true, filetype: None, mode: None, provenance: "p".to_string(), confidence: Confidence::High },
    ];
    let doc = render_goss(&r);
    let f = doc.find("file:").unwrap();
    let p = doc.find("port:").unwrap();
    let pr = doc.find("process:").unwrap();
    let c = doc.find("command:").unwrap();
    let h = doc.find("http:").unwrap();
    assert!(f < p && p < pr && pr < c && c < h);
}

#[test]
fn warnings_name_dropped_assertions() {
    let df = parse_dockerfile_content("FROM alpine\nEXPOSE 8080\nRUN apk add --no-cache curl\n").unwrap();
    let c = extract_contract(&df, None, &[]);
    let out = generate(&c, Profile::Minimal, &PolicyConfig::default(), None);
    assert!(out.warnings.contains(&"Skipped assertion (confidence too low): RUN apk add curl".to_string()));
    assert!(out.warnings.contains(&"Skipped wait assertion (confidence too low): EXPOSE 8080/tcp".to_string()));
    assert_eq!(out.goss_wait_yml.as_deref(), Some("# Minimal viable wait: port readiness check\n# derived from EXPOSE 8080; confidence: medium\nport:\n  tcp:8080:\n    listening: true\n"));
}

#[test]
fn policy_off_suppresses_ports_and_processes() {
    let df = parse_dockerfile_content("FROM x\nEXPOSE 80\nCMD [\"srv\"]\n").unwrap();
    let c = extract_contract(&df, None, &[]);
    let mut policy = PolicyConfig::default();
    policy.assert_ports = dgossgen::config::AssertionPolicy::Off;
    policy.assert_process = dgossgen::config::AssertionPolicy::Off;
    let out = generate(&c, Profile::Strict, &policy, Some(false));
    assert_eq!(out.goss_yml, "command: {}\n");
}

#[test]
fn nginx_recipe_without_install_keeps_ports_and_healthcheck() {
    let src = "FROM nginx:alpine\nEXPOSE 80\nEXPOSE 443\nHEALTHCHECK --interval=30s --timeout=3s CMD curl -f http://localhost/ || exit 1\n";
    let df = parse_dockerfile_content(src).unwrap();
    let c = extract_contract(&df, None, &[]);
    let out = generate(&c, Profile::Standard, &PolicyConfig::default(), None);
    assert!(out.goss_yml.contains("port:\n"));
    assert!(out.goss_yml.contains("  tcp:80:\n"));
    assert!(out.goss_yml.contains("  tcp:443:\n"));
    let wait = out.goss_wait_yml.unwrap();
    assert!(wait.contains("  healthcheck:\n    exec: \"curl -f http://localhost/ || exit 1\"\n"));
}
