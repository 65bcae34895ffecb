use dgossgen::extractor::{AssertionKind, ContractAssertion, RuntimeContract};
use dgossgen::parser::PortSpec;
use dgossgen::probe::{
    env_vars_of, listening_ports, merge_evidence, parse_ss_port, process_names, validate_run_args,
    ContainerRuntime, ProbeCleanup, ProbeEvidence,
};
use dgossgen::Confidence;

#[test]
fn test_parse_ss_port() {
    assert_eq!(parse_ss_port("LISTEN 0 128 *:8080 *:*"), Some(8080));
    assert_eq!(parse_ss_port("LISTEN 0 128 0.0.0.0:3000 *:*"), Some(3000));
}

#[test]
fn test_runtime_from_str() {
    assert_eq!("docker".parse::<ContainerRuntime>().unwrap(), ContainerRuntime::Docker);
    assert_eq!("podman".parse::<ContainerRuntime>().unwrap(), ContainerRuntime::Podman);
    assert!("invalid".parse::<ContainerRuntime>().is_err());
}

#[test]
fn test_merge_evidence_raises_confidence() {
    let mut contract = RuntimeContract {
        exposed_ports: vec![PortSpec { port: 8080, protocol: "tcp".to_string() }],
        assertions: vec![ContractAssertion::new(
            AssertionKind::PortListening { protocol: "tcp".to_string(), port: 8080 },
            "EXPOSE 8080",
            5,
            Confidence::Medium,
        )],
        ..Default::default()
    };
    let evidence = ProbeEvidence {
        listening_ports: vec![(8080, "tcp".to_string())],
        ..Default::default()
    };
    merge_evidence(&mut contract, &evidence);
    assert_eq!(contract.assertions[0].confidence, Confidence::High);
}

#[test]
fn test_validate_run_args_accepts_allowlisted_flags() {
    let args = vec![
        "--read-only".to_string(),
        "--init".to_string(),
        "--env=APP_ENV=prod".to_string(),
        "--cpus=1.5".to_string(),
        "--memory=256m".to_string(),
        "--security-opt=no-new-privileges".to_string(),
        "--ipc=private".to_string(),
    ];
    assert!(validate_run_args(&args, false).is_ok());
}

#[test]
fn test_validate_run_args_rejects_dangerous_flags_in_safe_mode() {
    let args = vec!["--privileged".to_string(), "--network=host".to_string(), "-v=/:/host".to_string()];
    for arg in args {
        let err = validate_run_args(&[arg], false).unwrap_err().to_string();
        assert!(err.contains("unsafe-run-arg"));
    }
}

#[test]
fn test_validate_run_args_unsafe_mode_allows_anything() {
    let args = vec!["--privileged".to_string(), "--network=host".to_string(), "--volume=/tmp:/tmp".to_string()];
    assert!(validate_run_args(&args, true).is_ok());
}

#[test]
fn validate_messages() {
    assert_eq!(
        validate_run_args(&["--env=1 x".to_string()], false).unwrap_err(),
        "invalid --run-arg '--env=1 x': only single-token flags are accepted in safe mode; use --unsafe-run-arg to bypass"
    );
    assert!(validate_run_args(&["--env=NOVALUE".to_string()], false).unwrap_err().contains("KEY=VALUE"));
    assert!(validate_run_args(&["--env-file=/etc/x".to_string()], false).unwrap_err().contains("env-file"));
    assert!(validate_run_args(&["--security-opt=seccomp=x".to_string()], false).unwrap_err().contains("no-new-privileges"));
    assert!(validate_run_args(&["--env-file=app.env".to_string()], false).is_ok());
}

#[test]
fn merge_appends_discovered_ports_and_raises_processes() {
    let mut contract = RuntimeContract {
        assertions: vec![ContractAssertion::new(
            AssertionKind::ProcessRunning { name: "nginx".to_string() },
            "CMD nginx",
            3,
            Confidence::Low,
        )],
        ..Default::default()
    };
    let evidence = ProbeEvidence {
        listening_ports: vec![(80, "tcp".to_string()), (80, "tcp".to_string())],
        running_processes: vec!["nginx: master process".to_string()],
        ..Default::default()
    };
    merge_evidence(&mut contract, &evidence);
    assert_eq!(contract.assertions.len(), 2);
    assert_eq!(contract.assertions[0].confidence, Confidence::High);
    assert_eq!(contract.assertions[1].provenance, "probe: discovered listening port");
    assert_eq!(contract.assertions[1].source_line, 0);
}

#[test]
fn ss_port_edge_cases() {
    assert_eq!(parse_ss_port("LISTEN 0 128"), None);
    assert_eq!(parse_ss_port("LISTEN 0 128 [::]:443 x"), Some(443));
    assert_eq!(parse_ss_port("LISTEN 0 128 nocolon x"), None);
    assert_eq!(parse_ss_port("LISTEN 0 128 *:99999 x"), None);
}

#[test]
fn test_probe_cleanup_drop_is_non_fatal_without_runtime() {
    let cleanup = ProbeCleanup::new(
        "runtime-does-not-exist".to_string(),
        "container".to_string(),
        "image".to_string(),
    );
    cleanup.mark_container_created();
    cleanup.mark_image_created();
}

#[test]
fn cleanup_records_what_was_created() {
    let cleanup = ProbeCleanup::new("docker".to_string(), "c".to_string(), "i".to_string());
    assert!(!cleanup.container_created());
    cleanup.mark_image_created();
    assert!(cleanup.image_created());
    assert!(!cleanup.container_created());
}

#[test]
fn probe_output_parsers() {
    let ps = "USER PID %CPU %MEM VSZ RSS TTY STAT START TIME COMMAND\nroot 1 0.0 0.1 100 200 ? Ss 10:00 0:00 nginx: master\nshort line\n";
    assert_eq!(process_names(ps), vec!["nginx:".to_string()]);
    let ss = "State Recv-Q Send-Q Local Peer\nLISTEN 0 128 0.0.0.0:80 *:*\nLISTEN 0 128 [::]:443 *:*\n";
    assert_eq!(listening_ports(ss), vec![80, 443]);
    assert_eq!(
        env_vars_of("A=1\nB=x=y\nnoeq\n"),
        vec![("A".to_string(), "1".to_string()), ("B".to_string(), "x=y".to_string())]
    );
}
