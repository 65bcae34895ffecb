use dgossgen::parser::CommandForm;
use dgossgen::parser::{parse_dockerfile_content, Instruction};

#[test]
fn test_parse_simple_dockerfile() {
    let content = r#"
FROM ubuntu:22.04

ENV APP_PORT=8080
WORKDIR /app
COPY . /app
EXPOSE 8080
CMD ["./server"]
"#;
    let df = parse_dockerfile_content(content).unwrap();
    assert_eq!(df.stages.len(), 1);
    assert_eq!(df.stages[0].image, "ubuntu:22.04");
}

#[test]
fn test_parse_multistage() {
    let content = r#"
FROM golang:1.21 AS builder
WORKDIR /src
COPY . .
RUN go build -o /app

FROM alpine:3.18
COPY --from=builder /app /app
EXPOSE 8080
ENTRYPOINT ["/app"]
"#;
    let df = parse_dockerfile_content(content).unwrap();
    assert_eq!(df.stages.len(), 2);
    assert_eq!(df.stages[0].alias, Some("builder".to_string()));
    assert_eq!(df.stages[1].image, "alpine:3.18");
}

#[test]
fn test_parse_continuation_lines() {
    let content = r#"
FROM ubuntu:22.04
RUN apt-get update && \
    apt-get install -y nginx && \
    rm -rf /var/lib/apt/lists/*
EXPOSE 80
"#;
    let df = parse_dockerfile_content(content).unwrap();
    assert_eq!(df.stages.len(), 1);
    let run_count = df.stages[0]
        .instructions
        .iter()
        .filter(|i| matches!(i.instruction, Instruction::Run(_)))
        .count();
    assert_eq!(run_count, 1);
}

#[test]
fn test_parse_env_forms() {
    let content = r#"
FROM alpine
ENV KEY1=value1 KEY2="value two"
ENV OLD_STYLE value
"#;
    let df = parse_dockerfile_content(content).unwrap();
    let envs: Vec<_> = df.stages[0]
        .instructions
        .iter()
        .filter_map(|i| match &i.instruction {
            Instruction::Env(pairs) => Some(pairs.clone()),
            _ => None,
        })
        .collect();
    assert_eq!(envs.len(), 2);
    assert_eq!(
        envs[0],
        vec![
            ("KEY1".to_string(), "value1".to_string()),
            ("KEY2".to_string(), "value two".to_string())
        ]
    );
    assert_eq!(envs[1], vec![("OLD_STYLE".to_string(), "value".to_string())]);
}

#[test]
fn test_parse_healthcheck() {
    let content = r#"
FROM nginx
HEALTHCHECK --interval=30s --timeout=3s CMD curl -f http://localhost/ || exit 1
"#;
    let df = parse_dockerfile_content(content).unwrap();
    let hc = df.stages[0]
        .instructions
        .iter()
        .find(|i| matches!(i.instruction, Instruction::Healthcheck { .. }));
    assert!(hc.is_some());
}

#[test]
fn test_parse_healthcheck_trailing_flag_without_cmd() {
    let content = r#"
FROM nginx
HEALTHCHECK --retries=3
"#;
    let df = parse_dockerfile_content(content).unwrap();
    let hc = df.stages[0].instructions.iter().find_map(|i| match &i.instruction {
        Instruction::Healthcheck { retries, .. } => Some(*retries),
        _ => None,
    });
    assert_eq!(hc, Some(Some(3)));
}

#[test]
fn test_parse_global_args_before_first_from() {
    let content = r#"
ARG BASE_IMAGE=ubuntu:22.04
ARG APP_VERSION
FROM $BASE_IMAGE
"#;
    let df = parse_dockerfile_content(content).unwrap();
    assert_eq!(df.global_args.len(), 2);
    assert_eq!(df.global_args[0].name, "BASE_IMAGE");
    assert_eq!(df.global_args[0].default.as_deref(), Some("ubuntu:22.04"));
    assert_eq!(df.global_args[1].name, "APP_VERSION");
    assert_eq!(df.global_args[1].default, None);
}

#[test]
fn test_parse_expose_with_protocol() {
    let content = r#"
FROM alpine
EXPOSE 8080/tcp 9090/udp 3000
"#;
    let df = parse_dockerfile_content(content).unwrap();
    let expose = df.stages[0].instructions.iter().find_map(|i| match &i.instruction {
        Instruction::Expose(ports) => Some(ports.clone()),
        _ => None,
    });
    assert!(expose.is_some());
    let ports = expose.unwrap();
    assert_eq!(ports.len(), 3);
    assert_eq!(ports[0].port, 8080);
    assert_eq!(ports[0].protocol, "tcp");
    assert_eq!(ports[1].port, 9090);
    assert_eq!(ports[1].protocol, "udp");
}

#[test]
fn test_parse_copy_from() {
    let content = r#"
FROM golang AS builder
RUN echo hello

FROM alpine
COPY --from=builder /app /app
"#;
    let df = parse_dockerfile_content(content).unwrap();
    let copy_inst = df.stages[1]
        .instructions
        .iter()
        .find(|i| matches!(i.instruction, Instruction::Copy { .. }))
        .unwrap();
    match &copy_inst.instruction {
        Instruction::Copy { from_stage, dest, .. } => {
            assert_eq!(from_stage.as_deref(), Some("builder"));
            assert_eq!(dest, "/app");
        }
        _ => panic!("expected Copy"),
    }
}

#[test]
fn parse_skips_comments_unknown_keywords_and_keeps_line_numbers() {
    let content = "# comment\nFROM alpine AS Base\nLABEL a=b\nFOO bar\nUSER app\n";
    let df = parse_dockerfile_content(content).unwrap();
    assert_eq!(df.stages.len(), 1);
    assert_eq!(df.stages[0].from_line, 2);
    assert_eq!(df.stages[0].instructions.len(), 1);
    assert_eq!(df.stages[0].instructions[0].line_number, 5);
    assert_eq!(df.stages[0].instructions[0].raw, "USER app");
}

#[test]
fn parse_from_without_image_is_scratch_and_alias_any_case() {
    let df = parse_dockerfile_content("FROM --platform=linux/amd64\nFROM node as build\n").unwrap();
    assert_eq!(df.stages[0].image, "scratch");
    assert_eq!(df.stages[1].alias.as_deref(), Some("build"));
    assert!(df.resolve_target(Some("BUILD")).is_some());
    assert_eq!(df.stage_aliases(), vec!["build".to_string()]);
}

#[test]
fn parse_exec_form_and_healthcheck_none() {
    let df = parse_dockerfile_content(
        "FROM x\nCMD [\"node\", \"server.js\"]\nHEALTHCHECK NONE\nSHELL [\"/bin/bash\", \"-c\"]\nVOLUME [\"/a\",\"/b\"]\n",
    )
    .unwrap();
    let insts = &df.stages[0].instructions;
    match &insts[0].instruction {
        Instruction::Cmd(CommandForm::Exec(p)) => {
            assert_eq!(p, &vec!["node".to_string(), "server.js".to_string()])
        }
        _ => panic!("expected exec CMD"),
    }
    assert!(matches!(insts[1].instruction, Instruction::HealthcheckNone));
    match &insts[3].instruction {
        Instruction::Volume(v) => assert_eq!(v, &vec!["/a".to_string(), "/b".to_string()]),
        _ => panic!("expected VOLUME"),
    }
}

#[test]
fn parse_copy_single_and_zero_tokens() {
    let df = parse_dockerfile_content("FROM x\nCOPY --chown=1 --chmod=755 only\nADD\n").unwrap();
    match &df.stages[0].instructions[0].instruction {
        Instruction::Copy { sources, dest, chmod, .. } => {
            assert_eq!(sources, &vec!["only".to_string()]);
            assert_eq!(dest, "only");
            assert_eq!(chmod.as_deref(), Some("755"));
        }
        _ => panic!("expected COPY"),
    }
    match &df.stages[0].instructions[1].instruction {
        Instruction::Add { dest, .. } => assert_eq!(dest, "."),
        _ => panic!("expected ADD"),
    }
}

#[test]
fn primary_binary_of_forms() {
    assert_eq!(
        CommandForm::Exec(vec!["/usr/bin/node".to_string(), "x".to_string()]).primary_binary(),
        Some("node".to_string())
    );
    assert_eq!(CommandForm::Shell("  nginx -g daemon".to_string()).primary_binary(), Some("nginx".to_string()));
    assert_eq!(CommandForm::Shell("   ".to_string()).primary_binary(), None);
    assert_eq!(
        CommandForm::Exec(vec!["a".to_string(), "b".to_string()]).to_string_lossy(),
        "a b"
    );
}

#[test]
fn expose_port_zero_is_dropped() {
    let df = parse_dockerfile_content("FROM x\nEXPOSE 0 0/udp 1\n").unwrap();
    match &df.stages[0].instructions[0].instruction {
        Instruction::Expose(ports) => {
            assert_eq!(ports.len(), 1);
            assert_eq!(ports[0].port, 1);
        }
        _ => panic!("expected EXPOSE"),
    }
}

#[test]
fn keyword_upper_casing_is_unicode() {
    let df = parse_dockerfile_content("FROM x\n\u{17f}hell [\"sh\"]\n").unwrap();
    match &df.stages[0].instructions[0].instruction {
        Instruction::Shell(v) => assert_eq!(v, &vec!["sh".to_string()]),
        _ => panic!("expected SHELL"),
    }
}

#[test]
fn single_word_add_is_source_and_destination() {
    let df = parse_dockerfile_content("FROM x\nADD app.tar\n").unwrap();
    match &df.stages[0].instructions[0].instruction {
        Instruction::Add { sources, dest, .. } => {
            assert_eq!(dest, "app.tar");
            assert_eq!(sources, &vec!["app.tar".to_string()]);
        }
        _ => panic!("expected ADD"),
    }
}
