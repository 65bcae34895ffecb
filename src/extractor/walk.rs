//! What each instruction of the selected stage contributes to the contract.
use vstd::prelude::*;
use crate::Confidence;
use crate::parser::ast::{
    CommandFormV, InstructionV, PortV, RawInstructionV, flat, primary_binary_of,
};
use crate::extractor::model::{
    AssertionKindV, AssertionV, ComponentV, ContractV, HealthV, is_shell_name,
};
use crate::extractor::heuristics::{detected_components, has_name, run_assertions};
use crate::text::{all_digits, contains, decimal, find_char, lower_of, starts_with};
use crate::parser::resolver::resolve_str;

verus! {

pub struct WalkSt {
    pub c: ContractV,
    pub cwd: Seq<char>,
}

pub open spec fn strip_slashes(s: Seq<char>) -> Seq<char>
    decreases s.len(),
{
    if s.len() > 0 && s.last() == '/' {
        strip_slashes(s.drop_last())
    } else {
        s
    }
}

/// `r` taken relative to the directory `cwd`.
pub open spec fn join_dir(cwd: Seq<char>, r: Seq<char>) -> Seq<char> {
    strip_slashes(cwd) + "/"@ + r
}

/// A path resolved against the table, then against `cwd` unless absolute.
pub open spec fn resolve_path(m: Map<Seq<char>, Seq<char>>, p: Seq<char>, cwd: Seq<char>) -> Seq<
    char,
> {
    let r = resolve_str(m, p);
    if starts_with(r, "/"@) {
        r
    } else {
        join_dir(cwd, r)
    }
}

pub open spec fn before_colon(r: Seq<char>) -> Seq<char> {
    match find_char(r, ':') {
        Some(k) => r.subrange(0, k),
        None => r,
    }
}

pub open spec fn opt_seq<A>(o: Option<A>) -> Seq<A> {
    match o {
        Some(a) => seq![a],
        None => seq![],
    }
}

/// The `ProcessRunning` assertion for a command, unless it has no binary or runs
/// a shell; exec form is `Medium`, shell form `Low`.
pub open spec fn process_assertion(cmd: CommandFormV, prefix: Seq<char>, line: nat) -> Option<
    AssertionV,
> {
    match primary_binary_of(cmd) {
        None => None,
        Some(b) => if is_shell_name(b) {
            None
        } else {
            Some(
                AssertionV {
                    kind: AssertionKindV::ProcessRunning { name: b },
                    provenance: prefix + " "@ + flat(cmd),
                    source_line: line,
                    confidence: match cmd {
                        CommandFormV::Exec(_) => Confidence::Medium,
                        CommandFormV::Shell(_) => Confidence::Low,
                    },
                },
            )
        },
    }
}

pub open spec fn port_assertion(p: PortV, line: nat) -> AssertionV {
    AssertionV {
        kind: AssertionKindV::PortListening { protocol: p.protocol, port: p.port },
        provenance: "EXPOSE "@ + decimal(p.port as nat) + "/"@ + p.protocol,
        source_line: line,
        confidence: Confidence::Medium,
    }
}

pub open spec fn port_assertions(ports: Seq<PortV>, line: nat) -> Seq<AssertionV> {
    ports.map_values(|p: PortV| port_assertion(p, line))
}

pub open spec fn is_entrypoint(path: Seq<char>) -> bool {
    contains(lower_of(path), "entrypoint"@) || contains(lower_of(path), "docker-entrypoint"@)
}

/// The `FileExists` assertion of a `COPY` to `full` (written `dest`).
pub open spec fn copy_assertion(
    full: Seq<char>,
    from: Option<Seq<char>>,
    dest: Seq<char>,
    chmod: Option<Seq<char>>,
    line: nat,
) -> AssertionV {
    let ep = is_entrypoint(full);
    AssertionV {
        kind: AssertionKindV::FileExists {
            path: full,
            filetype: if ep {
                Some("file"@)
            } else if full.len() > 0 && full.last() == '/' {
                Some("directory"@)
            } else {
                None
            },
            mode: if ep && chmod is None {
                Some("0755"@)
            } else {
                chmod
            },
        },
        provenance: if ep {
            "COPY "@ + dest + " (entrypoint script pattern)"@
        } else {
            crate::text::trim(
                "COPY "@ + (match from {
                    Some(f) => "--from="@ + f,
                    None => seq![],
                }) + " "@ + dest,
            )
        },
        source_line: line,
        confidence: Confidence::Medium,
    }
}

pub open spec fn with_line(cs: Seq<ComponentV>, line: nat) -> Seq<ComponentV> {
    cs.map_values(|c: ComponentV| ComponentV { name: c.name, kind: c.kind, source_line: line })
}

/// `existing` extended by those of `new` whose name is not there yet.
pub open spec fn merge_components(existing: Seq<ComponentV>, new: Seq<ComponentV>) -> Seq<
    ComponentV,
>
    decreases new.len(),
{
    if new.len() == 0 {
        existing
    } else {
        let r = merge_components(existing, new.drop_last());
        if has_name(r, new.last().name) {
            r
        } else {
            r.push(new.last())
        }
    }
}

/// One instruction of the selected stage applied to the contract and the
/// working directory.
pub open spec fn walk_step(m: Map<Seq<char>, Seq<char>>, st: WalkSt, i: RawInstructionV) -> WalkSt {
    let c = st.c;
    let n = i.line_number;
    match i.instruction {
        InstructionV::Workdir(dir) => {
            let r = resolve_str(m, dir);
            let cwd = if starts_with(r, "/"@) {
                r
            } else {
                join_dir(st.cwd, r)
            };
            WalkSt {
                c: ContractV {
                    workdir: Some(cwd),
                    assertions: c.assertions.push(
                        AssertionV {
                            kind: AssertionKindV::FileExists {
                                path: cwd,
                                filetype: Some("directory"@),
                                mode: None,
                            },
                            provenance: "WORKDIR "@ + dir,
                            source_line: n,
                            confidence: Confidence::High,
                        },
                    ),
                    ..c
                },
                cwd,
            }
        },
        InstructionV::User(u) => {
            let r = resolve_str(m, u);
            let kind = if all_digits(r) {
                AssertionKindV::CommandOutput {
                    command: "id -u"@,
                    exit_status: 0,
                    expected_output: seq![r],
                }
            } else {
                AssertionKindV::UserExists { username: before_colon(r) }
            };
            WalkSt {
                c: ContractV {
                    user: Some(r),
                    assertions: c.assertions.push(
                        AssertionV {
                            kind,
                            provenance: "USER "@ + u,
                            source_line: n,
                            confidence: Confidence::High,
                        },
                    ),
                    ..c
                },
                cwd: st.cwd,
            }
        },
        InstructionV::Expose(ports) => WalkSt {
            c: ContractV {
                exposed_ports: c.exposed_ports + ports,
                assertions: c.assertions + port_assertions(ports, n),
                ..c
            },
            cwd: st.cwd,
        },
        InstructionV::Volume(list) => WalkSt {
            c: ContractV {
                volumes: c.volumes + list.map_values(|v: Seq<char>| resolve_str(m, v)),
                ..c
            },
            cwd: st.cwd,
        },
        InstructionV::Env(pairs) => WalkSt {
            c: ContractV {
                env: c.env + pairs.map_values(
                    |p: (Seq<char>, Seq<char>)| (p.0, resolve_str(m, p.1)),
                ),
                ..c
            },
            cwd: st.cwd,
        },
        InstructionV::Entrypoint(cmd) => WalkSt {
            c: ContractV {
                entrypoint: Some(cmd),
                assertions: c.assertions + opt_seq(process_assertion(cmd, "ENTRYPOINT"@, n)),
                ..c
            },
            cwd: st.cwd,
        },
        InstructionV::Cmd(cmd) => WalkSt {
            c: ContractV {
                cmd: Some(cmd),
                assertions: c.assertions + (if c.entrypoint is None {
                    opt_seq(process_assertion(cmd, "CMD"@, n))
                } else {
                    seq![]
                }),
                ..c
            },
            cwd: st.cwd,
        },
        InstructionV::Healthcheck { cmd, interval, timeout, start_period, retries } => WalkSt {
            c: ContractV {
                healthcheck: Some(HealthV { cmd, interval, timeout, start_period, retries }),
                assertions: c.assertions.push(
                    AssertionV {
                        kind: AssertionKindV::HealthcheckPasses { command: flat(cmd) },
                        provenance: "HEALTHCHECK CMD "@ + flat(cmd),
                        source_line: n,
                        confidence: Confidence::High,
                    },
                ),
                ..c
            },
            cwd: st.cwd,
        },
        InstructionV::Copy { from_stage, sources, dest, chmod } => {
            let full = resolve_path(m, dest, st.cwd);
            WalkSt {
                c: ContractV {
                    assertions: c.assertions.push(copy_assertion(full, from_stage, dest, chmod, n)),
                    filesystem_paths: c.filesystem_paths.push(full),
                    ..c
                },
                cwd: st.cwd,
            }
        },
        InstructionV::Add { sources, dest, chmod } => {
            let full = resolve_path(m, dest, st.cwd);
            WalkSt {
                c: ContractV {
                    assertions: c.assertions.push(
                        AssertionV {
                            kind: AssertionKindV::FileExists {
                                path: full,
                                filetype: None,
                                mode: chmod,
                            },
                            provenance: "ADD "@ + dest,
                            source_line: n,
                            confidence: Confidence::Medium,
                        },
                    ),
                    filesystem_paths: c.filesystem_paths.push(full),
                    ..c
                },
                cwd: st.cwd,
            }
        },
        InstructionV::Run(cmd) => WalkSt {
            c: ContractV {
                assertions: c.assertions + run_assertions(flat(cmd), n),
                installed_components: merge_components(
                    c.installed_components,
                    with_line(detected_components(flat(cmd)), n),
                ),
                ..c
            },
            cwd: st.cwd,
        },
        _ => st,
    }
}

pub open spec fn walk(m: Map<Seq<char>, Seq<char>>, st: WalkSt, insts: Seq<RawInstructionV>) -> WalkSt
    decreases insts.len(),
{
    if insts.len() == 0 {
        st
    } else {
        walk_step(m, walk(m, st, insts.drop_last()), insts.last())
    }
}

} // verus!
