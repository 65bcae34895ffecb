//! The Runtime Contract Model and its extraction from a parsed recipe.
pub mod model;
pub mod heuristics;
pub mod walk;

pub use model::{
    AssertionKind, ComponentKind, ContractAssertion, HealthcheckInfo, InstalledComponent,
    PackageManager, RuntimeContract,
};

pub use heuristics::{analyze_run_command, detect_installed_components, generate_service_assertions};

use vstd::prelude::*;
use crate::Confidence;
use crate::parser::ast::{
    CommandForm, Dockerfile, DockerfileV, Instruction, PortSpec, RawInstruction, clone_form,
    clone_opt, opt_view, pairs_view, ports_view, str_opt_view, target_index,
};
use crate::parser::resolver::{add_defaults, insert_all, resolve_str, stage_table, VariableResolver};
use crate::extractor::model::{
    AssertionV, ContractV, assertions_view, components_view, empty_contract, is_shell_interpreter,
};
use crate::extractor::heuristics::service_assertions;
use crate::extractor::walk::{
    WalkSt, copy_assertion, is_entrypoint, merge_components, opt_seq, port_assertion,
    port_assertions, process_assertion, resolve_path, strip_slashes, walk, walk_step, with_line,
};
use crate::text::{
    chars_of, contains_str, decimal_string, find_char_from, push_str, slice_chars, starts_with_str,
    str_from, string_of, string_views, to_lower,
};

verus! {

/// The contract of the selected stage: the table is seeded from the build
/// arguments, then global `ARG` defaults, then the stage's `ARG`/`ENV`; the
/// instructions are walked from working directory `/`; service assertions of
/// the installed components come last. No matching stage gives the empty contract.
pub open spec fn extract_spec(
    df: DockerfileV,
    target: Option<Seq<char>>,
    build_args: Seq<(Seq<char>, Seq<char>)>,
) -> ContractV {
    match target_index(df.stages, target) {
        None => empty_contract(),
        Some(k) => {
            let st = df.stages[k];
            let m = stage_table(
                add_defaults(insert_all(Map::empty(), build_args), df.global_args),
                st.instructions,
            );
            let init = ContractV { base_image: resolve_str(m, st.image), ..empty_contract() };
            let w = walk(m, WalkSt { c: init, cwd: "/"@ }, st.instructions);
            ContractV {
                assertions: w.c.assertions + service_assertions(w.c.installed_components),
                ..w.c
            }
        },
    }
}

fn strip_slashes_exec(s: &String) -> (r: String)
    ensures
        r@ == strip_slashes(s@),
{
    let v = chars_of(s.as_str());
    let mut b: usize = v.len();
    assert(v@.subrange(0, b as int) =~= v@);
    while b > 0 && v[b - 1] == '/'
        invariant
            b <= v@.len(),
            strip_slashes(v@) == strip_slashes(v@.subrange(0, b as int)),
        decreases b,
    {
        assert(v@.subrange(0, b as int).drop_last() =~= v@.subrange(0, b - 1));
        b -= 1;
    }
    crate::text::string_of_range(&v, 0, b)
}

fn resolve_dest_path(dest: &String, resolver: &VariableResolver, cwd: &String) -> (r: String)
    ensures
        r@ == resolve_path(resolver@, dest@, cwd@),
{
    let r = resolver.resolve(dest.as_str());
    if starts_with_str(&chars_of(r.as_str()), "/") {
        r
    } else {
        let mut j = strip_slashes_exec(cwd);
        push_str(&mut j, "/");
        push_str(&mut j, r.as_str());
        j
    }
}

fn is_entrypoint_path(path: &String) -> (r: bool)
    ensures
        r == is_entrypoint(path@),
{
    let lower = chars_of(to_lower(path.as_str()).as_str());
    contains_str(&lower, "entrypoint") || contains_str(&lower, "docker-entrypoint")
}

fn make_process_assertion(cmd: &CommandForm, prefix: &str, line: usize) -> (r: Option<
    ContractAssertion,
>)
    ensures
        crate::extractor::heuristics::opt_assertion(r) == process_assertion(
            cmd@,
            prefix@,
            line as nat,
        ),
{
    let binary = match cmd.primary_binary() {
        Some(b) => b,
        None => return None,
    };
    let confidence = match cmd {
        CommandForm::Exec(_) => Confidence::Medium,
        CommandForm::Shell(_) => Confidence::Low,
    };
    if is_shell_interpreter(binary.as_str()) {
        return None;
    }
    let mut prov = str_from(prefix);
    push_str(&mut prov, " ");
    push_str(&mut prov, cmd.to_string_lossy().as_str());
    Some(
        ContractAssertion {
            kind: AssertionKind::ProcessRunning { name: binary },
            provenance: prov,
            source_line: line,
            confidence,
        },
    )
}

fn push_assertion(c: &mut RuntimeContract, a: ContractAssertion)
    ensures
        final(c)@ == (ContractV { assertions: old(c)@.assertions.push(a@), ..old(c)@ }),
{
    let ghost a0 = assertions_view(c.assertions@);
    c.assertions.push(a);
    assert(assertions_view(c.assertions@) =~= a0.push(a@));
}

fn push_opt_assertion(c: &mut RuntimeContract, a: Option<ContractAssertion>)
    ensures
        final(c)@ == (ContractV {
            assertions: old(c)@.assertions + opt_seq(
                crate::extractor::heuristics::opt_assertion(a),
            ),
            ..old(c)@
        }),
{
    match a {
        Some(x) => {
            push_assertion(c, x);
            assert(old(c)@.assertions.push(x@) =~= old(c)@.assertions + seq![x@]);
        },
        None => {
            assert(c@.assertions =~= c@.assertions + Seq::<AssertionV>::empty());
        },
    }
}

fn add_ports(c: &mut RuntimeContract, ports: &Vec<PortSpec>, line: usize)
    ensures
        final(c)@ == (ContractV {
            exposed_ports: old(c)@.exposed_ports + ports_view(ports@),
            assertions: old(c)@.assertions + port_assertions(ports_view(ports@), line as nat),
            ..old(c)@
        }),
{
    let ghost c0 = c@;
    let ghost pv = ports_view(ports@);
    let mut i: usize = 0;
    while i < ports.len()
        invariant
            i <= ports@.len(),
            pv == ports_view(ports@),
            c@ == (ContractV {
                exposed_ports: c0.exposed_ports + pv.subrange(0, i as int),
                assertions: c0.assertions + port_assertions(pv.subrange(0, i as int), line as nat),
                ..c0
            }),
        decreases ports@.len() - i,
    {
        let p = &ports[i];
        let ghost e0 = ports_view(c.exposed_ports@);
        c.exposed_ports.push(PortSpec { port: p.port, protocol: p.protocol.clone() });
        assert(ports_view(c.exposed_ports@) =~= e0.push(p@));
        let mut prov = str_from("EXPOSE ");
        push_str(&mut prov, decimal_string(p.port as u64).as_str());
        push_str(&mut prov, "/");
        push_str(&mut prov, p.protocol.as_str());
        let a = ContractAssertion {
            kind: AssertionKind::PortListening { protocol: p.protocol.clone(), port: p.port },
            provenance: prov,
            source_line: line,
            confidence: Confidence::Medium,
        };
        assert(a@ == port_assertion(pv[i as int], line as nat));
        push_assertion(c, a);
        assert(pv.subrange(0, i + 1) =~= pv.subrange(0, i as int).push(pv[i as int]));
        assert(port_assertions(pv.subrange(0, i + 1), line as nat) =~= port_assertions(
            pv.subrange(0, i as int),
            line as nat,
        ).push(port_assertion(pv[i as int], line as nat)));
        assert(c@.exposed_ports =~= c0.exposed_ports + pv.subrange(0, i + 1));
        assert(c@.assertions =~= c0.assertions + port_assertions(pv.subrange(0, i + 1), line as nat));
        i += 1;
    }
    assert(pv.subrange(0, ports@.len() as int) =~= pv);
}

fn add_volumes(c: &mut RuntimeContract, list: &Vec<String>, resolver: &VariableResolver)
    ensures
        final(c)@ == (ContractV {
            volumes: old(c)@.volumes + string_views(list@).map_values(
                |v: Seq<char>| resolve_str(resolver@, v),
            ),
            ..old(c)@
        }),
{
    let ghost c0 = c@;
    let ghost lv = string_views(list@);
    let ghost f = |v: Seq<char>| resolve_str(resolver@, v);
    let mut i: usize = 0;
    while i < list.len()
        invariant
            i <= list@.len(),
            lv == string_views(list@),
            f == (|v: Seq<char>| resolve_str(resolver@, v)),
            c@ == (ContractV { volumes: c0.volumes + lv.subrange(0, i as int).map_values(f), ..c0 }),
        decreases list@.len() - i,
    {
        let ghost v0 = string_views(c.volumes@);
        let r = resolver.resolve(list[i].as_str());
        c.volumes.push(r);
        assert(string_views(c.volumes@) =~= v0.push(r@));
        assert(c@.volumes =~= c0.volumes + lv.subrange(0, i + 1).map_values(f));
        i += 1;
    }
    assert(lv.subrange(0, list@.len() as int) =~= lv);
}

fn add_env(c: &mut RuntimeContract, pairs: &Vec<(String, String)>, resolver: &VariableResolver)
    ensures
        final(c)@ == (ContractV {
            env: old(c)@.env + pairs_view(pairs@).map_values(
                |p: (Seq<char>, Seq<char>)| (p.0, resolve_str(resolver@, p.1)),
            ),
            ..old(c)@
        }),
{
    let ghost c0 = c@;
    let ghost pv = pairs_view(pairs@);
    let ghost f = |p: (Seq<char>, Seq<char>)| (p.0, resolve_str(resolver@, p.1));
    let mut i: usize = 0;
    while i < pairs.len()
        invariant
            i <= pairs@.len(),
            pv == pairs_view(pairs@),
            f == (|p: (Seq<char>, Seq<char>)| (p.0, resolve_str(resolver@, p.1))),
            c@ == (ContractV { env: c0.env + pv.subrange(0, i as int).map_values(f), ..c0 }),
        decreases pairs@.len() - i,
    {
        let ghost e0 = pairs_view(c.env@);
        let (ref k, ref v) = pairs[i];
        let r = resolver.resolve(v.as_str());
        c.env.push((k.clone(), r));
        assert(pairs_view(c.env@) =~= e0.push((k@, r@)));
        assert(c@.env =~= c0.env + pv.subrange(0, i + 1).map_values(f));
        i += 1;
    }
    assert(pv.subrange(0, pairs@.len() as int) =~= pv);
}

fn add_components(c: &mut RuntimeContract, found: Vec<InstalledComponent>, line: usize)
    ensures
        final(c)@ == (ContractV {
            installed_components: merge_components(
                old(c)@.installed_components,
                with_line(components_view(found@), line as nat),
            ),
            ..old(c)@
        }),
{
    let ghost c0 = c@;
    let ghost nv = with_line(components_view(found@), line as nat);
    let mut i: usize = 0;
    while i < found.len()
        invariant
            i <= found@.len(),
            nv == with_line(components_view(found@), line as nat),
            c@ == (ContractV {
                installed_components: merge_components(
                    c0.installed_components,
                    nv.subrange(0, i as int),
                ),
                ..c0
            }),
        decreases found@.len() - i,
    {
        let ghost cur = components_view(c.installed_components@);
        let f = &found[i];
        assert(nv.subrange(0, i + 1).drop_last() =~= nv.subrange(0, i as int));
        assert(nv.subrange(0, i + 1).last() == nv[i as int]);
        let mut seen = false;
        let mut j: usize = 0;
        while j < c.installed_components.len()
            invariant
                j <= c.installed_components@.len(),
                cur == components_view(c.installed_components@),
                seen == exists|m: int| 0 <= m < j && (#[trigger] cur[m]).name == f@.name,
            decreases c.installed_components@.len() - j,
        {
            if c.installed_components[j].name == f.name {
                seen = true;
            }
            assert(cur[j as int] == c.installed_components@[j as int]@);
            j += 1;
        }
        assert(nv[i as int].name == f@.name);
        if !seen {
            let nc = InstalledComponent { name: f.name.clone(), kind: f.kind, source_line: line };
            c.installed_components.push(nc);
            assert(nc@ == nv[i as int]);
            assert(components_view(c.installed_components@) =~= cur.push(nc@));
        }
        i += 1;
    }
    assert(nv.subrange(0, found@.len() as int) =~= nv);
}

/// Applies one instruction of the selected stage to the contract and the working directory.
fn apply_instruction(
    c: &mut RuntimeContract,
    cwd: &mut String,
    resolver: &VariableResolver,
    inst: &RawInstruction,
)
    ensures
        final(c)@ == walk_step(resolver@, WalkSt { c: old(c)@, cwd: old(cwd)@ }, inst@).c,
        final(cwd)@ == walk_step(resolver@, WalkSt { c: old(c)@, cwd: old(cwd)@ }, inst@).cwd,
{
    let n = inst.line_number;
    match &inst.instruction {
        Instruction::Workdir(dir) => {
            let r = resolver.resolve(dir.as_str());
            let next = if starts_with_str(&chars_of(r.as_str()), "/") {
                r
            } else {
                let mut j = strip_slashes_exec(cwd);
                push_str(&mut j, "/");
                push_str(&mut j, r.as_str());
                j
            };
            c.workdir = Some(next.clone());
            let mut prov = str_from("WORKDIR ");
            push_str(&mut prov, dir.as_str());
            push_assertion(
                c,
                ContractAssertion {
                    kind: AssertionKind::FileExists {
                        path: next.clone(),
                        filetype: Some(str_from("directory")),
                        mode: None,
                    },
                    provenance: prov,
                    source_line: n,
                    confidence: Confidence::High,
                },
            );
            *cwd = next;
        },
        Instruction::User(u) => {
            let r = resolver.resolve(u.as_str());
            let rv = chars_of(r.as_str());
            c.user = Some(r.clone());
            let mut all = true;
            let mut k: usize = 0;
            while k < rv.len()
                invariant
                    k <= rv@.len(),
                    all == forall|m: int| 0 <= m < k ==> crate::text::is_ascii_digit(
                        #[trigger] rv@[m],
                    ),
                decreases rv@.len() - k,
            {
                if !crate::text::is_digit_char(rv[k]) {
                    all = false;
                }
                k += 1;
            }
            let kind = if all {
                let mut out: Vec<String> = Vec::new();
                out.push(r.clone());
                assert(string_views(out@) =~= seq![r@]);
                AssertionKind::CommandOutput { command: str_from("id -u"), exit_status: 0, expected_output: out }
            } else {
                let name = match find_char_from(&rv, 0, ':') {
                    Some(k) => string_of(&slice_chars(&rv, 0, k)),
                    None => r.clone(),
                };
                assert(rv@.subrange(0, rv@.len() as int) =~= rv@);
                AssertionKind::UserExists { username: name }
            };
            let mut prov = str_from("USER ");
            push_str(&mut prov, u.as_str());
            push_assertion(
                c,
                ContractAssertion { kind, provenance: prov, source_line: n, confidence: Confidence::High },
            );
        },
        Instruction::Expose(ports) => {
            add_ports(c, ports, n);
        },
        Instruction::Volume(list) => {
            add_volumes(c, list, resolver);
        },
        Instruction::Env(pairs) => {
            add_env(c, pairs, resolver);
        },
        Instruction::Entrypoint(cmd) => {
            c.entrypoint = Some(clone_form(cmd));
            push_opt_assertion(c, make_process_assertion(cmd, "ENTRYPOINT", n));
        },
        Instruction::Cmd(cmd) => {
            let had_entrypoint = c.entrypoint.is_some();
            c.cmd = Some(clone_form(cmd));
            if !had_entrypoint {
                push_opt_assertion(c, make_process_assertion(cmd, "CMD", n));
            } else {
                assert(c@.assertions =~= c@.assertions + Seq::<AssertionV>::empty());
            }
        },
        Instruction::Healthcheck { cmd, interval, timeout, start_period, retries } => {
            c.healthcheck = Some(
                HealthcheckInfo {
                    cmd: clone_form(cmd),
                    interval: clone_opt(interval),
                    timeout: clone_opt(timeout),
                    start_period: clone_opt(start_period),
                    retries: *retries,
                },
            );
            let text = cmd.to_string_lossy();
            let mut prov = str_from("HEALTHCHECK CMD ");
            push_str(&mut prov, text.as_str());
            push_assertion(
                c,
                ContractAssertion {
                    kind: AssertionKind::HealthcheckPasses { command: text },
                    provenance: prov,
                    source_line: n,
                    confidence: Confidence::High,
                },
            );
        },
        Instruction::Copy { from_stage, sources: _, dest, chmod } => {
            let full = resolve_dest_path(dest, resolver, cwd);
            let fv = chars_of(full.as_str());
            let ep = is_entrypoint_path(&full);
            let filetype = if ep {
                Some(str_from("file"))
            } else if fv.len() > 0 && fv[fv.len() - 1] == '/' {
                Some(str_from("directory"))
            } else {
                None
            };
            let mode = if ep && chmod.is_none() {
                Some(str_from("0755"))
            } else {
                clone_opt(chmod)
            };
            let provenance = if ep {
                let mut p = str_from("COPY ");
                push_str(&mut p, dest.as_str());
                push_str(&mut p, " (entrypoint script pattern)");
                p
            } else {
                let mut p = str_from("COPY ");
                match from_stage {
                    Some(f) => {
                        push_str(&mut p, "--from=");
                        push_str(&mut p, f.as_str());
                    },
                    None => {},
                }
                push_str(&mut p, " ");
                push_str(&mut p, dest.as_str());
                let pv = crate::text::trim_chars(&chars_of(p.as_str()));
                proof {
                    let fp = match opt_view(*from_stage) {
                        Some(f) => "--from="@ + f,
                        None => Seq::<char>::empty(),
                    };
                    assert(p@ =~= "COPY "@ + fp + " "@ + dest@);
                }
                string_of(&pv)
            };
            let a = ContractAssertion {
                kind: AssertionKind::FileExists { path: full.clone(), filetype, mode },
                provenance,
                source_line: n,
                confidence: Confidence::Medium,
            };
            assert(a@ == copy_assertion(full@, opt_view(*from_stage), dest@, opt_view(*chmod), n as nat));
            push_assertion(c, a);
            let ghost p0 = string_views(c.filesystem_paths@);
            c.filesystem_paths.push(full);
            assert(string_views(c.filesystem_paths@) =~= p0.push(fv@));
        },
        Instruction::Add { sources: _, dest, chmod } => {
            let full = resolve_dest_path(dest, resolver, cwd);
            let mut prov = str_from("ADD ");
            push_str(&mut prov, dest.as_str());
            push_assertion(
                c,
                ContractAssertion {
                    kind: AssertionKind::FileExists { path: full.clone(), filetype: None, mode: clone_opt(chmod) },
                    provenance: prov,
                    source_line: n,
                    confidence: Confidence::Medium,
                },
            );
            let ghost p0 = string_views(c.filesystem_paths@);
            let ghost fullv = full@;
            c.filesystem_paths.push(full);
            assert(string_views(c.filesystem_paths@) =~= p0.push(fullv));
        },
        Instruction::Run(cmd) => {
            let found = analyze_run_command(cmd, n);
            let ghost a0 = assertions_view(c.assertions@);
            let ghost b0 = assertions_view(found@);
            let mut found = found;
            c.assertions.append(&mut found);
            assert(assertions_view(c.assertions@) =~= a0 + b0);
            let comps = detect_installed_components(cmd);
            add_components(c, comps, n);
        },
        _ => {},
    }
}

/// The Runtime Contract Model of the selected stage of a parsed recipe.
pub fn extract_contract(
    dockerfile: &Dockerfile,
    target: Option<&str>,
    build_args: &[(String, String)],
) -> (r: RuntimeContract)
    ensures
        r@ == extract_spec(dockerfile@, str_opt_view(target), pairs_view(build_args@)),
{
    let stage = match dockerfile.resolve_target(target) {
        Some(s) => s,
        None => return RuntimeContract::default(),
    };
    let mut resolver = VariableResolver::new();
    resolver.load_build_args(build_args);
    resolver.load_global_args(&dockerfile.global_args);
    resolver.process_stage(stage);
    let ghost m = resolver@;
    let mut contract = RuntimeContract::default();
    contract.base_image = resolver.resolve(stage.image.as_str());
    let mut cwd = str_from("/");
    let ghost insts = stage@.instructions;
    let ghost init = WalkSt { c: contract@, cwd: cwd@ };
    let mut k: usize = 0;
    while k < stage.instructions.len()
        invariant
            k <= stage.instructions@.len(),
            insts == stage@.instructions,
            m == resolver@,
            walk(m, init, insts.subrange(0, k as int)) == (WalkSt { c: contract@, cwd: cwd@ }),
        decreases stage.instructions@.len() - k,
    {
        let inst = &stage.instructions[k];
        assert(insts.subrange(0, k + 1).drop_last() =~= insts.subrange(0, k as int));
        assert(insts.subrange(0, k + 1).last() == inst@);
        apply_instruction(&mut contract, &mut cwd, &resolver, inst);
        k += 1;
    }
    assert(insts.subrange(0, stage.instructions@.len() as int) =~= insts);
    let services = generate_service_assertions(contract.installed_components.as_slice());
    let ghost a0 = assertions_view(contract.assertions@);
    let ghost b0 = assertions_view(services@);
    let mut services = services;
    contract.assertions.append(&mut services);
    assert(assertions_view(contract.assertions@) =~= a0 + b0);
    contract
}

} // verus!
