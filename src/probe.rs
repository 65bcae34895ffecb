//! The dynamic-probe side of the core: the evidence record, merging it into the
//! contract, the safe-mode check of extra run arguments, and reading `ss` output.
use vstd::prelude::*;
use crate::Confidence;
use crate::parser::ast::{clone_opt, clone_strings};
use crate::extractor::model::{
    AssertionKind, AssertionKindV, AssertionV, ContractAssertion, ContractV, RuntimeContract,
    assertions_view,
};
use crate::text::{
    chars_of, contains, contains_str, is_ws, parse_unsigned, parse_unsigned_exec, push_str,
    slice_chars, split_words, starts_with, starts_with_str, str_eq_chars, str_from, string_views,
    to_lower, lower_of, views, words,
};

verus! {

#[verifier::external_type_specification]
#[verifier::external_body]
pub struct ExJsonValue(serde_json::Value);

/// Relies on `Duration::from_secs`: a duration of whole seconds.
#[verifier::external_body]
fn seconds(n: u64) -> (r: std::time::Duration) {
    std::time::Duration::from_secs(n)
}

/// The container runtime that builds and runs the probe image.
#[derive(Debug, Clone, Copy, PartialEq, Eq, Structural)]
pub enum ContainerRuntime {
    Docker,
    Podman,
}

pub open spec fn runtime_name(r: ContainerRuntime) -> Seq<char> {
    match r {
        ContainerRuntime::Docker => "docker"@,
        ContainerRuntime::Podman => "podman"@,
    }
}

impl ContainerRuntime {
    /// The command name of the runtime.
    pub fn name(&self) -> (r: &'static str)
        ensures
            r@ == runtime_name(*self),
    {
        match self {
            ContainerRuntime::Docker => "docker",
            ContainerRuntime::Podman => "podman",
        }
    }

    pub fn to_string(&self) -> (r: String)
        ensures
            r@ == runtime_name(*self),
    {
        str_from(self.name())
    }

    /// The runtime named by `s` (letters in any case), or a message naming `s`.
    pub fn parse(s: &str) -> (r: Result<ContainerRuntime, String>)
        ensures
            match r {
                Ok(rt) => lower_of(s@) == runtime_name(rt),
                Err(e) => e@ == "unknown runtime: "@ + s@ + " (expected docker or podman)"@
                    && lower_of(s@) != "docker"@ && lower_of(s@) != "podman"@,
            },
    {
        let low = chars_of(to_lower(s).as_str());
        if str_eq_chars("docker", &low) {
            Ok(ContainerRuntime::Docker)
        } else if str_eq_chars("podman", &low) {
            Ok(ContainerRuntime::Podman)
        } else {
            let mut e = str_from("unknown runtime: ");
            push_str(&mut e, s);
            push_str(&mut e, " (expected docker or podman)");
            Err(e)
        }
    }
}

impl std::str::FromStr for ContainerRuntime {
    type Err = String;

    fn from_str(s: &str) -> Result<ContainerRuntime, String> {
        ContainerRuntime::parse(s)
    }
}

/// Configuration of one probe run.
#[derive(Debug)]
pub struct ProbeConfig {
    pub runtime: ContainerRuntime,
    pub dockerfile: String,
    pub context: String,
    pub target: Option<String>,
    pub build_args: Vec<(String, String)>,
    pub run_args: Vec<String>,
    pub allow_unsafe_run_args: bool,
    pub timeout: std::time::Duration,
    pub network_isolation: bool,
}

impl Default for ProbeConfig {
    fn default() -> (r: ProbeConfig)
        ensures
            r.runtime == ContainerRuntime::Docker,
            r.dockerfile@ == "Dockerfile"@,
            r.context@ == "."@,
            r.target is None,
            r.build_args@.len() == 0,
            r.run_args@.len() == 0,
            !r.allow_unsafe_run_args,
            r.network_isolation,
    {
        ProbeConfig {
            runtime: ContainerRuntime::Docker,
            dockerfile: str_from("Dockerfile"),
            context: str_from("."),
            target: None,
            build_args: Vec::new(),
            run_args: Vec::new(),
            allow_unsafe_run_args: false,
            timeout: seconds(60),
            network_isolation: true,
        }
    }
}

/// What the probe observed in a running container.
#[derive(Debug, Clone)]
pub struct ProbeEvidence {
    /// Ports that are listening, with their protocol.
    pub listening_ports: Vec<(u16, String)>,
    /// Command names of running processes.
    pub running_processes: Vec<String>,
    /// Files that exist.
    pub existing_files: Vec<String>,
    /// Output of `id`.
    pub user: Option<String>,
    pub uid: Option<u32>,
    /// Environment variables.
    pub env_vars: Vec<(String, String)>,
    /// The image's inspect record.
    pub image_config: Option<serde_json::Value>,
}

impl Default for ProbeEvidence {
    fn default() -> (r: ProbeEvidence)
        ensures
            r.listening_ports@.len() == 0,
            r.running_processes@.len() == 0,
            r.existing_files@.len() == 0,
            r.user is None,
            r.uid is None,
            r.env_vars@.len() == 0,
            r.image_config is None,
    {
        ProbeEvidence {
            listening_ports: Vec::new(),
            running_processes: Vec::new(),
            existing_files: Vec::new(),
            user: None,
            uid: None,
            env_vars: Vec::new(),
            image_config: None,
        }
    }
}

pub open spec fn observed_ports(e: ProbeEvidence) -> Seq<(u16, Seq<char>)> {
    e.listening_ports@.map_values(|p: (u16, String)| (p.0, p.1@))
}

/// Whether the evidence confirms an assertion: an observed port equal to an
/// asserted port, or an observed process whose text holds an asserted name.
pub open spec fn confirmed(
    a: AssertionV,
    ports: Seq<(u16, Seq<char>)>,
    procs: Seq<Seq<char>>,
) -> bool {
    match a.kind {
        AssertionKindV::PortListening { port, .. } => exists|i: int|
            0 <= i < ports.len() && (#[trigger] ports[i]).0 == port,
        AssertionKindV::ProcessRunning { name } => exists|i: int|
            0 <= i < procs.len() && contains(#[trigger] procs[i], name),
        _ => false,
    }
}

pub open spec fn raise(a: AssertionV, ports: Seq<(u16, Seq<char>)>, procs: Seq<Seq<char>>) -> AssertionV {
    if confirmed(a, ports, procs) {
        AssertionV { confidence: Confidence::High, ..a }
    } else {
        a
    }
}

pub open spec fn is_port_of(a: AssertionV, port: u16) -> bool {
    match a.kind {
        AssertionKindV::PortListening { port: p, .. } => p == port,
        _ => false,
    }
}

pub open spec fn asserts_port(s: Seq<AssertionV>, port: u16) -> bool {
    exists|i: int| 0 <= i < s.len() && is_port_of(#[trigger] s[i], port)
}

pub open spec fn discovered(proto: Seq<char>, port: u16) -> AssertionV {
    AssertionV {
        kind: AssertionKindV::PortListening { protocol: proto, port },
        provenance: "probe: discovered listening port"@,
        source_line: 0,
        confidence: Confidence::High,
    }
}

/// `s` followed by one discovered-port assertion for each observed port not
/// asserted yet (including by those appended before it).
pub open spec fn add_discovered(s: Seq<AssertionV>, ports: Seq<(u16, Seq<char>)>) -> Seq<AssertionV>
    decreases ports.len(),
{
    if ports.len() == 0 {
        s
    } else {
        let r = add_discovered(s, ports.drop_last());
        let (port, proto) = ports.last();
        if asserts_port(r, port) {
            r
        } else {
            r.push(discovered(proto, port))
        }
    }
}

/// The contract after merging evidence.
pub open spec fn merged(c: ContractV, e: ProbeEvidence) -> ContractV {
    let ports = observed_ports(e);
    let procs = string_views(e.running_processes@);
    ContractV {
        assertions: add_discovered(
            c.assertions.map_values(|a: AssertionV| raise(a, ports, procs)),
            ports,
        ),
        ..c
    }
}

fn clone_kind(k: &AssertionKind) -> (r: AssertionKind)
    ensures
        r@ == k@,
{
    match k {
        AssertionKind::FileExists { path, filetype, mode } => AssertionKind::FileExists {
            path: path.clone(),
            filetype: clone_opt(filetype),
            mode: clone_opt(mode),
        },
        AssertionKind::PortListening { protocol, port } => AssertionKind::PortListening {
            protocol: protocol.clone(),
            port: *port,
        },
        AssertionKind::ProcessRunning { name } => AssertionKind::ProcessRunning { name: name.clone() },
        AssertionKind::CommandExit { command, exit_status } => AssertionKind::CommandExit {
            command: command.clone(),
            exit_status: *exit_status,
        },
        AssertionKind::CommandOutput { command, exit_status, expected_output } =>
            AssertionKind::CommandOutput {
            command: command.clone(),
            exit_status: *exit_status,
            expected_output: clone_strings(expected_output),
        },
        AssertionKind::UserExists { username } => AssertionKind::UserExists {
            username: username.clone(),
        },
        AssertionKind::HealthcheckPasses { command } => AssertionKind::HealthcheckPasses {
            command: command.clone(),
        },
        AssertionKind::HttpStatus { url, status } => AssertionKind::HttpStatus {
            url: url.clone(),
            status: *status,
        },
        AssertionKind::PackageInstalled { package, manager, version_cmd } =>
            AssertionKind::PackageInstalled {
            package: package.clone(),
            manager: *manager,
            version_cmd: clone_opt(version_cmd),
        },
    }
}

fn is_confirmed(a: &ContractAssertion, evidence: &ProbeEvidence) -> (r: bool)
    ensures
        r == confirmed(a@, observed_ports(*evidence), string_views(evidence.running_processes@)),
{
    let ghost ports = observed_ports(*evidence);
    let ghost procs = string_views(evidence.running_processes@);
    match &a.kind {
        AssertionKind::PortListening { port, .. } => {
            let mut i: usize = 0;
            while i < evidence.listening_ports.len()
                invariant
                    i <= evidence.listening_ports@.len(),
                    ports == observed_ports(*evidence),
                    is_port_of(a@, *port),
                    forall|j: int| 0 <= j < i ==> (#[trigger] ports[j]).0 != *port,
                decreases evidence.listening_ports@.len() - i,
            {
                assert(ports[i as int].0 == evidence.listening_ports@[i as int].0);
                if evidence.listening_ports[i].0 == *port {
                    return true;
                }
                i += 1;
            }
            false
        },
        AssertionKind::ProcessRunning { name } => {
            let mut i: usize = 0;
            while i < evidence.running_processes.len()
                invariant
                    i <= evidence.running_processes@.len(),
                    procs == string_views(evidence.running_processes@),
                    a@.kind == (AssertionKindV::ProcessRunning { name: name@ }),
                    forall|j: int| 0 <= j < i ==> !contains(#[trigger] procs[j], name@),
                decreases evidence.running_processes@.len() - i,
            {
                assert(procs[i as int] == evidence.running_processes@[i as int]@);
                if contains_str(&chars_of(evidence.running_processes[i].as_str()), name.as_str()) {
                    return true;
                }
                i += 1;
            }
            false
        },
        _ => false,
    }
}

/// Merges probe evidence into the contract: confirmed port and process
/// assertions are raised to `High` (nothing is lowered or removed), and a
/// `High` assertion with source line `0` is appended for each observed port
/// that no assertion covers.
pub fn merge_evidence(contract: &mut RuntimeContract, evidence: &ProbeEvidence)
    ensures
        final(contract)@ == merged(old(contract)@, *evidence),
{
    let ghost c0 = contract@;
    let ghost ports = observed_ports(*evidence);
    let ghost procs = string_views(evidence.running_processes@);
    let ghost raised = c0.assertions.map_values(|a: AssertionV| raise(a, ports, procs));
    let n = contract.assertions.len();
    let mut i: usize = 0;
    assert(raised.subrange(0, 0) + c0.assertions.subrange(0, n as int) =~= c0.assertions);
    while i < n
        invariant
            n == contract.assertions@.len(),
            n == c0.assertions.len(),
            i <= n,
            ports == observed_ports(*evidence),
            procs == string_views(evidence.running_processes@),
            raised == c0.assertions.map_values(|a: AssertionV| raise(a, ports, procs)),
            contract@ == (ContractV {
                assertions: raised.subrange(0, i as int) + c0.assertions.subrange(i as int, n as int),
                ..c0
            }),
        decreases n - i,
    {
        let ghost before = assertions_view(contract.assertions@);
        assert(before[i as int] == c0.assertions[i as int]) by {
            assert(before == raised.subrange(0, i as int) + c0.assertions.subrange(i as int, n as int));
        }
        let a = &contract.assertions[i];
        assert(a@ == c0.assertions[i as int]);
        assert(raised[i as int] == raise(c0.assertions[i as int], ports, procs));
        if is_confirmed(a, evidence) {
            let na = ContractAssertion {
                kind: clone_kind(&a.kind),
                provenance: a.provenance.clone(),
                source_line: a.source_line,
                confidence: Confidence::High,
            };
            contract.assertions.set(i, na);
            assert(na@ == raise(c0.assertions[i as int], ports, procs));
            assert(assertions_view(contract.assertions@) =~= before.update(i as int, raised[i as int]));
        } else {
            assert(before =~= before.update(i as int, raised[i as int]));
        }
        assert(assertions_view(contract.assertions@) =~= raised.subrange(0, i + 1) + c0.assertions.subrange(
            i + 1,
            n as int,
        ));
        i += 1;
    }
    assert(raised.subrange(0, n as int) + c0.assertions.subrange(n as int, n as int) =~= raised);
    let mut k: usize = 0;
    while k < evidence.listening_ports.len()
        invariant
            k <= evidence.listening_ports@.len(),
            ports == observed_ports(*evidence),
            contract@ == (ContractV {
                assertions: add_discovered(raised, ports.subrange(0, k as int)),
                ..c0
            }),
        decreases evidence.listening_ports@.len() - k,
    {
        let ghost cur = assertions_view(contract.assertions@);
        let (port, ref proto) = evidence.listening_ports[k];
        assert(ports.subrange(0, k + 1).drop_last() =~= ports.subrange(0, k as int));
        assert(ports.subrange(0, k + 1).last() == (port, proto@));
        let mut exists_already = false;
        let mut j: usize = 0;
        while j < contract.assertions.len()
            invariant
                j <= contract.assertions@.len(),
                cur == assertions_view(contract.assertions@),
                exists_already == exists|m: int| 0 <= m < j && is_port_of(#[trigger] cur[m], port),
            decreases contract.assertions@.len() - j,
        {
            assert(cur[j as int] == contract.assertions@[j as int]@);
            match &contract.assertions[j].kind {
                AssertionKind::PortListening { port: p, .. } => {
                    if *p == port {
                        exists_already = true;
                    }
                },
                _ => {},
            }
            j += 1;
        }
        if !exists_already {
            let na = ContractAssertion {
                kind: AssertionKind::PortListening { protocol: proto.clone(), port },
                provenance: str_from("probe: discovered listening port"),
                source_line: 0,
                confidence: Confidence::High,
            };
            contract.assertions.push(na);
            assert(assertions_view(contract.assertions@) =~= cur.push(discovered(proto@, port)));
        }
        k += 1;
    }
    assert(ports.subrange(0, evidence.listening_ports@.len() as int) =~= ports);
}

} // verus!

verus! {

/// `--env` value `KEY=VALUE`: a non-empty key of ASCII letters, digits, `_` and `.`.
pub open spec fn valid_key_value(v: Seq<char>) -> bool {
    match crate::text::find_char(v, '=') {
        Some(k) => k > 0 && forall|j: int|
            0 <= j < k ==> (crate::text::is_ascii_alnum(#[trigger] v[j]) || v[j] == '_' || v[j]
                == '.'),
        None => false,
    }
}

pub open spec fn has_ws(s: Seq<char>) -> bool {
    exists|i: int| 0 <= i < s.len() && is_ws(#[trigger] s[i])
}

pub open spec fn run_arg_error(arg: Seq<char>, what: Seq<char>) -> Seq<char> {
    "invalid --run-arg '"@ + arg + "': "@ + what + "; use --unsafe-run-arg to bypass"@
}

pub open spec fn is_resource_flag(arg: Seq<char>) -> bool {
    starts_with(arg, "--cpus="@) || starts_with(arg, "--memory="@) || starts_with(
        arg,
        "--memory-swap="@,
    ) || starts_with(arg, "--cpuset-cpus="@) || starts_with(arg, "--cpuset-mems="@) || starts_with(
        arg,
        "--pids-limit="@,
    ) || starts_with(arg, "--ulimit="@) || starts_with(arg, "--tmpfs="@) || starts_with(
        arg,
        "--user="@,
    ) || starts_with(arg, "--workdir="@) || starts_with(arg, "--hostname="@) || starts_with(
        arg,
        "--shm-size="@,
    )
}

pub open spec fn after(arg: Seq<char>, flag: Seq<char>) -> Seq<char> {
    arg.subrange(flag.len() as int, arg.len() as int)
}

/// The safe-mode verdict on one extra run argument: `None` when allowed, else the message.
pub open spec fn run_arg_verdict(arg: Seq<char>) -> Option<Seq<char>> {
    if has_ws(arg) {
        Some(
            run_arg_error(arg, "only single-token flags are accepted in safe mode"@),
        )
    } else if arg == "--read-only"@ || arg == "--init"@ {
        None
    } else if starts_with(arg, "--env="@) {
        if valid_key_value(after(arg, "--env="@)) {
            None
        } else {
            Some(run_arg_error(arg, "expected --env=KEY=VALUE format"@))
        }
    } else if starts_with(arg, "--env-file="@) {
        let v = after(arg, "--env-file="@);
        if v.len() > 0 && !starts_with(v, "/"@) && !starts_with(v, ".."@) {
            None
        } else {
            Some(run_arg_error(arg, "unsafe --env-file path"@))
        }
    } else if is_resource_flag(arg) {
        None
    } else if starts_with(arg, "--security-opt="@) {
        let v = after(arg, "--security-opt="@);
        if v == "no-new-privileges"@ || v == "no-new-privileges:true"@ {
            None
        } else {
            Some(
                run_arg_error(
                    arg,
                    "only --security-opt=no-new-privileges is allowed in safe mode"@,
                ),
            )
        }
    } else if arg == "--ipc=private"@ {
        None
    } else {
        Some(
            "blocked --run-arg '"@ + arg
                + "': not allowlisted in safe mode; use --unsafe-run-arg to bypass"@,
        )
    }
}

/// The first safe-mode message among the arguments, if any.
pub open spec fn first_run_arg_error(args: Seq<Seq<char>>) -> Option<Seq<char>>
    decreases args.len(),
{
    if args.len() == 0 {
        None
    } else {
        match first_run_arg_error(args.drop_last()) {
            Some(e) => Some(e),
            None => run_arg_verdict(args.last()),
        }
    }
}

fn is_valid_key_value(value: &Vec<char>) -> (r: bool)
    ensures
        r == valid_key_value(value@),
{
    match crate::text::find_char_from(value, 0, '=') {
        Some(k) => {
            assert(value@.subrange(0, value@.len() as int) =~= value@);
            if k == 0 {
                return false;
            }
            let mut j: usize = 0;
            while j < k
                invariant
                    j <= k < value@.len(),
                    crate::text::find_char(value@.subrange(0, value@.len() as int), '=') == Some(
                        k as int,
                    ),
                    value@.subrange(0, value@.len() as int) == value@,
                    forall|m: int|
                        0 <= m < j ==> (crate::text::is_ascii_alnum(#[trigger] value@[m])
                            || value@[m] == '_' || value@[m] == '.'),
                decreases k - j,
            {
                let c = value[j];
                if !(crate::text::is_alnum_char(c) || c == '_' || c == '.') {
                    assert(!(crate::text::is_ascii_alnum(value@[j as int]) || value@[j as int] == '_'
                        || value@[j as int] == '.'));
                    return false;
                }
                j += 1;
            }
            true
        },
        None => {
            assert(value@.subrange(0, value@.len() as int) =~= value@);
            false
        },
    }
}

fn invalid_run_arg(arg: &str, what: &str) -> (r: String)
    ensures
        r@ == run_arg_error(arg@, what@),
{
    let mut e = str_from("invalid --run-arg '");
    push_str(&mut e, arg);
    push_str(&mut e, "': ");
    push_str(&mut e, what);
    push_str(&mut e, "; use --unsafe-run-arg to bypass");
    e
}

fn after_flag(v: &Vec<char>, flag: &str) -> (r: Vec<char>)
    requires
        starts_with(v@, flag@),
    ensures
        r@ == after(v@, flag@),
{
    let n = chars_of(flag).len();
    slice_chars(v, n, v.len())
}

/// The safe-mode check of one extra run argument.
fn validate_single_run_arg(arg: &str) -> (r: Result<(), String>)
    ensures
        match r {
            Ok(_) => run_arg_verdict(arg@) is None,
            Err(e) => run_arg_verdict(arg@) == Some(e@),
        },
{
    let v = chars_of(arg);
    let mut i: usize = 0;
    while i < v.len()
        invariant
            i <= v@.len(),
            v@ == arg@,
            forall|j: int| 0 <= j < i ==> !is_ws(#[trigger] v@[j]),
        decreases v@.len() - i,
    {
        if crate::text::is_ws_char(v[i]) {
            return Err(invalid_run_arg(arg, "only single-token flags are accepted in safe mode"));
        }
        i += 1;
    }
    if str_eq_chars("--read-only", &v) || str_eq_chars("--init", &v) {
        return Ok(());
    }
    if starts_with_str(&v, "--env=") {
        if is_valid_key_value(&after_flag(&v, "--env=")) {
            return Ok(());
        }
        return Err(invalid_run_arg(arg, "expected --env=KEY=VALUE format"));
    }
    if starts_with_str(&v, "--env-file=") {
        let value = after_flag(&v, "--env-file=");
        if value.len() > 0 && !starts_with_str(&value, "/") && !starts_with_str(&value, "..") {
            return Ok(());
        }
        return Err(invalid_run_arg(arg, "unsafe --env-file path"));
    }
    if starts_with_str(&v, "--cpus=") || starts_with_str(&v, "--memory=") || starts_with_str(
        &v,
        "--memory-swap=",
    ) || starts_with_str(&v, "--cpuset-cpus=") || starts_with_str(&v, "--cpuset-mems=")
        || starts_with_str(&v, "--pids-limit=") || starts_with_str(&v, "--ulimit=")
        || starts_with_str(&v, "--tmpfs=") || starts_with_str(&v, "--user=") || starts_with_str(
        &v,
        "--workdir=",
    ) || starts_with_str(&v, "--hostname=") || starts_with_str(&v, "--shm-size=") {
        return Ok(());
    }
    if starts_with_str(&v, "--security-opt=") {
        let value = after_flag(&v, "--security-opt=");
        if str_eq_chars("no-new-privileges", &value) || str_eq_chars(
            "no-new-privileges:true",
            &value,
        ) {
            return Ok(());
        }
        return Err(
            invalid_run_arg(arg, "only --security-opt=no-new-privileges is allowed in safe mode"),
        );
    }
    if str_eq_chars("--ipc=private", &v) {
        return Ok(());
    }
    let mut e = str_from("blocked --run-arg '");
    push_str(&mut e, arg);
    push_str(&mut e, "': not allowlisted in safe mode; use --unsafe-run-arg to bypass");
    Err(e)
}

/// Extra run arguments in safe mode: allowed unless `allow_unsafe`, otherwise the
/// first argument off the allow-list gives its message.
pub fn validate_run_args(run_args: &[String], allow_unsafe: bool) -> (r: Result<(), String>)
    ensures
        allow_unsafe ==> r is Ok,
        !allow_unsafe ==> match r {
            Ok(_) => first_run_arg_error(string_views(run_args@)) is None,
            Err(e) => first_run_arg_error(string_views(run_args@)) == Some(e@),
        },
{
    if allow_unsafe {
        return Ok(());
    }
    let ghost av = string_views(run_args@);
    let mut i: usize = 0;
    while i < run_args.len()
        invariant
            i <= run_args@.len(),
            !allow_unsafe,
            av == string_views(run_args@),
            first_run_arg_error(av.subrange(0, i as int)) is None,
        decreases run_args@.len() - i,
    {
        assert(av.subrange(0, i + 1).drop_last() =~= av.subrange(0, i as int));
        assert(av.subrange(0, i + 1).last() == run_args@[i as int]@);
        match validate_single_run_arg(run_args[i].as_str()) {
            Ok(_) => {},
            Err(e) => {
                proof {
                    lemma_first_error_prefix(av, i as int + 1);
                }
                return Err(e);
            },
        }
        i += 1;
    }
    assert(av.subrange(0, run_args@.len() as int) =~= av);
    Ok(())
}

proof fn lemma_first_error_prefix(args: Seq<Seq<char>>, k: int)
    requires
        0 <= k <= args.len(),
        first_run_arg_error(args.subrange(0, k)) is Some,
    ensures
        first_run_arg_error(args) == first_run_arg_error(args.subrange(0, k)),
    decreases args.len() - k,
{
    if k < args.len() {
        lemma_first_error_prefix_step(args, k);
        lemma_first_error_prefix(args, k + 1);
    } else {
        assert(args.subrange(0, k) =~= args);
    }
}

proof fn lemma_first_error_prefix_step(args: Seq<Seq<char>>, k: int)
    requires
        0 <= k < args.len(),
        first_run_arg_error(args.subrange(0, k)) is Some,
    ensures
        first_run_arg_error(args.subrange(0, k + 1)) == first_run_arg_error(args.subrange(0, k)),
{
    assert(args.subrange(0, k + 1).drop_last() =~= args.subrange(0, k));
}

/// Index of the last `:` of `s`, if any.
pub open spec fn last_colon(s: Seq<char>) -> Option<int>
    decreases s.len(),
{
    if s.len() == 0 {
        None
    } else if s.last() == ':' {
        Some(s.len() - 1)
    } else {
        last_colon(s.drop_last())
    }
}

/// The port of one line of `ss -tlnp`: the part after the last `:` of the
/// fourth field, when it is a port number.
pub open spec fn ss_port(line: Seq<char>) -> Option<u16> {
    let parts = words(line);
    if parts.len() >= 4 {
        match last_colon(parts[3]) {
            Some(c) => match parse_unsigned(parts[3].subrange(c + 1, parts[3].len() as int), 65535) {
                Some(p) => Some(p as u16),
                None => None,
            },
            None => None,
        }
    } else {
        None
    }
}

/// Reads the local port of one line of `ss -tlnp` output.
pub fn parse_ss_port(line: &str) -> (r: Option<u16>)
    ensures
        r == ss_port(line@),
{
    let parts = split_words(&chars_of(line));
    if parts.len() < 4 {
        return None;
    }
    let addr = &parts[3];
    assert(views(parts@)[3] == addr@);
    let mut j: usize = addr.len();
    assert(addr@.subrange(0, j as int) =~= addr@);
    while j > 0 && addr[j - 1] != ':'
        invariant
            j <= addr@.len(),
            last_colon(addr@) == last_colon(addr@.subrange(0, j as int)),
        decreases j,
    {
        assert(addr@.subrange(0, j as int).drop_last() =~= addr@.subrange(0, j - 1));
        j -= 1;
    }
    if j == 0 {
        assert(addr@.subrange(0, 0) =~= Seq::<char>::empty());
        return None;
    }
    assert(last_colon(addr@.subrange(0, j as int)) == Some(j - 1));
    let tail = slice_chars(addr, j, addr.len());
    match parse_unsigned_exec(&tail, 65535) {
        Some(p) => Some(p as u16),
        None => None,
    }
}

} // verus!

verus! {

/// Which artefacts of a probe run exist, so that the front-end can remove
/// them when the run ends, whatever happened.
#[derive(Debug)]
pub struct ProbeCleanup {
    pub runtime: String,
    pub container_name: String,
    pub image_tag: String,
    pub container_created: std::sync::atomic::AtomicBool,
    pub image_created: std::sync::atomic::AtomicBool,
}

impl ProbeCleanup {
    pub fn new(runtime: String, container_name: String, image_tag: String) -> (r: Self)
        ensures
            r.runtime == runtime,
            r.container_name == container_name,
            r.image_tag == image_tag,
    {
        ProbeCleanup {
            runtime,
            container_name,
            image_tag,
            container_created: std::sync::atomic::AtomicBool::new(false),
            image_created: std::sync::atomic::AtomicBool::new(false),
        }
    }

    /// Records that the container exists.
    pub fn mark_container_created(&self) {
        self.container_created.store(true, std::sync::atomic::Ordering::Relaxed);
    }

    /// Records that the image exists.
    pub fn mark_image_created(&self) {
        self.image_created.store(true, std::sync::atomic::Ordering::Relaxed);
    }

    /// Whether the container was recorded as created.
    pub fn container_created(&self) -> bool {
        self.container_created.load(std::sync::atomic::Ordering::Relaxed)
    }

    /// Whether the image was recorded as created.
    pub fn image_created(&self) -> bool {
        self.image_created.load(std::sync::atomic::Ordering::Relaxed)
    }
}

} // verus!

verus! {

/// The lines of a command's output after its header line.
pub open spec fn body_lines(text: Seq<char>) -> Seq<Seq<char>> {
    let ls = crate::parser::lines(text);
    if ls.len() > 0 {
        ls.subrange(1, ls.len() as int)
    } else {
        ls
    }
}

/// The command field (the eleventh) of each `ps aux` line that has one.
pub open spec fn ps_commands(ls: Seq<Seq<char>>) -> Seq<Seq<char>>
    decreases ls.len(),
{
    if ls.len() == 0 {
        seq![]
    } else {
        let r = ps_commands(ls.drop_last());
        let w = words(ls.last());
        if w.len() >= 11 {
            r.push(w[10])
        } else {
            r
        }
    }
}

/// The local ports of the `ss -tlnp` lines that have one.
pub open spec fn ss_ports_of(ls: Seq<Seq<char>>) -> Seq<u16>
    decreases ls.len(),
{
    if ls.len() == 0 {
        seq![]
    } else {
        let r = ss_ports_of(ls.drop_last());
        match ss_port(ls.last()) {
            Some(p) => r.push(p),
            None => r,
        }
    }
}

/// The `KEY=VALUE` lines of `env` output, split at the first `=`.
pub open spec fn env_of(ls: Seq<Seq<char>>) -> Seq<(Seq<char>, Seq<char>)>
    decreases ls.len(),
{
    if ls.len() == 0 {
        seq![]
    } else {
        let r = env_of(ls.drop_last());
        let l = ls.last();
        match crate::text::find_char(l, '=') {
            Some(k) => r.push((l.subrange(0, k), l.subrange(k + 1, l.len() as int))),
            None => r,
        }
    }
}

/// The running commands listed by `ps aux` output.
pub fn process_names(text: &str) -> (r: Vec<String>)
    ensures
        string_views(r@) == ps_commands(body_lines(text@)),
{
    let ls = crate::parser::split_lines(&chars_of(text));
    let ghost lv = views(ls@);
    let start: usize = if ls.len() > 0 { 1 } else { 0 };
    let mut out: Vec<String> = Vec::new();
    let mut i: usize = start;
    assert(lv.subrange(start as int, start as int) =~= Seq::<Seq<char>>::empty());
    while i < ls.len()
        invariant
            start <= i <= ls@.len(),
            lv == views(ls@),
            string_views(out@) == ps_commands(lv.subrange(start as int, i as int)),
        decreases ls@.len() - i,
    {
        assert(lv.subrange(start as int, i + 1).drop_last() =~= lv.subrange(start as int, i as int));
        assert(lv.subrange(start as int, i + 1).last() == ls@[i as int]@);
        let w = split_words(&ls[i]);
        if w.len() >= 11 {
            let ghost o0 = string_views(out@);
            let c = crate::text::string_of(&w[10]);
            assert(views(w@)[10] == w@[10]@);
            out.push(c);
            assert(string_views(out@) =~= o0.push(c@));
        }
        i += 1;
    }
    assert(lv.subrange(start as int, ls@.len() as int) =~= body_lines(text@));
    out
}

/// The listening ports of `ss -tlnp` output.
pub fn listening_ports(text: &str) -> (r: Vec<u16>)
    ensures
        r@ == ss_ports_of(body_lines(text@)),
{
    let ls = crate::parser::split_lines(&chars_of(text));
    let ghost lv = views(ls@);
    let start: usize = if ls.len() > 0 { 1 } else { 0 };
    let mut out: Vec<u16> = Vec::new();
    let mut i: usize = start;
    assert(lv.subrange(start as int, start as int) =~= Seq::<Seq<char>>::empty());
    while i < ls.len()
        invariant
            start <= i <= ls@.len(),
            lv == views(ls@),
            out@ == ss_ports_of(lv.subrange(start as int, i as int)),
        decreases ls@.len() - i,
    {
        assert(lv.subrange(start as int, i + 1).drop_last() =~= lv.subrange(start as int, i as int));
        assert(lv.subrange(start as int, i + 1).last() == ls@[i as int]@);
        let line = crate::text::string_of(&ls[i]);
        match parse_ss_port(line.as_str()) {
            Some(p) => out.push(p),
            None => {},
        }
        i += 1;
    }
    assert(lv.subrange(start as int, ls@.len() as int) =~= body_lines(text@));
    out
}

/// The variables of `env` output.
pub fn env_vars_of(text: &str) -> (r: Vec<(String, String)>)
    ensures
        crate::parser::ast::pairs_view(r@) == env_of(crate::parser::lines(text@)),
{
    let ls = crate::parser::split_lines(&chars_of(text));
    let ghost lv = views(ls@);
    let mut out: Vec<(String, String)> = Vec::new();
    let mut i: usize = 0;
    while i < ls.len()
        invariant
            i <= ls@.len(),
            lv == views(ls@),
            crate::parser::ast::pairs_view(out@) == env_of(lv.subrange(0, i as int)),
        decreases ls@.len() - i,
    {
        assert(lv.subrange(0, i + 1).drop_last() =~= lv.subrange(0, i as int));
        assert(lv.subrange(0, i + 1).last() == ls@[i as int]@);
        let l = &ls[i];
        assert(l@.subrange(0, l@.len() as int) =~= l@);
        match crate::text::find_char_from(l, 0, '=') {
            Some(k) => {
                let ghost o0 = crate::parser::ast::pairs_view(out@);
                let key = crate::text::string_of(&slice_chars(l, 0, k));
                let val = crate::text::string_of(&slice_chars(l, k + 1, l.len()));
                out.push((key, val));
                assert(crate::parser::ast::pairs_view(out@) =~= o0.push((key@, val@)));
            },
            None => {},
        }
        i += 1;
    }
    assert(lv.subrange(0, ls@.len() as int) =~= lv);
    out
}

} // verus!
