//! The Runtime Contract Model (RCM): what a container should exhibit at runtime.
use vstd::prelude::*;
use crate::Confidence;
use crate::parser::ast::{
    CommandForm, CommandFormV, PortSpec, PortV, opt_view, pairs_view, ports_view,
};
use crate::text::string_views;

verus! {

/// Everything known about the container's expected runtime behaviour.
#[derive(Debug, Clone)]
pub struct RuntimeContract {
    /// Base image of the target stage.
    pub base_image: String,
    /// Working directory.
    pub workdir: Option<String>,
    /// Runtime user.
    pub user: Option<String>,
    /// Environment variables, in source order.
    pub env: Vec<(String, String)>,
    /// Exposed ports, in source order, duplicates kept.
    pub exposed_ports: Vec<PortSpec>,
    /// Declared volumes.
    pub volumes: Vec<String>,
    /// The `ENTRYPOINT` command.
    pub entrypoint: Option<CommandForm>,
    /// The `CMD` command.
    pub cmd: Option<CommandForm>,
    /// Healthcheck configuration.
    pub healthcheck: Option<HealthcheckInfo>,
    /// Filesystem paths that should exist.
    pub filesystem_paths: Vec<String>,
    /// Detected installed components.
    pub installed_components: Vec<InstalledComponent>,
    /// All assertions, in the order they were produced.
    pub assertions: Vec<ContractAssertion>,
}

/// Healthcheck details from the recipe.
#[derive(Debug, Clone)]
pub struct HealthcheckInfo {
    pub cmd: CommandForm,
    pub interval: Option<String>,
    pub timeout: Option<String>,
    pub start_period: Option<String>,
    pub retries: Option<u32>,
}

/// A detected installed component.
#[derive(Debug, Clone)]
pub struct InstalledComponent {
    pub name: String,
    pub kind: ComponentKind,
    pub source_line: usize,
}

/// Kind of installed component.
#[derive(Debug, Clone, Copy, PartialEq, Eq, Structural)]
pub enum ComponentKind {
    WebServer,
    Runtime,
    Database,
    Tool,
    Package,
}

/// One testable claim with its provenance and confidence.
#[derive(Debug, Clone)]
pub struct ContractAssertion {
    /// What to assert.
    pub kind: AssertionKind,
    /// The instruction it was derived from (e.g. `EXPOSE 8080`).
    pub provenance: String,
    /// Source line in the recipe; `0` marks a synthetic assertion.
    pub source_line: usize,
    /// Confidence level.
    pub confidence: Confidence,
}

/// Kinds of assertions.
#[derive(Debug, Clone)]
pub enum AssertionKind {
    FileExists { path: String, filetype: Option<String>, mode: Option<String> },
    PortListening { protocol: String, port: u16 },
    ProcessRunning { name: String },
    CommandExit { command: String, exit_status: i32 },
    CommandOutput { command: String, exit_status: i32, expected_output: Vec<String> },
    UserExists { username: String },
    HealthcheckPasses { command: String },
    HttpStatus { url: String, status: u16 },
    /// A package that should be installed, checked through its package manager.
    PackageInstalled { package: String, manager: PackageManager, version_cmd: Option<String> },
}

/// Package managers whose installs become assertions.
#[derive(Debug, Clone, Copy, PartialEq, Eq, Structural)]
pub enum PackageManager {
    Apt,
    Apk,
    Pip,
    Npm,
    Composer,
}

pub enum AssertionKindV {
    FileExists { path: Seq<char>, filetype: Option<Seq<char>>, mode: Option<Seq<char>> },
    PortListening { protocol: Seq<char>, port: u16 },
    ProcessRunning { name: Seq<char> },
    CommandExit { command: Seq<char>, exit_status: i32 },
    CommandOutput { command: Seq<char>, exit_status: i32, expected_output: Seq<Seq<char>> },
    UserExists { username: Seq<char> },
    HealthcheckPasses { command: Seq<char> },
    HttpStatus { url: Seq<char>, status: u16 },
    PackageInstalled {
        package: Seq<char>,
        manager: PackageManager,
        version_cmd: Option<Seq<char>>,
    },
}

pub struct AssertionV {
    pub kind: AssertionKindV,
    pub provenance: Seq<char>,
    pub source_line: nat,
    pub confidence: Confidence,
}

pub struct ComponentV {
    pub name: Seq<char>,
    pub kind: ComponentKind,
    pub source_line: nat,
}

pub struct HealthV {
    pub cmd: CommandFormV,
    pub interval: Option<Seq<char>>,
    pub timeout: Option<Seq<char>>,
    pub start_period: Option<Seq<char>>,
    pub retries: Option<u32>,
}

pub struct ContractV {
    pub base_image: Seq<char>,
    pub workdir: Option<Seq<char>>,
    pub user: Option<Seq<char>>,
    pub env: Seq<(Seq<char>, Seq<char>)>,
    pub exposed_ports: Seq<PortV>,
    pub volumes: Seq<Seq<char>>,
    pub entrypoint: Option<CommandFormV>,
    pub cmd: Option<CommandFormV>,
    pub healthcheck: Option<HealthV>,
    pub filesystem_paths: Seq<Seq<char>>,
    pub installed_components: Seq<ComponentV>,
    pub assertions: Seq<AssertionV>,
}

impl View for AssertionKind {
    type V = AssertionKindV;

    open spec fn view(&self) -> AssertionKindV {
        match self {
            AssertionKind::FileExists { path, filetype, mode } => AssertionKindV::FileExists {
                path: path@,
                filetype: opt_view(*filetype),
                mode: opt_view(*mode),
            },
            AssertionKind::PortListening { protocol, port } => AssertionKindV::PortListening {
                protocol: protocol@,
                port: *port,
            },
            AssertionKind::ProcessRunning { name } => AssertionKindV::ProcessRunning {
                name: name@,
            },
            AssertionKind::CommandExit { command, exit_status } => AssertionKindV::CommandExit {
                command: command@,
                exit_status: *exit_status,
            },
            AssertionKind::CommandOutput { command, exit_status, expected_output } =>
                AssertionKindV::CommandOutput {
                command: command@,
                exit_status: *exit_status,
                expected_output: string_views(expected_output@),
            },
            AssertionKind::UserExists { username } => AssertionKindV::UserExists {
                username: username@,
            },
            AssertionKind::HealthcheckPasses { command } => AssertionKindV::HealthcheckPasses {
                command: command@,
            },
            AssertionKind::HttpStatus { url, status } => AssertionKindV::HttpStatus {
                url: url@,
                status: *status,
            },
            AssertionKind::PackageInstalled { package, manager, version_cmd } =>
                AssertionKindV::PackageInstalled {
                package: package@,
                manager: *manager,
                version_cmd: opt_view(*version_cmd),
            },
        }
    }
}

impl View for ContractAssertion {
    type V = AssertionV;

    open spec fn view(&self) -> AssertionV {
        AssertionV {
            kind: self.kind@,
            provenance: self.provenance@,
            source_line: self.source_line as nat,
            confidence: self.confidence,
        }
    }
}

pub open spec fn assertions_view(v: Seq<ContractAssertion>) -> Seq<AssertionV> {
    v.map_values(|a: ContractAssertion| a@)
}

impl View for InstalledComponent {
    type V = ComponentV;

    open spec fn view(&self) -> ComponentV {
        ComponentV { name: self.name@, kind: self.kind, source_line: self.source_line as nat }
    }
}

pub open spec fn components_view(v: Seq<InstalledComponent>) -> Seq<ComponentV> {
    v.map_values(|c: InstalledComponent| c@)
}

impl View for HealthcheckInfo {
    type V = HealthV;

    open spec fn view(&self) -> HealthV {
        HealthV {
            cmd: self.cmd@,
            interval: opt_view(self.interval),
            timeout: opt_view(self.timeout),
            start_period: opt_view(self.start_period),
            retries: self.retries,
        }
    }
}

pub open spec fn form_opt_view(o: Option<CommandForm>) -> Option<CommandFormV> {
    match o {
        Some(c) => Some(c@),
        None => None,
    }
}

pub open spec fn health_opt_view(o: Option<HealthcheckInfo>) -> Option<HealthV> {
    match o {
        Some(h) => Some(h@),
        None => None,
    }
}

impl View for RuntimeContract {
    type V = ContractV;

    open spec fn view(&self) -> ContractV {
        ContractV {
            base_image: self.base_image@,
            workdir: opt_view(self.workdir),
            user: opt_view(self.user),
            env: pairs_view(self.env@),
            exposed_ports: ports_view(self.exposed_ports@),
            volumes: string_views(self.volumes@),
            entrypoint: form_opt_view(self.entrypoint),
            cmd: form_opt_view(self.cmd),
            healthcheck: health_opt_view(self.healthcheck),
            filesystem_paths: string_views(self.filesystem_paths@),
            installed_components: components_view(self.installed_components@),
            assertions: assertions_view(self.assertions@),
        }
    }
}

/// The model of a recipe with nothing in it.
pub open spec fn empty_contract() -> ContractV {
    ContractV {
        base_image: seq![],
        workdir: None,
        user: None,
        env: seq![],
        exposed_ports: seq![],
        volumes: seq![],
        entrypoint: None,
        cmd: None,
        healthcheck: None,
        filesystem_paths: seq![],
        installed_components: seq![],
        assertions: seq![],
    }
}

impl Default for RuntimeContract {
    fn default() -> (r: RuntimeContract)
        ensures
            r@ == empty_contract(),
    {
        let r = RuntimeContract {
            base_image: String::new(),
            workdir: None,
            user: None,
            env: Vec::new(),
            exposed_ports: Vec::new(),
            volumes: Vec::new(),
            entrypoint: None,
            cmd: None,
            healthcheck: None,
            filesystem_paths: Vec::new(),
            installed_components: Vec::new(),
            assertions: Vec::new(),
        };
        assert(r@.env =~= Seq::<(Seq<char>, Seq<char>)>::empty());
        assert(r@.exposed_ports =~= Seq::<PortV>::empty());
        assert(r@.volumes =~= Seq::<Seq<char>>::empty());
        assert(r@.filesystem_paths =~= Seq::<Seq<char>>::empty());
        assert(r@.installed_components =~= Seq::<ComponentV>::empty());
        assert(r@.assertions =~= Seq::<AssertionV>::empty());
        r
    }
}

impl ContractAssertion {
    pub fn new(kind: AssertionKind, provenance: &str, source_line: usize, confidence: Confidence) -> (r: Self)
        ensures
            r@ == (AssertionV { kind: kind@, provenance: provenance@, source_line: source_line as nat, confidence }),
    {
        ContractAssertion { kind, provenance: crate::text::str_from(provenance), source_line, confidence }
    }
}

/// Whether a binary name is a shell interpreter, by its last `/`-separated part.
pub open spec fn is_shell_name(name: Seq<char>) -> bool {
    let base = crate::parser::ast::after_last_slash(name);
    base == "sh"@ || base == "bash"@ || base == "dash"@ || base == "zsh"@ || base == "ash"@
}

pub fn is_shell_interpreter(name: &str) -> (r: bool)
    ensures
        r == is_shell_name(name@),
{
    let v = crate::text::chars_of(name);
    let mut j: usize = v.len();
    let ghost t = v@;
    assert(t.subrange(0, j as int) =~= t);
    assert(t.subrange(j as int, j as int) =~= Seq::<char>::empty());
    while j > 0 && v[j - 1] != '/'
        invariant
            j <= t.len(),
            t == v@,
            crate::parser::ast::after_last_slash(t) == crate::parser::ast::after_last_slash(t.subrange(0, j as int)) + t.subrange(
                j as int,
                t.len() as int,
            ),
        decreases j,
    {
        proof {
            let u = t.subrange(0, j as int);
            assert(u.drop_last() =~= t.subrange(0, j - 1));
            assert(crate::parser::ast::after_last_slash(u) == crate::parser::ast::after_last_slash(t.subrange(0, j - 1)).push(t[j - 1]));
            assert(crate::parser::ast::after_last_slash(t.subrange(0, j - 1)).push(t[j - 1]) + t.subrange(j as int, t.len() as int)
                =~= crate::parser::ast::after_last_slash(t.subrange(0, j - 1)) + t.subrange(j - 1, t.len() as int));
        }
        j -= 1;
    }
    proof {
        let u = t.subrange(0, j as int);
        if j > 0 {
            assert(u.last() == '/');
        }
        assert(crate::parser::ast::after_last_slash(u) =~= Seq::<char>::empty());
    }
    let base = crate::text::slice_chars(&v, j, v.len());
    assert(base@ =~= crate::parser::ast::after_last_slash(t));
    crate::text::str_eq_chars("sh", &base) || crate::text::str_eq_chars("bash", &base)
        || crate::text::str_eq_chars("dash", &base) || crate::text::str_eq_chars("zsh", &base)
        || crate::text::str_eq_chars("ash", &base)
}

} // verus!
