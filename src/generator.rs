//! The emitter: filters the contract by confidence and policy, maps assertions
//! to resources, de-duplicates them and renders the main and wait documents.
pub mod render;

pub use render::{render_goss, render_goss_wait, render_goss_wait_minimal, yaml_escape_key};

use vstd::prelude::*;
use crate::{Confidence, Profile};
use crate::config::{PolicyConfig, ports_enabled, process_enabled};
use crate::extractor::model::{
    AssertionKindV, AssertionV, AssertionKind, ContractAssertion, ContractV, RuntimeContract,
    assertions_view,
};
use crate::parser::ast::{clone_opt, clone_strings, opt_view};
use crate::text::{push_str, str_from, string_views};

verus! {

/// A typed resource of an emitted document.
#[derive(Debug, Clone)]
pub enum GossResource {
    File {
        path: String,
        exists: bool,
        filetype: Option<String>,
        mode: Option<String>,
        provenance: String,
        confidence: Confidence,
    },
    Port { address: String, listening: bool, provenance: String, confidence: Confidence },
    Process { name: String, running: bool, provenance: String, confidence: Confidence },
    Command {
        name: String,
        command: String,
        exit_status: i32,
        timeout: i32,
        provenance: String,
        confidence: Confidence,
    },
    CommandWithOutput {
        name: String,
        command: String,
        exit_status: i32,
        stdout: Vec<String>,
        timeout: i32,
        provenance: String,
        confidence: Confidence,
    },
    Http { url: String, status: u16, provenance: String, confidence: Confidence },
}

pub enum GossV {
    File {
        path: Seq<char>,
        exists: bool,
        filetype: Option<Seq<char>>,
        mode: Option<Seq<char>>,
        provenance: Seq<char>,
        confidence: Confidence,
    },
    Port { address: Seq<char>, listening: bool, provenance: Seq<char>, confidence: Confidence },
    Process { name: Seq<char>, running: bool, provenance: Seq<char>, confidence: Confidence },
    Command {
        name: Seq<char>,
        command: Seq<char>,
        exit_status: i32,
        timeout: i32,
        provenance: Seq<char>,
        confidence: Confidence,
    },
    CommandWithOutput {
        name: Seq<char>,
        command: Seq<char>,
        exit_status: i32,
        stdout: Seq<Seq<char>>,
        timeout: i32,
        provenance: Seq<char>,
        confidence: Confidence,
    },
    Http { url: Seq<char>, status: u16, provenance: Seq<char>, confidence: Confidence },
}

impl View for GossResource {
    type V = GossV;

    open spec fn view(&self) -> GossV {
        match self {
            GossResource::File { path, exists, filetype, mode, provenance, confidence } =>
                GossV::File {
                path: path@,
                exists: *exists,
                filetype: opt_view(*filetype),
                mode: opt_view(*mode),
                provenance: provenance@,
                confidence: *confidence,
            },
            GossResource::Port { address, listening, provenance, confidence } => GossV::Port {
                address: address@,
                listening: *listening,
                provenance: provenance@,
                confidence: *confidence,
            },
            GossResource::Process { name, running, provenance, confidence } => GossV::Process {
                name: name@,
                running: *running,
                provenance: provenance@,
                confidence: *confidence,
            },
            GossResource::Command { name, command, exit_status, timeout, provenance, confidence } =>
                GossV::Command {
                name: name@,
                command: command@,
                exit_status: *exit_status,
                timeout: *timeout,
                provenance: provenance@,
                confidence: *confidence,
            },
            GossResource::CommandWithOutput {
                name,
                command,
                exit_status,
                stdout,
                timeout,
                provenance,
                confidence,
            } => GossV::CommandWithOutput {
                name: name@,
                command: command@,
                exit_status: *exit_status,
                stdout: string_views(stdout@),
                timeout: *timeout,
                provenance: provenance@,
                confidence: *confidence,
            },
            GossResource::Http { url, status, provenance, confidence } => GossV::Http {
                url: url@,
                status: *status,
                provenance: provenance@,
                confidence: *confidence,
            },
        }
    }
}

pub open spec fn resources_view(v: Seq<GossResource>) -> Seq<GossV> {
    v.map_values(|g: GossResource| g@)
}

/// The identity key under which resources of one document are merged.
pub open spec fn key_of(g: GossV) -> Seq<char> {
    match g {
        GossV::File { path, .. } => "file:"@ + path,
        GossV::Port { address, .. } => "port:"@ + address,
        GossV::Process { name, .. } => "process:"@ + name,
        GossV::Command { name, .. } => "command:"@ + name,
        GossV::CommandWithOutput { name, .. } => "command:"@ + name,
        GossV::Http { url, .. } => "http:"@ + url,
    }
}

pub fn clone_resource(g: &GossResource) -> (r: GossResource)
    ensures
        r@ == g@,
{
    match g {
        GossResource::File { path, exists, filetype, mode, provenance, confidence } =>
            GossResource::File {
            path: path.clone(),
            exists: *exists,
            filetype: clone_opt(filetype),
            mode: clone_opt(mode),
            provenance: provenance.clone(),
            confidence: *confidence,
        },
        GossResource::Port { address, listening, provenance, confidence } => GossResource::Port {
            address: address.clone(),
            listening: *listening,
            provenance: provenance.clone(),
            confidence: *confidence,
        },
        GossResource::Process { name, running, provenance, confidence } => GossResource::Process {
            name: name.clone(),
            running: *running,
            provenance: provenance.clone(),
            confidence: *confidence,
        },
        GossResource::Command { name, command, exit_status, timeout, provenance, confidence } =>
            GossResource::Command {
            name: name.clone(),
            command: command.clone(),
            exit_status: *exit_status,
            timeout: *timeout,
            provenance: provenance.clone(),
            confidence: *confidence,
        },
        GossResource::CommandWithOutput {
            name,
            command,
            exit_status,
            stdout,
            timeout,
            provenance,
            confidence,
        } => GossResource::CommandWithOutput {
            name: name.clone(),
            command: command.clone(),
            exit_status: *exit_status,
            stdout: clone_strings(stdout),
            timeout: *timeout,
            provenance: provenance.clone(),
            confidence: *confidence,
        },
        GossResource::Http { url, status, provenance, confidence } => GossResource::Http {
            url: url.clone(),
            status: *status,
            provenance: provenance.clone(),
            confidence: *confidence,
        },
    }
}

impl GossResource {
    /// The key under which resources of one document are merged.
    pub fn identity_key(&self) -> (r: String)
        ensures
            r@ == key_of(self@),
    {
        let (prefix, rest) = match self {
            GossResource::File { path, .. } => ("file:", path),
            GossResource::Port { address, .. } => ("port:", address),
            GossResource::Process { name, .. } => ("process:", name),
            GossResource::Command { name, .. } => ("command:", name),
            GossResource::CommandWithOutput { name, .. } => ("command:", name),
            GossResource::Http { url, .. } => ("http:", url),
        };
        let mut k = str_from(prefix);
        push_str(&mut k, rest.as_str());
        k
    }
}

} // verus!

verus! {

// ---------------------------------------------------------------------------
// Names and shell text
// ---------------------------------------------------------------------------

pub open spec fn slug_char(c: char) -> char {
    if crate::text::is_ascii_alnum(c) || c == '-' || c == '_' {
        c
    } else {
        '-'
    }
}

pub open spec fn strip_trailing_dashes(s: Seq<char>) -> Seq<char>
    decreases s.len(),
{
    if s.len() > 0 && s.last() == '-' {
        strip_trailing_dashes(s.drop_last())
    } else {
        s
    }
}

/// Characters other than ASCII letters, digits, `-` and `_` become `-`; then
/// leading and trailing `-` are removed.
pub open spec fn slugify(s: Seq<char>) -> Seq<char> {
    strip_trailing_dashes(
        crate::extractor::heuristics::strip_dashes(s.map_values(|c: char| slug_char(c))),
    )
}

pub open spec fn drop_nul_cr(s: Seq<char>) -> Seq<char>
    decreases s.len(),
{
    if s.len() == 0 {
        seq![]
    } else if s.last() == '\0' || s.last() == '\r' {
        drop_nul_cr(s.drop_last())
    } else {
        drop_nul_cr(s.drop_last()).push(s.last())
    }
}

/// A command without NUL and CR characters, trimmed.
pub open spec fn sanitize(s: Seq<char>) -> Seq<char> {
    crate::text::trim(drop_nul_cr(s))
}

pub open spec fn is_shell_safe(c: char) -> bool {
    crate::text::is_ascii_alnum(c) || c == '-' || c == '_' || c == '.'
}

pub open spec fn quote_escape(s: Seq<char>) -> Seq<char>
    decreases s.len(),
{
    if s.len() == 0 {
        seq![]
    } else if s.last() == '\'' {
        quote_escape(s.drop_last()) + seq!['\'', '\\', '\'', '\'']
    } else {
        quote_escape(s.drop_last()).push(s.last())
    }
}

/// A shell argument: kept when every character is in `[A-Za-z0-9._-]`, else
/// single-quoted with embedded quotes written `'\''`.
pub open spec fn shell_arg(s: Seq<char>) -> Seq<char> {
    if forall|i: int| 0 <= i < s.len() ==> is_shell_safe(#[trigger] s[i]) {
        s
    } else {
        seq!['\''] + quote_escape(s) + seq!['\'']
    }
}

/// A command text as a resource name.
pub fn command_to_name(command: &str) -> (r: String)
    ensures
        r@ == slugify(command@),
{
    let v = crate::text::chars_of(command);
    let mut m: Vec<char> = Vec::new();
    let mut i: usize = 0;
    while i < v.len()
        invariant
            i <= v@.len(),
            m@ == v@.subrange(0, i as int).map_values(|c: char| slug_char(c)),
        decreases v@.len() - i,
    {
        let c = v[i];
        if crate::text::is_alnum_char(c) || c == '-' || c == '_' {
            m.push(c);
        } else {
            m.push('-');
        }
        i += 1;
        assert(m@ =~= v@.subrange(0, i as int).map_values(|c: char| slug_char(c)));
    }
    assert(v@.subrange(0, v@.len() as int) =~= v@);
    let n = m.len();
    let mut a: usize = 0;
    assert(m@.subrange(0, n as int) =~= m@);
    while a < n && m[a] == '-'
        invariant
            a <= n == m@.len(),
            crate::extractor::heuristics::strip_dashes(m@)
                == crate::extractor::heuristics::strip_dashes(m@.subrange(a as int, n as int)),
        decreases n - a,
    {
        assert(m@.subrange(a as int, n as int).drop_first() =~= m@.subrange(a + 1, n as int));
        a += 1;
    }
    let ghost t = m@.subrange(a as int, n as int);
    let mut b: usize = n;
    assert(t.subrange(0, (n - a) as int) =~= t);
    while b > a && m[b - 1] == '-'
        invariant
            a <= b <= n == m@.len(),
            t == m@.subrange(a as int, n as int),
            strip_trailing_dashes(t) == strip_trailing_dashes(m@.subrange(a as int, b as int)),
        decreases b,
    {
        assert(m@.subrange(a as int, b as int).drop_last() =~= m@.subrange(a as int, b - 1));
        b -= 1;
    }
    crate::text::string_of_range(&m, a, b)
}

/// A command with NUL and CR removed and surrounding whitespace trimmed.
pub fn sanitize_command(command: &str) -> (r: String)
    ensures
        r@ == sanitize(command@),
{
    let v = crate::text::chars_of(command);
    let mut kept: Vec<char> = Vec::new();
    let mut i: usize = 0;
    while i < v.len()
        invariant
            i <= v@.len(),
            kept@ == drop_nul_cr(v@.subrange(0, i as int)),
        decreases v@.len() - i,
    {
        assert(v@.subrange(0, i + 1).drop_last() =~= v@.subrange(0, i as int));
        if v[i] != '\0' && v[i] != '\r' {
            kept.push(v[i]);
        }
        i += 1;
    }
    assert(v@.subrange(0, v@.len() as int) =~= v@);
    crate::text::string_of(&crate::text::trim_chars(&kept))
}

/// A shell argument safe to splice into a command.
pub fn sanitize_shell_arg(arg: &str) -> (r: String)
    ensures
        r@ == shell_arg(arg@),
{
    let v = crate::text::chars_of(arg);
    let mut safe = true;
    let mut i: usize = 0;
    while i < v.len()
        invariant
            i <= v@.len(),
            v@ == arg@,
            safe == forall|j: int| 0 <= j < i ==> is_shell_safe(#[trigger] v@[j]),
        decreases v@.len() - i,
    {
        let c = v[i];
        if !(crate::text::is_alnum_char(c) || c == '-' || c == '_' || c == '.') {
            safe = false;
        }
        i += 1;
    }
    if safe {
        return str_from(arg);
    }
    let mut out = String::new();
    crate::text::push_char(&mut out, '\'');
    let mut k: usize = 0;
    while k < v.len()
        invariant
            k <= v@.len(),
            out@ == seq!['\''] + quote_escape(v@.subrange(0, k as int)),
        decreases v@.len() - k,
    {
        assert(v@.subrange(0, k + 1).drop_last() =~= v@.subrange(0, k as int));
        if v[k] == '\'' {
            push_str(&mut out, "'\\''");
            proof {
                reveal_strlit("'\\''");
            }
        } else {
            crate::text::push_char(&mut out, v[k]);
        }
        k += 1;
        assert(out@ =~= seq!['\''] + quote_escape(v@.subrange(0, k as int)));
    }
    crate::text::push_char(&mut out, '\'');
    assert(v@.subrange(0, v@.len() as int) =~= v@);
    out
}

} // verus!

verus! {

// ---------------------------------------------------------------------------
// Assertions to resources
// ---------------------------------------------------------------------------

pub open spec fn manager_probe(m: crate::extractor::PackageManager) -> Seq<char> {
    match m {
        crate::extractor::PackageManager::Apt => "dpkg -s "@,
        crate::extractor::PackageManager::Apk => "apk info -e "@,
        crate::extractor::PackageManager::Pip => "pip show "@,
        crate::extractor::PackageManager::Npm => "npm list -g "@,
        crate::extractor::PackageManager::Composer => "composer show "@,
    }
}

pub open spec fn command_res(
    name: Seq<char>,
    command: Seq<char>,
    exit_status: i32,
    timeout: i32,
    a: AssertionV,
) -> GossV {
    GossV::Command {
        name,
        command,
        exit_status,
        timeout,
        provenance: a.provenance,
        confidence: a.confidence,
    }
}

/// The resources of the main document for one assertion that passed the threshold.
pub open spec fn main_for(a: AssertionV, profile: Profile, policy: PolicyConfig) -> Seq<GossV> {
    match a.kind {
        AssertionKindV::FileExists { path, filetype, mode } => seq![
            GossV::File {
                path,
                exists: true,
                filetype,
                mode: if profile == Profile::Minimal {
                    None
                } else if policy.assert_file_modes {
                    mode
                } else {
                    None
                },
                provenance: a.provenance,
                confidence: a.confidence,
            },
        ],
        AssertionKindV::ProcessRunning { name } => if process_enabled(policy) {
            seq![
                GossV::Process {
                    name,
                    running: true,
                    provenance: a.provenance,
                    confidence: a.confidence,
                },
            ]
        } else {
            seq![]
        },
        AssertionKindV::CommandExit { command, exit_status } => seq![
            command_res(slugify(command), sanitize(command), exit_status, 10000, a),
        ],
        AssertionKindV::CommandOutput { command, exit_status, expected_output } => seq![
            GossV::CommandWithOutput {
                name: slugify(command),
                command: sanitize(command),
                exit_status,
                stdout: expected_output,
                timeout: 10000,
                provenance: a.provenance,
                confidence: a.confidence,
            },
        ],
        AssertionKindV::UserExists { username } => seq![
            command_res(
                "user-"@ + username + "-exists"@,
                "getent passwd "@ + shell_arg(username),
                0,
                5000,
                a,
            ),
        ],
        AssertionKindV::PortListening { protocol, port } => if ports_enabled(policy) {
            seq![
                GossV::Port {
                    address: protocol + ":"@ + crate::text::decimal(port as nat),
                    listening: true,
                    provenance: a.provenance,
                    confidence: a.confidence,
                },
            ]
        } else {
            seq![]
        },
        AssertionKindV::HttpStatus { url, status } => if policy.http_checks {
            seq![
                GossV::Http { url, status, provenance: a.provenance, confidence: a.confidence },
            ]
        } else {
            seq![]
        },
        AssertionKindV::PackageInstalled { package, manager, version_cmd } => seq![
            command_res(
                "package-"@ + slugify(package),
                manager_probe(manager) + shell_arg(package),
                0,
                10000,
                a,
            ),
        ] + match version_cmd {
            Some(v) => seq![command_res(slugify(v), sanitize(v), 0, 10000, a)],
            None => seq![],
        },
        AssertionKindV::HealthcheckPasses { .. } => seq![],
    }
}

/// The resources of the wait document for one assertion that passed the threshold.
pub open spec fn wait_for(a: AssertionV, policy: PolicyConfig) -> Seq<GossV> {
    match a.kind {
        AssertionKindV::HealthcheckPasses { command } => seq![
            command_res("healthcheck"@, sanitize(command), 0, 5000, a),
        ],
        AssertionKindV::PortListening { protocol, port } => if ports_enabled(policy) {
            seq![
                GossV::Port {
                    address: protocol + ":"@ + crate::text::decimal(port as nat),
                    listening: true,
                    provenance: a.provenance,
                    confidence: a.confidence,
                },
            ]
        } else {
            seq![]
        },
        _ => seq![],
    }
}

pub open spec fn is_wait_kind(k: AssertionKindV) -> bool {
    k is HealthcheckPasses || k is PortListening
}

pub struct EmitSt {
    pub res: Seq<GossV>,
    pub warn: Seq<Seq<char>>,
}

pub open spec fn below(a: AssertionV, min: Confidence) -> bool {
    crate::rank(a.confidence) < crate::rank(min)
}

/// Main-document candidates (all but healthchecks) mapped in order; those below
/// the threshold become warnings.
pub open spec fn main_fold(
    s: Seq<AssertionV>,
    min: Confidence,
    profile: Profile,
    policy: PolicyConfig,
) -> EmitSt
    decreases s.len(),
{
    if s.len() == 0 {
        EmitSt { res: seq![], warn: seq![] }
    } else {
        let st = main_fold(s.drop_last(), min, profile, policy);
        let a = s.last();
        if a.kind is HealthcheckPasses {
            st
        } else if below(a, min) {
            EmitSt {
                res: st.res,
                warn: st.warn.push("Skipped assertion (confidence too low): "@ + a.provenance),
            }
        } else {
            EmitSt { res: st.res + main_for(a, profile, policy), warn: st.warn }
        }
    }
}

/// Wait-document candidates (healthchecks and ports) mapped in order; those
/// below the threshold become warnings.
pub open spec fn wait_fold(s: Seq<AssertionV>, min: Confidence, policy: PolicyConfig) -> EmitSt
    decreases s.len(),
{
    if s.len() == 0 {
        EmitSt { res: seq![], warn: seq![] }
    } else {
        let st = wait_fold(s.drop_last(), min, policy);
        let a = s.last();
        if !is_wait_kind(a.kind) {
            st
        } else if below(a, min) {
            EmitSt {
                res: st.res,
                warn: st.warn.push("Skipped wait assertion (confidence too low): "@ + a.provenance),
            }
        } else {
            EmitSt { res: st.res + wait_for(a, policy), warn: st.warn }
        }
    }
}

pub open spec fn has_command(s: Seq<GossV>) -> bool {
    exists|i: int| 0 <= i < s.len() && (#[trigger] s[i]) is Command
}

/// The process gate used when the wait document has no command: the
/// entrypoint's binary, unless it is a shell.
pub open spec fn entry_gate(ep: Option<crate::parser::ast::CommandFormV>) -> Seq<GossV> {
    match ep {
        Some(e) => match crate::parser::ast::primary_binary_of(e) {
            Some(b) => if crate::extractor::model::is_shell_name(b) {
                seq![]
            } else {
                seq![
                    GossV::Process {
                        name: b,
                        running: true,
                        provenance: "ENTRYPOINT (wait gate)"@,
                        confidence: Confidence::Medium,
                    },
                ]
            },
            None => seq![],
        },
        None => seq![],
    }
}

// ---------------------------------------------------------------------------
// De-duplication
// ---------------------------------------------------------------------------

/// Two resources under one key: files keep the first non-empty `filetype` and
/// `mode` and the higher confidence; anything else keeps the first.
pub open spec fn merge_spec(e: GossV, i: GossV) -> GossV {
    match (e, i) {
        (
            GossV::File { path, exists, filetype, mode, provenance, confidence },
            GossV::File { filetype: ft2, mode: m2, confidence: c2, .. },
        ) => GossV::File {
            path,
            exists,
            filetype: if filetype is None {
                ft2
            } else {
                filetype
            },
            mode: if mode is None {
                m2
            } else {
                mode
            },
            provenance,
            confidence: if crate::rank(c2) > crate::rank(confidence) {
                c2
            } else {
                confidence
            },
        },
        _ => e,
    }
}

/// Index of the first resource of `s` with key `k`.
pub open spec fn key_pos(s: Seq<GossV>, k: Seq<char>) -> Option<int>
    decreases s.len(),
{
    if s.len() == 0 {
        None
    } else {
        match key_pos(s.drop_last(), k) {
            Some(j) => Some(j),
            None => if key_of(s.last()) == k {
                Some(s.len() - 1)
            } else {
                None
            },
        }
    }
}

/// Resources merged by identity key, in order of first appearance.
pub open spec fn dedupe(s: Seq<GossV>) -> Seq<GossV>
    decreases s.len(),
{
    if s.len() == 0 {
        seq![]
    } else {
        let r = dedupe(s.drop_last());
        match key_pos(r, key_of(s.last())) {
            Some(j) => r.update(j, merge_spec(r[j], s.last())),
            None => r.push(s.last()),
        }
    }
}

proof fn lemma_key_pos_none(s: Seq<GossV>, k: Seq<char>)
    requires
        forall|j: int| 0 <= j < s.len() ==> key_of(#[trigger] s[j]) != k,
    ensures
        key_pos(s, k) is None,
    decreases s.len(),
{
    if s.len() > 0 {
        assert forall|j: int| 0 <= j < s.drop_last().len() implies key_of(
            #[trigger] s.drop_last()[j],
        ) != k by {
            assert(s.drop_last()[j] == s[j]);
        }
        lemma_key_pos_none(s.drop_last(), k);
        assert(key_of(s[s.len() - 1]) != k);
    }
}

proof fn lemma_key_pos_some(s: Seq<GossV>, k: Seq<char>, i: int)
    requires
        0 <= i < s.len(),
        key_of(s[i]) == k,
        forall|j: int| 0 <= j < i ==> key_of(#[trigger] s[j]) != k,
    ensures
        key_pos(s, k) == Some(i),
    decreases s.len(),
{
    let d = s.drop_last();
    if i < s.len() - 1 {
        assert forall|j: int| 0 <= j < i implies key_of(#[trigger] d[j]) != k by {
            assert(d[j] == s[j]);
        }
        assert(d[i] == s[i]);
        lemma_key_pos_some(d, k, i);
    } else {
        assert forall|j: int| 0 <= j < d.len() implies key_of(#[trigger] d[j]) != k by {
            assert(d[j] == s[j]);
        }
        lemma_key_pos_none(d, k);
    }
}

fn merge_resource(existing: &GossResource, incoming: GossResource) -> (r: GossResource)
    ensures
        r@ == merge_spec(existing@, incoming@),
{
    match (existing, incoming) {
        (
            GossResource::File { path, exists, filetype, mode, provenance, confidence },
            GossResource::File { filetype: ft2, mode: m2, confidence: c2, .. },
        ) => GossResource::File {
            path: path.clone(),
            exists: *exists,
            filetype: if filetype.is_none() {
                ft2
            } else {
                clone_opt(filetype)
            },
            mode: if mode.is_none() {
                m2
            } else {
                clone_opt(mode)
            },
            provenance: provenance.clone(),
            confidence: if c2.rank() > confidence.rank() {
                c2
            } else {
                *confidence
            },
        },
        _ => clone_resource(existing),
    }
}

/// Merges resources that share an identity key, keeping the order of first appearance.
pub fn deduplicate_resources(resources: &mut Vec<GossResource>)
    ensures
        resources_view(final(resources)@) == dedupe(resources_view(old(resources)@)),
{
    let mut taken: Vec<GossResource> = Vec::new();
    std::mem::swap(&mut taken, resources);
    *resources = deduplicated(taken);
}

fn deduplicated(resources: Vec<GossResource>) -> (r: Vec<GossResource>)
    ensures
        resources_view(r@) == dedupe(resources_view(resources@)),
{
    let ghost all = resources_view(resources@);
    let total = resources.len();
    let mut rest = resources;
    let mut deduped: Vec<GossResource> = Vec::new();
    let mut k: usize = 0;
    while rest.len() > 0
        invariant
            k + rest@.len() == all.len(),
            all.len() == total,
            resources_view(rest@) == all.subrange(k as int, all.len() as int),
            resources_view(deduped@) == dedupe(all.subrange(0, k as int)),
        decreases rest@.len(),
    {
        let ghost r0 = rest@;
        assert(resources_view(r0).len() == r0.len());
        let g = rest.remove(0);
        assert(resources_view(r0)[0] == g@);
        assert(all.subrange(k as int, all.len() as int)[0] == all[k as int]);
        assert(all.subrange(0, k + 1).drop_last() =~= all.subrange(0, k as int));
        assert(all.subrange(0, k + 1).last() == g@);
        assert(resources_view(rest@) =~= all.subrange(k + 1, all.len() as int)) by {
            assert forall|j: int| 0 <= j < rest@.len() implies resources_view(rest@)[j]
                == all.subrange(k + 1, all.len() as int)[j] by {
                assert(rest@[j] == r0[j + 1]);
                assert(resources_view(r0)[j + 1] == all.subrange(k as int, all.len() as int)[j
                    + 1]);
            }
        }
        let ghost dv = resources_view(deduped@);
        let key = g.identity_key();
        let mut found: Option<usize> = None;
        let mut j: usize = 0;
        while j < deduped.len()
            invariant
                j <= deduped@.len(),
                dv == resources_view(deduped@),
                key@ == key_of(g@),
                match found {
                    Some(x) => x < deduped@.len() && key_of(dv[x as int]) == key@ && forall|m: int|
                        0 <= m < x ==> key_of(#[trigger] dv[m]) != key@,
                    None => forall|m: int| 0 <= m < j ==> key_of(#[trigger] dv[m]) != key@,
                },
            decreases deduped@.len() - j,
        {
            if found.is_none() {
                let kj = deduped[j].identity_key();
                assert(dv[j as int] == deduped@[j as int]@);
                if kj == key {
                    found = Some(j);
                }
            }
            j += 1;
        }
        match found {
            Some(x) => {
                proof {
                    lemma_key_pos_some(dv, key@, x as int);
                }
                assert(dv[x as int] == deduped@[x as int]@);
                let merged = merge_resource(&deduped[x], g);
                deduped.set(x, merged);
                assert(resources_view(deduped@) =~= dv.update(
                    x as int,
                    merge_spec(dv[x as int], all[k as int]),
                ));
            },
            None => {
                proof {
                    lemma_key_pos_none(dv, key@);
                }
                deduped.push(g);
                assert(resources_view(deduped@) =~= dv.push(all[k as int]));
            },
        }
        k += 1;
    }
    assert(all.subrange(0, k as int) =~= all);
    deduped
}

} // verus!

verus! {

/// Output of the emitter: the main document, the optional wait document, and
/// the warnings for assertions dropped by confidence.
#[derive(Debug)]
pub struct GeneratorOutput {
    pub goss_yml: String,
    pub goss_wait_yml: Option<String>,
    pub warnings: Vec<String>,
}

fn command_resource(
    name: String,
    command: String,
    exit_status: i32,
    timeout: i32,
    a: &ContractAssertion,
) -> (r: GossResource)
    ensures
        r@ == command_res(name@, command@, exit_status, timeout, a@),
{
    GossResource::Command {
        name,
        command,
        exit_status,
        timeout,
        provenance: a.provenance.clone(),
        confidence: a.confidence,
    }
}

fn port_address(protocol: &String, port: u16) -> (r: String)
    ensures
        r@ == protocol@ + ":"@ + crate::text::decimal(port as nat),
{
    let mut s = protocol.clone();
    push_str(&mut s, ":");
    push_str(&mut s, crate::text::decimal_string(port as u64).as_str());
    s
}

fn push_res(out: &mut Vec<GossResource>, g: GossResource)
    ensures
        resources_view(final(out)@) == resources_view(old(out)@).push(g@),
{
    let ghost o0 = resources_view(out@);
    out.push(g);
    assert(resources_view(out@) =~= o0.push(g@));
}

/// The main-document resources of one assertion that passed the threshold.
fn main_resources_for(
    a: &ContractAssertion,
    profile: Profile,
    policy: &PolicyConfig,
    out: &mut Vec<GossResource>,
)
    ensures
        resources_view(final(out)@) == resources_view(old(out)@) + main_for(a@, profile, *policy),
{
    let ghost o0 = resources_view(out@);
    match &a.kind {
        AssertionKind::FileExists { path, filetype, mode } => {
            let effective_mode = if profile == Profile::Minimal {
                None
            } else if policy.assert_file_modes {
                clone_opt(mode)
            } else {
                None
            };
            push_res(
                out,
                GossResource::File {
                    path: path.clone(),
                    exists: true,
                    filetype: clone_opt(filetype),
                    mode: effective_mode,
                    provenance: a.provenance.clone(),
                    confidence: a.confidence,
                },
            );
        },
        AssertionKind::ProcessRunning { name } => {
            if policy.assert_process_enabled() {
                push_res(
                    out,
                    GossResource::Process {
                        name: name.clone(),
                        running: true,
                        provenance: a.provenance.clone(),
                        confidence: a.confidence,
                    },
                );
            }
        },
        AssertionKind::CommandExit { command, exit_status } => {
            push_res(
                out,
                command_resource(
                    command_to_name(command.as_str()),
                    sanitize_command(command.as_str()),
                    *exit_status,
                    10000,
                    a,
                ),
            );
        },
        AssertionKind::CommandOutput { command, exit_status, expected_output } => {
            push_res(
                out,
                GossResource::CommandWithOutput {
                    name: command_to_name(command.as_str()),
                    command: sanitize_command(command.as_str()),
                    exit_status: *exit_status,
                    stdout: clone_strings(expected_output),
                    timeout: 10000,
                    provenance: a.provenance.clone(),
                    confidence: a.confidence,
                },
            );
        },
        AssertionKind::UserExists { username } => {
            let mut name = str_from("user-");
            push_str(&mut name, username.as_str());
            push_str(&mut name, "-exists");
            let mut cmd = str_from("getent passwd ");
            push_str(&mut cmd, sanitize_shell_arg(username.as_str()).as_str());
            push_res(out, command_resource(name, cmd, 0, 5000, a));
        },
        AssertionKind::PortListening { protocol, port } => {
            if policy.assert_ports_enabled() {
                push_res(
                    out,
                    GossResource::Port {
                        address: port_address(protocol, *port),
                        listening: true,
                        provenance: a.provenance.clone(),
                        confidence: a.confidence,
                    },
                );
            }
        },
        AssertionKind::HttpStatus { url, status } => {
            if policy.http_checks {
                push_res(
                    out,
                    GossResource::Http {
                        url: url.clone(),
                        status: *status,
                        provenance: a.provenance.clone(),
                        confidence: a.confidence,
                    },
                );
            }
        },
        AssertionKind::PackageInstalled { package, manager, version_cmd } => {
            let mut cmd = str_from(
                match manager {
                    crate::extractor::PackageManager::Apt => "dpkg -s ",
                    crate::extractor::PackageManager::Apk => "apk info -e ",
                    crate::extractor::PackageManager::Pip => "pip show ",
                    crate::extractor::PackageManager::Npm => "npm list -g ",
                    crate::extractor::PackageManager::Composer => "composer show ",
                },
            );
            push_str(&mut cmd, sanitize_shell_arg(package.as_str()).as_str());
            let mut name = str_from("package-");
            push_str(&mut name, command_to_name(package.as_str()).as_str());
            push_res(out, command_resource(name, cmd, 0, 10000, a));
            match version_cmd {
                Some(v) => {
                    push_res(
                        out,
                        command_resource(
                            command_to_name(v.as_str()),
                            sanitize_command(v.as_str()),
                            0,
                            10000,
                            a,
                        ),
                    );
                },
                None => {},
            }
        },
        AssertionKind::HealthcheckPasses { .. } => {},
    }
    assert(resources_view(out@) =~= o0 + main_for(a@, profile, *policy));
}

/// The wait-document resources of one assertion that passed the threshold.
fn wait_resources_for(a: &ContractAssertion, policy: &PolicyConfig, out: &mut Vec<GossResource>)
    ensures
        resources_view(final(out)@) == resources_view(old(out)@) + wait_for(a@, *policy),
{
    let ghost o0 = resources_view(out@);
    match &a.kind {
        AssertionKind::HealthcheckPasses { command } => {
            push_res(
                out,
                command_resource(str_from("healthcheck"), sanitize_command(command.as_str()), 0, 5000, a),
            );
        },
        AssertionKind::PortListening { protocol, port } => {
            if policy.assert_ports_enabled() {
                push_res(
                    out,
                    GossResource::Port {
                        address: port_address(protocol, *port),
                        listening: true,
                        provenance: a.provenance.clone(),
                        confidence: a.confidence,
                    },
                );
            }
        },
        _ => {},
    }
    assert(resources_view(out@) =~= o0 + wait_for(a@, *policy));
}

fn is_wait_assertion(a: &ContractAssertion) -> (r: bool)
    ensures
        r == is_wait_kind(a@.kind),
{
    matches!(a.kind, AssertionKind::HealthcheckPasses { .. } | AssertionKind::PortListening { .. })
}

/// Whether the assertion reaches the threshold; when it does not, a warning naming
/// its provenance is added.
fn passes_confidence(
    a: &ContractAssertion,
    min: Confidence,
    context: &str,
    warnings: &mut Vec<String>,
) -> (r: bool)
    ensures
        r == !below(a@, min),
        r ==> final(warnings)@ == old(warnings)@,
        !r ==> string_views(final(warnings)@) == string_views(old(warnings)@).push(
            "Skipped "@ + context@ + " (confidence too low): "@ + a@.provenance,
        ),
{
    if a.confidence.is_below(&min) {
        let mut w = str_from("Skipped ");
        push_str(&mut w, context);
        push_str(&mut w, " (confidence too low): ");
        push_str(&mut w, a.provenance.as_str());
        let ghost w0 = string_views(warnings@);
        warnings.push(w);
        assert(string_views(warnings@) =~= w0.push(w@));
        false
    } else {
        true
    }
}

/// Resources of the main document, de-duplicated.
fn build_main_resources(
    assertions: &Vec<ContractAssertion>,
    min: Confidence,
    profile: Profile,
    policy: &PolicyConfig,
    warnings: &mut Vec<String>,
) -> (r: Vec<GossResource>)
    ensures
        resources_view(r@) == dedupe(main_fold(assertions_view(assertions@), min, profile, *policy).res),
        string_views(final(warnings)@) == string_views(old(warnings)@) + main_fold(
            assertions_view(assertions@),
            min,
            profile,
            *policy,
        ).warn,
{
    let ghost av = assertions_view(assertions@);
    let ghost w0 = string_views(warnings@);
    let mut resources: Vec<GossResource> = Vec::new();
    let mut i: usize = 0;
    while i < assertions.len()
        invariant
            i <= assertions@.len(),
            av == assertions_view(assertions@),
            resources_view(resources@) == main_fold(av.subrange(0, i as int), min, profile, *policy).res,
            string_views(warnings@) == w0 + main_fold(av.subrange(0, i as int), min, profile, *policy).warn,
        decreases assertions@.len() - i,
    {
        let a = &assertions[i];
        assert(av.subrange(0, i + 1).drop_last() =~= av.subrange(0, i as int));
        assert(av.subrange(0, i + 1).last() == a@);
        let ghost st = main_fold(av.subrange(0, i as int), min, profile, *policy);
        if !matches!(a.kind, AssertionKind::HealthcheckPasses { .. }) {
            if passes_confidence(a, min, "assertion", warnings) {
                main_resources_for(a, profile, policy, &mut resources);
            } else {
                proof {
                    reveal_strlit("assertion");
                    reveal_strlit("Skipped ");
                    reveal_strlit(" (confidence too low): ");
                    reveal_strlit("Skipped assertion (confidence too low): ");
                    assert("Skipped "@ + "assertion"@ + " (confidence too low): "@ =~= "Skipped assertion (confidence too low): "@);
                }
                assert(string_views(warnings@) =~= w0 + st.warn.push(
                    "Skipped assertion (confidence too low): "@ + a@.provenance,
                ));
            }
        }
        i += 1;
    }
    assert(av.subrange(0, assertions@.len() as int) =~= av);
    deduplicated(resources)
}

} // verus!

verus! {

/// The wait-document resources before de-duplication: mapped candidates, then
/// the entrypoint gate when no command resource is among them.
pub open spec fn wait_raw(c: ContractV, min: Confidence, policy: PolicyConfig) -> Seq<GossV> {
    let f = wait_fold(c.assertions, min, policy).res;
    if has_command(f) {
        f
    } else {
        f + entry_gate(c.entrypoint)
    }
}

pub struct GeneratedV {
    pub main: Seq<char>,
    pub wait: Option<Seq<char>>,
    pub warnings: Seq<Seq<char>>,
}

pub open spec fn has_wait_candidate(s: Seq<AssertionV>) -> bool {
    exists|i: int| 0 <= i < s.len() && is_wait_kind((#[trigger] s[i]).kind)
}

/// Whether a wait document is produced: as forced, or when the recipe has a
/// healthcheck, exactly one exposed port, or any wait candidate.
pub open spec fn wants_wait(c: ContractV, force_wait: Option<bool>) -> bool {
    match force_wait {
        Some(b) => b,
        None => c.healthcheck is Some || c.exposed_ports.len() == 1 || has_wait_candidate(
            c.assertions,
        ),
    }
}

/// What the emitter produces for a contract.
pub open spec fn generate_spec(
    c: ContractV,
    profile: Profile,
    policy: PolicyConfig,
    force_wait: Option<bool>,
) -> GeneratedV {
    let min = crate::threshold(profile);
    let should = wants_wait(c, force_wait);
    let wres = dedupe(wait_raw(c, min, policy));
    let mf = main_fold(c.assertions, min, profile, policy);
    GeneratedV {
        main: render::render_doc(dedupe(mf.res)),
        wait: if !should {
            None
        } else if wres.len() > 0 {
            Some(render::render_doc(wres))
        } else if c.exposed_ports.len() > 0 {
            Some(render::minimal_wait_text(c.exposed_ports[0].port, c.exposed_ports[0].protocol))
        } else {
            None
        },
        warnings: (if should {
            wait_fold(c.assertions, min, policy).warn
        } else {
            seq![]
        }) + mf.warn,
    }
}

impl View for GeneratorOutput {
    type V = GeneratedV;

    open spec fn view(&self) -> GeneratedV {
        GeneratedV {
            main: self.goss_yml@,
            wait: opt_view(self.goss_wait_yml),
            warnings: string_views(self.warnings@),
        }
    }
}

fn has_command_exec(v: &Vec<GossResource>) -> (r: bool)
    ensures
        r == has_command(resources_view(v@)),
{
    let mut i: usize = 0;
    while i < v.len()
        invariant
            i <= v@.len(),
            forall|j: int| 0 <= j < i ==> !(#[trigger] resources_view(v@)[j] is Command),
        decreases v@.len() - i,
    {
        if matches!(v[i], GossResource::Command { .. }) {
            assert(resources_view(v@)[i as int] is Command);
            return true;
        }
        assert(!(resources_view(v@)[i as int] is Command));
        i += 1;
    }
    false
}

/// Resources of the wait document, de-duplicated.
fn build_wait_resources(
    contract: &RuntimeContract,
    min: Confidence,
    policy: &PolicyConfig,
    warnings: &mut Vec<String>,
) -> (r: Vec<GossResource>)
    ensures
        resources_view(r@) == dedupe(wait_raw(contract@, min, *policy)),
        string_views(final(warnings)@) == string_views(old(warnings)@) + wait_fold(
            contract@.assertions,
            min,
            *policy,
        ).warn,
{
    let ghost av = contract@.assertions;
    let ghost w0 = string_views(warnings@);
    let mut resources: Vec<GossResource> = Vec::new();
    let mut i: usize = 0;
    while i < contract.assertions.len()
        invariant
            i <= contract.assertions@.len(),
            av == contract@.assertions,
            av == assertions_view(contract.assertions@),
            resources_view(resources@) == wait_fold(av.subrange(0, i as int), min, *policy).res,
            string_views(warnings@) == w0 + wait_fold(av.subrange(0, i as int), min, *policy).warn,
        decreases contract.assertions@.len() - i,
    {
        let a = &contract.assertions[i];
        assert(av.subrange(0, i + 1).drop_last() =~= av.subrange(0, i as int));
        assert(av.subrange(0, i + 1).last() == a@);
        let ghost st = wait_fold(av.subrange(0, i as int), min, *policy);
        if is_wait_assertion(a) {
            if passes_confidence(a, min, "wait assertion", warnings) {
                wait_resources_for(a, policy, &mut resources);
            } else {
                proof {
                    reveal_strlit("wait assertion");
                    reveal_strlit("Skipped ");
                    reveal_strlit(" (confidence too low): ");
                    reveal_strlit("Skipped wait assertion (confidence too low): ");
                    assert("Skipped "@ + "wait assertion"@ + " (confidence too low): "@ =~= "Skipped wait assertion (confidence too low): "@);
                }
                assert(string_views(warnings@) =~= w0 + st.warn.push(
                    "Skipped wait assertion (confidence too low): "@ + a@.provenance,
                ));
            }
        }
        i += 1;
    }
    assert(av.subrange(0, contract.assertions@.len() as int) =~= av);
    if !has_command_exec(&resources) {
        let ghost r0 = resources_view(resources@);
        match &contract.entrypoint {
            Some(ep) => {
                match ep.primary_binary() {
                    Some(binary) => {
                        if !crate::extractor::model::is_shell_interpreter(binary.as_str()) {
                            push_res(
                                &mut resources,
                                GossResource::Process {
                                    name: binary,
                                    running: true,
                                    provenance: str_from("ENTRYPOINT (wait gate)"),
                                    confidence: Confidence::Medium,
                                },
                            );
                        }
                    },
                    None => {},
                }
            },
            None => {},
        }
        assert(resources_view(resources@) =~= r0 + entry_gate(contract@.entrypoint));
    }
    deduplicated(resources)
}

/// Produces the main document, the optional wait document and the warnings.
pub fn generate(
    contract: &RuntimeContract,
    profile: Profile,
    policy: &PolicyConfig,
    force_wait: Option<bool>,
) -> (r: GeneratorOutput)
    ensures
        r@ == generate_spec(contract@, profile, *policy, force_wait),
{
    let min = profile.to_threshold();
    let mut warnings: Vec<String> = Vec::new();
    let mut has_wait = false;
    let mut i: usize = 0;
    while i < contract.assertions.len()
        invariant
            i <= contract.assertions@.len(),
            has_wait == exists|j: int|
                0 <= j < i && is_wait_kind((#[trigger] contract@.assertions[j]).kind),
        decreases contract.assertions@.len() - i,
    {
        if is_wait_assertion(&contract.assertions[i]) {
            has_wait = true;
        }
        assert(contract@.assertions[i as int] == contract.assertions@[i as int]@);
        i += 1;
    }
    let should = match force_wait {
        Some(b) => b,
        None => contract.healthcheck.is_some() || contract.exposed_ports.len() == 1 || has_wait,
    };
    assert(contract@.exposed_ports.len() == contract.exposed_ports@.len());
    let goss_wait_yml = if should {
        let wait_resources = build_wait_resources(contract, min, policy, &mut warnings);
        if wait_resources.len() == 0 {
            if contract.exposed_ports.len() > 0 {
                let p = &contract.exposed_ports[0];
                assert(contract@.exposed_ports[0] == p@);
                Some(render::render_goss_wait_minimal(p.port, p.protocol.as_str()))
            } else {
                None
            }
        } else {
            Some(render::render_goss_wait(wait_resources.as_slice()))
        }
    } else {
        None
    };
    let ghost w1 = string_views(warnings@);
    let main_resources = build_main_resources(&contract.assertions, min, profile, policy, &mut warnings);
    let goss_yml = render::render_goss(main_resources.as_slice());
    let r = GeneratorOutput { goss_yml, goss_wait_yml, warnings };
    assert(r@.warnings =~= generate_spec(contract@, profile, *policy, force_wait).warnings);
    r
}

} // verus!
