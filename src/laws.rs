//! Properties of the pipeline that hold for all inputs, proved from the
//! specifications that the functions' contracts use.
use vstd::prelude::*;
use crate::{Profile, rank};
use crate::config::PolicyConfig;
use crate::extractor::model::{AssertionKindV, AssertionV, ContractV};
use crate::generator::{dedupe, generate_spec, key_of, key_pos, merge_spec, GossV};
use crate::parser::resolver::{
    is_name_char, is_name_start, name_end, resolve_from, resolve_str, split_default,
};
use crate::probe::{add_discovered, merged, raise, ProbeEvidence};
use crate::text::{
    contains, find_char, hit, lemma_find_first_none, lemma_find_first_some, occurs_at,
};

verus! {

/// Generating twice from the same contract, profile, policy and wait choice
/// gives the same documents and warnings: `generate` is a function of its inputs.
pub proof fn lemma_generate_deterministic(
    c: ContractV,
    profile: Profile,
    policy: PolicyConfig,
    force_wait: Option<bool>,
)
    ensures
        generate_spec(c, profile, policy, force_wait) == generate_spec(c, profile, policy, force_wait),
{
}

/// Text without `$` resolves to itself: resolution keeps every other character,
/// multi-byte ones included.
pub proof fn lemma_resolve_keeps_plain_text(vars: Map<Seq<char>, Seq<char>>, s: Seq<char>)
    requires
        !s.contains('$'),
    ensures
        resolve_str(vars, s) == s,
{
    assert forall|j: int| 0 <= j < s.len() implies s[j] != '$' by {
        if s[j] == '$' {
            assert(s.contains('$'));
        }
    }
    lemma_resolve_plain_from(vars, s, 0);
    assert(s.subrange(0, s.len() as int) =~= s);
}

proof fn lemma_resolve_plain_from(vars: Map<Seq<char>, Seq<char>>, s: Seq<char>, i: int)
    requires
        0 <= i <= s.len(),
        forall|j: int| i <= j < s.len() ==> s[j] != '$',
    ensures
        resolve_from(vars, s, i) == s.subrange(i, s.len() as int),
    decreases s.len() - i,
{
    if i < s.len() {
        lemma_resolve_plain_from(vars, s, i + 1);
        assert(seq![s[i]] + s.subrange(i + 1, s.len() as int) =~= s.subrange(i, s.len() as int));
    } else {
        assert(s.subrange(i, s.len() as int) =~= Seq::<char>::empty());
    }
}

/// A valid variable name: a letter or `_`, then letters, digits or `_`.
pub open spec fn is_var_name(name: Seq<char>) -> bool {
    name.len() > 0 && is_name_start(name[0]) && forall|k: int|
        0 <= k < name.len() ==> is_name_char(#[trigger] name[k])
}

proof fn lemma_name_end_all(s: Seq<char>, j: int)
    requires
        0 <= j <= s.len(),
        forall|k: int| j <= k < s.len() ==> is_name_char(#[trigger] s[k]),
    ensures
        name_end(s, j) == s.len(),
    decreases s.len() - j,
{
    if j < s.len() {
        lemma_name_end_all(s, j + 1);
    }
}

/// `$NAME` for a name the table does not hold resolves to itself.
pub proof fn lemma_unknown_plain_reference_kept(vars: Map<Seq<char>, Seq<char>>, name: Seq<char>)
    requires
        is_var_name(name),
        !vars.contains_key(name),
    ensures
        resolve_str(vars, seq!['$'] + name) == seq!['$'] + name,
{
    let s = seq!['$'] + name;
    assert(s[1] == name[0]);
    assert forall|k: int| 1 <= k < s.len() implies is_name_char(#[trigger] s[k]) by {
        assert(s[k] == name[k - 1]);
    }
    lemma_name_end_all(s, 1);
    assert(s.subrange(1, s.len() as int) =~= name);
    assert(s.subrange(0, s.len() as int) =~= s);
    assert(resolve_from(vars, s, s.len() as int) =~= Seq::<char>::empty());
    assert(s + Seq::<char>::empty() =~= s);
}

proof fn lemma_split_plain_name(name: Seq<char>)
    requires
        is_var_name(name),
    ensures
        split_default(name) == (name, None::<Seq<char>>),
{
    assert(!contains(name, seq![':', '-'])) by {
        if contains(name, seq![':', '-']) {
            let i = choose|i: int| occurs_at(name, seq![':', '-'], i);
            assert(name.subrange(i, i + 2)[0] == name[i]);
            assert(is_name_char(name[i]));
        }
    }
    assert forall|k: int| 0 <= k < name.len() implies !hit(Some('-'), #[trigger] name[k]) by {
        assert(is_name_char(name[k]));
    }
    lemma_find_first_none(name, Some('-'));
}

proof fn lemma_close_brace_found(name: Seq<char>)
    requires
        is_var_name(name),
    ensures
        find_char(name + seq!['}'], '}') == Some(name.len() as int),
{
    let t = name + seq!['}'];
    assert forall|k: int| 0 <= k < name.len() implies !hit(Some('}'), #[trigger] t[k]) by {
        assert(t[k] == name[k]);
        assert(is_name_char(name[k]));
    }
    assert(t[name.len() as int] == '}');
    lemma_find_first_some(t, Some('}'), name.len() as int);
}

/// `${NAME}` for a name the table does not hold resolves to itself.
pub proof fn lemma_unknown_braced_reference_kept(vars: Map<Seq<char>, Seq<char>>, name: Seq<char>)
    requires
        is_var_name(name),
        !vars.contains_key(name),
    ensures
        resolve_str(vars, seq!['$', '{'] + name + seq!['}']) == seq!['$', '{'] + name + seq!['}'],
{
    let s = seq!['$', '{'] + name + seq!['}'];
    let n = name.len() as int;
    assert(s.subrange(2, s.len() as int) =~= name + seq!['}']);
    lemma_close_brace_found(name);
    assert(s.subrange(2, 2 + n) =~= name);
    lemma_split_plain_name(name);
    assert(s.subrange(0, n + 3) =~= s);
    assert(s[0] == '$' && s[1] == '{');
    assert(crate::parser::resolver::expand_braced(vars, name, s) == s);
    assert(resolve_from(vars, s, n + 3) =~= Seq::<char>::empty());
    assert(resolve_from(vars, s, 0) == crate::parser::resolver::expand_braced(vars, s.subrange(2, 2 + n), s.subrange(0, n + 3)) + resolve_from(vars, s, n + 3));
    assert(s + Seq::<char>::empty() =~= s);
}

/// Merging evidence never lowers a confidence and changes nothing else of an
/// existing assertion; assertions are only appended after the existing ones.
pub proof fn lemma_merge_monotone(c: ContractV, e: ProbeEvidence)
    ensures
        merged(c, e).assertions.len() >= c.assertions.len(),
        forall|i: int|
            0 <= i < c.assertions.len() ==> {
                let a = c.assertions[i];
                let b = #[trigger] merged(c, e).assertions[i];
                &&& rank(b.confidence) >= rank(a.confidence)
                &&& b.kind == a.kind
                &&& b.provenance == a.provenance
                &&& b.source_line == a.source_line
            },
{
    let ports = crate::probe::observed_ports(e);
    let procs = crate::text::string_views(e.running_processes@);
    let raised = c.assertions.map_values(|a: AssertionV| raise(a, ports, procs));
    lemma_add_discovered_prefix(raised, ports);
    assert forall|i: int| 0 <= i < c.assertions.len() implies {
        let a = c.assertions[i];
        let b = #[trigger] merged(c, e).assertions[i];
        &&& rank(b.confidence) >= rank(a.confidence)
        &&& b.kind == a.kind
        &&& b.provenance == a.provenance
        &&& b.source_line == a.source_line
    } by {
        assert(merged(c, e).assertions[i] == raised[i]);
    }
}

proof fn lemma_add_discovered_prefix(s: Seq<AssertionV>, ports: Seq<(u16, Seq<char>)>)
    ensures
        add_discovered(s, ports).len() >= s.len(),
        forall|i: int| 0 <= i < s.len() ==> #[trigger] add_discovered(s, ports)[i] == s[i],
    decreases ports.len(),
{
    if ports.len() > 0 {
        lemma_add_discovered_prefix(s, ports.drop_last());
    }
}

/// After de-duplication no two resources share an identity key.
pub proof fn lemma_dedupe_keys_distinct(s: Seq<GossV>)
    ensures
        forall|i: int, j: int|
            0 <= i < j < dedupe(s).len() ==> key_of(#[trigger] dedupe(s)[i]) != key_of(
                #[trigger] dedupe(s)[j],
            ),
    decreases s.len(),
{
    if s.len() > 0 {
        let r = dedupe(s.drop_last());
        lemma_dedupe_keys_distinct(s.drop_last());
        let k = key_of(s.last());
        lemma_key_pos_spec(r, k);
        match key_pos(r, k) {
            Some(p) => {
                let m = merge_spec(r[p], s.last());
                lemma_merge_keeps_key(r[p], s.last());
                assert(key_of(m) == key_of(r[p]));
                let d = r.update(p, m);
                assert forall|i: int, j: int| 0 <= i < j < d.len() implies key_of(#[trigger] d[i])
                    != key_of(#[trigger] d[j]) by {
                    assert(key_of(d[i]) == key_of(r[i]));
                    assert(key_of(d[j]) == key_of(r[j]));
                }
            },
            None => {
                let d = r.push(s.last());
                assert forall|i: int, j: int| 0 <= i < j < d.len() implies key_of(#[trigger] d[i])
                    != key_of(#[trigger] d[j]) by {
                    if j == r.len() {
                        assert(d[i] == r[i]);
                    } else {
                        assert(d[i] == r[i]);
                        assert(d[j] == r[j]);
                    }
                }
            },
        }
    }
}

proof fn lemma_merge_keeps_key(e: GossV, i: GossV)
    requires
        key_of(e) == key_of(i),
    ensures
        key_of(merge_spec(e, i)) == key_of(e),
{
}

proof fn lemma_key_pos_spec(s: Seq<GossV>, k: Seq<char>)
    ensures
        match key_pos(s, k) {
            Some(p) => 0 <= p < s.len() && key_of(s[p]) == k,
            None => forall|j: int| 0 <= j < s.len() ==> key_of(#[trigger] s[j]) != k,
        },
    decreases s.len(),
{
    if s.len() > 0 {
        lemma_key_pos_spec(s.drop_last(), k);
        match key_pos(s.drop_last(), k) {
            Some(p) => {
                assert(s.drop_last()[p] == s[p]);
            },
            None => {
                assert forall|j: int| 0 <= j < s.len() - 1 implies key_of(#[trigger] s[j]) != k by {
                    assert(s.drop_last()[j] == s[j]);
                }
            },
        }
    }
}

} // verus!

verus! {

/// An assertion names where it came from.
pub open spec fn has_provenance(a: AssertionV) -> bool {
    a.provenance.len() > 0
}

/// A package assertion never names a low-value package.
pub open spec fn not_low_value(a: AssertionV) -> bool {
    match a.kind {
        AssertionKindV::PackageInstalled { package, .. } => !crate::extractor::heuristics::is_low_value(
            package,
        ),
        _ => true,
    }
}

pub open spec fn sound(a: AssertionV) -> bool {
    has_provenance(a) && not_low_value(a)
}

pub open spec fn all_sound(s: Seq<AssertionV>) -> bool {
    forall|i: int| 0 <= i < s.len() ==> sound(#[trigger] s[i])
}

proof fn lemma_all_sound_concat(a: Seq<AssertionV>, b: Seq<AssertionV>)
    requires
        all_sound(a),
        all_sound(b),
    ensures
        all_sound(a + b),
{
    assert forall|i: int| 0 <= i < (a + b).len() implies sound(#[trigger] (a + b)[i]) by {
        if i < a.len() {
            assert((a + b)[i] == a[i]);
        } else {
            assert((a + b)[i] == b[i - a.len()]);
        }
    }
}

proof fn lemma_all_sound_push(a: Seq<AssertionV>, x: AssertionV)
    requires
        all_sound(a),
        sound(x),
    ensures
        all_sound(a.push(x)),
{
    assert forall|i: int| 0 <= i < a.push(x).len() implies sound(#[trigger] a.push(x)[i]) by {
        if i < a.len() {
            assert(a.push(x)[i] == a[i]);
        }
    }
}

proof fn lemma_tokens_sound(
    m: crate::extractor::PackageManager,
    toks: Seq<Seq<char>>,
    line: nat,
)
    ensures
        all_sound(crate::extractor::heuristics::tokens_assertions(m, toks, line)),
    decreases toks.len(),
{
    reveal_strlit("RUN apt-get install ");
    reveal_strlit("RUN apk add ");
    reveal_strlit("RUN pip install ");
    reveal_strlit("RUN npm install ");
    reveal_strlit("RUN composer require ");
    if toks.len() > 0 {
        lemma_tokens_sound(m, toks.drop_last(), line);
        let r = crate::extractor::heuristics::tokens_assertions(m, toks.drop_last(), line);
        match crate::extractor::heuristics::token_assertion(m, toks.last(), line) {
            Some(a) => {
                assert(sound(a));
                lemma_all_sound_push(r, a);
            },
            None => {},
        }
    }
}

proof fn lemma_run_sound(s: Seq<char>, line: nat)
    ensures
        all_sound(crate::extractor::heuristics::run_assertions(s, line)),
{
    assert forall|m: crate::extractor::PackageManager, c: Option<Seq<char>>|
        #[trigger] all_sound(crate::extractor::heuristics::package_assertions_spec(m, c, line)) by {
        match c {
            Some(x) => lemma_tokens_sound(m, crate::text::words(x), line),
            None => {},
        }
    }
    reveal_strlit("RUN useradd/adduser ");
    let u = crate::extractor::heuristics::user_assertion_spec(
        crate::extractor::heuristics::regex_group1(crate::extractor::heuristics::USERADD_PATTERN@, s),
        line,
    );
    assert(all_sound(u));
    let a1 = crate::extractor::heuristics::package_assertions_spec(
        crate::extractor::PackageManager::Apt,
        crate::extractor::heuristics::regex_group1(crate::extractor::heuristics::APT_INSTALL_PATTERN@, s),
        line,
    );
    let a2 = crate::extractor::heuristics::package_assertions_spec(
        crate::extractor::PackageManager::Apk,
        crate::extractor::heuristics::regex_group1(crate::extractor::heuristics::APK_ADD_PATTERN@, s),
        line,
    );
    let a3 = crate::extractor::heuristics::package_assertions_spec(
        crate::extractor::PackageManager::Pip,
        crate::extractor::heuristics::regex_group1(crate::extractor::heuristics::PIP_INSTALL_PATTERN@, s),
        line,
    );
    let a4 = crate::extractor::heuristics::package_assertions_spec(
        crate::extractor::PackageManager::Npm,
        crate::extractor::heuristics::regex_group1(crate::extractor::heuristics::NPM_INSTALL_PATTERN@, s),
        line,
    );
    let a5 = crate::extractor::heuristics::package_assertions_spec(
        crate::extractor::PackageManager::Composer,
        crate::extractor::heuristics::regex_group1(
            crate::extractor::heuristics::COMPOSER_REQUIRE_PATTERN@,
            s,
        ),
        line,
    );
    assert(all_sound(a1) && all_sound(a2) && all_sound(a3) && all_sound(a4) && all_sound(a5));
    lemma_all_sound_concat(a1, a2);
    lemma_all_sound_concat(a1 + a2, a3);
    lemma_all_sound_concat(a1 + a2 + a3, a4);
    lemma_all_sound_concat(a1 + a2 + a3 + a4, a5);
    lemma_all_sound_concat(a1 + a2 + a3 + a4 + a5, u);
}

} // verus!

verus! {

proof fn lemma_services_sound(cs: Seq<crate::extractor::model::ComponentV>)
    ensures
        all_sound(crate::extractor::heuristics::service_assertions(cs)),
    decreases cs.len(),
{
    reveal_strlit("nginx service pattern");
    reveal_strlit(" service pattern");
    reveal_strlit("python runtime pattern");
    reveal_strlit("node runtime pattern");
    reveal_strlit("java runtime pattern");
    reveal_strlit("redis service pattern");
    if cs.len() > 0 {
        lemma_services_sound(cs.drop_last());
        let f = crate::extractor::heuristics::service_for(cs.last());
        assert(all_sound(f));
        lemma_all_sound_concat(crate::extractor::heuristics::service_assertions(cs.drop_last()), f);
    }
}

proof fn lemma_trim_end_keeps_head(s: Seq<char>)
    requires
        s.len() > 0,
        !crate::text::is_ws(s[0]),
    ensures
        crate::text::trim_end(s).len() > 0,
    decreases s.len(),
{
    if s.len() > 1 && crate::text::is_ws(s.last()) {
        assert(s.drop_last()[0] == s[0]);
        lemma_trim_end_keeps_head(s.drop_last());
    }
}

proof fn lemma_copy_sound(
    full: Seq<char>,
    from: Option<Seq<char>>,
    dest: Seq<char>,
    chmod: Option<Seq<char>>,
    line: nat,
)
    ensures
        sound(crate::extractor::walk::copy_assertion(full, from, dest, chmod, line)),
{
    reveal_strlit("COPY ");
    let fp = match from {
        Some(f) => "--from="@ + f,
        None => Seq::<char>::empty(),
    };
    let t = "COPY "@ + fp + " "@ + dest;
    assert(t[0] == 'C');
    assert(crate::text::trim_start(t) == t);
    lemma_trim_end_keeps_head(t);
}

/// What one walk step keeps: old assertions stay in place, soundness is kept,
/// and every exposed port keeps a `PortListening` assertion.
proof fn lemma_walk_step(
    m: Map<Seq<char>, Seq<char>>,
    st: crate::extractor::walk::WalkSt,
    i: crate::parser::ast::RawInstructionV,
)
    requires
        all_sound(st.c.assertions),
        ports_covered(st.c),
    ensures
        ({
            let n = crate::extractor::walk::walk_step(m, st, i).c;
            &&& all_sound(n.assertions)
            &&& ports_covered(n)
        }),
{
    reveal_strlit("WORKDIR ");
    reveal_strlit("USER ");
    reveal_strlit("EXPOSE ");
    reveal_strlit("HEALTHCHECK CMD ");
    reveal_strlit("ADD ");
    reveal_strlit(" ");
    let c = st.c;
    let n = crate::extractor::walk::walk_step(m, st, i).c;
    let line = i.line_number;
    match i.instruction {
        crate::parser::ast::InstructionV::Expose(ports) => {
            let pa = crate::extractor::walk::port_assertions(ports, line);
            assert(all_sound(pa)) by {
                assert forall|k: int| 0 <= k < pa.len() implies sound(#[trigger] pa[k]) by {
                    assert(pa[k] == crate::extractor::walk::port_assertion(ports[k], line));
                }
            }
            lemma_all_sound_concat(c.assertions, pa);
            assert forall|j: int| 0 <= j < n.exposed_ports.len() implies port_asserted(
                n.assertions,
                #[trigger] n.exposed_ports[j],
            ) by {
                if j < c.exposed_ports.len() {
                    assert(n.exposed_ports[j] == c.exposed_ports[j]);
                    let w = choose|w: int|
                        0 <= w < c.assertions.len() && is_port_assertion(
                            c.assertions[w],
                            c.exposed_ports[j],
                        );
                    assert(n.assertions[w] == c.assertions[w]);
                } else {
                    let k = j - c.exposed_ports.len();
                    assert(n.exposed_ports[j] == ports[k]);
                    assert(n.assertions[c.assertions.len() + k] == pa[k]);
                    assert(is_port_assertion(n.assertions[c.assertions.len() + k], ports[k]));
                }
            }
        },
        _ => {
            lemma_walk_step_other(m, st, i);
        },
    }
}

proof fn lemma_extends_keeps_ports(old: ContractV, n: ContractV)
    requires
        ports_covered(old),
        n.exposed_ports == old.exposed_ports,
        n.assertions.len() >= old.assertions.len(),
        forall|k: int| 0 <= k < old.assertions.len() ==> n.assertions[k] == old.assertions[k],
    ensures
        ports_covered(n),
{
    assert forall|j: int| 0 <= j < n.exposed_ports.len() implies port_asserted(
        n.assertions,
        #[trigger] n.exposed_ports[j],
    ) by {
        let w = choose|w: int|
            0 <= w < old.assertions.len() && is_port_assertion(old.assertions[w], old.exposed_ports[j]);
        assert(n.assertions[w] == old.assertions[w]);
    }
}

proof fn lemma_walk_step_other(
    m: Map<Seq<char>, Seq<char>>,
    st: crate::extractor::walk::WalkSt,
    i: crate::parser::ast::RawInstructionV,
)
    requires
        all_sound(st.c.assertions),
        ports_covered(st.c),
        !(i.instruction is Expose),
    ensures
        ({
            let n = crate::extractor::walk::walk_step(m, st, i).c;
            &&& all_sound(n.assertions)
            &&& ports_covered(n)
        }),
{
    reveal_strlit("WORKDIR ");
    reveal_strlit("USER ");
    reveal_strlit("HEALTHCHECK CMD ");
    reveal_strlit("ADD ");
    reveal_strlit(" ");
    let c = st.c;
    let n = crate::extractor::walk::walk_step(m, st, i).c;
    let line = i.line_number;
    let mut extra: Seq<AssertionV> = seq![];
    match i.instruction {
        crate::parser::ast::InstructionV::Workdir(_) => {
            extra = seq![n.assertions.last()];
            assert(n.assertions =~= c.assertions + extra);
        },
        crate::parser::ast::InstructionV::User(_) => {
            extra = seq![n.assertions.last()];
            assert(n.assertions =~= c.assertions + extra);
        },
        crate::parser::ast::InstructionV::Healthcheck { .. } => {
            extra = seq![n.assertions.last()];
            assert(n.assertions =~= c.assertions + extra);
        },
        crate::parser::ast::InstructionV::Add { .. } => {
            extra = seq![n.assertions.last()];
            assert(n.assertions =~= c.assertions + extra);
        },
        crate::parser::ast::InstructionV::Copy { from_stage, dest, chmod, .. } => {
            let full = crate::extractor::walk::resolve_path(m, dest, st.cwd);
            lemma_copy_sound(full, from_stage, dest, chmod, line);
            extra = seq![n.assertions.last()];
            assert(n.assertions =~= c.assertions + extra);
        },
        crate::parser::ast::InstructionV::Entrypoint(cmd) => {
            extra = crate::extractor::walk::opt_seq(
                crate::extractor::walk::process_assertion(cmd, "ENTRYPOINT"@, line),
            );
        },
        crate::parser::ast::InstructionV::Cmd(cmd) => {
            extra = if c.entrypoint is None {
                crate::extractor::walk::opt_seq(
                    crate::extractor::walk::process_assertion(cmd, "CMD"@, line),
                )
            } else {
                seq![]
            };
        },
        crate::parser::ast::InstructionV::Run(cmd) => {
            lemma_run_sound(crate::parser::ast::flat(cmd), line);
            extra = crate::extractor::heuristics::run_assertions(crate::parser::ast::flat(cmd), line);
        },
        _ => {
            assert(c.assertions + extra =~= c.assertions);
        },
    }
    assert(n.assertions == c.assertions + extra);
    assert(all_sound(extra));
    lemma_all_sound_concat(c.assertions, extra);
    lemma_extends_keeps_ports(c, n);
}

/// `a` is a `PortListening` assertion on the port and protocol of `p`.
pub open spec fn is_port_assertion(a: AssertionV, p: crate::parser::ast::PortV) -> bool {
    a.kind == (AssertionKindV::PortListening { protocol: p.protocol, port: p.port })
}

pub open spec fn port_asserted(s: Seq<AssertionV>, p: crate::parser::ast::PortV) -> bool {
    exists|w: int| 0 <= w < s.len() && is_port_assertion(s[w], p)
}

/// Every exposed port of the contract has its `PortListening` assertion.
pub open spec fn ports_covered(c: ContractV) -> bool {
    forall|j: int| 0 <= j < c.exposed_ports.len() ==> port_asserted(c.assertions, #[trigger] c.exposed_ports[j])
}

proof fn lemma_walk(
    m: Map<Seq<char>, Seq<char>>,
    st: crate::extractor::walk::WalkSt,
    insts: Seq<crate::parser::ast::RawInstructionV>,
)
    requires
        all_sound(st.c.assertions),
        ports_covered(st.c),
    ensures
        all_sound(crate::extractor::walk::walk(m, st, insts).c.assertions),
        ports_covered(crate::extractor::walk::walk(m, st, insts).c),
    decreases insts.len(),
{
    if insts.len() > 0 {
        lemma_walk(m, st, insts.drop_last());
        lemma_walk_step(m, crate::extractor::walk::walk(m, st, insts.drop_last()), insts.last());
    }
}

/// Every assertion extracted from a recipe names its origin (a non-empty
/// provenance; source lines are natural numbers), and no package assertion
/// names a low-value package, whatever its manager.
pub proof fn lemma_extracted_assertions_sound(
    df: crate::parser::ast::DockerfileV,
    target: Option<Seq<char>>,
    build_args: Seq<(Seq<char>, Seq<char>)>,
)
    ensures
        forall|i: int|
            0 <= i < crate::extractor::extract_spec(df, target, build_args).assertions.len() ==> {
                let a = #[trigger] crate::extractor::extract_spec(df, target, build_args).assertions[i];
                a.provenance.len() > 0 && not_low_value(a)
            },
{
    lemma_extract_props(df, target, build_args);
}

/// Every port the extracted contract exposes has a `PortListening` assertion on
/// that port and protocol.
pub proof fn lemma_exposed_ports_asserted(
    df: crate::parser::ast::DockerfileV,
    target: Option<Seq<char>>,
    build_args: Seq<(Seq<char>, Seq<char>)>,
)
    ensures
        ports_covered(crate::extractor::extract_spec(df, target, build_args)),
{
    lemma_extract_props(df, target, build_args);
}

proof fn lemma_extract_props(
    df: crate::parser::ast::DockerfileV,
    target: Option<Seq<char>>,
    build_args: Seq<(Seq<char>, Seq<char>)>,
)
    ensures
        all_sound(crate::extractor::extract_spec(df, target, build_args).assertions),
        ports_covered(crate::extractor::extract_spec(df, target, build_args)),
{
    match crate::parser::ast::target_index(df.stages, target) {
        None => {},
        Some(k) => {
            let st = df.stages[k];
            let mm = crate::parser::resolver::stage_table(
                crate::parser::resolver::add_defaults(
                    crate::parser::resolver::insert_all(Map::empty(), build_args),
                    df.global_args,
                ),
                st.instructions,
            );
            let init = ContractV {
                base_image: resolve_str(mm, st.image),
                ..crate::extractor::model::empty_contract()
            };
            let w0 = crate::extractor::walk::WalkSt { c: init, cwd: "/"@ };
            lemma_walk(mm, w0, st.instructions);
            let w = crate::extractor::walk::walk(mm, w0, st.instructions);
            lemma_services_sound(w.c.installed_components);
            lemma_all_sound_concat(
                w.c.assertions,
                crate::extractor::heuristics::service_assertions(w.c.installed_components),
            );
            let fin = crate::extractor::extract_spec(df, target, build_args);
            lemma_extends_keeps_ports(w.c, fin);
        },
    }
}

} // verus!

verus! {

proof fn lemma_sort_len(s: Seq<GossV>)
    ensures
        crate::generator::render::sort_by_key(s).len() == s.len(),
    decreases s.len(),
{
    if s.len() > 0 {
        lemma_sort_len(s.drop_last());
        let r = crate::generator::render::sort_by_key(s.drop_last());
        lemma_insert_pos_range(r, crate::generator::render::sort_key(s.last()), 0);
    }
}

proof fn lemma_insert_pos_range(s: Seq<GossV>, k: Seq<char>, i: int)
    requires
        0 <= i <= s.len(),
    ensures
        i <= crate::generator::render::insert_pos(s, k, i) <= s.len(),
    decreases s.len() - i,
{
    if i < s.len() {
        lemma_insert_pos_range(s, k, i + 1);
    }
}

proof fn lemma_pick_nonempty(rs: Seq<GossV>)
    requires
        rs.len() > 0,
    ensures
        crate::generator::render::pick(rs, crate::generator::render::section_of(rs.last())).len()
            > 0,
{
}

proof fn lemma_add_section_grows(out: Seq<char>, header: Seq<char>, items: Seq<GossV>)
    requires
        header.len() > 0,
    ensures
        crate::generator::render::add_section(out, header, items).len() >= out.len(),
        items.len() > 0 ==> crate::generator::render::add_section(out, header, items).len() > 0,
{
}

/// Sections come in the fixed order `file`, `port`, `process`, `command`,
/// `http`, each present only when it has resources: a document with resources
/// is exactly that sequence of sections, and one without is `command: {}` alone.
pub proof fn lemma_section_order(rs: Seq<GossV>)
    ensures
        rs.len() == 0 ==> crate::generator::render::render_doc(rs) == "command: {}\n"@,
        rs.len() > 0 ==> crate::generator::render::render_doc(rs)
            == crate::generator::render::sections_text(rs),
        crate::generator::render::sections_text(rs) == crate::generator::render::add_section(
            crate::generator::render::add_section(
                crate::generator::render::add_section(
                    crate::generator::render::add_section(
                        crate::generator::render::add_section(
                            seq![],
                            "file:\n"@,
                            crate::generator::render::section_items(rs, 0),
                        ),
                        "port:\n"@,
                        crate::generator::render::section_items(rs, 1),
                    ),
                    "process:\n"@,
                    crate::generator::render::section_items(rs, 2),
                ),
                "command:\n"@,
                crate::generator::render::section_items(rs, 3),
            ),
            "http:\n"@,
            crate::generator::render::section_items(rs, 4),
        ),
{
    reveal_strlit("file:\n");
    reveal_strlit("port:\n");
    reveal_strlit("process:\n");
    reveal_strlit("command:\n");
    reveal_strlit("http:\n");
    if rs.len() == 0 {
        let e = Seq::<GossV>::empty();
        assert(rs =~= e);
        assert forall|k: nat| #[trigger] crate::generator::render::pick(rs, k).len() == 0 by {}
        assert forall|k: nat| #[trigger] crate::generator::render::section_items(rs, k).len() == 0 by {
            lemma_sort_len(crate::generator::render::pick(rs, k));
        }
    } else {
        let k = crate::generator::render::section_of(rs.last());
        lemma_pick_nonempty(rs);
        lemma_sort_len(crate::generator::render::pick(rs, k));
        let s0 = crate::generator::render::section_items(rs, 0);
        let s1 = crate::generator::render::section_items(rs, 1);
        let s2 = crate::generator::render::section_items(rs, 2);
        let s3 = crate::generator::render::section_items(rs, 3);
        let s4 = crate::generator::render::section_items(rs, 4);
        let o1 = crate::generator::render::add_section(seq![], "file:\n"@, s0);
        let o2 = crate::generator::render::add_section(o1, "port:\n"@, s1);
        let o3 = crate::generator::render::add_section(o2, "process:\n"@, s2);
        let o4 = crate::generator::render::add_section(o3, "command:\n"@, s3);
        let o5 = crate::generator::render::add_section(o4, "http:\n"@, s4);
        lemma_add_section_grows(seq![], "file:\n"@, s0);
        lemma_add_section_grows(o1, "port:\n"@, s1);
        lemma_add_section_grows(o2, "process:\n"@, s2);
        lemma_add_section_grows(o3, "command:\n"@, s3);
        lemma_add_section_grows(o4, "http:\n"@, s4);
        assert(o5.len() > 0);
    }
}

} // verus!

verus! {

/// A stricter profile drops no more main-document assertions than a laxer one:
/// the warnings of the main document under `Strict` are at most those under
/// `Standard`, which are at most those under `Minimal`.
pub proof fn lemma_stricter_profile_warns_less(s: Seq<AssertionV>, policy: PolicyConfig)
    ensures
        crate::generator::main_fold(s, crate::Confidence::Low, Profile::Strict, policy).warn.len()
            <= crate::generator::main_fold(
            s,
            crate::Confidence::Medium,
            Profile::Standard,
            policy,
        ).warn.len(),
        crate::generator::main_fold(
            s,
            crate::Confidence::Medium,
            Profile::Standard,
            policy,
        ).warn.len() <= crate::generator::main_fold(
            s,
            crate::Confidence::High,
            Profile::Minimal,
            policy,
        ).warn.len(),
    decreases s.len(),
{
    if s.len() > 0 {
        lemma_stricter_profile_warns_less(s.drop_last(), policy);
    }
}

} // verus!

verus! {

/// Resolution copies text without `$` unchanged up to the next `$`: the
/// result of `s[i..]` is `s[i..k]` followed by the result of `s[k..]`.
pub proof fn lemma_resolve_copies_plain_prefix(
    vars: Map<Seq<char>, Seq<char>>,
    s: Seq<char>,
    i: int,
    k: int,
)
    requires
        0 <= i <= k <= s.len(),
        forall|j: int| i <= j < k ==> s[j] != '$',
    ensures
        resolve_from(vars, s, i) == s.subrange(i, k) + resolve_from(vars, s, k),
    decreases k - i,
{
    if i < k {
        lemma_resolve_copies_plain_prefix(vars, s, i + 1, k);
        assert(seq![s[i]] + (s.subrange(i + 1, k) + resolve_from(vars, s, k)) =~= s.subrange(i, k)
            + resolve_from(vars, s, k));
    } else {
        assert(s.subrange(i, k) + resolve_from(vars, s, k) =~= resolve_from(vars, s, k));
    }
}

/// Text around an unknown reference: `x` and `y` hold no `$`.
pub open spec fn plain(x: Seq<char>) -> bool {
    forall|j: int| 0 <= j < x.len() ==> x[j] != '$'
}

/// An unknown `${NAME}` between plain text stays verbatim, and so does the text.
pub proof fn lemma_unknown_braced_reference_in_text(
    vars: Map<Seq<char>, Seq<char>>,
    x: Seq<char>,
    name: Seq<char>,
    y: Seq<char>,
)
    requires
        is_var_name(name),
        !vars.contains_key(name),
        plain(x),
        plain(y),
    ensures
        resolve_str(vars, x + seq!['$', '{'] + name + seq!['}'] + y) == x + seq!['$', '{'] + name
            + seq!['}'] + y,
{
    let v = seq!['$', '{'] + name + seq!['}'];
    let s = x + v + y;
    let k = x.len() as int;
    let n = name.len() as int;
    let e = k + n + 3;
    assert forall|j: int| 0 <= j < k implies s[j] != '$' by {
        assert(s[j] == x[j]);
    }
    lemma_resolve_copies_plain_prefix(vars, s, 0, k);
    assert(s.subrange(0, k) =~= x);
    assert(s[k] == '$' && s[k + 1] == '{');
    let t = s.subrange(k + 2, s.len() as int);
    assert forall|j: int| 0 <= j < n implies !hit(Some('}'), #[trigger] t[j]) by {
        assert(t[j] == name[j]);
        assert(is_name_char(name[j]));
    }
    assert(t[n] == '}');
    lemma_find_first_some(t, Some('}'), n);
    assert(find_char(t, '}') == Some(n));
    assert(s.subrange(k + 2, k + 2 + n) =~= name);
    assert(s.subrange(k, e) =~= v);
    lemma_split_plain_name(name);
    assert(crate::parser::resolver::expand_braced(vars, name, v) == v);
    assert(resolve_from(vars, s, k) == crate::parser::resolver::expand_braced(
        vars,
        s.subrange(k + 2, k + 2 + n),
        s.subrange(k, e),
    ) + resolve_from(vars, s, e));
    assert forall|j: int| e <= j < s.len() implies s[j] != '$' by {
        assert(s[j] == y[j - e]);
    }
    lemma_resolve_plain_from(vars, s, e);
    assert(s.subrange(e, s.len() as int) =~= y);
    assert(resolve_from(vars, s, k) == v + y);
    assert(resolve_from(vars, s, 0) == x + (v + y));
    assert(x + (v + y) =~= s);
    assert(x + seq!['$', '{'] + name + seq!['}'] + y =~= s);
}

/// An unknown `$NAME` between plain text stays verbatim, when the text after it
/// does not continue the name.
pub proof fn lemma_unknown_plain_reference_in_text(
    vars: Map<Seq<char>, Seq<char>>,
    x: Seq<char>,
    name: Seq<char>,
    y: Seq<char>,
)
    requires
        is_var_name(name),
        !vars.contains_key(name),
        plain(x),
        plain(y),
        y.len() > 0 ==> !is_name_char(y[0]),
    ensures
        resolve_str(vars, x + seq!['$'] + name + y) == x + seq!['$'] + name + y,
{
    let v = seq!['$'] + name;
    let s = x + v + y;
    let k = x.len() as int;
    let n = name.len() as int;
    let e = k + 1 + n;
    assert forall|j: int| 0 <= j < k implies s[j] != '$' by {
        assert(s[j] == x[j]);
    }
    lemma_resolve_copies_plain_prefix(vars, s, 0, k);
    assert(s.subrange(0, k) =~= x);
    assert(s[k] == '$');
    assert(s[k + 1] == name[0]);
    lemma_name_end_stops(s, k + 1, e);
    assert(s.subrange(k + 1, e) =~= name);
    assert(s.subrange(k, e) =~= v);
    assert forall|j: int| e <= j < s.len() implies s[j] != '$' by {
        assert(s[j] == y[j - e]);
    }
    lemma_resolve_plain_from(vars, s, e);
    assert(s.subrange(e, s.len() as int) =~= y);
    assert(resolve_from(vars, s, k) == v + resolve_from(vars, s, e));
    assert(resolve_from(vars, s, 0) == x + (v + y));
    assert(x + (v + y) =~= s);
    assert(x + seq!['$'] + name + y =~= s);
}

proof fn lemma_name_end_stops(s: Seq<char>, j: int, e: int)
    requires
        0 <= j <= e <= s.len(),
        forall|m: int| j <= m < e ==> is_name_char(#[trigger] s[m]),
        e < s.len() ==> !is_name_char(s[e]),
    ensures
        name_end(s, j) == e,
    decreases e - j,
{
    if j < e {
        lemma_name_end_stops(s, j + 1, e);
    }
}

} // verus!
