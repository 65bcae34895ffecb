//! The stage tree produced by the parser, and its mathematical view.
use vstd::prelude::*;
use crate::text::{string_views, words};

verus! {

pub open spec fn opt_view(o: Option<String>) -> Option<Seq<char>> {
    match o {
        Some(s) => Some(s@),
        None => None,
    }
}

pub open spec fn pairs_view(v: Seq<(String, String)>) -> Seq<(Seq<char>, Seq<char>)> {
    v.map_values(|p: (String, String)| (p.0@, p.1@))
}

/// A parsed recipe: the `ARG`s declared before the first `FROM`, and the stages.
#[derive(Debug, Clone)]
pub struct Dockerfile {
    pub global_args: Vec<ArgInstruction>,
    pub stages: Vec<Stage>,
}

/// An `ARG` declaration: a name and an optional default value.
#[derive(Debug, Clone)]
pub struct ArgInstruction {
    pub name: String,
    pub default: Option<String>,
}

/// One `FROM`-rooted block of instructions.
#[derive(Debug, Clone)]
pub struct Stage {
    pub image: String,
    pub alias: Option<String>,
    pub from_line: usize,
    pub instructions: Vec<RawInstruction>,
}

/// An instruction with its 1-based source line and its raw text.
#[derive(Debug, Clone)]
pub struct RawInstruction {
    pub line_number: usize,
    pub instruction: Instruction,
    pub raw: String,
}

/// The instructions that matter for contract extraction.
#[derive(Debug, Clone)]
pub enum Instruction {
    From { image: String, alias: Option<String> },
    Arg { name: String, default: Option<String> },
    Env(Vec<(String, String)>),
    Workdir(String),
    User(String),
    Expose(Vec<PortSpec>),
    Volume(Vec<String>),
    Copy { from_stage: Option<String>, sources: Vec<String>, dest: String, chmod: Option<String> },
    Add { sources: Vec<String>, dest: String, chmod: Option<String> },
    Run(CommandForm),
    Entrypoint(CommandForm),
    Cmd(CommandForm),
    Healthcheck {
        cmd: CommandForm,
        interval: Option<String>,
        timeout: Option<String>,
        start_period: Option<String>,
        retries: Option<u32>,
    },
    HealthcheckNone,
    Shell(Vec<String>),
}

/// A port of an `EXPOSE` instruction with its protocol.
#[derive(Debug, Clone)]
pub struct PortSpec {
    pub port: u16,
    pub protocol: String,
}

/// Exec form (already tokenised) or shell form (a raw string) of a command.
#[derive(Debug, Clone)]
pub enum CommandForm {
    Exec(Vec<String>),
    Shell(String),
}

pub enum CommandFormV {
    Exec(Seq<Seq<char>>),
    Shell(Seq<char>),
}

pub struct PortV {
    pub port: u16,
    pub protocol: Seq<char>,
}

pub enum InstructionV {
    From { image: Seq<char>, alias: Option<Seq<char>> },
    Arg { name: Seq<char>, default: Option<Seq<char>> },
    Env(Seq<(Seq<char>, Seq<char>)>),
    Workdir(Seq<char>),
    User(Seq<char>),
    Expose(Seq<PortV>),
    Volume(Seq<Seq<char>>),
    Copy {
        from_stage: Option<Seq<char>>,
        sources: Seq<Seq<char>>,
        dest: Seq<char>,
        chmod: Option<Seq<char>>,
    },
    Add { sources: Seq<Seq<char>>, dest: Seq<char>, chmod: Option<Seq<char>> },
    Run(CommandFormV),
    Entrypoint(CommandFormV),
    Cmd(CommandFormV),
    Healthcheck {
        cmd: CommandFormV,
        interval: Option<Seq<char>>,
        timeout: Option<Seq<char>>,
        start_period: Option<Seq<char>>,
        retries: Option<u32>,
    },
    HealthcheckNone,
    Shell(Seq<Seq<char>>),
}

pub struct RawInstructionV {
    pub line_number: nat,
    pub instruction: InstructionV,
    pub raw: Seq<char>,
}

pub struct ArgV {
    pub name: Seq<char>,
    pub default: Option<Seq<char>>,
}

pub struct StageV {
    pub image: Seq<char>,
    pub alias: Option<Seq<char>>,
    pub from_line: nat,
    pub instructions: Seq<RawInstructionV>,
}

pub struct DockerfileV {
    pub global_args: Seq<ArgV>,
    pub stages: Seq<StageV>,
}

impl View for CommandForm {
    type V = CommandFormV;

    open spec fn view(&self) -> CommandFormV {
        match self {
            CommandForm::Exec(parts) => CommandFormV::Exec(string_views(parts@)),
            CommandForm::Shell(s) => CommandFormV::Shell(s@),
        }
    }
}

impl View for PortSpec {
    type V = PortV;

    open spec fn view(&self) -> PortV {
        PortV { port: self.port, protocol: self.protocol@ }
    }
}

pub open spec fn ports_view(v: Seq<PortSpec>) -> Seq<PortV> {
    v.map_values(|p: PortSpec| p@)
}

impl View for Instruction {
    type V = InstructionV;

    open spec fn view(&self) -> InstructionV {
        match self {
            Instruction::From { image, alias } => InstructionV::From {
                image: image@,
                alias: opt_view(*alias),
            },
            Instruction::Arg { name, default } => InstructionV::Arg {
                name: name@,
                default: opt_view(*default),
            },
            Instruction::Env(pairs) => InstructionV::Env(pairs_view(pairs@)),
            Instruction::Workdir(d) => InstructionV::Workdir(d@),
            Instruction::User(u) => InstructionV::User(u@),
            Instruction::Expose(ports) => InstructionV::Expose(ports_view(ports@)),
            Instruction::Volume(v) => InstructionV::Volume(string_views(v@)),
            Instruction::Copy { from_stage, sources, dest, chmod } => InstructionV::Copy {
                from_stage: opt_view(*from_stage),
                sources: string_views(sources@),
                dest: dest@,
                chmod: opt_view(*chmod),
            },
            Instruction::Add { sources, dest, chmod } => InstructionV::Add {
                sources: string_views(sources@),
                dest: dest@,
                chmod: opt_view(*chmod),
            },
            Instruction::Run(c) => InstructionV::Run(c@),
            Instruction::Entrypoint(c) => InstructionV::Entrypoint(c@),
            Instruction::Cmd(c) => InstructionV::Cmd(c@),
            Instruction::Healthcheck { cmd, interval, timeout, start_period, retries } =>
                InstructionV::Healthcheck {
                cmd: cmd@,
                interval: opt_view(*interval),
                timeout: opt_view(*timeout),
                start_period: opt_view(*start_period),
                retries: *retries,
            },
            Instruction::HealthcheckNone => InstructionV::HealthcheckNone,
            Instruction::Shell(v) => InstructionV::Shell(string_views(v@)),
        }
    }
}

impl View for RawInstruction {
    type V = RawInstructionV;

    open spec fn view(&self) -> RawInstructionV {
        RawInstructionV {
            line_number: self.line_number as nat,
            instruction: self.instruction@,
            raw: self.raw@,
        }
    }
}

pub open spec fn raws_view(v: Seq<RawInstruction>) -> Seq<RawInstructionV> {
    v.map_values(|r: RawInstruction| r@)
}

impl View for ArgInstruction {
    type V = ArgV;

    open spec fn view(&self) -> ArgV {
        ArgV { name: self.name@, default: opt_view(self.default) }
    }
}

pub open spec fn args_view(v: Seq<ArgInstruction>) -> Seq<ArgV> {
    v.map_values(|a: ArgInstruction| a@)
}

impl View for Stage {
    type V = StageV;

    open spec fn view(&self) -> StageV {
        StageV {
            image: self.image@,
            alias: opt_view(self.alias),
            from_line: self.from_line as nat,
            instructions: raws_view(self.instructions@),
        }
    }
}

pub open spec fn stages_view(v: Seq<Stage>) -> Seq<StageV> {
    v.map_values(|s: Stage| s@)
}

impl View for Dockerfile {
    type V = DockerfileV;

    open spec fn view(&self) -> DockerfileV {
        DockerfileV { global_args: args_view(self.global_args@), stages: stages_view(self.stages@) }
    }
}

/// The flat, human-readable rendering of a command: exec parts joined by single spaces.
pub open spec fn flat(c: CommandFormV) -> Seq<char> {
    match c {
        CommandFormV::Exec(parts) => join_space(parts),
        CommandFormV::Shell(s) => s,
    }
}

pub open spec fn join_space(parts: Seq<Seq<char>>) -> Seq<char>
    decreases parts.len(),
{
    if parts.len() == 0 {
        seq![]
    } else if parts.len() == 1 {
        parts[0]
    } else {
        join_space(parts.drop_last()) + seq![' '] + parts.last()
    }
}

/// The last component of a path, as `Path::file_name` gives it: trailing `/`
/// and `/.` are ignored, and there is none when that component is empty, `.` or `..`.
pub open spec fn file_name(p: Seq<char>) -> Option<Seq<char>> {
    let b = after_last_slash(strip_tail(p));
    if b.len() == 0 || b == seq!['.', '.'] || b == seq!['.'] {
        None
    } else {
        Some(b)
    }
}

/// `p` without trailing `/` and `/.` (a lone `/` is kept).
pub open spec fn strip_tail(p: Seq<char>) -> Seq<char>
    decreases p.len(),
{
    if p.len() > 1 && p.last() == '/' {
        strip_tail(p.drop_last())
    } else if p.len() >= 2 && p.last() == '.' && p[p.len() - 2] == '/' {
        strip_tail(p.drop_last())
    } else {
        p
    }
}

/// The part of `p` after its last `/` (all of `p` if it has none).
pub open spec fn after_last_slash(p: Seq<char>) -> Seq<char>
    decreases p.len(),
{
    if p.len() == 0 {
        p
    } else if p.last() == '/' {
        seq![]
    } else {
        after_last_slash(p.drop_last()).push(p.last())
    }
}

/// The basename of the first token of the command, if there is one.
pub open spec fn primary_binary_of(c: CommandFormV) -> Option<Seq<char>> {
    match c {
        CommandFormV::Exec(parts) => if parts.len() == 0 {
            None
        } else {
            file_name(parts[0])
        },
        CommandFormV::Shell(s) => if words(s).len() == 0 {
            None
        } else {
            file_name(words(s)[0])
        },
    }
}

} // verus!

verus! {

pub fn clone_opt(o: &Option<String>) -> (r: Option<String>)
    ensures
        opt_view(r) == opt_view(*o),
{
    match o {
        Some(s) => Some(s.clone()),
        None => None,
    }
}

pub fn clone_strings(v: &Vec<String>) -> (r: Vec<String>)
    ensures
        string_views(r@) == string_views(v@),
{
    let mut r: Vec<String> = Vec::new();
    let mut i: usize = 0;
    while i < v.len()
        invariant
            i <= v@.len(),
            string_views(r@) == string_views(v@.subrange(0, i as int)),
        decreases v@.len() - i,
    {
        let ghost r0 = string_views(r@);
        r.push(v[i].clone());
        i += 1;
        assert(string_views(r@) =~= string_views(v@.subrange(0, i as int))) by {
            assert(string_views(r@) =~= r0.push(v@[i - 1]@));
        }
    }
    assert(v@.subrange(0, v@.len() as int) =~= v@);
    r
}

pub fn clone_form(c: &CommandForm) -> (r: CommandForm)
    ensures
        r@ == c@,
{
    match c {
        CommandForm::Exec(parts) => CommandForm::Exec(clone_strings(parts)),
        CommandForm::Shell(s) => CommandForm::Shell(s.clone()),
    }
}

proof fn lemma_join_step(s: Seq<Seq<char>>, i: int)
    requires
        1 <= i < s.len(),
    ensures
        join_space(s.subrange(0, i + 1)) == join_space(s.subrange(0, i)) + seq![' '] + s[i],
{
    assert(s.subrange(0, i + 1).drop_last() =~= s.subrange(0, i));
}

/// Strings joined by single spaces.
pub fn join_with_space(parts: &Vec<String>) -> (r: String)
    ensures
        r@ == join_space(string_views(parts@)),
{
    let ghost sv = string_views(parts@);
    let mut out = String::new();
    let mut i: usize = 0;
    while i < parts.len()
        invariant
            i <= parts@.len(),
            sv == string_views(parts@),
            out@ == join_space(sv.subrange(0, i as int)),
        decreases parts@.len() - i,
    {
        if i > 0 {
            crate::text::push_char(&mut out, ' ');
            proof {
                lemma_join_step(sv, i as int);
            }
        } else {
            assert(sv.subrange(0, 1).drop_last() =~= sv.subrange(0, 0));
        }
        crate::text::push_str(&mut out, parts[i].as_str());
        i += 1;
    }
    assert(sv.subrange(0, parts@.len() as int) =~= sv);
    out
}

proof fn lemma_strip_tail_step(p: Seq<char>, b: int)
    requires
        0 < b <= p.len(),
        (b > 1 && p[b - 1] == '/') || (b >= 2 && p[b - 1] == '.' && p[b - 2] == '/'),
    ensures
        strip_tail(p.subrange(0, b)) == strip_tail(p.subrange(0, b - 1)),
{
    assert(p.subrange(0, b).drop_last() =~= p.subrange(0, b - 1));
}

proof fn lemma_after_slash_step(t: Seq<char>, j: int)
    requires
        0 < j <= t.len(),
        t[j - 1] != '/',
    ensures
        after_last_slash(t.subrange(0, j)) + t.subrange(j, t.len() as int) == after_last_slash(
            t.subrange(0, j - 1),
        ) + t.subrange(j - 1, t.len() as int),
{
    let u = t.subrange(0, j);
    assert(u.drop_last() =~= t.subrange(0, j - 1));
    assert(u.last() == t[j - 1]);
    assert(after_last_slash(u) == after_last_slash(t.subrange(0, j - 1)).push(t[j - 1]));
    assert(after_last_slash(t.subrange(0, j - 1)).push(t[j - 1]) + t.subrange(j, t.len() as int)
        =~= after_last_slash(t.subrange(0, j - 1)) + t.subrange(j - 1, t.len() as int));
}

/// `Path::file_name` of a path, as a string.
#[verifier::rlimit(30)]
pub fn file_name_of(p: &Vec<char>) -> (r: Option<String>)
    ensures
        opt_view(r) == file_name(p@),
{
    let mut b: usize = p.len();
    assert(p@.subrange(0, b as int) =~= p@);
    while (b > 1 && p[b - 1] == '/') || (b >= 2 && p[b - 1] == '.' && p[b - 2] == '/')
        invariant
            b <= p@.len(),
            strip_tail(p@) == strip_tail(p@.subrange(0, b as int)),
        decreases b,
    {
        proof {
            lemma_strip_tail_step(p@, b as int);
        }
        b -= 1;
    }
    let ghost t = p@.subrange(0, b as int);
    assert(strip_tail(t) == t);
    let mut j: usize = b;
    assert(t.subrange(0, b as int) =~= t);
    assert(t.subrange(b as int, b as int) =~= Seq::<char>::empty());
    while j > 0 && p[j - 1] != '/'
        invariant
            j <= b <= p@.len(),
            t == p@.subrange(0, b as int),
            after_last_slash(t) == after_last_slash(t.subrange(0, j as int)) + t.subrange(
                j as int,
                b as int,
            ),
        decreases j,
    {
        proof {
            lemma_after_slash_step(t, j as int);
            assert(t.subrange(0, j as int).subrange(0, j - 1) =~= t.subrange(0, j - 1));
        }
        j -= 1;
    }
    proof {
        let u = t.subrange(0, j as int);
        if j > 0 {
            assert(u.last() == '/');
        }
        assert(after_last_slash(u) =~= Seq::<char>::empty());
        assert(after_last_slash(t) =~= p@.subrange(j as int, b as int));
    }
    let base = crate::text::slice_chars(p, j, b);
    let n = base.len();
    if n == 0 || (n == 1 && base[0] == '.') || (n == 2 && base[0] == '.' && base[1] == '.') {
        proof {
            if n == 1 && base@[0] == '.' {
                assert(base@ =~= seq!['.']);
            }
            if n == 2 && base@[0] == '.' && base@[1] == '.' {
                assert(base@ =~= seq!['.', '.']);
            }
        }
        None
    } else {
        assert(base@ != seq!['.']);
        assert(base@ != seq!['.', '.']);
        Some(crate::text::string_of(&base))
    }
}

impl CommandForm {
    /// The command as one flat string.
    pub fn to_string_lossy(&self) -> (r: String)
        ensures
            r@ == flat(self@),
    {
        match self {
            CommandForm::Exec(parts) => join_with_space(parts),
            CommandForm::Shell(s) => s.clone(),
        }
    }

    /// The basename of the command's first token, if any.
    pub fn primary_binary(&self) -> (r: Option<String>)
        ensures
            opt_view(r) == primary_binary_of(self@),
    {
        match self {
            CommandForm::Exec(parts) => {
                if parts.len() == 0 {
                    None
                } else {
                    let first = crate::text::chars_of(parts[0].as_str());
                    file_name_of(&first)
                }
            },
            CommandForm::Shell(s) => {
                let v = crate::text::chars_of(s.as_str());
                let ws = crate::text::split_words(&v);
                if ws.len() == 0 {
                    None
                } else {
                    file_name_of(&ws[0])
                }
            },
        }
    }
}

} // verus!

verus! {

/// Whether stage `s` is the one aliased `name` (compared without regard to ASCII case).
pub open spec fn alias_matches(s: StageV, name: Seq<char>) -> bool {
    match s.alias {
        Some(a) => crate::text::eq_ignore_ascii_case(a, name),
        None => false,
    }
}

/// Index of the first stage aliased `name`.
pub open spec fn find_alias(stages: Seq<StageV>, name: Seq<char>) -> Option<int>
    decreases stages.len(),
{
    if stages.len() == 0 {
        None
    } else {
        match find_alias(stages.drop_last(), name) {
            Some(k) => Some(k),
            None => if alias_matches(stages.last(), name) {
                Some(stages.len() - 1)
            } else {
                None
            },
        }
    }
}

/// The stage a target selects: the first with that alias, or the last stage when
/// no target is given.
pub open spec fn target_index(stages: Seq<StageV>, target: Option<Seq<char>>) -> Option<int> {
    match target {
        Some(n) => find_alias(stages, n),
        None => if stages.len() == 0 {
            None
        } else {
            Some(stages.len() - 1)
        },
    }
}

pub open spec fn str_opt_view(o: Option<&str>) -> Option<Seq<char>> {
    match o {
        Some(s) => Some(s@),
        None => None,
    }
}

pub open spec fn aliases_of(stages: Seq<StageV>) -> Seq<Seq<char>>
    decreases stages.len(),
{
    if stages.len() == 0 {
        seq![]
    } else {
        let r = aliases_of(stages.drop_last());
        match stages.last().alias {
            Some(a) => r.push(a),
            None => r,
        }
    }
}

proof fn lemma_find_alias_none(stages: Seq<StageV>, name: Seq<char>)
    requires
        forall|j: int| 0 <= j < stages.len() ==> !alias_matches(#[trigger] stages[j], name),
    ensures
        find_alias(stages, name) is None,
    decreases stages.len(),
{
    if stages.len() > 0 {
        assert forall|j: int| 0 <= j < stages.drop_last().len() implies !alias_matches(
            #[trigger] stages.drop_last()[j],
            name,
        ) by {
            assert(stages.drop_last()[j] == stages[j]);
        }
        lemma_find_alias_none(stages.drop_last(), name);
        assert(!alias_matches(stages[stages.len() - 1], name));
    }
}

proof fn lemma_find_alias_some(stages: Seq<StageV>, name: Seq<char>, i: int)
    requires
        0 <= i < stages.len(),
        alias_matches(stages[i], name),
        forall|j: int| 0 <= j < i ==> !alias_matches(#[trigger] stages[j], name),
    ensures
        find_alias(stages, name) == Some(i),
    decreases stages.len(),
{
    let d = stages.drop_last();
    if i < stages.len() - 1 {
        assert forall|j: int| 0 <= j < i implies !alias_matches(#[trigger] d[j], name) by {
            assert(d[j] == stages[j]);
        }
        assert(d[i] == stages[i]);
        lemma_find_alias_some(d, name, i);
    } else {
        assert forall|j: int| 0 <= j < d.len() implies !alias_matches(#[trigger] d[j], name) by {
            assert(d[j] == stages[j]);
        }
        lemma_find_alias_none(d, name);
    }
}

impl Dockerfile {
    /// The stage aliased `target` (ASCII case ignored), or the last stage without a target.
    pub fn resolve_target(&self, target: Option<&str>) -> (r: Option<&Stage>)
        ensures
            match target_index(self@.stages, str_opt_view(target)) {
                Some(k) => r matches Some(s) && 0 <= k < self@.stages.len() && s@ == self@.stages[k],
                None => r is None,
            },
    {
        let ghost sv = self@.stages;
        match target {
            Some(name) => {
                let nv = crate::text::chars_of(name);
                let mut i: usize = 0;
                while i < self.stages.len()
                    invariant
                        i <= self.stages@.len(),
                        sv == self@.stages,
                        nv@ == name@,
                        target == Some(name),
                        forall|j: int| 0 <= j < i ==> !alias_matches(#[trigger] sv[j], name@),
                    decreases self.stages@.len() - i,
                {
                    let s = &self.stages[i];
                    assert(sv[i as int] == s@);
                    let hit = match &s.alias {
                        Some(a) => {
                            let av = crate::text::chars_of(a.as_str());
                            let pv = crate::text::chars_of(name);
                            assert(s@.alias == Some(a@));
                            eq_ignore_case_chars(&av, &pv)
                        },
                        None => false,
                    };
                    assert(hit == alias_matches(sv[i as int], name@));
                    if hit {
                        proof {
                            lemma_find_alias_some(sv, name@, i as int);
                        }
                        assert(str_opt_view(target) == Some(name@));
                        assert(target_index(self@.stages, str_opt_view(target)) == Some(i as int));
                        return Some(s);
                    }
                    i += 1;
                }
                proof {
                    lemma_find_alias_none(sv, name@);
                }
                None
            },
            None => {
                if self.stages.len() == 0 {
                    None
                } else {
                    let k = self.stages.len() - 1;
                    assert(sv[k as int] == self.stages@[k as int]@);
                    Some(&self.stages[k])
                }
            },
        }
    }

    /// The aliases of the stages that have one, in order.
    pub fn stage_aliases(&self) -> (r: Vec<String>)
        ensures
            string_views(r@) == aliases_of(self@.stages),
    {
        let ghost sv = self@.stages;
        let mut r: Vec<String> = Vec::new();
        let mut i: usize = 0;
        while i < self.stages.len()
            invariant
                i <= self.stages@.len(),
                sv == self@.stages,
                string_views(r@) == aliases_of(sv.subrange(0, i as int)),
            decreases self.stages@.len() - i,
        {
            let ghost r0 = string_views(r@);
            assert(sv.subrange(0, i + 1).drop_last() =~= sv.subrange(0, i as int));
            assert(sv.subrange(0, i + 1).last() == self.stages@[i as int]@);
            match &self.stages[i].alias {
                Some(a) => {
                    r.push(a.clone());
                    assert(string_views(r@) =~= r0.push(a@));
                },
                None => {},
            }
            i += 1;
        }
        assert(sv.subrange(0, self.stages@.len() as int) =~= sv);
        r
    }
}

fn eq_ignore_case_chars(a: &Vec<char>, b: &Vec<char>) -> (r: bool)
    ensures
        r == crate::text::eq_ignore_ascii_case(a@, b@),
{
    let ua = crate::text::upper_chars(a);
    let ub = crate::text::upper_chars(b);
    crate::text::chars_eq(&ua, &ub)
}

} // verus!
