//! Variable resolution: `$NAME`, `${NAME}`, `${NAME:-default}` and `${NAME-default}`
//! against a layered symbol table.
use vstd::prelude::*;
use crate::parser::ast::{ArgInstruction, Instruction, Stage, RawInstructionV, InstructionV, ArgV};
use crate::text::{
    chars_of, contains, find_char, find_char_from, find_sub, is_ascii_alnum, is_ascii_alpha,
    is_alnum_char, is_alpha_char, occurs_at, push_chars, slice_chars,
};

verus! {

pub open spec fn is_name_start(c: char) -> bool {
    is_ascii_alpha(c) || c == '_'
}

pub open spec fn is_name_char(c: char) -> bool {
    is_ascii_alnum(c) || c == '_'
}

/// The end of the run of name characters that starts at `j`.
pub open spec fn name_end(s: Seq<char>, j: int) -> int
    decreases s.len() - j,
{
    if 0 <= j < s.len() && is_name_char(s[j]) {
        name_end(s, j + 1)
    } else {
        j
    }
}

/// Position of the first occurrence of `p` in `s`, if any.
pub open spec fn first_occurrence(s: Seq<char>, p: Seq<char>) -> Option<int> {
    if contains(s, p) {
        Some(choose|i: int| occurs_at(s, p, i) && forall|j: int| 0 <= j < i ==> !occurs_at(s, p, j))
    } else {
        None
    }
}

/// Name and optional default of the text between `${` and `}`.
pub open spec fn split_default(expr: Seq<char>) -> (Seq<char>, Option<Seq<char>>) {
    match first_occurrence(expr, seq![':', '-']) {
        Some(sep) => (expr.subrange(0, sep), Some(expr.subrange(sep + 2, expr.len() as int))),
        None => match find_char(expr, '-') {
            Some(sep) => (expr.subrange(0, sep), Some(expr.subrange(sep + 1, expr.len() as int))),
            None => (expr, None),
        },
    }
}

/// What `${expr}` (written `whole` in the source) becomes.
pub open spec fn expand_braced(
    vars: Map<Seq<char>, Seq<char>>,
    expr: Seq<char>,
    whole: Seq<char>,
) -> Seq<char> {
    let (name, default) = split_default(expr);
    if vars.contains_key(name) {
        vars[name]
    } else {
        match default {
            Some(d) => d,
            None => whole,
        }
    }
}

/// The resolution of `s[i..]`, scanning left to right.
pub open spec fn resolve_from(vars: Map<Seq<char>, Seq<char>>, s: Seq<char>, i: int) -> Seq<char>
    decreases s.len() - i,
{
    if i < 0 || i >= s.len() {
        seq![]
    } else if s[i] != '$' {
        seq![s[i]] + resolve_from(vars, s, i + 1)
    } else if i + 1 >= s.len() {
        seq!['$']
    } else if s[i + 1] == '{' {
        match find_char(s.subrange(i + 2, s.len() as int), '}') {
            Some(c0) => {
                let c = i + 2 + c0;
                if i < c + 1 <= s.len() {
                    expand_braced(vars, s.subrange(i + 2, c), s.subrange(i, c + 1)) + resolve_from(
                        vars,
                        s,
                        c + 1,
                    )
                } else {
                    seq![]
                }
            },
            None => s.subrange(i, s.len() as int),
        }
    } else if is_name_start(s[i + 1]) {
        let e = name_end(s, i + 1);
        let name = s.subrange(i + 1, e);
        if i < e <= s.len() {
            (if vars.contains_key(name) {
                vars[name]
            } else {
                s.subrange(i, e)
            }) + resolve_from(vars, s, e)
        } else {
            seq![]
        }
    } else {
        seq!['$'] + resolve_from(vars, s, i + 1)
    }
}

/// Substitution of known references in `s`; unknown and malformed ones are kept.
pub open spec fn resolve_str(vars: Map<Seq<char>, Seq<char>>, s: Seq<char>) -> Seq<char> {
    resolve_from(vars, s, 0)
}

/// Whether the text between `${` and `}` names a variable syntactically.
pub open spec fn valid_var_expr(expr: Seq<char>) -> bool {
    let name = split_default(expr).0;
    name.len() > 0 && is_name_start(name[0]) && forall|k: int|
        1 <= k < name.len() ==> is_name_char(#[trigger] name[k])
}

/// Whether `s[i..]` holds a syntactically valid reference `$NAME` or `${NAME...}`.
pub open spec fn has_ref_from(s: Seq<char>, i: int) -> bool
    decreases s.len() - i,
{
    if i < 0 || i >= s.len() {
        false
    } else if s[i] != '$' {
        has_ref_from(s, i + 1)
    } else if i + 1 >= s.len() {
        false
    } else if s[i + 1] == '{' {
        match find_char(s.subrange(i + 2, s.len() as int), '}') {
            Some(c0) => valid_var_expr(s.subrange(i + 2, i + 2 + c0)) || (if i < i + 3 + c0 <= s.len() {
                has_ref_from(s, i + 3 + c0)
            } else {
                false
            }),
            None => false,
        }
    } else if is_name_start(s[i + 1]) {
        true
    } else {
        has_ref_from(s, i + 1)
    }
}

pub open spec fn has_reference(s: Seq<char>) -> bool {
    has_ref_from(s, 0)
}

/// The symbol table of a list of assignments: a later assignment of a name wins.
pub open spec fn map_of(v: Seq<(Seq<char>, Seq<char>)>) -> Map<Seq<char>, Seq<char>>
    decreases v.len(),
{
    if v.len() == 0 {
        Map::empty()
    } else {
        map_of(v.drop_last()).insert(v.last().0, v.last().1)
    }
}

pub open spec fn vars_view(v: Seq<(String, String)>) -> Seq<(Seq<char>, Seq<char>)> {
    v.map_values(|p: (String, String)| (p.0@, p.1@))
}

/// Resolves variable references against a symbol table.
pub struct VariableResolver {
    vars: Vec<(String, String)>,
}

impl View for VariableResolver {
    type V = Map<Seq<char>, Seq<char>>;

    closed spec fn view(&self) -> Map<Seq<char>, Seq<char>> {
        map_of(vars_view(self.vars@))
    }
}

proof fn lemma_map_of_absent(v: Seq<(Seq<char>, Seq<char>)>, k: Seq<char>)
    requires
        forall|j: int| 0 <= j < v.len() ==> (#[trigger] v[j]).0 != k,
    ensures
        !map_of(v).contains_key(k),
    decreases v.len(),
{
    if v.len() > 0 {
        assert forall|j: int| 0 <= j < v.drop_last().len() implies (
        #[trigger] v.drop_last()[j]).0 != k by {
            assert(v.drop_last()[j] == v[j]);
        }
        lemma_map_of_absent(v.drop_last(), k);
        assert(v[v.len() - 1].0 != k);
    }
}

proof fn lemma_map_of_last(v: Seq<(Seq<char>, Seq<char>)>, k: Seq<char>, j: int)
    requires
        0 <= j < v.len(),
        v[j].0 == k,
        forall|m: int| j < m < v.len() ==> (#[trigger] v[m]).0 != k,
    ensures
        map_of(v).contains_key(k),
        map_of(v)[k] == v[j].1,
    decreases v.len(),
{
    if j < v.len() - 1 {
        assert forall|m: int| j < m < v.drop_last().len() implies (
        #[trigger] v.drop_last()[m]).0 != k by {
            assert(v.drop_last()[m] == v[m]);
        }
        assert(v.drop_last()[j] == v[j]);
        lemma_map_of_last(v.drop_last(), k, j);
        assert(v[v.len() - 1].0 != k);
    }
}

proof fn lemma_map_of_update(v: Seq<(Seq<char>, Seq<char>)>, j: int, val: Seq<char>)
    requires
        0 <= j < v.len(),
        forall|m: int| j < m < v.len() ==> (#[trigger] v[m]).0 != v[j].0,
    ensures
        map_of(v.update(j, (v[j].0, val))) == map_of(v).insert(v[j].0, val),
    decreases v.len(),
{
    let k = v[j].0;
    let u = v.update(j, (k, val));
    if j == v.len() - 1 {
        assert(u.drop_last() =~= v.drop_last());
        assert(map_of(u) =~= map_of(v).insert(k, val));
    } else {
        assert(u.drop_last() =~= v.drop_last().update(j, (k, val)));
        assert forall|m: int| j < m < v.drop_last().len() implies (#[trigger] v.drop_last()[m]).0
            != v.drop_last()[j].0 by {
            assert(v.drop_last()[m] == v[m]);
        }
        lemma_map_of_update(v.drop_last(), j, val);
        assert(v[v.len() - 1].0 != k);
        assert(map_of(u) =~= map_of(v).insert(k, val));
    }
}

impl VariableResolver {
    /// An empty symbol table.
    pub fn new() -> (r: Self)
        ensures
            r@ == Map::<Seq<char>, Seq<char>>::empty(),
    {
        VariableResolver { vars: Vec::new() }
    }

    /// Position of the last assignment of `name`, if any.
    fn position(&self, name: &Vec<char>) -> (r: Option<usize>)
        ensures
            match r {
                Some(j) => j < self.vars@.len() && vars_view(self.vars@)[j as int].0 == name@
                    && self@.contains_key(name@) && self@[name@] == vars_view(self.vars@)[j as int].1
                    && forall|m: int|
                    j < m < self.vars@.len() ==> (#[trigger] vars_view(self.vars@)[m]).0 != name@,
                None => !self@.contains_key(name@),
            },
    {
        let ghost vv = vars_view(self.vars@);
        let mut i: usize = self.vars.len();
        while i > 0
            invariant
                i <= self.vars@.len(),
                vv == vars_view(self.vars@),
                forall|m: int| i <= m < vv.len() ==> (#[trigger] vv[m]).0 != name@,
            decreases i,
        {
            let key = chars_of(self.vars[i - 1].0.as_str());
            if crate::text::chars_eq(&key, name) {
                proof {
                    lemma_map_of_last(vv, name@, i - 1);
                }
                return Some(i - 1);
            }
            i -= 1;
        }
        proof {
            lemma_map_of_absent(vv, name@);
        }
        None
    }

    /// Looks a name up.
    pub fn lookup(&self, name: &Vec<char>) -> (r: Option<String>)
        ensures
            match r {
                Some(v) => self@.contains_key(name@) && self@[name@] == v@,
                None => !self@.contains_key(name@),
            },
    {
        match self.position(name) {
            Some(j) => Some(self.vars[j].1.clone()),
            None => None,
        }
    }

    /// Sets `name` to `value`, replacing an earlier value.
    pub fn set(&mut self, name: &String, value: String)
        ensures
            final(self)@ == old(self)@.insert(name@, value@),
    {
        let nv = chars_of(name.as_str());
        match self.position(&nv) {
            Some(j) => {
                let ghost v0 = vars_view(self.vars@);
                let k = self.vars[j].0.clone();
                self.vars.set(j, (k, value));
                proof {
                    lemma_map_of_update(v0, j as int, value@);
                    assert(vars_view(self.vars@) =~= v0.update(j as int, (v0[j as int].0, value@)));
                }
            },
            None => {
                let ghost v0 = vars_view(self.vars@);
                self.vars.push((name.clone(), value));
                assert(vars_view(self.vars@).drop_last() =~= v0);
            },
        }
    }

    /// Sets `name` to `value` only when it has no value yet.
    pub fn set_if_absent(&mut self, name: &String, value: &String)
        ensures
            final(self)@ == if old(self)@.contains_key(name@) {
                old(self)@
            } else {
                old(self)@.insert(name@, value@)
            },
    {
        let nv = chars_of(name.as_str());
        if self.position(&nv).is_none() {
            self.set(name, value.clone());
        }
    }
}

} // verus!

verus! {

proof fn lemma_first_occurrence(s: Seq<char>, p: Seq<char>, i: int)
    requires
        occurs_at(s, p, i),
        forall|j: int| 0 <= j < i ==> !occurs_at(s, p, j),
    ensures
        first_occurrence(s, p) == Some(i),
{
    assert(contains(s, p));
    let k = choose|k: int| occurs_at(s, p, k) && forall|j: int| 0 <= j < k ==> !occurs_at(s, p, j);
    if k < i {
        assert(!occurs_at(s, p, k));
    }
    if i < k {
        assert(!occurs_at(s, p, i));
    }
}

fn split_default_exec(expr: &Vec<char>) -> (r: (Vec<char>, Option<Vec<char>>))
    ensures
        r.0@ == split_default(expr@).0,
        match r.1 {
            Some(d) => split_default(expr@).1 == Some(d@),
            None => split_default(expr@).1 is None,
        },
{
    let pat = vec![':', '-'];
    assert(pat@ =~= seq![':', '-']);
    match find_sub(expr, &pat) {
        Some(sep) => {
            proof {
                lemma_first_occurrence(expr@, pat@, sep as int);
            }
            assert(sep + 2 <= expr.len());
            (slice_chars(expr, 0, sep), Some(slice_chars(expr, sep + 2, expr.len())))
        },
        None => {
            assert(first_occurrence(expr@, pat@) is None);
            assert(expr@.subrange(0, expr@.len() as int) =~= expr@);
            match find_char_from(expr, 0, '-') {
                Some(sep) => {
                    assert(sep < expr.len());
                    (slice_chars(expr, 0, sep), Some(slice_chars(expr, sep + 1, expr.len())))
                },
                None => (slice_chars(expr, 0, expr.len()), None),
            }
        },
    }
}

fn name_end_exec(s: &Vec<char>, j: usize) -> (r: usize)
    requires
        j <= s@.len(),
    ensures
        r == name_end(s@, j as int),
        j <= r <= s@.len(),
{
    let mut k: usize = j;
    while k < s.len() && (is_alnum_char(s[k]) || s[k] == '_')
        invariant
            j <= k <= s@.len(),
            name_end(s@, j as int) == name_end(s@, k as int),
        decreases s@.len() - k,
    {
        k += 1;
    }
    k
}

/// Whether the text between `${` and `}` names a variable syntactically.
fn is_valid_var_name(expr: &Vec<char>) -> (r: bool)
    ensures
        r == valid_var_expr(expr@),
{
    let (name, _d) = split_default_exec(expr);
    if name.len() == 0 {
        return false;
    }
    if !(is_alpha_char(name[0]) || name[0] == '_') {
        return false;
    }
    let mut k: usize = 1;
    while k < name.len()
        invariant
            1 <= k <= name@.len(),
            name@ == split_default(expr@).0,
            forall|m: int| 1 <= m < k ==> is_name_char(#[trigger] name@[m]),
        decreases name@.len() - k,
    {
        if !(is_alnum_char(name[k]) || name[k] == '_') {
            assert(!is_name_char(name@[k as int]));
            return false;
        }
        k += 1;
    }
    true
}

/// Whether the text holds a syntactically valid variable reference.
fn contains_variable_reference(v: &Vec<char>) -> (r: bool)
    ensures
        r == has_reference(v@),
{
    let len = v.len();
    let mut i: usize = 0;
    while i < len
        invariant
            len == v@.len(),
            i <= len,
            has_reference(v@) == has_ref_from(v@, i as int),
        decreases len - i,
    {
        if v[i] != '$' {
            i += 1;
        } else if i + 1 >= len {
            return false;
        } else if v[i + 1] == '{' {
            match find_char_from(v, i + 2, '}') {
                Some(c) => {
                    let expr = slice_chars(v, i + 2, c);
                    if is_valid_var_name(&expr) {
                        return true;
                    }
                    i = c + 1;
                },
                None => {
                    return false;
                },
            }
        } else if is_alpha_char(v[i + 1]) || v[i + 1] == '_' {
            return true;
        } else {
            i += 1;
        }
    }
    false
}

impl VariableResolver {
    /// Resolves `$NAME`, `${NAME}`, `${NAME:-default}` and `${NAME-default}` in one
    /// left-to-right scan; unknown and malformed references are kept as written.
    pub fn resolve(&self, input: &str) -> (r: String)
        ensures
            r@ == resolve_str(self@, input@),
    {
        let s = chars_of(input);
        let ghost m = self@;
        let len = s.len();
        let mut out = String::new();
        let mut i: usize = 0;
        while i < len
            invariant
                len == s@.len(),
                i <= len,
                m == self@,
                out@ + resolve_from(m, s@, i as int) == resolve_from(m, s@, 0),
            decreases len - i,
        {
            let ghost before = out@;
            let ghost rest = resolve_from(m, s@, i as int);
            let ch = s[i];
            if ch != '$' {
                crate::text::push_char(&mut out, ch);
                assert(before + rest =~= out@ + resolve_from(m, s@, i + 1));
                i += 1;
            } else if i + 1 >= len {
                crate::text::push_char(&mut out, '$');
                assert(before + rest =~= out@ + resolve_from(m, s@, len as int));
                i = len;
            } else if s[i + 1] == '{' {
                match find_char_from(&s, i + 2, '}') {
                    Some(c) => {
                        let expr = slice_chars(&s, i + 2, c);
                        let (name, default) = split_default_exec(&expr);
                        let ghost piece = expand_braced(m, expr@, s@.subrange(i as int, c + 1));
                        match self.lookup(&name) {
                            Some(val) => {
                                crate::text::push_str(&mut out, val.as_str());
                            },
                            None => match default {
                                Some(d) => {
                                    push_chars(&mut out, &d);
                                },
                                None => {
                                    push_chars(&mut out, &slice_chars(&s, i, c + 1));
                                },
                            },
                        }
                        assert(out@ == before + piece);
                        assert(before + rest =~= out@ + resolve_from(m, s@, c + 1));
                        i = c + 1;
                    },
                    None => {
                        push_chars(&mut out, &slice_chars(&s, i, len));
                        assert(before + rest =~= out@ + resolve_from(m, s@, len as int));
                        i = len;
                    },
                }
            } else if is_alpha_char(s[i + 1]) || s[i + 1] == '_' {
                let e = name_end_exec(&s, i + 1);
                let name = slice_chars(&s, i + 1, e);
                match self.lookup(&name) {
                    Some(val) => {
                        crate::text::push_str(&mut out, val.as_str());
                    },
                    None => {
                        push_chars(&mut out, &slice_chars(&s, i, e));
                    },
                }
                assert(before + rest =~= out@ + resolve_from(m, s@, e as int));
                i = e;
            } else {
                crate::text::push_char(&mut out, '$');
                assert(before + rest =~= out@ + resolve_from(m, s@, i + 1));
                i += 1;
            }
        }
        assert(out@ + resolve_from(m, s@, len as int) =~= out@);
        out
    }

    /// Whether the resolved text still holds a syntactically valid reference.
    pub fn has_unresolved(&self, input: &str) -> (r: bool)
        ensures
            r == has_reference(resolve_str(self@, input@)),
    {
        let resolved = self.resolve(input);
        contains_variable_reference(&chars_of(resolved.as_str()))
    }
}

} // verus!

verus! {

/// `m` with every assignment of `v` applied in order.
pub open spec fn insert_all(m: Map<Seq<char>, Seq<char>>, v: Seq<(Seq<char>, Seq<char>)>) -> Map<
    Seq<char>,
    Seq<char>,
>
    decreases v.len(),
{
    if v.len() == 0 {
        m
    } else {
        insert_all(m, v.drop_last()).insert(v.last().0, v.last().1)
    }
}

/// An `ARG` default applied only when its name has no value yet.
pub open spec fn add_default(m: Map<Seq<char>, Seq<char>>, a: ArgV) -> Map<Seq<char>, Seq<char>> {
    match a.default {
        Some(d) => if m.contains_key(a.name) {
            m
        } else {
            m.insert(a.name, d)
        },
        None => m,
    }
}

pub open spec fn add_defaults(m: Map<Seq<char>, Seq<char>>, args: Seq<ArgV>) -> Map<
    Seq<char>,
    Seq<char>,
>
    decreases args.len(),
{
    if args.len() == 0 {
        m
    } else {
        add_default(add_defaults(m, args.drop_last()), args.last())
    }
}

/// `ENV` pairs: each value is resolved against the table so far, then always set.
pub open spec fn add_env(m: Map<Seq<char>, Seq<char>>, pairs: Seq<(Seq<char>, Seq<char>)>) -> Map<
    Seq<char>,
    Seq<char>,
>
    decreases pairs.len(),
{
    if pairs.len() == 0 {
        m
    } else {
        let m2 = add_env(m, pairs.drop_last());
        m2.insert(pairs.last().0, resolve_str(m2, pairs.last().1))
    }
}

pub open spec fn stage_step(m: Map<Seq<char>, Seq<char>>, i: RawInstructionV) -> Map<
    Seq<char>,
    Seq<char>,
> {
    match i.instruction {
        InstructionV::Arg { name, default } => add_default(m, ArgV { name, default }),
        InstructionV::Env(pairs) => add_env(m, pairs),
        _ => m,
    }
}

/// The table after a stage's `ARG` and `ENV` instructions, in source order.
pub open spec fn stage_table(m: Map<Seq<char>, Seq<char>>, insts: Seq<RawInstructionV>) -> Map<
    Seq<char>,
    Seq<char>,
>
    decreases insts.len(),
{
    if insts.len() == 0 {
        m
    } else {
        stage_step(stage_table(m, insts.drop_last()), insts.last())
    }
}

impl VariableResolver {
    /// Build arguments given by the caller; they override everything else.
    pub fn load_build_args(&mut self, args: &[(String, String)])
        ensures
            final(self)@ == insert_all(old(self)@, crate::parser::ast::pairs_view(args@)),
    {
        let ghost m0 = self@;
        let ghost pv = crate::parser::ast::pairs_view(args@);
        let mut i: usize = 0;
        while i < args.len()
            invariant
                i <= args@.len(),
                pv == crate::parser::ast::pairs_view(args@),
                self@ == insert_all(m0, pv.subrange(0, i as int)),
            decreases args@.len() - i,
        {
            let (ref k, ref v) = args[i];
            self.set(k, v.clone());
            assert(pv.subrange(0, i + 1).drop_last() =~= pv.subrange(0, i as int));
            i += 1;
        }
        assert(pv.subrange(0, args@.len() as int) =~= pv);
    }

    /// `ARG` defaults declared before the first stage, for names not yet set.
    pub fn load_global_args(&mut self, args: &Vec<ArgInstruction>)
        ensures
            final(self)@ == add_defaults(old(self)@, crate::parser::ast::args_view(args@)),
    {
        let ghost m0 = self@;
        let ghost av = crate::parser::ast::args_view(args@);
        let mut i: usize = 0;
        while i < args.len()
            invariant
                i <= args@.len(),
                av == crate::parser::ast::args_view(args@),
                self@ == add_defaults(m0, av.subrange(0, i as int)),
            decreases args@.len() - i,
        {
            let a = &args[i];
            match &a.default {
                Some(d) => self.set_if_absent(&a.name, d),
                None => {},
            }
            assert(av.subrange(0, i + 1).drop_last() =~= av.subrange(0, i as int));
            i += 1;
        }
        assert(av.subrange(0, args@.len() as int) =~= av);
    }

    fn load_env(&mut self, pairs: &Vec<(String, String)>)
        ensures
            final(self)@ == add_env(old(self)@, crate::parser::ast::pairs_view(pairs@)),
    {
        let ghost m0 = self@;
        let ghost pv = crate::parser::ast::pairs_view(pairs@);
        let mut i: usize = 0;
        while i < pairs.len()
            invariant
                i <= pairs@.len(),
                pv == crate::parser::ast::pairs_view(pairs@),
                self@ == add_env(m0, pv.subrange(0, i as int)),
            decreases pairs@.len() - i,
        {
            let (ref k, ref v) = pairs[i];
            let resolved = self.resolve(v.as_str());
            self.set(k, resolved);
            assert(pv.subrange(0, i + 1).drop_last() =~= pv.subrange(0, i as int));
            i += 1;
        }
        assert(pv.subrange(0, pairs@.len() as int) =~= pv);
    }

    /// Folds a stage's `ARG` defaults (when unset) and `ENV` pairs (always) into
    /// the table, in source order.
    pub fn process_stage(&mut self, stage: &Stage)
        ensures
            final(self)@ == stage_table(old(self)@, stage@.instructions),
    {
        let ghost m0 = self@;
        let ghost iv = stage@.instructions;
        let mut i: usize = 0;
        while i < stage.instructions.len()
            invariant
                i <= stage.instructions@.len(),
                iv == stage@.instructions,
                iv == crate::parser::ast::raws_view(stage.instructions@),
                self@ == stage_table(m0, iv.subrange(0, i as int)),
            decreases stage.instructions@.len() - i,
        {
            let ri = &stage.instructions[i];
            assert(iv.subrange(0, i + 1).drop_last() =~= iv.subrange(0, i as int));
            assert(iv.subrange(0, i + 1).last() == ri@);
            match &ri.instruction {
                Instruction::Arg { name, default } => {
                    match default {
                        Some(d) => self.set_if_absent(name, d),
                        None => {},
                    }
                },
                Instruction::Env(pairs) => {
                    self.load_env(pairs);
                },
                _ => {},
            }
            i += 1;
        }
        assert(iv.subrange(0, stage.instructions@.len() as int) =~= iv);
    }

    /// The current assignments, one per name.
    pub fn variables(&self) -> (r: Vec<(String, String)>)
        ensures
            map_of(crate::parser::ast::pairs_view(r@)) == self@,
    {
        let mut r: Vec<(String, String)> = Vec::new();
        let mut i: usize = 0;
        while i < self.vars.len()
            invariant
                i <= self.vars@.len(),
                crate::parser::ast::pairs_view(r@) == vars_view(self.vars@).subrange(0, i as int),
            decreases self.vars@.len() - i,
        {
            let ghost r0 = crate::parser::ast::pairs_view(r@);
            let (ref k, ref v) = self.vars[i];
            r.push((k.clone(), v.clone()));
            assert(crate::parser::ast::pairs_view(r@) =~= vars_view(self.vars@).subrange(
                0,
                i + 1,
            )) by {
                assert(crate::parser::ast::pairs_view(r@) =~= r0.push((k@, v@)));
            }
            i += 1;
        }
        assert(vars_view(self.vars@).subrange(0, self.vars@.len() as int) =~= vars_view(
            self.vars@,
        ));
        assert(crate::parser::ast::pairs_view(r@) =~= vars_view(self.vars@));
        r
    }
}

} // verus!
