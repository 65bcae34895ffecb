//! Recipe parsing: physical lines to logical lines to typed instructions to stages.
pub mod ast;
pub mod resolver;

pub use resolver::VariableResolver;
pub use ast::{
    ArgInstruction, CommandForm, Dockerfile, Instruction, PortSpec, RawInstruction, Stage,
};

use vstd::prelude::*;
use crate::parser::ast::{
    ArgV, CommandFormV, DockerfileV, InstructionV, PortV, RawInstructionV, StageV, opt_view,
    raws_view, args_view, stages_view, pairs_view, ports_view,
};
use crate::text::{
    append_chars, chars_of, contains_char, ends_with, ends_with_str,
    eq_ignore_ascii_case, eq_ignore_case_str, find_char, find_char_from, find_ws, find_ws_from,
    lower_of, parse_unsigned, parse_unsigned_exec, push_chars, skip_ws, skip_ws_exec, slice_chars,
    split_words, starts_with, starts_with_str, str_eq_chars, string_of, string_views, to_lower,
    trim, trim_chars, trim_end, trim_end_chars, to_upper, upper_of, views, words,
};

verus! {

/// The only failure of parsing: the recipe text could not be obtained.
#[derive(Debug, Clone)]
pub struct ParseError {
    pub line: usize,
    pub reason: String,
}

// ---------------------------------------------------------------------------
// Physical lines
// ---------------------------------------------------------------------------

pub open spec fn strip_cr(c: Seq<char>) -> Seq<char> {
    if c.len() > 0 && c.last() == '\r' {
        c.drop_last()
    } else {
        c
    }
}

/// Lines finished and line in progress after the first `i` characters of `s`.
pub open spec fn lines_state(s: Seq<char>, i: int) -> (Seq<Seq<char>>, Seq<char>)
    decreases i,
{
    if i <= 0 {
        (seq![], seq![])
    } else {
        let (done, cur) = lines_state(s, i - 1);
        if s[i - 1] == '\n' {
            (done.push(strip_cr(cur)), seq![])
        } else {
            (done, cur.push(s[i - 1]))
        }
    }
}

/// `str::lines`: split at `\n`, dropping a `\r` before it; no empty last line.
pub open spec fn lines(s: Seq<char>) -> Seq<Seq<char>> {
    let (done, cur) = lines_state(s, s.len() as int);
    if cur.len() > 0 {
        done.push(cur)
    } else {
        done
    }
}

pub fn split_lines(v: &Vec<char>) -> (r: Vec<Vec<char>>)
    ensures
        views(r@) == lines(v@),
{
    let mut done: Vec<Vec<char>> = Vec::new();
    let mut cur: Vec<char> = Vec::new();
    let mut i: usize = 0;
    while i < v.len()
        invariant
            i <= v@.len(),
            (views(done@), cur@) == lines_state(v@, i as int),
        decreases v@.len() - i,
    {
        let c = v[i];
        if c == '\n' {
            if cur.len() > 0 && cur[cur.len() - 1] == '\r' {
                cur.pop();
            }
            let ghost d0 = views(done@);
            let w = cur;
            done.push(w);
            assert(views(done@) =~= d0.push(w@));
            cur = Vec::new();
        } else {
            cur.push(c);
        }
        i += 1;
    }
    if cur.len() > 0 {
        let ghost d0 = views(done@);
        let w = cur;
        done.push(w);
        assert(views(done@) =~= d0.push(w@));
    }
    done
}

// ---------------------------------------------------------------------------
// Logical lines
// ---------------------------------------------------------------------------

pub struct MergeSt {
    pub out: Seq<(nat, Seq<char>)>,
    pub cur: Seq<char>,
    pub start: nat,
    pub cont: bool,
}

pub open spec fn ends_with_backslash(t: Seq<char>) -> bool {
    t.len() > 0 && t.last() == '\\'
}

/// One physical line (number `n`) folded into the merge state.
pub open spec fn merge_step(st: MergeSt, n: nat, line: Seq<char>) -> MergeSt {
    let trimmed = trim_end(line);
    let start = if st.cont {
        st.start
    } else {
        n
    };
    let cur = if st.cont {
        st.cur
    } else {
        seq![]
    };
    if ends_with_backslash(trimmed) {
        let wb = trimmed.drop_last();
        MergeSt {
            out: st.out,
            cur: if st.cont {
                cur + seq![' '] + trim(wb)
            } else {
                cur + wb
            },
            start,
            cont: true,
        }
    } else {
        let joined = if st.cont {
            cur + seq![' '] + trim(trimmed)
        } else {
            cur + trimmed
        };
        let merged = trim(joined);
        MergeSt {
            out: if merged.len() > 0 {
                st.out.push((start, merged))
            } else {
                st.out
            },
            cur: seq![],
            start,
            cont: false,
        }
    }
}

pub open spec fn merge_upto(ls: Seq<Seq<char>>, k: int) -> MergeSt
    decreases k,
{
    if k <= 0 {
        MergeSt { out: seq![], cur: seq![], start: 0, cont: false }
    } else {
        merge_step(merge_upto(ls, k - 1), k as nat, ls[k - 1])
    }
}

/// Logical lines with the number of their first physical line: lines ending in
/// `\` are joined with the next, empty results are dropped.
pub open spec fn logical_lines(content: Seq<char>) -> Seq<(nat, Seq<char>)> {
    let ls = lines(content);
    let st = merge_upto(ls, ls.len() as int);
    if st.cont && trim(st.cur).len() > 0 {
        st.out.push((st.start, trim(st.cur)))
    } else {
        st.out
    }
}

pub open spec fn numbered_view(v: Seq<(usize, Vec<char>)>) -> Seq<(nat, Seq<char>)> {
    v.map_values(|p: (usize, Vec<char>)| (p.0 as nat, p.1@))
}

fn merge_continuation_lines(content: &Vec<char>) -> (r: Vec<(usize, Vec<char>)>)
    ensures
        numbered_view(r@) == logical_lines(content@),
        forall|i: int| 0 <= i < r@.len() ==> r@[i].0 >= 1,
{
    let ls = split_lines(content);
    let ghost lv = views(ls@);
    let mut out: Vec<(usize, Vec<char>)> = Vec::new();
    let mut cur: Vec<char> = Vec::new();
    let mut start: usize = 0;
    let mut cont = false;
    let mut k: usize = 0;
    while k < ls.len()
        invariant
            k <= ls@.len(),
            lv == views(ls@),
            lv == lines(content@),
            ({
                let st = merge_upto(lv, k as int);
                numbered_view(out@) == st.out && cur@ == st.cur && start as nat == st.start
                    && cont == st.cont
            }),
            forall|i: int| 0 <= i < out@.len() ==> out@[i].0 >= 1,
            cont ==> start >= 1,
        decreases ls@.len() - k,
    {
        let n: usize = k + 1;
        let line = &ls[k];
        assert(line@ == lv[k as int]);
        let ghost st = merge_upto(lv, k as int);
        let ghost nst = merge_step(st, n as nat, lv[k as int]);
        assert(merge_upto(lv, k + 1) == nst);
        let trimmed = trim_end_chars(line);
        if !cont {
            start = n;
            cur = Vec::new();
        }
        if trimmed.len() > 0 && trimmed[trimmed.len() - 1] == '\\' {
            let wb = slice_chars(&trimmed, 0, trimmed.len() - 1);
            assert(wb@ =~= trimmed@.drop_last());
            if cont {
                cur.push(' ');
                let t = trim_chars(&wb);
                append_chars(&mut cur, &t);
                assert(cur@ =~= st.cur + seq![' '] + t@);
            } else {
                append_chars(&mut cur, &wb);
                assert(cur@ =~= Seq::<char>::empty() + wb@);
            }
            cont = true;
            assert(cur@ == nst.cur);
        } else {
            if cont {
                cur.push(' ');
                let t = trim_chars(&trimmed);
                append_chars(&mut cur, &t);
                assert(cur@ =~= st.cur + seq![' '] + t@);
            } else {
                append_chars(&mut cur, &trimmed);
                assert(cur@ =~= Seq::<char>::empty() + trimmed@);
            }
            cont = false;
            let merged = trim_chars(&cur);
            if merged.len() > 0 {
                let ghost o0 = numbered_view(out@);
                out.push((start, merged));
                assert(numbered_view(out@) =~= o0.push((start as nat, merged@)));
            }
            cur = Vec::new();
        }
        k += 1;
    }
    if cont {
        let t = trim_chars(&cur);
        if t.len() > 0 {
            let ghost o0 = numbered_view(out@);
            out.push((start, t));
            assert(numbered_view(out@) =~= o0.push((start as nat, trim(cur@))));
        }
    }
    out
}

// ---------------------------------------------------------------------------
// Exec-form arrays and command forms
// ---------------------------------------------------------------------------

pub struct JsonSt {
    pub items: Seq<Seq<char>>,
    pub cur: Seq<char>,
    pub in_str: bool,
    pub esc: bool,
}

pub open spec fn json_step(st: JsonSt, ch: char) -> JsonSt {
    if st.esc {
        JsonSt { items: st.items, cur: st.cur.push(ch), in_str: st.in_str, esc: false }
    } else if ch == '\\' && st.in_str {
        JsonSt { items: st.items, cur: st.cur, in_str: st.in_str, esc: true }
    } else if ch == '"' {
        JsonSt { items: st.items, cur: st.cur, in_str: !st.in_str, esc: st.esc }
    } else if ch == ',' && !st.in_str {
        JsonSt { items: st.items.push(trim(st.cur)), cur: seq![], in_str: st.in_str, esc: st.esc }
    } else if st.in_str {
        JsonSt { items: st.items, cur: st.cur.push(ch), in_str: st.in_str, esc: st.esc }
    } else {
        st
    }
}

pub open spec fn json_upto(s: Seq<char>, i: int) -> JsonSt
    decreases i,
{
    if i <= 0 {
        JsonSt { items: seq![], cur: seq![], in_str: false, esc: false }
    } else {
        json_step(json_upto(s, i - 1), s[i - 1])
    }
}

pub open spec fn is_bracketed(t: Seq<char>) -> bool {
    starts_with(t, "["@) && ends_with(t, "]"@)
}

/// A JSON-style array of strings `["a", "b"]`: the quoted contents between
/// commas (a backslash escapes the next character). Text that is not
/// bracketed is one item, kept as given.
pub open spec fn json_array(s: Seq<char>) -> Seq<Seq<char>> {
    let t = trim(s);
    if !is_bracketed(t) {
        seq![s]
    } else {
        let inner = t.subrange(1, t.len() - 1);
        let st = json_upto(inner, inner.len() as int);
        let last = trim(st.cur);
        if last.len() > 0 {
            st.items.push(last)
        } else {
            st.items
        }
    }
}

fn parse_json_array(s: &Vec<char>) -> (r: Vec<String>)
    ensures
        string_views(r@) == json_array(s@),
{
    let t = trim_chars(s);
    if !(starts_with_str(&t, "[") && ends_with_str(&t, "]")) {
        let mut r: Vec<String> = Vec::new();
        r.push(string_of(s));
        assert(string_views(r@) =~= seq![s@]);
        return r;
    }
    proof {
        reveal_strlit("[");
        reveal_strlit("]");
        assert(t@.subrange(0, 1)[0] == t@[0]);
        assert(t@[0] == '[');
        assert(t@.subrange(t@.len() - 1, t@.len() as int)[0] == t@[t@.len() - 1]);
        assert(t@[t@.len() - 1] == ']');
    }
    let inner = slice_chars(&t, 1, t.len() - 1);
    let mut items: Vec<String> = Vec::new();
    let mut cur: Vec<char> = Vec::new();
    let mut in_str = false;
    let mut esc = false;
    let mut i: usize = 0;
    while i < inner.len()
        invariant
            i <= inner@.len(),
            ({
                let st = json_upto(inner@, i as int);
                string_views(items@) == st.items && cur@ == st.cur && in_str == st.in_str && esc
                    == st.esc
            }),
        decreases inner@.len() - i,
    {
        let ch = inner[i];
        if esc {
            cur.push(ch);
            esc = false;
        } else if ch == '\\' && in_str {
            esc = true;
        } else if ch == '"' {
            in_str = !in_str;
        } else if ch == ',' && !in_str {
            let item = trim_chars(&cur);
            let ghost i0 = string_views(items@);
            items.push(string_of(&item));
            assert(string_views(items@) =~= i0.push(item@));
            cur = Vec::new();
        } else if in_str {
            cur.push(ch);
        }
        i += 1;
    }
    let last = trim_chars(&cur);
    if last.len() > 0 {
        let ghost i0 = string_views(items@);
        items.push(string_of(&last));
        assert(string_views(items@) =~= i0.push(last@));
    }
    items
}

/// A command in exec form when it is a non-empty bracketed array, else in shell form.
pub open spec fn command_form(args: Seq<char>) -> CommandFormV {
    let t = trim(args);
    if starts_with(t, "["@) {
        let parts = json_array(t);
        if parts.len() == 0 {
            CommandFormV::Shell(t)
        } else {
            CommandFormV::Exec(parts)
        }
    } else {
        CommandFormV::Shell(t)
    }
}

fn parse_command_form(args: &Vec<char>) -> (r: CommandForm)
    ensures
        r@ == command_form(args@),
{
    let t = trim_chars(args);
    if starts_with_str(&t, "[") {
        let parts = parse_json_array(&t);
        if parts.len() == 0 {
            CommandForm::Shell(string_of(&t))
        } else {
            CommandForm::Exec(parts)
        }
    } else {
        CommandForm::Shell(string_of(&t))
    }
}

} // verus!

verus! {

// ---------------------------------------------------------------------------
// Per-keyword parsing
// ---------------------------------------------------------------------------

/// Index of the first of `parts[i..]` that does not start with `--`.
pub open spec fn skip_flag_words(parts: Seq<Seq<char>>, i: int) -> int
    decreases parts.len() - i,
{
    if 0 <= i < parts.len() && starts_with(parts[i], "--"@) {
        skip_flag_words(parts, i + 1)
    } else {
        i
    }
}

/// `FROM [--flag...] image [AS alias]`; a missing image is `scratch`.
pub open spec fn from_inst(args: Seq<char>, n: nat) -> RawInstructionV {
    let parts = words(args);
    let idx = skip_flag_words(parts, 0);
    let image = if idx < parts.len() {
        parts[idx]
    } else {
        "scratch"@
    };
    let alias = if idx + 1 < parts.len() && eq_ignore_ascii_case(parts[idx + 1], "AS"@) {
        if idx + 2 < parts.len() {
            Some(parts[idx + 2])
        } else {
            None
        }
    } else {
        None
    };
    RawInstructionV {
        line_number: n,
        instruction: InstructionV::From { image, alias },
        raw: "FROM "@ + args,
    }
}

fn parse_from(args: &Vec<char>, n: usize) -> (r: RawInstruction)
    ensures
        r@ == from_inst(args@, n as nat),
{
    let parts = split_words(args);
    let ghost pv = views(parts@);
    let mut idx: usize = 0;
    while idx < parts.len() && starts_with_str(&parts[idx], "--")
        invariant
            idx <= parts@.len(),
            pv == views(parts@),
            skip_flag_words(pv, 0) == skip_flag_words(pv, idx as int),
        decreases parts@.len() - idx,
    {
        assert(pv[idx as int] == parts@[idx as int]@);
        idx += 1;
    }
    assert(idx < parts@.len() ==> pv[idx as int] == parts@[idx as int]@);
    let image = if idx < parts.len() {
        string_of(&parts[idx])
    } else {
        crate::text::str_from("scratch")
    };
    let alias = if idx < parts.len() && idx + 1 < parts.len() && eq_ignore_case_str(&parts[idx + 1], "AS") {
        assert(pv[idx + 1] == parts@[idx + 1]@);
        if idx + 2 < parts.len() {
            assert(pv[idx + 2] == parts@[idx + 2]@);
            Some(string_of(&parts[idx + 2]))
        } else {
            None
        }
    } else {
        proof {
            if idx + 1 < parts@.len() {
                assert(pv[idx + 1] == parts@[idx + 1]@);
            }
        }
        None
    };
    let mut raw = crate::text::str_from("FROM ");
    push_chars(&mut raw, args);
    RawInstruction { line_number: n, instruction: Instruction::From { image, alias }, raw }
}

pub open spec fn strip_lead_quotes(s: Seq<char>) -> Seq<char>
    decreases s.len(),
{
    if s.len() > 0 && s[0] == '"' {
        strip_lead_quotes(s.drop_first())
    } else {
        s
    }
}

pub open spec fn strip_trail_quotes(s: Seq<char>) -> Seq<char>
    decreases s.len(),
{
    if s.len() > 0 && s.last() == '"' {
        strip_trail_quotes(s.drop_last())
    } else {
        s
    }
}

/// `str::trim_matches('"')`.
pub open spec fn strip_quotes(s: Seq<char>) -> Seq<char> {
    strip_trail_quotes(strip_lead_quotes(s))
}

fn strip_quotes_exec(v: &Vec<char>) -> (r: Vec<char>)
    ensures
        r@ == strip_quotes(v@),
{
    let n = v.len();
    let mut a: usize = 0;
    assert(v@.subrange(0, n as int) =~= v@);
    while a < n && v[a] == '"'
        invariant
            a <= n == v@.len(),
            strip_lead_quotes(v@) == strip_lead_quotes(v@.subrange(a as int, n as int)),
        decreases n - a,
    {
        assert(v@.subrange(a as int, n as int).drop_first() =~= v@.subrange(a + 1, n as int));
        a += 1;
    }
    let ghost t = v@.subrange(a as int, n as int);
    let mut b: usize = n;
    assert(t.subrange(0, (n - a) as int) =~= t);
    while b > a && v[b - 1] == '"'
        invariant
            a <= b <= n == v@.len(),
            t == v@.subrange(a as int, n as int),
            strip_trail_quotes(t) == strip_trail_quotes(v@.subrange(a as int, b as int)),
        decreases b,
    {
        assert(v@.subrange(a as int, b as int).drop_last() =~= v@.subrange(a as int, b - 1));
        b -= 1;
    }
    slice_chars(v, a, b)
}

/// `ARG name[=default]`: split once on `=`; the default loses surrounding quotes.
pub open spec fn arg_inst(args: Seq<char>, n: nat) -> RawInstructionV {
    let (name, default) = match find_char(args, '=') {
        Some(e) => (
            trim(args.subrange(0, e)),
            Some(strip_quotes(trim(args.subrange(e + 1, args.len() as int)))),
        ),
        None => (trim(args), None),
    };
    RawInstructionV {
        line_number: n,
        instruction: InstructionV::Arg { name, default },
        raw: "ARG "@ + args,
    }
}

fn parse_arg(args: &Vec<char>, n: usize) -> (r: RawInstruction)
    ensures
        r@ == arg_inst(args@, n as nat),
{
    let (name, default) = match find_char_from(args, 0, '=') {
        Some(e) => {
            assert(args@.subrange(0, args@.len() as int) =~= args@);
            assert(e < args.len());
            let nm = trim_chars(&slice_chars(args, 0, e));
            let dv = strip_quotes_exec(&trim_chars(&slice_chars(args, e + 1, args.len())));
            (string_of(&nm), Some(string_of(&dv)))
        },
        None => {
            assert(args@.subrange(0, args@.len() as int) =~= args@);
            (string_of(&trim_chars(args)), None)
        },
    };
    let mut raw = crate::text::str_from("ARG ");
    push_chars(&mut raw, args);
    RawInstruction { line_number: n, instruction: Instruction::Arg { name, default }, raw }
}

/// The `KEY=VALUE` pairs of `s[i..]`. A value that starts with `"` runs to the
/// next `"` (or the end); otherwise it runs to the next whitespace.
pub open spec fn env_pairs_from(s: Seq<char>, i: int) -> Seq<(Seq<char>, Seq<char>)>
    decreases s.len() - i,
{
    let j = skip_ws(s, i);
    if i < 0 || j >= s.len() {
        seq![]
    } else {
        match find_char(s.subrange(j, s.len() as int), '=') {
            None => seq![],
            Some(e0) => {
                let e = j + e0;
                let key = trim(s.subrange(j, e));
                let (val, next) = if e + 1 < s.len() && s[e + 1] == '"' {
                    match find_char(s.subrange(e + 2, s.len() as int), '"') {
                        Some(q) => (s.subrange(e + 2, e + 2 + q), e + 3 + q),
                        None => (s.subrange(e + 2, s.len() as int), s.len() as int),
                    }
                } else {
                    match find_ws(s.subrange(e + 1, s.len() as int)) {
                        Some(p) => (s.subrange(e + 1, e + 1 + p), e + 1 + p),
                        None => (s.subrange(e + 1, s.len() as int), s.len() as int),
                    }
                };
                if i < next <= s.len() {
                    seq![(key, val)] + env_pairs_from(s, next)
                } else {
                    seq![(key, val)]
                }
            },
        }
    }
}

/// `ENV`: `KEY=VALUE` pairs when the text holds `=`, else `KEY VALUE`.
pub open spec fn env_pairs(args: Seq<char>) -> Seq<(Seq<char>, Seq<char>)> {
    if args.contains('=') {
        env_pairs_from(args, 0)
    } else {
        match find_ws(args) {
            Some(p) => seq![(args.subrange(0, p), trim(args.subrange(p + 1, args.len() as int)))],
            None => seq![(args, seq![])],
        }
    }
}

pub open spec fn env_inst(args: Seq<char>, n: nat) -> RawInstructionV {
    RawInstructionV {
        line_number: n,
        instruction: InstructionV::Env(env_pairs(args)),
        raw: "ENV "@ + args,
    }
}

fn push_pair(
    pairs: &mut Vec<(String, String)>,
    k: &Vec<char>,
    v: &Vec<char>,
)
    ensures
        pairs_view(final(pairs)@) == pairs_view(old(pairs)@).push((k@, v@)),
{
    let ghost p0 = pairs_view(pairs@);
    pairs.push((string_of(k), string_of(v)));
    assert(pairs_view(pairs@) =~= p0.push((k@, v@)));
}

fn parse_env(args: &Vec<char>, n: usize) -> (r: RawInstruction)
    ensures
        r@ == env_inst(args@, n as nat),
{
    let mut pairs: Vec<(String, String)> = Vec::new();
    let len = args.len();
    if contains_char(args, '=') {
        let mut i: usize = 0;
        let ghost s = args@;
        while i < len
            invariant
                i <= len == s.len(),
                s == args@,
                pairs_view(pairs@) + env_pairs_from(s, i as int) == env_pairs_from(s, 0),
            decreases len - i,
        {
            let ghost before = pairs_view(pairs@);
            let j = skip_ws_exec(args, i);
            if j >= len {
                assert(env_pairs_from(s, i as int) =~= Seq::empty());
                assert(before + env_pairs_from(s, i as int) =~= before);
                assert(env_pairs_from(s, len as int) =~= Seq::empty());
                assert(before + env_pairs_from(s, len as int) =~= before);
                i = len;
                continue;
            }
            match find_char_from(args, j, '=') {
                None => {
                    assert(before + env_pairs_from(s, i as int) =~= before);
                    assert(env_pairs_from(s, len as int) =~= Seq::empty());
                    assert(before + env_pairs_from(s, len as int) =~= before);
                    i = len;
                },
                Some(e) => {
                    let key = trim_chars(&slice_chars(args, j, e));
                    let mut next: usize = len;
                    let val: Vec<char>;
                    if e + 1 < len && args[e + 1] == '"' {
                        match find_char_from(args, e + 2, '"') {
                            Some(q) => {
                                val = slice_chars(args, e + 2, q);
                                next = q + 1;
                            },
                            None => {
                                val = slice_chars(args, e + 2, len);
                            },
                        }
                    } else {
                        match find_ws_from(args, e + 1) {
                            Some(p) => {
                                val = slice_chars(args, e + 1, p);
                                next = p;
                            },
                            None => {
                                val = slice_chars(args, e + 1, len);
                            },
                        }
                    }
                    push_pair(&mut pairs, &key, &val);
                    assert(next <= len);
                    if next > i {
                        assert(env_pairs_from(s, i as int) == seq![(key@, val@)] + env_pairs_from(
                            s,
                            next as int,
                        ));
                        assert(pairs_view(pairs@) + env_pairs_from(s, next as int) =~= before
                            + env_pairs_from(s, i as int));
                        i = next;
                    } else {
                        assert(pairs_view(pairs@) =~= before + env_pairs_from(s, i as int));
                        assert(env_pairs_from(s, len as int) =~= Seq::empty());
                        assert(pairs_view(pairs@) + env_pairs_from(s, len as int) =~= pairs_view(
                            pairs@,
                        ));
                        i = len;
                    }
                },
            }
        }
        assert(env_pairs_from(s, len as int) =~= Seq::empty());
        assert(pairs_view(pairs@) =~= env_pairs_from(s, 0)) by {
            assert(pairs_view(pairs@) + Seq::<(Seq<char>, Seq<char>)>::empty() =~= pairs_view(
                pairs@,
            ));
        }
    } else {
        match find_ws_from(args, 0) {
            Some(p) => {
                let k = slice_chars(args, 0, p);
                let v = trim_chars(&slice_chars(args, p + 1, len));
                push_pair(&mut pairs, &k, &v);
            },
            None => {
                let v: Vec<char> = Vec::new();
                push_pair(&mut pairs, args, &v);
            },
        }
        assert(args@.subrange(0, len as int) =~= args@);
        assert(pairs_view(pairs@) =~= env_pairs(args@));
    }
    let mut raw = crate::text::str_from("ENV ");
    push_chars(&mut raw, args);
    RawInstruction { line_number: n, instruction: Instruction::Env(pairs), raw }
}

} // verus!

verus! {

/// One `EXPOSE` token `PORT[/proto]`; the protocol is lower-cased and defaults
/// to `tcp`; a port that is not an integer in `1..=65535` drops the token.
pub open spec fn port_of(tok: Seq<char>) -> Option<PortV> {
    let (ps, proto) = match find_char(tok, '/') {
        Some(sl) => (tok.subrange(0, sl), lower_of(tok.subrange(sl + 1, tok.len() as int))),
        None => (tok, "tcp"@),
    };
    match parse_unsigned(ps, 65535) {
        Some(p) => if p >= 1 {
            Some(PortV { port: p as u16, protocol: proto })
        } else {
            None
        },
        None => None,
    }
}

pub open spec fn ports_of(toks: Seq<Seq<char>>) -> Seq<PortV>
    decreases toks.len(),
{
    if toks.len() == 0 {
        seq![]
    } else {
        let r = ports_of(toks.drop_last());
        match port_of(toks.last()) {
            Some(p) => r.push(p),
            None => r,
        }
    }
}

fn parse_port(tok: &Vec<char>) -> (r: Option<PortSpec>)
    ensures
        match r {
            Some(p) => port_of(tok@) == Some(p@),
            None => port_of(tok@) is None,
        },
{
    let (ps, proto) = match find_char_from(tok, 0, '/') {
        Some(sl) => {
            assert(sl < tok.len());
            let rest = string_of(&slice_chars(tok, sl + 1, tok.len()));
            (slice_chars(tok, 0, sl), to_lower(rest.as_str()))
        },
        None => {
            assert(tok@.subrange(0, tok@.len() as int) =~= tok@);
            (slice_chars(tok, 0, tok.len()), crate::text::str_from("tcp"))
        },
    };
    assert(tok@.subrange(0, tok@.len() as int) =~= tok@);
    match parse_unsigned_exec(&ps, 65535) {
        Some(p) => if p >= 1 {
            Some(PortSpec { port: p as u16, protocol: proto })
        } else {
            None
        },
        None => None,
    }
}

fn parse_ports(toks: &Vec<Vec<char>>) -> (r: Vec<PortSpec>)
    ensures
        ports_view(r@) == ports_of(views(toks@)),
{
    let ghost tv = views(toks@);
    let mut r: Vec<PortSpec> = Vec::new();
    let mut i: usize = 0;
    while i < toks.len()
        invariant
            i <= toks@.len(),
            tv == views(toks@),
            ports_view(r@) == ports_of(tv.subrange(0, i as int)),
        decreases toks@.len() - i,
    {
        let ghost r0 = ports_view(r@);
        assert(tv.subrange(0, i + 1).drop_last() =~= tv.subrange(0, i as int));
        assert(tv.subrange(0, i + 1).last() == toks@[i as int]@);
        match parse_port(&toks[i]) {
            Some(p) => {
                r.push(p);
                assert(ports_view(r@) =~= r0.push(p@));
            },
            None => {},
        }
        i += 1;
    }
    assert(tv.subrange(0, toks@.len() as int) =~= tv);
    r
}

pub open spec fn volume_list(args: Seq<char>) -> Seq<Seq<char>> {
    if starts_with(args, "["@) {
        json_array(args)
    } else {
        words(args)
    }
}

fn strings_of(v: &Vec<Vec<char>>, lo: usize, hi: usize) -> (r: Vec<String>)
    requires
        lo <= hi <= v@.len(),
    ensures
        string_views(r@) == views(v@).subrange(lo as int, hi as int),
{
    let mut r: Vec<String> = Vec::new();
    let mut i: usize = lo;
    while i < hi
        invariant
            lo <= i <= hi <= v@.len(),
            string_views(r@) == views(v@).subrange(lo as int, i as int),
        decreases hi - i,
    {
        let ghost r0 = string_views(r@);
        r.push(string_of(&v[i]));
        assert(string_views(r@) =~= r0.push(v@[i as int]@));
        assert(views(v@)[i as int] == v@[i as int]@);
        i += 1;
        assert(string_views(r@) =~= views(v@).subrange(lo as int, i as int));
    }
    r
}

fn parse_volume(args: &Vec<char>) -> (r: Vec<String>)
    ensures
        string_views(r@) == volume_list(args@),
{
    if starts_with_str(args, "[") {
        parse_json_array(args)
    } else {
        let ws = split_words(args);
        let r = strings_of(&ws, 0, ws.len());
        assert(views(ws@).subrange(0, ws@.len() as int) =~= views(ws@));
        r
    }
}

/// The value of a `--name=value` word.
pub open spec fn flag_rest(w: Seq<char>, flag: Seq<char>) -> Seq<char> {
    w.subrange(flag.len() as int, w.len() as int)
}

/// Leading flags of `COPY`/`ADD`: `--from=` (only where `with_from`) and
/// `--chmod=` are kept, other `--` words skipped. Gives the index of the first
/// other word and the kept values.
pub open spec fn copy_flags(
    parts: Seq<Seq<char>>,
    i: int,
    from: Option<Seq<char>>,
    chmod: Option<Seq<char>>,
    with_from: bool,
) -> (int, Option<Seq<char>>, Option<Seq<char>>)
    decreases parts.len() - i,
{
    if i < 0 || i >= parts.len() {
        (i, from, chmod)
    } else if with_from && starts_with(parts[i], "--from="@) {
        copy_flags(parts, i + 1, Some(flag_rest(parts[i], "--from="@)), chmod, with_from)
    } else if starts_with(parts[i], "--chmod="@) {
        copy_flags(parts, i + 1, from, Some(flag_rest(parts[i], "--chmod="@)), with_from)
    } else if starts_with(parts[i], "--"@) {
        copy_flags(parts, i + 1, from, chmod, with_from)
    } else {
        (i, from, chmod)
    }
}

/// Destination of the file words: the last one, or `.` when there is none.
pub open spec fn dest_of(fp: Seq<Seq<char>>) -> Seq<char> {
    if fp.len() >= 1 {
        fp.last()
    } else {
        "."@
    }
}

/// Sources: every file word but the last, when there are two or more; a single
/// word is both the destination and the sole source.
pub open spec fn sources_of(fp: Seq<Seq<char>>) -> Seq<Seq<char>> {
    if fp.len() > 1 {
        fp.drop_last()
    } else {
        fp
    }
}

pub open spec fn copy_inst(args: Seq<char>, with_from: bool) -> InstructionV {
    let parts = words(args);
    let (idx, from, chmod) = copy_flags(parts, 0, None, None, with_from);
    let fp = parts.subrange(idx, parts.len() as int);
    if with_from {
        InstructionV::Copy {
            from_stage: from,
            sources: sources_of(fp),
            dest: dest_of(fp),
            chmod,
        }
    } else {
        InstructionV::Add { sources: sources_of(fp), dest: dest_of(fp), chmod }
    }
}

proof fn lemma_copy_flags_range(
    parts: Seq<Seq<char>>,
    i: int,
    from: Option<Seq<char>>,
    chmod: Option<Seq<char>>,
    with_from: bool,
)
    requires
        0 <= i <= parts.len(),
    ensures
        i <= copy_flags(parts, i, from, chmod, with_from).0 <= parts.len(),
    decreases parts.len() - i,
{
    if i < parts.len() {
        if with_from && starts_with(parts[i], "--from="@) {
            lemma_copy_flags_range(
                parts,
                i + 1,
                Some(flag_rest(parts[i], "--from="@)),
                chmod,
                with_from,
            );
        } else if starts_with(parts[i], "--chmod="@) {
            lemma_copy_flags_range(
                parts,
                i + 1,
                from,
                Some(flag_rest(parts[i], "--chmod="@)),
                with_from,
            );
        } else if starts_with(parts[i], "--"@) {
            lemma_copy_flags_range(parts, i + 1, from, chmod, with_from);
        }
    }
}

fn flag_value(w: &Vec<char>, flag: &str) -> (r: String)
    requires
        starts_with(w@, flag@),
    ensures
        r@ == flag_rest(w@, flag@),
{
    let fl = chars_of(flag);
    string_of(&slice_chars(w, fl.len(), w.len()))
}

fn parse_copy_like(args: &Vec<char>, with_from: bool) -> (r: Instruction)
    ensures
        r@ == copy_inst(args@, with_from),
{
    let parts = split_words(args);
    let ghost pv = views(parts@);
    let mut from: Option<String> = None;
    let mut chmod: Option<String> = None;
    let mut idx: usize = 0;
    let mut scanning = true;
    while scanning && idx < parts.len()
        invariant
            idx <= parts@.len(),
            pv == views(parts@),
            scanning ==> copy_flags(pv, 0, None, None, with_from) == copy_flags(
                pv,
                idx as int,
                opt_view(from),
                opt_view(chmod),
                with_from,
            ),
            !scanning ==> copy_flags(pv, 0, None, None, with_from) == (
                idx as int,
                opt_view(from),
                opt_view(chmod),
            ),
        decreases parts@.len() - idx + (if scanning {
            1int
        } else {
            0
        }),
    {
        let w = &parts[idx];
        assert(pv[idx as int] == w@);
        if with_from && starts_with_str(w, "--from=") {
            from = Some(flag_value(w, "--from="));
            idx += 1;
        } else if starts_with_str(w, "--chmod=") {
            chmod = Some(flag_value(w, "--chmod="));
            idx += 1;
        } else if starts_with_str(w, "--") {
            idx += 1;
        } else {
            scanning = false;
        }
    }
    proof {
        if scanning {
            assert(copy_flags(pv, idx as int, opt_view(from), opt_view(chmod), with_from) == (
                idx as int,
                opt_view(from),
                opt_view(chmod),
            ));
        }
    }
    let ghost fp = pv.subrange(idx as int, pv.len() as int);
    let nf = parts.len() - idx;
    let dest = if nf >= 1 {
        assert(fp.last() == parts@[parts@.len() - 1]@);
        string_of(&parts[parts.len() - 1])
    } else {
        crate::text::str_from(".")
    };
    let sources = if nf > 1 {
        let s = strings_of(&parts, idx, parts.len() - 1);
        assert(fp.drop_last() =~= pv.subrange(idx as int, parts@.len() - 1));
        s
    } else {
        let s = strings_of(&parts, idx, parts.len());
        assert(fp =~= pv.subrange(idx as int, parts@.len() as int));
        s
    };
    if with_from {
        Instruction::Copy { from_stage: from, sources, dest, chmod }
    } else {
        Instruction::Add { sources, dest, chmod }
    }
}

} // verus!

verus! {

pub struct HcFlags {
    pub interval: Option<Seq<char>>,
    pub timeout: Option<Seq<char>>,
    pub start_period: Option<Seq<char>>,
    pub retries: Option<u32>,
}

/// The value of a `--name=value` word that runs from `j` to `end` in `s`.
pub open spec fn flag_value_at(s: Seq<char>, j: int, end: int, flag: Seq<char>) -> Seq<char> {
    if j + flag.len() <= end {
        s.subrange(j + flag.len(), end)
    } else {
        seq![]
    }
}

/// Index of the first space at or after `j`, or the length.
pub open spec fn space_end(s: Seq<char>, j: int) -> int {
    match find_char(s.subrange(j, s.len() as int), ' ') {
        Some(e) => j + e,
        None => s.len() as int,
    }
}

pub open spec fn parse_u32(v: Seq<char>) -> Option<u32> {
    match parse_unsigned(v, 4294967295) {
        Some(x) => Some(x as u32),
        None => None,
    }
}

/// Leading `HEALTHCHECK` options of `s[i..]`: where the rest starts and the options read.
pub open spec fn hc_from(s: Seq<char>, i: int, f: HcFlags) -> (int, HcFlags)
    decreases s.len() - i,
{
    let j = skip_ws(s, i);
    if i < 0 || j >= s.len() {
        (j, f)
    } else {
        let end = space_end(s, j);
        let r = s.subrange(j, s.len() as int);
        if !(i < end <= s.len()) {
            (j, f)
        } else if starts_with(r, "--interval="@) {
            hc_from(
                s,
                end,
                HcFlags {
                    interval: Some(flag_value_at(s, j, end, "--interval="@)),
                    timeout: f.timeout,
                    start_period: f.start_period,
                    retries: f.retries,
                },
            )
        } else if starts_with(r, "--timeout="@) {
            hc_from(
                s,
                end,
                HcFlags {
                    interval: f.interval,
                    timeout: Some(flag_value_at(s, j, end, "--timeout="@)),
                    start_period: f.start_period,
                    retries: f.retries,
                },
            )
        } else if starts_with(r, "--start-period="@) {
            hc_from(
                s,
                end,
                HcFlags {
                    interval: f.interval,
                    timeout: f.timeout,
                    start_period: Some(flag_value_at(s, j, end, "--start-period="@)),
                    retries: f.retries,
                },
            )
        } else if starts_with(r, "--retries="@) {
            hc_from(
                s,
                end,
                HcFlags {
                    interval: f.interval,
                    timeout: f.timeout,
                    start_period: f.start_period,
                    retries: parse_u32(flag_value_at(s, j, end, "--retries="@)),
                },
            )
        } else {
            (j, f)
        }
    }
}

/// `HEALTHCHECK NONE`, or options, then an optional `CMD` (any case), then the command.
pub open spec fn healthcheck_inst(args: Seq<char>) -> InstructionV {
    if eq_ignore_ascii_case(trim(args), "NONE"@) {
        InstructionV::HealthcheckNone
    } else {
        let (j, f) = hc_from(
            args,
            0,
            HcFlags { interval: None, timeout: None, start_period: None, retries: None },
        );
        let rem = args.subrange(j, args.len() as int);
        let cmd = if rem.len() >= 3 && eq_ignore_ascii_case(rem.subrange(0, 3), "CMD"@) {
            command_form(trim(rem.subrange(3, rem.len() as int)))
        } else {
            command_form(rem)
        };
        InstructionV::Healthcheck {
            cmd,
            interval: f.interval,
            timeout: f.timeout,
            start_period: f.start_period,
            retries: f.retries,
        }
    }
}

fn flag_value_exec(s: &Vec<char>, j: usize, end: usize, flag: &str) -> (r: String)
    requires
        j <= end <= s@.len(),
    ensures
        r@ == flag_value_at(s@, j as int, end as int, flag@),
{
    let fl = chars_of(flag).len();
    if fl <= end - j {
        string_of(&slice_chars(s, j + fl, end))
    } else {
        String::new()
    }
}

fn parse_healthcheck(args: &Vec<char>) -> (r: Instruction)
    ensures
        r@ == healthcheck_inst(args@),
{
    let t = trim_chars(args);
    if eq_ignore_case_str(&t, "NONE") {
        return Instruction::HealthcheckNone;
    }
    let ghost s = args@;
    let ghost f0 = HcFlags { interval: None, timeout: None, start_period: None, retries: None };
    let len = args.len();
    let mut interval: Option<String> = None;
    let mut timeout: Option<String> = None;
    let mut start_period: Option<String> = None;
    let mut retries: Option<u32> = None;
    let mut i: usize = 0;
    let mut j: usize = skip_ws_exec(args, 0);
    let mut scanning = true;
    while scanning
        invariant
            s == args@,
            len == s.len(),
            i <= len,
            j == skip_ws(s, i as int),
            i <= j <= len,
            ({
                let f = HcFlags {
                    interval: opt_view(interval),
                    timeout: opt_view(timeout),
                    start_period: opt_view(start_period),
                    retries,
                };
                if scanning {
                    hc_from(s, 0, f0) == hc_from(s, i as int, f)
                } else {
                    hc_from(s, 0, f0) == (j as int, f)
                }
            }),
        decreases len - i + (if scanning {
            1int
        } else {
            0
        }),
    {
        if j >= len {
            scanning = false;
        } else {
            let end = match find_char_from(args, j, ' ') {
                Some(e) => e,
                None => len,
            };
            assert(end as int == space_end(s, j as int));
            let r = slice_chars(args, j, len);
            if !(i < end && end <= len) {
                scanning = false;
            } else if starts_with_str(&r, "--interval=") {
                interval = Some(flag_value_exec(args, j, end, "--interval="));
                i = end;
                j = skip_ws_exec(args, end);
            } else if starts_with_str(&r, "--timeout=") {
                timeout = Some(flag_value_exec(args, j, end, "--timeout="));
                i = end;
                j = skip_ws_exec(args, end);
            } else if starts_with_str(&r, "--start-period=") {
                start_period = Some(flag_value_exec(args, j, end, "--start-period="));
                i = end;
                j = skip_ws_exec(args, end);
            } else if starts_with_str(&r, "--retries=") {
                let v = flag_value_exec(args, j, end, "--retries=");
                let vc = chars_of(v.as_str());
                retries = match parse_unsigned_exec(&vc, 4294967295) {
                    Some(x) => Some(x as u32),
                    None => None,
                };
                i = end;
                j = skip_ws_exec(args, end);
            } else {
                scanning = false;
            }
        }
    }
    let rem = slice_chars(args, j, len);
    let cmd = if rem.len() >= 3 && eq_ignore_case_str(&slice_chars(&rem, 0, 3), "CMD") {
        let tail = trim_chars(&slice_chars(&rem, 3, rem.len()));
        parse_command_form(&tail)
    } else {
        parse_command_form(&rem)
    };
    Instruction::Healthcheck { cmd, interval, timeout, start_period, retries }
}

// ---------------------------------------------------------------------------
// Logical lines to instructions
// ---------------------------------------------------------------------------

/// The keyword of a logical line: its first word, upper-cased.
pub open spec fn keyword_of(line: Seq<char>) -> Seq<char> {
    match find_ws(line) {
        Some(p) => upper_of(line.subrange(0, p)),
        None => upper_of(line),
    }
}

/// The arguments of a logical line: what follows the keyword, trimmed.
pub open spec fn args_of(line: Seq<char>) -> Seq<char> {
    match find_ws(line) {
        Some(p) => trim(line.subrange(p, line.len() as int)),
        None => seq![],
    }
}

pub open spec fn inst(n: nat, i: InstructionV, raw: Seq<char>) -> RawInstructionV {
    RawInstructionV { line_number: n, instruction: i, raw }
}

/// The instruction of one logical line numbered `n`, or none for a comment,
/// an empty line, or an unknown or ignored keyword.
pub open spec fn parse_line(n: nat, line: Seq<char>) -> Option<RawInstructionV> {
    let k = keyword_of(line);
    let a = args_of(line);
    if line.len() == 0 || line[0] == '#' {
        None
    } else if k == "FROM"@ {
        Some(from_inst(a, n))
    } else if k == "ARG"@ {
        Some(arg_inst(a, n))
    } else if k == "ENV"@ {
        Some(env_inst(a, n))
    } else if k == "WORKDIR"@ {
        Some(inst(n, InstructionV::Workdir(a), line))
    } else if k == "USER"@ {
        Some(inst(n, InstructionV::User(a), line))
    } else if k == "EXPOSE"@ {
        Some(inst(n, InstructionV::Expose(ports_of(words(a))), line))
    } else if k == "VOLUME"@ {
        Some(inst(n, InstructionV::Volume(volume_list(a)), line))
    } else if k == "COPY"@ {
        Some(inst(n, copy_inst(a, true), line))
    } else if k == "ADD"@ {
        Some(inst(n, copy_inst(a, false), line))
    } else if k == "RUN"@ {
        Some(inst(n, InstructionV::Run(command_form(a)), line))
    } else if k == "ENTRYPOINT"@ {
        Some(inst(n, InstructionV::Entrypoint(command_form(a)), line))
    } else if k == "CMD"@ {
        Some(inst(n, InstructionV::Cmd(command_form(a)), line))
    } else if k == "HEALTHCHECK"@ {
        Some(inst(n, healthcheck_inst(a), line))
    } else if k == "SHELL"@ {
        Some(inst(n, InstructionV::Shell(json_array(a)), line))
    } else {
        None
    }
}

pub open spec fn raw_instructions(ls: Seq<(nat, Seq<char>)>) -> Seq<RawInstructionV>
    decreases ls.len(),
{
    if ls.len() == 0 {
        seq![]
    } else {
        let r = raw_instructions(ls.drop_last());
        match parse_line(ls.last().0, ls.last().1) {
            Some(i) => r.push(i),
            None => r,
        }
    }
}

fn parse_line_exec(n: usize, line: &Vec<char>) -> (r: Option<RawInstruction>)
    ensures
        match r {
            Some(i) => parse_line(n as nat, line@) == Some(i@),
            None => parse_line(n as nat, line@) is None,
        },
{
    if line.len() == 0 || line[0] == '#' {
        return None;
    }
    let (word, args) = match find_ws_from(line, 0) {
        Some(p) => (string_of(&slice_chars(line, 0, p)), trim_chars(&slice_chars(line, p, line.len()))),
        None => (string_of(line), Vec::new()),
    };
    let kw = chars_of(to_upper(word.as_str()).as_str());
    assert(line@.subrange(0, line@.len() as int) =~= line@);
    assert(kw@ == keyword_of(line@));
    assert(args@ == args_of(line@));
    let n_raw = string_of(line);
    let instruction = if str_eq_chars("FROM", &kw) {
        return Some(parse_from(&args, n));
    } else if str_eq_chars("ARG", &kw) {
        return Some(parse_arg(&args, n));
    } else if str_eq_chars("ENV", &kw) {
        return Some(parse_env(&args, n));
    } else if str_eq_chars("WORKDIR", &kw) {
        Instruction::Workdir(string_of(&args))
    } else if str_eq_chars("USER", &kw) {
        Instruction::User(string_of(&args))
    } else if str_eq_chars("EXPOSE", &kw) {
        Instruction::Expose(parse_ports(&split_words(&args)))
    } else if str_eq_chars("VOLUME", &kw) {
        Instruction::Volume(parse_volume(&args))
    } else if str_eq_chars("COPY", &kw) {
        parse_copy_like(&args, true)
    } else if str_eq_chars("ADD", &kw) {
        parse_copy_like(&args, false)
    } else if str_eq_chars("RUN", &kw) {
        Instruction::Run(parse_command_form(&args))
    } else if str_eq_chars("ENTRYPOINT", &kw) {
        Instruction::Entrypoint(parse_command_form(&args))
    } else if str_eq_chars("CMD", &kw) {
        Instruction::Cmd(parse_command_form(&args))
    } else if str_eq_chars("HEALTHCHECK", &kw) {
        parse_healthcheck(&args)
    } else if str_eq_chars("SHELL", &kw) {
        Instruction::Shell(parse_json_array(&args))
    } else {
        return None;
    };
    Some(RawInstruction { line_number: n, instruction, raw: n_raw })
}

fn parse_raw_instructions(content: &Vec<char>) -> (r: Vec<RawInstruction>)
    ensures
        raws_view(r@) == raw_instructions(logical_lines(content@)),
{
    let merged = merge_continuation_lines(content);
    let ghost ll = numbered_view(merged@);
    let mut out: Vec<RawInstruction> = Vec::new();
    let mut k: usize = 0;
    while k < merged.len()
        invariant
            k <= merged@.len(),
            ll == numbered_view(merged@),
            raws_view(out@) == raw_instructions(ll.subrange(0, k as int)),
        decreases merged@.len() - k,
    {
        let ghost o0 = raws_view(out@);
        let (n, ref line) = merged[k];
        assert(ll.subrange(0, k + 1).drop_last() =~= ll.subrange(0, k as int));
        assert(ll.subrange(0, k + 1).last() == (n as nat, line@));
        match parse_line_exec(n, line) {
            Some(i) => {
                out.push(i);
                assert(raws_view(out@) =~= o0.push(i@));
            },
            None => {},
        }
        k += 1;
    }
    assert(ll.subrange(0, merged@.len() as int) =~= ll);
    out
}

// ---------------------------------------------------------------------------
// Stage assembly
// ---------------------------------------------------------------------------

pub struct BuildSt {
    pub globals: Seq<ArgV>,
    pub stages: Seq<StageV>,
    pub cur: Seq<RawInstructionV>,
    pub from: Option<(Seq<char>, Option<Seq<char>>, nat)>,
}

pub open spec fn close_stage(st: BuildSt) -> Seq<StageV> {
    match st.from {
        Some((image, alias, line)) => st.stages.push(
            StageV { image, alias, from_line: line, instructions: st.cur },
        ),
        None => st.stages,
    }
}

/// One instruction folded into the stage tree: `FROM` closes the open stage and
/// opens a new one; `ARG` before any `FROM` is global; others join the open stage.
pub open spec fn build_step(st: BuildSt, i: RawInstructionV) -> BuildSt {
    match i.instruction {
        InstructionV::From { image, alias } => BuildSt {
            globals: st.globals,
            stages: close_stage(st),
            cur: seq![],
            from: Some((image, alias, i.line_number)),
        },
        InstructionV::Arg { name, default } => if st.from is Some {
            BuildSt { globals: st.globals, stages: st.stages, cur: st.cur.push(i), from: st.from }
        } else {
            BuildSt {
                globals: st.globals.push(ArgV { name, default }),
                stages: st.stages,
                cur: st.cur,
                from: st.from,
            }
        },
        _ => if st.from is Some {
            BuildSt { globals: st.globals, stages: st.stages, cur: st.cur.push(i), from: st.from }
        } else {
            st
        },
    }
}

pub open spec fn build_fold(insts: Seq<RawInstructionV>) -> BuildSt
    decreases insts.len(),
{
    if insts.len() == 0 {
        BuildSt { globals: seq![], stages: seq![], cur: seq![], from: None }
    } else {
        build_step(build_fold(insts.drop_last()), insts.last())
    }
}

pub open spec fn build_stages_spec(insts: Seq<RawInstructionV>) -> DockerfileV {
    let st = build_fold(insts);
    DockerfileV { global_args: st.globals, stages: close_stage(st) }
}

/// The whole parse of a recipe text.
pub open spec fn parse_spec(content: Seq<char>) -> DockerfileV {
    build_stages_spec(raw_instructions(logical_lines(content)))
}

fn build_single_stage(
    image: String,
    alias: Option<String>,
    from_line: usize,
    instructions: Vec<RawInstruction>,
) -> (r: Stage)
    ensures
        r@ == (StageV {
            image: image@,
            alias: opt_view(alias),
            from_line: from_line as nat,
            instructions: raws_view(instructions@),
        }),
{
    Stage { image, alias, from_line, instructions }
}

fn build_stages(instructions: Vec<RawInstruction>) -> (r: Dockerfile)
    ensures
        r@ == build_stages_spec(raws_view(instructions@)),
{
    let ghost all = raws_view(instructions@);
    let total = instructions.len();
    let mut rest = instructions;
    let mut global_args: Vec<ArgInstruction> = Vec::new();
    let mut stages: Vec<Stage> = Vec::new();
    let mut cur: Vec<RawInstruction> = Vec::new();
    let mut from: Option<(String, Option<String>, usize)> = None;
    let mut k: usize = 0;
    while rest.len() > 0
        invariant
            k <= all.len(),
            all.len() == total,
            raws_view(rest@) == all.subrange(k as int, all.len() as int),
            ({
                let st = build_fold(all.subrange(0, k as int));
                &&& args_view(global_args@) == st.globals
                &&& stages_view(stages@) == st.stages
                &&& raws_view(cur@) == st.cur
                &&& match from {
                    Some((im, al, ln)) => st.from == Some((im@, opt_view(al), ln as nat)),
                    None => st.from is None,
                }
            }),
        decreases rest@.len(),
    {
        let ghost st = build_fold(all.subrange(0, k as int));
        let ghost r0 = rest@;
        assert(raws_view(r0).len() == r0.len());
        assert(k < all.len());
        let i = rest.remove(0);
        assert(raws_view(r0)[0] == i@);
        assert(all.subrange(k as int, all.len() as int)[0] == all[k as int]);
        assert(all.subrange(0, k + 1).drop_last() =~= all.subrange(0, k as int));
        assert(all.subrange(0, k + 1).last() == i@);
        assert(raws_view(rest@) =~= all.subrange(k + 1, all.len() as int)) by {
            assert(rest@ =~= r0.subrange(1, r0.len() as int));
            assert forall|j: int| 0 <= j < rest@.len() implies raws_view(rest@)[j] == all.subrange(
                k + 1,
                all.len() as int,
            )[j] by {
                assert(rest@[j] == r0[j + 1]);
                assert(raws_view(r0)[j + 1] == all.subrange(k as int, all.len() as int)[j + 1]);
            }
        }
        let ghost nst = build_step(st, i@);
        assert(build_fold(all.subrange(0, k + 1)) == nst);
        match &i.instruction {
            Instruction::From { image, alias } => {
                let image = image.clone();
                let alias = crate::parser::ast::clone_opt(alias);
                let line = i.line_number;
                match from {
                    Some((im, al, ln)) => {
                        let taken = cur;
                        let ghost s0 = stages_view(stages@);
                        stages.push(build_single_stage(im, al, ln, taken));
                        assert(stages_view(stages@) =~= close_stage(st));
                    },
                    None => {},
                }
                cur = Vec::new();
                from = Some((image, alias, line));
                assert(raws_view(cur@) =~= Seq::<RawInstructionV>::empty());
            },
            Instruction::Arg { name, default } => {
                if from.is_some() {
                    let ghost c0 = raws_view(cur@);
                    cur.push(i);
                    assert(raws_view(cur@) =~= c0.push(r0[0]@));
                } else {
                    let ghost g0 = args_view(global_args@);
                    let a = ArgInstruction {
                        name: name.clone(),
                        default: crate::parser::ast::clone_opt(default),
                    };
                    global_args.push(a);
                    assert(args_view(global_args@) =~= g0.push(a@));
                }
            },
            _ => {
                if from.is_some() {
                    let ghost c0 = raws_view(cur@);
                    cur.push(i);
                    assert(raws_view(cur@) =~= c0.push(r0[0]@));
                }
            },
        }
        k += 1;
    }
    assert(all.subrange(0, k as int) =~= all);
    let ghost st = build_fold(all);
    match from {
        Some((im, al, ln)) => {
            let ghost s0 = stages_view(stages@);
            stages.push(build_single_stage(im, al, ln, cur));
            assert(stages_view(stages@) =~= close_stage(st));
        },
        None => {},
    }
    Dockerfile { global_args, stages }
}

/// Parses a recipe text into its global `ARG`s and its stages.
pub fn parse_dockerfile_content(content: &str) -> (r: Result<Dockerfile, ParseError>)
    ensures
        r matches Ok(d) && d@ == parse_spec(content@),
{
    let chars = chars_of(content);
    let raw = parse_raw_instructions(&chars);
    Ok(build_stages(raw))
}

} // verus!
