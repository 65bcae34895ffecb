//! Rendering resources into a YAML document: fixed section order, keys sorted
//! within each section, provenance as comments.
use vstd::prelude::*;
use crate::{Confidence, confidence_name};
use crate::generator::{GossResource, GossV, resources_view, clone_resource};
use crate::parser::ast::opt_view;
use crate::text::{
    chars_of, decimal, decimal_i32, decimal_int, decimal_string, push_char, push_str, string_views,
};

verus! {

// ---------------------------------------------------------------------------
// Escaping
// ---------------------------------------------------------------------------

pub open spec fn is_key_special(c: char) -> bool {
    c == ':' || c == ' ' || c == '#' || c == '{' || c == '}' || c == '[' || c == ']' || c == ','
        || c == '&' || c == '*' || c == '!' || c == '|' || c == '>' || c == '\'' || c == '"' || c
        == '%' || c == '@' || c == '`'
}

pub open spec fn escape_quotes(s: Seq<char>) -> Seq<char>
    decreases s.len(),
{
    if s.len() == 0 {
        seq![]
    } else {
        escape_quotes(s.drop_last()) + if s.last() == '"' {
            seq!['\\', '"']
        } else {
            seq![s.last()]
        }
    }
}

/// A mapping key, double-quoted (with `"` escaped) when it holds a YAML special character.
pub open spec fn escape_key(k: Seq<char>) -> Seq<char> {
    if exists|i: int| 0 <= i < k.len() && is_key_special(#[trigger] k[i]) {
        seq!['"'] + escape_quotes(k) + seq!['"']
    } else {
        k
    }
}

pub open spec fn escape_value_char(c: char) -> Seq<char> {
    if c == '\\' {
        seq!['\\', '\\']
    } else if c == '"' {
        seq!['\\', '"']
    } else if c == '\n' {
        seq!['\\', 'n']
    } else if c == '\r' {
        seq!['\\', 'r']
    } else if c == '\t' {
        seq!['\\', 't']
    } else {
        seq![c]
    }
}

/// A double-quoted YAML scalar's contents: `\`, `"`, newline, CR and tab escaped.
pub open spec fn escape_value(s: Seq<char>) -> Seq<char>
    decreases s.len(),
{
    if s.len() == 0 {
        seq![]
    } else {
        escape_value(s.drop_last()) + escape_value_char(s.last())
    }
}

pub fn yaml_escape_key(key: &str) -> (r: String)
    ensures
        r@ == escape_key(key@),
{
    let v = chars_of(key);
    let mut special = false;
    let mut i: usize = 0;
    while i < v.len()
        invariant
            i <= v@.len(),
            v@ == key@,
            special == exists|j: int| 0 <= j < i && is_key_special(#[trigger] v@[j]),
        decreases v@.len() - i,
    {
        let c = v[i];
        if c == ':' || c == ' ' || c == '#' || c == '{' || c == '}' || c == '[' || c == ']' || c
            == ',' || c == '&' || c == '*' || c == '!' || c == '|' || c == '>' || c == '\'' || c
            == '"' || c == '%' || c == '@' || c == '`' {
            special = true;
        }
        i += 1;
    }
    if !special {
        return crate::text::str_from(key);
    }
    let mut out = String::new();
    push_char(&mut out, '"');
    let mut k: usize = 0;
    while k < v.len()
        invariant
            k <= v@.len(),
            out@ == seq!['"'] + escape_quotes(v@.subrange(0, k as int)),
        decreases v@.len() - k,
    {
        assert(v@.subrange(0, k + 1).drop_last() =~= v@.subrange(0, k as int));
        if v[k] == '"' {
            push_char(&mut out, '\\');
            push_char(&mut out, '"');
        } else {
            push_char(&mut out, v[k]);
        }
        k += 1;
        assert(out@ =~= seq!['"'] + escape_quotes(v@.subrange(0, k as int)));
    }
    push_char(&mut out, '"');
    assert(v@.subrange(0, v@.len() as int) =~= v@);
    out
}

pub fn yaml_escape_value(value: &str) -> (r: String)
    ensures
        r@ == escape_value(value@),
{
    let v = chars_of(value);
    let mut out = String::new();
    let mut k: usize = 0;
    while k < v.len()
        invariant
            k <= v@.len(),
            out@ == escape_value(v@.subrange(0, k as int)),
        decreases v@.len() - k,
    {
        assert(v@.subrange(0, k + 1).drop_last() =~= v@.subrange(0, k as int));
        let c = v[k];
        if c == '\\' {
            push_char(&mut out, '\\');
            push_char(&mut out, '\\');
        } else if c == '"' {
            push_char(&mut out, '\\');
            push_char(&mut out, '"');
        } else if c == '\n' {
            push_char(&mut out, '\\');
            push_char(&mut out, 'n');
        } else if c == '\r' {
            push_char(&mut out, '\\');
            push_char(&mut out, 'r');
        } else if c == '\t' {
            push_char(&mut out, '\\');
            push_char(&mut out, 't');
        } else {
            push_char(&mut out, c);
        }
        k += 1;
        assert(out@ =~= escape_value(v@.subrange(0, k as int)));
    }
    assert(v@.subrange(0, v@.len() as int) =~= v@);
    out
}

// ---------------------------------------------------------------------------
// Resource text
// ---------------------------------------------------------------------------

pub open spec fn bool_text(b: bool) -> Seq<char> {
    if b {
        "true"@
    } else {
        "false"@
    }
}

pub open spec fn comment_text(prov: Seq<char>, c: Confidence) -> Seq<char> {
    "  # derived from "@ + prov + "; confidence: "@ + confidence_name(c) + "\n"@
}

pub open spec fn opt_line(label: Seq<char>, v: Option<Seq<char>>) -> Seq<char> {
    match v {
        Some(x) => label + x + "\n"@,
        None => seq![],
    }
}

pub open spec fn stdout_lines(lines: Seq<Seq<char>>) -> Seq<char>
    decreases lines.len(),
{
    if lines.len() == 0 {
        seq![]
    } else {
        stdout_lines(lines.drop_last()) + "      - \""@ + escape_value(lines.last()) + "\"\n"@
    }
}

/// The lines one resource contributes to its section.
pub open spec fn resource_text(g: GossV) -> Seq<char> {
    match g {
        GossV::File { path, exists, filetype, mode, provenance, confidence } => comment_text(
            provenance,
            confidence,
        ) + "  "@ + escape_key(path) + ":\n"@ + "    exists: "@ + bool_text(exists) + "\n"@
            + opt_line("    filetype: "@, filetype) + match mode {
            Some(m) => "    mode: \""@ + m + "\"\n"@,
            None => seq![],
        },
        GossV::Port { address, listening, provenance, confidence } => comment_text(
            provenance,
            confidence,
        ) + "  "@ + address + ":\n"@ + "    listening: "@ + bool_text(listening) + "\n"@,
        GossV::Process { name, running, provenance, confidence } => comment_text(
            provenance,
            confidence,
        ) + "  "@ + escape_key(name) + ":\n"@ + "    running: "@ + bool_text(running) + "\n"@,
        GossV::Command { name, command, exit_status, timeout, provenance, confidence } =>
            comment_text(provenance, confidence) + "  "@ + escape_key(name) + ":\n"@
            + "    exec: \""@ + escape_value(command) + "\"\n"@ + "    exit-status: "@
            + decimal_int(exit_status as int) + "\n"@ + "    timeout: "@ + decimal_int(
            timeout as int,
        ) + "\n"@,
        GossV::CommandWithOutput {
            name,
            command,
            exit_status,
            stdout,
            timeout,
            provenance,
            confidence,
        } => comment_text(provenance, confidence) + "  "@ + escape_key(name) + ":\n"@
            + "    exec: \""@ + escape_value(command) + "\"\n"@ + "    exit-status: "@
            + decimal_int(exit_status as int) + "\n"@ + (if stdout.len() > 0 {
            "    stdout:\n"@ + stdout_lines(stdout)
        } else {
            seq![]
        }) + "    timeout: "@ + decimal_int(timeout as int) + "\n"@,
        GossV::Http { url, status, provenance, confidence } => comment_text(
            provenance,
            confidence,
        ) + "  "@ + escape_key(url) + ":\n"@ + "    status: "@ + decimal(status as nat) + "\n"@,
    }
}

fn bool_str(b: bool) -> (r: &'static str)
    ensures
        r@ == bool_text(b),
{
    if b {
        "true"
    } else {
        "false"
    }
}

fn render_provenance_comment(output: &mut String, provenance: &str, confidence: Confidence)
    ensures
        final(output)@ == old(output)@ + comment_text(provenance@, confidence),
{
    let ghost o0 = output@;
    push_str(output, "  # derived from ");
    push_str(output, provenance);
    push_str(output, "; confidence: ");
    push_str(output, confidence.name());
    push_str(output, "\n");
    assert(output@ =~= o0 + comment_text(provenance@, confidence));
}

fn render_stdout(output: &mut String, lines: &Vec<String>)
    ensures
        final(output)@ == old(output)@ + stdout_lines(string_views(lines@)),
{
    let ghost o0 = output@;
    let ghost lv = string_views(lines@);
    let mut i: usize = 0;
    while i < lines.len()
        invariant
            i <= lines@.len(),
            lv == string_views(lines@),
            output@ == o0 + stdout_lines(lv.subrange(0, i as int)),
        decreases lines@.len() - i,
    {
        assert(lv.subrange(0, i + 1).drop_last() =~= lv.subrange(0, i as int));
        assert(lv.subrange(0, i + 1).last() == lines@[i as int]@);
        push_str(output, "      - \"");
        push_str(output, yaml_escape_value(lines[i].as_str()).as_str());
        push_str(output, "\"\n");
        i += 1;
        assert(output@ =~= o0 + stdout_lines(lv.subrange(0, i as int)));
    }
    assert(lv.subrange(0, lines@.len() as int) =~= lv);
}

/// Appends `t`, keeping the text appended since `base` as one left-nested concatenation.
fn push_piece(out: &mut String, t: &str, Ghost(base): Ghost<Seq<char>>, Ghost(acc): Ghost<Seq<char>>)
    requires
        old(out)@ == base + acc,
    ensures
        final(out)@ == base + (acc + t@),
{
    push_str(out, t);
    proof {
        vstd::seq_lib::lemma_concat_associative(base, acc, t@);
    }
}

fn push_opt_line(
    out: &mut String,
    label: &str,
    v: &Option<String>,
    Ghost(base): Ghost<Seq<char>>,
    Ghost(acc): Ghost<Seq<char>>,
)
    requires
        old(out)@ == base + acc,
    ensures
        final(out)@ == base + (acc + opt_line(label@, opt_view(*v))),
{
    match v {
        Some(x) => {
            push_str(out, label);
            push_str(out, x.as_str());
            push_str(out, "\n");
            assert(out@ =~= base + (acc + opt_line(label@, opt_view(*v))));
        },
        None => {
            assert(out@ =~= base + (acc + opt_line(label@, opt_view(*v))));
        },
    }
}

fn push_mode_line(
    out: &mut String,
    v: &Option<String>,
    Ghost(base): Ghost<Seq<char>>,
    Ghost(acc): Ghost<Seq<char>>,
)
    requires
        old(out)@ == base + acc,
    ensures
        final(out)@ == base + (acc + match opt_view(*v) {
            Some(m) => "    mode: \""@ + m + "\"\n"@,
            None => Seq::<char>::empty(),
        }),
{
    match v {
        Some(x) => {
            push_str(out, "    mode: \"");
            push_str(out, x.as_str());
            push_str(out, "\"\n");
            assert(out@ =~= base + (acc + ("    mode: \""@ + x@ + "\"\n"@)));
        },
        None => {
            assert(out@ =~= base + (acc + Seq::<char>::empty()));
        },
    }
}

fn render_file_resource(output: &mut String, resource: &GossResource)
    requires
        resource is File,
    ensures
        final(output)@ == old(output)@ + resource_text(resource@),
{
    let ghost b = output@;
    if let GossResource::File { path, exists, filetype, mode, provenance, confidence } = resource {
        render_provenance_comment(output, provenance.as_str(), *confidence);
        let ghost a = comment_text(provenance@, *confidence);
        push_piece(output, "  ", Ghost(b), Ghost(a));
        let ghost a = a + "  "@;
        let key = yaml_escape_key(path.as_str());
        push_piece(output, key.as_str(), Ghost(b), Ghost(a));
        let ghost a = a + key@;
        push_piece(output, ":\n", Ghost(b), Ghost(a));
        let ghost a = a + ":\n"@;
        push_piece(output, "    exists: ", Ghost(b), Ghost(a));
        let ghost a = a + "    exists: "@;
        push_piece(output, bool_str(*exists), Ghost(b), Ghost(a));
        let ghost a = a + bool_text(*exists);
        push_piece(output, "\n", Ghost(b), Ghost(a));
        let ghost a = a + "\n"@;
        push_opt_line(output, "    filetype: ", filetype, Ghost(b), Ghost(a));
        let ghost a = a + opt_line("    filetype: "@, opt_view(*filetype));
        push_mode_line(output, mode, Ghost(b), Ghost(a));
    }
}

fn render_port_resource(output: &mut String, resource: &GossResource)
    requires
        resource is Port,
    ensures
        final(output)@ == old(output)@ + resource_text(resource@),
{
    let ghost b = output@;
    if let GossResource::Port { address, listening, provenance, confidence } = resource {
        render_provenance_comment(output, provenance.as_str(), *confidence);
        let ghost a = comment_text(provenance@, *confidence);
        push_piece(output, "  ", Ghost(b), Ghost(a));
        let ghost a = a + "  "@;
        push_piece(output, address.as_str(), Ghost(b), Ghost(a));
        let ghost a = a + address@;
        push_piece(output, ":\n", Ghost(b), Ghost(a));
        let ghost a = a + ":\n"@;
        push_piece(output, "    listening: ", Ghost(b), Ghost(a));
        let ghost a = a + "    listening: "@;
        push_piece(output, bool_str(*listening), Ghost(b), Ghost(a));
        let ghost a = a + bool_text(*listening);
        push_piece(output, "\n", Ghost(b), Ghost(a));
    }
}

fn render_process_resource(output: &mut String, resource: &GossResource)
    requires
        resource is Process,
    ensures
        final(output)@ == old(output)@ + resource_text(resource@),
{
    let ghost b = output@;
    if let GossResource::Process { name, running, provenance, confidence } = resource {
        render_provenance_comment(output, provenance.as_str(), *confidence);
        let ghost a = comment_text(provenance@, *confidence);
        push_piece(output, "  ", Ghost(b), Ghost(a));
        let ghost a = a + "  "@;
        let key = yaml_escape_key(name.as_str());
        push_piece(output, key.as_str(), Ghost(b), Ghost(a));
        let ghost a = a + key@;
        push_piece(output, ":\n", Ghost(b), Ghost(a));
        let ghost a = a + ":\n"@;
        push_piece(output, "    running: ", Ghost(b), Ghost(a));
        let ghost a = a + "    running: "@;
        push_piece(output, bool_str(*running), Ghost(b), Ghost(a));
        let ghost a = a + bool_text(*running);
        push_piece(output, "\n", Ghost(b), Ghost(a));
    }
}

fn push_stdout_block(
    out: &mut String,
    stdout: &Vec<String>,
    Ghost(base): Ghost<Seq<char>>,
    Ghost(acc): Ghost<Seq<char>>,
)
    requires
        old(out)@ == base + acc,
    ensures
        final(out)@ == base + (acc + (if stdout@.len() > 0 {
            "    stdout:\n"@ + stdout_lines(string_views(stdout@))
        } else {
            Seq::<char>::empty()
        })),
{
    if stdout.len() > 0 {
        push_str(out, "    stdout:\n");
        render_stdout(out, stdout);
        assert(out@ =~= base + (acc + ("    stdout:\n"@ + stdout_lines(string_views(stdout@)))));
    } else {
        assert(out@ =~= base + (acc + Seq::<char>::empty()));
    }
}

fn render_command_resource(output: &mut String, resource: &GossResource)
    requires
        resource is Command || resource is CommandWithOutput,
    ensures
        final(output)@ == old(output)@ + resource_text(resource@),
{
    let ghost b = output@;
    match resource {
        GossResource::Command { name, command, exit_status, timeout, provenance, confidence } => {
            render_provenance_comment(output, provenance.as_str(), *confidence);
            let ghost a = comment_text(provenance@, *confidence);
            push_piece(output, "  ", Ghost(b), Ghost(a));
            let ghost a = a + "  "@;
            let key = yaml_escape_key(name.as_str());
            push_piece(output, key.as_str(), Ghost(b), Ghost(a));
            let ghost a = a + key@;
            push_piece(output, ":\n", Ghost(b), Ghost(a));
            let ghost a = a + ":\n"@;
            push_piece(output, "    exec: \"", Ghost(b), Ghost(a));
            let ghost a = a + "    exec: \""@;
            let ev = yaml_escape_value(command.as_str());
            push_piece(output, ev.as_str(), Ghost(b), Ghost(a));
            let ghost a = a + ev@;
            push_piece(output, "\"\n", Ghost(b), Ghost(a));
            let ghost a = a + "\"\n"@;
            push_piece(output, "    exit-status: ", Ghost(b), Ghost(a));
            let ghost a = a + "    exit-status: "@;
            let es = decimal_i32(*exit_status);
            push_piece(output, es.as_str(), Ghost(b), Ghost(a));
            let ghost a = a + es@;
            push_piece(output, "\n", Ghost(b), Ghost(a));
            let ghost a = a + "\n"@;
            push_piece(output, "    timeout: ", Ghost(b), Ghost(a));
            let ghost a = a + "    timeout: "@;
            let ts = decimal_i32(*timeout);
            push_piece(output, ts.as_str(), Ghost(b), Ghost(a));
            let ghost a = a + ts@;
            push_piece(output, "\n", Ghost(b), Ghost(a));
        },
        GossResource::CommandWithOutput {
            name,
            command,
            exit_status,
            stdout,
            timeout,
            provenance,
            confidence,
        } => {
            render_provenance_comment(output, provenance.as_str(), *confidence);
            let ghost a = comment_text(provenance@, *confidence);
            push_piece(output, "  ", Ghost(b), Ghost(a));
            let ghost a = a + "  "@;
            let key = yaml_escape_key(name.as_str());
            push_piece(output, key.as_str(), Ghost(b), Ghost(a));
            let ghost a = a + key@;
            push_piece(output, ":\n", Ghost(b), Ghost(a));
            let ghost a = a + ":\n"@;
            push_piece(output, "    exec: \"", Ghost(b), Ghost(a));
            let ghost a = a + "    exec: \""@;
            let ev = yaml_escape_value(command.as_str());
            push_piece(output, ev.as_str(), Ghost(b), Ghost(a));
            let ghost a = a + ev@;
            push_piece(output, "\"\n", Ghost(b), Ghost(a));
            let ghost a = a + "\"\n"@;
            push_piece(output, "    exit-status: ", Ghost(b), Ghost(a));
            let ghost a = a + "    exit-status: "@;
            let es = decimal_i32(*exit_status);
            push_piece(output, es.as_str(), Ghost(b), Ghost(a));
            let ghost a = a + es@;
            push_piece(output, "\n", Ghost(b), Ghost(a));
            let ghost a = a + "\n"@;
            push_stdout_block(output, stdout, Ghost(b), Ghost(a));
            let ghost a = a + (if stdout@.len() > 0 {
                "    stdout:\n"@ + stdout_lines(string_views(stdout@))
            } else {
                Seq::<char>::empty()
            });
            push_piece(output, "    timeout: ", Ghost(b), Ghost(a));
            let ghost a = a + "    timeout: "@;
            let ts = decimal_i32(*timeout);
            push_piece(output, ts.as_str(), Ghost(b), Ghost(a));
            let ghost a = a + ts@;
            push_piece(output, "\n", Ghost(b), Ghost(a));
        },
        _ => {},
    }
}

fn render_http_resource(output: &mut String, resource: &GossResource)
    requires
        resource is Http,
    ensures
        final(output)@ == old(output)@ + resource_text(resource@),
{
    let ghost b = output@;
    if let GossResource::Http { url, status, provenance, confidence } = resource {
        render_provenance_comment(output, provenance.as_str(), *confidence);
        let ghost a = comment_text(provenance@, *confidence);
        push_piece(output, "  ", Ghost(b), Ghost(a));
        let ghost a = a + "  "@;
        let key = yaml_escape_key(url.as_str());
        push_piece(output, key.as_str(), Ghost(b), Ghost(a));
        let ghost a = a + key@;
        push_piece(output, ":\n", Ghost(b), Ghost(a));
        let ghost a = a + ":\n"@;
        push_piece(output, "    status: ", Ghost(b), Ghost(a));
        let ghost a = a + "    status: "@;
        let st = decimal_string(*status as u64);
        push_piece(output, st.as_str(), Ghost(b), Ghost(a));
        let ghost a = a + st@;
        push_piece(output, "\n", Ghost(b), Ghost(a));
    }
}

} // verus!

verus! {

// ---------------------------------------------------------------------------
// Sections and ordering
// ---------------------------------------------------------------------------

/// The key a resource is listed under within its section.
pub open spec fn sort_key(g: GossV) -> Seq<char> {
    match g {
        GossV::File { path, .. } => path,
        GossV::Port { address, .. } => address,
        GossV::Process { name, .. } => name,
        GossV::Command { name, .. } => name,
        GossV::CommandWithOutput { name, .. } => name,
        GossV::Http { url, .. } => url,
    }
}

/// String order (by character code, as `str`'s `Ord`): whether `a` comes before `b`.
pub open spec fn lex_lt(a: Seq<char>, b: Seq<char>) -> bool
    decreases a.len(),
{
    if a.len() == 0 {
        b.len() > 0
    } else if b.len() == 0 {
        false
    } else if a[0] != b[0] {
        (a[0] as u32) < (b[0] as u32)
    } else {
        lex_lt(a.drop_first(), b.drop_first())
    }
}

/// Where a resource with key `k` goes in the sorted `s`: after every key not above it.
pub open spec fn insert_pos(s: Seq<GossV>, k: Seq<char>, i: int) -> int
    decreases s.len() - i,
{
    if 0 <= i < s.len() && !lex_lt(k, sort_key(s[i])) {
        insert_pos(s, k, i + 1)
    } else {
        i
    }
}

/// Resources ordered by their key (equal keys keep their order).
pub open spec fn sort_by_key(s: Seq<GossV>) -> Seq<GossV>
    decreases s.len(),
{
    if s.len() == 0 {
        seq![]
    } else {
        let r = sort_by_key(s.drop_last());
        r.insert(insert_pos(r, sort_key(s.last()), 0), s.last())
    }
}

/// The section of a resource: file, port, process, command, http.
pub open spec fn section_of(g: GossV) -> nat {
    match g {
        GossV::File { .. } => 0,
        GossV::Port { .. } => 1,
        GossV::Process { .. } => 2,
        GossV::Command { .. } => 3,
        GossV::CommandWithOutput { .. } => 3,
        GossV::Http { .. } => 4,
    }
}

/// The resources of section `k`, in their order.
pub open spec fn pick(s: Seq<GossV>, k: nat) -> Seq<GossV>
    decreases s.len(),
{
    if s.len() == 0 {
        seq![]
    } else if section_of(s.last()) == k {
        pick(s.drop_last(), k).push(s.last())
    } else {
        pick(s.drop_last(), k)
    }
}

pub open spec fn items_text(items: Seq<GossV>) -> Seq<char>
    decreases items.len(),
{
    if items.len() == 0 {
        seq![]
    } else {
        items_text(items.drop_last()) + resource_text(items.last())
    }
}

/// `out` followed (after a blank-line separator when `out` is not empty) by a
/// section's header and items; nothing for an empty section.
pub open spec fn add_section(out: Seq<char>, header: Seq<char>, items: Seq<GossV>) -> Seq<char> {
    if items.len() == 0 {
        out
    } else {
        (if out.len() > 0 {
            out + "\n"@
        } else {
            out
        }) + header + items_text(items)
    }
}

pub open spec fn section_items(rs: Seq<GossV>, k: nat) -> Seq<GossV> {
    sort_by_key(pick(rs, k))
}

/// The sections of a document, in the fixed order file, port, process, command, http.
pub open spec fn sections_text(rs: Seq<GossV>) -> Seq<char> {
    add_section(
        add_section(
            add_section(
                add_section(
                    add_section(seq![], "file:\n"@, section_items(rs, 0)),
                    "port:\n"@,
                    section_items(rs, 1),
                ),
                "process:\n"@,
                section_items(rs, 2),
            ),
            "command:\n"@,
            section_items(rs, 3),
        ),
        "http:\n"@,
        section_items(rs, 4),
    )
}

/// A document: its sections, or `command: {}` alone when there is nothing to assert.
pub open spec fn render_doc(rs: Seq<GossV>) -> Seq<char> {
    let o = sections_text(rs);
    if o.len() == 0 {
        "command: {}\n"@
    } else {
        o
    }
}

fn sort_key_exec(g: &GossResource) -> (r: Vec<char>)
    ensures
        r@ == sort_key(g@),
{
    match g {
        GossResource::File { path, .. } => chars_of(path.as_str()),
        GossResource::Port { address, .. } => chars_of(address.as_str()),
        GossResource::Process { name, .. } => chars_of(name.as_str()),
        GossResource::Command { name, .. } => chars_of(name.as_str()),
        GossResource::CommandWithOutput { name, .. } => chars_of(name.as_str()),
        GossResource::Http { url, .. } => chars_of(url.as_str()),
    }
}

fn lex_less(a: &Vec<char>, b: &Vec<char>) -> (r: bool)
    ensures
        r == lex_lt(a@, b@),
{
    let mut i: usize = 0;
    assert(a@.subrange(0, a@.len() as int) =~= a@);
    assert(b@.subrange(0, b@.len() as int) =~= b@);
    while i < a.len() && i < b.len() && a[i] == b[i]
        invariant
            i <= a@.len(),
            i <= b@.len(),
            lex_lt(a@, b@) == lex_lt(
                a@.subrange(i as int, a@.len() as int),
                b@.subrange(i as int, b@.len() as int),
            ),
        decreases a@.len() - i,
    {
        assert(a@.subrange(i as int, a@.len() as int).drop_first() =~= a@.subrange(
            i + 1,
            a@.len() as int,
        ));
        assert(b@.subrange(i as int, b@.len() as int).drop_first() =~= b@.subrange(
            i + 1,
            b@.len() as int,
        ));
        i += 1;
    }
    proof {
        assert(a@.subrange(0, a@.len() as int) =~= a@);
        assert(b@.subrange(0, b@.len() as int) =~= b@);
    }
    if i == a.len() {
        i < b.len()
    } else if i == b.len() {
        false
    } else {
        assert(a@.subrange(i as int, a@.len() as int)[0] == a@[i as int]);
        assert(b@.subrange(i as int, b@.len() as int)[0] == b@[i as int]);
        (a[i] as u32) < (b[i] as u32)
    }
}

fn section_of_exec(g: &GossResource) -> (r: u8)
    ensures
        r as nat == section_of(g@),
{
    match g {
        GossResource::File { .. } => 0,
        GossResource::Port { .. } => 1,
        GossResource::Process { .. } => 2,
        GossResource::Command { .. } => 3,
        GossResource::CommandWithOutput { .. } => 3,
        GossResource::Http { .. } => 4,
    }
}

/// The resources of one section, sorted by key.
fn sorted_section(resources: &[GossResource], k: u8) -> (r: Vec<GossResource>)
    ensures
        resources_view(r@) == section_items(resources_view(resources@), k as nat),
        forall|i: int| 0 <= i < r@.len() ==> section_of((#[trigger] r@[i])@) == k as nat,
{
    let ghost rv = resources_view(resources@);
    let mut sorted: Vec<GossResource> = Vec::new();
    let mut i: usize = 0;
    while i < resources.len()
        invariant
            i <= resources@.len(),
            rv == resources_view(resources@),
            resources_view(sorted@) == sort_by_key(pick(rv.subrange(0, i as int), k as nat)),
            forall|j: int| 0 <= j < sorted@.len() ==> section_of((#[trigger] sorted@[j])@) == k as nat,
        decreases resources@.len() - i,
    {
        let g = &resources[i];
        assert(rv.subrange(0, i + 1).drop_last() =~= rv.subrange(0, i as int));
        assert(rv.subrange(0, i + 1).last() == g@);
        let ghost pk = pick(rv.subrange(0, i as int), k as nat);
        if section_of_exec(g) == k {
            assert(pick(rv.subrange(0, i + 1), k as nat) == pk.push(g@));
            assert(pk.push(g@).drop_last() =~= pk);
            let ghost s0 = resources_view(sorted@);
            let key = sort_key_exec(g);
            let mut p: usize = 0;
            while p < sorted.len() && !lex_less(&key, &sort_key_exec(&sorted[p]))
                invariant
                    p <= sorted@.len(),
                    s0 == resources_view(sorted@),
                    key@ == sort_key(g@),
                    insert_pos(s0, key@, 0) == insert_pos(s0, key@, p as int),
                decreases sorted@.len() - p,
            {
                assert(s0[p as int] == sorted@[p as int]@);
                p += 1;
            }
            proof {
                if p < sorted@.len() {
                    assert(s0[p as int] == sorted@[p as int]@);
                }
            }
            let item = clone_resource(g);
            let ghost old_s = sorted@;
            sorted.insert(p, item);
            assert(sorted@ == old_s.insert(p as int, item));
            assert(resources_view(sorted@) =~= s0.insert(p as int, g@));
            assert forall|j: int| 0 <= j < sorted@.len() implies section_of(
                (#[trigger] sorted@[j])@,
            ) == k as nat by {
                if j < p {
                    assert(sorted@[j] == old_s[j]);
                } else if j == p {
                    assert(sorted@[j] == item);
                } else {
                    assert(sorted@[j] == old_s[j - 1]);
                }
            }
        } else {
            assert(pick(rv.subrange(0, i + 1), k as nat) == pk);
        }
        i += 1;
    }
    assert(rv.subrange(0, resources@.len() as int) =~= rv);
    sorted
}

} // verus!

verus! {

fn render_resource(output: &mut String, g: &GossResource)
    ensures
        final(output)@ == old(output)@ + resource_text(g@),
{
    match g {
        GossResource::File { .. } => render_file_resource(output, g),
        GossResource::Port { .. } => render_port_resource(output, g),
        GossResource::Process { .. } => render_process_resource(output, g),
        GossResource::Command { .. } => render_command_resource(output, g),
        GossResource::CommandWithOutput { .. } => render_command_resource(output, g),
        GossResource::Http { .. } => render_http_resource(output, g),
    }
}

fn append_section(output: &mut String, header: &str, items: &Vec<GossResource>)
    ensures
        final(output)@ == add_section(old(output)@, header@, resources_view(items@)),
{
    if items.len() == 0 {
        return;
    }
    if !output.as_str().is_empty() {
        push_str(output, "\n");
    }
    push_str(output, header);
    let ghost base = output@;
    let ghost iv = resources_view(items@);
    let mut i: usize = 0;
    while i < items.len()
        invariant
            i <= items@.len(),
            iv == resources_view(items@),
            output@ == base + items_text(iv.subrange(0, i as int)),
        decreases items@.len() - i,
    {
        assert(iv.subrange(0, i + 1).drop_last() =~= iv.subrange(0, i as int));
        assert(iv.subrange(0, i + 1).last() == items@[i as int]@);
        render_resource(output, &items[i]);
        i += 1;
        assert(output@ =~= base + items_text(iv.subrange(0, i as int)));
    }
    assert(iv.subrange(0, items@.len() as int) =~= iv);
}

/// Renders resources as a document: sections `file`, `port`, `process`,
/// `command`, `http` in this order, keys sorted within each; `command: {}` alone
/// when there is nothing to render.
pub fn render_goss(resources: &[GossResource]) -> (r: String)
    ensures
        r@ == render_doc(resources_view(resources@)),
{
    let mut out = String::new();
    append_section(&mut out, "file:\n", &sorted_section(resources, 0));
    append_section(&mut out, "port:\n", &sorted_section(resources, 1));
    append_section(&mut out, "process:\n", &sorted_section(resources, 2));
    append_section(&mut out, "command:\n", &sorted_section(resources, 3));
    append_section(&mut out, "http:\n", &sorted_section(resources, 4));
    if out.as_str().is_empty() {
        crate::text::str_from("command: {}\n")
    } else {
        out
    }
}

/// Renders the readiness document; it has the same layout as the main one.
pub fn render_goss_wait(resources: &[GossResource]) -> (r: String)
    ensures
        r@ == render_doc(resources_view(resources@)),
{
    render_goss(resources)
}

/// The readiness document with a single port check.
pub open spec fn minimal_wait_text(port: u16, protocol: Seq<char>) -> Seq<char> {
    "# Minimal viable wait: port readiness check\n"@ + "# derived from EXPOSE "@ + decimal(
        port as nat,
    ) + "; confidence: medium\n"@ + "port:\n"@ + "  "@ + protocol + ":"@ + decimal(port as nat)
        + ":\n"@ + "    listening: true\n"@
}

/// A minimal readiness document: one listening check on `protocol:port`.
pub fn render_goss_wait_minimal(port: u16, protocol: &str) -> (r: String)
    ensures
        r@ == minimal_wait_text(port, protocol@),
{
    let d = decimal_string(port as u64);
    let mut output = String::new();
    push_str(&mut output, "# Minimal viable wait: port readiness check\n");
    push_str(&mut output, "# derived from EXPOSE ");
    push_str(&mut output, d.as_str());
    push_str(&mut output, "; confidence: medium\n");
    push_str(&mut output, "port:\n");
    push_str(&mut output, "  ");
    push_str(&mut output, protocol);
    push_str(&mut output, ":");
    push_str(&mut output, d.as_str());
    push_str(&mut output, ":\n");
    push_str(&mut output, "    listening: true\n");
    assert(output@ =~= minimal_wait_text(port, protocol@));
    output
}

} // verus!
