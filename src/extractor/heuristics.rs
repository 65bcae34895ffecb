//! The heuristic rule engine: package installs, user creation and well-known
//! components recognised in `RUN` commands.
use vstd::prelude::*;
use crate::Confidence;
use crate::parser::ast::{CommandForm, flat, opt_view};
use crate::extractor::model::{
    AssertionKind, AssertionKindV, AssertionV, ComponentKind, ComponentV, ContractAssertion,
    InstalledComponent, PackageManager, assertions_view, components_view,
};
use crate::text::{
    chars_of, contains_char, ends_with, ends_with_str, find_char, find_char_from, lower_of,
    push_chars, push_str, slice_chars, split_words, str_eq_chars, str_from, string_of, to_lower,
    views, words,
};

verus! {

pub const APT_INSTALL_PATTERN: &'static str = r"apt-get\s+install\s+(?:-y\s+)?(.+?)(?:\s*&&|\s*$)";

pub const APK_ADD_PATTERN: &'static str = r"apk\s+add\s+(?:--no-cache\s+)?(.+?)(?:\s*&&|\s*$)";

pub const PIP_INSTALL_PATTERN: &'static str = r"pip3?\s+install\s+(.+?)(?:\s*&&|\s*$)";

pub const NPM_INSTALL_PATTERN: &'static str = r"npm\s+(?:install|ci)(?:\s+(.+?))?(?:\s*&&|\s*$)";

pub const COMPOSER_REQUIRE_PATTERN: &'static str = r"composer\s+require\s+(.+?)(?:\s*&&|\s*$)";

pub const USERADD_PATTERN: &'static str = r"(?:useradd|adduser)\s+(?:[^\s]+\s+)*?(\w+)\s*$";

/// Group 1 of the leftmost match of the regular expression `pattern` in `text`,
/// if the expression compiles, matches, and that group took part in the match.
pub uninterp spec fn regex_group1(pattern: Seq<char>, text: Seq<char>) -> Option<Seq<char>>;

/// Whether the regular expression `pattern` compiles and matches somewhere in `text`.
pub uninterp spec fn regex_matches(pattern: Seq<char>, text: Seq<char>) -> bool;

/// Relies on `regex::Regex::new`, `Regex::captures` and `Captures::get(1)`:
/// the text of capture group 1 of the leftmost match, which depends on the
/// pattern and the text alone.
#[verifier::external_body]
fn capture_group1(pattern: &str, text: &str) -> (r: Option<String>)
    ensures
        opt_view(r) == regex_group1(pattern@, text@),
{
    let re = regex::Regex::new(pattern).ok()?;
    re.captures(text).and_then(|c| c.get(1)).map(|m| m.as_str().to_string())
}

/// Relies on `regex::Regex::new` and `Regex::is_match`: whether the pattern
/// matches anywhere in the text, which depends on the two alone.
#[verifier::external_body]
fn regex_is_match(pattern: &str, text: &str) -> (r: bool)
    ensures
        r == regex_matches(pattern@, text@),
{
    match regex::Regex::new(pattern) {
        Ok(re) => re.is_match(text),
        Err(_) => false,
    }
}

// ---------------------------------------------------------------------------
// Package tokens
// ---------------------------------------------------------------------------

/// Build-time dependencies and meta-packages that never become assertions,
/// whatever the package manager.
pub open spec fn is_low_value(p: Seq<char>) -> bool {
    p == "ca-certificates"@ || p == "gnupg"@ || p == "gnupg2"@ || p == "apt-transport-https"@ || p
        == "software-properties-common"@ || p == "lsb-release"@ || p == "dirmngr"@
}

/// A one-byte token (a single ASCII character).
pub open spec fn is_single_byte(p: Seq<char>) -> bool {
    p.len() == 1 && (p[0] as u32) < 128
}

/// What is left of a `pip` flag once its dashes are gone.
pub open spec fn is_pip_flag_remnant(p: Seq<char>) -> bool {
    p == "no-cache-dir"@ || p == "no-deps"@ || p == "no-build-isolation"@ || p == "no-binary"@ || p
        == "prefer-binary"@ || p == "user"@ || p == "upgrade"@ || p == "force-reinstall"@ || p
        == "pre"@ || p == "quiet"@ || p == "verbose"@ || p == "r"@ || p == "q"@ || p == "U"@ || p
        == "e"@ || is_single_byte(p)
}

/// What is left of a `composer` flag once its dashes are gone.
pub open spec fn is_composer_flag_remnant(p: Seq<char>) -> bool {
    p == "no-dev"@ || p == "no-scripts"@ || p == "no-plugins"@ || p == "no-progress"@ || p
        == "no-interaction"@ || p == "no-update"@ || p == "prefer-dist"@ || p == "prefer-source"@
        || p == "prefer-stable"@ || p == "optimize-autoloader"@ || p == "dev"@ || p == "W"@ || p
        == "w"@ || p == "n"@ || is_single_byte(p)
}

/// The version-check command known for a package, if any.
pub open spec fn known_version(p: Seq<char>) -> Option<Seq<char>> {
    if p == "nginx"@ {
        Some("nginx -v"@)
    } else if p == "curl"@ {
        Some("curl --version"@)
    } else if p == "wget"@ {
        Some("wget --version"@)
    } else if p == "python3"@ || p == "python"@ {
        Some("python3 --version"@)
    } else if p == "nodejs"@ || p == "node"@ {
        Some("node --version"@)
    } else if p == "git"@ {
        Some("git --version"@)
    } else if p == "java"@ || p == "default-jre"@ || p == "default-jdk"@ {
        Some("java -version"@)
    } else if p == "ruby"@ {
        Some("ruby --version"@)
    } else if p == "php"@ {
        Some("php --version"@)
    } else if p == "redis"@ || p == "redis-server"@ {
        Some("redis-cli --version"@)
    } else if p == "postgres"@ || p == "postgresql"@ {
        Some("postgres --version"@)
    } else if p == "mysql-server"@ {
        Some("mysql --version"@)
    } else if p == "vim"@ {
        Some("vim --version"@)
    } else if p == "nano"@ {
        Some("nano --version"@)
    } else if p == "composer"@ {
        Some("composer --version"@)
    } else {
        None
    }
}

/// Whether `c` ends a package name: a `pip` version specifier (`=<>!~[`), or
/// (for `composer`) a `:` constraint or a space.
pub open spec fn is_cut(composer: bool, c: char) -> bool {
    if composer {
        c == ':' || c == ' '
    } else {
        c == '=' || c == '>' || c == '<' || c == '!' || c == '~' || c == '['
    }
}

pub open spec fn cut_from(p: Seq<char>, composer: bool, i: int) -> int
    decreases p.len() - i,
{
    if 0 <= i < p.len() && !is_cut(composer, p[i]) {
        cut_from(p, composer, i + 1)
    } else {
        i
    }
}

/// The part of `p` before its first cut character.
pub open spec fn name_before_cut(p: Seq<char>, composer: bool) -> Seq<char> {
    p.subrange(0, cut_from(p, composer, 0))
}

/// An `npm` package without its `@version` suffix (`@scope/pkg@1` keeps `@scope/pkg`).
pub open spec fn npm_name(p: Seq<char>) -> Seq<char> {
    if p.len() > 0 && p[0] == '@' {
        match find_char(p.subrange(1, p.len() as int), '@') {
            Some(k) => p.subrange(0, k + 1),
            None => p,
        }
    } else {
        match find_char(p, '@') {
            Some(k) => p.subrange(0, k),
            None => p,
        }
    }
}

pub open spec fn package_assertion(
    name: Seq<char>,
    manager: PackageManager,
    version_cmd: Option<Seq<char>>,
    prefix: Seq<char>,
    line: nat,
) -> AssertionV {
    AssertionV {
        kind: AssertionKindV::PackageInstalled { package: name, manager, version_cmd },
        provenance: prefix + name,
        source_line: line,
        confidence: Confidence::Low,
    }
}

/// The assertion one cleaned package token yields under a package manager.
pub open spec fn detect_package(m: PackageManager, p: Seq<char>, line: nat) -> Option<AssertionV> {
    match m {
        PackageManager::Apt => if is_low_value(p) {
            None
        } else {
            Some(package_assertion(p, m, known_version(p), "RUN apt-get install "@, line))
        },
        PackageManager::Apk => if is_low_value(p) {
            None
        } else {
            Some(package_assertion(p, m, known_version(p), "RUN apk add "@, line))
        },
        PackageManager::Pip => {
            let name = name_before_cut(p, false);
            if is_pip_flag_remnant(p) || ends_with(p, ".txt"@) || ends_with(p, ".cfg"@)
                || p.contains('/') || p == "."@ || name.len() == 0 || is_low_value(name) {
                None
            } else {
                Some(package_assertion(name, m, known_version(name), "RUN pip install "@, line))
            }
        },
        PackageManager::Npm => {
            let name = npm_name(p);
            if p.len() == 0 || p[0] == '-' || name.len() == 0 || is_low_value(name) {
                None
            } else {
                Some(package_assertion(name, m, known_version(name), "RUN npm install "@, line))
            }
        },
        PackageManager::Composer => {
            let name = name_before_cut(p, true);
            if is_composer_flag_remnant(p) || name.len() == 0 || !name.contains('/')
                || is_low_value(name) {
                None
            } else {
                Some(package_assertion(name, m, None, "RUN composer require "@, line))
            }
        },
    }
}

pub open spec fn strip_dashes(s: Seq<char>) -> Seq<char>
    decreases s.len(),
{
    if s.len() > 0 && s[0] == '-' {
        strip_dashes(s.drop_first())
    } else {
        s
    }
}

pub open spec fn token_assertion(m: PackageManager, tok: Seq<char>, line: nat) -> Option<AssertionV> {
    let t = strip_dashes(tok);
    if t.len() == 0 || t[0] == '-' {
        None
    } else {
        detect_package(m, t, line)
    }
}

pub open spec fn tokens_assertions(m: PackageManager, toks: Seq<Seq<char>>, line: nat) -> Seq<
    AssertionV,
>
    decreases toks.len(),
{
    if toks.len() == 0 {
        seq![]
    } else {
        let r = tokens_assertions(m, toks.drop_last(), line);
        match token_assertion(m, toks.last(), line) {
            Some(a) => r.push(a),
            None => r,
        }
    }
}

/// The package assertions of a captured package list (none without a capture).
pub open spec fn package_assertions_spec(
    m: PackageManager,
    captured: Option<Seq<char>>,
    line: nat,
) -> Seq<AssertionV> {
    match captured {
        Some(c) => tokens_assertions(m, words(c), line),
        None => seq![],
    }
}

/// The user assertion of a captured user name (a name that starts with `-` is a flag).
pub open spec fn user_assertion_spec(captured: Option<Seq<char>>, line: nat) -> Seq<AssertionV> {
    match captured {
        Some(n) => if n.len() > 0 && n[0] == '-' {
            seq![]
        } else {
            seq![
                AssertionV {
                    kind: AssertionKindV::UserExists { username: n },
                    provenance: "RUN useradd/adduser "@ + n,
                    source_line: line,
                    confidence: Confidence::Medium,
                },
            ]
        },
        None => seq![],
    }
}

/// Everything the rule engine asserts of one `RUN` command text.
pub open spec fn run_assertions(s: Seq<char>, line: nat) -> Seq<AssertionV> {
    package_assertions_spec(PackageManager::Apt, regex_group1(APT_INSTALL_PATTERN@, s), line)
        + package_assertions_spec(PackageManager::Apk, regex_group1(APK_ADD_PATTERN@, s), line)
        + package_assertions_spec(PackageManager::Pip, regex_group1(PIP_INSTALL_PATTERN@, s), line)
        + package_assertions_spec(PackageManager::Npm, regex_group1(NPM_INSTALL_PATTERN@, s), line)
        + package_assertions_spec(
        PackageManager::Composer,
        regex_group1(COMPOSER_REQUIRE_PATTERN@, s),
        line,
    ) + user_assertion_spec(regex_group1(USERADD_PATTERN@, s), line)
}

} // verus!

verus! {

fn is_low_value_package(p: &Vec<char>) -> (r: bool)
    ensures
        r == is_low_value(p@),
{
    str_eq_chars("ca-certificates", p) || str_eq_chars("gnupg", p) || str_eq_chars("gnupg2", p)
        || str_eq_chars("apt-transport-https", p) || str_eq_chars("software-properties-common", p)
        || str_eq_chars("lsb-release", p) || str_eq_chars("dirmngr", p)
}

fn is_single_byte_exec(p: &Vec<char>) -> (r: bool)
    ensures
        r == is_single_byte(p@),
{
    p.len() == 1 && (p[0] as u32) < 128
}

fn is_pip_flag_remnant_exec(p: &Vec<char>) -> (r: bool)
    ensures
        r == is_pip_flag_remnant(p@),
{
    str_eq_chars("no-cache-dir", p) || str_eq_chars("no-deps", p) || str_eq_chars(
        "no-build-isolation",
        p,
    ) || str_eq_chars("no-binary", p) || str_eq_chars("prefer-binary", p) || str_eq_chars(
        "user",
        p,
    ) || str_eq_chars("upgrade", p) || str_eq_chars("force-reinstall", p) || str_eq_chars(
        "pre",
        p,
    ) || str_eq_chars("quiet", p) || str_eq_chars("verbose", p) || str_eq_chars("r", p)
        || str_eq_chars("q", p) || str_eq_chars("U", p) || str_eq_chars("e", p)
        || is_single_byte_exec(p)
}

fn is_composer_flag_remnant_exec(p: &Vec<char>) -> (r: bool)
    ensures
        r == is_composer_flag_remnant(p@),
{
    str_eq_chars("no-dev", p) || str_eq_chars("no-scripts", p) || str_eq_chars("no-plugins", p)
        || str_eq_chars("no-progress", p) || str_eq_chars("no-interaction", p) || str_eq_chars(
        "no-update",
        p,
    ) || str_eq_chars("prefer-dist", p) || str_eq_chars("prefer-source", p) || str_eq_chars(
        "prefer-stable",
        p,
    ) || str_eq_chars("optimize-autoloader", p) || str_eq_chars("dev", p) || str_eq_chars("W", p)
        || str_eq_chars("w", p) || str_eq_chars("n", p) || is_single_byte_exec(p)
}

/// The version-check command known for a package, if any.
fn known_version_cmd(p: &Vec<char>) -> (r: Option<String>)
    ensures
        opt_view(r) == known_version(p@),
{
    if str_eq_chars("nginx", p) {
        Some(str_from("nginx -v"))
    } else if str_eq_chars("curl", p) {
        Some(str_from("curl --version"))
    } else if str_eq_chars("wget", p) {
        Some(str_from("wget --version"))
    } else if str_eq_chars("python3", p) || str_eq_chars("python", p) {
        Some(str_from("python3 --version"))
    } else if str_eq_chars("nodejs", p) || str_eq_chars("node", p) {
        Some(str_from("node --version"))
    } else if str_eq_chars("git", p) {
        Some(str_from("git --version"))
    } else if str_eq_chars("java", p) || str_eq_chars("default-jre", p) || str_eq_chars(
        "default-jdk",
        p,
    ) {
        Some(str_from("java -version"))
    } else if str_eq_chars("ruby", p) {
        Some(str_from("ruby --version"))
    } else if str_eq_chars("php", p) {
        Some(str_from("php --version"))
    } else if str_eq_chars("redis", p) || str_eq_chars("redis-server", p) {
        Some(str_from("redis-cli --version"))
    } else if str_eq_chars("postgres", p) || str_eq_chars("postgresql", p) {
        Some(str_from("postgres --version"))
    } else if str_eq_chars("mysql-server", p) {
        Some(str_from("mysql --version"))
    } else if str_eq_chars("vim", p) {
        Some(str_from("vim --version"))
    } else if str_eq_chars("nano", p) {
        Some(str_from("nano --version"))
    } else if str_eq_chars("composer", p) {
        Some(str_from("composer --version"))
    } else {
        None
    }
}

fn is_cut_exec(composer: bool, c: char) -> (r: bool)
    ensures
        r == is_cut(composer, c),
{
    if composer {
        c == ':' || c == ' '
    } else {
        c == '=' || c == '>' || c == '<' || c == '!' || c == '~' || c == '['
    }
}

fn name_before_cut_exec(p: &Vec<char>, composer: bool) -> (r: Vec<char>)
    ensures
        r@ == name_before_cut(p@, composer),
{
    let mut i: usize = 0;
    while i < p.len() && !is_cut_exec(composer, p[i])
        invariant
            i <= p@.len(),
            cut_from(p@, composer, 0) == cut_from(p@, composer, i as int),
        decreases p@.len() - i,
    {
        i += 1;
    }
    slice_chars(p, 0, i)
}

fn npm_name_exec(p: &Vec<char>) -> (r: Vec<char>)
    ensures
        r@ == npm_name(p@),
{
    if p.len() > 0 && p[0] == '@' {
        match find_char_from(p, 1, '@') {
            Some(k) => slice_chars(p, 0, k),
            None => {
                assert(p@.subrange(0, p@.len() as int) =~= p@);
                slice_chars(p, 0, p.len())
            },
        }
    } else {
        assert(p@.subrange(0, p@.len() as int) =~= p@);
        match find_char_from(p, 0, '@') {
            Some(k) => slice_chars(p, 0, k),
            None => slice_chars(p, 0, p.len()),
        }
    }
}

fn make_package(
    name: &Vec<char>,
    manager: PackageManager,
    version_cmd: Option<String>,
    prefix: &str,
    line: usize,
) -> (r: ContractAssertion)
    ensures
        r@ == package_assertion(name@, manager, opt_view(version_cmd), prefix@, line as nat),
{
    let mut prov = str_from(prefix);
    push_chars(&mut prov, name);
    ContractAssertion {
        kind: AssertionKind::PackageInstalled { package: string_of(name), manager, version_cmd },
        provenance: prov,
        source_line: line,
        confidence: Confidence::Low,
    }
}

fn detect_apt_package(p: &Vec<char>, line: usize) -> (r: Option<ContractAssertion>)
    ensures
        opt_assertion(r) == detect_package(PackageManager::Apt, p@, line as nat),
{
    if is_low_value_package(p) {
        return None;
    }
    Some(make_package(p, PackageManager::Apt, known_version_cmd(p), "RUN apt-get install ", line))
}

fn detect_apk_package(p: &Vec<char>, line: usize) -> (r: Option<ContractAssertion>)
    ensures
        opt_assertion(r) == detect_package(PackageManager::Apk, p@, line as nat),
{
    if is_low_value_package(p) {
        return None;
    }
    Some(make_package(p, PackageManager::Apk, known_version_cmd(p), "RUN apk add ", line))
}

fn detect_pip_package(p: &Vec<char>, line: usize) -> (r: Option<ContractAssertion>)
    ensures
        opt_assertion(r) == detect_package(PackageManager::Pip, p@, line as nat),
{
    if is_pip_flag_remnant_exec(p) {
        return None;
    }
    if ends_with_str(p, ".txt") || ends_with_str(p, ".cfg") || contains_char(p, '/')
        || str_eq_chars(".", p) {
        return None;
    }
    let name = name_before_cut_exec(p, false);
    if name.len() == 0 || is_low_value_package(&name) {
        return None;
    }
    Some(make_package(&name, PackageManager::Pip, known_version_cmd(&name), "RUN pip install ", line))
}

fn detect_npm_package(p: &Vec<char>, line: usize) -> (r: Option<ContractAssertion>)
    ensures
        opt_assertion(r) == detect_package(PackageManager::Npm, p@, line as nat),
{
    if p.len() == 0 || p[0] == '-' {
        return None;
    }
    let name = npm_name_exec(p);
    if name.len() == 0 || is_low_value_package(&name) {
        return None;
    }
    Some(make_package(&name, PackageManager::Npm, known_version_cmd(&name), "RUN npm install ", line))
}

fn detect_composer_package(p: &Vec<char>, line: usize) -> (r: Option<ContractAssertion>)
    ensures
        opt_assertion(r) == detect_package(PackageManager::Composer, p@, line as nat),
{
    if is_composer_flag_remnant_exec(p) {
        return None;
    }
    let name = name_before_cut_exec(p, true);
    if name.len() == 0 || !contains_char(&name, '/') || is_low_value_package(&name) {
        return None;
    }
    Some(make_package(&name, PackageManager::Composer, None, "RUN composer require ", line))
}

pub open spec fn opt_assertion(o: Option<ContractAssertion>) -> Option<AssertionV> {
    match o {
        Some(a) => Some(a@),
        None => None,
    }
}

fn strip_dashes_exec(v: &Vec<char>) -> (r: Vec<char>)
    ensures
        r@ == strip_dashes(v@),
{
    let n = v.len();
    let mut a: usize = 0;
    assert(v@.subrange(0, n as int) =~= v@);
    while a < n && v[a] == '-'
        invariant
            a <= n == v@.len(),
            strip_dashes(v@) == strip_dashes(v@.subrange(a as int, n as int)),
        decreases n - a,
    {
        assert(v@.subrange(a as int, n as int).drop_first() =~= v@.subrange(a + 1, n as int));
        a += 1;
    }
    slice_chars(v, a, n)
}

/// The package assertions of the package list captured after an install command
/// of `manager` (none when nothing was captured).
pub fn package_assertions_from_capture(
    manager: PackageManager,
    captured: &Option<String>,
    line: usize,
) -> (r: Vec<ContractAssertion>)
    ensures
        assertions_view(r@) == package_assertions_spec(manager, opt_view(*captured), line as nat),
{
    let mut out: Vec<ContractAssertion> = Vec::new();
    match captured {
        None => {
            assert(assertions_view(out@) =~= Seq::<AssertionV>::empty());
        },
        Some(c) => {
            let toks = split_words(&chars_of(c.as_str()));
            let ghost tv = views(toks@);
            let mut i: usize = 0;
            while i < toks.len()
                invariant
                    i <= toks@.len(),
                    tv == views(toks@),
                    assertions_view(out@) == tokens_assertions(
                        manager,
                        tv.subrange(0, i as int),
                        line as nat,
                    ),
                decreases toks@.len() - i,
            {
                let ghost o0 = assertions_view(out@);
                assert(tv.subrange(0, i + 1).drop_last() =~= tv.subrange(0, i as int));
                assert(tv.subrange(0, i + 1).last() == toks@[i as int]@);
                let t = strip_dashes_exec(&toks[i]);
                if !(t.len() == 0 || t[0] == '-') {
                    let found = match manager {
                        PackageManager::Apt => detect_apt_package(&t, line),
                        PackageManager::Apk => detect_apk_package(&t, line),
                        PackageManager::Pip => detect_pip_package(&t, line),
                        PackageManager::Npm => detect_npm_package(&t, line),
                        PackageManager::Composer => detect_composer_package(&t, line),
                    };
                    match found {
                        Some(a) => {
                            out.push(a);
                            assert(assertions_view(out@) =~= o0.push(a@));
                        },
                        None => {},
                    }
                }
                i += 1;
            }
            assert(tv.subrange(0, toks@.len() as int) =~= tv);
        },
    }
    out
}

/// The assertion of a user name captured after `useradd`/`adduser`.
pub fn user_assertion_from_capture(captured: &Option<String>, line: usize) -> (r: Option<
    ContractAssertion,
>)
    ensures
        match r {
            Some(a) => user_assertion_spec(opt_view(*captured), line as nat) == seq![a@],
            None => user_assertion_spec(opt_view(*captured), line as nat) == Seq::<
                AssertionV,
            >::empty(),
        },
{
    match captured {
        Some(n) => {
            let nv = chars_of(n.as_str());
            if nv.len() > 0 && nv[0] == '-' {
                return None;
            }
            let mut prov = str_from("RUN useradd/adduser ");
            push_str(&mut prov, n.as_str());
            Some(
                ContractAssertion {
                    kind: AssertionKind::UserExists { username: n.clone() },
                    provenance: prov,
                    source_line: line,
                    confidence: Confidence::Medium,
                },
            )
        },
        None => None,
    }
}

fn append_assertions(out: &mut Vec<ContractAssertion>, more: Vec<ContractAssertion>)
    ensures
        assertions_view(final(out)@) == assertions_view(old(out)@) + assertions_view(more@),
{
    let ghost a = out@;
    let ghost b = more@;
    let mut more = more;
    out.append(&mut more);
    assert(assertions_view(out@) =~= assertions_view(a) + assertions_view(b));
}

/// Detects user creation in a command text.
fn detect_user_creation(cmd_str: &str, line: usize) -> (r: Option<ContractAssertion>)
    ensures
        match r {
            Some(a) => user_assertion_spec(regex_group1(USERADD_PATTERN@, cmd_str@), line as nat)
                == seq![a@],
            None => user_assertion_spec(regex_group1(USERADD_PATTERN@, cmd_str@), line as nat)
                == Seq::<AssertionV>::empty(),
        },
{
    user_assertion_from_capture(&capture_group1(USERADD_PATTERN, cmd_str), line)
}

/// Package and user assertions of one `RUN` command.
pub fn analyze_run_command(cmd: &CommandForm, source_line: usize) -> (r: Vec<ContractAssertion>)
    ensures
        assertions_view(r@) == run_assertions(flat(cmd@), source_line as nat),
{
    let s = cmd.to_string_lossy();
    let text = s.as_str();
    let mut out: Vec<ContractAssertion> = Vec::new();
    assert(assertions_view(out@) =~= Seq::<AssertionV>::empty());
    append_assertions(
        &mut out,
        package_assertions_from_capture(
            PackageManager::Apt,
            &capture_group1(APT_INSTALL_PATTERN, text),
            source_line,
        ),
    );
    append_assertions(
        &mut out,
        package_assertions_from_capture(
            PackageManager::Apk,
            &capture_group1(APK_ADD_PATTERN, text),
            source_line,
        ),
    );
    append_assertions(
        &mut out,
        package_assertions_from_capture(
            PackageManager::Pip,
            &capture_group1(PIP_INSTALL_PATTERN, text),
            source_line,
        ),
    );
    append_assertions(
        &mut out,
        package_assertions_from_capture(
            PackageManager::Npm,
            &capture_group1(NPM_INSTALL_PATTERN, text),
            source_line,
        ),
    );
    append_assertions(
        &mut out,
        package_assertions_from_capture(
            PackageManager::Composer,
            &capture_group1(COMPOSER_REQUIRE_PATTERN, text),
            source_line,
        ),
    );
    let ghost before = assertions_view(out@);
    match detect_user_creation(text, source_line) {
        Some(a) => {
            out.push(a);
            assert(assertions_view(out@) =~= before + seq![a@]);
        },
        None => {
            assert(assertions_view(out@) =~= before + Seq::<AssertionV>::empty());
        },
    }
    assert(assertions_view(out@) =~= run_assertions(flat(cmd@), source_line as nat));
    out
}

} // verus!

verus! {

/// Number of entries in the component table.
pub const COMPONENT_COUNT: usize = 14;

/// Entry `i` of the component table: a word-bounded pattern over the
/// lower-cased command, the component's canonical name, and its kind.
pub open spec fn component_entry_spec(i: int) -> (Seq<char>, Seq<char>, ComponentKind) {
    if i == 0 {
        (r"\bnginx\b"@, "nginx"@, ComponentKind::WebServer)
    } else if i == 1 {
        (r"\bapache2\b"@, "apache2"@, ComponentKind::WebServer)
    } else if i == 2 {
        (r"\bhttpd\b"@, "httpd"@, ComponentKind::WebServer)
    } else if i == 3 {
        (r"\bpython3?\b"@, "python"@, ComponentKind::Runtime)
    } else if i == 4 {
        (r"\bnode(js)?\b"@, "node"@, ComponentKind::Runtime)
    } else if i == 5 {
        (r"\bjava\b"@, "java"@, ComponentKind::Runtime)
    } else if i == 6 {
        (r"\bruby\b"@, "ruby"@, ComponentKind::Runtime)
    } else if i == 7 {
        (r"\bphp\b"@, "php"@, ComponentKind::Runtime)
    } else if i == 8 {
        (r"\b(go|golang)\b"@, "go"@, ComponentKind::Runtime)
    } else if i == 9 {
        (r"\bredis\b"@, "redis"@, ComponentKind::Database)
    } else if i == 10 {
        (r"\bpostgres(ql)?\b"@, "postgres"@, ComponentKind::Database)
    } else if i == 11 {
        (r"\bmysql\b"@, "mysql"@, ComponentKind::Database)
    } else if i == 12 {
        (r"\bcurl\b"@, "curl"@, ComponentKind::Tool)
    } else {
        (r"\bwget\b"@, "wget"@, ComponentKind::Tool)
    }
}

fn component_entry(i: usize) -> (r: (&'static str, &'static str, ComponentKind))
    ensures
        (r.0@, r.1@, r.2) == component_entry_spec(i as int),
{
    if i == 0 {
        (r"\bnginx\b", "nginx", ComponentKind::WebServer)
    } else if i == 1 {
        (r"\bapache2\b", "apache2", ComponentKind::WebServer)
    } else if i == 2 {
        (r"\bhttpd\b", "httpd", ComponentKind::WebServer)
    } else if i == 3 {
        (r"\bpython3?\b", "python", ComponentKind::Runtime)
    } else if i == 4 {
        (r"\bnode(js)?\b", "node", ComponentKind::Runtime)
    } else if i == 5 {
        (r"\bjava\b", "java", ComponentKind::Runtime)
    } else if i == 6 {
        (r"\bruby\b", "ruby", ComponentKind::Runtime)
    } else if i == 7 {
        (r"\bphp\b", "php", ComponentKind::Runtime)
    } else if i == 8 {
        (r"\b(go|golang)\b", "go", ComponentKind::Runtime)
    } else if i == 9 {
        (r"\bredis\b", "redis", ComponentKind::Database)
    } else if i == 10 {
        (r"\bpostgres(ql)?\b", "postgres", ComponentKind::Database)
    } else if i == 11 {
        (r"\bmysql\b", "mysql", ComponentKind::Database)
    } else if i == 12 {
        (r"\bcurl\b", "curl", ComponentKind::Tool)
    } else {
        (r"\bwget\b", "wget", ComponentKind::Tool)
    }
}

/// Which table patterns match a (lower-cased) command text.
pub open spec fn component_hits(text: Seq<char>) -> Seq<bool> {
    Seq::new(COMPONENT_COUNT as nat, |i: int| regex_matches(component_entry_spec(i).0, text))
}

/// The components whose table entry is marked in `hits`, in table order.
pub open spec fn components_of_hits(hits: Seq<bool>) -> Seq<ComponentV>
    decreases hits.len(),
{
    if hits.len() == 0 {
        seq![]
    } else {
        let r = components_of_hits(hits.drop_last());
        let i = hits.len() - 1;
        if hits.last() && i < COMPONENT_COUNT {
            r.push(
                ComponentV {
                    name: component_entry_spec(i).1,
                    kind: component_entry_spec(i).2,
                    source_line: 0,
                },
            )
        } else {
            r
        }
    }
}

pub open spec fn has_name(cs: Seq<ComponentV>, n: Seq<char>) -> bool {
    exists|j: int| 0 <= j < cs.len() && (#[trigger] cs[j]).name == n
}

/// Components de-duplicated by name, the first occurrence winning.
pub open spec fn dedupe_spec(cs: Seq<ComponentV>) -> Seq<ComponentV>
    decreases cs.len(),
{
    if cs.len() == 0 {
        seq![]
    } else {
        let r = dedupe_spec(cs.drop_last());
        if has_name(r, cs.last().name) {
            r
        } else {
            r.push(cs.last())
        }
    }
}

/// Components of a command text, as the rule engine finds them.
pub open spec fn detected_components(s: Seq<char>) -> Seq<ComponentV> {
    dedupe_spec(components_of_hits(component_hits(lower_of(s))))
}

fn dedupe_components(components: Vec<InstalledComponent>) -> (r: Vec<InstalledComponent>)
    ensures
        components_view(r@) == dedupe_spec(components_view(components@)),
{
    let ghost all = components_view(components@);
    let mut out: Vec<InstalledComponent> = Vec::new();
    let mut i: usize = 0;
    while i < components.len()
        invariant
            i <= components@.len(),
            all == components_view(components@),
            components_view(out@) == dedupe_spec(all.subrange(0, i as int)),
        decreases components@.len() - i,
    {
        let ghost ov = components_view(out@);
        let c = &components[i];
        assert(all.subrange(0, i + 1).drop_last() =~= all.subrange(0, i as int));
        assert(all.subrange(0, i + 1).last() == c@);
        let mut seen = false;
        let mut j: usize = 0;
        while j < out.len()
            invariant
                j <= out@.len(),
                ov == components_view(out@),
                seen == exists|m: int| 0 <= m < j && (#[trigger] ov[m]).name == c@.name,
            decreases out@.len() - j,
        {
            if out[j].name == c.name {
                seen = true;
            }
            assert(ov[j as int] == out@[j as int]@);
            j += 1;
        }
        assert(seen == has_name(ov, c@.name));
        if !seen {
            let copy = InstalledComponent {
                name: c.name.clone(),
                kind: c.kind,
                source_line: c.source_line,
            };
            out.push(copy);
            assert(components_view(out@) =~= ov.push(c@));
        }
        i += 1;
    }
    assert(all.subrange(0, components@.len() as int) =~= all);
    out
}

/// The components marked in `hits` (entry `i` of the table for each `true` at `i`),
/// de-duplicated by name.
pub fn components_from_matches(hits: &Vec<bool>) -> (r: Vec<InstalledComponent>)
    ensures
        components_view(r@) == dedupe_spec(components_of_hits(hits@)),
{
    let mut cs: Vec<InstalledComponent> = Vec::new();
    let mut i: usize = 0;
    while i < hits.len()
        invariant
            i <= hits@.len(),
            components_view(cs@) == components_of_hits(hits@.subrange(0, i as int)),
        decreases hits@.len() - i,
    {
        let ghost c0 = components_view(cs@);
        assert(hits@.subrange(0, i + 1).drop_last() =~= hits@.subrange(0, i as int));
        if hits[i] && i < COMPONENT_COUNT {
            let (_p, name, kind) = component_entry(i);
            let c = InstalledComponent { name: str_from(name), kind, source_line: 0 };
            cs.push(c);
            assert(components_view(cs@) =~= c0.push(c@));
        }
        i += 1;
    }
    assert(hits@.subrange(0, hits@.len() as int) =~= hits@);
    dedupe_components(cs)
}

/// Components installed or used by a `RUN` command, found by word-bounded
/// patterns over the lower-cased command text.
pub fn detect_installed_components(cmd: &CommandForm) -> (r: Vec<InstalledComponent>)
    ensures
        components_view(r@) == detected_components(flat(cmd@)),
{
    let s = cmd.to_string_lossy();
    let low = to_lower(s.as_str());
    let mut hits: Vec<bool> = Vec::new();
    let mut i: usize = 0;
    while i < COMPONENT_COUNT
        invariant
            i <= COMPONENT_COUNT,
            hits@ =~= component_hits(low@).subrange(0, i as int),
        decreases COMPONENT_COUNT - i,
    {
        let (pattern, _name, _kind) = component_entry(i);
        hits.push(regex_is_match(pattern, low.as_str()));
        i += 1;
    }
    assert(hits@ =~= component_hits(lower_of(flat(cmd@))));
    components_from_matches(&hits)
}

// ---------------------------------------------------------------------------
// Service assertions
// ---------------------------------------------------------------------------

pub open spec fn command_assertion(
    cmd: Seq<char>,
    prov: Seq<char>,
    line: nat,
    c: Confidence,
) -> AssertionV {
    AssertionV {
        kind: AssertionKindV::CommandExit { command: cmd, exit_status: 0 },
        provenance: prov,
        source_line: line,
        confidence: c,
    }
}

/// The pre-baked assertions of one component.
pub open spec fn service_for(c: ComponentV) -> Seq<AssertionV> {
    let n = c.name;
    let l = c.source_line;
    if n == "nginx"@ {
        seq![
            AssertionV {
                kind: AssertionKindV::FileExists {
                    path: "/etc/nginx/nginx.conf"@,
                    filetype: Some("file"@),
                    mode: None,
                },
                provenance: "nginx service pattern"@,
                source_line: l,
                confidence: Confidence::Medium,
            },
            command_assertion("nginx -v"@, "nginx service pattern"@, l, Confidence::Medium),
        ]
    } else if n == "apache2"@ || n == "httpd"@ {
        seq![command_assertion(n + " -v"@, n + " service pattern"@, l, Confidence::Medium)]
    } else if n == "python"@ || n == "python3"@ {
        seq![command_assertion("python3 --version"@, "python runtime pattern"@, l, Confidence::Low)]
    } else if n == "node"@ {
        seq![command_assertion("node --version"@, "node runtime pattern"@, l, Confidence::Low)]
    } else if n == "java"@ {
        seq![command_assertion("java -version"@, "java runtime pattern"@, l, Confidence::Low)]
    } else if n == "redis"@ {
        seq![
            command_assertion(
                "redis-cli --version"@,
                "redis service pattern"@,
                l,
                Confidence::Medium,
            ),
        ]
    } else {
        seq![]
    }
}

pub open spec fn service_assertions(cs: Seq<ComponentV>) -> Seq<AssertionV>
    decreases cs.len(),
{
    if cs.len() == 0 {
        seq![]
    } else {
        service_assertions(cs.drop_last()) + service_for(cs.last())
    }
}

fn push_command(
    out: &mut Vec<ContractAssertion>,
    cmd: String,
    prov: String,
    line: usize,
    c: Confidence,
)
    ensures
        assertions_view(final(out)@) == assertions_view(old(out)@).push(
            command_assertion(cmd@, prov@, line as nat, c),
        ),
{
    let ghost o0 = assertions_view(out@);
    let a = ContractAssertion {
        kind: AssertionKind::CommandExit { command: cmd, exit_status: 0 },
        provenance: prov,
        source_line: line,
        confidence: c,
    };
    out.push(a);
    assert(assertions_view(out@) =~= o0.push(a@));
}

/// Pre-baked assertions for the well-known components.
pub fn generate_service_assertions(components: &[InstalledComponent]) -> (r: Vec<
    ContractAssertion,
>)
    ensures
        assertions_view(r@) == service_assertions(components_view(components@)),
{
    let ghost cv = components_view(components@);
    let mut out: Vec<ContractAssertion> = Vec::new();
    let mut i: usize = 0;
    while i < components.len()
        invariant
            i <= components@.len(),
            cv == components_view(components@),
            assertions_view(out@) == service_assertions(cv.subrange(0, i as int)),
        decreases components@.len() - i,
    {
        let ghost o0 = assertions_view(out@);
        let c = &components[i];
        assert(cv.subrange(0, i + 1).drop_last() =~= cv.subrange(0, i as int));
        assert(cv.subrange(0, i + 1).last() == c@);
        let nv = chars_of(c.name.as_str());
        let l = c.source_line;
        if str_eq_chars("nginx", &nv) {
            let a = ContractAssertion {
                kind: AssertionKind::FileExists {
                    path: str_from("/etc/nginx/nginx.conf"),
                    filetype: Some(str_from("file")),
                    mode: None,
                },
                provenance: str_from("nginx service pattern"),
                source_line: l,
                confidence: Confidence::Medium,
            };
            out.push(a);
            push_command(
                &mut out,
                str_from("nginx -v"),
                str_from("nginx service pattern"),
                l,
                Confidence::Medium,
            );
            assert(assertions_view(out@) =~= o0 + service_for(c@));
        } else if str_eq_chars("apache2", &nv) || str_eq_chars("httpd", &nv) {
            let mut cmd = c.name.clone();
            push_str(&mut cmd, " -v");
            let mut prov = c.name.clone();
            push_str(&mut prov, " service pattern");
            push_command(&mut out, cmd, prov, l, Confidence::Medium);
            assert(assertions_view(out@) =~= o0 + service_for(c@));
        } else if str_eq_chars("python", &nv) || str_eq_chars("python3", &nv) {
            push_command(
                &mut out,
                str_from("python3 --version"),
                str_from("python runtime pattern"),
                l,
                Confidence::Low,
            );
            assert(assertions_view(out@) =~= o0 + service_for(c@));
        } else if str_eq_chars("node", &nv) {
            push_command(
                &mut out,
                str_from("node --version"),
                str_from("node runtime pattern"),
                l,
                Confidence::Low,
            );
            assert(assertions_view(out@) =~= o0 + service_for(c@));
        } else if str_eq_chars("java", &nv) {
            push_command(
                &mut out,
                str_from("java -version"),
                str_from("java runtime pattern"),
                l,
                Confidence::Low,
            );
            assert(assertions_view(out@) =~= o0 + service_for(c@));
        } else if str_eq_chars("redis", &nv) {
            push_command(
                &mut out,
                str_from("redis-cli --version"),
                str_from("redis service pattern"),
                l,
                Confidence::Medium,
            );
            assert(assertions_view(out@) =~= o0 + service_for(c@));
        } else {
            assert(assertions_view(out@) =~= o0 + service_for(c@));
        }
        i += 1;
    }
    assert(cv.subrange(0, components@.len() as int) =~= cv);
    out
}

} // verus!
