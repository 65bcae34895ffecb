//! Decisions of the command-line front-end that are part of the core.
use vstd::prelude::*;
use crate::{Profile, profile_name};
use crate::extractor::model::{ContractV, RuntimeContract, assertions_view};
use crate::interactive::{health_assertion, health_check};
use crate::parser::ast::pairs_view;
use crate::text::{
    chars_of, find_char, find_char_from, lower_of, slice_chars, string_of, string_views,
};

verus! {

/// A lint finding in an emitted document.
#[derive(Debug, Clone, PartialEq, Eq)]
pub struct LintIssue {
    pub file: String,
    pub message: String,
}

/// `KEY=VALUE` build arguments split at their first `=`; others are ignored.
pub open spec fn build_args_of(args: Seq<Seq<char>>) -> Seq<(Seq<char>, Seq<char>)>
    decreases args.len(),
{
    if args.len() == 0 {
        seq![]
    } else {
        let r = build_args_of(args.drop_last());
        let a = args.last();
        match find_char(a, '=') {
            Some(k) => r.push((a.subrange(0, k), a.subrange(k + 1, a.len() as int))),
            None => r,
        }
    }
}

/// Splits `KEY=VALUE` build arguments; arguments without `=` are ignored.
pub fn parse_build_args(args: &[String]) -> (r: Vec<(String, String)>)
    ensures
        pairs_view(r@) == build_args_of(string_views(args@)),
{
    let ghost av = string_views(args@);
    let mut out: Vec<(String, String)> = Vec::new();
    let mut i: usize = 0;
    while i < args.len()
        invariant
            i <= args@.len(),
            av == string_views(args@),
            pairs_view(out@) == build_args_of(av.subrange(0, i as int)),
        decreases args@.len() - i,
    {
        assert(av.subrange(0, i + 1).drop_last() =~= av.subrange(0, i as int));
        assert(av.subrange(0, i + 1).last() == args@[i as int]@);
        let v = chars_of(args[i].as_str());
        assert(v@.subrange(0, v@.len() as int) =~= v@);
        match find_char_from(&v, 0, '=') {
            Some(k) => {
                let ghost o0 = pairs_view(out@);
                let key = string_of(&slice_chars(&v, 0, k));
                let val = string_of(&slice_chars(&v, k + 1, v.len()));
                out.push((key, val));
                assert(pairs_view(out@) =~= o0.push((key@, val@)));
            },
            None => {},
        }
        i += 1;
    }
    assert(av.subrange(0, args@.len() as int) =~= av);
    out
}

/// The profile named by `s` (letters in any case).
pub fn parse_profile(s: &str) -> (r: Result<Profile, String>)
    ensures
        match r {
            Ok(p) => lower_of(s@) == profile_name(p),
            Err(e) => e@ == "unknown profile: "@ + s@ && lower_of(s@) != "minimal"@ && lower_of(s@)
                != "standard"@ && lower_of(s@) != "strict"@,
        },
{
    Profile::parse(s)
}

/// The wait-document choice of the flags: `--no-wait` wins over `--force-wait`;
/// neither leaves the choice to the emitter.
pub fn wait_choice(no_wait: bool, force_wait: bool) -> (r: Option<bool>)
    ensures
        r == (if no_wait {
            Some(false)
        } else if force_wait {
            Some(true)
        } else {
            None
        }),
{
    if no_wait {
        Some(false)
    } else if force_wait {
        Some(true)
    } else {
        None
    }
}

/// The contract with a health-endpoint check from the command line: on the given
/// port, else the first exposed port, else port 80.
pub open spec fn health_path_applied(
    c: ContractV,
    path: Seq<char>,
    primary_port: Option<u16>,
    status: u16,
) -> ContractV {
    let port = match primary_port {
        Some(p) => p,
        None => if c.exposed_ports.len() > 0 {
            c.exposed_ports[0].port
        } else {
            80
        },
    };
    ContractV {
        assertions: c.assertions.push(
            health_assertion(port, path, status, "CLI: --health-path flag"@),
        ),
        ..c
    }
}

/// Adds the health-endpoint check that the command line asked for.
pub fn apply_health_path(
    contract: &mut RuntimeContract,
    path: &str,
    primary_port: Option<u16>,
    status: u16,
)
    ensures
        final(contract)@ == health_path_applied(old(contract)@, path@, primary_port, status),
{
    let port = match primary_port {
        Some(p) => p,
        None => if contract.exposed_ports.len() > 0 {
            contract.exposed_ports[0].port
        } else {
            80
        },
    };
    assert(contract@.exposed_ports.len() == contract.exposed_ports@.len());
    let a = health_check(port, path, status, "CLI: --health-path flag");
    let ghost v0 = assertions_view(contract.assertions@);
    contract.assertions.push(a);
    assert(assertions_view(contract.assertions@) =~= v0.push(a@));
}

} // verus!
