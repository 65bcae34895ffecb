//! Decisions of the interactive refinement; the prompts themselves belong to the
//! front-end.
use vstd::prelude::*;
use crate::Confidence;
use crate::extractor::model::{
    AssertionKind, AssertionKindV, AssertionV, ContractAssertion, ContractV, RuntimeContract,
    assertions_view,
};
use crate::text::{decimal, decimal_string, push_str, str_from};

verus! {

/// Answers gathered by the interactive session.
#[derive(Debug, Clone)]
pub struct InteractiveSession {
    pub primary_port: Option<u16>,
    pub health_path: Option<String>,
    pub health_status: Option<u16>,
    pub confirm_process: bool,
    pub volume_mounts: Vec<String>,
}

/// What to do after the preview.
#[derive(Debug, Clone, Copy, PartialEq, Eq, Structural)]
pub enum UserAction {
    Accept,
    Edit,
    Regenerate,
}

/// The action of a menu choice: accept, edit, regenerate; anything else accepts.
pub fn user_action_for(selection: usize) -> (r: UserAction)
    ensures
        r == (if selection == 1 {
            UserAction::Edit
        } else if selection == 2 {
            UserAction::Regenerate
        } else {
            UserAction::Accept
        }),
{
    if selection == 1 {
        UserAction::Edit
    } else if selection == 2 {
        UserAction::Regenerate
    } else {
        UserAction::Accept
    }
}

/// The primary port before asking: the only exposed port, if there is exactly one.
pub fn single_exposed_port(ports: &Vec<crate::parser::ast::PortSpec>) -> (r: Option<u16>)
    ensures
        r == (if ports@.len() == 1 {
            Some(ports@[0].port)
        } else {
            None
        }),
{
    if ports.len() == 1 {
        Some(ports[0].port)
    } else {
        None
    }
}

/// An `HttpStatus` assertion on `http://127.0.0.1:<port><path>`, with source line `0`.
pub open spec fn health_assertion(port: u16, path: Seq<char>, status: u16, prov: Seq<char>) -> AssertionV {
    AssertionV {
        kind: AssertionKindV::HttpStatus {
            url: "http://127.0.0.1:"@ + decimal(port as nat) + path,
            status,
        },
        provenance: prov,
        source_line: 0,
        confidence: Confidence::High,
    }
}

pub fn health_check(port: u16, path: &str, status: u16, prov: &str) -> (r: ContractAssertion)
    ensures
        r@ == health_assertion(port, path@, status, prov@),
{
    let mut url = str_from("http://127.0.0.1:");
    push_str(&mut url, decimal_string(port as u64).as_str());
    push_str(&mut url, path);
    ContractAssertion {
        kind: AssertionKind::HttpStatus { url, status },
        provenance: str_from(prov),
        source_line: 0,
        confidence: Confidence::High,
    }
}

pub open spec fn without_processes(s: Seq<AssertionV>) -> Seq<AssertionV>
    decreases s.len(),
{
    if s.len() == 0 {
        seq![]
    } else if s.last().kind is ProcessRunning {
        without_processes(s.drop_last())
    } else {
        without_processes(s.drop_last()).push(s.last())
    }
}

/// The contract after the session's answers: process assertions dropped when not
/// confirmed, and a health-endpoint check (port 80 and status 200 unless given)
/// when a path was given.
pub open spec fn session_applied(c: ContractV, s: InteractiveSession) -> ContractV {
    let kept = if s.confirm_process {
        c.assertions
    } else {
        without_processes(c.assertions)
    };
    ContractV {
        assertions: match s.health_path {
            Some(p) => kept.push(
                health_assertion(
                    match s.primary_port {
                        Some(x) => x,
                        None => 80,
                    },
                    p@,
                    match s.health_status {
                        Some(x) => x,
                        None => 200,
                    },
                    "interactive: user-provided health endpoint"@,
                ),
            ),
            None => kept,
        },
        ..c
    }
}

/// Applies the session's answers to the contract.
pub fn apply_session(contract: &mut RuntimeContract, session: &InteractiveSession)
    ensures
        final(contract)@ == session_applied(old(contract)@, *session),
{
    let ghost c0 = contract@;
    if !session.confirm_process {
        let ghost all = c0.assertions;
        let total = contract.assertions.len();
        let mut rest: Vec<ContractAssertion> = Vec::new();
        std::mem::swap(&mut rest, &mut contract.assertions);
        assert(assertions_view(rest@) == all);
        assert(all.subrange(0, 0) =~= Seq::<AssertionV>::empty());
        assert(contract@.assertions =~= Seq::<AssertionV>::empty());
        assert(all.subrange(0, all.len() as int) =~= all);
        let mut k: usize = 0;
        while rest.len() > 0
            invariant
                k + rest@.len() == all.len(),
                all.len() == total,
                assertions_view(rest@) == all.subrange(k as int, all.len() as int),
                contract@ == (ContractV {
                    assertions: without_processes(all.subrange(0, k as int)),
                    ..c0
                }),
            decreases rest@.len(),
        {
            let ghost r0 = rest@;
            assert(assertions_view(r0).len() == r0.len());
            let a = rest.remove(0);
            assert(assertions_view(r0)[0] == a@);
            assert(all.subrange(k as int, all.len() as int)[0] == all[k as int]);
            assert(all.subrange(0, k + 1).drop_last() =~= all.subrange(0, k as int));
            assert(all.subrange(0, k + 1).last() == a@);
            assert(assertions_view(rest@) =~= all.subrange(k + 1, all.len() as int)) by {
                assert forall|j: int| 0 <= j < rest@.len() implies assertions_view(rest@)[j]
                    == all.subrange(k + 1, all.len() as int)[j] by {
                    assert(rest@[j] == r0[j + 1]);
                    assert(assertions_view(r0)[j + 1] == all.subrange(k as int, all.len() as int)[j
                        + 1]);
                }
            }
            if !matches!(a.kind, AssertionKind::ProcessRunning { .. }) {
                let ghost v0 = assertions_view(contract.assertions@);
                contract.assertions.push(a);
                assert(assertions_view(contract.assertions@) =~= v0.push(all[k as int]));
            }
            k += 1;
        }
        assert(all.subrange(0, k as int) =~= all);
    }
    match &session.health_path {
        Some(path) => {
            let port = match session.primary_port {
                Some(x) => x,
                None => 80,
            };
            let status = match session.health_status {
                Some(x) => x,
                None => 200,
            };
            let a = health_check(port, path.as_str(), status, "interactive: user-provided health endpoint");
            let ghost v0 = assertions_view(contract.assertions@);
            contract.assertions.push(a);
            assert(assertions_view(contract.assertions@) =~= v0.push(a@));
        },
        None => {},
    }
}

} // verus!
