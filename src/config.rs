//! Policy: which kinds of resources are emitted and how.
use vstd::prelude::*;
use crate::text::{chars_of, contains, contains_str, str_from, string_views, to_upper, upper_of};

verus! {

/// How strictly to enforce one kind of assertion.
#[derive(Debug, Clone, Copy, PartialEq, Eq, Structural)]
pub enum AssertionPolicy {
    Required,
    Optional,
    Off,
}

/// Retry settings of the readiness document.
#[derive(Debug, Clone)]
pub struct WaitConfig {
    /// Number of retries before giving up.
    pub retries: u32,
    /// Sleep between retries (e.g. `1s`).
    pub sleep: String,
    /// Total timeout (e.g. `60s`).
    pub timeout: String,
}

/// A known service pattern mapping.
#[derive(Debug, Clone)]
pub struct ServicePattern {
    /// Service name to match (e.g. `nginx`).
    pub name: String,
    /// Expected process name.
    pub process: Option<String>,
    /// Config file path to check.
    pub config_path: Option<String>,
    /// Version command to verify.
    pub version_cmd: Option<String>,
}

/// The policy record that gates emission.
#[derive(Debug, Clone)]
pub struct PolicyConfig {
    /// Port assertions: required, optional or off.
    pub assert_ports: AssertionPolicy,
    /// Process assertions: required, optional or off.
    pub assert_process: AssertionPolicy,
    /// Whether file modes are asserted.
    pub assert_file_modes: bool,
    /// Whether HTTP checks are emitted.
    pub http_checks: bool,
    /// Known service pattern mappings.
    pub service_patterns: Vec<ServicePattern>,
    /// Paths to ignore in assertions.
    pub ignore_paths: Vec<String>,
    /// Whether volume paths are ignored unless mounted.
    pub ignore_volumes: bool,
    /// Readiness settings.
    pub wait: WaitConfig,
    /// Substrings that mark a key as secret.
    pub secret_patterns: Vec<String>,
}

pub open spec fn default_secret_list() -> Seq<Seq<char>> {
    seq!["SECRET"@, "TOKEN"@, "PASSWORD"@, "KEY"@, "PRIVATE"@, "CREDENTIAL"@, "AUTH"@]
}

/// The defaults: ports and processes optional, no modes, no HTTP checks,
/// volumes ignored, 60 retries of `1s` within `60s`, the usual secret words.
pub open spec fn is_default_policy(p: PolicyConfig) -> bool {
    &&& p.assert_ports == AssertionPolicy::Optional
    &&& p.assert_process == AssertionPolicy::Optional
    &&& !p.assert_file_modes
    &&& !p.http_checks
    &&& p.service_patterns@.len() == 0
    &&& p.ignore_paths@.len() == 0
    &&& p.ignore_volumes
    &&& p.wait.retries == 60
    &&& p.wait.sleep@ == "1s"@
    &&& p.wait.timeout@ == "60s"@
    &&& string_views(p.secret_patterns@) == default_secret_list()
}

pub open spec fn ports_enabled(p: PolicyConfig) -> bool {
    p.assert_ports != AssertionPolicy::Off
}

pub open spec fn process_enabled(p: PolicyConfig) -> bool {
    p.assert_process != AssertionPolicy::Off
}

fn default_optional() -> (r: AssertionPolicy)
    ensures
        r == AssertionPolicy::Optional,
{
    AssertionPolicy::Optional
}

fn default_retries() -> (r: u32)
    ensures
        r == 60,
{
    60
}

fn default_sleep() -> (r: String)
    ensures
        r@ == "1s"@,
{
    str_from("1s")
}

fn default_timeout() -> (r: String)
    ensures
        r@ == "60s"@,
{
    str_from("60s")
}

fn default_secret_patterns() -> (r: Vec<String>)
    ensures
        string_views(r@) == default_secret_list(),
{
    let mut v: Vec<String> = Vec::new();
    v.push(str_from("SECRET"));
    v.push(str_from("TOKEN"));
    v.push(str_from("PASSWORD"));
    v.push(str_from("KEY"));
    v.push(str_from("PRIVATE"));
    v.push(str_from("CREDENTIAL"));
    v.push(str_from("AUTH"));
    assert(string_views(v@) =~= default_secret_list());
    v
}

impl Default for WaitConfig {
    fn default() -> (r: WaitConfig)
        ensures
            r.retries == 60 && r.sleep@ == "1s"@ && r.timeout@ == "60s"@,
    {
        WaitConfig { retries: default_retries(), sleep: default_sleep(), timeout: default_timeout() }
    }
}

impl Default for PolicyConfig {
    fn default() -> (r: PolicyConfig)
        ensures
            is_default_policy(r),
    {
        PolicyConfig {
            assert_ports: default_optional(),
            assert_process: default_optional(),
            assert_file_modes: false,
            http_checks: false,
            service_patterns: Vec::new(),
            ignore_paths: Vec::new(),
            ignore_volumes: true,
            wait: WaitConfig::default(),
            secret_patterns: default_secret_patterns(),
        }
    }
}

/// Whether the upper-cased key holds one of the upper-cased patterns.
pub open spec fn secret_match(upper_key: Seq<char>, upper_patterns: Seq<Seq<char>>) -> bool {
    exists|i: int| 0 <= i < upper_patterns.len() && contains(upper_key, #[trigger] upper_patterns[i])
}

impl PolicyConfig {
    /// The first policy that could be loaded, in the order of the candidate
    /// files; the defaults when none could.
    pub fn load_or_default(candidates: Vec<Option<PolicyConfig>>) -> (r: PolicyConfig)
        ensures
            (exists|i: int| 0 <= i < candidates@.len() && (#[trigger] candidates@[i]) is Some) ==> (
            exists|i: int|
                0 <= i < candidates@.len() && candidates@[i] == Some(r) && forall|j: int|
                    0 <= j < i ==> (#[trigger] candidates@[j]) is None),
            (forall|i: int| 0 <= i < candidates@.len() ==> (#[trigger] candidates@[i]) is None)
                ==> is_default_policy(r),
    {
        let ghost all = candidates@;
        let total = candidates.len();
        let mut rest = candidates;
        let mut k: usize = 0;
        while rest.len() > 0
            invariant
                k + rest@.len() == all.len(),
                all.len() == total,
                all == candidates@,
                rest@ == all.subrange(k as int, all.len() as int),
                forall|j: int| 0 <= j < k ==> (#[trigger] all[j]) is None,
            decreases rest@.len(),
        {
            let ghost r0 = rest@;
            let c = rest.remove(0);
            assert(all[k as int] == r0[0]);
            match c {
                Some(p) => {
                    assert(all[k as int] == Some(p));
                    assert(exists|i: int|
                        0 <= i < candidates@.len() && candidates@[i] == Some(p) && forall|j: int|
                            0 <= j < i ==> (#[trigger] candidates@[j]) is None) by {
                        assert(candidates@[k as int] == Some(p));
                    }
                    return p;
                },
                None => {},
            }
            assert(rest@ =~= all.subrange(k + 1, all.len() as int));
            k += 1;
        }
        PolicyConfig::default()
    }

    pub fn assert_ports_enabled(&self) -> (r: bool)
        ensures
            r == ports_enabled(*self),
    {
        !matches!(self.assert_ports, AssertionPolicy::Off)
    }

    pub fn assert_process_enabled(&self) -> (r: bool)
        ensures
            r == process_enabled(*self),
    {
        !matches!(self.assert_process, AssertionPolicy::Off)
    }

    /// Whether a key looks like a secret: its upper-case form holds the upper-case
    /// form of one of the secret patterns.
    pub fn is_secret_key(&self, key: &str) -> (r: bool)
        ensures
            r == secret_match(
                upper_of(key@),
                self.secret_patterns@.map_values(|p: String| upper_of(p@)),
            ),
    {
        let upper = chars_of(to_upper(key).as_str());
        let ghost ups = self.secret_patterns@.map_values(|p: String| upper_of(p@));
        let mut i: usize = 0;
        while i < self.secret_patterns.len()
            invariant
                i <= self.secret_patterns@.len(),
                upper@ == upper_of(key@),
                ups == self.secret_patterns@.map_values(|p: String| upper_of(p@)),
                forall|j: int| 0 <= j < i ==> !contains(upper@, #[trigger] ups[j]),
            decreases self.secret_patterns@.len() - i,
        {
            let p = to_upper(self.secret_patterns[i].as_str());
            assert(ups[i as int] == p@);
            if contains_str(&upper, p.as_str()) {
                return true;
            }
            i += 1;
        }
        false
    }
}

} // verus!
