//! Turns a container build recipe into a runtime-assertion test suite:
//! parse, extract a Runtime Contract Model, then emit assertion documents.
use vstd::prelude::*;

pub mod text;
pub mod parser;
pub mod extractor;
pub mod config;
pub mod generator;
pub mod probe;
pub mod explain;
pub mod interactive;
pub mod cli;
pub mod laws;

verus! {

/// Confidence level of an assertion; higher means less risk of a flaky check.
#[derive(Debug, Clone, Copy, PartialEq, Eq, Structural, PartialOrd, Ord, Hash)]
pub enum Confidence {
    Low,
    Medium,
    High,
}

/// The position of a confidence level in the order `Low < Medium < High`.
pub open spec fn rank(c: Confidence) -> nat {
    match c {
        Confidence::Low => 0,
        Confidence::Medium => 1,
        Confidence::High => 2,
    }
}

impl Confidence {
    pub fn rank(&self) -> (r: u8)
        ensures
            r as nat == rank(*self),
    {
        match self {
            Confidence::Low => 0,
            Confidence::Medium => 1,
            Confidence::High => 2,
        }
    }

    /// Whether `self` is below `other`.
    pub fn is_below(&self, other: &Confidence) -> (r: bool)
        ensures
            r == (rank(*self) < rank(*other)),
    {
        self.rank() < other.rank()
    }

    /// The lower-case name: `low`, `medium` or `high`.
    pub fn name(&self) -> (r: &'static str)
        ensures
            r@ == confidence_name(*self),
    {
        match self {
            Confidence::Low => "low",
            Confidence::Medium => "medium",
            Confidence::High => "high",
        }
    }

    /// The lower-case name as a string.
    pub fn to_string(&self) -> (r: String)
        ensures
            r@ == confidence_name(*self),
    {
        crate::text::str_from(self.name())
    }
}

pub open spec fn confidence_name(c: Confidence) -> Seq<char> {
    match c {
        Confidence::Low => "low"@,
        Confidence::Medium => "medium"@,
        Confidence::High => "high"@,
    }
}

/// Strictness of generation.
#[derive(Debug, Clone, Copy, PartialEq, Eq, Structural, Hash)]
pub enum Profile {
    Minimal,
    Standard,
    Strict,
}

/// The least confidence a profile keeps: strict keeps more, minimal keeps less.
pub open spec fn threshold(p: Profile) -> Confidence {
    match p {
        Profile::Minimal => Confidence::High,
        Profile::Standard => Confidence::Medium,
        Profile::Strict => Confidence::Low,
    }
}

pub open spec fn profile_name(p: Profile) -> Seq<char> {
    match p {
        Profile::Minimal => "minimal"@,
        Profile::Standard => "standard"@,
        Profile::Strict => "strict"@,
    }
}

impl Profile {
    pub fn to_threshold(&self) -> (r: Confidence)
        ensures
            r == threshold(*self),
    {
        match self {
            Profile::Minimal => Confidence::High,
            Profile::Standard => Confidence::Medium,
            Profile::Strict => Confidence::Low,
        }
    }

    /// The lower-case name of the profile.
    pub fn to_string(&self) -> (r: String)
        ensures
            r@ == profile_name(*self),
    {
        match self {
            Profile::Minimal => crate::text::str_from("minimal"),
            Profile::Standard => crate::text::str_from("standard"),
            Profile::Strict => crate::text::str_from("strict"),
        }
    }

    /// The profile named by `s` (letters in any case), or a message naming `s`.
    pub fn parse(s: &str) -> (r: Result<Profile, String>)
        ensures
            match r {
                Ok(p) => crate::text::lower_of(s@) == profile_name(p),
                Err(e) => e@ == "unknown profile: "@ + s@ && crate::text::lower_of(s@)
                    != "minimal"@ && crate::text::lower_of(s@) != "standard"@
                    && crate::text::lower_of(s@) != "strict"@,
            },
    {
        let low = crate::text::to_lower(s);
        let lv = crate::text::chars_of(low.as_str());
        if crate::text::str_eq_chars("minimal", &lv) {
            Ok(Profile::Minimal)
        } else if crate::text::str_eq_chars("standard", &lv) {
            Ok(Profile::Standard)
        } else if crate::text::str_eq_chars("strict", &lv) {
            Ok(Profile::Strict)
        } else {
            let mut e = crate::text::str_from("unknown profile: ");
            crate::text::push_str(&mut e, s);
            Err(e)
        }
    }
}

impl std::str::FromStr for Profile {
    type Err = String;

    fn from_str(s: &str) -> Result<Profile, String> {
        Profile::parse(s)
    }
}

} // verus!
