//! Diagnostic severity.
//!
//! | Level    | Meaning                                              |
//! |----------|------------------------------------------------------|
//! | Critical | Remote code execution, secret leakage, direct XSS    |
//! | High     | Security vulnerabilities, authentication bypass risk |
//! | Medium   | Dangerous patterns, reliability issues               |
//! | Low      | Best-practice violations                             |
//! | Info     | Style recommendations                                |

use vstd::prelude::*;

verus! {

/// Five-level severity scale, ordered from `Info` (lowest) to `Critical`.
#[derive(Debug, Clone, Copy, PartialEq, Eq, Structural, Hash)]
pub enum Severity {
    Info,
    Low,
    Medium,
    High,
    Critical,
}

impl Severity {
    /// Position of the level on the scale: `Info` is 0, `Critical` is 4.
    pub open spec fn rank(self) -> int {
        match self {
            Severity::Info => 0,
            Severity::Low => 1,
            Severity::Medium => 2,
            Severity::High => 3,
            Severity::Critical => 4,
        }
    }

    /// The lower-case name of the level.
    pub open spec fn spec_name(self) -> Seq<char> {
        match self {
            Severity::Info => "info"@,
            Severity::Low => "low"@,
            Severity::Medium => "medium"@,
            Severity::High => "high"@,
            Severity::Critical => "critical"@,
        }
    }

    /// The SARIF `level` bucket of the severity.
    pub open spec fn spec_sarif_level(self) -> Seq<char> {
        match self {
            Severity::Info | Severity::Low => "note"@,
            Severity::Medium => "warning"@,
            Severity::High | Severity::Critical => "error"@,
        }
    }

    /// Numeric position of the level (`Info` = 0 ... `Critical` = 4).
    pub fn level(self) -> (r: u8)
        ensures
            r as int == self.rank(),
    {
        match self {
            Severity::Info => 0,
            Severity::Low => 1,
            Severity::Medium => 2,
            Severity::High => 3,
            Severity::Critical => 4,
        }
    }

    /// True when `self` is at least as severe as `other`.
    pub fn at_least(self, other: Severity) -> (r: bool)
        ensures
            r == (self.rank() >= other.rank()),
    {
        self.level() >= other.level()
    }

    /// The lower-case name of the level (`"info"` ... `"critical"`).
    pub fn as_str(self) -> (r: &'static str)
        ensures
            r@ == self.spec_name(),
    {
        proof {
            reveal_strlit("info");
            reveal_strlit("low");
            reveal_strlit("medium");
            reveal_strlit("high");
            reveal_strlit("critical");
        }
        match self {
            Severity::Info => "info",
            Severity::Low => "low",
            Severity::Medium => "medium",
            Severity::High => "high",
            Severity::Critical => "critical",
        }
    }

    /// Map to the closest SARIF `level`. SARIF has only four buckets;
    /// `Critical` collapses into `error`, `Info` and `Low` into `note`.
    pub fn to_sarif_level(self) -> (r: &'static str)
        ensures
            r@ == self.spec_sarif_level(),
    {
        match self {
            Severity::Info | Severity::Low => "note",
            Severity::Medium => "warning",
            Severity::High | Severity::Critical => "error",
        }
    }
}

} // verus!
