//! Finding severities.
use vstd::prelude::*;

use crate::text::{lower_case, same_text, to_lower};

verus! {

/// How serious a finding is.
#[derive(Debug, Clone, Copy, PartialEq, Eq, Structural, Hash)]
pub enum Severity {
    Critical,
    High,
    Medium,
    Low,
    Info,
}

impl Severity {
    /// Position on the scale from `Info` (0) to `Critical` (4).
    pub open spec fn rank(self) -> nat {
        match self {
            Severity::Info => 0,
            Severity::Low => 1,
            Severity::Medium => 2,
            Severity::High => 3,
            Severity::Critical => 4,
        }
    }

    /// Points a finding of this severity deducts from a score.
    pub open spec fn penalty(self) -> nat {
        match self {
            Severity::Critical => 30,
            Severity::High => 15,
            Severity::Medium => 7,
            Severity::Low => 3,
            Severity::Info => 1,
        }
    }

    /// The severity's name.
    pub open spec fn name(self) -> Seq<char> {
        match self {
            Severity::Critical => "Critical"@,
            Severity::High => "High"@,
            Severity::Medium => "Medium"@,
            Severity::Low => "Low"@,
            Severity::Info => "Info"@,
        }
    }

    /// Points a finding of this severity deducts from a score.
    pub fn score_penalty(&self) -> (r: u8)
        ensures
            r as nat == self.penalty(),
    {
        match self {
            Severity::Critical => 30,
            Severity::High => 15,
            Severity::Medium => 7,
            Severity::Low => 3,
            Severity::Info => 1,
        }
    }

    /// The severity's name.
    pub fn as_str(&self) -> (r: &'static str)
        ensures
            r@ == self.name(),
    {
        match self {
            Severity::Critical => "Critical",
            Severity::High => "High",
            Severity::Medium => "Medium",
            Severity::Low => "Low",
            Severity::Info => "Info",
        }
    }

    /// This severity is at least as serious as `other`.
    pub fn at_least(&self, other: &Severity) -> (r: bool)
        ensures
            r == (self.rank() >= other.rank()),
    {
        let a: u8 = match self {
            Severity::Info => 0,
            Severity::Low => 1,
            Severity::Medium => 2,
            Severity::High => 3,
            Severity::Critical => 4,
        };
        let b: u8 = match other {
            Severity::Info => 0,
            Severity::Low => 1,
            Severity::Medium => 2,
            Severity::High => 3,
            Severity::Critical => 4,
        };
        a >= b
    }
}

/// The severity a lower-case name stands for.
pub open spec fn severity_named(lower: Seq<char>) -> Option<Severity> {
    if lower == "critical"@ {
        Some(Severity::Critical)
    } else if lower == "high"@ {
        Some(Severity::High)
    } else if lower == "medium"@ {
        Some(Severity::Medium)
    } else if lower == "low"@ {
        Some(Severity::Low)
    } else if lower == "info"@ {
        Some(Severity::Info)
    } else {
        None
    }
}

/// The severity a name stands for, ignoring case.
pub open spec fn parsed_severity(name: Seq<char>) -> Option<Severity> {
    severity_named(lower_case(name))
}

/// The severity a lower-case name stands for.
pub fn severity_from_lower(lower: &str) -> (r: Option<Severity>)
    ensures
        r == severity_named(lower@),
{
    if same_text(lower, "critical") {
        Some(Severity::Critical)
    } else if same_text(lower, "high") {
        Some(Severity::High)
    } else if same_text(lower, "medium") {
        Some(Severity::Medium)
    } else if same_text(lower, "low") {
        Some(Severity::Low)
    } else if same_text(lower, "info") {
        Some(Severity::Info)
    } else {
        None
    }
}

/// The severity a name stands for, ignoring case (`"High"`, `"high"`, ...).
pub fn severity_from_name(name: &str) -> (r: Option<Severity>)
    ensures
        r == parsed_severity(name@),
{
    let lower = to_lower(name);
    severity_from_lower(lower.as_str())
}


/// The severities rise strictly from Info through Low, Medium and High to
/// Critical.
pub proof fn law_severity_order()
    ensures
        Severity::Info.rank() < Severity::Low.rank(),
        Severity::Low.rank() < Severity::Medium.rank(),
        Severity::Medium.rank() < Severity::High.rank(),
        Severity::High.rank() < Severity::Critical.rank(),
{
}

} // verus!
