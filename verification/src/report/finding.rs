//! A single reported problem.
use vstd::prelude::*;

use super::severity::Severity;

verus! {

/// One problem found in a contract.
#[derive(Debug, Clone)]
pub struct Finding {
    pub severity: Severity,
    pub rule_id: String,
    pub message: String,
    pub location: String,
    pub suggestion: String,
}

/// A finding with its texts as character sequences.
pub struct FindingView {
    pub severity: Severity,
    pub rule_id: Seq<char>,
    pub message: Seq<char>,
    pub location: Seq<char>,
    pub suggestion: Seq<char>,
}

impl DeepView for Finding {
    type V = FindingView;

    open spec fn deep_view(&self) -> FindingView {
        FindingView {
            severity: self.severity,
            rule_id: self.rule_id@,
            message: self.message@,
            location: self.location@,
            suggestion: self.suggestion@,
        }
    }
}

/// A finding built from its parts.
pub open spec fn finding_spec(
    severity: Severity,
    rule_id: Seq<char>,
    message: Seq<char>,
    location: Seq<char>,
    suggestion: Seq<char>,
) -> FindingView {
    FindingView { severity, rule_id, message, location, suggestion }
}

impl Finding {
    /// A copy of this finding.
    pub fn duplicate(&self) -> (r: Finding)
        ensures
            r.deep_view() == self.deep_view(),
    {
        Finding {
            severity: self.severity,
            rule_id: self.rule_id.clone(),
            message: self.message.clone(),
            location: self.location.clone(),
            suggestion: self.suggestion.clone(),
        }
    }

    /// A finding with the given severity, rule, message, location and suggestion.
    pub fn new(
        severity: Severity,
        rule_id: String,
        message: String,
        location: String,
        suggestion: String,
    ) -> (r: Finding)
        ensures
            r.deep_view() == finding_spec(severity, rule_id@, message@, location@, suggestion@),
    {
        Finding { severity, rule_id, message, location, suggestion }
    }
}

} // verus!
