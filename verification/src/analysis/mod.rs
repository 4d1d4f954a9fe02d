//! The analysis rules and the engine that runs them.
pub mod access_control;
pub mod overflow;
pub mod reentrancy;
pub mod storage;

use vstd::prelude::*;

use crate::config::RuleOverride;
use crate::parser::ast::{Contract, SourcePos};
use crate::report::finding::{Finding, FindingView};
use crate::report::severity::{parsed_severity, severity_from_name, Severity};
use crate::report::Report;
use crate::scoring::calculate_score;
use crate::text::{cat, copy_str, decimal, decimal_string, has_prefix, same_text, starts_with_str};

use access_control::{access_control_spec, AccessControlDetector};
use overflow::{overflow_spec, OverflowChecker};
use reentrancy::{reentrancy_spec, ReentrancyDetector};
use storage::{storage_spec, StorageCollisionDetector};

verus! {

/// An analysis over a file's source text.
pub trait Analyzer {
    /// The findings for the source text of a file.
    fn analyze(&self, source: &str, file_path: &str) -> Vec<Finding>;

    /// The analyzer's short name.
    fn name(&self) -> &'static str;
}

/// A rule that inspects a parsed [`Contract`] and reports findings.
pub trait AnalysisRule: Send + Sync {
    /// Stable identifier of the rule family (e.g. `"reentrancy"`).
    fn id(&self) -> &'static str;

    /// Human-readable name.
    fn name(&self) -> &'static str;

    /// One-line description of what the rule detects.
    fn description(&self) -> &'static str;

    /// `fs` is a list of findings this rule may report for `c`; a rule that
    /// does not say accepts any list.
    open spec fn accepts(&self, c: Contract, fs: Seq<FindingView>) -> bool {
        true
    }

    /// Runs the rule against a contract.
    fn analyze(&self, contract: &Contract) -> (r: Vec<Finding>)
        ensures
            self.accepts(*contract, r.deep_view()),
    ;
}

/// The findings of several groups, one group after the other.
pub open spec fn flatten_findings(groups: Seq<Seq<FindingView>>) -> Seq<FindingView>
    decreases groups.len(),
{
    if groups.len() == 0 {
        seq![]
    } else {
        flatten_findings(groups.drop_last()) + groups.last()
    }
}

/// Appends a finding.
pub fn push_finding(out: &mut Vec<Finding>, f: Finding)
    ensures
        final(out).deep_view() == old(out).deep_view().push(f.deep_view()),
{
    let ghost fv = f.deep_view();
    out.push(f);
    assert(final(out).deep_view() =~= old(out).deep_view().push(fv));
}

/// Flattening the groups of one more element adds that element's group.
pub proof fn lemma_flatten_step<A>(q: Seq<A>, f: spec_fn(A) -> Seq<FindingView>, g: int)
    requires
        0 <= g < q.len(),
    ensures
        flatten_findings(q.take(g + 1).map_values(f)) == flatten_findings(q.take(g).map_values(f)) + f(q[g]),
{
    assert(q.take(g + 1).map_values(f).drop_last() =~= q.take(g).map_values(f));
}

/// Flattening the groups of no element gives nothing.
pub proof fn lemma_flatten_none<A>(q: Seq<A>, f: spec_fn(A) -> Seq<FindingView>)
    ensures
        flatten_findings(q.take(0).map_values(f)) == Seq::<FindingView>::empty(),
{
    assert(q.take(0).map_values(f) =~= Seq::<Seq<FindingView>>::empty());
}

/// Where a finding points: the contract's name, followed by `:line:column`
/// when the position is known (line 0 means unknown).
pub open spec fn location_spec(name: Seq<char>, pos: SourcePos) -> Seq<char> {
    if pos.line == 0 {
        name
    } else {
        name + ":"@ + decimal(pos.line as nat) + ":"@ + decimal(pos.column as nat)
    }
}

/// Formats a position in `contract` as a location string.
pub fn location(contract: &Contract, pos: &SourcePos) -> (r: String)
    ensures
        r@ == location_spec(contract.name@, *pos),
{
    if pos.line == 0 {
        copy_str(contract.name.as_str())
    } else {
        let line = decimal_string(pos.line);
        let col = decimal_string(pos.column);
        let s = cat(copy_str(contract.name.as_str()), ":");
        let s = cat(s, line.as_str());
        let s = cat(s, ":");
        cat(s, col.as_str())
    }
}

// ---------------------------------------------------------------------------
// The engine
// ---------------------------------------------------------------------------

/// A rule family built into the library.
#[derive(Debug, Clone, Copy, PartialEq, Eq, Structural)]
pub enum RuleKind {
    Reentrancy,
    Overflow,
    AccessControl,
    Storage,
}

/// The findings a built-in family reports for a contract.
pub open spec fn kind_findings(k: RuleKind, c: Contract) -> Seq<FindingView> {
    match k {
        RuleKind::Reentrancy => reentrancy_spec(c),
        RuleKind::Overflow => overflow_spec(c),
        RuleKind::AccessControl => access_control_spec(c),
        RuleKind::Storage => storage_spec(c),
    }
}

/// The family a rule id names, if any.
pub open spec fn kind_named(id: Seq<char>) -> Option<RuleKind> {
    if id == "reentrancy"@ {
        Some(RuleKind::Reentrancy)
    } else if id == "overflow"@ {
        Some(RuleKind::Overflow)
    } else if id == "access_control"@ {
        Some(RuleKind::AccessControl)
    } else if id == "storage"@ {
        Some(RuleKind::Storage)
    } else {
        None
    }
}

/// The families named by `ids`, in order, skipping unknown ids.
pub open spec fn selected_kinds(ids: Seq<Seq<char>>) -> Seq<RuleKind>
    decreases ids.len(),
{
    if ids.len() == 0 {
        seq![]
    } else {
        selected_kinds(ids.drop_last()) + match kind_named(ids.last()) {
            Some(k) => seq![k],
            None => seq![],
        }
    }
}

/// The default families: reentrancy first, then overflow, access control and storage.
pub open spec fn default_kinds() -> Seq<RuleKind> {
    seq![RuleKind::Reentrancy, RuleKind::Overflow, RuleKind::AccessControl, RuleKind::Storage]
}

/// A rule held by an engine: a built-in family or a rule supplied by the caller.
pub enum RegisteredRule {
    Builtin(RuleKind),
    Custom(Box<dyn AnalysisRule>),
}

/// `fs` is what the rule reports for `c`: exactly its findings for a
/// built-in family, a list the rule accepts for a rule supplied by the caller.
pub open spec fn rule_reports(r: RegisteredRule, c: Contract, fs: Seq<FindingView>) -> bool {
    match r {
        RegisteredRule::Builtin(k) => fs == kind_findings(k, c),
        RegisteredRule::Custom(b) => b.accepts(c, fs),
    }
}

/// The rule reports at most one list of findings for `c` (true of every
/// built-in family).
pub open spec fn decides(r: RegisteredRule, c: Contract) -> bool {
    forall|a: Seq<FindingView>, b: Seq<FindingView>|
        #![trigger rule_reports(r, c, a), rule_reports(r, c, b)]
        rule_reports(r, c, a) && rule_reports(r, c, b) ==> a == b
}

/// `groups` are what the rules report, one group per rule, in order.
pub open spec fn reported_by(rules: Seq<RegisteredRule>, c: Contract, groups: Seq<Seq<FindingView>>) -> bool {
    &&& groups.len() == rules.len()
    &&& forall|i: int| 0 <= i < rules.len() ==> rule_reports(#[trigger] rules[i], c, groups[i])
}

/// The built-in families `ks` as registered rules.
pub open spec fn builtins(ks: Seq<RuleKind>) -> Seq<RegisteredRule> {
    ks.map_values(|k: RuleKind| RegisteredRule::Builtin(k))
}

impl RuleKind {
    /// The family an id names, if any.
    pub fn from_id(id: &str) -> (r: Option<RuleKind>)
        ensures
            r == kind_named(id@),
    {
        if same_text(id, "reentrancy") {
            Some(RuleKind::Reentrancy)
        } else if same_text(id, "overflow") {
            Some(RuleKind::Overflow)
        } else if same_text(id, "access_control") {
            Some(RuleKind::AccessControl)
        } else if same_text(id, "storage") {
            Some(RuleKind::Storage)
        } else {
            None
        }
    }

    /// Runs the family's detector.
    pub fn analyze(&self, contract: &Contract) -> (r: Vec<Finding>)
        ensures
            r.deep_view() == kind_findings(*self, *contract),
    {
        match self {
            RuleKind::Reentrancy => AnalysisRule::analyze(&ReentrancyDetector, contract),
            RuleKind::Overflow => AnalysisRule::analyze(&OverflowChecker, contract),
            RuleKind::AccessControl => AnalysisRule::analyze(&AccessControlDetector, contract),
            RuleKind::Storage => AnalysisRule::analyze(&StorageCollisionDetector, contract),
        }
    }
}

impl RegisteredRule {
    /// Runs the rule.
    pub fn analyze(&self, contract: &Contract) -> (r: Vec<Finding>)
        ensures
            rule_reports(*self, *contract, r.deep_view()),
    {
        match self {
            RegisteredRule::Builtin(k) => k.analyze(contract),
            RegisteredRule::Custom(b) => b.analyze(contract),
        }
    }
}

/// The concatenated findings of the built-in families `ks`, in order.
pub open spec fn run_spec(ks: Seq<RuleKind>, c: Contract) -> Seq<FindingView> {
    flatten_findings(ks.map_values(|k: RuleKind| kind_findings(k, c)))
}

/// A registry of rules; they run in registration order and their findings
/// are concatenated.
pub struct AnalysisEngine {
    rules: Vec<RegisteredRule>,
}

impl AnalysisEngine {
    /// The rules, in registration order.
    pub closed spec fn registered(&self) -> Seq<RegisteredRule> {
        self.rules@
    }

    /// An engine with no rule.
    pub fn new() -> (r: AnalysisEngine)
        ensures
            r.registered() == Seq::<RegisteredRule>::empty(),
    {
        AnalysisEngine { rules: Vec::new() }
    }

    fn add(&mut self, rule: RegisteredRule)
        ensures
            final(self).registered() == old(self).registered().push(rule),
    {
        self.rules.push(rule);
    }

    /// An engine with the four built-in families, reentrancy first.
    pub fn with_default_rules() -> (r: AnalysisEngine)
        ensures
            r.registered() == builtins(default_kinds()),
    {
        let mut engine = AnalysisEngine::new();
        engine.add(RegisteredRule::Builtin(RuleKind::Reentrancy));
        engine.add(RegisteredRule::Builtin(RuleKind::Overflow));
        engine.add(RegisteredRule::Builtin(RuleKind::AccessControl));
        engine.add(RegisteredRule::Builtin(RuleKind::Storage));
        assert(engine.registered() =~= builtins(default_kinds()));
        engine
    }

    /// An engine with the families named by `ids`, in that order; unknown ids
    /// are skipped, and no id at all means every family.
    pub fn with_rules(ids: &[&str]) -> (r: AnalysisEngine)
        ensures
            r.registered() == builtins(
                if ids@.len() == 0 {
                    default_kinds()
                } else {
                    selected_kinds(ids@.map_values(|s: &str| s@))
                },
            ),
    {
        if ids.len() == 0 {
            return AnalysisEngine::with_default_rules();
        }
        let ghost names = ids@.map_values(|s: &str| s@);
        let mut engine = AnalysisEngine::new();
        let mut i: usize = 0;
        assert(names.take(0) =~= Seq::<Seq<char>>::empty());
        assert(engine.registered() =~= builtins(selected_kinds(names.take(0))));
        while i < ids.len()
            invariant
                i <= ids@.len(),
                names == ids@.map_values(|s: &str| s@),
                engine.registered() == builtins(selected_kinds(names.take(i as int))),
            decreases ids@.len() - i,
        {
            assert(names.take(i + 1).drop_last() =~= names.take(i as int));
            assert(names.take(i + 1).last() == ids@[i as int]@);
            let ghost before = selected_kinds(names.take(i as int));
            match RuleKind::from_id(ids[i]) {
                Some(k) => {
                    engine.add(RegisteredRule::Builtin(k));
                    assert(selected_kinds(names.take(i + 1)) =~= before.push(k));
                    assert(engine.registered() =~= builtins(before.push(k)));
                },
                None => {
                    assert(selected_kinds(names.take(i + 1)) =~= before);
                },
            }
            i = i + 1;
        }
        assert(names.take(i as int) =~= names);
        engine
    }

    /// Registers a rule supplied by the caller; it runs after those already there.
    pub fn register(&mut self, rule: Box<dyn AnalysisRule>) -> (r: &mut Self)
        ensures
            r.registered() == old(self).registered().push(RegisteredRule::Custom(rule)),
            *final(self) == *final(r),
    {
        self.rules.push(RegisteredRule::Custom(rule));
        self
    }

    /// Runs every rule against `contract` and concatenates their findings:
    /// one group per rule, in registration order, each what its rule reports.
    pub fn run(&self, contract: &Contract) -> (r: Vec<Finding>)
        ensures
            exists|groups: Seq<Seq<FindingView>>|
                #[trigger] reported_by(self.registered(), *contract, groups) && r.deep_view() == flatten_findings(groups),
    {
        let ghost rs = self.rules@;
        let ghost mut groups: Seq<Seq<FindingView>> = seq![];
        let mut findings: Vec<Finding> = Vec::new();
        let mut i: usize = 0;
        while i < self.rules.len()
            invariant
                i <= rs.len(),
                rs == self.rules@,
                reported_by(rs.take(i as int), *contract, groups),
                findings.deep_view() == flatten_findings(groups),
            decreases rs.len() - i,
        {
            let mut more = self.rules[i].analyze(contract);
            let ghost before = findings.deep_view();
            let ghost added = more.deep_view();
            findings.append(&mut more);
            assert(findings.deep_view() =~= before + added);
            proof {
                let g2 = groups.push(added);
                assert(g2.drop_last() =~= groups);
                assert(rs.take(i + 1).drop_last() =~= rs.take(i as int));
                assert forall|j: int| 0 <= j < rs.take(i + 1).len() implies rule_reports(
                    #[trigger] rs.take(i + 1)[j],
                    *contract,
                    g2[j],
                ) by {
                    if j < i {
                        assert(rs.take(i + 1)[j] == rs.take(i as int)[j]);
                    }
                }
                groups = g2;
            }
            i = i + 1;
        }
        assert(rs.take(rs.len() as int) =~= rs);
        assert(reported_by(self.registered(), *contract, groups));
        findings
    }

    /// Runs every rule against `contract` and scores the findings.
    pub fn analyze_contract(&self, contract: &Contract, source_file: &str) -> (r: Report)
        ensures
            r.contract_name@ == contract.name@,
            r.source_file@ == source_file@,
            exists|groups: Seq<Seq<FindingView>>|
                #[trigger] reported_by(self.registered(), *contract, groups) && r.finding_views() == flatten_findings(groups),
            r.consistent(),
    {
        let findings = self.run(contract);
        let score = calculate_score(findings.as_slice());
        assert(findings@.map_values(|f: Finding| f.deep_view()) =~= findings.deep_view());
        Report::new(contract.name.as_str(), source_file, findings, score)
    }

    /// The number of rules.
    pub fn rule_count(&self) -> (r: usize)
        ensures
            r == self.registered().len(),
    {
        self.rules.len()
    }

    /// The severity a name stands for, ignoring case.
    pub fn parse_severity(s: &str) -> (r: Option<Severity>)
        ensures
            r == parsed_severity(s@),
    {
        severity_from_name(s)
    }

    /// Applies severity overrides: each override whose severity parses sets
    /// that severity on every finding whose rule id starts with its prefix;
    /// later overrides win.
    pub fn apply_overrides(overrides: &[(&str, &RuleOverride)], findings: &mut [Finding])
        ensures
            final(findings)@.len() == old(findings)@.len(),
            forall|j: int|
                0 <= j < old(findings)@.len() ==> (#[trigger] final(findings)@[j]).deep_view()
                    == overridden(overrides_view(overrides@), old(findings)@[j].deep_view()),
    {
        let ghost ovs = overrides_view(overrides@);
        let ghost orig = findings@;
        let mut k: usize = 0;
        while k < overrides.len()
            invariant
                k <= overrides@.len(),
                ovs == overrides_view(overrides@),
                findings@.len() == orig.len(),
                forall|j: int|
                    0 <= j < orig.len() ==> (#[trigger] findings@[j]).deep_view() == overridden(
                        ovs.take(k as int),
                        orig[j].deep_view(),
                    ),
            decreases overrides@.len() - k,
        {
            let (prefix, ov) = overrides[k];
            assert(ovs.take(k + 1).drop_last() =~= ovs.take(k as int));
            assert(ovs.take(k + 1).last() == (prefix@, *ov));
            let sev = ov.to_severity();
            match sev {
                Some(s) => {
                    let mut i: usize = 0;
                    while i < findings.len()
                        invariant
                            k < overrides@.len(),
                            ovs == overrides_view(overrides@),
                            i <= findings@.len(),
                            findings@.len() == orig.len(),
                            ovs.take(k + 1).last() == (prefix@, *ov),
                            ov.imposed() == Some(s),
                            forall|j: int|
                                0 <= j < i ==> (#[trigger] findings@[j]).deep_view() == overridden(
                                    ovs.take(k + 1),
                                    orig[j].deep_view(),
                                ),
                            forall|j: int|
                                i <= j < orig.len() ==> (#[trigger] findings@[j]).deep_view() == overridden(
                                    ovs.take(k as int),
                                    orig[j].deep_view(),
                                ),
                        decreases findings@.len() - i,
                    {
                        let ghost o = orig[i as int].deep_view();
                        assert(findings@[i as int].deep_view().rule_id == o.rule_id);
                        assert(ovs.take(k + 1).drop_last() =~= ovs.take(k as int));
                        if starts_with_str(findings[i].rule_id.as_str(), prefix) {
                            let f = findings[i].duplicate();
                            findings[i] = Finding {
                                severity: s,
                                rule_id: f.rule_id,
                                message: f.message,
                                location: f.location,
                                suggestion: f.suggestion,
                            };
                            assert(overridden_severity(ovs.take(k + 1), o.rule_id, o.severity) == s);
                        } else {
                            assert(overridden_severity(ovs.take(k + 1), o.rule_id, o.severity)
                                == overridden_severity(ovs.take(k as int), o.rule_id, o.severity));
                        }
                        assert(findings@[i as int].deep_view() == overridden(ovs.take(k + 1), o));
                        i = i + 1;
                    }
                },
                None => {
                    assert forall|j: int| 0 <= j < orig.len() implies overridden(ovs.take(k + 1), orig[j].deep_view())
                        == overridden(ovs.take(k as int), orig[j].deep_view()) by {}
                },
            }
            k = k + 1;
        }
        assert(ovs.take(k as int) =~= ovs);
    }
}

/// The overrides as (prefix, override) values.
pub open spec fn overrides_view(ovs: Seq<(&str, &RuleOverride)>) -> Seq<(Seq<char>, RuleOverride)> {
    ovs.map_values(|p: (&str, &RuleOverride)| (p.0@, *p.1))
}

/// The severity a finding of rule `rule_id` has after the overrides `ovs`,
/// starting from `sev`: that of the last override that applies.
pub open spec fn overridden_severity(ovs: Seq<(Seq<char>, RuleOverride)>, rule_id: Seq<char>, sev: Severity) -> Severity
    decreases ovs.len(),
{
    if ovs.len() == 0 {
        sev
    } else {
        let last = ovs.last();
        if has_prefix(rule_id, last.0) && last.1.imposed() is Some {
            last.1.imposed()->0
        } else {
            overridden_severity(ovs.drop_last(), rule_id, sev)
        }
    }
}

/// A finding after the overrides `ovs`: only its severity may change.
pub open spec fn overridden(ovs: Seq<(Seq<char>, RuleOverride)>, f: FindingView) -> FindingView {
    FindingView { severity: overridden_severity(ovs, f.rule_id, f.severity), ..f }
}

impl Default for AnalysisEngine {
    fn default() -> (r: Self)
        ensures
            r.registered() == builtins(default_kinds()),
    {
        AnalysisEngine::with_default_rules()
    }
}

/// Applies severity overrides to a report's findings and scores them again;
/// without overrides the report is left as it is.
pub fn apply_overrides_to_report(report: &mut Report, overrides: &[(&str, &RuleOverride)])
    ensures
        overrides@.len() == 0 ==> *final(report) == *old(report),
        overrides@.len() > 0 ==> {
            &&& final(report).contract_name == old(report).contract_name
            &&& final(report).source_file == old(report).source_file
            &&& final(report).findings@.len() == old(report).findings@.len()
            &&& forall|j: int|
                0 <= j < old(report).findings@.len() ==> (#[trigger] final(report).findings@[j]).deep_view()
                    == overridden(overrides_view(overrides@), old(report).findings@[j].deep_view())
            &&& final(report).consistent()
        },
{
    if overrides.len() == 0 {
        return;
    }
    AnalysisEngine::apply_overrides(overrides, report.findings.as_mut_slice());
    let score = calculate_score(report.findings.as_slice());
    assert(report.findings@.map_values(|f: Finding| f.deep_view()) =~= report.findings.deep_view());
    report.summary = crate::scoring::generate_summary(&score);
    report.score = score;
}

// ---------------------------------------------------------------------------
// Laws
// ---------------------------------------------------------------------------
/// Flattening two lists of groups one after the other flattens their concatenation.
pub proof fn lemma_flatten_concat(a: Seq<Seq<FindingView>>, b: Seq<Seq<FindingView>>)
    ensures
        flatten_findings(a + b) == flatten_findings(a) + flatten_findings(b),
    decreases b.len(),
{
    if b.len() == 0 {
        assert(a + b =~= a);
        assert(flatten_findings(a) + flatten_findings(b) =~= flatten_findings(a));
    } else {
        assert((a + b).drop_last() =~= a + b.drop_last());
        lemma_flatten_concat(a, b.drop_last());
        assert(flatten_findings(a) + flatten_findings(b.drop_last()) + b.last() =~= flatten_findings(a) + flatten_findings(b));
    }
}

/// When every rule is built in, what the rules report is determined: each
/// rule's findings, in order.
pub proof fn law_builtin_reports_determined(ks: Seq<RuleKind>, c: Contract, groups: Seq<Seq<FindingView>>)
    requires
        reported_by(builtins(ks), c, groups),
    ensures
        flatten_findings(groups) == run_spec(ks, c),
{
    assert forall|i: int| 0 <= i < ks.len() implies groups[i] == kind_findings(ks[i], c) by {
        assert(rule_reports(builtins(ks)[i], c, groups[i]));
    }
    assert(groups =~= ks.map_values(|k: RuleKind| kind_findings(k, c)));
}

/// A built-in family reports exactly one list of findings for a contract.
pub proof fn law_builtin_decides(k: RuleKind, c: Contract)
    ensures
        decides(RegisteredRule::Builtin(k), c),
{
}

/// Where each rule reports at most one list of findings for `c`, the rules
/// report the same for `c` whenever they run.
pub proof fn law_reports_determined(
    rules: Seq<RegisteredRule>,
    c: Contract,
    g1: Seq<Seq<FindingView>>,
    g2: Seq<Seq<FindingView>>,
)
    requires
        forall|i: int| 0 <= i < rules.len() ==> decides(#[trigger] rules[i], c),
        reported_by(rules, c, g1),
        reported_by(rules, c, g2),
    ensures
        g1 == g2,
        flatten_findings(g1) == flatten_findings(g2),
{
    assert forall|i: int| 0 <= i < rules.len() implies g1[i] == g2[i] by {
        assert(decides(rules[i], c));
        assert(rule_reports(rules[i], c, g1[i]));
        assert(rule_reports(rules[i], c, g2[i]));
    }
    assert(g1 =~= g2);
}

/// A rule registered last reports last: what the rules report is what the
/// earlier rules report, followed by what the new rule reports.
pub proof fn law_registered_rule_runs_last(
    rules: Seq<RegisteredRule>,
    rule: RegisteredRule,
    c: Contract,
    groups: Seq<Seq<FindingView>>,
)
    requires
        reported_by(rules.push(rule), c, groups),
    ensures
        reported_by(rules, c, groups.drop_last()),
        rule_reports(rule, c, groups.last()),
        flatten_findings(groups) == flatten_findings(groups.drop_last()) + groups.last(),
{
    let all = rules.push(rule);
    assert(all.len() == rules.len() + 1);
    assert forall|i: int| 0 <= i < rules.len() implies rule_reports(#[trigger] rules[i], c, groups.drop_last()[i]) by {
        assert(all[i] == rules[i]);
        assert(rule_reports(all[i], c, groups[i]));
    }
    assert(rule_reports(all[rules.len() as int], c, groups[rules.len() as int]));
}

/// Rules registered after others report their findings after the others':
/// the findings of `first` followed by `then` are those of `first`, then
/// those of `then`.
pub proof fn law_run_appends(
    first: Seq<RegisteredRule>,
    then: Seq<RegisteredRule>,
    c: Contract,
    groups: Seq<Seq<FindingView>>,
)
    requires
        reported_by(first + then, c, groups),
    ensures
        reported_by(first, c, groups.take(first.len() as int)),
        reported_by(then, c, groups.skip(first.len() as int)),
        flatten_findings(groups) == flatten_findings(groups.take(first.len() as int)) + flatten_findings(
            groups.skip(first.len() as int),
        ),
{
    let n = first.len() as int;
    assert forall|i: int| 0 <= i < first.len() implies rule_reports(#[trigger] first[i], c, groups.take(n)[i]) by {
        assert((first + then)[i] == first[i]);
    }
    assert forall|i: int| 0 <= i < then.len() implies rule_reports(#[trigger] then[i], c, groups.skip(n)[i]) by {
        assert((first + then)[n + i] == then[i]);
    }
    assert(groups.take(n) + groups.skip(n) =~= groups);
    lemma_flatten_concat(groups.take(n), groups.skip(n));
}

/// The default engine reports the reentrancy findings, then the overflow,
/// access-control and storage findings.
pub proof fn law_default_run(c: Contract, groups: Seq<Seq<FindingView>>)
    requires
        reported_by(builtins(default_kinds()), c, groups),
    ensures
        flatten_findings(groups) == reentrancy_spec(c) + overflow_spec(c) + access_control_spec(c) + storage_spec(c),
{
    law_builtin_reports_determined(default_kinds(), c, groups);
    let q = default_kinds().map_values(|k: RuleKind| kind_findings(k, c));
    let (r1, r2, r3, r4) = (reentrancy_spec(c), overflow_spec(c), access_control_spec(c), storage_spec(c));
    assert(q =~= seq![r1, r2, r3, r4]);
    assert(seq![r1, r2, r3, r4].drop_last() =~= seq![r1, r2, r3]);
    assert(seq![r1, r2, r3].drop_last() =~= seq![r1, r2]);
    assert(seq![r1, r2].drop_last() =~= seq![r1]);
    assert(seq![r1].drop_last() =~= Seq::<Seq<FindingView>>::empty());
    assert(flatten_findings(Seq::<Seq<FindingView>>::empty()) == Seq::<FindingView>::empty());
    assert(flatten_findings(seq![r1]) == flatten_findings(seq![r1].drop_last()) + r1);
    assert(Seq::<FindingView>::empty() + r1 =~= r1);
    assert(flatten_findings(seq![r1]) =~= r1);
    assert(flatten_findings(seq![r1, r2]) =~= r1 + r2);
    assert(flatten_findings(seq![r1, r2, r3]) =~= r1 + r2 + r3);
    assert(flatten_findings(seq![r1, r2, r3, r4]) =~= r1 + r2 + r3 + r4);
}

/// An engine built from no rule id at all has the default rules.
pub proof fn law_no_ids_means_default(ids: Seq<Seq<char>>)
    requires
        ids.len() == 0,
    ensures
        builtins(if ids.len() == 0 { default_kinds() } else { selected_kinds(ids) }) == builtins(default_kinds()),
{
}

/// The severity overrides reach a fixed point at once: applying them twice
/// is applying them once.
pub proof fn law_overrides_idempotent(ovs: Seq<(Seq<char>, RuleOverride)>, f: FindingView)
    ensures
        overridden(ovs, overridden(ovs, f)) == overridden(ovs, f),
    decreases ovs.len(),
{
    if ovs.len() > 0 {
        let last = ovs.last();
        if !(has_prefix(f.rule_id, last.0) && last.1.imposed() is Some) {
            law_overrides_idempotent(ovs.drop_last(), f);
        }
    }
}

/// A finding whose rule id starts with none of the prefixes keeps its
/// severity, and no override changes anything but a severity.
pub proof fn law_unmatched_finding_unchanged(ovs: Seq<(Seq<char>, RuleOverride)>, f: FindingView)
    requires
        forall|k: int| 0 <= k < ovs.len() ==> !has_prefix(f.rule_id, (#[trigger] ovs[k]).0),
    ensures
        overridden(ovs, f) == f,
    decreases ovs.len(),
{
    if ovs.len() > 0 {
        assert(!has_prefix(f.rule_id, ovs[ovs.len() - 1].0));
        law_unmatched_finding_unchanged(ovs.drop_last(), f);
    }
}

/// The last override that applies to a finding decides its severity.
pub proof fn law_last_override_wins(ovs: Seq<(Seq<char>, RuleOverride)>, f: FindingView, k: int)
    requires
        0 <= k < ovs.len(),
        has_prefix(f.rule_id, ovs[k].0),
        ovs[k].1.imposed() is Some,
        forall|j: int| k < j < ovs.len() ==> !(has_prefix(f.rule_id, (#[trigger] ovs[j]).0) && ovs[j].1.imposed() is Some),
    ensures
        overridden(ovs, f).severity == ovs[k].1.imposed()->0,
    decreases ovs.len(),
{
    if k < ovs.len() - 1 {
        assert(!(has_prefix(f.rule_id, ovs[ovs.len() - 1].0) && ovs[ovs.len() - 1].1.imposed() is Some));
        law_last_override_wins(ovs.drop_last(), f, k);
    }
}

} // verus!
