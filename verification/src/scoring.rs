//! Security scoring.
//!
//! A score starts at 100 and loses points for each finding (Critical 30,
//! High 15, Medium 7, Low 3, Info 1).  A contract with no R-03 finding (a
//! reentrancy guard is present) earns 5 points back, one with no S-05 finding
//! (a version key is present) 3 points; the score stays within 0..=100.
use vstd::prelude::*;

use crate::report::finding::{Finding, FindingView};
use crate::report::severity::Severity;
use crate::text::{cat, cat_char, copy_str, decimal, decimal_string, same_text};

verus! {

/// Number of findings per severity.
#[derive(Debug, Clone, Copy, PartialEq, Eq, Structural)]
pub struct SeverityBreakdown {
    pub critical: usize,
    pub high: usize,
    pub medium: usize,
    pub low: usize,
    pub info: usize,
}

/// The score of a set of findings.
#[derive(Debug)]
pub struct SecurityScore {
    /// 0 to 100.
    pub overall: u8,
    /// `A` (90 and above) to `F` (below 30).
    pub grade: char,
    pub breakdown: SeverityBreakdown,
    /// Up to five Critical and High findings, Critical first.
    pub top_findings: Vec<Finding>,
}

/// Computes the overall score of a set of findings.
pub struct ScoringEngine;

// ---------------------------------------------------------------------------
// Specification
// ---------------------------------------------------------------------------
/// Number of findings of severity `sev`.
pub open spec fn count_of(fs: Seq<FindingView>, sev: Severity) -> nat
    decreases fs.len(),
{
    if fs.len() == 0 {
        0
    } else {
        count_of(fs.drop_last(), sev) + if fs.last().severity == sev { 1nat } else { 0nat }
    }
}

/// The sum of the penalties of all findings.
pub open spec fn penalty_total(fs: Seq<FindingView>) -> nat
    decreases fs.len(),
{
    if fs.len() == 0 {
        0
    } else {
        penalty_total(fs.drop_last()) + fs.last().severity.penalty()
    }
}

/// Some finding has rule id `id`.
pub open spec fn has_rule(fs: Seq<FindingView>, id: Seq<char>) -> bool {
    exists|i: int| 0 <= i < fs.len() && (#[trigger] fs[i]).rule_id == id
}

/// Points earned back for a guard (no R-03) and a version key (no S-05).
pub open spec fn bonus(fs: Seq<FindingView>) -> nat {
    (if has_rule(fs, "R-03"@) { 0nat } else { 5nat }) + (if has_rule(fs, "S-05"@) { 0nat } else { 3nat })
}

/// 100 minus the penalties net of the bonus, kept within 0..=100.
pub open spec fn overall_score(fs: Seq<FindingView>) -> nat {
    let net = penalty_total(fs) - bonus(fs);
    if net <= 0 {
        100
    } else if net >= 100 {
        0
    } else {
        (100 - net) as nat
    }
}

/// The letter grade of a score.
pub open spec fn grade_of(score: nat) -> char {
    if score >= 90 {
        'A'
    } else if score >= 70 {
        'B'
    } else if score >= 50 {
        'C'
    } else if score >= 30 {
        'D'
    } else {
        'F'
    }
}

/// The findings of severity `sev`, in order.
pub open spec fn of_severity(fs: Seq<FindingView>, sev: Severity) -> Seq<FindingView>
    decreases fs.len(),
{
    if fs.len() == 0 {
        seq![]
    } else if fs.last().severity == sev {
        of_severity(fs.drop_last(), sev).push(fs.last())
    } else {
        of_severity(fs.drop_last(), sev)
    }
}

/// Up to five Critical and High findings, Critical first.
pub open spec fn top_spec(fs: Seq<FindingView>) -> Seq<FindingView> {
    let all = of_severity(fs, Severity::Critical) + of_severity(fs, Severity::High);
    if all.len() <= 5 {
        all
    } else {
        all.take(5)
    }
}

impl SecurityScore {
    /// This is the score of `fs`.
    pub open spec fn scores(self, fs: Seq<FindingView>) -> bool {
        &&& self.overall as nat == overall_score(fs)
        &&& self.grade == grade_of(self.overall as nat)
        &&& self.breakdown.critical as nat == count_of(fs, Severity::Critical)
        &&& self.breakdown.high as nat == count_of(fs, Severity::High)
        &&& self.breakdown.medium as nat == count_of(fs, Severity::Medium)
        &&& self.breakdown.low as nat == count_of(fs, Severity::Low)
        &&& self.breakdown.info as nat == count_of(fs, Severity::Info)
        &&& self.top_findings.deep_view() == top_spec(fs)
    }

    /// A copy of this score.
    pub fn duplicate(&self) -> (r: SecurityScore)
        ensures
            r.overall == self.overall,
            r.grade == self.grade,
            r.breakdown == self.breakdown,
            r.top_findings.deep_view() == self.top_findings.deep_view(),
    {
        SecurityScore {
            overall: self.overall,
            grade: self.grade,
            breakdown: self.breakdown,
            top_findings: copy_findings(&self.top_findings),
        }
    }
}

/// The summary text of a score.
pub open spec fn summary_spec(s: SecurityScore) -> Seq<char> {
    "Security Score: "@ + decimal(s.overall as nat) + "/100 (Grade "@ + seq![s.grade] + ")\nCritical: "@
        + decimal(s.breakdown.critical as nat) + " | High: "@ + decimal(s.breakdown.high as nat)
        + " | Medium: "@ + decimal(s.breakdown.medium as nat) + " | Low: "@ + decimal(
        s.breakdown.low as nat,
    ) + " | Info: "@ + decimal(s.breakdown.info as nat)
}

// ---------------------------------------------------------------------------
// Implementation
// ---------------------------------------------------------------------------
/// Copies of all findings.
pub fn copy_findings(fs: &[Finding]) -> (r: Vec<Finding>)
    ensures
        r.deep_view() == fs@.map_values(|f: Finding| f.deep_view()),
{
    let mut r: Vec<Finding> = Vec::new();
    let mut i: usize = 0;
    while i < fs.len()
        invariant
            i <= fs@.len(),
            r.deep_view() == fs@.take(i as int).map_values(|f: Finding| f.deep_view()),
        decreases fs@.len() - i,
    {
        let f = fs[i].duplicate();
        let ghost before = r.deep_view();
        r.push(f);
        assert(r.deep_view() =~= before.push(fs@[i as int].deep_view()));
        assert(r.deep_view() =~= fs@.take(i + 1).map_values(|f: Finding| f.deep_view()));
        i = i + 1;
    }
    assert(fs@.take(i as int) =~= fs@);
    r
}

/// The letter grade of a score.
pub fn grade_for(score: u8) -> (r: char)
    ensures
        r == grade_of(score as nat),
{
    if score >= 90 {
        'A'
    } else if score >= 70 {
        'B'
    } else if score >= 50 {
        'C'
    } else if score >= 30 {
        'D'
    } else {
        'F'
    }
}

/// The findings of `fs` of severity `sev`, copied, in order.
fn select_severity(fs: &[Finding], sev: Severity) -> (r: Vec<Finding>)
    ensures
        r.deep_view() == of_severity(fs@.map_values(|f: Finding| f.deep_view()), sev),
{
    let ghost v = fs@.map_values(|f: Finding| f.deep_view());
    let mut r: Vec<Finding> = Vec::new();
    let mut i: usize = 0;
    assert(v.take(0) =~= Seq::<FindingView>::empty());
    while i < fs.len()
        invariant
            i <= fs@.len(),
            v == fs@.map_values(|f: Finding| f.deep_view()),
            r.deep_view() == of_severity(v.take(i as int), sev),
        decreases fs@.len() - i,
    {
        assert(v.take(i + 1).drop_last() =~= v.take(i as int));
        if fs[i].severity == sev {
            let f = fs[i].duplicate();
            let ghost before = r.deep_view();
            r.push(f);
            assert(r.deep_view() =~= before.push(fs@[i as int].deep_view()));
        }
        i = i + 1;
    }
    assert(v.take(i as int) =~= v);
    r
}

/// Scores a set of findings.
pub fn calculate_score(findings: &[Finding]) -> (r: SecurityScore)
    ensures
        r.scores(findings@.map_values(|f: Finding| f.deep_view())),
{
    let ghost v = findings@.map_values(|f: Finding| f.deep_view());
    let mut critical: usize = 0;
    let mut high: usize = 0;
    let mut medium: usize = 0;
    let mut low: usize = 0;
    let mut info: usize = 0;
    let mut penalty: u16 = 0;
    let mut has_r03 = false;
    let mut has_s05 = false;
    let mut i: usize = 0;
    assert(v.take(0) =~= Seq::<FindingView>::empty());
    while i < findings.len()
        invariant
            i <= findings@.len(),
            v == findings@.map_values(|f: Finding| f.deep_view()),
            critical as nat == count_of(v.take(i as int), Severity::Critical),
            high as nat == count_of(v.take(i as int), Severity::High),
            medium as nat == count_of(v.take(i as int), Severity::Medium),
            low as nat == count_of(v.take(i as int), Severity::Low),
            info as nat == count_of(v.take(i as int), Severity::Info),
            critical + high + medium + low + info == i,
            penalty as nat == if penalty_total(v.take(i as int)) >= 255 { 255 } else { penalty_total(v.take(i as int)) },
            has_r03 == has_rule(v.take(i as int), "R-03"@),
            has_s05 == has_rule(v.take(i as int), "S-05"@),
        decreases findings@.len() - i,
    {
        let f = &findings[i];
        assert(v.take(i + 1).drop_last() =~= v.take(i as int));
        assert(v.take(i + 1).last() == f.deep_view());
        match f.severity {
            Severity::Critical => { critical = critical + 1; },
            Severity::High => { high = high + 1; },
            Severity::Medium => { medium = medium + 1; },
            Severity::Low => { low = low + 1; },
            Severity::Info => { info = info + 1; },
        }
        let p = f.severity.score_penalty() as u16;
        penalty = if penalty + p >= 255 { 255 } else { penalty + p };
        if same_text(f.rule_id.as_str(), "R-03") {
            has_r03 = true;
        }
        if same_text(f.rule_id.as_str(), "S-05") {
            has_s05 = true;
        }
        assert(has_r03 == has_rule(v.take(i + 1), "R-03"@)) by {
            if has_rule(v.take(i + 1), "R-03"@) {
                let j = choose|j: int| 0 <= j < v.take(i + 1).len() && (#[trigger] v.take(i + 1)[j]).rule_id == "R-03"@;
                if j < i {
                    assert(v.take(i as int)[j] == v.take(i + 1)[j]);
                }
            }
            if has_rule(v.take(i as int), "R-03"@) {
                let j = choose|j: int| 0 <= j < v.take(i as int).len() && (#[trigger] v.take(i as int)[j]).rule_id == "R-03"@;
                assert(v.take(i + 1)[j] == v.take(i as int)[j]);
            }
        }
        assert(has_s05 == has_rule(v.take(i + 1), "S-05"@)) by {
            if has_rule(v.take(i + 1), "S-05"@) {
                let j = choose|j: int| 0 <= j < v.take(i + 1).len() && (#[trigger] v.take(i + 1)[j]).rule_id == "S-05"@;
                if j < i {
                    assert(v.take(i as int)[j] == v.take(i + 1)[j]);
                }
            }
            if has_rule(v.take(i as int), "S-05"@) {
                let j = choose|j: int| 0 <= j < v.take(i as int).len() && (#[trigger] v.take(i as int)[j]).rule_id == "S-05"@;
                assert(v.take(i + 1)[j] == v.take(i as int)[j]);
            }
        }
        i = i + 1;
    }
    assert(v.take(i as int) =~= v);
    let bonus_pts: u16 = (if has_r03 { 0 } else { 5 }) + (if has_s05 { 0 } else { 3 });
    let overall: u8 = if penalty <= bonus_pts {
        100
    } else if penalty - bonus_pts >= 100 {
        0
    } else {
        (100 - (penalty - bonus_pts)) as u8
    };
    let mut top = select_severity(findings, Severity::Critical);
    let highs = select_severity(findings, Severity::High);
    let mut j: usize = 0;
    let ghost crit = top.deep_view();
    while j < highs.len() && top.len() < 5
        invariant
            j <= highs@.len(),
            crit == of_severity(v, Severity::Critical),
            highs.deep_view() == of_severity(v, Severity::High),
            top.deep_view() == crit + highs.deep_view().take(j as int),
        decreases highs@.len() - j,
    {
        let f = highs[j].duplicate();
        let ghost before = top.deep_view();
        top.push(f);
        assert(top.deep_view() =~= before.push(highs.deep_view()[j as int]));
        assert(highs.deep_view().take(j + 1) =~= highs.deep_view().take(j as int).push(highs.deep_view()[j as int]));
        assert(top.deep_view() =~= crit + highs.deep_view().take(j + 1));
        j = j + 1;
    }
    let ghost all = of_severity(v, Severity::Critical) + of_severity(v, Severity::High);
    let ghost pre = top.deep_view();
    if top.len() > 5 {
        top.truncate(5);
        assert(top.deep_view() =~= pre.take(5));
    }
    proof {
        if all.len() <= 5 {
            assert(j == highs@.len());
            assert(highs.deep_view().take(j as int) =~= highs.deep_view());
        } else {
            assert(pre.len() >= 5);
            assert(pre.take(5) =~= all.take(5));
            assert(top.deep_view() =~= all.take(5));
        }
    }
    SecurityScore {
        overall,
        grade: grade_for(overall),
        breakdown: SeverityBreakdown { critical, high, medium, low, info },
        top_findings: top,
    }
}

/// The one-paragraph summary of a score.
pub fn generate_summary(score: &SecurityScore) -> (r: String)
    ensures
        r@ == summary_spec(*score),
{
    let s = cat(copy_str("Security Score: "), decimal_string(score.overall as usize).as_str());
    let s = cat(s, "/100 (Grade ");
    let s = cat_char(s, score.grade);
    let s = cat(s, ")\nCritical: ");
    let s = cat(s, decimal_string(score.breakdown.critical).as_str());
    let s = cat(s, " | High: ");
    let s = cat(s, decimal_string(score.breakdown.high).as_str());
    let s = cat(s, " | Medium: ");
    let s = cat(s, decimal_string(score.breakdown.medium).as_str());
    let s = cat(s, " | Low: ");
    let s = cat(s, decimal_string(score.breakdown.low).as_str());
    let s = cat(s, " | Info: ");
    let s = cat(s, decimal_string(score.breakdown.info).as_str());
    assert(s@ =~= summary_spec(*score));
    s
}

impl ScoringEngine {
    /// The scoring engine.
    pub fn new() -> (r: ScoringEngine) {
        ScoringEngine
    }

    /// The overall score of the findings: 100 less their penalties, with the
    /// guard and version-key bonuses, kept within 0..=100.
    pub fn calculate_score(&self, findings: &[Finding]) -> (r: u8)
        ensures
            r as nat == overall_score(findings@.map_values(|f: Finding| f.deep_view())),
    {
        crate::scoring::calculate_score(findings).overall
    }
}

impl Default for ScoringEngine {
    fn default() -> (r: Self) {
        ScoringEngine
    }
}

// ---------------------------------------------------------------------------
// Laws
// ---------------------------------------------------------------------------
/// A score lies between 0 and 100, and its grade is one of A, B, C, D, F.
pub proof fn law_score_bounded(fs: Seq<FindingView>)
    ensures
        overall_score(fs) <= 100,
        grade_of(overall_score(fs)) == 'A' || grade_of(overall_score(fs)) == 'B' || grade_of(overall_score(fs)) == 'C'
            || grade_of(overall_score(fs)) == 'D' || grade_of(overall_score(fs)) == 'F',
{
}

proof fn lemma_has_rule_push(fs: Seq<FindingView>, f: FindingView, id: Seq<char>)
    ensures
        has_rule(fs, id) ==> has_rule(fs.push(f), id),
{
    if has_rule(fs, id) {
        let i = choose|i: int| 0 <= i < fs.len() && (#[trigger] fs[i]).rule_id == id;
        assert(fs.push(f)[i] == fs[i]);
    }
}

/// One more finding never raises the score: it costs at least one point,
/// and it can only take a bonus away.
pub proof fn law_finding_never_raises_score(fs: Seq<FindingView>, f: FindingView)
    ensures
        overall_score(fs.push(f)) <= overall_score(fs),
{
    assert(fs.push(f).drop_last() =~= fs);
    lemma_has_rule_push(fs, f, "R-03"@);
    lemma_has_rule_push(fs, f, "S-05"@);
    assert(penalty_total(fs.push(f)) == penalty_total(fs) + f.severity.penalty());
}

proof fn lemma_of_severity_kind(fs: Seq<FindingView>, sev: Severity)
    ensures
        forall|i: int| 0 <= i < of_severity(fs, sev).len() ==> (#[trigger] of_severity(fs, sev)[i]).severity == sev,
        of_severity(fs, sev).len() == count_of(fs, sev),
    decreases fs.len(),
{
    if fs.len() > 0 {
        lemma_of_severity_kind(fs.drop_last(), sev);
    }
}

/// The top findings are at most five, each Critical or High.
pub proof fn law_top_findings(fs: Seq<FindingView>)
    ensures
        top_spec(fs).len() <= 5,
        forall|i: int|
            0 <= i < top_spec(fs).len() ==> (#[trigger] top_spec(fs)[i]).severity == Severity::Critical
                || top_spec(fs)[i].severity == Severity::High,
{
    lemma_of_severity_kind(fs, Severity::Critical);
    lemma_of_severity_kind(fs, Severity::High);
    let a = of_severity(fs, Severity::Critical);
    let all = a + of_severity(fs, Severity::High);
    assert forall|i: int| 0 <= i < all.len() implies (#[trigger] all[i]).severity == Severity::Critical
        || all[i].severity == Severity::High by {
        if i >= a.len() {
            assert(all[i] == of_severity(fs, Severity::High)[i - a.len()]);
        }
    }
}

/// The breakdown counts every finding exactly once.
pub proof fn law_breakdown_counts_all(fs: Seq<FindingView>)
    ensures
        count_of(fs, Severity::Critical) + count_of(fs, Severity::High) + count_of(fs, Severity::Medium) + count_of(
            fs,
            Severity::Low,
        ) + count_of(fs, Severity::Info) == fs.len(),
    decreases fs.len(),
{
    if fs.len() > 0 {
        law_breakdown_counts_all(fs.drop_last());
    }
}

proof fn lemma_penalty_remove(s: Seq<FindingView>, k: int)
    requires
        0 <= k < s.len(),
    ensures
        penalty_total(s) == penalty_total(s.remove(k)) + s[k].severity.penalty(),
    decreases s.len(),
{
    if k == s.len() - 1 {
        assert(s.remove(k) =~= s.drop_last());
    } else {
        assert(s.remove(k).drop_last() =~= s.drop_last().remove(k));
        assert(s.remove(k).last() == s.last());
        lemma_penalty_remove(s.drop_last(), k);
    }
}

proof fn lemma_penalty_permutation(a: Seq<FindingView>, b: Seq<FindingView>)
    requires
        a.to_multiset() == b.to_multiset(),
    ensures
        penalty_total(a) == penalty_total(b),
    decreases a.len(),
{
    broadcast use vstd::seq_lib::group_to_multiset_ensures;

    if a.len() == 0 {
        assert(b.to_multiset().len() == 0);
    } else {
        let x = a.last();
        assert(a.drop_last().push(x) =~= a);
        assert(a.to_multiset().count(x) > 0) by {
            assert(a.contains(x)) by { assert(a[a.len() - 1] == x); }
        }
        assert(b.contains(x));
        let k = choose|k: int| 0 <= k < b.len() && b[k] == x;
        assert(b.remove(k).to_multiset() == b.to_multiset().remove(x));
        assert(a.drop_last().to_multiset() =~= a.to_multiset().remove(x));
        lemma_penalty_permutation(a.drop_last(), b.remove(k));
        lemma_penalty_remove(b, k);
    }
}

proof fn lemma_has_rule_permutation(a: Seq<FindingView>, b: Seq<FindingView>, id: Seq<char>)
    requires
        a.to_multiset() == b.to_multiset(),
    ensures
        has_rule(a, id) ==> has_rule(b, id),
{
    broadcast use vstd::seq_lib::group_to_multiset_ensures;

    if has_rule(a, id) {
        let i = choose|i: int| 0 <= i < a.len() && (#[trigger] a[i]).rule_id == id;
        assert(a.contains(a[i]));
        assert(a.to_multiset().count(a[i]) > 0);
        assert(b.to_multiset().count(a[i]) > 0);
        assert(b.contains(a[i]));
        let j = choose|j: int| 0 <= j < b.len() && b[j] == a[i];
        assert(b[j].rule_id == id);
    }
}

/// The score does not depend on the order of the findings: any
/// rearrangement of the same findings scores the same.
pub proof fn law_score_order_independent(fs: Seq<FindingView>, p: Seq<FindingView>)
    requires
        p.to_multiset() == fs.to_multiset(),
    ensures
        overall_score(p) == overall_score(fs),
{
    lemma_penalty_permutation(p, fs);
    lemma_has_rule_permutation(p, fs, "R-03"@);
    lemma_has_rule_permutation(fs, p, "R-03"@);
    lemma_has_rule_permutation(p, fs, "S-05"@);
    lemma_has_rule_permutation(fs, p, "S-05"@);
}

} // verus!
