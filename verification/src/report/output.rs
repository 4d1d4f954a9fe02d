//! Reports over several contracts, severity filtering and the SARIF log.
use colored::Colorize;
use vstd::prelude::*;

use super::finding::{Finding, FindingView};
use super::severity::Severity;
use super::Report;
use crate::config::MinSeverity;
use crate::parser::ast::SourcePos;
use crate::scoring::{calculate_score, copy_findings, count_of, generate_summary, summary_spec, SecurityScore};
use crate::text::{
    all_digits, cat, cat_char, copy_str, decimal, decimal_string, digit_char, digit_value, digits_value, has_infix, has_prefix, has_suffix, parse_i64, parse_i64_spec,
    same_text, split_chars, split_spec, starts_with_str, string_of, trim_chars, trim_spec,
};

verus! {

/// The name of the tool.
pub const TOOL_NAME: &'static str = "soroban-guard";

/// The version of the tool.
pub const TOOL_VERSION: &'static str = "0.1.0";

/// The analysis of all contracts of a run.
pub struct ConsolidatedReport {
    pub tool: String,
    pub version: String,
    pub reports: Vec<ReportEntry>,
    pub total_score: SecurityScore,
    pub all_findings: Vec<Finding>,
    pub summary: String,
}

/// One contract's part of a [`ConsolidatedReport`].
pub struct ReportEntry {
    pub contract: String,
    pub file: String,
    pub score: SecurityScore,
    pub findings: Vec<Finding>,
}

// ---------------------------------------------------------------------------
// Specification
// ---------------------------------------------------------------------------
/// Two scores agree in every part.
pub open spec fn same_score(a: SecurityScore, b: SecurityScore) -> bool {
    &&& a.overall == b.overall
    &&& a.grade == b.grade
    &&& a.breakdown == b.breakdown
    &&& a.top_findings.deep_view() == b.top_findings.deep_view()
}

/// The findings of all reports, one report after the other.
pub open spec fn all_findings_spec(reports: Seq<Report>) -> Seq<FindingView>
    decreases reports.len(),
{
    if reports.len() == 0 {
        seq![]
    } else {
        all_findings_spec(reports.drop_last()) + reports.last().findings.deep_view()
    }
}

/// The entry stands for the report.
pub open spec fn entry_of(e: ReportEntry, r: Report) -> bool {
    &&& e.contract@ == r.contract_name@
    &&& e.file@ == r.source_file@
    &&& same_score(e.score, r.score)
    &&& e.findings.deep_view() == r.findings.deep_view()
}

/// The findings of `fs` at least as severe as `min`, in order.
pub open spec fn at_least_spec(fs: Seq<FindingView>, min: Severity) -> Seq<FindingView>
    decreases fs.len(),
{
    if fs.len() == 0 {
        seq![]
    } else {
        at_least_spec(fs.drop_last(), min) + if fs.last().severity.rank() >= min.rank() {
            seq![fs.last()]
        } else {
            seq![]
        }
    }
}

/// The SARIF level of a severity.
pub open spec fn sarif_level(s: Severity) -> Seq<char> {
    match s {
        Severity::Critical => "error"@,
        Severity::High => "error"@,
        Severity::Medium => "warning"@,
        Severity::Low => "note"@,
        Severity::Info => "none"@,
    }
}

/// The number a location piece stands for; 0 when it is not an `i64`.
pub open spec fn number_or_zero(p: Seq<char>) -> int {
    match parse_i64_spec(p) {
        Some(v) => v,
        None => 0,
    }
}

/// The line and column of a location `name:line:col`: the last two pieces
/// between colons, when there are at least three pieces; `(0, 0)` otherwise.
pub open spec fn location_spec(location: Seq<char>) -> (int, int) {
    let parts = split_spec(location, ':');
    if parts.len() >= 3 {
        (number_or_zero(parts[parts.len() - 2]), number_or_zero(parts[parts.len() - 1]))
    } else {
        (0, 0)
    }
}

// ---------------------------------------------------------------------------
// Implementation
// ---------------------------------------------------------------------------
impl ReportEntry {
    /// A copy of this entry.
    pub fn duplicate(&self) -> (r: ReportEntry)
        ensures
            r.contract@ == self.contract@,
            r.file@ == self.file@,
            same_score(r.score, self.score),
            r.findings.deep_view() == self.findings.deep_view(),
    {
        let findings = copy_findings(self.findings.as_slice());
        assert(self.findings@.map_values(|f: Finding| f.deep_view()) =~= self.findings.deep_view());
        ReportEntry {
            contract: self.contract.clone(),
            file: self.file.clone(),
            score: self.score.duplicate(),
            findings,
        }
    }
}

impl ConsolidatedReport {
    /// Gathers the reports of a run: one entry per report, all findings in
    /// report order, and their common score and summary.
    pub fn new(reports: &[Report]) -> (r: ConsolidatedReport)
        ensures
            r.tool@ == TOOL_NAME@,
            r.version@ == TOOL_VERSION@,
            r.reports@.len() == reports@.len(),
            forall|i: int| 0 <= i < reports@.len() ==> entry_of(#[trigger] r.reports@[i], reports@[i]),
            r.all_findings.deep_view() == all_findings_spec(reports@),
            r.total_score.scores(all_findings_spec(reports@)),
            r.summary@ == summary_spec(r.total_score),
    {
        let mut all: Vec<Finding> = Vec::new();
        let mut entries: Vec<ReportEntry> = Vec::new();
        let mut i: usize = 0;
        assert(reports@.take(0) =~= Seq::<Report>::empty());
        while i < reports.len()
            invariant
                i <= reports@.len(),
                all.deep_view() == all_findings_spec(reports@.take(i as int)),
                entries@.len() == i,
                forall|j: int| 0 <= j < i ==> entry_of(#[trigger] entries@[j], reports@[j]),
            decreases reports@.len() - i,
        {
            let r = &reports[i];
            assert(reports@.take(i + 1).drop_last() =~= reports@.take(i as int));
            let mut j: usize = 0;
            let ghost before = all.deep_view();
            while j < r.findings.len()
                invariant
                    j <= r.findings@.len(),
                    all.deep_view() == before + r.findings.deep_view().take(j as int),
                decreases r.findings@.len() - j,
            {
                let ghost prev = all.deep_view();
                all.push(r.findings[j].duplicate());
                assert(all.deep_view() =~= prev.push(r.findings@[j as int].deep_view()));
                assert(r.findings.deep_view().take(j + 1) =~= r.findings.deep_view().take(j as int).push(
                    r.findings@[j as int].deep_view(),
                ));
                j = j + 1;
            }
            assert(r.findings.deep_view().take(j as int) =~= r.findings.deep_view());
            let findings = copy_findings(r.findings.as_slice());
            assert(r.findings@.map_values(|f: Finding| f.deep_view()) =~= r.findings.deep_view());
            let entry = ReportEntry {
                contract: r.contract_name.clone(),
                file: r.source_file.clone(),
                score: r.score.duplicate(),
                findings,
            };
            entries.push(entry);
            i = i + 1;
        }
        assert(reports@.take(i as int) =~= reports@);
        let total_score = calculate_score(all.as_slice());
        assert(all@.map_values(|f: Finding| f.deep_view()) =~= all.deep_view());
        let summary = generate_summary(&total_score);
        ConsolidatedReport {
            tool: copy_str(TOOL_NAME),
            version: copy_str(TOOL_VERSION),
            reports: entries,
            total_score,
            all_findings: all,
            summary,
        }
    }
}

/// The findings at least as severe as `min_severity`, in order.
pub fn filter_by_severity(findings: &[Finding], min_severity: &Severity) -> (r: Vec<Finding>)
    ensures
        r.deep_view() == at_least_spec(findings@.map_values(|f: Finding| f.deep_view()), *min_severity),
{
    let ghost v = findings@.map_values(|f: Finding| f.deep_view());
    let mut out: Vec<Finding> = Vec::new();
    let mut i: usize = 0;
    assert(v.take(0) =~= Seq::<FindingView>::empty());
    while i < findings.len()
        invariant
            i <= findings@.len(),
            v == findings@.map_values(|f: Finding| f.deep_view()),
            out.deep_view() == at_least_spec(v.take(i as int), *min_severity),
        decreases findings@.len() - i,
    {
        assert(v.take(i + 1).drop_last() =~= v.take(i as int));
        if findings[i].severity.at_least(min_severity) {
            let ghost prev = out.deep_view();
            out.push(findings[i].duplicate());
            assert(out.deep_view() =~= prev.push(v[i as int]));
        } else {
            assert(at_least_spec(v.take(i + 1), *min_severity) =~= at_least_spec(v.take(i as int), *min_severity));
        }
        i = i + 1;
    }
    assert(v.take(i as int) =~= v);
    out
}

/// The SARIF level of a severity.
pub fn sarif_severity(severity: &Severity) -> (r: &'static str)
    ensures
        r@ == sarif_level(*severity),
{
    match severity {
        Severity::Critical => "error",
        Severity::High => "error",
        Severity::Medium => "warning",
        Severity::Low => "note",
        Severity::Info => "none",
    }
}

/// The line and column of a location `name:line:col`; `(0, 0)` when it has
/// fewer than three pieces, and 0 for a piece that is not a number.
pub fn parse_location(location: &str) -> (r: (i64, i64))
    ensures
        (r.0 as int, r.1 as int) == location_spec(location@),
{
    let parts = split_chars(location, ':');
    let ghost ps = parts@.map_values(|v: Vec<char>| v@);
    let n = parts.len();
    if n >= 3 {
        assert(ps[n - 2] == parts@[n - 2]@);
        assert(ps[n - 1] == parts@[n - 1]@);
        let a = string_of(parts[n - 2].as_slice());
        let b = string_of(parts[n - 1].as_slice());
        let line = match parse_i64(a.as_str()) {
            Some(v) => v,
            None => 0,
        };
        let col = match parse_i64(b.as_str()) {
            Some(v) => v,
            None => 0,
        };
        (line, col)
    } else {
        (0, 0)
    }
}

// ---------------------------------------------------------------------------
// SARIF
// ---------------------------------------------------------------------------
/// The SARIF schema version written.
pub const SARIF_VERSION: &'static str = "2.1.0";

/// The address the SARIF driver gives for the tool.
pub const TOOL_URI: &'static str = "https://github.com/Soroban-Guard/Core";

/// A SARIF log with one run.
pub struct SarifLog {
    pub version: String,
    pub schema: String,
    pub runs: Vec<SarifRun>,
}

/// One SARIF run: the tool, and one result per finding.
pub struct SarifRun {
    pub tool: SarifTool,
    pub results: Vec<SarifResult>,
    pub properties: Option<SarifProperties>,
}

/// The tool of a run.
pub struct SarifTool {
    pub driver: SarifDriver,
}

/// The tool's driver, with the rules its results refer to.
pub struct SarifDriver {
    pub name: String,
    pub version: String,
    pub information_uri: String,
    pub rules: Vec<SarifRule>,
}

/// A rule, described by the first finding that reported it.
pub struct SarifRule {
    pub id: String,
    pub name: String,
    pub short_description: SarifMessage,
    pub full_description: SarifMessage,
    pub default_configuration: SarifConfiguration,
    pub properties: Option<SarifProperties>,
}

/// A rule's level.
pub struct SarifConfiguration {
    pub level: String,
}

/// A text.
pub struct SarifMessage {
    pub text: String,
}

/// One finding as a SARIF result.
pub struct SarifResult {
    pub rule_id: String,
    pub rule_index: i64,
    pub level: String,
    pub message: SarifMessage,
    pub locations: Vec<SarifLocation>,
    pub properties: Option<SarifProperties>,
}

/// Where a result is.
pub struct SarifLocation {
    pub physical_location: SarifPhysicalLocation,
}

/// A file and a region in it.
pub struct SarifPhysicalLocation {
    pub artifact_location: SarifArtifactLocation,
    pub region: SarifRegion,
}

/// A file.
pub struct SarifArtifactLocation {
    pub uri: String,
}

/// A line and column.
pub struct SarifRegion {
    pub start_line: i64,
    pub start_column: i64,
}

/// Tags.
pub struct SarifProperties {
    pub tags: Vec<String>,
}

/// A severity's name in lower case.
pub open spec fn lower_name(s: Severity) -> Seq<char> {
    match s {
        Severity::Critical => "critical"@,
        Severity::High => "high"@,
        Severity::Medium => "medium"@,
        Severity::Low => "low"@,
        Severity::Info => "info"@,
    }
}

/// Every finding of the entries with its entry's file, entry by entry.
pub open spec fn sarif_items(entries: Seq<ReportEntry>) -> Seq<(Seq<char>, FindingView)>
    decreases entries.len(),
{
    if entries.len() == 0 {
        seq![]
    } else {
        sarif_items(entries.drop_last()) + entries.last().findings.deep_view().map_values(
            |f: FindingView| (entries.last().file@, f),
        )
    }
}

/// The first finding of each rule id among the items, in order of first appearance.
pub open spec fn sarif_rule_findings(items: Seq<(Seq<char>, FindingView)>) -> Seq<FindingView>
    decreases items.len(),
{
    if items.len() == 0 {
        seq![]
    } else {
        let known = sarif_rule_findings(items.drop_last());
        if known.map_values(|f: FindingView| f.rule_id).contains(items.last().1.rule_id) {
            known
        } else {
            known.push(items.last().1)
        }
    }
}

/// The rule describes the finding.
pub open spec fn rule_describes(r: SarifRule, f: FindingView) -> bool {
    &&& r.id@ == f.rule_id
    &&& r.name@ == f.rule_id + "-"@ + f.severity.name()
    &&& r.short_description.text@ == f.message
    &&& r.full_description.text@ == f.suggestion
    &&& r.default_configuration.level@ == sarif_level(f.severity)
    &&& r.properties matches Some(p) && p.tags@.len() == 1 && p.tags@[0]@ == lower_name(f.severity)
}

/// The result reports the finding `f` of `file`, pointing at the rule `index`.
pub open spec fn result_reports(r: SarifResult, file: Seq<char>, f: FindingView, index: int) -> bool {
    &&& r.rule_id@ == f.rule_id
    &&& r.rule_index as int == index
    &&& r.level@ == sarif_level(f.severity)
    &&& r.message.text@ == f.message
    &&& r.locations@.len() == 1
    &&& r.locations@[0].physical_location.artifact_location.uri@ == file
    &&& (r.locations@[0].physical_location.region.start_line as int,
        r.locations@[0].physical_location.region.start_column as int) == location_spec(f.location)
    &&& r.properties is None
}

/// The position of the first `id` in `ids` (`ids.len()` where there is none).
pub open spec fn position_in(ids: Seq<Seq<char>>, id: Seq<char>) -> int
    decreases ids.len(),
{
    if ids.len() == 0 || ids[0] == id {
        0
    } else {
        1 + position_in(ids.drop_first(), id)
    }
}

/// The rule index the result for item `i` carries: the position of the rule
/// with the item's rule id.
pub open spec fn sarif_index(items: Seq<(Seq<char>, FindingView)>, i: int) -> int {
    position_in(sarif_rule_findings(items.take(i + 1)).map_values(|f: FindingView| f.rule_id), items[i].1.rule_id)
}

/// The log describes the report: its rules are the first finding of each
/// rule id and its results are every finding, in order.
pub open spec fn sarif_describes(log: SarifLog, c: ConsolidatedReport) -> bool {
    let items = sarif_items(c.reports@);
    let rules = sarif_rule_findings(items);
    &&& log.version@ == SARIF_VERSION@
    &&& log.schema@ == "$schema"@
    &&& log.runs@.len() == 1
    &&& log.runs@[0].properties is None
    &&& log.runs@[0].tool.driver.name@ == TOOL_NAME@
    &&& log.runs@[0].tool.driver.version@ == TOOL_VERSION@
    &&& log.runs@[0].tool.driver.information_uri@ == TOOL_URI@
    &&& log.runs@[0].tool.driver.rules@.len() == rules.len()
    &&& forall|k: int| 0 <= k < rules.len() ==> rule_describes(#[trigger] log.runs@[0].tool.driver.rules@[k], rules[k])
    &&& log.runs@[0].results@.len() == items.len()
    &&& forall|k: int|
        0 <= k < items.len() ==> result_reports(
            #[trigger] log.runs@[0].results@[k],
            items[k].0,
            items[k].1,
            sarif_index(items, k),
        )
}

/// A severity's name in lower case.
pub fn severity_tag(s: &Severity) -> (r: &'static str)
    ensures
        r@ == lower_name(*s),
{
    match s {
        Severity::Critical => "critical",
        Severity::High => "high",
        Severity::Medium => "medium",
        Severity::Low => "low",
        Severity::Info => "info",
    }
}

/// The SARIF rule a finding describes.
fn rule_of(f: &Finding) -> (r: SarifRule)
    ensures
        rule_describes(r, f.deep_view()),
{
    let name = cat(cat(copy_str(f.rule_id.as_str()), "-"), f.severity.as_str());
    let mut tags: Vec<String> = Vec::new();
    tags.push(copy_str(severity_tag(&f.severity)));
    SarifRule {
        id: copy_str(f.rule_id.as_str()),
        name,
        short_description: SarifMessage { text: copy_str(f.message.as_str()) },
        full_description: SarifMessage { text: copy_str(f.suggestion.as_str()) },
        default_configuration: SarifConfiguration { level: copy_str(sarif_severity(&f.severity)) },
        properties: Some(SarifProperties { tags }),
    }
}

/// The position of the first rule with the id (`rules.len()` where there is none).
fn rule_position(rules: &Vec<SarifRule>, id: &str) -> (r: usize)
    ensures
        r <= rules@.len(),
        r as int == position_in(rules@.map_values(|x: SarifRule| x.id@), id@),
        r < rules@.len() <==> rules@.map_values(|x: SarifRule| x.id@).contains(id@),
{
    let ghost ids = rules@.map_values(|x: SarifRule| x.id@);
    let mut i: usize = 0;
    while i < rules.len()
        invariant
            i <= rules@.len(),
            ids == rules@.map_values(|x: SarifRule| x.id@),
            forall|j: int| 0 <= j < i ==> ids[j] != id@,
        decreases rules@.len() - i,
    {
        if same_text(rules[i].id.as_str(), id) {
            assert(ids[i as int] == id@);
            proof { lemma_position_in(ids, id@, i as int); }
            return i;
        }
        i = i + 1;
    }
    proof { lemma_position_in(ids, id@, i as int); }
    i
}

/// The first `id` in `ids` is at `k` when none comes before `k` and `k` holds
/// one or is the end.
proof fn lemma_position_in(ids: Seq<Seq<char>>, id: Seq<char>, k: int)
    requires
        0 <= k <= ids.len(),
        forall|j: int| 0 <= j < k ==> ids[j] != id,
        k < ids.len() ==> ids[k] == id,
    ensures
        position_in(ids, id) == k,
    decreases k,
{
    if k > 0 {
        assert(ids[0] != id);
        assert forall|j: int| 0 <= j < k - 1 implies ids.drop_first()[j] != id by {
            assert(ids.drop_first()[j] == ids[j + 1]);
        }
        if k < ids.len() {
            assert(ids.drop_first()[k - 1] == ids[k]);
        }
        lemma_position_in(ids.drop_first(), id, k - 1);
    }
}

/// The SARIF log of a report.
pub fn sarif_log(consolidated: &ConsolidatedReport) -> (r: SarifLog)
    requires
        sarif_items(consolidated.reports@).len() < i64::MAX,
    ensures
        sarif_describes(r, *consolidated),
{
    let ghost entries = consolidated.reports@;
    let mut rules: Vec<SarifRule> = Vec::new();
    let mut results: Vec<SarifResult> = Vec::new();
    let mut e: usize = 0;
    assert(entries.take(0) =~= Seq::<ReportEntry>::empty());
    while e < consolidated.reports.len()
        invariant
            e <= entries.len(),
            entries == consolidated.reports@,
            sarif_items(entries).len() < i64::MAX,
            ({
                let items = sarif_items(entries.take(e as int));
                let known = sarif_rule_findings(items);
                &&& rules@.len() == known.len()
                &&& forall|k: int| 0 <= k < known.len() ==> rule_describes(#[trigger] rules@[k], known[k])
                &&& rules@.map_values(|x: SarifRule| x.id@) == known.map_values(|f: FindingView| f.rule_id)
                &&& results@.len() == items.len()
                &&& forall|k: int|
                    0 <= k < items.len() ==> result_reports(
                        #[trigger] results@[k],
                        items[k].0,
                        items[k].1,
                        sarif_index(items, k),
                    )
            }),
        decreases entries.len() - e,
    {
        let entry = &consolidated.reports[e];
        let ghost done = sarif_items(entries.take(e as int));
        let ghost fs = entry.findings.deep_view();
        let ghost mine = fs.map_values(|f: FindingView| (entry.file@, f));
        assert(entries.take(e + 1).drop_last() =~= entries.take(e as int));
        assert(sarif_items(entries.take(e + 1)) == done + mine);
        proof { lemma_items_prefix(entries, e as int + 1); }
        let mut j: usize = 0;
        assert(mine.take(0) =~= Seq::<(Seq<char>, FindingView)>::empty());
        assert(done + mine.take(0) =~= done);
        while j < entry.findings.len()
            invariant
                j <= fs.len(),
                fs == entry.findings.deep_view(),
                mine == fs.map_values(|f: FindingView| (entry.file@, f)),
                done.len() + mine.len() <= sarif_items(entries).len(),
                sarif_items(entries).len() < i64::MAX,
                ({
                    let items = done + mine.take(j as int);
                    let known = sarif_rule_findings(items);
                    &&& rules@.len() == known.len()
                    &&& forall|k: int| 0 <= k < known.len() ==> rule_describes(#[trigger] rules@[k], known[k])
                    &&& rules@.map_values(|x: SarifRule| x.id@) == known.map_values(|f: FindingView| f.rule_id)
                    &&& results@.len() == items.len()
                    &&& forall|k: int|
                        0 <= k < items.len() ==> result_reports(
                            #[trigger] results@[k],
                            items[k].0,
                            items[k].1,
                            sarif_index(items, k),
                        )
                }),
            decreases fs.len() - j,
        {
            let f = &entry.findings[j];
            let ghost items = done + mine.take(j as int);
            let ghost items2 = done + mine.take(j + 1);
            assert(items2 =~= items.push((entry.file@, f.deep_view())));
            assert(items2.drop_last() =~= items);
            let ghost known = sarif_rule_findings(items);
            let pos = rule_position(&rules, f.rule_id.as_str());
            if pos == rules.len() {
                let ghost before = rules@;
                rules.push(rule_of(f));
                assert(rules@.map_values(|x: SarifRule| x.id@) =~= before.map_values(|x: SarifRule| x.id@).push(f.rule_id@));
                assert(known.push(f.deep_view()).map_values(|g: FindingView| g.rule_id)
                    =~= known.map_values(|g: FindingView| g.rule_id).push(f.rule_id@));
                proof {
                    let ids2 = rules@.map_values(|x: SarifRule| x.id@);
                    assert forall|j: int| 0 <= j < pos implies ids2[j] != f.rule_id@ by {
                        assert(ids2[j] == before.map_values(|x: SarifRule| x.id@)[j]);
                        assert(before.map_values(|x: SarifRule| x.id@).contains(ids2[j]));
                    }
                    lemma_position_in(ids2, f.rule_id@, pos as int);
                }
            } else {
                assert(known.map_values(|g: FindingView| g.rule_id).contains(f.rule_id@));
            }
            let ghost known2 = sarif_rule_findings(items2);
            assert(rules@.len() == known2.len());
            assert(pos as int == position_in(known2.map_values(|g: FindingView| g.rule_id), f.rule_id@));
            proof { lemma_rules_len(items2); }
            let (line, col) = parse_location(f.location.as_str());
            let index: i64 = pos as i64;
            let mut locations: Vec<SarifLocation> = Vec::new();
            locations.push(SarifLocation {
                physical_location: SarifPhysicalLocation {
                    artifact_location: SarifArtifactLocation { uri: copy_str(entry.file.as_str()) },
                    region: SarifRegion { start_line: line, start_column: col },
                },
            });
            let result = SarifResult {
                rule_id: copy_str(f.rule_id.as_str()),
                rule_index: index,
                level: copy_str(sarif_severity(&f.severity)),
                message: SarifMessage { text: copy_str(f.message.as_str()) },
                locations,
                properties: None,
            };
            assert(items2.take(items.len() as int + 1) =~= items2);
            assert(result_reports(result, items2[items.len() as int].0, items2[items.len() as int].1, sarif_index(items2, items.len() as int)));
            results.push(result);
            assert forall|k: int| 0 <= k < items.len() implies sarif_index(items2, k) == sarif_index(items, k) by {
                assert(items2.take(k + 1) =~= items.take(k + 1));
            }
            assert forall|k: int| 0 <= k < items2.len() implies result_reports(
                #[trigger] results@[k],
                items2[k].0,
                items2[k].1,
                sarif_index(items2, k),
            ) by {
                if k < items.len() {
                    assert(items2[k] == items[k]);
                }
            }
            j = j + 1;
        }
        assert(mine.take(j as int) =~= mine);
        e = e + 1;
    }
    assert(entries.take(e as int) =~= entries);
    let driver = SarifDriver {
        name: copy_str(TOOL_NAME),
        version: copy_str(TOOL_VERSION),
        information_uri: copy_str(TOOL_URI),
        rules,
    };
    let mut runs: Vec<SarifRun> = Vec::new();
    runs.push(SarifRun { tool: SarifTool { driver }, results, properties: None });
    proof { reveal_strlit("$schema"); }
    SarifLog { version: copy_str(SARIF_VERSION), schema: copy_str("$schema"), runs }
}

/// There are no more rules than items, and at least one when there is an item.
proof fn lemma_rules_len(items: Seq<(Seq<char>, FindingView)>)
    ensures
        sarif_rule_findings(items).len() <= items.len(),
        items.len() > 0 ==> sarif_rule_findings(items).len() > 0,
    decreases items.len(),
{
    if items.len() > 0 {
        lemma_rules_len(items.drop_last());
        let known = sarif_rule_findings(items.drop_last());
        if known.map_values(|f: FindingView| f.rule_id).contains(items.last().1.rule_id) {
            assert(known.len() > 0);
        }
    }
}

/// The items of a prefix of the entries are no more than those of all entries.
proof fn lemma_items_prefix(entries: Seq<ReportEntry>, n: int)
    requires
        0 <= n <= entries.len(),
    ensures
        sarif_items(entries.take(n)).len() <= sarif_items(entries).len(),
    decreases entries.len() - n,
{
    if n < entries.len() {
        lemma_items_prefix(entries, n + 1);
        assert(entries.take(n + 1).drop_last() =~= entries.take(n));
    } else {
        assert(entries.take(n) =~= entries);
    }
}

// ---------------------------------------------------------------------------
// Terminal styling
// ---------------------------------------------------------------------------
/// The escape sequence that ends a terminal style.
pub open spec fn style_reset() -> Seq<char> {
    seq!['\x1B', '[', '0', 'm']
}

/// The escape sequence that starts the terminal style with the given codes.
pub open spec fn style_start(code: Seq<char>) -> Seq<char> {
    seq!['\x1B', '['] + code + seq!['m']
}

/// `r` is `s` as `colored` prints it with the style `code`: unchanged when
/// colouring is off, otherwise between the style's start and a reset (the
/// text itself unchanged unless it holds a reset of its own).
pub open spec fn styled(r: Seq<char>, s: Seq<char>, code: Seq<char>) -> bool {
    ||| r == s
    ||| {
        &&& has_prefix(r, style_start(code))
        &&& has_suffix(r, style_reset())
        &&& !has_infix(s, style_reset()) ==> r == style_start(code) + s + style_reset()
    }
}

/// Bold and underlined text.
///
/// Trusted: calls `colored`'s `bold` and `underline` and prints the result.
/// Whether `colored` colours depends on the environment and the terminal,
/// so only what holds either way is stated: the text is unchanged, or
/// wrapped in the start of style `1;4` and a reset.
#[verifier::external_body]
fn paint_bold_underline(s: &str) -> (r: String)
    ensures
        styled(r@, s@, "1;4"@),
{
    s.bold().underline().to_string()
}

/// Bold text.
///
/// Trusted: calls `colored`'s `bold` and prints the result; either the text
/// unchanged or wrapped in the start of style `1` and a reset.
#[verifier::external_body]
fn paint_bold(s: &str) -> (r: String)
    ensures
        styled(r@, s@, "1"@),
{
    s.bold().to_string()
}

/// Red bold text.
///
/// Trusted: calls `colored`'s `red` and `bold` and prints the result; either
/// the text unchanged or wrapped in the start of style `1;31` and a reset.
#[verifier::external_body]
fn paint_red_bold(s: &str) -> (r: String)
    ensures
        styled(r@, s@, "1;31"@),
{
    s.red().bold().to_string()
}

/// Red text.
///
/// Trusted: calls `colored`'s `red` and prints the result; either the text
/// unchanged or wrapped in the start of style `31` and a reset.
#[verifier::external_body]
fn paint_red(s: &str) -> (r: String)
    ensures
        styled(r@, s@, "31"@),
{
    s.red().to_string()
}

/// Yellow text.
///
/// Trusted: calls `colored`'s `yellow` and prints the result; either the text
/// unchanged or wrapped in the start of style `33` and a reset.
#[verifier::external_body]
fn paint_yellow(s: &str) -> (r: String)
    ensures
        styled(r@, s@, "33"@),
{
    s.yellow().to_string()
}

/// Cyan text.
///
/// Trusted: calls `colored`'s `cyan` and prints the result; either the text
/// unchanged or wrapped in the start of style `36` and a reset.
#[verifier::external_body]
fn paint_cyan(s: &str) -> (r: String)
    ensures
        styled(r@, s@, "36"@),
{
    s.cyan().to_string()
}

/// Text in the terminal's normal style.
///
/// Trusted: calls `colored`'s `normal`, which clears every style, and prints
/// the result; a string without style prints as the text itself.
#[verifier::external_body]
fn paint_normal(s: &str) -> (r: String)
    ensures
        r@ == s@,
{
    s.normal().to_string()
}

// ---------------------------------------------------------------------------
// The human-readable report
// ---------------------------------------------------------------------------
/// The styled pieces of a human-readable report: the title and its rule,
/// one label per severity (Critical first), each entry's file and each
/// finding's rule id.
pub struct HumanPaint {
    pub title: String,
    pub rule: String,
    pub labels: Vec<String>,
    pub files: Vec<String>,
    pub rule_ids: Vec<Vec<String>>,
}

/// The severities in the order the report lists them.
pub open spec fn severity_order() -> Seq<Severity> {
    seq![Severity::Critical, Severity::High, Severity::Medium, Severity::Low, Severity::Info]
}

impl HumanPaint {
    /// The pieces have the shape of the report `c`.
    pub open spec fn shaped_for(self, c: ConsolidatedReport) -> bool {
        &&& self.labels@.len() == 5
        &&& self.files@.len() == c.reports@.len()
        &&& self.rule_ids@.len() == c.reports@.len()
        &&& forall|i: int| 0 <= i < c.reports@.len() ==> (#[trigger] self.rule_ids@[i])@.len() == c.reports@[i].findings@.len()
    }

    /// The pieces are the texts of the report `c` in the report's styles.
    pub open spec fn fits(self, c: ConsolidatedReport) -> bool {
        &&& self.shaped_for(c)
        &&& styled(self.title@, "Soroban Guard Report"@, "1;4"@)
        &&& styled(self.rule@, "===================="@, "1"@)
        &&& styled(self.labels@[0]@, "CRITICAL"@, "1;31"@)
        &&& styled(self.labels@[1]@, "HIGH"@, "31"@)
        &&& styled(self.labels@[2]@, "MEDIUM"@, "33"@)
        &&& self.labels@[3]@ == "LOW"@
        &&& styled(self.labels@[4]@, "INFO"@, "36"@)
        &&& forall|i: int| 0 <= i < c.reports@.len() ==> styled((#[trigger] self.files@[i])@, c.reports@[i].file@, "1"@)
        &&& forall|i: int, k: int|
            0 <= i < c.reports@.len() && 0 <= k < c.reports@[i].findings@.len() ==> styled(
                (#[trigger] self.rule_ids@[i]@[k])@,
                c.reports@[i].findings@[k].rule_id@,
                "1"@,
            )
    }
}

/// The lines of the findings of `fs` with severity `sev`, each under its
/// (styled) rule id from `ids`.
pub open spec fn finding_lines(fs: Seq<FindingView>, ids: Seq<Seq<char>>, sev: Severity) -> Seq<char>
    decreases fs.len(),
{
    if fs.len() == 0 {
        seq![]
    } else {
        let f = fs.last();
        finding_lines(fs.drop_last(), ids.drop_last(), sev) + if f.severity == sev {
            "  ["@ + ids.last() + "] "@ + f.message + "\n     Location: "@ + f.location + "\n     Suggestion: "@
                + f.suggestion + "\n\n"@
        } else {
            seq![]
        }
    }
}

/// The block of severity `sev`: its label and its findings, when it has any.
pub open spec fn severity_block(fs: Seq<FindingView>, ids: Seq<Seq<char>>, label: Seq<char>, sev: Severity) -> Seq<char> {
    if count_of(fs, sev) == 0 {
        seq![]
    } else {
        label + ":\n"@ + finding_lines(fs, ids, sev)
    }
}

/// The blocks of the severities `sevs`, in order.
pub open spec fn severity_blocks(fs: Seq<FindingView>, ids: Seq<Seq<char>>, labels: Seq<Seq<char>>, sevs: Seq<Severity>) -> Seq<char>
    decreases sevs.len(),
{
    if sevs.len() == 0 {
        seq![]
    } else {
        severity_blocks(fs, ids, labels.drop_last(), sevs.drop_last()) + severity_block(fs, ids, labels.last(), sevs.last())
    }
}

/// The text of one entry.
pub open spec fn entry_text(e: ReportEntry, file: Seq<char>, ids: Seq<Seq<char>>, labels: Seq<Seq<char>>) -> Seq<char> {
    "File: "@ + file + "\nScore: "@ + decimal(e.score.overall as nat) + "/100 (Grade "@ + seq![e.score.grade] + ")\n\n"@
        + severity_blocks(e.findings.deep_view(), ids, labels, severity_order())
}

/// The texts of the entries, in order.
pub open spec fn entries_text(es: Seq<ReportEntry>, files: Seq<Seq<char>>, ids: Seq<Seq<Seq<char>>>, labels: Seq<Seq<char>>) -> Seq<char>
    decreases es.len(),
{
    if es.len() == 0 {
        seq![]
    } else {
        entries_text(es.drop_last(), files.drop_last(), ids.drop_last(), labels) + entry_text(es.last(), files.last(), ids.last(), labels)
    }
}

/// The human-readable report of `c` with the styled pieces `p`.
pub open spec fn human_spec(c: ConsolidatedReport, p: HumanPaint) -> Seq<char> {
    p.title@ + "\n"@ + p.rule@ + "\n\n"@ + c.summary@ + "\nTotal files analyzed: "@ + decimal(c.reports@.len())
        + "\n\n"@ + entries_text(c.reports@, p.files.deep_view(), p.rule_ids.deep_view(), p.labels.deep_view())
}

/// The severity at position `k` of the report's order.
fn severity_at(k: usize) -> (r: Severity)
    requires
        k < 5,
    ensures
        r == severity_order()[k as int],
{
    if k == 0 {
        Severity::Critical
    } else if k == 1 {
        Severity::High
    } else if k == 2 {
        Severity::Medium
    } else if k == 3 {
        Severity::Low
    } else {
        Severity::Info
    }
}

/// Whether a finding of severity `sev` is among `fs`.
fn has_severity(fs: &Vec<Finding>, sev: Severity) -> (r: bool)
    ensures
        r == (count_of(fs.deep_view(), sev) > 0),
{
    let ghost v = fs.deep_view();
    let mut i: usize = 0;
    assert(v.take(0) =~= Seq::<FindingView>::empty());
    while i < fs.len()
        invariant
            i <= fs@.len(),
            v == fs.deep_view(),
            count_of(v.take(i as int), sev) == 0,
        decreases fs@.len() - i,
    {
        assert(v.take(i + 1).drop_last() =~= v.take(i as int));
        if fs[i].severity == sev {
            proof { lemma_count_grows(v, i as int + 1, sev); }
            return true;
        }
        i = i + 1;
    }
    assert(v.take(i as int) =~= v);
    false
}

/// A longer prefix never has fewer findings of a severity.
proof fn lemma_count_grows(fs: Seq<FindingView>, j: int, sev: Severity)
    requires
        0 <= j <= fs.len(),
    ensures
        count_of(fs.take(j), sev) <= count_of(fs, sev),
    decreases fs.len() - j,
{
    if j < fs.len() {
        lemma_count_grows(fs, j + 1, sev);
        assert(fs.take(j + 1).drop_last() =~= fs.take(j));
    } else {
        assert(fs.take(j) =~= fs);
    }
}

/// The lines of the findings of severity `sev`.
fn finding_lines_text(fs: &Vec<Finding>, ids: &Vec<String>, sev: Severity) -> (r: String)
    requires
        ids@.len() == fs@.len(),
    ensures
        r@ == finding_lines(fs.deep_view(), ids.deep_view(), sev),
{
    let ghost v = fs.deep_view();
    let ghost w = ids.deep_view();
    let mut out = String::new();
    let mut k: usize = 0;
    assert(v.take(0) =~= Seq::<FindingView>::empty());
    while k < fs.len()
        invariant
            k <= fs@.len(),
            ids@.len() == fs@.len(),
            v == fs.deep_view(),
            w == ids.deep_view(),
            out@ == finding_lines(v.take(k as int), w.take(k as int), sev),
        decreases fs@.len() - k,
    {
        assert(v.take(k + 1).drop_last() =~= v.take(k as int));
        assert(w.take(k + 1).drop_last() =~= w.take(k as int));
        let f = &fs[k];
        if f.severity == sev {
            let ghost before = out@;
            let s = cat(out, "  [");
            let s = cat(s, ids[k].as_str());
            let s = cat(s, "] ");
            let s = cat(s, f.message.as_str());
            let s = cat(s, "\n     Location: ");
            let s = cat(s, f.location.as_str());
            let s = cat(s, "\n     Suggestion: ");
            let s = cat(s, f.suggestion.as_str());
            out = cat(s, "\n\n");
            assert(out@ =~= before + ("  ["@ + w[k as int] + "] "@ + v[k as int].message + "\n     Location: "@
                + v[k as int].location + "\n     Suggestion: "@ + v[k as int].suggestion + "\n\n"@));
        } else {
            assert(finding_lines(v.take(k + 1), w.take(k + 1), sev) =~= finding_lines(v.take(k as int), w.take(k as int), sev));
        }
        k = k + 1;
    }
    assert(v.take(k as int) =~= v);
    assert(w.take(k as int) =~= w);
    out
}

/// The text of one entry with its styled file name, rule ids and labels.
fn entry_layout(e: &ReportEntry, file: &str, ids: &Vec<String>, labels: &Vec<String>) -> (r: String)
    requires
        ids@.len() == e.findings@.len(),
        labels@.len() == 5,
    ensures
        r@ == entry_text(*e, file@, ids.deep_view(), labels.deep_view()),
{
    let ghost lv = labels.deep_view();
    let ghost order = severity_order();
    let s = cat(copy_str("File: "), file);
    let s = cat(s, "\nScore: ");
    let s = cat(s, decimal_string(e.score.overall as usize).as_str());
    let s = cat(s, "/100 (Grade ");
    let s = cat_char(s, e.score.grade);
    let mut out = cat(s, ")\n\n");
    let ghost head = out@;
    let mut k: usize = 0;
    assert(lv.take(0) =~= Seq::<Seq<char>>::empty());
    assert(order.take(0) =~= Seq::<Severity>::empty());
    assert(head + severity_blocks(e.findings.deep_view(), ids.deep_view(), lv.take(0), order.take(0)) =~= head);
    while k < 5
        invariant
            k <= 5,
            labels@.len() == 5,
            ids@.len() == e.findings@.len(),
            lv == labels.deep_view(),
            order == severity_order(),
            out@ == head + severity_blocks(e.findings.deep_view(), ids.deep_view(), lv.take(k as int), order.take(k as int)),
        decreases 5 - k,
    {
        let sev = severity_at(k);
        assert(lv.take(k + 1).drop_last() =~= lv.take(k as int));
        assert(order.take(k + 1).drop_last() =~= order.take(k as int));
        assert(lv.take(k + 1).last() == labels@[k as int]@);
        let ghost before = out@;
        if has_severity(&e.findings, sev) {
            let s = cat(out, labels[k].as_str());
            let s = cat(s, ":\n");
            let lines = finding_lines_text(&e.findings, ids, sev);
            out = cat(s, lines.as_str());
            assert(out@ =~= before + (labels@[k as int]@ + ":\n"@ + finding_lines(e.findings.deep_view(), ids.deep_view(), sev)));
        } else {
            assert(out@ =~= before + severity_block(e.findings.deep_view(), ids.deep_view(), labels@[k as int]@, sev));
        }
        k = k + 1;
    }
    assert(lv.take(5) =~= lv);
    assert(order.take(5) =~= order);
    assert(out@ =~= entry_text(*e, file@, ids.deep_view(), labels.deep_view()));
    out
}

/// Lays the report out as text with the given styled pieces.
pub fn human_layout(c: &ConsolidatedReport, p: &HumanPaint) -> (r: String)
    requires
        p.shaped_for(*c),
    ensures
        r@ == human_spec(*c, *p),
{
    let ghost es = c.reports@;
    let ghost files = p.files.deep_view();
    let ghost ids = p.rule_ids.deep_view();
    let ghost labels = p.labels.deep_view();
    let s = cat(copy_str(p.title.as_str()), "\n");
    let s = cat(s, p.rule.as_str());
    let s = cat(s, "\n\n");
    let s = cat(s, c.summary.as_str());
    let s = cat(s, "\nTotal files analyzed: ");
    let s = cat(s, decimal_string(c.reports.len()).as_str());
    let mut out = cat(s, "\n\n");
    let ghost head = out@;
    let mut i: usize = 0;
    assert(es.take(0) =~= Seq::<ReportEntry>::empty());
    assert(head + entries_text(es.take(0), files.take(0), ids.take(0), labels) =~= head);
    while i < c.reports.len()
        invariant
            i <= es.len(),
            es == c.reports@,
            p.shaped_for(*c),
            files == p.files.deep_view(),
            ids == p.rule_ids.deep_view(),
            labels == p.labels.deep_view(),
            out@ == head + entries_text(es.take(i as int), files.take(i as int), ids.take(i as int), labels),
        decreases es.len() - i,
    {
        assert(es.take(i + 1).drop_last() =~= es.take(i as int));
        assert(files.take(i + 1).drop_last() =~= files.take(i as int));
        assert(ids.take(i + 1).drop_last() =~= ids.take(i as int));
        assert(p.rule_ids@[i as int]@.len() == c.reports@[i as int].findings@.len());
        let ghost before = out@;
        let text = entry_layout(&c.reports[i], p.files[i].as_str(), &p.rule_ids[i], &p.labels);
        out = cat(out, text.as_str());
        assert(out@ =~= before + entry_text(es[i as int], files[i as int], ids[i as int], labels));
        i = i + 1;
    }
    assert(es.take(i as int) =~= es);
    assert(files.take(i as int) =~= files);
    assert(ids.take(i as int) =~= ids);
    assert(out@ =~= human_spec(*c, *p));
    out
}

/// Styles the pieces of the report `c`.
pub fn paint_report(c: &ConsolidatedReport) -> (r: HumanPaint)
    ensures
        r.fits(*c),
{
    let mut labels: Vec<String> = Vec::new();
    labels.push(paint_red_bold("CRITICAL"));
    labels.push(paint_red("HIGH"));
    labels.push(paint_yellow("MEDIUM"));
    labels.push(paint_normal("LOW"));
    labels.push(paint_cyan("INFO"));
    let mut files: Vec<String> = Vec::new();
    let mut rule_ids: Vec<Vec<String>> = Vec::new();
    let mut i: usize = 0;
    while i < c.reports.len()
        invariant
            i <= c.reports@.len(),
            files@.len() == i,
            rule_ids@.len() == i,
            forall|a: int| 0 <= a < i ==> styled((#[trigger] files@[a])@, c.reports@[a].file@, "1"@),
            forall|a: int| 0 <= a < i ==> (#[trigger] rule_ids@[a])@.len() == c.reports@[a].findings@.len(),
            forall|a: int, k: int|
                0 <= a < i && 0 <= k < c.reports@[a].findings@.len() ==> styled(
                    (#[trigger] rule_ids@[a]@[k])@,
                    c.reports@[a].findings@[k].rule_id@,
                    "1"@,
                ),
        decreases c.reports@.len() - i,
    {
        let e = &c.reports[i];
        files.push(paint_bold(e.file.as_str()));
        let mut ids: Vec<String> = Vec::new();
        let mut k: usize = 0;
        while k < e.findings.len()
            invariant
                k <= e.findings@.len(),
                ids@.len() == k,
                forall|b: int| 0 <= b < k ==> styled((#[trigger] ids@[b])@, e.findings@[b].rule_id@, "1"@),
            decreases e.findings@.len() - k,
        {
            ids.push(paint_bold(e.findings[k].rule_id.as_str()));
            k = k + 1;
        }
        rule_ids.push(ids);
        i = i + 1;
    }
    HumanPaint {
        title: paint_bold_underline("Soroban Guard Report"),
        rule: paint_bold("===================="),
        labels,
        files,
        rule_ids,
    }
}

/// The human-readable report: title, summary, then each file with its score
/// and its findings grouped by severity (Critical first).  Colouring depends
/// on the terminal, so the text is stated for the styled pieces it used.
pub fn format_human(consolidated: &ConsolidatedReport) -> (r: String)
    ensures
        exists|p: HumanPaint| #[trigger] p.fits(*consolidated) && r@ == human_spec(*consolidated, p),
{
    let p = paint_report(consolidated);
    let r = human_layout(consolidated, &p);
    assert(p.fits(*consolidated) && r@ == human_spec(*consolidated, p));
    r
}

// ---------------------------------------------------------------------------
// Choosing the contract files
// ---------------------------------------------------------------------------
/// Whether `glob::Pattern::new` accepts a pattern.
pub uninterp spec fn glob_valid(pattern: Seq<char>) -> bool;

/// Whether a glob pattern matches a path (`glob::Pattern::matches`).
pub uninterp spec fn glob_match(pattern: Seq<char>, path: Seq<char>) -> bool;

/// Whether a glob pattern compiles.
///
/// Trusted: calls `glob::Pattern::new`, whose success depends on the
/// pattern's text alone (path separators being those of the platform the
/// tool is built for); it is named `glob_valid`.
#[verifier::external_body]
fn glob_compiles(pattern: &str) -> (r: bool)
    ensures
        r == glob_valid(pattern@),
{
    glob::Pattern::new(pattern).is_ok()
}

/// Whether a glob pattern matches a path.
///
/// Trusted: compiles the pattern with `glob::Pattern::new` and calls
/// `Pattern::matches` on the path with the default options; the answer
/// depends on the two texts alone (path separators being those of the
/// platform the tool is built for) and is named `glob_match`.  A pattern
/// that compiles does not make `matches` panic.
#[verifier::external_body]
fn glob_matches(pattern: &str, path: &str) -> (r: bool)
    requires
        glob_valid(pattern@),
    ensures
        r == glob_match(pattern@, path@),
{
    match glob::Pattern::new(pattern) {
        Ok(p) => p.matches(path),
        Err(_) => false,
    }
}

/// The exclusion globs of a comma-separated list: each piece trimmed, the
/// pieces `glob` does not accept left out.
pub open spec fn valid_globs(pieces: Seq<Seq<char>>) -> Seq<Seq<char>>
    decreases pieces.len(),
{
    if pieces.len() == 0 {
        seq![]
    } else {
        let t = trim_spec(pieces.last());
        valid_globs(pieces.drop_last()) + if glob_valid(t) { seq![t] } else { seq![] }
    }
}

/// The exclusion globs of an optional comma-separated list.
pub open spec fn exclude_globs(exclude: Option<Seq<char>>) -> Seq<Seq<char>> {
    match exclude {
        Some(e) => valid_globs(split_spec(e, ',')),
        None => seq![],
    }
}

/// The exclusion globs of an optional comma-separated list.
pub fn exclude_patterns(exclude: Option<&str>) -> (r: Vec<String>)
    ensures
        r.deep_view() == exclude_globs(match exclude { Some(e) => Some(e@), None => None }),
        forall|k: int| 0 <= k < r@.len() ==> glob_valid(#[trigger] r@[k]@),
{
    let mut out: Vec<String> = Vec::new();
    match exclude {
        None => {
            assert(out.deep_view() =~= Seq::<Seq<char>>::empty());
            out
        },
        Some(e) => {
            let pieces = split_chars(e, ',');
            let ghost ps = pieces@.map_values(|v: Vec<char>| v@);
            let mut i: usize = 0;
            assert(ps.take(0) =~= Seq::<Seq<char>>::empty());
            while i < pieces.len()
                invariant
                    i <= pieces@.len(),
                    ps == pieces@.map_values(|v: Vec<char>| v@),
                    out.deep_view() == valid_globs(ps.take(i as int)),
                    forall|k: int| 0 <= k < out@.len() ==> glob_valid(#[trigger] out@[k]@),
                decreases pieces@.len() - i,
            {
                assert(ps.take(i + 1).drop_last() =~= ps.take(i as int));
                let t = trim_chars(pieces[i].as_slice());
                let text = string_of(t.as_slice());
                if glob_compiles(text.as_str()) {
                    let ghost before = out.deep_view();
                    out.push(text);
                    assert(out.deep_view() =~= before.push(trim_spec(ps[i as int])));
                } else {
                    assert(valid_globs(ps.take(i + 1)) =~= valid_globs(ps.take(i as int)));
                }
                i = i + 1;
            }
            assert(ps.take(i as int) =~= ps);
            out
        },
    }
}

/// Some glob of `globs` matches the path.
pub open spec fn excluded_by(globs: Seq<Seq<char>>, path: Seq<char>) -> bool {
    exists|k: int| 0 <= k < globs.len() && glob_match(#[trigger] globs[k], path)
}

/// The paths among `paths`, in order, that no glob of `globs` matches.
pub open spec fn kept_paths(paths: Seq<Seq<char>>, globs: Seq<Seq<char>>) -> Seq<Seq<char>>
    decreases paths.len(),
{
    if paths.len() == 0 {
        seq![]
    } else {
        kept_paths(paths.drop_last(), globs) + if excluded_by(globs, paths.last()) { seq![] } else { seq![paths.last()] }
    }
}

/// Whether one of the globs matches the path.
fn matches_any(globs: &Vec<String>, path: &str) -> (r: bool)
    requires
        forall|k: int| 0 <= k < globs@.len() ==> glob_valid(#[trigger] globs@[k]@),
    ensures
        r == excluded_by(globs.deep_view(), path@),
{
    let ghost g = globs.deep_view();
    let mut k: usize = 0;
    while k < globs.len()
        invariant
            k <= globs@.len(),
            g == globs.deep_view(),
            forall|j: int| 0 <= j < globs@.len() ==> glob_valid(#[trigger] globs@[j]@),
            forall|j: int| 0 <= j < k ==> !glob_match(#[trigger] g[j], path@),
        decreases globs@.len() - k,
    {
        assert(g[k as int] == globs@[k as int]@);
        if glob_matches(globs[k].as_str(), path) {
            return true;
        }
        k = k + 1;
    }
    false
}

/// The candidate files, in order, that none of the exclusion globs of the
/// comma-separated list `exclude` matches.
pub fn select_contract_files(candidates: &[String], exclude: Option<&str>) -> (r: Vec<String>)
    ensures
        r.deep_view() == kept_paths(
            candidates@.map_values(|s: String| s@),
            exclude_globs(match exclude { Some(e) => Some(e@), None => None }),
        ),
{
    let globs = exclude_patterns(exclude);
    let ghost g = globs.deep_view();
    let ghost ps = candidates@.map_values(|s: String| s@);
    let mut out: Vec<String> = Vec::new();
    let mut i: usize = 0;
    assert(ps.take(0) =~= Seq::<Seq<char>>::empty());
    while i < candidates.len()
        invariant
            i <= candidates@.len(),
            ps == candidates@.map_values(|s: String| s@),
            g == globs.deep_view(),
            forall|k: int| 0 <= k < globs@.len() ==> glob_valid(#[trigger] globs@[k]@),
            out.deep_view() == kept_paths(ps.take(i as int), g),
        decreases candidates@.len() - i,
    {
        assert(ps.take(i + 1).drop_last() =~= ps.take(i as int));
        if !matches_any(&globs, candidates[i].as_str()) {
            let ghost before = out.deep_view();
            out.push(copy_str(candidates[i].as_str()));
            assert(out.deep_view() =~= before.push(ps[i as int]));
        } else {
            assert(kept_paths(ps.take(i + 1), g) =~= kept_paths(ps.take(i as int), g));
        }
        i = i + 1;
    }
    assert(ps.take(i as int) =~= ps);
    out
}

/// A hidden file or directory: its name starts with a dot.
pub fn is_hidden_name(name: Option<&str>) -> (r: bool)
    ensures
        r == (name matches Some(s) && s@.len() > 0 && s@[0] == '.'),
{
    match name {
        Some(s) => {
            proof { reveal_strlit("."); }
            let r = starts_with_str(s, ".");
            proof {
                assert("."@ =~= seq!['.']);
                if s@.len() > 0 {
                    assert(s@.subrange(0, 1) =~= seq![s@[0]]);
                    if s@[0] == '.' {
                        assert(s@.subrange(0, 1) =~= "."@);
                        assert(r);
                    } else {
                        assert(s@.subrange(0, 1)[0] != "."@[0]);
                        assert(!r);
                    }
                } else {
                    assert(!r);
                }
            }
            r
        },
        None => false,
    }
}

/// A Rust source file: its extension is `rs`.
pub fn is_rust_extension(ext: Option<&str>) -> (r: bool)
    ensures
        r == (ext matches Some(s) && s@ == "rs"@),
{
    match ext {
        Some(s) => same_text(s, "rs"),
        None => false,
    }
}

impl ConsolidatedReport {
    /// Keeps, in each entry and in the list of all findings, only those at
    /// least as severe as `min`; the minimum `Info` keeps everything
    /// untouched.  Scores and summary stay those of the whole run.
    pub fn keep_at_least(&mut self, min: MinSeverity)
        ensures
            final(self).tool == old(self).tool,
            final(self).version == old(self).version,
            final(self).summary == old(self).summary,
            final(self).total_score == old(self).total_score,
            final(self).reports@.len() == old(self).reports@.len(),
            min == MinSeverity::Info ==> *final(self) == *old(self),
            min != MinSeverity::Info ==> {
                &&& final(self).all_findings.deep_view() == at_least_spec(old(self).all_findings.deep_view(), min.severity())
                &&& forall|i: int|
                    0 <= i < old(self).reports@.len() ==> {
                        let e = old(self).reports@[i];
                        let e2 = #[trigger] final(self).reports@[i];
                        &&& e2.contract == e.contract
                        &&& e2.file == e.file
                        &&& e2.score == e.score
                        &&& e2.findings.deep_view() == at_least_spec(e.findings.deep_view(), min.severity())
                    }
            },
    {
        if min == MinSeverity::Info {
            return;
        }
        let sev = min.to_severity();
        let mut i: usize = 0;
        while i < self.reports.len()
            invariant
                i <= self.reports@.len(),
                self.reports@.len() == old(self).reports@.len(),
                self.tool == old(self).tool,
                self.version == old(self).version,
                self.summary == old(self).summary,
                self.total_score == old(self).total_score,
                self.all_findings == old(self).all_findings,
                sev == min.severity(),
                forall|j: int|
                    0 <= j < i ==> {
                        let e = old(self).reports@[j];
                        let e2 = #[trigger] self.reports@[j];
                        &&& e2.contract == e.contract
                        &&& e2.file == e.file
                        &&& e2.score == e.score
                        &&& e2.findings.deep_view() == at_least_spec(e.findings.deep_view(), min.severity())
                    },
                forall|j: int| i <= j < self.reports@.len() ==> #[trigger] self.reports@[j] == old(self).reports@[j],
            decreases self.reports@.len() - i,
        {
            let kept = filter_by_severity(self.reports[i].findings.as_slice(), &sev);
            assert(self.reports@[i as int].findings@.map_values(|f: Finding| f.deep_view())
                =~= self.reports@[i as int].findings.deep_view());
            self.reports[i].findings = kept;
            i = i + 1;
        }
        let all = filter_by_severity(self.all_findings.as_slice(), &sev);
        assert(self.all_findings@.map_values(|f: Finding| f.deep_view()) =~= self.all_findings.deep_view());
        self.all_findings = all;
    }

    /// The run fails a CI pipeline: some finding is Critical or High.
    pub fn fails_ci(&self) -> (r: bool)
        ensures
            r == (self.total_score.breakdown.critical > 0 || self.total_score.breakdown.high > 0),
    {
        self.total_score.breakdown.critical > 0 || self.total_score.breakdown.high > 0
    }
}

// ---------------------------------------------------------------------------
// Laws
// ---------------------------------------------------------------------------
/// Every finding kept is at least as severe as the threshold, none at least
/// as severe is dropped, and the order is kept.
pub proof fn law_filter_keeps_exactly_severe(fs: Seq<FindingView>, min: Severity)
    ensures
        forall|i: int| 0 <= i < at_least_spec(fs, min).len() ==> (#[trigger] at_least_spec(fs, min)[i]).severity.rank()
            >= min.rank(),
        at_least_spec(fs, min).len() + below_count(fs, min) == fs.len(),
    decreases fs.len(),
{
    if fs.len() > 0 {
        law_filter_keeps_exactly_severe(fs.drop_last(), min);
        let r = at_least_spec(fs.drop_last(), min);
        assert forall|i: int| 0 <= i < at_least_spec(fs, min).len() implies (#[trigger] at_least_spec(fs, min)[i]).severity.rank()
            >= min.rank() by {
            if i < r.len() {
                assert(at_least_spec(fs, min)[i] == r[i]);
            }
        }
    }
}

/// The number of findings of `fs` less severe than `min`.
pub open spec fn below_count(fs: Seq<FindingView>, min: Severity) -> nat
    decreases fs.len(),
{
    if fs.len() == 0 {
        0
    } else {
        below_count(fs.drop_last(), min) + if fs.last().severity.rank() >= min.rank() { 0nat } else { 1nat }
    }
}

/// Filtering twice by the same threshold is filtering once.
pub proof fn law_filter_idempotent(fs: Seq<FindingView>, min: Severity)
    ensures
        at_least_spec(at_least_spec(fs, min), min) == at_least_spec(fs, min),
    decreases fs.len(),
{
    if fs.len() > 0 {
        law_filter_idempotent(fs.drop_last(), min);
        let r = at_least_spec(fs.drop_last(), min);
        if fs.last().severity.rank() >= min.rank() {
            assert(r.push(fs.last()).drop_last() =~= r);
            assert(at_least_spec(fs, min) =~= r.push(fs.last()));
        } else {
            assert(at_least_spec(fs, min) =~= r);
        }
    }
}

/// The threshold `Info` keeps every finding.
pub proof fn law_filter_info_keeps_all(fs: Seq<FindingView>)
    ensures
        at_least_spec(fs, Severity::Info) == fs,
    decreases fs.len(),
{
    if fs.len() > 0 {
        law_filter_info_keeps_all(fs.drop_last());
        assert(fs.drop_last().push(fs.last()) =~= fs);
    }
}

/// A piece without the separator after a separator becomes one more piece.
proof fn lemma_split_append(s: Seq<char>, t: Seq<char>, sep: char)
    requires
        forall|i: int| 0 <= i < t.len() ==> t[i] != sep,
    ensures
        split_spec(s + seq![sep] + t, sep) == split_spec(s, sep).push(t),
    decreases t.len(),
{
    if t.len() == 0 {
        assert(s + seq![sep] + t =~= s.push(sep));
        assert((s + seq![sep] + t).drop_last() =~= s);
        assert(t =~= Seq::<char>::empty());
    } else {
        let t1 = t.drop_last();
        assert forall|i: int| 0 <= i < t1.len() implies t1[i] != sep by {
            assert(t1[i] == t[i]);
        }
        lemma_split_append(s, t1, sep);
        let x = s + seq![sep] + t;
        assert(x.drop_last() =~= s + seq![sep] + t1);
        assert(x.last() == t[t.len() - 1]);
        assert(x.last() != sep);
        assert(t1.push(t.last()) =~= t);
        assert(split_spec(s, sep).push(t1).update(split_spec(s, sep).len() as int, t) =~= split_spec(s, sep).push(t));
    }
}

/// Splitting gives at least one piece.
proof fn lemma_split_nonempty(s: Seq<char>, sep: char)
    ensures
        split_spec(s, sep).len() >= 1,
    decreases s.len(),
{
    if s.len() > 0 {
        lemma_split_nonempty(s.drop_last(), sep);
    }
}

/// The value of a digit character.
proof fn lemma_digit_value(d: nat)
    requires
        d < 10,
    ensures
        digit_value(digit_char(d)) == Some(d),
{
}

/// The decimal rendering of `n` is digits worth `n`, none of them a sign.
proof fn lemma_decimal_digits(n: nat)
    ensures
        decimal(n).len() > 0,
        all_digits(decimal(n)),
        digits_value(decimal(n)) == n,
        decimal(n)[0] != '-' && decimal(n)[0] != '+' && decimal(n)[0] != ':',
        forall|i: int| 0 <= i < decimal(n).len() ==> decimal(n)[i] != ':',
    decreases n,
{
    if n < 10 {
        lemma_digit_value(n);
        assert(decimal(n) =~= seq![digit_char(n)]);
        assert(decimal(n).drop_last() =~= Seq::<char>::empty());
        assert(digits_value(decimal(n).drop_last()) == 0);
        assert(decimal(n).last() == digit_char(n));
        assert(digits_value(decimal(n)) == n);
    } else {
        lemma_decimal_digits(n / 10);
        lemma_digit_value(n % 10);
        let s = decimal(n);
        assert(s == decimal(n / 10).push(digit_char(n % 10)));
        assert(s.drop_last() =~= decimal(n / 10));
        assert((n / 10) * 10 + n % 10 == n) by (nonlinear_arith);
        assert(s.last() == digit_char(n % 10));
        assert(digits_value(s) == digits_value(decimal(n / 10)) * 10 + (n % 10));
        assert(digits_value(s) == n);
        assert forall|i: int| 0 <= i < s.len() implies (#[trigger] digit_value(s[i])) is Some by {
            if i < s.len() - 1 {
                assert(s[i] == decimal(n / 10)[i]);
            }
        }
        assert forall|i: int| 0 <= i < s.len() implies s[i] != ':' by {
            if i < s.len() - 1 {
                assert(s[i] == decimal(n / 10)[i]);
            }
        }
        assert(s[0] == decimal(n / 10)[0]);
    }
}

/// Parsing the decimal rendering of `n` gives `n` back.
proof fn lemma_parse_decimal(n: nat)
    requires
        n <= i64::MAX,
    ensures
        parse_i64_spec(decimal(n)) == Some(n as int),
{
    lemma_decimal_digits(n);
}

/// A location written by the rules (`name:line:col`) is read back by
/// [`parse_location`] as its line and column, whatever the name holds.
pub proof fn law_location_round_trip(name: Seq<char>, pos: SourcePos)
    requires
        pos.line != 0,
        pos.line <= i64::MAX,
        pos.column <= i64::MAX,
    ensures
        location_spec(crate::analysis::location_spec(name, pos)) == (pos.line as int, pos.column as int),
{
    reveal_strlit(":");
    let d1 = decimal(pos.line as nat);
    let d2 = decimal(pos.column as nat);
    lemma_decimal_digits(pos.line as nat);
    lemma_decimal_digits(pos.column as nat);
    lemma_parse_decimal(pos.line as nat);
    lemma_parse_decimal(pos.column as nat);
    let loc = crate::analysis::location_spec(name, pos);
    assert(loc =~= (name + seq![':'] + d1) + seq![':'] + d2);
    lemma_split_append(name, d1, ':');
    lemma_split_append(name + seq![':'] + d1, d2, ':');
    lemma_split_nonempty(name, ':');
    let parts = split_spec(loc, ':');
    assert(parts == split_spec(name, ':').push(d1).push(d2));
    assert(parts[parts.len() - 2] == d1);
    assert(parts[parts.len() - 1] == d2);
}

/// The SARIF rules have distinct ids.
pub proof fn law_sarif_rule_ids_distinct(items: Seq<(Seq<char>, FindingView)>)
    ensures
        forall|a: int, b: int|
            0 <= a < b < sarif_rule_findings(items).len() ==> (#[trigger] sarif_rule_findings(items)[a]).rule_id
                != (#[trigger] sarif_rule_findings(items)[b]).rule_id,
    decreases items.len(),
{
    if items.len() > 0 {
        law_sarif_rule_ids_distinct(items.drop_last());
        let known = sarif_rule_findings(items.drop_last());
        let ids = known.map_values(|f: FindingView| f.rule_id);
        if !ids.contains(items.last().1.rule_id) {
            let r = known.push(items.last().1);
            assert forall|a: int, b: int| 0 <= a < b < r.len() implies (#[trigger] r[a]).rule_id != (#[trigger] r[b]).rule_id by {
                if b == r.len() - 1 {
                    assert(ids[a] == known[a].rule_id);
                }
            }
        }
    }
}

/// The rules of a prefix of the items are a prefix of the rules of all of them.
proof fn lemma_rules_prefix(items: Seq<(Seq<char>, FindingView)>, n: int)
    requires
        0 <= n <= items.len(),
    ensures
        sarif_rule_findings(items.take(n)).len() <= sarif_rule_findings(items).len(),
        sarif_rule_findings(items.take(n)) == sarif_rule_findings(items).take(
            sarif_rule_findings(items.take(n)).len() as int,
        ),
    decreases items.len() - n,
{
    if n == items.len() {
        assert(items.take(n) =~= items);
        assert(sarif_rule_findings(items).take(sarif_rule_findings(items).len() as int) =~= sarif_rule_findings(items));
    } else {
        lemma_rules_prefix(items, n + 1);
        let small = sarif_rule_findings(items.take(n));
        let next = sarif_rule_findings(items.take(n + 1));
        let all = sarif_rule_findings(items);
        assert(items.take(n + 1).drop_last() =~= items.take(n));
        if next.len() == small.len() {
            assert(next == small);
        } else {
            assert(next == small.push(items[n].1));
            assert(small =~= next.take(small.len() as int));
            assert(all.take(small.len() as int) =~= all.take(next.len() as int).take(small.len() as int));
        }
    }
}

/// `id` at position `k` of `ids` puts the first `id` at or before `k`.
proof fn lemma_position_found(ids: Seq<Seq<char>>, id: Seq<char>, k: int)
    requires
        0 <= k < ids.len(),
        ids[k] == id,
    ensures
        0 <= position_in(ids, id) <= k,
        ids[position_in(ids, id)] == id,
    decreases k,
{
    if ids[0] != id {
        assert(ids.drop_first()[k - 1] == ids[k]);
        lemma_position_found(ids.drop_first(), id, k - 1);
        assert(ids[position_in(ids, id)] == ids.drop_first()[position_in(ids.drop_first(), id)]);
    }
}

/// Each SARIF result points at the rule with its own rule id.
pub proof fn law_sarif_index_names_own_rule(items: Seq<(Seq<char>, FindingView)>, k: int)
    requires
        0 <= k < items.len(),
    ensures
        0 <= sarif_index(items, k) < sarif_rule_findings(items).len(),
        sarif_rule_findings(items)[sarif_index(items, k)].rule_id == items[k].1.rule_id,
{
    let pre = items.take(k + 1);
    let known = sarif_rule_findings(pre);
    let ids = known.map_values(|f: FindingView| f.rule_id);
    let id = items[k].1.rule_id;
    assert(pre.drop_last() =~= items.take(k));
    assert(pre.last() == items[k]);
    let before = sarif_rule_findings(items.take(k));
    let bids = before.map_values(|f: FindingView| f.rule_id);
    if bids.contains(id) {
        let j = choose|j: int| 0 <= j < bids.len() && bids[j] == id;
        assert(known == before);
        assert(ids[j] == id);
        lemma_position_found(ids, id, j);
    } else {
        assert(known == before.push(items[k].1));
        assert(ids[known.len() - 1] == id);
        lemma_position_found(ids, id, known.len() - 1);
    }
    lemma_rules_prefix(items, k + 1);
    let all = sarif_rule_findings(items);
    let p = position_in(ids, id);
    assert(all[p] == known[p]);
}


/// Filtering at a threshold never keeps a finding whose severity comes
/// before the threshold in the order Info, Low, Medium, High, Critical, and
/// keeps every finding whose severity does not.
pub proof fn law_filter_follows_severity_order(fs: Seq<FindingView>, a: int, b: int)
    requires
        0 <= a < 5,
        0 <= b < 5,
    ensures
        ({
            let order = seq![Severity::Info, Severity::Low, Severity::Medium, Severity::High, Severity::Critical];
            let kept = at_least_spec(fs, order[b]);
            &&& a < b ==> forall|i: int| 0 <= i < kept.len() ==> (#[trigger] kept[i]).severity != order[a]
            &&& a >= b ==> forall|i: int|
                0 <= i < fs.len() && (#[trigger] fs[i]).severity == order[a] ==> kept.contains(fs[i])
        }),
    decreases fs.len(),
{
    let order = seq![Severity::Info, Severity::Low, Severity::Medium, Severity::High, Severity::Critical];
    crate::report::severity::law_severity_order();
    assert(forall|x: int, y: int| 0 <= x < y < 5 ==> order[x].rank() < order[y].rank());
    law_filter_keeps_exactly_severe(fs, order[b]);
    if fs.len() > 0 {
        law_filter_follows_severity_order(fs.drop_last(), a, b);
        let kept = at_least_spec(fs, order[b]);
        let prev = at_least_spec(fs.drop_last(), order[b]);
        if a >= b {
            assert forall|i: int| 0 <= i < fs.len() && (#[trigger] fs[i]).severity == order[a] implies kept.contains(fs[i]) by {
                if i < fs.len() - 1 {
                    assert(fs[i] == fs.drop_last()[i]);
                    let j = choose|j: int| 0 <= j < prev.len() && prev[j] == fs.drop_last()[i];
                    assert(kept[j] == prev[j]);
                } else {
                    assert(kept[kept.len() - 1] == fs.last());
                }
            }
        }
    }
}

} // verus!
