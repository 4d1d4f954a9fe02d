//! Findings, severities and reports.
pub mod finding;
pub mod output;
pub mod severity;

use vstd::prelude::*;

use crate::report::finding::{Finding, FindingView};
use crate::scoring::{calculate_score, generate_summary, summary_spec, SecurityScore};
use crate::sorted::{lemma_lex_asymmetric, lemma_lex_irreflexive, lemma_lex_total, lemma_lex_transitive, lex_lt, str_lt};
use crate::text::copy_str;

verus! {

/// The analysis of one contract: its findings, their score and a summary.
pub struct Report {
    pub contract_name: String,
    pub source_file: String,
    pub findings: Vec<Finding>,
    pub score: SecurityScore,
    pub summary: String,
}

impl Report {
    /// The findings of the report as values.
    pub open spec fn finding_views(self) -> Seq<FindingView> {
        self.findings.deep_view()
    }

    /// The report's score and summary are those of its findings.
    pub open spec fn consistent(self) -> bool {
        &&& self.score.scores(self.finding_views())
        &&& self.summary@ == summary_spec(self.score)
    }

    /// A report on `contract_name` in `source_file` with the given findings and
    /// score; the summary is the score's.
    pub fn new(contract_name: &str, source_file: &str, findings: Vec<Finding>, score: SecurityScore) -> (r: Report)
        ensures
            r.contract_name@ == contract_name@,
            r.source_file@ == source_file@,
            r.findings.deep_view() == findings.deep_view(),
            r.score == score,
            r.summary@ == summary_spec(score),
    {
        let summary = generate_summary(&score);
        Report {
            contract_name: copy_str(contract_name),
            source_file: copy_str(source_file),
            findings,
            score,
            summary,
        }
    }

    /// Adds a finding; the score and summary are computed again.
    pub fn add_finding(&mut self, finding: Finding)
        ensures
            final(self).contract_name@ == old(self).contract_name@,
            final(self).source_file@ == old(self).source_file@,
            final(self).finding_views() == old(self).finding_views().push(finding.deep_view()),
            final(self).consistent(),
    {
        let ghost fv = finding.deep_view();
        let ghost before = self.findings.deep_view();
        self.findings.push(finding);
        assert(self.findings.deep_view() =~= before.push(fv));
        let score = calculate_score(self.findings.as_slice());
        assert(self.findings@.map_values(|f: Finding| f.deep_view()) =~= self.findings.deep_view());
        self.summary = generate_summary(&score);
        self.score = score;
    }

    /// The report has no finding.
    pub fn is_empty(&self) -> (r: bool)
        ensures
            r == (self.findings@.len() == 0),
    {
        self.findings.len() == 0
    }
}

impl Default for Report {
    fn default() -> (r: Self)
        ensures
            r.contract_name@.len() == 0,
            r.source_file@.len() == 0,
            r.findings@.len() == 0,
            r.consistent(),
    {
        let findings: Vec<Finding> = Vec::new();
        proof { reveal_strlit(""); }
        let score = calculate_score(findings.as_slice());
        assert(findings@.map_values(|f: Finding| f.deep_view()) =~= findings.deep_view());
        Report::new("", "", findings, score)
    }
}

/// The file a report is about, as the order of reports goes.
pub open spec fn file_key(r: Report) -> Seq<char> {
    r.source_file@
}

/// The reports are ordered by file name (lexicographically, ties allowed).
pub open spec fn ordered_by_file(s: Seq<Report>) -> bool {
    forall|i: int, j: int| 0 <= i < j < s.len() ==> !lex_lt(file_key(#[trigger] s[j]), file_key(#[trigger] s[i]))
}

/// `out` is `inp` reordered by `perm` (`out[k]` is `inp[perm[k]]`), ordered
/// by file name, and reports of the same file keep their order.
pub open spec fn stable_order_of(out: Seq<Report>, inp: Seq<Report>, perm: Seq<int>) -> bool {
    &&& out.len() == inp.len()
    &&& perm.len() == out.len()
    &&& forall|k: int| 0 <= k < out.len() ==> 0 <= #[trigger] perm[k] < inp.len() && out[k] == inp[perm[k]]
    &&& forall|a: int, b: int| 0 <= a < b < out.len() ==> #[trigger] perm[a] != #[trigger] perm[b]
    &&& ordered_by_file(out)
    &&& forall|a: int, b: int|
        0 <= a < b < out.len() && file_key(#[trigger] out[a]) == file_key(#[trigger] out[b]) ==> perm[a] < perm[b]
}

/// Orders reports by file name, keeping the order of reports of the same file.
pub fn sort_by_source_file(reports: Vec<Report>) -> (r: Vec<Report>)
    ensures
        exists|perm: Seq<int>| #[trigger] stable_order_of(r@, reports@, perm),
{
    let ghost inp = reports@;
    let total = reports.len();
    let mut rest = reports;
    let mut out: Vec<Report> = Vec::new();
    let ghost mut perm: Seq<int> = seq![];
    let mut i: usize = 0;
    assert(inp.skip(0) =~= inp);
    while rest.len() > 0
        invariant
            i <= inp.len(),
            inp.len() == total,
            rest@ == inp.skip(i as int),
            out@.len() == i,
            perm.len() == i,
            forall|k: int| 0 <= k < i ==> 0 <= #[trigger] perm[k] < i && out@[k] == inp[perm[k]],
            forall|a: int, b: int| 0 <= a < b < i ==> #[trigger] perm[a] != #[trigger] perm[b],
            ordered_by_file(out@),
            forall|a: int, b: int|
                0 <= a < b < i && file_key(#[trigger] out@[a]) == file_key(#[trigger] out@[b]) ==> perm[a] < perm[b],
        decreases rest@.len(),
    {
        assert(i < inp.len());
        let x = rest.remove(0);
        assert(x == inp[i as int]);
        assert(rest@ =~= inp.skip(i + 1));
        let n = out.len();
        let mut p: usize = 0;
        while p < n && !str_lt(x.source_file.as_str(), out[p].source_file.as_str())
            invariant
                p <= n,
                n == out@.len(),
                forall|j: int| 0 <= j < p ==> !lex_lt(file_key(x), #[trigger] file_key(out@[j])),
            decreases n - p,
        {
            p = p + 1;
        }
        let ghost old_out = out@;
        proof {
            assert forall|j: int| p <= j < n implies lex_lt(file_key(x), #[trigger] file_key(old_out[j])) by {
                assert(lex_lt(file_key(x), file_key(old_out[p as int])));
                if j > p {
                    let (kp, kj) = (file_key(old_out[p as int]), file_key(old_out[j]));
                    assert(!lex_lt(kj, kp));
                    if kp != kj {
                        lemma_lex_total(kp, kj);
                        lemma_lex_transitive(file_key(x), kp, kj);
                    }
                }
            }
        }
        out.insert(p, x);
        proof {
            let np = perm.insert(p as int, i as int);
            let o = out@;
            assert(o == old_out.insert(p as int, x));
            assert forall|k: int| 0 <= k < i + 1 implies 0 <= #[trigger] np[k] < i + 1 && o[k] == inp[np[k]] by {
                if k < p {
                    assert(np[k] == perm[k]);
                } else if k > p {
                    assert(np[k] == perm[k - 1]);
                }
            }
            assert forall|a: int, b: int| 0 <= a < b < i + 1 implies #[trigger] np[a] != #[trigger] np[b] by {
                if a < p && b > p {
                    assert(np[b] == perm[b - 1]);
                } else if a > p {
                    assert(np[a] == perm[a - 1] && np[b] == perm[b - 1]);
                } else if b < p {
                } else if a == p {
                    assert(np[b] == perm[b - 1]);
                } else {
                    assert(np[a] == perm[a]);
                }
            }
            assert forall|a: int, b: int| 0 <= a < b < o.len() implies !lex_lt(file_key(#[trigger] o[b]), file_key(#[trigger] o[a])) by {
                if a < p && b == p {
                } else if a == p && b > p {
                    assert(o[b] == old_out[b - 1]);
                    lemma_lex_asymmetric(file_key(x), file_key(old_out[b - 1]));
                } else if a < p && b > p {
                    assert(o[b] == old_out[b - 1]);
                } else if a > p {
                    assert(o[a] == old_out[a - 1] && o[b] == old_out[b - 1]);
                }
            }
            assert forall|a: int, b: int|
                0 <= a < b < i + 1 && file_key(#[trigger] o[a]) == file_key(#[trigger] o[b]) implies np[a] < np[b] by {
                if a < p && b == p {
                    assert(np[b] == i);
                } else if a == p && b > p {
                    assert(o[b] == old_out[b - 1]);
                    lemma_lex_irreflexive(file_key(x));
                } else if a < p && b > p {
                    assert(np[b] == perm[b - 1]);
                } else if a > p {
                    assert(np[a] == perm[a - 1] && np[b] == perm[b - 1]);
                    assert(o[a] == old_out[a - 1] && o[b] == old_out[b - 1]);
                }
            }
            perm = np;
        }
        i = i + 1;
    }
    assert(stable_order_of(out@, inp, perm));
    out
}

} // verus!
