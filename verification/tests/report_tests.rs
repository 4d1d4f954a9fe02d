use soroban_guard_core::analysis::location;
use soroban_guard_core::error::SorobanGuardError;
use soroban_guard_core::parser::ast::{Contract, SourcePos};
use soroban_guard_core::report::output::{exclude_patterns, is_hidden_name, is_rust_extension, select_contract_files};
use soroban_guard_core::report::finding::Finding;
use soroban_guard_core::report::output::{
    filter_by_severity, format_human, human_layout, paint_report, parse_location, sarif_log, sarif_severity,
    ConsolidatedReport, HumanPaint,
};
use soroban_guard_core::report::severity::Severity;
use soroban_guard_core::report::{sort_by_source_file, Report};
use soroban_guard_core::scoring::{calculate_score, generate_summary, grade_for, ScoringEngine};
use soroban_guard_core::text::{parse_i64, parse_u128};

fn finding(sev: Severity, rule: &str, location: &str) -> Finding {
    Finding::new(sev, rule.to_string(), format!("{rule} happened"), location.to_string(), format!("fix {rule}"))
}

fn report(name: &str, file: &str, findings: Vec<Finding>) -> Report {
    let score = calculate_score(&findings);
    Report::new(name, file, findings, score)
}

#[test]
fn score_formula_and_grades() {
    let none: Vec<Finding> = vec![];
    let s = calculate_score(&none);
    assert_eq!(s.overall, 100);
    assert_eq!(s.grade, 'A');
    // Critical 30 + High 15 = 45, no R-03 and no S-05: +8 back.
    let fs = vec![finding(Severity::Critical, "R-01", "C"), finding(Severity::High, "O-01", "C")];
    let s = calculate_score(&fs);
    assert_eq!(s.overall, 63);
    assert_eq!(s.grade, 'C');
    assert_eq!(s.breakdown.critical, 1);
    assert_eq!(s.breakdown.high, 1);
    assert_eq!(s.top_findings.len(), 2);
    assert_eq!(s.top_findings[0].rule_id, "R-01");
    // R-03 and S-05 present: no bonus.
    let fs = vec![finding(Severity::Low, "R-03", "C"), finding(Severity::Info, "S-05", "C")];
    assert_eq!(calculate_score(&fs).overall, 96);
    // Saturates at zero.
    let many: Vec<Finding> = (0..5).map(|_| finding(Severity::Critical, "A-01", "C")).collect();
    assert_eq!(calculate_score(&many).overall, 0);
    assert_eq!(calculate_score(&many).grade, 'F');
    assert_eq!(ScoringEngine::new().calculate_score(&fs), 96);
    assert_eq!(ScoringEngine.calculate_score(&many), 0);
    // One Info finding costs a point, and both bonuses give it back.
    let one = vec![finding(Severity::Info, "A-04", "C")];
    assert_eq!(ScoringEngine::new().calculate_score(&one), 100);
    // 100 - 15 - 7 + 3 (no S-05), in either order.
    let two = vec![finding(Severity::High, "R-03", "C"), finding(Severity::Medium, "A-01", "C")];
    let owt = vec![finding(Severity::Medium, "A-01", "C"), finding(Severity::High, "R-03", "C")];
    assert_eq!(ScoringEngine::new().calculate_score(&two), 81);
    assert_eq!(ScoringEngine::new().calculate_score(&owt), 81);
    assert_eq!(grade_for(90), 'A');
    assert_eq!(grade_for(89), 'B');
    assert_eq!(grade_for(30), 'D');
    assert_eq!(grade_for(29), 'F');
}

#[test]
fn top_findings_are_at_most_five_critical_first() {
    let mut fs: Vec<Finding> = (0..4).map(|_| finding(Severity::High, "O-01", "C")).collect();
    fs.extend((0..3).map(|_| finding(Severity::Critical, "R-01", "C")));
    let s = calculate_score(&fs);
    assert_eq!(s.top_findings.len(), 5);
    assert!(s.top_findings[..3].iter().all(|f| f.severity == Severity::Critical));
    assert!(s.top_findings[3..].iter().all(|f| f.severity == Severity::High));
}

#[test]
fn summary_text() {
    let fs = vec![finding(Severity::Medium, "S-01", "C")];
    let s = calculate_score(&fs);
    assert_eq!(
        generate_summary(&s),
        "Security Score: 100/100 (Grade A)\nCritical: 0 | High: 0 | Medium: 1 | Low: 0 | Info: 0"
    );
}

#[test]
fn report_add_finding_rescores() {
    let mut r = Report::default();
    assert!(r.is_empty());
    assert_eq!(r.score.overall, 100);
    r.add_finding(finding(Severity::Critical, "R-01", "C:1:1"));
    assert!(!r.is_empty());
    assert_eq!(r.score.overall, 78);
    assert_eq!(r.score.breakdown.critical, 1);
    assert_eq!(r.summary, generate_summary(&r.score));
}

#[test]
fn consolidated_report_gathers_all() {
    let a = report("A", "a.rs", vec![finding(Severity::High, "O-01", "A:2:3")]);
    let b = report("B", "b.rs", vec![finding(Severity::Low, "S-02", "B:4:5"), finding(Severity::High, "O-01", "B:6:7")]);
    let c = ConsolidatedReport::new(&[a, b]);
    assert_eq!(c.tool, "soroban-guard");
    assert_eq!(c.version, "0.1.0");
    assert_eq!(c.reports.len(), 2);
    assert_eq!(c.reports[1].contract, "B");
    assert_eq!(c.reports[1].file, "b.rs");
    assert_eq!(c.all_findings.len(), 3);
    assert_eq!(c.all_findings[2].location, "B:6:7");
    assert_eq!(c.total_score.breakdown.high, 2);
    assert_eq!(c.summary, generate_summary(&c.total_score));
}

#[test]
fn filter_by_minimum_severity() {
    let fs = vec![
        finding(Severity::Info, "S-05", "C"),
        finding(Severity::Critical, "R-01", "C"),
        finding(Severity::Low, "R-03", "C"),
        finding(Severity::High, "O-01", "C"),
    ];
    let kept = filter_by_severity(&fs, &Severity::High);
    assert_eq!(kept.len(), 2);
    assert_eq!(kept[0].rule_id, "R-01");
    assert_eq!(kept[1].rule_id, "O-01");
    assert_eq!(filter_by_severity(&fs, &Severity::Info).len(), 4);
    assert_eq!(filter_by_severity(&kept, &Severity::High).len(), 2);
}

#[test]
fn locations_parse_back() {
    assert_eq!(parse_location("Vault:42:5"), (42, 5));
    assert_eq!(parse_location("a:b:c:7:8"), (7, 8));
    assert_eq!(parse_location("Vault"), (0, 0));
    assert_eq!(parse_location("Vault:3"), (0, 0));
    assert_eq!(parse_location("Vault:x:-4"), (0, -4));
    assert_eq!(parse_location("Vault:+9:99999999999999999999"), (9, 0));
}

#[test]
fn number_parsing() {
    assert_eq!(parse_i64("-9223372036854775808"), Some(i64::MIN));
    assert_eq!(parse_i64("9223372036854775807"), Some(i64::MAX));
    assert_eq!(parse_i64("9223372036854775808"), None);
    assert_eq!(parse_i64("+"), None);
    assert_eq!(parse_i64(""), None);
    assert_eq!(parse_i64("1_0"), None);
    assert_eq!(parse_u128("340282366920938463463374607431768211455"), Some(u128::MAX));
    assert_eq!(parse_u128("340282366920938463463374607431768211456"), None);
    assert_eq!(parse_u128("+7"), Some(7));
    assert_eq!(parse_u128("-7"), None);
}

#[test]
fn sarif_levels() {
    assert_eq!(sarif_severity(&Severity::Critical), "error");
    assert_eq!(sarif_severity(&Severity::High), "error");
    assert_eq!(sarif_severity(&Severity::Medium), "warning");
    assert_eq!(sarif_severity(&Severity::Low), "note");
    assert_eq!(sarif_severity(&Severity::Info), "none");
}

#[test]
fn sarif_log_rules_and_results() {
    let a = report("A", "a.rs", vec![finding(Severity::High, "O-01", "A:2:3"), finding(Severity::Low, "S-02", "A:4:1")]);
    let b = report("B", "b.rs", vec![finding(Severity::High, "O-01", "B:6:7")]);
    let c = ConsolidatedReport::new(&[a, b]);
    let log = sarif_log(&c);
    assert_eq!(log.version, "2.1.0");
    assert_eq!(log.runs.len(), 1);
    let run = &log.runs[0];
    assert_eq!(run.tool.driver.name, "soroban-guard");
    assert_eq!(run.tool.driver.rules.len(), 2);
    assert_eq!(run.tool.driver.rules[0].id, "O-01");
    assert_eq!(run.tool.driver.rules[0].name, "O-01-High");
    assert_eq!(run.tool.driver.rules[0].default_configuration.level, "error");
    assert_eq!(run.tool.driver.rules[1].properties.as_ref().unwrap().tags, vec!["low".to_string()]);
    assert_eq!(run.results.len(), 3);
    assert_eq!(run.results[0].rule_index, 0);
    assert_eq!(run.results[1].rule_index, 1);
    // The third result reuses rule O-01 and points at it.
    assert_eq!(run.results[2].rule_id, "O-01");
    assert_eq!(run.results[2].rule_index, 0);
    let loc = &run.results[2].locations[0].physical_location;
    assert_eq!(loc.artifact_location.uri, "b.rs");
    assert_eq!((loc.region.start_line, loc.region.start_column), (6, 7));
}

#[test]
fn human_report_layout() {
    let a = report("A", "a.rs", vec![finding(Severity::Low, "S-02", "A:4:1"), finding(Severity::Critical, "R-01", "A:2:3")]);
    let c = ConsolidatedReport::new(&[a]);
    let plain = HumanPaint {
        title: "Soroban Guard Report".to_string(),
        rule: "====================".to_string(),
        labels: vec!["CRITICAL".into(), "HIGH".into(), "MEDIUM".into(), "LOW".into(), "INFO".into()],
        files: vec!["a.rs".to_string()],
        rule_ids: vec![vec!["S-02".to_string(), "R-01".to_string()]],
    };
    let text = human_layout(&c, &plain);
    let expected = format!(
        "Soroban Guard Report\n====================\n\n{}\nTotal files analyzed: 1\n\nFile: a.rs\nScore: {}/100 (Grade {})\n\n\
CRITICAL:\n  [R-01] R-01 happened\n     Location: A:2:3\n     Suggestion: fix R-01\n\n\
LOW:\n  [S-02] S-02 happened\n     Location: A:4:1\n     Suggestion: fix S-02\n\n",
        c.summary, c.reports[0].score.overall, c.reports[0].score.grade
    );
    assert_eq!(text, expected);
    let painted = paint_report(&c);
    assert_eq!(painted.files.len(), 1);
    assert_eq!(painted.rule_ids[0].len(), 2);
    assert!(painted.files[0].contains("a.rs"));
    let human = format_human(&c);
    assert!(human.contains("Total files analyzed: 1"));
    assert!(human.contains("Location: A:2:3"));
}

#[test]
fn error_messages() {
    assert_eq!(SorobanGuardError::Parse("bad".to_string()).message(), "Parse error: bad");
    assert_eq!(SorobanGuardError::Config("x".to_string()).message(), "Configuration error: x");
    assert_eq!(SorobanGuardError::Io("denied".to_string()).message(), "IO error: denied");
}

#[test]
fn law_examples_score_and_breakdown() {
    let mut fs: Vec<Finding> = vec![];
    let mut last = calculate_score(&fs).overall;
    for (sev, rule) in [
        (Severity::Info, "S-05"),
        (Severity::Low, "R-03"),
        (Severity::Medium, "S-01"),
        (Severity::High, "O-01"),
        (Severity::Critical, "R-01"),
        (Severity::Critical, "A-01"),
        (Severity::Critical, "A-01"),
    ] {
        fs.push(finding(sev, rule, "C"));
        let s = calculate_score(&fs);
        assert!(s.overall <= last);
        assert!(s.overall <= 100);
        let b = s.breakdown;
        assert_eq!(b.critical + b.high + b.medium + b.low + b.info, fs.len());
        last = s.overall;
    }
    assert_eq!(last, 0);
}

#[test]
fn law_example_location_round_trip() {
    let c = Contract { name: "ns::Vault:x".to_string(), functions: vec![], storage_keys: vec![], dependencies: vec![] };
    let pos = SourcePos { line: 120, column: 17 };
    let loc = location(&c, &pos);
    assert_eq!(loc, "ns::Vault:x:120:17");
    assert_eq!(parse_location(&loc), (120, 17));
    assert_eq!(location(&c, &SourcePos { line: 0, column: 3 }), "ns::Vault:x");
}

#[test]
fn law_example_sarif_rule_ids_distinct() {
    let a = report(
        "A",
        "a.rs",
        vec![
            finding(Severity::High, "O-01", "A:1:1"),
            finding(Severity::High, "O-01", "A:2:1"),
            finding(Severity::Low, "R-03", "A:3:1"),
            finding(Severity::High, "O-01", "A:4:1"),
        ],
    );
    let c = ConsolidatedReport::new(&[a]);
    let log = sarif_log(&c);
    let ids: Vec<&str> = log.runs[0].tool.driver.rules.iter().map(|r| r.id.as_str()).collect();
    assert_eq!(ids, vec!["O-01", "R-03"]);
    assert_eq!(log.runs[0].results.len(), 4);
}

#[test]
fn contract_file_selection() {
    assert_eq!(exclude_patterns(Some(" **/test_* , src/*.rs")), vec!["**/test_*".to_string(), "src/*.rs".to_string()]);
    assert_eq!(exclude_patterns(Some("[")), Vec::<String>::new());
    assert!(exclude_patterns(None).is_empty());
    let candidates = vec!["src/lib.rs".to_string(), "tests/test_a.rs".to_string(), "contracts/vault.rs".to_string()];
    assert_eq!(
        select_contract_files(&candidates, Some("**/test_*, src/*.rs")),
        vec!["contracts/vault.rs".to_string()]
    );
    assert_eq!(select_contract_files(&candidates, None).len(), 3);
    assert!(is_hidden_name(Some(".git")));
    assert!(!is_hidden_name(Some("src")));
    assert!(!is_hidden_name(None));
    assert!(is_rust_extension(Some("rs")));
    assert!(!is_rust_extension(Some("toml")));
    assert!(!is_rust_extension(None));
}

#[test]
fn reports_sorted_by_file_stably() {
    let rs = vec![
        report("B1", "b.rs", vec![]),
        report("A1", "a.rs", vec![]),
        report("B2", "b.rs", vec![]),
        report("C", "ab.rs", vec![]),
        report("A2", "a.rs", vec![]),
    ];
    let sorted = sort_by_source_file(rs);
    let names: Vec<&str> = sorted.iter().map(|r| r.contract_name.as_str()).collect();
    assert_eq!(names, vec!["A1", "A2", "C", "B1", "B2"]);
}

#[test]
fn consolidated_minimum_severity_and_ci() {
    let a = report("A", "a.rs", vec![finding(Severity::Low, "S-02", "A:4:1"), finding(Severity::High, "O-01", "A:2:3")]);
    let mut c = ConsolidatedReport::new(&[a]);
    assert!(c.fails_ci());
    c.keep_at_least(soroban_guard_core::config::MinSeverity::Info);
    assert_eq!(c.all_findings.len(), 2);
    c.keep_at_least(soroban_guard_core::config::MinSeverity::Medium);
    assert_eq!(c.all_findings.len(), 1);
    assert_eq!(c.reports[0].findings.len(), 1);
    assert_eq!(c.reports[0].findings[0].rule_id, "O-01");
    assert_eq!(c.total_score.breakdown.low, 1);
    let quiet = ConsolidatedReport::new(&[report("B", "b.rs", vec![finding(Severity::Medium, "S-01", "B")])]);
    assert!(!quiet.fails_ci());
}

#[test]
fn sarif_index_points_at_own_rule() {
    let fs = vec![
        finding(Severity::High, "A-01", "C:1:1"),
        finding(Severity::Critical, "R-01", "C:2:3"),
        finding(Severity::High, "A-01", "C:4:5"),
    ];
    let c = ConsolidatedReport::new(&[report("C", "c.rs", fs)]);
    let log = sarif_log(&c);
    let run = &log.runs[0];
    let ids: Vec<&str> = run.tool.driver.rules.iter().map(|r| r.id.as_str()).collect();
    assert_eq!(ids, vec!["A-01", "R-01"]);
    let results: Vec<(&str, i64)> = run.results.iter().map(|r| (r.rule_id.as_str(), r.rule_index)).collect();
    assert_eq!(results, vec![("A-01", 0), ("R-01", 1), ("A-01", 0)]);
}
