use soroban_guard_core::analysis::{apply_overrides_to_report, AnalysisEngine, AnalysisRule, RuleKind};
use soroban_guard_core::config::{
    build_severity_overrides, merge_config, output_format, parse_rule_list, resolve_rule_ids, worker_count,
    ConfigFile, GeneralConfig, MinSeverity, OutputConfig, OutputFormat, RuleOverride, RulesConfig, RunOptions,
};
use soroban_guard_core::parser::ast::{
    Contract, ContractFn, CrossContractCall, FnBodyAnalysis, FnVisibility, SourcePos, StorageAccess,
    StorageAccessType, StorageKeyType, StorageType,
};
use soroban_guard_core::report::finding::Finding;
use soroban_guard_core::report::severity::Severity;

fn finding(sev: Severity, rule: &str) -> Finding {
    Finding::new(sev, rule.to_string(), format!("{rule} message"), "C:1:1".to_string(), "fix".to_string())
}

struct Fixed;

impl AnalysisRule for Fixed {
    fn id(&self) -> &'static str {
        "fixed"
    }
    fn name(&self) -> &'static str {
        "Fixed"
    }
    fn description(&self) -> &'static str {
        "Reports one finding"
    }
    fn analyze(&self, _contract: &Contract) -> Vec<Finding> {
        vec![finding(Severity::Info, "X-01")]
    }
}

fn access(key: &str, kind: StorageAccessType, line: usize) -> StorageAccess {
    StorageAccess {
        key: key.to_string(),
        key_type: StorageKeyType::Symbol,
        access_type: kind,
        storage_type: StorageType::Instance,
        position: SourcePos { line, column: 5 },
        value_type: None,
    }
}

// A function that writes storage after an external call, without auth.
fn vulnerable_contract() -> Contract {
    let mut body = FnBodyAnalysis::new();
    body.cross_contract_calls.push(CrossContractCall {
        target: "token".to_string(),
        function: "transfer".to_string(),
        args_count: 3,
        position: SourcePos { line: 10, column: 9 },
        read_only: false,
    });
    body.calls_external = true;
    body.storage_reads.push(access("balance", StorageAccessType::Read, 8));
    body.storage_writes.push(access("balance", StorageAccessType::Write, 12));
    let f = ContractFn {
        name: "withdraw".to_string(),
        args: vec![],
        return_type: "()".to_string(),
        visibility: FnVisibility::Public,
        attributes: vec![],
        is_init: false,
        body_analysis: body,
    };
    Contract { name: "Vault".to_string(), functions: vec![f], storage_keys: vec![], dependencies: vec!["token".to_string()] }
}

#[test]
fn default_engine_has_four_rules_reentrancy_first() {
    let engine = AnalysisEngine::with_default_rules();
    assert_eq!(engine.rule_count(), 4);
    assert_eq!(AnalysisEngine::new().rule_count(), 0);
    assert_eq!(AnalysisEngine::default().rule_count(), 4);
    let c = vulnerable_contract();
    let all = engine.run(&c);
    assert!(!all.is_empty());
    assert!(all[0].rule_id.starts_with("R-"));
}

#[test]
fn with_rules_selects_by_id_and_skips_unknown() {
    assert_eq!(AnalysisEngine::with_rules(&[]).rule_count(), 4);
    assert_eq!(AnalysisEngine::with_rules(&["overflow", "bogus"]).rule_count(), 1);
    assert_eq!(AnalysisEngine::with_rules(&["storage", "reentrancy", "storage"]).rule_count(), 3);
    assert_eq!(RuleKind::from_id("access_control"), Some(RuleKind::AccessControl));
    assert_eq!(RuleKind::from_id("Access_Control"), None);
}

#[test]
fn run_concatenates_in_registration_order() {
    let c = vulnerable_contract();
    let storage_only = AnalysisEngine::with_rules(&["storage"]).run(&c);
    let reentrancy_only = AnalysisEngine::with_rules(&["reentrancy"]).run(&c);
    let both = AnalysisEngine::with_rules(&["reentrancy", "storage"]).run(&c);
    assert_eq!(both.len(), reentrancy_only.len() + storage_only.len());
    for (i, f) in reentrancy_only.iter().chain(storage_only.iter()).enumerate() {
        assert_eq!(both[i].rule_id, f.rule_id);
        assert_eq!(both[i].message, f.message);
    }
}

#[test]
fn registered_rule_runs_after_the_others() {
    let c = vulnerable_contract();
    let mut engine = AnalysisEngine::with_rules(&["reentrancy"]);
    let before = engine.run(&c).len();
    engine.register(Box::new(Fixed)).register(Box::new(Fixed));
    assert_eq!(engine.rule_count(), 3);
    let after = engine.run(&c);
    assert_eq!(after.len(), before + 2);
    assert_eq!(after[after.len() - 1].rule_id, "X-01");
    assert_eq!(after[after.len() - 2].rule_id, "X-01");
}

#[test]
fn equal_contracts_give_equal_findings() {
    let mut engine = AnalysisEngine::with_default_rules();
    engine.register(Box::new(Fixed));
    let first = engine.analyze_contract(&vulnerable_contract(), "a.rs");
    let second = engine.analyze_contract(&vulnerable_contract(), "a.rs");
    assert!(!first.findings.is_empty());
    assert_eq!(first.findings.len(), second.findings.len());
    for (a, b) in first.findings.iter().zip(second.findings.iter()) {
        assert_eq!(a.rule_id, b.rule_id);
        assert_eq!(a.severity, b.severity);
        assert_eq!(a.location, b.location);
    }
    assert_eq!(first.score.overall, second.score.overall);
}

#[test]
fn reentrancy_r01_on_write_after_call() {
    let c = vulnerable_contract();
    let findings = AnalysisEngine::with_rules(&["reentrancy"]).run(&c);
    let r01 = findings.iter().find(|f| f.rule_id == "R-01").expect("R-01");
    assert_eq!(r01.severity, Severity::Critical);
    assert_eq!(r01.location, "Vault:10:9");
}

#[test]
fn analyze_contract_scores_the_findings() {
    let c = vulnerable_contract();
    let engine = AnalysisEngine::with_default_rules();
    let report = engine.analyze_contract(&c, "src/vault.rs");
    assert_eq!(report.contract_name, "Vault");
    assert_eq!(report.source_file, "src/vault.rs");
    assert_eq!(report.findings.len(), engine.run(&c).len());
    let expected = soroban_guard_core::scoring::calculate_score(&report.findings);
    assert_eq!(report.score.overall, expected.overall);
    assert_eq!(report.summary, soroban_guard_core::scoring::generate_summary(&report.score));
}

#[test]
fn parse_severity_ignores_case() {
    assert_eq!(AnalysisEngine::parse_severity("HIGH"), Some(Severity::High));
    assert_eq!(AnalysisEngine::parse_severity("Critical"), Some(Severity::Critical));
    assert_eq!(AnalysisEngine::parse_severity("info"), Some(Severity::Info));
    assert_eq!(AnalysisEngine::parse_severity("severe"), None);
}

fn with_severity(s: &str) -> RuleOverride {
    RuleOverride { enabled: Some(true), severity: Some(s.to_string()) }
}

#[test]
fn apply_overrides_sets_matching_prefix_last_wins() {
    let mut fs = vec![finding(Severity::Critical, "R-01"), finding(Severity::High, "O-01"), finding(Severity::Low, "R-03")];
    let low = with_severity("low");
    let info = with_severity("INFO");
    let bogus = with_severity("loud");
    let overrides: Vec<(&str, &RuleOverride)> = vec![("R-", &low), ("R-03", &info), ("O-", &bogus)];
    AnalysisEngine::apply_overrides(&overrides, &mut fs);
    assert_eq!(fs[0].severity, Severity::Low);
    assert_eq!(fs[1].severity, Severity::High);
    assert_eq!(fs[2].severity, Severity::Info);
    assert_eq!(fs[0].message, "R-01 message");
    // Applying the same overrides again changes nothing.
    AnalysisEngine::apply_overrides(&overrides, &mut fs);
    assert_eq!(fs[0].severity, Severity::Low);
    assert_eq!(fs[2].severity, Severity::Info);
}

fn config(rules: RulesConfig) -> ConfigFile {
    ConfigFile { general: GeneralConfig::default(), rules, output: OutputConfig::default() }
}

#[test]
fn config_defaults() {
    let g = GeneralConfig::default();
    assert!(g.exclude.is_empty());
    assert_eq!(g.jobs, Some(4));
    let r = RuleOverride::default();
    assert_eq!(r.enabled, Some(true));
    assert_eq!(r.severity, None);
    assert_eq!(RulesConfig::default().enabled_rule_ids(), vec!["reentrancy", "overflow", "access_control", "storage"]);
}

#[test]
fn rule_ids_resolution() {
    assert_eq!(resolve_rule_ids(Some(" overflow , ,storage"), true, None), Some(vec!["overflow".to_string(), "storage".to_string()]));
    assert_eq!(resolve_rule_ids(None, false, None), Some(vec![]));
    assert_eq!(resolve_rule_ids(None, true, None), None);
    let mut rules = RulesConfig::default();
    rules.overflow.enabled = Some(false);
    let cfg = config(rules);
    assert_eq!(
        resolve_rule_ids(None, true, Some(&cfg)),
        Some(vec!["reentrancy".to_string(), "access_control".to_string(), "storage".to_string()])
    );
    assert_eq!(parse_rule_list(""), Vec::<String>::new());
    assert_eq!(parse_rule_list("a,b"), vec!["a".to_string(), "b".to_string()]);
}

#[test]
fn severity_overrides_from_config() {
    assert!(build_severity_overrides(None).is_empty());
    let mut rules = RulesConfig::default();
    rules.storage.severity = Some("high".to_string());
    rules.reentrancy.severity = Some("low".to_string());
    let cfg = config(rules);
    let ovs = build_severity_overrides(Some(&cfg));
    assert_eq!(ovs.len(), 2);
    assert_eq!(ovs[0].0, "R-");
    assert_eq!(ovs[1].0, "S-");
    assert_eq!(ovs[1].1.to_severity(), Some(Severity::High));
}

fn writer(name: &str, with_auth: bool) -> ContractFn {
    let mut body = FnBodyAnalysis::new();
    body.storage_writes.push(access("balance", StorageAccessType::Write, 3));
    if with_auth {
        body.auth_checks.push(soroban_guard_core::parser::ast::AuthCheck {
            kind: soroban_guard_core::parser::ast::AuthKind::RequireAuth,
            target: "caller".to_string(),
        });
    }
    ContractFn {
        name: name.to_string(),
        args: vec![],
        return_type: "()".to_string(),
        visibility: FnVisibility::Public,
        attributes: vec![],
        is_init: name == "__constructor",
        body_analysis: body,
    }
}

#[test]
fn access_control_exemptions() {
    let contract = |f: ContractFn| Contract {
        name: "C".to_string(),
        functions: vec![f],
        storage_keys: vec![],
        dependencies: vec![],
    };
    let engine = AnalysisEngine::with_rules(&["access_control"]);
    let unguarded = engine.run(&contract(writer("withdraw", false)));
    assert!(unguarded.iter().any(|f| f.rule_id == "A-01" && f.severity == Severity::High));
    let guarded = engine.run(&contract(writer("withdraw", true)));
    assert!(!guarded.iter().any(|f| f.rule_id == "A-01" || f.rule_id == "A-02"));
    let ctor = engine.run(&contract(writer("__constructor", false)));
    assert!(ctor.is_empty());
    let admin = engine.run(&contract(writer("set_admin", false)));
    assert!(admin.iter().any(|f| f.rule_id == "A-01" && f.severity == Severity::Critical));
    assert!(admin.iter().any(|f| f.rule_id == "A-02"));
}

#[test]
fn version_key_suppresses_s05() {
    let mut c = vulnerable_contract();
    let storage = AnalysisEngine::with_rules(&["storage"]);
    assert!(storage.run(&c).iter().any(|f| f.rule_id == "S-05"));
    c.storage_keys.push(access("STORAGE_VERSION", StorageAccessType::Write, 1));
    assert!(!storage.run(&c).iter().any(|f| f.rule_id == "S-05"));
}

#[test]
fn run_options_merge_with_config() {
    let opts = || RunOptions { format: OutputFormat::Human, min_severity: MinSeverity::Low, exclude: None, jobs: 4 };
    let mut cfg = config(RulesConfig::default());
    cfg.output.format = Some(OutputFormat::Json);
    cfg.general.exclude = vec!["**/test_*".to_string(), "**/fixtures/*".to_string()];
    cfg.general.jobs = Some(2);
    let r = merge_config(opts(), Some(&cfg));
    assert_eq!(r.format, OutputFormat::Json);
    assert_eq!(r.min_severity, MinSeverity::Low);
    assert_eq!(r.exclude.as_deref(), Some("**/test_*,**/fixtures/*"));
    assert_eq!(r.jobs, 2);
    let given = RunOptions { exclude: Some("x".to_string()), ..opts() };
    assert_eq!(merge_config(given, Some(&cfg)).exclude.as_deref(), Some("x"));
    assert_eq!(merge_config(opts(), None).format, OutputFormat::Human);
    assert_eq!(output_format(true, OutputFormat::Json), OutputFormat::Sarif);
    assert_eq!(output_format(false, OutputFormat::Json), OutputFormat::Json);
    assert_eq!(worker_count(0), 1);
    assert_eq!(worker_count(8), 8);
}

#[test]
fn overrides_rescore_a_report() {
    let c = vulnerable_contract();
    let mut report = AnalysisEngine::with_rules(&["reentrancy"]).analyze_contract(&c, "v.rs");
    let before = report.score.overall;
    assert!(report.findings.iter().any(|f| f.severity == Severity::Critical));
    let none: Vec<(&str, &RuleOverride)> = vec![];
    apply_overrides_to_report(&mut report, &none);
    assert_eq!(report.score.overall, before);
    let info = with_severity("info");
    let overrides: Vec<(&str, &RuleOverride)> = vec![("R-", &info)];
    apply_overrides_to_report(&mut report, &overrides);
    assert!(report.findings.iter().all(|f| f.severity == Severity::Info));
    assert!(report.score.overall > before);
    assert_eq!(report.score.breakdown.critical, 0);
    assert_eq!(report.summary, soroban_guard_core::scoring::generate_summary(&report.score));
}
