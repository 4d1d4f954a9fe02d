// Each test reports to a `ContractVisitor` the constructs that a syntax walk
// finds in the source quoted above it, in the walk's order, and runs the
// detectors on the contract that comes out.
use soroban_guard_core::analysis::access_control::AccessControlDetector;
use soroban_guard_core::analysis::overflow::OverflowChecker;
use soroban_guard_core::analysis::reentrancy::ReentrancyDetector;
use soroban_guard_core::analysis::storage::StorageCollisionDetector;
use soroban_guard_core::analysis::{AnalysisEngine, AnalysisRule};
use soroban_guard_core::parser::ast::{Contract, FnArg, SourcePos};
use soroban_guard_core::parser::visitors::{
    BinOpKind, BinaryInfo, CallInfo, CallShape, ContractVisitor, ExprInfo, FnInfo, ImplInfo, MacroShape,
    MethodCallInfo,
};
use soroban_guard_core::report::finding::Finding;
use soroban_guard_core::report::severity::Severity;
use soroban_guard_core::scoring::calculate_score;

// ---------------------------------------------------------------------------
// Expressions
// ---------------------------------------------------------------------------
fn pos(line: usize, column: usize) -> SourcePos {
    SourcePos { line, column }
}

fn expr(tokens: &str, inner_tokens: &str) -> ExprInfo {
    ExprInfo {
        tokens: tokens.to_string(),
        path: None,
        inner_tokens: inner_tokens.to_string(),
        inner_path: None,
        string_lit: None,
        int_digits: None,
        idents: vec![],
        call: None,
        macro_call: None,
        tuple_len: None,
    }
}

/// `name`
fn ident(name: &str) -> ExprInfo {
    ExprInfo {
        path: Some(vec![name.to_string()]),
        inner_path: Some(vec![name.to_string()]),
        idents: vec![name.to_string()],
        ..expr(name, name)
    }
}

/// `&name`
fn by_ref(name: &str) -> ExprInfo {
    ExprInfo {
        inner_path: Some(vec![name.to_string()]),
        idents: vec![name.to_string()],
        ..expr(&format!("& {name}"), name)
    }
}

/// An integer literal, optionally behind `&`.
fn int_lit(tokens: &str, digits: &str) -> ExprInfo {
    ExprInfo { int_digits: Some(digits.to_string()), ..expr(tokens, tokens.trim_start_matches("& ")) }
}

/// `&Symbol::new(&env, "name")`
fn symbol(name: &str) -> ExprInfo {
    ExprInfo {
        idents: vec!["env".to_string()],
        call: Some(CallShape {
            path: vec!["Symbol".to_string(), "new".to_string()],
            string_args: vec![None, Some(name.to_string())],
        }),
        ..expr(&format!("& Symbol :: new (& env , {:?})", name), &format!("Symbol :: new (& env , {:?})", name))
    }
}

/// `&name!("body")`
fn symbol_macro(name: &str, body: &str) -> ExprInfo {
    ExprInfo {
        macro_call: Some(MacroShape { ident: Some(name.to_string()), string_body: Some(body.to_string()), list_len: Some(1) }),
        ..expr(&format!("& {name} ! ({:?})", body), &format!("{name} ! ({:?})", body))
    }
}

/// `&(a op b)`
fn paren_ref(a: &str, op: &str, b: &str) -> ExprInfo {
    ExprInfo {
        idents: vec![a.to_string(), b.to_string()],
        ..expr(&format!("& ({a} {op} {b})"), &format!("{a} {op} {b}"))
    }
}

/// `(&x,)` or `&[&x, ..]`: a container of `n` elements.
fn container(tokens: &str, idents: &[&str], n: usize) -> ExprInfo {
    ExprInfo {
        idents: idents.iter().map(|s| s.to_string()).collect(),
        tuple_len: Some(n),
        ..expr(tokens, tokens.trim_start_matches("& "))
    }
}

// ---------------------------------------------------------------------------
// Walking a contract
// ---------------------------------------------------------------------------
struct Walk {
    v: ContractVisitor,
    in_impl: bool,
    in_fn: bool,
}

fn contract_impl(name: &str) -> Walk {
    let mut v = ContractVisitor::new();
    let in_impl = v.enter_impl(&ImplInfo { has_contractimpl: true, trait_path: None, self_type: name.to_string() });
    Walk { v, in_impl, in_fn: false }
}

impl Walk {
    fn function(&mut self, name: &str, args: &[(&str, &str)], ret: Option<&str>) {
        self.in_fn = self.v.enter_fn(FnInfo {
            name: name.to_string(),
            args: args.iter().map(|(n, t)| FnArg { name: n.to_string(), arg_type: t.to_string() }).collect(),
            return_type: ret.map(|r| r.to_string()),
            is_public: true,
            attributes: vec![],
        });
    }

    fn end_fn(&mut self) {
        self.v.exit_fn(self.in_fn);
        self.in_fn = false;
    }

    fn local(&mut self, name: &str, ty: &str) {
        self.v.note_local(name, ty);
    }

    fn binary(&mut self, op: BinOpKind, left: ExprInfo, right: ExprInfo, at: SourcePos) {
        self.v.begin_binary(&BinaryInfo { op, left, right, position: at });
        self.v.end_binary(op);
    }

    fn method(&mut self, method: &str, chain: &[&str], receiver: ExprInfo, args: Vec<ExprInfo>, at: SourcePos) {
        self.v.record_method_call(&MethodCallInfo {
            method: method.to_string(),
            chain: chain.iter().map(|s| s.to_string()).collect(),
            receiver,
            receiver_call: None,
            args,
            position: at,
        });
    }

    /// `env.storage().<tier>().<op>(args..)`, then the walk's visits of the
    /// receiver chain.
    fn storage(&mut self, tier: &str, op: &str, args: Vec<ExprInfo>, at: SourcePos) {
        let receiver = expr(&format!("env . storage () . {tier} ()"), &format!("env . storage () . {tier} ()"));
        self.method(op, &["env", "storage", tier, op], receiver, args, at);
        let storage = expr("env . storage ()", "env . storage ()");
        self.method(tier, &["env", "storage", tier], storage, vec![], pos(at.line, at.column.saturating_sub(10)));
        self.method("storage", &["env", "storage"], ident("env"), vec![], pos(at.line, at.column.saturating_sub(20)));
    }

    /// `env.storage().<tier>().get(key).<unwrap>(..)`
    fn storage_get(&mut self, tier: &str, key: ExprInfo, unwrap: &str, at: SourcePos) {
        let got = expr("env . storage () . instance () . get (..)", "env . storage () . instance () . get (..)");
        self.method(unwrap, &["env", "storage", tier, "get", unwrap], got, vec![], pos(at.line, at.column + 30));
        self.storage(tier, "get", vec![key], at);
    }

    fn invoke(&mut self, method: &str, args: Vec<ExprInfo>, at: SourcePos) {
        self.method(method, &["env", method], ident("env"), args, at);
    }

    fn require_auth(&mut self, who: &str, method: &str, args: Vec<ExprInfo>, at: SourcePos) {
        self.method(method, &[who, method], ident(who), args, at);
    }

    fn call(&mut self, path: &[&str], args: Vec<ExprInfo>, at: SourcePos) {
        self.v.record_call(&CallInfo {
            path: path.iter().map(|s| s.to_string()).collect(),
            ident: if path.len() == 1 { Some(path[0].to_string()) } else { None },
            args,
            position: at,
        });
    }

    fn finish(mut self) -> Contract {
        self.v.exit_impl(self.in_impl);
        self.v.finalize().expect("a visitor always yields a contract")
    }
}

fn has_rule(findings: &[Finding], rule_id: &str) -> bool {
    findings.iter().any(|f| f.rule_id == rule_id)
}

fn rule<'a>(findings: &'a [Finding], rule_id: &str) -> &'a Finding {
    findings
        .iter()
        .find(|f| f.rule_id == rule_id)
        .unwrap_or_else(|| panic!("expected a {rule_id} finding, got: {findings:?}"))
}

fn of_rule<'a>(findings: &'a [Finding], rule_id: &str) -> Vec<&'a Finding> {
    findings.iter().filter(|f| f.rule_id == rule_id).collect()
}

// ---------------------------------------------------------------------------
// Overflow
// ---------------------------------------------------------------------------
// #[contractimpl]
// impl C {
// <one function>
// }
fn overflow_of(c: &Contract) -> Vec<Finding> {
    OverflowChecker.analyze(c)
}

// pub fn add(a: i128, b: i128) -> i128 { a + b }
#[test]
fn test_unchecked_arithmetic_flagged_high() {
    let mut w = contract_impl("C");
    w.function("add", &[("a", "i128"), ("b", "i128")], Some("i128"));
    w.binary(BinOpKind::Add, ident("a"), ident("b"), pos(3, 42));
    w.end_fn();
    let findings = overflow_of(&w.finish());
    assert!(has_rule(&findings, "O-01"), "expected O-01, got: {findings:?}");
    let o01 = rule(&findings, "O-01");
    assert_eq!(o01.severity, Severity::High);
    assert!(o01.suggestion.contains("checked_add"));
}

// pub fn add(a: i128, b: i128) -> i128 { a.checked_add(b).unwrap() }
#[test]
fn test_checked_arithmetic_not_flagged() {
    let mut w = contract_impl("C");
    w.function("add", &[("a", "i128"), ("b", "i128")], Some("i128"));
    w.method("unwrap", &["a", "checked_add", "unwrap"], expr("a . checked_add (b)", "a . checked_add (b)"), vec![], pos(3, 57));
    w.method("checked_add", &["a", "checked_add"], ident("a"), vec![ident("b")], pos(3, 42));
    w.end_fn();
    let findings = overflow_of(&w.finish());
    assert!(!has_rule(&findings, "O-01"), "checked_add must not trigger O-01, got: {findings:?}");
}

// pub fn div(a: i128, b: i128) -> i128 { a / b }
#[test]
fn test_division_by_variable_flagged() {
    let mut w = contract_impl("C");
    w.function("div", &[("a", "i128"), ("b", "i128")], Some("i128"));
    w.binary(BinOpKind::Div, ident("a"), ident("b"), pos(3, 42));
    w.end_fn();
    let findings = overflow_of(&w.finish());
    assert!(has_rule(&findings, "O-03"), "expected O-03, got: {findings:?}");
    assert_eq!(rule(&findings, "O-03").severity, Severity::Medium);
}

// pub fn div(a: i128) -> i128 { a / 100 }
#[test]
fn test_division_by_literal_not_flagged() {
    let mut w = contract_impl("C");
    w.function("div", &[("a", "i128")], Some("i128"));
    w.binary(BinOpKind::Div, ident("a"), int_lit("100", "100"), pos(3, 34));
    w.end_fn();
    let findings = overflow_of(&w.finish());
    assert!(!has_rule(&findings, "O-03"), "division by a nonzero literal must not trigger O-03, got: {findings:?}");
}

// pub fn sum(count: u32, item: i128) -> i128 {
//     let mut total: i128 = 0; for _ in 0..<end> { total += item; } total }
fn summing_loop(range_end: Option<&str>) -> Vec<Finding> {
    let mut w = contract_impl("C");
    match range_end {
        None => w.function("sum", &[("count", "u32"), ("item", "i128")], Some("i128")),
        Some(_) => w.function("sum", &[("item", "i128")], Some("i128")),
    }
    w.local("total", "i128");
    w.v.enter_for_loop(range_end);
    w.binary(BinOpKind::AddAssign, ident("total"), ident("item"), pos(3, 90));
    w.v.exit_loop();
    w.end_fn();
    overflow_of(&w.finish())
}

#[test]
fn test_loop_accumulation_flagged_high() {
    let findings = summing_loop(None);
    assert!(has_rule(&findings, "O-04"), "expected O-04, got: {findings:?}");
    assert_eq!(rule(&findings, "O-04").severity, Severity::High);
}

#[test]
fn test_small_constant_loop_not_o04() {
    let findings = summing_loop(Some("10"));
    assert!(!has_rule(&findings, "O-04"), "a 0..10 loop must not trigger O-04, got: {findings:?}");
}

// pub fn shrink(amount: i128) -> u32 { amount as u32 }
#[test]
fn test_cast_truncation_flagged_low() {
    let mut w = contract_impl("C");
    w.function("shrink", &[("amount", "i128")], Some("u32"));
    w.v.record_cast(&ident("amount"), "u32", pos(3, 45));
    w.end_fn();
    let findings = overflow_of(&w.finish());
    assert!(has_rule(&findings, "O-05"), "expected O-05, got: {findings:?}");
    let o05 = rule(&findings, "O-05");
    assert_eq!(o05.severity, Severity::Low);
    assert!(o05.message.contains("u32"));
}

// pub fn shrink(n: u64) -> u32 { n as u32 }
#[test]
fn test_cast_on_non_financial_not_flagged() {
    let mut w = contract_impl("C");
    w.function("shrink", &[("n", "u64")], Some("u32"));
    w.v.record_cast(&ident("n"), "u32", pos(3, 34));
    w.end_fn();
    let findings = overflow_of(&w.finish());
    assert!(!has_rule(&findings, "O-05"), "cast on a non-financial value must not trigger O-05, got: {findings:?}");
}

// pub fn check(a: i128, b: i128, max: i128) -> bool { a + b > max }
#[test]
fn test_arithmetic_compared_is_o02_not_o01() {
    let mut w = contract_impl("C");
    w.function("check", &[("a", "i128"), ("b", "i128"), ("max", "i128")], Some("bool"));
    let sum = ExprInfo { idents: vec!["a".to_string(), "b".to_string()], ..expr("a + b", "a + b") };
    let cmp = BinaryInfo { op: BinOpKind::Gt, left: sum, right: ident("max"), position: pos(3, 60) };
    w.v.begin_binary(&cmp);
    w.binary(BinOpKind::Add, ident("a"), ident("b"), pos(3, 56));
    w.v.end_binary(BinOpKind::Gt);
    w.end_fn();
    let findings = overflow_of(&w.finish());
    assert!(has_rule(&findings, "O-02"), "expected O-02, got: {findings:?}");
    assert_eq!(rule(&findings, "O-02").severity, Severity::Medium);
    assert!(!has_rule(&findings, "O-01"), "compared arithmetic must not also fire O-01, got: {findings:?}");
}

// pub fn count(mut i: i128) -> i128 { i += 1; i }
#[test]
fn test_unit_counter_demoted_to_medium() {
    let mut w = contract_impl("C");
    w.function("count", &[("i", "i128")], Some("i128"));
    w.binary(BinOpKind::AddAssign, ident("i"), int_lit("1", "1"), pos(3, 40));
    w.end_fn();
    let findings = overflow_of(&w.finish());
    let o01 = rule(&findings, "O-01");
    assert_eq!(o01.severity, Severity::Medium);
}

// pub fn add(a: u32, b: u32) -> u32 { a + b }
#[test]
fn test_non_financial_arithmetic_not_flagged() {
    let mut w = contract_impl("C");
    w.function("add", &[("a", "u32"), ("b", "u32")], Some("u32"));
    w.binary(BinOpKind::Add, ident("a"), ident("b"), pos(3, 39));
    w.end_fn();
    let findings = overflow_of(&w.finish());
    assert!(!has_rule(&findings, "O-01"), "u32 arithmetic must not trigger O-01, got: {findings:?}");
}

// The fixture `overflow_vulnerable.rs`:
//   withdraw: `let balance: i128 = env.storage().instance().get(..).unwrap();`
//             `let fee: i128 = amount * 2;` `balance - amount - fee`
//   price_per_share: `total / shares`
//   sum_rewards: `for _ in 0..count { total += per_item; }`
//   as_small: `amount as u32`
fn overflow_fixture() -> Contract {
    let mut w = contract_impl("VulnerableMath");
    w.function("withdraw", &[("env", "Env"), ("amount", "i128")], Some("i128"));
    w.local("balance", "i128");
    w.storage_get("instance", symbol("balance"), "unwrap", pos(15, 13));
    w.local("fee", "i128");
    w.binary(BinOpKind::Mul, ident("amount"), int_lit("2", "2"), pos(17, 32));
    let left = ExprInfo { idents: vec!["balance".to_string(), "amount".to_string()], ..expr("balance - amount", "balance - amount") };
    w.v.begin_binary(&BinaryInfo { op: BinOpKind::Sub, left, right: ident("fee"), position: pos(18, 26) });
    w.binary(BinOpKind::Sub, ident("balance"), ident("amount"), pos(18, 17));
    w.v.end_binary(BinOpKind::Sub);
    w.end_fn();
    w.function("price_per_share", &[("total", "i128"), ("shares", "i128")], Some("i128"));
    w.binary(BinOpKind::Div, ident("total"), ident("shares"), pos(23, 15));
    w.end_fn();
    w.function("sum_rewards", &[("count", "u32"), ("per_item", "i128")], Some("i128"));
    w.local("total", "i128");
    w.v.enter_for_loop(None);
    w.binary(BinOpKind::AddAssign, ident("total"), ident("per_item"), pos(30, 19));
    w.v.exit_loop();
    w.end_fn();
    w.function("as_small", &[("amount", "i128")], Some("u32"));
    w.v.record_cast(&ident("amount"), "u32", pos(37, 16));
    w.end_fn();
    w.finish()
}

#[test]
fn test_vulnerable_fixture_triggers_multiple_rules() {
    let findings = overflow_of(&overflow_fixture());
    assert!(has_rule(&findings, "O-01"), "got: {findings:?}");
    assert!(has_rule(&findings, "O-03"), "got: {findings:?}");
    assert!(has_rule(&findings, "O-04"), "got: {findings:?}");
    assert!(has_rule(&findings, "O-05"), "got: {findings:?}");
}

#[test]
fn test_engine_registers_overflow_checker() {
    let engine = AnalysisEngine::with_default_rules();
    // Reentrancy + overflow registered.
    assert!(engine.rule_count() >= 2);
    let findings = engine.run(&overflow_fixture());
    assert!(has_rule(&findings, "O-01"), "engine should surface O-01");
}

// ---------------------------------------------------------------------------
// Reentrancy
// ---------------------------------------------------------------------------
// pub fn <name>(env: Env, token: Address, amount: i128) {
//     let b: i128 = env.storage().instance().get(&Symbol::new(&env, "balance")).unwrap();
//     env.storage().instance().set(&Symbol::new(&env, "balance"), &(b <op> amount));
//     env.invoke_contract::<()>(&token, &Symbol::new(&env, "transfer"), (&amount,));
// }
fn bank_fn(w: &mut Walk, name: &str, op: BinOpKind, op_text: &str, line: usize) {
    w.function(name, &[("env", "Env"), ("token", "Address"), ("amount", "i128")], None);
    w.local("b", "i128");
    w.storage_get("instance", symbol("balance"), "unwrap", pos(line + 1, 56));
    w.storage("instance", "set", vec![symbol("balance"), paren_ref("b", op_text, "amount")], pos(line + 2, 41));
    w.binary(op, ident("b"), ident("amount"), pos(line + 2, 82));
    w.invoke(
        "invoke_contract",
        vec![by_ref("token"), symbol("transfer"), container("(& amount ,)", &["amount"], 1)],
        pos(line + 3, 21),
    );
    w.end_fn();
}

#[test]
fn test_cross_function_reentrancy_r04() {
    // Two public functions both make external calls and share the `balance` key.
    let mut w = contract_impl("Bank");
    bank_fn(&mut w, "withdraw", BinOpKind::Sub, "-", 4);
    bank_fn(&mut w, "borrow", BinOpKind::Add, "+", 9);
    let findings = ReentrancyDetector.analyze(&w.finish());
    let r04 = of_rule(&findings, "R-04");
    assert!(!r04.is_empty(), "expected R-04, got: {findings:?}");
    assert_eq!(r04[0].severity, Severity::High);
    assert!(r04.iter().all(|f| f.message.contains("balance")));
}

// pub fn increment(env: Env) {
//     let n: i128 = env.storage().instance().get(&Symbol::new(&env, "n")).unwrap_or(0);
//     env.storage().instance().set(&Symbol::new(&env, "n"), &(n + 1));
// }
#[test]
fn test_no_external_calls_no_findings() {
    let mut w = contract_impl("Counter");
    w.function("increment", &[("env", "Env")], None);
    w.local("n", "i128");
    w.storage_get("instance", symbol("n"), "unwrap_or", pos(5, 56));
    w.storage("instance", "set", vec![symbol("n"), paren_ref("n", "+", "1")], pos(6, 41));
    w.binary(BinOpKind::Add, ident("n"), int_lit("1", "1"), pos(6, 76));
    w.end_fn();
    let findings = ReentrancyDetector.analyze(&w.finish());
    assert!(findings.is_empty(), "expected no findings, got: {findings:?}");
}

// The fixture `reentrancy_readonly.rs`: `rebalance` reads `balance`, makes a
// read-only external call, then writes `balance`.
#[test]
fn test_read_only_reentrancy_is_medium() {
    let mut w = contract_impl("ReadOnlyReentrant");
    w.function("rebalance", &[("env", "Env"), ("oracle", "Address"), ("to", "Address"), ("amount", "i128")], None);
    w.local("balance", "i128");
    w.storage_get("instance", symbol("balance"), "unwrap", pos(15, 14));
    w.method(
        "invoke_contract_read_only",
        &["env", "invoke_contract_read_only"],
        ident("env"),
        vec![by_ref("oracle"), symbol("price"), container("(& to ,)", &["to"], 1)],
        pos(19, 13),
    );
    w.storage("instance", "set", vec![symbol("balance"), paren_ref("balance", "-", "amount")], pos(23, 14));
    w.binary(BinOpKind::Sub, ident("balance"), ident("amount"), pos(23, 60));
    w.end_fn();
    let findings = ReentrancyDetector.analyze(&w.finish());
    assert!(has_rule(&findings, "R-02"), "expected R-02, got: {findings:?}");
    let r02 = rule(&findings, "R-02");
    assert_eq!(r02.severity, Severity::Medium);
    assert!(r02.message.contains("balance"));
}

// ---------------------------------------------------------------------------
// Storage
// ---------------------------------------------------------------------------
// #[contractimpl] impl C { pub fn <name>(env: Env, <arg>: <ty>) {
//     env.storage().<tier>().set(<key>, &<arg>); } }
fn setter(w: &mut Walk, name: &str, tier: &str, key: ExprInfo, arg: (&str, &str), line: usize) {
    w.function(name, &[("env", "Env"), arg], None);
    w.storage(tier, "set", vec![key, by_ref(arg.0)], pos(line, 41));
    w.end_fn();
}

fn one_setter(key: ExprInfo) -> Vec<Finding> {
    let mut w = contract_impl("C");
    setter(&mut w, "set", "instance", key, ("v", "i128"), 5);
    StorageCollisionDetector.analyze(&w.finish())
}

// impl GoodContract { pub fn init(env: Env) {
//     env.storage().instance().set(&Symbol::new(&env, "VERSION"), &1i128);
//     env.storage().instance().set(&Symbol::new(&env, "v1_balance"), &0i128); } }
#[test]
fn test_version_key_present_no_s05() {
    let mut w = contract_impl("GoodContract");
    w.function("init", &[("env", "Env")], None);
    w.storage("instance", "set", vec![symbol("VERSION"), int_lit("& 1i128", "1")], pos(5, 41));
    w.storage("instance", "set", vec![symbol("v1_balance"), int_lit("& 0i128", "0")], pos(6, 41));
    w.end_fn();
    let findings = StorageCollisionDetector.analyze(&w.finish());
    assert!(!has_rule(&findings, "S-05"), "contract with VERSION key should not trigger S-05, got: {findings:?}");
    assert!(!has_rule(&findings, "S-01"), "descriptive key should not trigger S-01, got: {findings:?}");
    assert!(!has_rule(&findings, "S-02"), "descriptive key should not trigger S-02, got: {findings:?}");
}

#[test]
fn test_short_key_inline() {
    let findings = one_setter(symbol("a"));
    assert!(has_rule(&findings, "S-01"), "got: {findings:?}");
    assert_eq!(rule(&findings, "S-01").severity, Severity::Medium);
}

#[test]
fn test_generic_key_inline() {
    let findings = one_setter(symbol("owner"));
    assert!(has_rule(&findings, "S-02"), "got: {findings:?}");
    assert_eq!(rule(&findings, "S-02").severity, Severity::Low);
}

#[test]
fn test_mixed_types_inline() {
    let mut w = contract_impl("C");
    setter(&mut w, "set_i128", "instance", symbol("x"), ("v", "i128"), 5);
    setter(&mut w, "set_addr", "instance", symbol("x"), ("addr", "Address"), 8);
    let findings = StorageCollisionDetector.analyze(&w.finish());
    let s03 = of_rule(&findings, "S-03");
    assert!(!s03.is_empty(), "expected S-03, got: {findings:?}");
    assert_eq!(s03[0].severity, Severity::High);
    assert!(s03[0].message.contains("x"));
    assert!(s03[0].message.contains("v"));
    assert!(s03[0].message.contains("addr"));
}

#[test]
fn test_instance_temp_confusion_inline() {
    let mut w = contract_impl("C");
    setter(&mut w, "set_instance", "instance", symbol("key"), ("v", "i128"), 5);
    setter(&mut w, "set_temporary", "temporary", symbol("key"), ("v", "i128"), 8);
    let findings = StorageCollisionDetector.analyze(&w.finish());
    let s04 = of_rule(&findings, "S-04");
    assert!(!s04.is_empty(), "expected S-04, got: {findings:?}");
    assert_eq!(s04[0].severity, Severity::High);
    assert!(s04[0].message.contains("key"));
}

#[test]
fn test_descriptive_key_no_findings() {
    let findings = one_setter(symbol("v1_user_balance"));
    assert!(!has_rule(&findings, "S-01"), "got: {findings:?}");
    assert!(!has_rule(&findings, "S-02"), "got: {findings:?}");
}

// impl C { pub fn nothing(env: Env) {} }
#[test]
fn test_no_storage_ops() {
    let mut w = contract_impl("C");
    w.function("nothing", &[("env", "Env")], None);
    w.end_fn();
    let findings = StorageCollisionDetector.analyze(&w.finish());
    // S-05 fires because there's no version key
    assert!(has_rule(&findings, "S-05"), "got: {findings:?}");
    // No other rules should fire
    assert!(!has_rule(&findings, "S-01"));
    assert!(!has_rule(&findings, "S-02"));
    assert!(!has_rule(&findings, "S-03"));
    assert!(!has_rule(&findings, "S-04"));
}

// env.storage().instance().set(&symbol!("b"), &v);
#[test]
fn test_short_key_via_macro() {
    let findings = one_setter(symbol_macro("symbol", "b"));
    assert!(has_rule(&findings, "S-01"), "got: {findings:?}");
    assert!(rule(&findings, "S-01").message.contains("'b'"));
}

// ---------------------------------------------------------------------------
// Access control
// ---------------------------------------------------------------------------
/// `let balance: i128 = env.storage().instance().get(<key>).unwrap_or(0);`
/// `if balance >= amount { env.storage().instance().set(<key>, &(balance - amount)); }`
fn guarded_decrement(w: &mut Walk, key: fn(&str) -> ExprInfo, line: usize) {
    w.local("balance", "i128");
    w.storage_get("instance", key("balance"), "unwrap_or", pos(line, 62));
    w.binary(BinOpKind::Ge, ident("balance"), ident("amount"), pos(line + 1, 28));
    w.storage("instance", "set", vec![key("balance"), paren_ref("balance", "-", "amount")], pos(line + 2, 45));
    w.binary(BinOpKind::Sub, ident("balance"), ident("amount"), pos(line + 2, 90));
}

fn transfer_args() -> [(&'static str, &'static str); 4] {
    [("env", "Env"), ("caller", "Address"), ("to", "Address"), ("amount", "i128")]
}

fn access_of(c: &Contract) -> Vec<Finding> {
    AccessControlDetector.analyze(c)
}

#[test]
fn test_guarded_function_no_finding() {
    let mut w = contract_impl("SafeContract");
    w.function("guarded_withdraw", &[("env", "Env"), ("caller", "Address"), ("amount", "i128")], None);
    w.require_auth("caller", "require_auth", vec![], pos(5, 24));
    guarded_decrement(&mut w, symbol, 6);
    w.end_fn();
    let findings = access_of(&w.finish());
    assert!(!has_rule(&findings, "A-01"), "guarded function should not trigger A-01, got: {findings:?}");
    assert!(!has_rule(&findings, "A-02"));
    assert!(!has_rule(&findings, "A-03"));
}

#[test]
fn test_address_param_without_auth() {
    let mut w = contract_impl("UnsafeContract");
    w.function("transfer", &transfer_args(), None);
    guarded_decrement(&mut w, symbol, 5);
    w.end_fn();
    let findings = access_of(&w.finish());
    assert!(has_rule(&findings, "A-01"), "expected A-01, got: {findings:?}");
    let a04_items = of_rule(&findings, "A-04");
    assert!(!a04_items.is_empty(), "expected A-04, got: {findings:?}");
    let addr_auth = a04_items.iter().find(|f| f.severity == Severity::Medium);
    assert!(addr_auth.is_some(), "expected A-04 Medium about unauthenticated Address param, got: {a04_items:?}");
    assert!(addr_auth.unwrap().message.contains("caller"));
}

// pub fn __constructor(env: Env, admin: Address) {
//     env.storage().instance().set(&Symbol::new(&env, "admin"), &admin); }
#[test]
fn test_constructor_excluded() {
    let mut w = contract_impl("MyContract");
    setter(&mut w, "__constructor", "instance", symbol("admin"), ("admin", "Address"), 5);
    let findings = access_of(&w.finish());
    assert!(!has_rule(&findings, "A-01"), "constructor should not trigger A-01, got: {findings:?}");
}

// pub fn get_balance(env: Env) -> i128 {
//     env.storage().instance().get(&Symbol::new(&env, "balance")).unwrap_or(0) }
#[test]
fn test_view_function_flagged_a04_info() {
    let mut w = contract_impl("ViewContract");
    w.function("get_balance", &[("env", "Env")], Some("i128"));
    w.storage_get("instance", symbol("balance"), "unwrap_or", pos(5, 41));
    w.end_fn();
    let findings = access_of(&w.finish());
    let a04_infos: Vec<&Finding> =
        findings.iter().filter(|f| f.rule_id == "A-04" && f.severity == Severity::Info).collect();
    assert!(!a04_infos.is_empty(), "expected A-04 Info for view fn, got: {findings:?}");
    assert!(a04_infos[0].message.contains("get_balance"));
}

// pub fn reset(env: Env) {
//     env.storage().instance().set(&Symbol::new(&env, "balance"), &0i128); }
#[test]
fn test_public_state_mutator_flagged_a04_high() {
    let mut w = contract_impl("UnsafeContract");
    w.function("reset", &[("env", "Env")], None);
    w.storage("instance", "set", vec![symbol("balance"), int_lit("& 0i128", "0")], pos(5, 41));
    w.end_fn();
    let findings = access_of(&w.finish());
    assert!(has_rule(&findings, "A-01"), "expected A-01, got: {findings:?}");
    let a04_high: Vec<&Finding> =
        findings.iter().filter(|f| f.rule_id == "A-04" && f.severity == Severity::High).collect();
    assert!(!a04_high.is_empty(), "expected A-04 High for public state mutator, got: {findings:?}");
}

// caller.require_auth_for_args(&[&amount]); then the guarded decrement.
#[test]
fn test_weak_auth_pattern_a03() {
    let mut w = contract_impl("WeakAuthContract");
    w.function("transfer", &transfer_args(), None);
    w.require_auth("caller", "require_auth_for_args", vec![container("& [& amount]", &["amount"], 1)], pos(5, 24));
    guarded_decrement(&mut w, symbol, 6);
    w.end_fn();
    let findings = access_of(&w.finish());
    assert!(has_rule(&findings, "A-03"), "expected A-03 for weak auth, got: {findings:?}");
    assert_eq!(rule(&findings, "A-03").severity, Severity::Medium);
}

// caller.require_auth(); caller.require_auth_for_args(&[&amount, &caller]); ..
#[test]
fn test_a03_not_triggered_when_require_auth_present() {
    let mut w = contract_impl("SafeContract");
    w.function("transfer", &transfer_args(), None);
    w.require_auth("caller", "require_auth", vec![], pos(5, 24));
    w.require_auth(
        "caller",
        "require_auth_for_args",
        vec![container("& [& amount , & caller]", &["amount", "caller"], 2)],
        pos(6, 24),
    );
    guarded_decrement(&mut w, symbol, 7);
    w.end_fn();
    let findings = access_of(&w.finish());
    assert!(!has_rule(&findings, "A-03"), "A-03 should not fire when require_auth is present, got: {findings:?}");
}

const HARDCODED: &str = "GA7QYNF7SOWQ3GLR2BGM4DZP6K6V6YFQ7D6YFQ7D6YFQ7D6YFQ7D6YFQ";

fn string_lit(value: &str) -> ExprInfo {
    ExprInfo { string_lit: Some(value.to_string()), ..expr(&format!("{:?}", value), &format!("{:?}", value)) }
}

/// `Address::from_str(&env, "<HARDCODED>")`
fn hardcoded_address(w: &mut Walk, at: SourcePos) {
    w.call(&["Address", "from_str"], vec![by_ref("env"), string_lit(HARDCODED)], at);
}

// pub fn init(env: Env) {
//     let admin = Address::from_str(&env, "GA7Q..");
//     env.storage().instance().set(&Symbol::new(&env, "admin"), &admin); }
#[test]
fn test_hardcoded_address_a05() {
    let mut w = contract_impl("BadConfigContract");
    w.function("init", &[("env", "Env")], None);
    hardcoded_address(&mut w, pos(5, 29));
    w.storage("instance", "set", vec![symbol("admin"), by_ref("admin")], pos(6, 41));
    w.end_fn();
    let findings = access_of(&w.finish());
    assert!(has_rule(&findings, "A-05"), "expected A-05 for hardcoded address, got: {findings:?}");
    assert_eq!(rule(&findings, "A-05").severity, Severity::Medium);
    assert!(rule(&findings, "A-05").message.contains("GA7QYNF7"));
}

fn macro_symbol(name: &str) -> ExprInfo {
    symbol_macro("symbol", name)
}

// The fixture `access_control_bad.rs`.
fn access_control_fixture() -> Contract {
    let mut w = contract_impl("AdminContract");
    setter(&mut w, "__constructor", "instance", macro_symbol("admin"), ("admin", "Address"), 10);
    // withdraw_all: reads and resets `balance` with no auth.
    w.function("withdraw_all", &[("env", "Env"), ("to", "Address")], None);
    w.storage_get("instance", macro_symbol("balance"), "unwrap_or", pos(15, 48));
    w.storage("instance", "set", vec![macro_symbol("balance"), int_lit("& 0i128", "0")], pos(16, 34));
    w.end_fn();
    setter(&mut w, "set_admin", "instance", macro_symbol("admin"), ("new_admin", "Address"), 21);
    // transfer: require_auth_for_args without the Address.
    w.function("transfer", &transfer_args(), None);
    w.require_auth("caller", "require_auth_for_args", vec![container("& [& amount]", &["amount"], 1)], pos(26, 16));
    guarded_decrement(&mut w, macro_symbol, 27);
    w.end_fn();
    w.function("reset", &[("env", "Env")], None);
    w.storage("instance", "set", vec![macro_symbol("balance"), int_lit("& 0i128", "0")], pos(35, 34));
    w.end_fn();
    w.function("hardcoded_admin", &[("env", "Env")], None);
    hardcoded_address(&mut w, pos(40, 22));
    w.end_fn();
    w.function("guarded_withdraw", &[("env", "Env"), ("caller", "Address"), ("amount", "i128")], None);
    w.require_auth("caller", "require_auth", vec![], pos(45, 16));
    guarded_decrement(&mut w, macro_symbol, 46);
    w.end_fn();
    w.function("check_balance", &[("env", "Env")], Some("i128"));
    w.storage_get("instance", macro_symbol("balance"), "unwrap_or", pos(54, 33));
    w.end_fn();
    w.finish()
}

#[test]
fn test_missing_auth_on_state_write() {
    let findings = access_of(&access_control_fixture());
    assert!(has_rule(&findings, "A-01"), "expected A-01, got: {findings:?}");
    let a01 = rule(&findings, "A-01");
    assert!(
        a01.severity == Severity::High || a01.severity == Severity::Critical,
        "A-01 severity should be High or Critical, got {:?}",
        a01.severity
    );
    assert!(a01.message.contains("withdraw_all") || a01.message.contains("state"));
    assert!(!a01.suggestion.is_empty());
    assert!(a01.location.contains("AdminContract"));
}

#[test]
fn test_admin_fn_without_auth() {
    let findings = access_of(&access_control_fixture());
    let a02 = of_rule(&findings, "A-02");
    assert!(!a02.is_empty(), "expected A-02, got: {findings:?}");
    assert_eq!(a02[0].severity, Severity::High);
    assert!(a02[0].message.contains("set_admin"));
}

#[test]
fn access_control_tests_test_fixture_triggers_multiple_rules() {
    let findings = access_of(&access_control_fixture());
    assert!(has_rule(&findings, "A-01"), "got: {findings:?}");
    assert!(has_rule(&findings, "A-02"), "got: {findings:?}");
    assert!(has_rule(&findings, "A-05"), "got: {findings:?}");
    let a04_high: Vec<&Finding> =
        findings.iter().filter(|f| f.rule_id == "A-04" && f.severity == Severity::High).collect();
    assert!(!a04_high.is_empty(), "expected A-04 High, got: {findings:?}");
    let a04_info: Vec<&Finding> =
        findings.iter().filter(|f| f.rule_id == "A-04" && f.severity == Severity::Info).collect();
    assert!(!a04_info.is_empty(), "expected A-04 Info, got: {findings:?}");
    let guarded_findings: Vec<&Finding> = findings.iter().filter(|f| f.message.contains("guarded_withdraw")).collect();
    assert!(guarded_findings.is_empty(), "guarded_withdraw should have no findings, got: {guarded_findings:?}");
}

#[test]
fn test_engine_registers_access_control() {
    let engine = AnalysisEngine::with_default_rules();
    assert!(engine.rule_count() >= 3);
    let findings = engine.run(&access_control_fixture());
    assert!(has_rule(&findings, "A-01"), "engine should surface A-01");
    assert!(has_rule(&findings, "A-05"), "engine should surface A-05");
}

// ---------------------------------------------------------------------------
// The default engine on whole contracts
// ---------------------------------------------------------------------------
fn rule_ids(findings: &[Finding]) -> Vec<&str> {
    findings.iter().map(|f| f.rule_id.as_str()).collect()
}

fn run_default(c: &Contract) -> Vec<Finding> {
    AnalysisEngine::with_default_rules().run(c)
}

/// `#[contractimpl] impl <name> {}`
fn empty_impl(name: &str) -> Contract {
    contract_impl(name).finish()
}

/// `impl <name> { pub fn <f>(env: Env) { <walk> } }`
fn single_fn(name: &str, f: &str, body: impl FnOnce(&mut Walk)) -> Contract {
    let mut w = contract_impl(name);
    w.function(f, &[("env", "Env")], None);
    body(&mut w);
    w.end_fn();
    w.finish()
}

#[test]
fn contract_with_no_functions() {
    let contract = empty_impl("Empty");
    assert!(contract.functions.is_empty());
}

// pub fn __constructor(env: Env) {
//     env.storage().instance().set(&Symbol::new(&env, "VERSION"), &1u32); }
fn version_constructor(w: &mut Walk, line: usize) {
    w.function("__constructor", &[("env", "Env")], None);
    w.storage("instance", "set", vec![symbol("VERSION"), int_lit("& 1u32", "1")], pos(line, 41));
    w.end_fn();
}

#[test]
fn contract_with_only_constructor() {
    let mut w = contract_impl("InitOnly");
    version_constructor(&mut w, 8);
    let contract = w.finish();
    assert_eq!(contract.functions.len(), 1);
    let findings = run_default(&contract);
    let ids = rule_ids(&findings);
    assert!(!ids.contains(&"A-01"), "Constructor should not trigger A-01, got: {:?}", ids);
    assert!(!ids.contains(&"A-02"), "Constructor should not trigger A-02, got: {:?}", ids);
    assert!(!ids.contains(&"R-01"), "Constructor should not trigger R-01, got: {:?}", ids);
}

// let result = env.invoke_contract::<()>(&addr, &Symbol::new(&env, "inner"), (&arg,));
// let other = env.invoke_contract::<i128>(&other, &Symbol::new(&env, "get"), ());
// env.storage().instance().set(&Symbol::new(&env, "key"), &result);
#[test]
fn contract_with_nested_calls() {
    let contract = single_fn("Test", "run", |w| {
        w.invoke("invoke_contract", vec![by_ref("addr"), symbol("inner"), container("(& arg ,)", &["arg"], 1)], pos(9, 30));
        w.invoke("invoke_contract", vec![by_ref("other"), symbol("get"), container("()", &[], 0)], pos(10, 29));
        w.storage("instance", "set", vec![symbol("key"), by_ref("result")], pos(11, 38));
    });
    let findings = run_default(&contract);
    assert!(
        findings.iter().any(|f| f.rule_id == "R-01"),
        "Nested external calls followed by store should trigger R-01, got: {:?}",
        findings
    );
}

// pub fn guarded_set(env: Env, admin: Address, key: Symbol, value: i128) {
//     if admin == env.current_contract_address() { env.storage().instance().set(&key, &value); }
//     else { admin.require_auth(); env.storage().instance().set(&key, &value); } }
#[test]
fn contract_with_conditional_auth() {
    let mut w = contract_impl("Conditional");
    w.function("guarded_set", &[("env", "Env"), ("admin", "Address"), ("key", "Symbol"), ("value", "i128")], None);
    let here = ExprInfo {
        idents: vec!["env".to_string()],
        ..expr("env . current_contract_address ()", "env . current_contract_address ()")
    };
    w.binary(BinOpKind::Eq, ident("admin"), here, pos(9, 26));
    w.method("current_contract_address", &["env", "current_contract_address"], ident("env"), vec![], pos(9, 33));
    w.storage("instance", "set", vec![by_ref("key"), by_ref("value")], pos(10, 46));
    w.require_auth("admin", "require_auth", vec![], pos(12, 27));
    w.storage("instance", "set", vec![by_ref("key"), by_ref("value")], pos(13, 46));
    w.end_fn();
    let findings = run_default(&w.finish());
    let ids = rule_ids(&findings);
    assert!(
        !ids.contains(&"A-01"),
        "Conditional auth should suppress A-01 (require_auth is present in one branch), got: {:?}",
        ids
    );
}

// impl AdminConfig { pub fn set(env: Env, key: Symbol, value: i128) {
//     env.storage().instance().set(&key, &value); } }
#[test]
fn contract_named_admin_without_admin_function() {
    let mut w = contract_impl("AdminConfig");
    w.function("set", &[("env", "Env"), ("key", "Symbol"), ("value", "i128")], None);
    w.storage("instance", "set", vec![by_ref("key"), by_ref("value")], pos(9, 42));
    w.end_fn();
    let findings = run_default(&w.finish());
    let ids = rule_ids(&findings);
    assert!(
        !ids.contains(&"A-02"),
        "Contract named 'AdminConfig' but no admin-named function — should not trigger A-02 on 'set', got: {:?}",
        ids
    );
}

// let result = total / 100;
#[test]
fn division_by_literal_not_flagged() {
    let contract = single_fn("Test", "run", |w| {
        w.binary(BinOpKind::Div, ident("total"), int_lit("100", "100"), pos(9, 32));
    });
    let findings = run_default(&contract);
    assert!(
        !findings.iter().any(|f| f.rule_id == "O-03"),
        "Division by literal 100 should not trigger O-03, got: {:?}",
        findings
    );
}

// let x: i128 = env.storage().instance().get(&Symbol::new(&env, "val")).unwrap_or(0);
// let y = x.checked_add(5).unwrap();
#[test]
fn checked_arithmetic_not_flagged() {
    let contract = single_fn("Test", "run", |w| {
        w.local("x", "i128");
        w.storage_get("instance", symbol("val"), "unwrap_or", pos(9, 52));
        w.method("unwrap", &["x", "checked_add", "unwrap"], expr("x . checked_add (5)", "x . checked_add (5)"), vec![], pos(10, 38));
        w.method("checked_add", &["x", "checked_add"], ident("x"), vec![int_lit("5", "5")], pos(10, 23));
    });
    let findings = run_default(&contract);
    assert!(
        !findings.iter().any(|f| f.rule_id.starts_with("O-0")),
        "Checked arithmetic should not trigger overflow rules, got: {:?}",
        findings
    );
}

// set_a: env.storage().instance().set(&Symbol::new(&env, "x"), &1i128);
// set_b: env.storage().temporary().set(&Symbol::new(&env, "x"), &1i128);
#[test]
fn multiple_functions_same_key_different_categories() {
    let mut w = contract_impl("MultiKey");
    for (f, tier, line) in [("set_a", "instance", 9), ("set_b", "temporary", 12)] {
        w.function(f, &[("env", "Env")], None);
        w.storage(tier, "set", vec![symbol("x"), int_lit("& 1i128", "1")], pos(line, 42));
        w.end_fn();
    }
    let report = AnalysisEngine::with_default_rules().analyze_contract(&w.finish(), "multi_key.rs");
    let ids = rule_ids(&report.findings);
    assert!(ids.contains(&"S-04"), "Instance/temporary confusion on key 'x' should trigger S-04, got: {:?}", ids);
}

// env.storage().instance().set(&Symbol::new(&env, ""), &1i128);
#[test]
fn zero_length_storage_key() {
    let contract = single_fn("EdgeTest", "run", |w| {
        w.storage("instance", "set", vec![symbol(""), int_lit("& 1i128", "1")], pos(8, 34));
    });
    assert!(!contract.functions.is_empty(), "Should parse even with empty key");
}

#[test]
fn long_function_name() {
    let contract = single_fn(
        "EdgeTest",
        "this_is_a_very_long_function_name_that_should_still_be_parsed_correctly_by_the_analyzer",
        |w| w.storage("instance", "set", vec![symbol("key"), int_lit("& 1i128", "1")], pos(9, 38)),
    );
    assert_eq!(contract.functions.len(), 1);
}

#[test]
fn empty_contractimpl_block() {
    let contract = empty_impl("Empty");
    assert!(contract.functions.is_empty());
    let findings = run_default(&contract);
    let ids = rule_ids(&findings);
    assert_eq!(ids, vec!["S-05"], "Empty contract should only have S-05 (no version key), got: {:?}", ids);
}

// let a: i128 = ..get(&Symbol::new(&env, "a")).unwrap_or(0);
// let b: i128 = ..get(&Symbol::new(&env, "b")).unwrap_or(0);
// let c = (a + b) * (a - b) / 2;
// env.storage().instance().set(&Symbol::new(&env, "c"), &c);
#[test]
fn contract_with_complex_expressions() {
    let contract = single_fn("EdgeTest", "run", |w| {
        w.local("a", "i128");
        w.storage_get("instance", symbol("a"), "unwrap_or", pos(9, 52));
        w.local("b", "i128");
        w.storage_get("instance", symbol("b"), "unwrap_or", pos(10, 52));
        let ab = vec!["a".to_string(), "b".to_string(), "a".to_string(), "b".to_string()];
        let product = ExprInfo { idents: ab.clone(), ..expr("(a + b) * (a - b)", "(a + b) * (a - b)") };
        w.v.begin_binary(&BinaryInfo { op: BinOpKind::Div, left: product, right: int_lit("2", "2"), position: pos(11, 40) });
        let sum = ExprInfo { idents: ab[..2].to_vec(), ..expr("(a + b)", "a + b") };
        let diff = ExprInfo { idents: ab[..2].to_vec(), ..expr("(a - b)", "a - b") };
        w.v.begin_binary(&BinaryInfo { op: BinOpKind::Mul, left: sum, right: diff, position: pos(11, 30) });
        w.binary(BinOpKind::Add, ident("a"), ident("b"), pos(11, 24));
        w.binary(BinOpKind::Sub, ident("a"), ident("b"), pos(11, 35));
        w.v.end_binary(BinOpKind::Mul);
        w.v.end_binary(BinOpKind::Div);
        w.storage("instance", "set", vec![symbol("c"), by_ref("c")], pos(12, 38));
    });
    let report = AnalysisEngine::with_default_rules().analyze_contract(&contract, "complex.rs");
    let overflow_rules: Vec<&Finding> = report.findings.iter().filter(|f| f.rule_id.starts_with("O-")).collect();
    assert!(overflow_rules.len() >= 2, "Complex arithmetic should trigger multiple overflow rules, got: {:?}", overflow_rules);
}

// let x = 42;
#[test]
fn contract_with_no_storage_ops() {
    let contract = single_fn("EdgeTest", "run", |_| {});
    let report = AnalysisEngine::with_default_rules().analyze_contract(&contract, "no_storage.rs");
    let ids = rule_ids(&report.findings);
    assert!(ids.contains(&"A-04"), "No-storage contract should have A-04 (public fn without auth), got: {:?}", ids);
    assert!(ids.contains(&"S-05"), "No-storage contract should have S-05 (no version key), got: {:?}", ids);
}

// pub fn transfer(env: Env, from: Address, to: Address, amount: i128) {
//     from.require_auth(); to.require_auth();
//     env.storage().instance().set(&Symbol::new(&env, "bal"), &amount); }
#[test]
fn multiple_require_auth_calls() {
    let mut w = contract_impl("MultiAuth");
    w.function("transfer", &[("env", "Env"), ("from", "Address"), ("to", "Address"), ("amount", "i128")], None);
    w.require_auth("from", "require_auth", vec![], pos(9, 22));
    w.require_auth("to", "require_auth", vec![], pos(10, 20));
    w.storage("instance", "set", vec![symbol("bal"), by_ref("amount")], pos(11, 42));
    w.end_fn();
    let report = AnalysisEngine::with_default_rules().analyze_contract(&w.finish(), "multi_auth.rs");
    let auth_issues: Vec<&Finding> = report.findings.iter().filter(|f| f.rule_id.starts_with("A-")).collect();
    assert!(auth_issues.is_empty(), "Multiple require_auth calls should suppress all A-01 findings, got: {:?}", auth_issues);
}

// 50 lines `env.storage().instance().set(&Symbol::new(&env, "key<i>"), &<i>i128);`
#[test]
fn contract_with_many_storage_keys() {
    let contract = single_fn("EdgeTest", "run", |w| {
        for i in 0..50usize {
            let value = int_lit(&format!("& {i}i128"), &i.to_string());
            w.storage("instance", "set", vec![symbol(&format!("key{i}")), value], pos(8 + i, 34));
        }
    });
    let total_ops = contract.functions[0].body_analysis.storage_writes.len()
        + contract.functions[0].body_analysis.storage_reads.len();
    assert_eq!(total_ops, 50);
}

// __constructor writes VERSION; `pub fn greet(env: Env) -> Symbol { Symbol::new(&env, "hello") }`
#[test]
fn perfect_score_contract() {
    let mut w = contract_impl("Perfect");
    version_constructor(&mut w, 9);
    w.function("greet", &[("env", "Env")], Some("Symbol"));
    w.call(&["Symbol", "new"], vec![by_ref("env"), string_lit("hello")], pos(12, 17));
    w.end_fn();
    let report = AnalysisEngine::with_default_rules().analyze_contract(&w.finish(), "perfect.rs");
    let (findings, score) = (&report.findings, &report.score);
    let has_r03 = findings.iter().any(|f| f.rule_id == "R-03");
    let has_s05 = findings.iter().any(|f| f.rule_id == "S-05");
    let expected_bonus = if !has_r03 { 5 } else { 0 } + if !has_s05 { 3 } else { 0 };
    let expected_score = 100u8.saturating_sub(
        findings
            .iter()
            .map(|f| match f.severity {
                Severity::Critical => 30,
                Severity::High => 15,
                Severity::Medium => 7,
                Severity::Low => 3,
                Severity::Info => 1,
            })
            .sum::<u8>()
            .saturating_sub(expected_bonus),
    );
    assert_eq!(score.overall, expected_score, "Score should match calculation");
    assert_eq!(calculate_score(findings).overall, expected_score);
}

// pub fn set(env: Env, admin: Address, val: i128) { admin.require_auth();
//     env.storage().instance().set(&Symbol::new(&env, "data"), &val); }
#[test]
fn contract_with_unicode_in_comments() {
    let mut w = contract_impl("Unicode");
    w.function("set", &[("env", "Env"), ("admin", "Address"), ("val", "i128")], None);
    w.require_auth("admin", "require_auth", vec![], pos(10, 15));
    w.storage("instance", "set", vec![symbol("data"), by_ref("val")], pos(11, 34));
    w.end_fn();
    w.v.exit_impl(w.in_impl);
    assert!(w.v.finalize().is_ok(), "Unicode comments should parse correctly");
}

// `fn main() {}`: no impl block, nothing reported to the visitor.
#[test]
fn test_parse_empty_source() {
    let result = ContractVisitor::new().finalize();
    assert!(result.is_ok());
}
