use soroban_guard_core::analysis::overflow::OverflowChecker;
use soroban_guard_core::analysis::reentrancy::{is_guard_key, ReentrancyDetector};
use soroban_guard_core::analysis::AnalysisRule;
use soroban_guard_core::parser::ast::{
    ArithOp, AuthKind, Contract, FnArg, StorageAccessType, StorageKeyType, StorageType, SourcePos,
};
use soroban_guard_core::parser::patterns::{
    classify_arith_method, detect_storage_access_type, detect_storage_type, is_financial_type,
    is_narrowing_int_type, method_is_invoke_contract, method_is_require_auth, simple_type_name, ArithKind,
};
use soroban_guard_core::parser::visitors::{
    BinOpKind, BinaryInfo, CallInfo, CallShape, ContractVisitor, ExprInfo, FnInfo, ImplInfo, MacroShape,
    MethodCallInfo,
};
use soroban_guard_core::report::finding::Finding;
use soroban_guard_core::report::severity::Severity;

fn pos(line: usize, column: usize) -> SourcePos {
    SourcePos { line, column }
}

fn ident(name: &str) -> ExprInfo {
    ExprInfo {
        tokens: name.to_string(),
        path: Some(vec![name.to_string()]),
        inner_tokens: name.to_string(),
        inner_path: Some(vec![name.to_string()]),
        string_lit: None,
        int_digits: None,
        idents: vec![name.to_string()],
        call: None,
        macro_call: None,
        tuple_len: None,
    }
}

fn int_lit(digits: &str) -> ExprInfo {
    ExprInfo {
        tokens: digits.to_string(),
        path: None,
        inner_tokens: digits.to_string(),
        inner_path: None,
        string_lit: None,
        int_digits: Some(digits.to_string()),
        idents: vec![],
        call: None,
        macro_call: None,
        tuple_len: None,
    }
}

fn str_lit(value: &str) -> ExprInfo {
    let tokens = format!("{:?}", value);
    ExprInfo {
        tokens: tokens.clone(),
        path: None,
        inner_tokens: tokens,
        inner_path: None,
        string_lit: Some(value.to_string()),
        int_digits: None,
        idents: vec![],
        call: None,
        macro_call: None,
        tuple_len: None,
    }
}

fn symbol(name: &str) -> ExprInfo {
    let tokens = format!("& Symbol :: new (& env , {:?})", name);
    ExprInfo {
        tokens: tokens.clone(),
        path: None,
        inner_tokens: format!("Symbol :: new (& env , {:?})", name),
        inner_path: None,
        string_lit: None,
        int_digits: None,
        idents: vec!["env".to_string()],
        call: Some(CallShape {
            path: vec!["Symbol".to_string(), "new".to_string()],
            string_args: vec![None, Some(name.to_string())],
        }),
        macro_call: None,
        tuple_len: None,
    }
}

fn arg(name: &str, ty: &str) -> FnArg {
    FnArg { name: name.to_string(), arg_type: ty.to_string() }
}

fn contract_impl(v: &mut ContractVisitor, name: &str) -> bool {
    v.enter_impl(&ImplInfo { has_contractimpl: true, trait_path: None, self_type: name.to_string() })
}

fn function(v: &mut ContractVisitor, name: &str, args: Vec<FnArg>) -> bool {
    v.enter_fn(FnInfo {
        name: name.to_string(),
        args,
        return_type: Some("i128".to_string()),
        is_public: true,
        attributes: vec![],
    })
}

fn binary(v: &mut ContractVisitor, op: BinOpKind, left: ExprInfo, right: ExprInfo, at: SourcePos) {
    let e = BinaryInfo { op, left, right, position: at };
    v.begin_binary(&e);
    v.end_binary(op);
}

fn finish(v: ContractVisitor) -> Contract {
    v.finalize().expect("a visitor always yields a contract")
}

fn has_rule(findings: &[Finding], rule_id: &str) -> bool {
    findings.iter().any(|f| f.rule_id == rule_id)
}

fn rule<'a>(findings: &'a [Finding], rule_id: &str) -> &'a Finding {
    findings.iter().find(|f| f.rule_id == rule_id).expect("rule present")
}

// `pub fn add(a: i128, b: i128) -> i128 { a + b }`
fn unchecked_add_contract() -> Contract {
    let mut v = ContractVisitor::new();
    let was = contract_impl(&mut v, "C");
    let rec = function(&mut v, "add", vec![arg("a", "i128"), arg("b", "i128")]);
    binary(&mut v, BinOpKind::Add, ident("a"), ident("b"), pos(3, 40));
    v.exit_fn(rec);
    v.exit_impl(was);
    finish(v)
}

#[test]
fn visitor_records_unchecked_financial_addition() {
    let c = unchecked_add_contract();
    assert_eq!(c.name, "C");
    assert_eq!(c.functions.len(), 1);
    let ops = &c.functions[0].body_analysis.arithmetic_ops;
    assert_eq!(ops.len(), 1);
    assert_eq!(ops[0].op, ArithOp::Add);
    assert_eq!(ops[0].return_type, "i128");
    assert!(!ops[0].is_checked);
    let findings = OverflowChecker.analyze(&c);
    assert!(has_rule(&findings, "O-01"));
    let o01 = rule(&findings, "O-01");
    assert_eq!(o01.severity, Severity::High);
    assert!(o01.suggestion.contains("checked_add"));
    assert_eq!(o01.location, "C:3:40");
}

#[test]
fn visitor_ignores_non_financial_arithmetic() {
    let mut v = ContractVisitor::new();
    let was = contract_impl(&mut v, "C");
    let rec = function(&mut v, "add", vec![arg("a", "u32"), arg("b", "u32")]);
    binary(&mut v, BinOpKind::Add, ident("a"), ident("b"), pos(3, 10));
    v.exit_fn(rec);
    v.exit_impl(was);
    let c = finish(v);
    assert_eq!(c.functions[0].body_analysis.arithmetic_ops[0].return_type, "unknown");
    assert!(!has_rule(&OverflowChecker.analyze(&c), "O-01"));
}

#[test]
fn visitor_marks_checked_method_calls() {
    let mut v = ContractVisitor::new();
    let was = contract_impl(&mut v, "C");
    let rec = function(&mut v, "add", vec![arg("a", "i128"), arg("b", "i128")]);
    let call = MethodCallInfo {
        method: "checked_add".to_string(),
        chain: vec!["a".to_string(), "checked_add".to_string()],
        receiver: ident("a"),
        receiver_call: None,
        args: vec![ident("b")],
        position: pos(3, 12),
    };
    v.record_method_call(&call);
    v.exit_fn(rec);
    v.exit_impl(was);
    let c = finish(v);
    let ops = &c.functions[0].body_analysis.arithmetic_ops;
    assert_eq!(ops.len(), 1);
    assert!(ops[0].is_checked);
    assert_eq!(ops[0].left, "a");
    assert_eq!(ops[0].right, "b");
    assert!(!has_rule(&OverflowChecker.analyze(&c), "O-01"));
}

#[test]
fn visitor_division_by_literal_and_variable() {
    let mut v = ContractVisitor::new();
    let was = contract_impl(&mut v, "C");
    let rec = function(&mut v, "div", vec![arg("a", "i128"), arg("b", "i128")]);
    binary(&mut v, BinOpKind::Div, ident("a"), int_lit("100"), pos(2, 5));
    binary(&mut v, BinOpKind::Div, ident("a"), ident("b"), pos(3, 5));
    v.exit_fn(rec);
    v.exit_impl(was);
    let c = finish(v);
    let ops = &c.functions[0].body_analysis.arithmetic_ops;
    assert!(ops[0].divisor_checked);
    assert!(!ops[1].divisor_checked);
    let findings = OverflowChecker.analyze(&c);
    let o03: Vec<&Finding> = findings.iter().filter(|f| f.rule_id == "O-03").collect();
    assert_eq!(o03.len(), 1);
    assert_eq!(o03[0].severity, Severity::Medium);
    assert_eq!(o03[0].location, "C:3:5");
}

#[test]
fn visitor_zero_literal_is_not_a_safe_divisor() {
    let mut v = ContractVisitor::new();
    let was = contract_impl(&mut v, "C");
    let rec = function(&mut v, "div", vec![arg("a", "i128")]);
    binary(&mut v, BinOpKind::Div, ident("a"), int_lit("0"), pos(2, 5));
    v.exit_fn(rec);
    v.exit_impl(was);
    let c = finish(v);
    assert!(!c.functions[0].body_analysis.arithmetic_ops[0].divisor_checked);
}

// `for _ in 0..count { total += item; }` with `let mut total: i128 = 0;`
fn loop_contract(range_end: Option<&str>) -> Contract {
    let mut v = ContractVisitor::new();
    let was = contract_impl(&mut v, "C");
    let rec = function(&mut v, "sum", vec![arg("count", "u32"), arg("item", "i128")]);
    v.note_local("total", "i128");
    v.enter_for_loop(range_end);
    binary(&mut v, BinOpKind::AddAssign, ident("total"), ident("item"), pos(4, 20));
    v.exit_loop();
    v.exit_fn(rec);
    v.exit_impl(was);
    finish(v)
}

#[test]
fn visitor_dynamic_loop_accumulation_is_o04() {
    let c = loop_contract(None);
    let e = &c.functions[0].body_analysis.arithmetic_ops[0];
    assert!(e.in_loop && e.dynamic_loop && e.is_compound);
    assert!(c.functions[0].body_analysis.has_loops);
    let findings = OverflowChecker.analyze(&c);
    assert!(has_rule(&findings, "O-04"));
    assert_eq!(rule(&findings, "O-04").severity, Severity::High);
}

#[test]
fn visitor_small_constant_loop_is_static() {
    let c = loop_contract(Some("10"));
    let e = &c.functions[0].body_analysis.arithmetic_ops[0];
    assert!(e.in_loop && !e.dynamic_loop);
    assert!(!has_rule(&OverflowChecker.analyze(&c), "O-04"));
    let c = loop_contract(Some("100"));
    assert!(c.functions[0].body_analysis.arithmetic_ops[0].dynamic_loop);
}

#[test]
fn visitor_comparison_marks_arithmetic_compared() {
    let mut v = ContractVisitor::new();
    let was = contract_impl(&mut v, "C");
    let rec = function(&mut v, "check", vec![arg("a", "i128"), arg("b", "i128"), arg("max", "i128")]);
    let cmp = BinaryInfo { op: BinOpKind::Gt, left: ident("a"), right: ident("max"), position: pos(2, 10) };
    v.begin_binary(&cmp);
    binary(&mut v, BinOpKind::Add, ident("a"), ident("b"), pos(2, 5));
    v.end_binary(BinOpKind::Gt);
    binary(&mut v, BinOpKind::Sub, ident("a"), ident("b"), pos(3, 5));
    v.exit_fn(rec);
    v.exit_impl(was);
    let c = finish(v);
    let ops = &c.functions[0].body_analysis.arithmetic_ops;
    assert!(ops[0].compared);
    assert!(!ops[1].compared);
    let findings = OverflowChecker.analyze(&c);
    assert!(has_rule(&findings, "O-02"));
    assert_eq!(rule(&findings, "O-01").location, "C:3:5");
}

#[test]
fn visitor_records_truncating_cast() {
    let mut v = ContractVisitor::new();
    let was = contract_impl(&mut v, "C");
    let rec = function(&mut v, "shrink", vec![arg("amount", "i128"), arg("n", "u64")]);
    v.record_cast(&ident("amount"), "u32", pos(2, 12));
    v.record_cast(&ident("n"), "u32", pos(3, 12));
    v.exit_fn(rec);
    v.exit_impl(was);
    let c = finish(v);
    let casts = &c.functions[0].body_analysis.casts;
    assert_eq!(casts.len(), 1);
    assert_eq!(casts[0].to, "u32");
    assert_eq!(casts[0].from, "amount");
    let findings = OverflowChecker.analyze(&c);
    let o05 = rule(&findings, "O-05");
    assert_eq!(o05.severity, Severity::Low);
    assert!(o05.message.contains("u32"));
}

#[test]
fn visitor_records_storage_operations() {
    let mut v = ContractVisitor::new();
    let was = contract_impl(&mut v, "Vault");
    let rec = function(&mut v, "deposit", vec![arg("env", "Env"), arg("amount", "i128")]);
    let chain = |op: &str| -> Vec<String> {
        vec!["env".to_string(), "storage".to_string(), "instance".to_string(), op.to_string()]
    };
    let get = MethodCallInfo {
        method: "get".to_string(),
        chain: chain("get"),
        receiver: ident("env"),
        receiver_call: None,
        args: vec![symbol("balance")],
        position: pos(2, 40),
    };
    v.record_method_call(&get);
    // `.get(..).unwrap()` is not a storage operation of its own.
    let unwrap = MethodCallInfo {
        method: "unwrap".to_string(),
        chain: vec!["env".into(), "storage".into(), "instance".into(), "get".into(), "unwrap".into()],
        receiver: ident("env"),
        receiver_call: None,
        args: vec![],
        position: pos(2, 60),
    };
    v.record_method_call(&unwrap);
    let set = MethodCallInfo {
        method: "set".to_string(),
        chain: chain("set"),
        receiver: ident("env"),
        receiver_call: None,
        args: vec![str_lit("balance"), ident("amount")],
        position: pos(3, 30),
    };
    v.record_method_call(&set);
    v.exit_fn(rec);
    v.exit_impl(was);
    let c = finish(v);
    let body = &c.functions[0].body_analysis;
    assert_eq!(body.storage_reads.len(), 1);
    assert_eq!(body.storage_writes.len(), 1);
    assert_eq!(body.storage_reads[0].key, "balance");
    assert!(matches!(body.storage_reads[0].key_type, StorageKeyType::Symbol));
    assert_eq!(body.storage_reads[0].access_type, StorageAccessType::Read);
    assert_eq!(body.storage_reads[0].storage_type, StorageType::Instance);
    assert!(matches!(body.storage_writes[0].key_type, StorageKeyType::String));
    assert_eq!(body.storage_writes[0].value_type.as_deref(), Some("amount"));
    // Storage keys: each function's writes, then its reads.
    assert_eq!(c.storage_keys.len(), 2);
    assert_eq!(c.storage_keys[0].access_type, StorageAccessType::Write);
    assert_eq!(c.storage_keys[1].access_type, StorageAccessType::Read);
}

#[test]
fn visitor_records_cross_contract_calls_and_dependencies() {
    let mut v = ContractVisitor::new();
    let was = contract_impl(&mut v, "Vault");
    let rec = function(&mut v, "withdraw", vec![arg("env", "Env"), arg("token", "Address")]);
    let invoke = MethodCallInfo {
        method: "invoke_contract".to_string(),
        chain: vec!["env".to_string(), "invoke_contract".to_string()],
        receiver: ident("env"),
        receiver_call: None,
        args: vec![ident("token"), symbol("transfer"), ExprInfo { tuple_len: Some(3), ..ident("args") }],
        position: pos(5, 9),
    };
    v.record_method_call(&invoke);
    let client = MethodCallInfo {
        method: "transfer".to_string(),
        chain: vec!["TokenClient".to_string(), "new".to_string(), "transfer".to_string()],
        receiver: ident("client"),
        receiver_call: Some((vec!["TokenClient".to_string(), "new".to_string()], Some(ident("token")))),
        args: vec![ident("a"), ident("b"), ident("c")],
        position: pos(6, 9),
    };
    v.record_method_call(&client);
    v.exit_fn(rec);
    v.exit_impl(was);
    let c = finish(v);
    let calls = &c.functions[0].body_analysis.cross_contract_calls;
    assert_eq!(calls.len(), 2);
    assert_eq!(calls[0].target, "token");
    assert_eq!(calls[0].function, "transfer");
    assert_eq!(calls[0].args_count, 3);
    assert!(!calls[0].read_only);
    assert_eq!(calls[1].target, "token");
    assert_eq!(calls[1].function, "transfer");
    assert_eq!(calls[1].args_count, 3);
    assert!(c.functions[0].body_analysis.calls_external);
    // Both calls go to `token`: one dependency.
    assert_eq!(c.dependencies, vec!["token".to_string()]);
}

#[test]
fn visitor_symbol_target_is_quoted() {
    let mut v = ContractVisitor::new();
    let was = contract_impl(&mut v, "Vault");
    let rec = function(&mut v, "f", vec![]);
    let invoke = MethodCallInfo {
        method: "invoke_contract_read_only".to_string(),
        chain: vec!["env".to_string(), "invoke_contract_read_only".to_string()],
        receiver: ident("env"),
        receiver_call: None,
        args: vec![symbol("oracle")],
        position: pos(2, 9),
    };
    v.record_method_call(&invoke);
    v.exit_fn(rec);
    v.exit_impl(was);
    let c = finish(v);
    let call = &c.functions[0].body_analysis.cross_contract_calls[0];
    assert_eq!(call.target, "Symbol(\"oracle\")");
    assert_eq!(call.function, "");
    assert_eq!(call.args_count, 0);
    assert!(call.read_only);
}

#[test]
fn visitor_records_auth_checks() {
    let mut v = ContractVisitor::new();
    let was = contract_impl(&mut v, "C");
    let rec = function(&mut v, "f", vec![arg("caller", "Address")]);
    let on_addr = MethodCallInfo {
        method: "require_auth".to_string(),
        chain: vec!["caller".to_string(), "require_auth".to_string()],
        receiver: ident("caller"),
        receiver_call: None,
        args: vec![],
        position: pos(2, 9),
    };
    v.record_method_call(&on_addr);
    let on_env = MethodCallInfo {
        method: "require_auth_for_args".to_string(),
        chain: vec!["env".to_string(), "require_auth_for_args".to_string()],
        receiver: ident("env"),
        receiver_call: None,
        args: vec![ident("admin")],
        position: pos(3, 9),
    };
    v.record_method_call(&on_env);
    let bare = CallInfo {
        path: vec!["require_auth".to_string()],
        ident: Some("require_auth".to_string()),
        args: vec![str_lit("GABC")],
        position: pos(4, 9),
    };
    v.record_call(&bare);
    v.exit_fn(rec);
    v.exit_impl(was);
    let c = finish(v);
    let auth = &c.functions[0].body_analysis.auth_checks;
    assert_eq!(auth.len(), 3);
    assert_eq!(auth[0].kind, AuthKind::RequireAuth);
    assert_eq!(auth[0].target, "caller");
    assert_eq!(auth[1].kind, AuthKind::RequireAuthForArgs);
    assert_eq!(auth[1].target, "admin");
    assert_eq!(auth[2].target, "GABC");
}

#[test]
fn visitor_records_hardcoded_addresses() {
    let mut v = ContractVisitor::new();
    let was = contract_impl(&mut v, "C");
    let rec = function(&mut v, "f", vec![]);
    let call = CallInfo {
        path: vec!["Address".to_string(), "from_str".to_string()],
        ident: None,
        args: vec![ident("env"), str_lit("GADDR")],
        position: pos(7, 13),
    };
    v.record_call(&call);
    v.exit_fn(rec);
    v.exit_impl(was);
    let c = finish(v);
    let addrs = &c.functions[0].body_analysis.hardcoded_address_strs;
    assert_eq!(addrs.len(), 1);
    assert_eq!(addrs[0].0, "GADDR");
    assert_eq!(addrs[0].1, pos(7, 13));
}

#[test]
fn visitor_outside_contractimpl_records_nothing() {
    let mut v = ContractVisitor::new();
    let was = v.enter_impl(&ImplInfo { has_contractimpl: false, trait_path: None, self_type: "Helper".to_string() });
    let rec = function(&mut v, "helper", vec![arg("a", "i128")]);
    assert!(!rec);
    binary(&mut v, BinOpKind::Add, ident("a"), ident("a"), pos(1, 1));
    v.exit_fn(rec);
    v.exit_impl(was);
    let c = finish(v);
    assert_eq!(c.name, "Unknown");
    assert!(c.functions.is_empty());
}

#[test]
fn visitor_names_contract_from_trait_or_type() {
    let mut v = ContractVisitor::new();
    let was = v.enter_impl(&ImplInfo {
        has_contractimpl: true,
        trait_path: Some(vec!["token".to_string(), "Interface".to_string()]),
        self_type: "Token".to_string(),
    });
    v.exit_impl(was);
    let was = contract_impl(&mut v, "Other");
    v.exit_impl(was);
    assert_eq!(finish(v).name, "token::Interface");
    let mut v = ContractVisitor::new();
    let was = contract_impl(&mut v, "impl impl Token");
    v.exit_impl(was);
    assert_eq!(finish(v).name, "Token");
}

#[test]
fn visitor_function_header() {
    let mut v = ContractVisitor::new();
    let was = contract_impl(&mut v, "C");
    let rec = v.enter_fn(FnInfo {
        name: "__constructor".to_string(),
        args: vec![arg("env", "Env")],
        return_type: None,
        is_public: false,
        attributes: vec!["contractimpl".to_string(), "inline".to_string(), "contract".to_string()],
    });
    v.note_unsafe();
    v.exit_fn(rec);
    v.exit_impl(was);
    let c = finish(v);
    let f = &c.functions[0];
    assert!(f.is_init);
    assert_eq!(f.return_type, "()");
    assert_eq!(f.attributes, vec!["inline".to_string()]);
    assert!(f.body_analysis.has_unsafe);
}

#[test]
fn visitor_guard_key_suppresses_r03() {
    let mut v = ContractVisitor::new();
    let was = contract_impl(&mut v, "Vault");
    let rec = function(&mut v, "withdraw", vec![arg("env", "Env"), arg("token", "Address")]);
    let set = MethodCallInfo {
        method: "set".to_string(),
        chain: vec!["env".into(), "storage".into(), "temporary".into(), "set".into()],
        receiver: ident("env"),
        receiver_call: None,
        args: vec![symbol("LOCKED"), ident("flag")],
        position: pos(2, 30),
    };
    v.record_method_call(&set);
    let invoke = MethodCallInfo {
        method: "invoke_contract".to_string(),
        chain: vec!["env".to_string(), "invoke_contract".to_string()],
        receiver: ident("env"),
        receiver_call: None,
        args: vec![ident("token"), symbol("transfer")],
        position: pos(3, 9),
    };
    v.record_method_call(&invoke);
    v.exit_fn(rec);
    v.exit_impl(was);
    let c = finish(v);
    assert!(!has_rule(&ReentrancyDetector.analyze(&c), "R-03"));
}

#[test]
fn patterns_recognise_names() {
    assert!(method_is_require_auth("require_auth"));
    assert!(!method_is_require_auth("require_auth_for_args"));
    assert!(method_is_invoke_contract("invoke_contract_read_only"));
    assert!(!method_is_invoke_contract("invoke"));
    assert_eq!(detect_storage_type("persistent"), Some(StorageType::Persistent));
    assert_eq!(detect_storage_type("storage"), None);
    assert_eq!(detect_storage_access_type("del"), Some(StorageAccessType::Delete));
    assert_eq!(detect_storage_access_type("has"), Some(StorageAccessType::Check));
    assert_eq!(detect_storage_access_type("remove"), None);
}

#[test]
fn patterns_classify_arithmetic_methods() {
    assert_eq!(classify_arith_method("checked_add"), Some((ArithOp::Add, ArithKind::Checked)));
    assert_eq!(classify_arith_method("saturating_sub"), Some((ArithOp::Sub, ArithKind::Saturating)));
    assert_eq!(classify_arith_method("wrapping_mul"), Some((ArithOp::Mul, ArithKind::Wrapping)));
    assert_eq!(classify_arith_method("overflowing_rem"), Some((ArithOp::Mod, ArithKind::Overflowing)));
    assert_eq!(classify_arith_method("checked_pow"), None);
    assert_eq!(classify_arith_method("add"), None);
}

#[test]
fn patterns_type_names() {
    assert_eq!(simple_type_name("&soroban_sdk::Vec<i128>"), "Vec");
    assert_eq!(simple_type_name("  & & core :: primitive :: u 32 "), "u32");
    assert_eq!(simple_type_name("a:::b"), ":b");
    assert!(is_financial_type("i128"));
    assert!(is_financial_type(" u 128"));
    assert!(!is_financial_type("&i128"));
    assert!(is_narrowing_int_type("&u32"));
    assert!(is_narrowing_int_type("std::primitive::usize"));
    assert!(!is_narrowing_int_type("i128"));
}

fn macro_expr(name: &str, body: Option<&str>, list: Option<usize>) -> ExprInfo {
    ExprInfo {
        tokens: format!("{name} ! (..)"),
        path: None,
        inner_tokens: format!("{name} ! (..)"),
        inner_path: None,
        string_lit: None,
        int_digits: None,
        idents: vec![],
        call: None,
        macro_call: Some(MacroShape {
            ident: Some(name.to_string()),
            string_body: body.map(|b| b.to_string()),
            list_len: list,
        }),
        tuple_len: None,
    }
}

#[test]
fn expression_shapes() {
    assert_eq!(symbol("balance").symbol_of(), Some("balance".to_string()));
    assert_eq!(macro_expr("symbol_short", Some("ADMIN"), Some(1)).symbol_of(), Some("ADMIN".to_string()));
    assert_eq!(macro_expr("symbol", Some("b"), Some(1)).symbol_of(), Some("b".to_string()));
    assert_eq!(macro_expr("other", Some("ADMIN"), Some(1)).symbol_of(), None);
    assert_eq!(ident("x").symbol_of(), None);
    assert_eq!(macro_expr("vec", None, Some(4)).count_call_args(), 4);
    assert_eq!(macro_expr("vec", None, None).count_call_args(), 1);
    assert_eq!(ExprInfo { tuple_len: Some(0), ..ident("t") }.count_call_args(), 0);
    assert_eq!(ident("t").count_call_args(), 1);
    let not_symbol = ExprInfo {
        call: Some(CallShape { path: vec!["Bytes".to_string(), "new".to_string()], string_args: vec![Some("k".to_string())] }),
        ..ident("b")
    };
    assert_eq!(not_symbol.symbol_of(), None);
    assert_eq!(not_symbol.target_of(), "b");
}

#[test]
fn guard_keys_ignore_case() {
    assert!(is_guard_key("reentrancy_lock"));
    assert!(is_guard_key("Guard"));
    assert!(!is_guard_key("balance"));
}
