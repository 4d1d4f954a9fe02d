//! Access-control detection (rules A-01 to A-05).
use vstd::prelude::*;

use super::{location, location_spec, push_finding};
use crate::parser::ast::{AuthKind, Contract, ContractFn, FnBodyAnalysis, FnVisibility, SourcePos};
use crate::report::finding::{finding_spec, Finding, FindingView};
use crate::report::severity::Severity;
use crate::text::{cat, contains_str, copy_str, has_infix, same_text};

verus! {

/// The access-control detector (rules A-01 to A-05).
pub struct AccessControlDetector;

// ---------------------------------------------------------------------------
// Specification
// ---------------------------------------------------------------------------
/// The name marks an administrative function.
pub open spec fn admin_name(name: Seq<char>) -> bool {
    ||| has_infix(name, "admin"@)
    ||| has_infix(name, "owner"@)
    ||| has_infix(name, "manager"@)
    ||| has_infix(name, "set_"@)
    ||| has_infix(name, "update_"@)
    ||| has_infix(name, "configure"@)
    ||| has_infix(name, "upgrade"@)
    ||| has_infix(name, "pause"@)
    ||| has_infix(name, "emergency"@)
}

/// The body performs some authorization call.
pub open spec fn authorized(a: FnBodyAnalysis) -> bool {
    a.auth_checks@.len() > 0
}

/// Some argument has type `Address`.
pub open spec fn takes_address(f: ContractFn) -> bool {
    exists|i: int| 0 <= i < f.args@.len() && (#[trigger] f.args@[i]).arg_type@ == "Address"@
}

/// The body performs an authorization call of kind `k`.
pub open spec fn has_auth_kind(a: FnBodyAnalysis, k: AuthKind) -> bool {
    exists|i: int| 0 <= i < a.auth_checks@.len() && (#[trigger] a.auth_checks@[i]).kind == k
}

/// The function is a constructor or initializer.
pub open spec fn constructor_like(f: ContractFn) -> bool {
    f.name@ == "__constructor"@ || has_infix(f.name@, "init"@)
}

/// The position of the first write, or the unknown position.
pub open spec fn first_write_pos(a: FnBodyAnalysis) -> SourcePos {
    if a.storage_writes@.len() > 0 {
        a.storage_writes@[0].position
    } else {
        SourcePos { line: 0, column: 0 }
    }
}

/// The location string of the unknown position: the contract's name.
pub open spec fn unknown_location(c: Contract) -> Seq<char> {
    location_spec(c.name@, SourcePos { line: 0, column: 0 })
}

pub open spec fn a01_spec(c: Contract, f: ContractFn) -> Seq<FindingView> {
    let a = f.body_analysis;
    if a.storage_writes@.len() == 0 || authorized(a) {
        seq![]
    } else {
        seq![finding_spec(
            if admin_name(f.name@) { Severity::Critical } else { Severity::High },
            "A-01"@,
            "Function '"@ + f.name@ + "' modifies state without authorization check"@,
            location_spec(c.name@, a.storage_writes@[0].position),
            "Add require_auth() with the appropriate Address at the start of this function"@,
        )]
    }
}

pub open spec fn a02_spec(c: Contract, f: ContractFn) -> Seq<FindingView> {
    if !admin_name(f.name@) || authorized(f.body_analysis) {
        seq![]
    } else {
        seq![finding_spec(
            Severity::High,
            "A-02"@,
            "Admin function '"@ + f.name@ + "' is missing authorization check"@,
            location_spec(c.name@, first_write_pos(f.body_analysis)),
            "Add require_auth() with the admin Address at the start of this function"@,
        )]
    }
}

pub open spec fn a03_spec(c: Contract, f: ContractFn) -> Seq<FindingView> {
    if takes_address(f) && has_auth_kind(f.body_analysis, AuthKind::RequireAuthForArgs)
        && !has_auth_kind(f.body_analysis, AuthKind::RequireAuth) {
        seq![finding_spec(
            Severity::Medium,
            "A-03"@,
            "Function '"@ + f.name@
                + "' uses require_auth_for_args but does not authenticate Address parameters directly"@,
            unknown_location(c),
            "Pass the Address parameter(s) to require_auth() or include them in require_auth_for_args"@,
        )]
    } else {
        seq![]
    }
}

/// The first argument of type `Address`.
pub open spec fn first_address_arg(args: Seq<crate::parser::ast::FnArg>) -> Seq<char>
    decreases args.len(),
{
    if args.len() == 0 {
        seq![]
    } else if args[0].arg_type@ == "Address"@ {
        args[0].name@
    } else {
        first_address_arg(args.drop_first())
    }
}

pub open spec fn a04_spec(c: Contract, f: ContractFn) -> Seq<FindingView> {
    let a = f.body_analysis;
    let writes = a.storage_writes@.len() > 0;
    let open_call = if f.visibility == FnVisibility::Public && !takes_address(f) && !authorized(a) {
        seq![finding_spec(
            if writes { Severity::High } else { Severity::Info },
            "A-04"@,
            "Public function '"@ + f.name@ + "' has no authorization check"@ + (if writes {
                " and modifies state"@
            } else {
                ""@
            }) + " \u{2014} anybody can call"@,
            unknown_location(c),
            "Add require_auth() with the appropriate Address if this function should be restricted"@,
        )]
    } else {
        seq![]
    };
    let unchecked_address = if takes_address(f) && !authorized(a) && writes {
        seq![finding_spec(
            Severity::Medium,
            "A-04"@,
            "Function '"@ + f.name@ + "' takes Address parameter '"@ + first_address_arg(f.args@)
                + "' but doesn't authenticate it"@,
            unknown_location(c),
            "Use require_auth() with the Address parameter to ensure only that user can call"@,
        )]
    } else {
        seq![]
    };
    open_call + unchecked_address
}

/// The per-function rules A-01 to A-04, skipping constructors.
pub open spec fn per_fn_spec(c: Contract, f: ContractFn) -> Seq<FindingView> {
    if constructor_like(f) {
        seq![]
    } else {
        a01_spec(c, f) + a02_spec(c, f) + a03_spec(c, f) + a04_spec(c, f)
    }
}

/// A-05 for one function: one finding per hard-coded address.
pub open spec fn a05_for_fn(c: Contract, f: ContractFn) -> Seq<FindingView> {
    f.body_analysis.hardcoded_address_strs@.map_values(
        |h: (String, SourcePos)|
            finding_spec(
                Severity::Medium,
                "A-05"@,
                "Hardcoded address '"@ + h.0@ + "' in function '"@ + f.name@
                    + "' \u{2014} consider making it configurable"@,
                location_spec(c.name@, h.1),
                "Use a configurable storage-based admin address instead of hardcoding"@,
            ),
    )
}

/// Everything the detector reports for a contract.
pub open spec fn access_control_spec(c: Contract) -> Seq<FindingView> {
    crate::analysis::flatten_findings(c.functions@.map_values(|f: ContractFn| per_fn_spec(c, f)))
        + crate::analysis::flatten_findings(c.functions@.map_values(|f: ContractFn| a05_for_fn(c, f)))
}

// ---------------------------------------------------------------------------
// Implementation
// ---------------------------------------------------------------------------
impl AccessControlDetector {
    /// The body performs some authorization call.
    fn has_auth(analysis: &FnBodyAnalysis) -> (r: bool)
        ensures
            r == authorized(*analysis),
    {
        analysis.auth_checks.len() > 0
    }

    /// The name marks an administrative function.
    pub fn is_admin_fn(name: &str) -> (r: bool)
        ensures
            r == admin_name(name@),
    {
        contains_str(name, "admin") || contains_str(name, "owner") || contains_str(name, "manager")
            || contains_str(name, "set_") || contains_str(name, "update_") || contains_str(
            name,
            "configure",
        ) || contains_str(name, "upgrade") || contains_str(name, "pause") || contains_str(
            name,
            "emergency",
        )
    }

    /// Some argument has type `Address`.
    fn has_address_param(func: &ContractFn) -> (r: bool)
        ensures
            r == takes_address(*func),
    {
        let mut i: usize = 0;
        while i < func.args.len()
            invariant
                i <= func.args@.len(),
                forall|j: int| 0 <= j < i ==> (#[trigger] func.args@[j]).arg_type@ != "Address"@,
            decreases func.args@.len() - i,
        {
            if same_text(func.args[i].arg_type.as_str(), "Address") {
                return true;
            }
            i = i + 1;
        }
        false
    }

    /// The function is a constructor or initializer, which the per-function rules skip.
    fn should_skip(func: &ContractFn) -> (r: bool)
        ensures
            r == constructor_like(*func),
    {
        same_text(func.name.as_str(), "__constructor") || contains_str(func.name.as_str(), "init")
    }

    /// A-01: a state-mutating function without authorization.
    fn check_a01(contract: &Contract, func: &ContractFn, out: &mut Vec<Finding>)
        ensures
            final(out).deep_view() == old(out).deep_view() + a01_spec(*contract, *func),
    {
        if !func.body_analysis.has_storage_writes() || Self::has_auth(&func.body_analysis) {
            assert(old(out).deep_view() + a01_spec(*contract, *func) =~= old(out).deep_view());
            return;
        }
        let severity = if Self::is_admin_fn(func.name.as_str()) {
            Severity::Critical
        } else {
            Severity::High
        };
        let msg = cat(cat(copy_str("Function '"), func.name.as_str()), "' modifies state without authorization check");
        let fd = Finding::new(
            severity,
            copy_str("A-01"),
            msg,
            location(contract, &func.body_analysis.storage_writes[0].position),
            copy_str("Add require_auth() with the appropriate Address at the start of this function"),
        );
        push_finding(out, fd);
    }

    /// A-02: an administrative function without authorization.
    fn check_a02(contract: &Contract, func: &ContractFn, out: &mut Vec<Finding>)
        ensures
            final(out).deep_view() == old(out).deep_view() + a02_spec(*contract, *func),
    {
        if !Self::is_admin_fn(func.name.as_str()) || Self::has_auth(&func.body_analysis) {
            assert(old(out).deep_view() + a02_spec(*contract, *func) =~= old(out).deep_view());
            return;
        }
        let pos = if func.body_analysis.storage_writes.len() > 0 {
            func.body_analysis.storage_writes[0].position
        } else {
            SourcePos::unknown()
        };
        let msg = cat(cat(copy_str("Admin function '"), func.name.as_str()), "' is missing authorization check");
        let fd = Finding::new(
            Severity::High,
            copy_str("A-02"),
            msg,
            location(contract, &pos),
            copy_str("Add require_auth() with the admin Address at the start of this function"),
        );
        push_finding(out, fd);
    }

    /// The body performs an authorization call of kind `kind`.
    fn auth_of_kind(analysis: &FnBodyAnalysis, kind: AuthKind) -> (r: bool)
        ensures
            r == has_auth_kind(*analysis, kind),
    {
        let mut i: usize = 0;
        while i < analysis.auth_checks.len()
            invariant
                i <= analysis.auth_checks@.len(),
                forall|j: int| 0 <= j < i ==> (#[trigger] analysis.auth_checks@[j]).kind != kind,
            decreases analysis.auth_checks@.len() - i,
        {
            if analysis.auth_checks[i].kind == kind {
                return true;
            }
            i = i + 1;
        }
        false
    }

    /// A-03: `require_auth_for_args` without a direct `require_auth`.
    fn check_a03(contract: &Contract, func: &ContractFn, out: &mut Vec<Finding>)
        ensures
            final(out).deep_view() == old(out).deep_view() + a03_spec(*contract, *func),
    {
        if !Self::has_address_param(func) {
            assert(old(out).deep_view() + a03_spec(*contract, *func) =~= old(out).deep_view());
            return;
        }
        let has_require_auth = Self::auth_of_kind(&func.body_analysis, AuthKind::RequireAuth);
        let has_require_auth_for_args = Self::auth_of_kind(&func.body_analysis, AuthKind::RequireAuthForArgs);
        if has_require_auth_for_args && !has_require_auth {
            let msg = cat(cat(copy_str("Function '"), func.name.as_str()),
                "' uses require_auth_for_args but does not authenticate Address parameters directly");
            let fd = Finding::new(
                Severity::Medium,
                copy_str("A-03"),
                msg,
                location(contract, &SourcePos::unknown()),
                copy_str("Pass the Address parameter(s) to require_auth() or include them in require_auth_for_args"),
            );
            push_finding(out, fd);
        } else {
            assert(old(out).deep_view() + a03_spec(*contract, *func) =~= old(out).deep_view());
        }
    }

    /// The name of the first argument of type `Address`.
    fn first_address_param(func: &ContractFn) -> (r: &String)
        requires
            takes_address(*func),
        ensures
            r@ == first_address_arg(func.args@),
    {
        let args = &func.args;
        let mut i: usize = 0;
        assert(args@.skip(0) =~= args@);
        while i < args.len()
            invariant
                i <= args@.len(),
                args@ == func.args@,
                first_address_arg(args@) == first_address_arg(args@.skip(i as int)),
                forall|j: int| 0 <= j < i ==> (#[trigger] args@[j]).arg_type@ != "Address"@,
            decreases args@.len() - i,
        {
            assert(args@.skip(i as int)[0] == args@[i as int]);
            assert(args@.skip(i as int).drop_first() =~= args@.skip(i + 1));
            if same_text(args[i].arg_type.as_str(), "Address") {
                return &args[i].name;
            }
            i = i + 1;
        }
        assert(false);
        &func.name
    }

    /// A-04: public functions anybody can call, and unauthenticated `Address` parameters.
    fn check_a04(contract: &Contract, func: &ContractFn, out: &mut Vec<Finding>)
        ensures
            final(out).deep_view() == old(out).deep_view() + a04_spec(*contract, *func),
    {
        let has_auth = Self::has_auth(&func.body_analysis);
        let has_storage_write = func.body_analysis.has_storage_writes();
        let has_address = Self::has_address_param(func);
        let ghost before = out.deep_view();
        if func.visibility == FnVisibility::Public && !has_address && !has_auth {
            let severity = if has_storage_write { Severity::High } else { Severity::Info };
            let suffix = if has_storage_write { " and modifies state" } else { "" };
            let msg = cat(cat(cat(cat(copy_str("Public function '"), func.name.as_str()),
                "' has no authorization check"), suffix), " \u{2014} anybody can call");
            let fd = Finding::new(
                severity,
                copy_str("A-04"),
                msg,
                location(contract, &SourcePos::unknown()),
                copy_str("Add require_auth() with the appropriate Address if this function should be restricted"),
            );
            push_finding(out, fd);
        }
        let ghost mid = out.deep_view();
        if has_address && !has_auth && has_storage_write {
            let addr = Self::first_address_param(func);
            let msg = cat(cat(cat(cat(copy_str("Function '"), func.name.as_str()),
                "' takes Address parameter '"), addr.as_str()), "' but doesn't authenticate it");
            let fd = Finding::new(
                Severity::Medium,
                copy_str("A-04"),
                msg,
                location(contract, &SourcePos::unknown()),
                copy_str("Use require_auth() with the Address parameter to ensure only that user can call"),
            );
            push_finding(out, fd);
        }
        assert(out.deep_view() =~= old(out).deep_view() + a04_spec(*contract, *func));
    }

    /// A-05: hard-coded addresses in any function, constructors included.
    #[verifier::loop_isolation(false)]
    fn check_a05(contract: &Contract, out: &mut Vec<Finding>)
        ensures
            final(out).deep_view() == old(out).deep_view() + crate::analysis::flatten_findings(
                contract.functions@.map_values(|f: ContractFn| a05_for_fn(*contract, f)),
            ),
    {
        let ghost fs = contract.functions@;
        let ghost g = |f: ContractFn| a05_for_fn(*contract, f);
        proof { crate::analysis::lemma_flatten_none(fs, g); }
        let mut i: usize = 0;
        while i < contract.functions.len()
            invariant
                i <= fs.len(),
                out.deep_view() == old(out).deep_view() + crate::analysis::flatten_findings(fs.take(i as int).map_values(g)),
            decreases fs.len() - i,
        {
            let func = &contract.functions[i];
            proof { crate::analysis::lemma_flatten_step(fs, g, i as int); }
            let ghost before = out.deep_view();
            let hs = &func.body_analysis.hardcoded_address_strs;
            let mut j: usize = 0;
            assert(before + a05_for_fn(*contract, *func).take(0) =~= before);
            while j < hs.len()
                invariant
                    j <= hs@.len(),
                    out.deep_view() == before + a05_for_fn(*contract, *func).take(j as int),
                decreases hs@.len() - j,
            {
                let h = &hs[j];
                let msg = cat(cat(cat(cat(copy_str("Hardcoded address '"), h.0.as_str()), "' in function '"),
                    func.name.as_str()), "' \u{2014} consider making it configurable");
                let fd = Finding::new(
                    Severity::Medium,
                    copy_str("A-05"),
                    msg,
                    location(contract, &h.1),
                    copy_str("Use a configurable storage-based admin address instead of hardcoding"),
                );
                push_finding(out, fd);
                assert(a05_for_fn(*contract, *func).take(j + 1) =~= a05_for_fn(*contract, *func).take(j as int).push(
                    a05_for_fn(*contract, *func)[j as int]));
                j = j + 1;
            }
            assert(a05_for_fn(*contract, *func).take(j as int) =~= a05_for_fn(*contract, *func));
            i = i + 1;
        }
        assert(fs.take(fs.len() as int) =~= fs);
    }
}

/// The source-level access-control analyzer.
pub struct AccessControlAnalyzer;

/// Source text is analysed once parsed; this analyzer adds nothing of its own.
impl crate::analysis::Analyzer for AccessControlAnalyzer {
    fn analyze(&self, source: &str, file_path: &str) -> (r: Vec<Finding>)
        ensures
            r@.len() == 0,
    {
        Vec::new()
    }

    fn name(&self) -> (r: &'static str)
        ensures
            r@ == "access_control"@,
    {
        "access_control"
    }
}

impl crate::analysis::AnalysisRule for AccessControlDetector {
    /// `"access_control"`.
    fn id(&self) -> (r: &'static str)
        ensures
            r@ == "access_control"@,
    {
        "access_control"
    }

    fn name(&self) -> (r: &'static str)
        ensures
            r@ == "Access Control Detector"@,
    {
        "Access Control Detector"
    }

    fn description(&self) -> (r: &'static str)
        ensures
            r@ == "Detects missing or weak authorization checks in contract functions"@,
    {
        "Detects missing or weak authorization checks in contract functions"
    }

    /// Exactly the findings this detector's rules give for `c`.
    open spec fn accepts(&self, c: Contract, fs: Seq<FindingView>) -> bool {
        fs == access_control_spec(c)
    }

    #[verifier::loop_isolation(false)]
    fn analyze(&self, contract: &Contract) -> (r: Vec<Finding>)
        ensures
            r.deep_view() == access_control_spec(*contract),
    {
        let mut findings: Vec<Finding> = Vec::new();
        let ghost fs = contract.functions@;
        let ghost g = |f: ContractFn| per_fn_spec(*contract, f);
        proof { crate::analysis::lemma_flatten_none(fs, g); }
        let mut i: usize = 0;
        while i < contract.functions.len()
            invariant
                i <= fs.len(),
                findings.deep_view() == crate::analysis::flatten_findings(fs.take(i as int).map_values(g)),
            decreases fs.len() - i,
        {
            let func = &contract.functions[i];
            proof { crate::analysis::lemma_flatten_step(fs, g, i as int); }
            let ghost before = findings.deep_view();
            if !Self::should_skip(func) {
                Self::check_a01(contract, func, &mut findings);
                Self::check_a02(contract, func, &mut findings);
                Self::check_a03(contract, func, &mut findings);
                Self::check_a04(contract, func, &mut findings);
            }
            assert(findings.deep_view() =~= before + per_fn_spec(*contract, *func));
            i = i + 1;
        }
        assert(fs.take(fs.len() as int) =~= fs);
        Self::check_a05(contract, &mut findings);
        findings
    }
}

// ---------------------------------------------------------------------------
// Laws
// ---------------------------------------------------------------------------
/// Constructors and initializers are exempt from the per-function rules.
pub proof fn law_constructor_exempt(c: Contract, f: ContractFn)
    requires
        constructor_like(f),
    ensures
        per_fn_spec(c, f) == Seq::<FindingView>::empty(),
{
}

/// A function that performs an authorization call is reported neither for
/// unauthorized writes (A-01) nor as an unguarded admin function (A-02).
pub proof fn law_authorized_not_a01_a02(c: Contract, f: ContractFn)
    requires
        authorized(f.body_analysis),
    ensures
        a01_spec(c, f) == Seq::<FindingView>::empty(),
        a02_spec(c, f) == Seq::<FindingView>::empty(),
{
}


/// A function whose name contains admin, owner, manager, set_, update_,
/// configure, upgrade, pause or emergency is an administrative function:
/// with no authorization call it gets an A-02 finding (High) after its A-01
/// finding, if any, and that A-01 finding is Critical.
pub proof fn law_admin_named_function_without_auth(c: Contract, f: ContractFn, w: Seq<char>)
    requires
        w == "admin"@ || w == "owner"@ || w == "manager"@ || w == "set_"@ || w == "update_"@ || w == "configure"@
            || w == "upgrade"@ || w == "pause"@ || w == "emergency"@,
        has_infix(f.name@, w),
        f.name@ != "__constructor"@,
        !has_infix(f.name@, "init"@),
        f.body_analysis.auth_checks@.len() == 0,
    ensures
        admin_name(f.name@),
        ({
            let writes = f.body_analysis.storage_writes@.len() > 0;
            let fs = per_fn_spec(c, f);
            let a02 = fs[if writes { 1int } else { 0int }];
            &&& fs.len() > (if writes { 1int } else { 0int })
            &&& a02.rule_id == "A-02"@
            &&& a02.severity == Severity::High
            &&& a02.message == "Admin function '"@ + f.name@ + "' is missing authorization check"@
            &&& writes ==> fs[0].rule_id == "A-01"@ && fs[0].severity == Severity::Critical
        }),
{
    let fs = per_fn_spec(c, f);
    let a1 = a01_spec(c, f);
    let a2 = a02_spec(c, f);
    let rest = a03_spec(c, f) + a04_spec(c, f);
    assert(fs == a1 + a2 + a03_spec(c, f) + a04_spec(c, f));
    assert(fs =~= a1 + (a2 + rest));
    if f.body_analysis.storage_writes@.len() > 0 {
        assert(a1.len() == 1);
        assert(fs[1] == a2[0]);
    } else {
        assert(a1.len() == 0);
        assert(fs[0] == a2[0]);
    }
}

} // verus!
