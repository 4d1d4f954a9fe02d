//! Integer overflow / underflow detection (rules O-01 to O-05).
//!
//! Soroban contracts run in release mode, where arithmetic wraps silently.
//! The rules read the parser's arithmetic and cast records; an operand is
//! "financial" when it references an identifier annotated `i128`/`u128`.
//!
//! * **O-01** (High)   — unchecked `+`/`-`/`*` on a financial type; a unit
//!   counter `+= 1` is demoted to Medium.
//! * **O-02** (Medium) — such arithmetic used as an operand of a comparison.
//! * **O-03** (Medium) — division/remainder by a divisor that is not a nonzero literal.
//! * **O-04** (High)   — compound accumulation inside a dynamically-bounded loop.
//! * **O-05** (Low)    — a cast that truncates a financial value.
use vstd::prelude::*;

use super::{flatten_findings, lemma_flatten_none, lemma_flatten_step, location, location_spec, push_finding};
use crate::parser::ast::{ArithExpr, ArithOp, CastExpr, Contract, ContractFn};
use crate::report::finding::{finding_spec, Finding, FindingView};
use crate::report::severity::Severity;
use crate::text::{cat, copy_str, same_text};

verus! {

/// The integer overflow checker (rules O-01 to O-05).
pub struct OverflowChecker;

// ---------------------------------------------------------------------------
// Specification
// ---------------------------------------------------------------------------
/// A compound `+= 1` / `-= 1`: the shape of a manual counter.
pub open spec fn unit_counter(e: ArithExpr) -> bool {
    e.is_compound && (e.op == ArithOp::Add || e.op == ArithOp::Sub) && (e.right@ == "1"@
        || e.right@ == "1i128"@ || e.right@ == "1u128"@)
}

/// The additive and multiplicative operators.
pub open spec fn overflowing_op(op: ArithOp) -> bool {
    op == ArithOp::Add || op == ArithOp::Sub || op == ArithOp::Mul
}

/// Unchecked compound accumulation inside a dynamically-bounded loop.
pub open spec fn loop_accumulation(e: ArithExpr) -> bool {
    !e.is_checked && e.in_loop && e.dynamic_loop && e.is_compound && overflowing_op(e.op)
        && !unit_counter(e)
}

/// `left op right`, as messages show it.
pub open spec fn expr_text(e: ArithExpr) -> Seq<char> {
    e.left@ + " "@ + e.op.symbol_spec() + " "@ + e.right@
}

pub open spec fn o04_spec(c: Contract, f: ContractFn, e: ArithExpr) -> Seq<FindingView> {
    if loop_accumulation(e) {
        seq![finding_spec(
            Severity::High,
            "O-04"@,
            "Function '"@ + f.name@ + "' accumulates '"@ + expr_text(e)
                + "' inside a dynamically-bounded loop — iterations may overflow"@,
            location_spec(c.name@, e.position),
            "Use "@ + e.op.checked_method_spec()
                + " inside the loop and handle the overflow, or bound the iteration count"@,
        )]
    } else {
        seq![]
    }
}

pub open spec fn o01_o02_spec(c: Contract, f: ContractFn, e: ArithExpr) -> Seq<FindingView> {
    if e.is_checked || !overflowing_op(e.op) || e.return_type@ != "i128"@ || loop_accumulation(e) {
        seq![]
    } else if e.compared {
        seq![finding_spec(
            Severity::Medium,
            "O-02"@,
            "Function '"@ + f.name@ + "' compares the result of '"@ + expr_text(e)
                + "' against a threshold — partially safe"@,
            location_spec(c.name@, e.position),
            "Use "@ + e.op.checked_method_spec() + " for an explicit, checked result"@,
        )]
    } else {
        seq![finding_spec(
            if unit_counter(e) { Severity::Medium } else { Severity::High },
            "O-01"@,
            "Function '"@ + f.name@ + "' performs unchecked '"@ + expr_text(e)
                + "' on a financial type — possible overflow/underflow"@,
            location_spec(c.name@, e.position),
            "Use "@ + e.left@ + "."@ + e.op.checked_method_spec() + "("@ + e.right@
                + ") instead of the bare operator"@,
        )]
    }
}

pub open spec fn o03_spec(c: Contract, f: ContractFn, e: ArithExpr) -> Seq<FindingView> {
    if e.is_checked || !(e.op == ArithOp::Div || e.op == ArithOp::Mod) || e.divisor_checked {
        seq![]
    } else {
        seq![finding_spec(
            Severity::Medium,
            "O-03"@,
            "Function '"@ + f.name@ + "' divides by unchecked divisor '"@ + e.right@
                + "' — possible division by zero"@,
            location_spec(c.name@, e.position),
            "Check '"@ + e.right@ + "' for zero before dividing, or use "@
                + e.op.checked_method_spec(),
        )]
    }
}

/// O-04, then O-01/O-02, then O-03 for one expression.
pub open spec fn expr_spec(c: Contract, f: ContractFn, e: ArithExpr) -> Seq<FindingView> {
    o04_spec(c, f, e) + o01_o02_spec(c, f, e) + o03_spec(c, f, e)
}

pub open spec fn o05_spec(c: Contract, f: ContractFn, x: CastExpr) -> FindingView {
    finding_spec(
        Severity::Low,
        "O-05"@,
        "Function '"@ + f.name@ + "' casts financial value '"@ + x.from@ + "' to '"@ + x.to@
            + "' — truncates high bits"@,
        location_spec(c.name@, x.position),
        "Guard the range before casting to "@ + x.to@ + ", or keep the value as i128/u128"@,
    )
}

/// Everything reported for one function: its expressions, then its casts.
pub open spec fn fn_spec(c: Contract, f: ContractFn) -> Seq<FindingView> {
    flatten_findings(f.body_analysis.arithmetic_ops@.map_values(|e: ArithExpr| expr_spec(c, f, e)))
        + f.body_analysis.casts@.map_values(|x: CastExpr| o05_spec(c, f, x))
}

/// Everything the checker reports for a contract.
pub open spec fn overflow_spec(c: Contract) -> Seq<FindingView> {
    flatten_findings(c.functions@.map_values(|f: ContractFn| fn_spec(c, f)))
}

// ---------------------------------------------------------------------------
// Implementation
// ---------------------------------------------------------------------------
/// `left op right`.
fn expr_string(e: &ArithExpr) -> (r: String)
    ensures
        r@ == expr_text(*e),
{
    cat(cat(cat(cat(copy_str(e.left.as_str()), " "), e.op.symbol()), " "), e.right.as_str())
}

impl OverflowChecker {
    /// A compound `+= 1` / `-= 1`.
    pub fn is_unit_counter(e: &ArithExpr) -> (r: bool)
        ensures
            r == unit_counter(*e),
    {
        e.is_compound && (e.op == ArithOp::Add || e.op == ArithOp::Sub) && (same_text(
            e.right.as_str(),
            "1",
        ) || same_text(e.right.as_str(), "1i128") || same_text(e.right.as_str(), "1u128"))
    }

    /// The additive and multiplicative operators.
    pub fn is_overflowing_op(op: ArithOp) -> (r: bool)
        ensures
            r == overflowing_op(op),
    {
        op == ArithOp::Add || op == ArithOp::Sub || op == ArithOp::Mul
    }

    /// Unchecked compound accumulation inside a dynamically-bounded loop.
    pub fn is_loop_accumulation(e: &ArithExpr) -> (r: bool)
        ensures
            r == loop_accumulation(*e),
    {
        !e.is_checked && e.in_loop && e.dynamic_loop && e.is_compound && Self::is_overflowing_op(e.op)
            && !Self::is_unit_counter(e)
    }

    /// O-04: accumulation inside a dynamically-bounded loop.
    fn check_o04(contract: &Contract, func: &ContractFn, e: &ArithExpr, out: &mut Vec<Finding>)
        ensures
            final(out).deep_view() == old(out).deep_view() + o04_spec(*contract, *func, *e),
    {
        if Self::is_loop_accumulation(e) {
            let text = expr_string(e);
            let msg = cat(cat(cat(cat(copy_str("Function '"), func.name.as_str()), "' accumulates '"),
                text.as_str()), "' inside a dynamically-bounded loop — iterations may overflow");
            let sugg = cat(cat(copy_str("Use "), e.op.checked_method()),
                " inside the loop and handle the overflow, or bound the iteration count");
            let fd = Finding::new(Severity::High, copy_str("O-04"), msg, location(contract, &e.position), sugg);
            push_finding(out, fd);
        } else {
            assert(old(out).deep_view() + o04_spec(*contract, *func, *e) =~= old(out).deep_view());
        }
    }

    /// O-01 (unchecked arithmetic) and O-02 (arithmetic compared to a threshold).
    fn check_o01_o02(contract: &Contract, func: &ContractFn, e: &ArithExpr, out: &mut Vec<Finding>)
        ensures
            final(out).deep_view() == old(out).deep_view() + o01_o02_spec(*contract, *func, *e),
    {
        if e.is_checked || !Self::is_overflowing_op(e.op) || !same_text(e.return_type.as_str(), "i128")
            || Self::is_loop_accumulation(e) {
            assert(old(out).deep_view() + o01_o02_spec(*contract, *func, *e) =~= old(out).deep_view());
            return;
        }
        let text = expr_string(e);
        if e.compared {
            let msg = cat(cat(cat(cat(copy_str("Function '"), func.name.as_str()), "' compares the result of '"),
                text.as_str()), "' against a threshold — partially safe");
            let sugg = cat(cat(copy_str("Use "), e.op.checked_method()), " for an explicit, checked result");
            let fd = Finding::new(Severity::Medium, copy_str("O-02"), msg, location(contract, &e.position), sugg);
            push_finding(out, fd);
            return;
        }
        let severity = if Self::is_unit_counter(e) { Severity::Medium } else { Severity::High };
        let msg = cat(cat(cat(cat(copy_str("Function '"), func.name.as_str()), "' performs unchecked '"),
            text.as_str()), "' on a financial type — possible overflow/underflow");
        let sugg = cat(cat(cat(cat(cat(cat(copy_str("Use "), e.left.as_str()), "."), e.op.checked_method()), "("),
            e.right.as_str()), ") instead of the bare operator");
        let fd = Finding::new(severity, copy_str("O-01"), msg, location(contract, &e.position), sugg);
        push_finding(out, fd);
    }

    /// O-03: division or remainder by a divisor that is not a nonzero literal.
    fn check_o03(contract: &Contract, func: &ContractFn, e: &ArithExpr, out: &mut Vec<Finding>)
        ensures
            final(out).deep_view() == old(out).deep_view() + o03_spec(*contract, *func, *e),
    {
        if e.is_checked || !(e.op == ArithOp::Div || e.op == ArithOp::Mod) || e.divisor_checked {
            assert(old(out).deep_view() + o03_spec(*contract, *func, *e) =~= old(out).deep_view());
            return;
        }
        let msg = cat(cat(cat(cat(copy_str("Function '"), func.name.as_str()), "' divides by unchecked divisor '"),
            e.right.as_str()), "' — possible division by zero");
        let sugg = cat(cat(cat(copy_str("Check '"), e.right.as_str()), "' for zero before dividing, or use "),
            e.op.checked_method());
        let fd = Finding::new(Severity::Medium, copy_str("O-03"), msg, location(contract, &e.position), sugg);
        push_finding(out, fd);
    }

    /// All overflow rules on one function.
    #[verifier::loop_isolation(false)]
    fn analyze_fn(contract: &Contract, func: &ContractFn, out: &mut Vec<Finding>)
        ensures
            final(out).deep_view() == old(out).deep_view() + fn_spec(*contract, *func),
    {
        let ops = &func.body_analysis.arithmetic_ops;
        let ghost es = ops@;
        let ghost g = |e: ArithExpr| expr_spec(*contract, *func, e);
        proof { lemma_flatten_none(es, g); }
        let mut i: usize = 0;
        while i < ops.len()
            invariant
                i <= es.len(),
                out.deep_view() == old(out).deep_view() + flatten_findings(es.take(i as int).map_values(g)),
            decreases es.len() - i,
        {
            proof { lemma_flatten_step(es, g, i as int); }
            let e = &ops[i];
            Self::check_o04(contract, func, e, out);
            Self::check_o01_o02(contract, func, e, out);
            Self::check_o03(contract, func, e, out);
            i = i + 1;
        }
        assert(es.take(es.len() as int) =~= es);
        let ghost mid = out.deep_view();
        let casts = &func.body_analysis.casts;
        let ghost h = |x: CastExpr| o05_spec(*contract, *func, x);
        let mut j: usize = 0;
        assert(mid + casts@.take(0).map_values(h) =~= mid);
        while j < casts.len()
            invariant
                j <= casts@.len(),
                out.deep_view() == mid + casts@.take(j as int).map_values(h),
            decreases casts@.len() - j,
        {
            let x = &casts[j];
            let msg = cat(cat(cat(cat(cat(cat(copy_str("Function '"), func.name.as_str()), "' casts financial value '"),
                x.from.as_str()), "' to '"), x.to.as_str()), "' — truncates high bits");
            let sugg = cat(cat(copy_str("Guard the range before casting to "), x.to.as_str()),
                ", or keep the value as i128/u128");
            let fd = Finding::new(Severity::Low, copy_str("O-05"), msg, location(contract, &x.position), sugg);
            push_finding(out, fd);
            assert(casts@.take(j + 1).map_values(h) =~= casts@.take(j as int).map_values(h).push(h(casts@[j as int])));
            j = j + 1;
        }
        assert(casts@.take(j as int) =~= casts@);
        assert(out.deep_view() =~= old(out).deep_view() + fn_spec(*contract, *func));
    }
}

impl crate::analysis::AnalysisRule for OverflowChecker {
    /// `"overflow"`.
    fn id(&self) -> (r: &'static str)
        ensures
            r@ == "overflow"@,
    {
        "overflow"
    }

    fn name(&self) -> (r: &'static str)
        ensures
            r@ == "Integer Overflow Checker"@,
    {
        "Integer Overflow Checker"
    }

    fn description(&self) -> (r: &'static str)
        ensures
            r@ == "Detects unchecked integer arithmetic, division-by-zero, loop accumulation, and truncating casts on financial types"@,
    {
        "Detects unchecked integer arithmetic, division-by-zero, loop accumulation, and truncating casts on financial types"
    }

    /// Exactly the findings this detector's rules give for `c`.
    open spec fn accepts(&self, c: Contract, fs: Seq<FindingView>) -> bool {
        fs == overflow_spec(c)
    }

    #[verifier::loop_isolation(false)]
    fn analyze(&self, contract: &Contract) -> (r: Vec<Finding>)
        ensures
            r.deep_view() == overflow_spec(*contract),
    {
        let mut findings: Vec<Finding> = Vec::new();
        let ghost fs = contract.functions@;
        let ghost g = |f: ContractFn| fn_spec(*contract, f);
        proof { lemma_flatten_none(fs, g); }
        let mut i: usize = 0;
        while i < contract.functions.len()
            invariant
                i <= fs.len(),
                findings.deep_view() == flatten_findings(fs.take(i as int).map_values(g)),
            decreases fs.len() - i,
        {
            proof { lemma_flatten_step(fs, g, i as int); }
            Self::analyze_fn(contract, &contract.functions[i], &mut findings);
            i = i + 1;
        }
        assert(fs.take(fs.len() as int) =~= fs);
        findings
    }
}

// ---------------------------------------------------------------------------
// Laws
// ---------------------------------------------------------------------------
/// Arithmetic written with an explicit checked/saturating/wrapping method is
/// never reported.
pub proof fn law_checked_arithmetic_never_reported(c: Contract, f: ContractFn, e: ArithExpr)
    requires
        e.is_checked,
    ensures
        expr_spec(c, f, e) == Seq::<FindingView>::empty(),
{
    assert(expr_spec(c, f, e) =~= Seq::<FindingView>::empty());
}

/// A division or remainder by a nonzero literal is never reported as O-03.
pub proof fn law_literal_divisor_not_o03(c: Contract, f: ContractFn, e: ArithExpr)
    requires
        e.divisor_checked,
    ensures
        o03_spec(c, f, e) == Seq::<FindingView>::empty(),
{
}

/// Arithmetic that is not on a financial type is never reported as O-01 or O-02.
pub proof fn law_non_financial_not_o01(c: Contract, f: ContractFn, e: ArithExpr)
    requires
        e.return_type@ != "i128"@,
    ensures
        o01_o02_spec(c, f, e) == Seq::<FindingView>::empty(),
{
}

/// Arithmetic compared against a threshold is reported as O-02, never O-01.
pub proof fn law_compared_is_not_o01(c: Contract, f: ContractFn, e: ArithExpr)
    requires
        e.compared,
    ensures
        forall|k: int| 0 <= k < o01_o02_spec(c, f, e).len() ==> (#[trigger] o01_o02_spec(c, f, e)[k]).rule_id == "O-02"@,
{
}

/// Accumulation in a loop with a static bound is never reported as O-04.
pub proof fn law_static_loop_not_o04(c: Contract, f: ContractFn, e: ArithExpr)
    requires
        !e.dynamic_loop,
    ensures
        o04_spec(c, f, e) == Seq::<FindingView>::empty(),
{
}


/// A division or a remainder that is not written with a checked method and
/// whose divisor is not a nonzero literal gives exactly one O-03 finding: of
/// Medium severity, naming the function and the divisor, and suggesting
/// `checked_div` or `checked_rem`.  No other expression gives one.
pub proof fn law_unchecked_division_or_remainder_is_o03(c: Contract, f: ContractFn, e: ArithExpr)
    ensures
        o03_spec(c, f, e).len() == (if !e.is_checked && !e.divisor_checked && (e.op == ArithOp::Div || e.op
            == ArithOp::Mod) {
            1int
        } else {
            0int
        }),
        o03_spec(c, f, e).len() == 1 ==> {
            let x = o03_spec(c, f, e)[0];
            &&& x.rule_id == "O-03"@
            &&& x.severity == Severity::Medium
            &&& x.message == "Function '"@ + f.name@ + "' divides by unchecked divisor '"@ + e.right@
                + "' \u{2014} possible division by zero"@
            &&& x.suggestion == "Check '"@ + e.right@ + "' for zero before dividing, or use "@ + (if e.op
                == ArithOp::Div {
                "checked_div"@
            } else {
                "checked_rem"@
            })
        },
{
}

} // verus!
