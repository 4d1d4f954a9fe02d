//! Building a [`Contract`] from a walk over its syntax.
//!
//! The walk itself belongs to the caller: it visits the syntax tree in
//! source order and reports each construct of interest to a
//! [`ContractVisitor`] as plain values (names, token texts, positions).  The
//! visitor decides what each construct means for the contract model.
use vstd::prelude::*;

use crate::parser::ast::{
    ArithExpr, ArithOp, AuthCheck, AuthKind, CastExpr, Contract, ContractFn, CrossContractCall, FnArg,
    FnBodyAnalysis, FnVisibility, SourcePos, StorageAccess, StorageAccessType, StorageKeyType,
};
use crate::parser::patterns::{
    access_type_named, arith_method_spec, classify_arith_method, detect_storage_access_type,
    detect_storage_type, financial_type_spec, is_financial_type, is_narrowing_int_type,
    is_require_auth, is_require_auth_for_args, method_is_invoke_contract, method_is_require_auth,
    method_is_require_auth_for_args, narrowing_type_spec, remove_spaces, simple_type_name,
    simple_type_name_spec, storage_type_named, without_spaces, ArithKind,
};
use crate::text::{
    cat, chars_of, copy_str, join_with, joined, has_prefix, parse_u128, parse_u128_spec, same_text, starts_with_str,
    string_of, trim_chars, trim_spec,
};

verus! {

// ---------------------------------------------------------------------------
// What the walk reports
// ---------------------------------------------------------------------------
/// A binary operator.
#[derive(Debug, Clone, Copy, PartialEq, Eq, Structural)]
pub enum BinOpKind {
    Add,
    Sub,
    Mul,
    Div,
    Rem,
    And,
    Or,
    BitXor,
    BitAnd,
    BitOr,
    Shl,
    Shr,
    Eq,
    Lt,
    Le,
    Ne,
    Ge,
    Gt,
    AddAssign,
    SubAssign,
    MulAssign,
    DivAssign,
    RemAssign,
    BitXorAssign,
    BitAndAssign,
    BitOrAssign,
    ShlAssign,
    ShrAssign,
    Other,
}

/// An expression as the visitor needs it.
pub struct ExprInfo {
    /// The expression's tokens as text.
    pub tokens: String,
    /// The segments of the expression when it is a path.
    pub path: Option<Vec<String>>,
    /// The tokens of the expression without surrounding references,
    /// parentheses and groups.
    pub inner_tokens: String,
    /// The segments of that inner expression when it is a path.
    pub inner_path: Option<Vec<String>>,
    /// The value of the inner expression when it is a string literal.
    pub string_lit: Option<String>,
    /// The decimal digits of the inner expression when it is an integer literal.
    pub int_digits: Option<String>,
    /// Every bare identifier the expression refers to.
    pub idents: Vec<String>,
    /// The inner expression when it is a call of a path.
    pub call: Option<CallShape>,
    /// The inner expression when it is a macro invocation.
    pub macro_call: Option<MacroShape>,
    /// The number of elements when the inner expression is a tuple or an array.
    pub tuple_len: Option<usize>,
}

/// A call `f(args)` of a path, as an argument expression.
pub struct CallShape {
    /// The path's segments.
    pub path: Vec<String>,
    /// For each argument, its value when it is a string literal.
    pub string_args: Vec<Option<String>>,
}

/// A macro invocation `m!(..)`, as an argument expression.
pub struct MacroShape {
    /// The macro's name when its path is a single plain identifier.
    pub ident: Option<String>,
    /// The body's value when it is a single string literal.
    pub string_body: Option<String>,
    /// The number of expressions when the body is a comma-separated list.
    pub list_len: Option<usize>,
}

/// An `impl` block.
pub struct ImplInfo {
    /// The block carries `#[contractimpl]`.
    pub has_contractimpl: bool,
    /// The segments of the implemented trait, if any.
    pub trait_path: Option<Vec<String>>,
    /// The tokens of the implementing type.
    pub self_type: String,
}

/// A function of an `impl` block.
pub struct FnInfo {
    pub name: String,
    /// Each typed argument: its name (`_` when the pattern is not a plain
    /// name) and its type's tokens.
    pub args: Vec<FnArg>,
    /// The tokens of the declared return type; `None` when there is none.
    pub return_type: Option<String>,
    pub is_public: bool,
    /// The path of every attribute, segments joined by `::`.
    pub attributes: Vec<String>,
}

/// A binary expression.
pub struct BinaryInfo {
    pub op: BinOpKind,
    pub left: ExprInfo,
    pub right: ExprInfo,
    /// Where the operator is.
    pub position: SourcePos,
}

/// A method call `receiver.method(args)`.
pub struct MethodCallInfo {
    pub method: String,
    /// The names along the call chain: the receiver's chain followed by the method.
    pub chain: Vec<String>,
    pub receiver: ExprInfo,
    /// When the receiver is a call of a path: the path's segments and, if the
    /// call has arguments, its last argument.
    pub receiver_call: Option<(Vec<String>, Option<ExprInfo>)>,
    pub args: Vec<ExprInfo>,
    /// Where the method name is.
    pub position: SourcePos,
}

/// A call `f(args)` of a path.
pub struct CallInfo {
    /// The path's segments.
    pub path: Vec<String>,
    /// The path's identifier when it is a single plain identifier.
    pub ident: Option<String>,
    pub args: Vec<ExprInfo>,
    /// Where the called path is.
    pub position: SourcePos,
}

// ---------------------------------------------------------------------------
// The visitor's state
// ---------------------------------------------------------------------------
/// Collects the contract model while the syntax is walked.
pub struct ContractVisitor {
    contract_name: String,
    functions: Vec<ContractFn>,
    in_contractimpl: bool,
    current_fn_idx: Option<usize>,
    /// Names known to hold an `i128`/`u128` in the current function.
    financial_idents: Vec<String>,
    /// How many comparisons enclose the current expression.
    compare_depth: usize,
    /// One entry per enclosing loop: whether its bound is dynamic.
    loop_stack: Vec<bool>,
}

/// The state of a [`ContractVisitor`].
pub struct VisitorView {
    pub contract_name: Seq<char>,
    pub functions: Seq<ContractFn>,
    pub in_contractimpl: bool,
    pub current_fn: Option<int>,
    pub financial: Seq<Seq<char>>,
    pub compare_depth: nat,
    pub loop_stack: Seq<bool>,
}

impl View for ContractVisitor {
    type V = VisitorView;

    closed spec fn view(&self) -> VisitorView {
        VisitorView {
            contract_name: self.contract_name@,
            functions: self.functions@,
            in_contractimpl: self.in_contractimpl,
            current_fn: match self.current_fn_idx {
                Some(i) => Some(i as int),
                None => None,
            },
            financial: self.financial_idents.deep_view(),
            compare_depth: self.compare_depth as nat,
            loop_stack: self.loop_stack@,
        }
    }
}

impl VisitorView {
    /// The index of the function being recorded, when it is one.
    pub open spec fn recording(self) -> Option<int> {
        match self.current_fn {
            Some(i) => if 0 <= i < self.functions.len() { Some(i) } else { None },
            None => None,
        }
    }

    /// One of the expression's identifiers is known to be financial.
    pub open spec fn touches_financial(self, idents: Seq<Seq<char>>) -> bool {
        exists|k: int| 0 <= k < idents.len() && self.financial.contains(#[trigger] idents[k])
    }

    /// Inside at least one loop.
    pub open spec fn in_loop(self) -> bool {
        self.loop_stack.len() > 0
    }

    /// The innermost loop has a dynamic bound.
    pub open spec fn dynamic_loop(self) -> bool {
        self.loop_stack.len() > 0 && self.loop_stack.last()
    }

    /// `new` is `self` with only the body of function `i` replaced by `b`.
    pub open spec fn with_body(self, i: int, b: FnBodyAnalysis) -> VisitorView {
        VisitorView {
            functions: self.functions.update(i, ContractFn { body_analysis: b, ..self.functions[i] }),
            ..self
        }
    }
}

impl ContractVisitor {
    /// A visitor that has seen nothing.
    pub fn new() -> (r: ContractVisitor)
        ensures
            r@.contract_name.len() == 0,
            r@.functions.len() == 0,
            !r@.in_contractimpl,
            r@.current_fn is None,
            r@.financial.len() == 0,
            r@.compare_depth == 0,
            r@.loop_stack.len() == 0,
    {
        let v = ContractVisitor {
            contract_name: String::new(),
            functions: Vec::new(),
            in_contractimpl: false,
            current_fn_idx: None,
            financial_idents: Vec::new(),
            compare_depth: 0,
            loop_stack: Vec::new(),
        };
        assert(v.financial_idents.deep_view() =~= Seq::<Seq<char>>::empty());
        v
    }
}

// ---------------------------------------------------------------------------
// Specification of the transitions
// ---------------------------------------------------------------------------
/// `s` without every leading copy of `p` (`trim_start_matches(p)`).
pub open spec fn without_prefixes(s: Seq<char>, p: Seq<char>) -> Seq<char>
    decreases s.len(),
{
    if p.len() > 0 && has_prefix(s, p) {
        without_prefixes(s.skip(p.len() as int), p)
    } else {
        s
    }
}

/// The contract name an `impl` block gives: its trait's path, or else its
/// type without a leading `impl `.
pub open spec fn impl_name(trait_path: Option<Seq<Seq<char>>>, self_type: Seq<char>) -> Seq<char> {
    match trait_path {
        Some(p) => joined(p, "::"@),
        None => without_prefixes(self_type, "impl "@),
    }
}

/// The attribute names kept on a function: all but `contractimpl` and `contract`.
pub open spec fn kept_attributes(attrs: Seq<Seq<char>>) -> Seq<Seq<char>>
    decreases attrs.len(),
{
    if attrs.len() == 0 {
        seq![]
    } else {
        kept_attributes(attrs.drop_last()) + if attrs.last() == "contractimpl"@ || attrs.last() == "contract"@ {
            seq![]
        } else {
            seq![attrs.last()]
        }
    }
}

/// The names among `args` that hold a financial integer type.
pub open spec fn financial_args(args: Seq<FnArg>) -> Seq<Seq<char>>
    decreases args.len(),
{
    if args.len() == 0 {
        seq![]
    } else {
        financial_args(args.drop_last()) + if args.last().name@ != "_"@ && financial_type_spec(args.last().arg_type@) {
            seq![args.last().name@]
        } else {
            seq![]
        }
    }
}

/// The function an `impl` function becomes.
pub open spec fn fn_of(f: ContractFn, info: FnInfo) -> bool {
    &&& f.name@ == info.name@
    &&& f.args == info.args
    &&& f.return_type@ == match info.return_type {
        Some(t) => t@,
        None => "()"@,
    }
    &&& f.visibility == if info.is_public { FnVisibility::Public } else { FnVisibility::Private }
    &&& f.attributes.deep_view() == kept_attributes(info.attributes.deep_view())
    &&& f.is_init == (info.name@ == "__constructor"@)
    &&& f.body_analysis.is_blank()
}

/// A comparison operator.
pub open spec fn comparison(op: BinOpKind) -> bool {
    op == BinOpKind::Gt || op == BinOpKind::Ge || op == BinOpKind::Lt || op == BinOpKind::Le || op
        == BinOpKind::Eq || op == BinOpKind::Ne
}

/// A compound assignment operator.
pub open spec fn compound(op: BinOpKind) -> bool {
    op == BinOpKind::AddAssign || op == BinOpKind::SubAssign || op == BinOpKind::MulAssign || op
        == BinOpKind::DivAssign || op == BinOpKind::RemAssign || op == BinOpKind::ShlAssign || op
        == BinOpKind::ShrAssign
}

/// The arithmetic operator of a binary operator, plain or compound.
pub open spec fn arith_of(op: BinOpKind) -> Option<ArithOp> {
    match op {
        BinOpKind::Add | BinOpKind::AddAssign => Some(ArithOp::Add),
        BinOpKind::Sub | BinOpKind::SubAssign => Some(ArithOp::Sub),
        BinOpKind::Mul | BinOpKind::MulAssign => Some(ArithOp::Mul),
        BinOpKind::Div | BinOpKind::DivAssign => Some(ArithOp::Div),
        BinOpKind::Rem | BinOpKind::RemAssign => Some(ArithOp::Mod),
        BinOpKind::Shl | BinOpKind::ShlAssign => Some(ArithOp::Shl),
        BinOpKind::Shr | BinOpKind::ShrAssign => Some(ArithOp::Shr),
        _ => None,
    }
}

/// The expression is a nonzero integer literal.
pub open spec fn nonzero_literal(e: ExprInfo) -> bool {
    match e.int_digits {
        Some(d) => parse_u128_spec(d@) matches Some(v) && v != 0,
        None => false,
    }
}

/// The loop bound is a small constant: an integer literal below 100.
pub open spec fn small_bound(end: Option<Seq<char>>) -> bool {
    match end {
        Some(d) => parse_u128_spec(d) matches Some(v) && v < 100,
        None => false,
    }
}

/// `a` is the arithmetic record of the binary expression `e` seen in state `v`.
pub open spec fn arith_from_binary(a: ArithExpr, e: BinaryInfo, v: VisitorView) -> bool {
    let financial = v.touches_financial(e.left.idents.deep_view()) || v.touches_financial(e.right.idents.deep_view());
    &&& arith_of(e.op) == Some(a.op)
    &&& a.left@ == without_spaces(e.left.tokens@)
    &&& a.right@ == without_spaces(e.right.tokens@)
    &&& a.return_type@ == if financial { "i128"@ } else { "unknown"@ }
    &&& !a.is_checked
    &&& a.divisor_checked == ((a.op == ArithOp::Div || a.op == ArithOp::Mod) && nonzero_literal(e.right))
    &&& a.compared == (v.compare_depth > 0)
    &&& a.is_compound == compound(e.op)
    &&& a.in_loop == v.in_loop()
    &&& a.dynamic_loop == v.dynamic_loop()
    &&& a.position == e.position
}

/// `c` is the cast record of casting `operand` to `to_type` at `pos`.
pub open spec fn cast_from(c: CastExpr, operand: ExprInfo, to_type: Seq<char>, pos: SourcePos) -> bool {
    &&& c.from@ == without_spaces(operand.tokens@)
    &&& c.from_type@ == "i128/u128"@
    &&& c.to@ == simple_type_name_spec(to_type)
    &&& c.position == pos
}

/// `b2` is `b` with one more arithmetic record, and nothing else changed.
pub open spec fn arith_added(b: FnBodyAnalysis, b2: FnBodyAnalysis) -> bool {
    &&& b2 == FnBodyAnalysis { arithmetic_ops: b2.arithmetic_ops, ..b }
    &&& b2.arithmetic_ops@ == b.arithmetic_ops@.push(b2.arithmetic_ops@.last())
}

/// `b2` is `b` with one more cast record, and nothing else changed.
pub open spec fn cast_added(b: FnBodyAnalysis, b2: FnBodyAnalysis) -> bool {
    &&& b2 == FnBodyAnalysis { casts: b2.casts, ..b }
    &&& b2.casts@ == b.casts@.push(b2.casts@.last())
}

// ---------------------------------------------------------------------------
// Transitions
// ---------------------------------------------------------------------------
/// `s` without every leading copy of `p`.
fn strip_prefixes(s: &str, p: &str) -> (r: String)
    ensures
        r@ == without_prefixes(s@, p@),
{
    let cs = chars_of(s);
    let pc = chars_of(p);
    if pc.len() == 0 {
        return copy_str(s);
    }
    let mut start: usize = 0;
    let mut go = true;
    assert(cs@.skip(0) =~= cs@);
    while go
        invariant
            start <= cs@.len(),
            cs@ == s@,
            pc@ == p@,
            pc@.len() > 0,
            without_prefixes(s@, p@) == without_prefixes(cs@.skip(start as int), p@),
            !go ==> !has_prefix(cs@.skip(start as int), p@),
        decreases cs@.len() - start + (if go { 1int } else { 0int }),
    {
        let ghost rest = cs@.skip(start as int);
        if pc.len() > cs.len() - start {
            go = false;
        } else {
            let mut k: usize = 0;
            let mut same = true;
            while k < pc.len()
                invariant
                    k <= pc@.len(),
                    start <= cs@.len(),
                    pc@.len() <= cs@.len() - start,
                    rest == cs@.skip(start as int),
                    same == (forall|j: int| 0 <= j < k ==> cs@[start + j] == pc@[j]),
                decreases pc@.len() - k,
            {
                assert(start + k < cs@.len());
                assert(cs@.len() == cs.len());
                let at: usize = start + k;
                if cs[at] != pc[k] {
                    same = false;
                }
                k = k + 1;
            }
            if !same {
                assert(!has_prefix(rest, p@)) by {
                    if has_prefix(rest, p@) {
                        assert forall|j: int| 0 <= j < pc@.len() implies cs@[start + j] == pc@[j] by {
                            assert(rest.subrange(0, p@.len() as int)[j] == rest[j]);
                        }
                    }
                }
                go = false;
            } else {
                assert(rest.subrange(0, p@.len() as int) =~= p@);
                assert(rest.skip(p@.len() as int) =~= cs@.skip(start + pc@.len()));
                start = start + pc.len();
            }
        }
    }
    let mut out: Vec<char> = Vec::new();
    let mut i = start;
    while i < cs.len()
        invariant
            start <= i <= cs@.len(),
            out@ == cs@.subrange(start as int, i as int),
        decreases cs@.len() - i,
    {
        out.push(cs[i]);
        assert(cs@.subrange(start as int, i + 1) =~= cs@.subrange(start as int, i as int).push(cs@[i as int]));
        i = i + 1;
    }
    assert(out@ =~= cs@.skip(start as int));
    string_of(out.as_slice())
}

/// Whether a binary operator compares.
pub fn is_comparison(op: BinOpKind) -> (r: bool)
    ensures
        r == comparison(op),
{
    match op {
        BinOpKind::Gt | BinOpKind::Ge | BinOpKind::Lt | BinOpKind::Le | BinOpKind::Eq | BinOpKind::Ne => true,
        _ => false,
    }
}

/// Whether a binary operator is a compound assignment.
pub fn is_compound_assign(op: BinOpKind) -> (r: bool)
    ensures
        r == compound(op),
{
    match op {
        BinOpKind::AddAssign | BinOpKind::SubAssign | BinOpKind::MulAssign | BinOpKind::DivAssign
        | BinOpKind::RemAssign | BinOpKind::ShlAssign | BinOpKind::ShrAssign => true,
        _ => false,
    }
}

/// The arithmetic operator of a binary operator.
pub fn arith_op_of(op: BinOpKind) -> (r: Option<ArithOp>)
    ensures
        r == arith_of(op),
{
    match op {
        BinOpKind::Add | BinOpKind::AddAssign => Some(ArithOp::Add),
        BinOpKind::Sub | BinOpKind::SubAssign => Some(ArithOp::Sub),
        BinOpKind::Mul | BinOpKind::MulAssign => Some(ArithOp::Mul),
        BinOpKind::Div | BinOpKind::DivAssign => Some(ArithOp::Div),
        BinOpKind::Rem | BinOpKind::RemAssign => Some(ArithOp::Mod),
        BinOpKind::Shl | BinOpKind::ShlAssign => Some(ArithOp::Shl),
        BinOpKind::Shr | BinOpKind::ShrAssign => Some(ArithOp::Shr),
        _ => None,
    }
}

/// Whether an expression is a nonzero integer literal.
pub fn is_nonzero_int_literal(e: &ExprInfo) -> (r: bool)
    ensures
        r == nonzero_literal(*e),
{
    match &e.int_digits {
        Some(d) => match parse_u128(d.as_str()) {
            Some(v) => v != 0,
            None => false,
        },
        None => false,
    }
}

/// Whether a `for` loop's range ends at an integer literal below 100.
pub fn is_small_constant_range(end: Option<&str>) -> (r: bool)
    ensures
        r == small_bound(match end { Some(d) => Some(d@), None => None }),
{
    match end {
        Some(d) => match parse_u128(d) {
            Some(v) => v < 100,
            None => false,
        },
        None => false,
    }
}

impl ContractVisitor {
    /// Whether one of `idents` is known to hold a financial integer.
    fn financial_touch(&self, idents: &Vec<String>) -> (r: bool)
        ensures
            r == self@.touches_financial(idents.deep_view()),
    {
        let ghost fin = self.financial_idents.deep_view();
        let ghost ids = idents.deep_view();
        let mut k: usize = 0;
        while k < idents.len()
            invariant
                k <= idents@.len(),
                fin == self.financial_idents.deep_view(),
                ids == idents.deep_view(),
                fin == self@.financial,
                forall|q: int| 0 <= q < k ==> !fin.contains(#[trigger] ids[q]),
            decreases idents@.len() - k,
        {
            let mut j: usize = 0;
            while j < self.financial_idents.len()
                invariant
                    j <= fin.len(),
                    k < ids.len(),
                    fin == self.financial_idents.deep_view(),
                    ids == idents.deep_view(),
                    forall|q: int| 0 <= q < j ==> fin[q] != ids[k as int],
                decreases fin.len() - j,
            {
                if same_text(self.financial_idents[j].as_str(), idents[k].as_str()) {
                    assert(fin[j as int] == ids[k as int]);
                    assert(self@.touches_financial(ids));
                    return true;
                }
                j = j + 1;
            }
            assert(!fin.contains(ids[k as int]));
            k = k + 1;
        }
        assert(!self@.touches_financial(ids));
        false
    }

    /// Enters an `impl` block; returns whether the enclosing block was a
    /// `#[contractimpl]` block, for [`ContractVisitor::exit_impl`].  The
    /// first `#[contractimpl]` block names the contract.
    pub fn enter_impl(&mut self, info: &ImplInfo) -> (was_in: bool)
        ensures
            was_in == old(self)@.in_contractimpl,
            final(self)@ == (VisitorView {
                in_contractimpl: info.has_contractimpl,
                contract_name: if info.has_contractimpl && old(self)@.contract_name.len() == 0 {
                    impl_name(
                        match info.trait_path { Some(p) => Some(p.deep_view()), None => None },
                        info.self_type@,
                    )
                } else {
                    old(self)@.contract_name
                },
                ..old(self)@
            }),
    {
        let was_in = self.in_contractimpl;
        self.in_contractimpl = info.has_contractimpl;
        proof {
            reveal_strlit("");
            if self.contract_name@.len() == 0 {
                assert(self.contract_name@ =~= ""@);
            }
        }
        if info.has_contractimpl && same_text(self.contract_name.as_str(), "") {
            let name = match &info.trait_path {
                Some(p) => join_with(p, "::"),
                None => strip_prefixes(info.self_type.as_str(), "impl "),
            };
            self.contract_name = name;
        }
        proof { reveal_strlit("impl "); }
        was_in
    }

    /// Leaves an `impl` block, restoring what [`ContractVisitor::enter_impl`] returned.
    pub fn exit_impl(&mut self, was_in: bool)
        ensures
            final(self)@ == (VisitorView { in_contractimpl: was_in, ..old(self)@ }),
    {
        self.in_contractimpl = was_in;
    }

    /// Enters a function of an `impl` block.  Inside a `#[contractimpl]`
    /// block the function is recorded and becomes the current one, and its
    /// arguments of type `i128`/`u128` are known to be financial; the result
    /// says whether it was recorded, for [`ContractVisitor::exit_fn`].
    pub fn enter_fn(&mut self, info: FnInfo) -> (recorded: bool)
        ensures
            recorded == old(self)@.in_contractimpl,
            !recorded ==> final(self)@ == old(self)@,
            recorded ==> {
                let n = old(self)@.functions.len();
                &&& final(self)@.functions.len() == n + 1
                &&& final(self)@.functions.take(n as int) == old(self)@.functions
                &&& fn_of(final(self)@.functions[n as int], info)
                &&& final(self)@.current_fn == Some(n as int)
                &&& final(self)@.financial == financial_args(info.args@)
                &&& final(self)@.compare_depth == 0
                &&& final(self)@.loop_stack.len() == 0
                &&& final(self)@.contract_name == old(self)@.contract_name
                &&& final(self)@.in_contractimpl == old(self)@.in_contractimpl
            },
    {
        if !self.in_contractimpl {
            return false;
        }
        let ghost info_attrs = info.attributes.deep_view();
        let ghost info_args = info.args@;
        let is_init = same_text(info.name.as_str(), "__constructor");
        let return_type = match &info.return_type {
            Some(t) => copy_str(t.as_str()),
            None => copy_str("()"),
        };
        let mut attributes: Vec<String> = Vec::new();
        let mut a: usize = 0;
        assert(info_attrs.take(0) =~= Seq::<Seq<char>>::empty());
        while a < info.attributes.len()
            invariant
                a <= info.attributes@.len(),
                info_attrs == info.attributes.deep_view(),
                attributes.deep_view() == kept_attributes(info_attrs.take(a as int)),
            decreases info.attributes@.len() - a,
        {
            assert(info_attrs.take(a + 1).drop_last() =~= info_attrs.take(a as int));
            let n = info.attributes[a].as_str();
            if !same_text(n, "contractimpl") && !same_text(n, "contract") {
                let ghost before = attributes.deep_view();
                attributes.push(copy_str(n));
                assert(attributes.deep_view() =~= before.push(info_attrs[a as int]));
            } else {
                assert(kept_attributes(info_attrs.take(a + 1)) =~= kept_attributes(info_attrs.take(a as int)));
            }
            a = a + 1;
        }
        assert(info_attrs.take(a as int) =~= info_attrs);
        let mut seeded: Vec<String> = Vec::new();
        let mut k: usize = 0;
        assert(info_args.take(0) =~= Seq::<FnArg>::empty());
        while k < info.args.len()
            invariant
                k <= info.args@.len(),
                info_args == info.args@,
                seeded.deep_view() == financial_args(info_args.take(k as int)),
            decreases info.args@.len() - k,
        {
            assert(info_args.take(k + 1).drop_last() =~= info_args.take(k as int));
            let arg = &info.args[k];
            if !same_text(arg.name.as_str(), "_") && is_financial_type(arg.arg_type.as_str()) {
                let ghost before = seeded.deep_view();
                seeded.push(copy_str(arg.name.as_str()));
                assert(seeded.deep_view() =~= before.push(arg.name@));
            } else {
                assert(financial_args(info_args.take(k + 1)) =~= financial_args(info_args.take(k as int)));
            }
            k = k + 1;
        }
        assert(info_args.take(k as int) =~= info_args);
        let func = ContractFn {
            name: info.name,
            args: info.args,
            return_type,
            visibility: if info.is_public { FnVisibility::Public } else { FnVisibility::Private },
            attributes,
            is_init,
            body_analysis: FnBodyAnalysis::new(),
        };
        let idx = self.functions.len();
        self.functions.push(func);
        self.current_fn_idx = Some(idx);
        self.financial_idents = seeded;
        self.compare_depth = 0;
        self.loop_stack = Vec::new();
        proof { reveal_strlit("()"); }
        assert(self@.functions.take(idx as int) =~= old(self)@.functions);
        true
    }

    /// Leaves a function entered with [`ContractVisitor::enter_fn`]; after a
    /// recorded one there is no current function and no financial name.
    pub fn exit_fn(&mut self, recorded: bool)
        ensures
            !recorded ==> final(self)@ == old(self)@,
            recorded ==> final(self)@ == (VisitorView { current_fn: None, financial: seq![], ..old(self)@ }),
    {
        if recorded {
            self.current_fn_idx = None;
            self.financial_idents = Vec::new();
            assert(self.financial_idents.deep_view() =~= Seq::<Seq<char>>::empty());
        }
    }

    /// A `let name: ty = ..` binding: inside a function, a name bound with
    /// type `i128`/`u128` becomes financial.
    pub fn note_local(&mut self, name: &str, ty: &str)
        ensures
            final(self)@ == (VisitorView {
                financial: if old(self)@.current_fn is Some && financial_type_spec(ty@) {
                    old(self)@.financial.push(name@)
                } else {
                    old(self)@.financial
                },
                ..old(self)@
            }),
    {
        if self.current_fn_idx.is_some() && is_financial_type(ty) {
            let ghost before = self.financial_idents.deep_view();
            self.financial_idents.push(copy_str(name));
            assert(self.financial_idents.deep_view() =~= before.push(name@));
        }
    }

    /// Starts a binary expression, before its operands are walked.  A
    /// comparison deepens the comparison nesting; an arithmetic operator in
    /// the current function is recorded.
    pub fn begin_binary(&mut self, e: &BinaryInfo)
        ensures
            comparison(e.op) ==> final(self)@ == (VisitorView {
                compare_depth: if old(self)@.compare_depth < usize::MAX {
                    old(self)@.compare_depth + 1
                } else {
                    old(self)@.compare_depth
                },
                ..old(self)@
            }),
            !comparison(e.op) ==> (match (old(self)@.recording(), arith_of(e.op)) {
                (Some(i), Some(_)) => {
                    let b = old(self)@.functions[i].body_analysis;
                    let b2 = final(self)@.functions[i].body_analysis;
                    &&& final(self)@ == old(self)@.with_body(i, b2)
                    &&& arith_added(b, b2)
                    &&& arith_from_binary(b2.arithmetic_ops@.last(), *e, old(self)@)
                },
                _ => final(self)@ == old(self)@,
            }),
    {
        if is_comparison(e.op) {
            if self.compare_depth < usize::MAX {
                self.compare_depth = self.compare_depth + 1;
            }
            return;
        }
        let op = match arith_op_of(e.op) {
            Some(op) => op,
            None => return,
        };
        let i = match self.current_fn_idx {
            Some(i) => i,
            None => return,
        };
        if i >= self.functions.len() {
            return;
        }
        let financial = self.financial_touch(&e.left.idents) || self.financial_touch(&e.right.idents);
        let rec = ArithExpr {
            op,
            left: remove_spaces(e.left.tokens.as_str()),
            right: remove_spaces(e.right.tokens.as_str()),
            return_type: if financial { copy_str("i128") } else { copy_str("unknown") },
            is_checked: false,
            divisor_checked: (op == ArithOp::Div || op == ArithOp::Mod) && is_nonzero_int_literal(&e.right),
            compared: self.compare_depth > 0,
            is_compound: is_compound_assign(e.op),
            in_loop: self.loop_stack.len() > 0,
            dynamic_loop: self.loop_stack.len() > 0 && self.loop_stack[self.loop_stack.len() - 1],
            position: e.position,
        };
        let ghost old_body = self.functions@[i as int].body_analysis;
        self.functions[i].body_analysis.arithmetic_ops.push(rec);
        assert(self@ == old(self)@.with_body(i as int, self@.functions[i as int].body_analysis));
    }

    /// Ends a binary expression, after its operands were walked.
    pub fn end_binary(&mut self, op: BinOpKind)
        ensures
            final(self)@ == (VisitorView {
                compare_depth: if comparison(op) && old(self)@.compare_depth > 0 {
                    (old(self)@.compare_depth - 1) as nat
                } else {
                    old(self)@.compare_depth
                },
                ..old(self)@
            }),
    {
        if is_comparison(op) && self.compare_depth > 0 {
            self.compare_depth = self.compare_depth - 1;
        }
    }

    /// A cast `operand as to_type`: a financial value cast to a narrower
    /// integer type in the current function is recorded.
    pub fn record_cast(&mut self, operand: &ExprInfo, to_type: &str, position: SourcePos)
        ensures
            match old(self)@.recording() {
                Some(i) => if narrowing_type_spec(to_type@) && old(self)@.touches_financial(operand.idents.deep_view()) {
                    let b = old(self)@.functions[i].body_analysis;
                    let b2 = final(self)@.functions[i].body_analysis;
                    &&& final(self)@ == old(self)@.with_body(i, b2)
                    &&& cast_added(b, b2)
                    &&& cast_from(b2.casts@.last(), *operand, to_type@, position)
                } else {
                    final(self)@ == old(self)@
                },
                None => final(self)@ == old(self)@,
            },
    {
        let i = match self.current_fn_idx {
            Some(i) => i,
            None => return,
        };
        if i >= self.functions.len() {
            return;
        }
        if is_narrowing_int_type(to_type) && self.financial_touch(&operand.idents) {
            let rec = CastExpr {
                from: remove_spaces(operand.tokens.as_str()),
                from_type: copy_str("i128/u128"),
                to: simple_type_name(to_type),
                position,
            };
            self.functions[i].body_analysis.casts.push(rec);
            assert(self@ == old(self)@.with_body(i as int, self@.functions[i as int].body_analysis));
        }
    }
}

// ---------------------------------------------------------------------------
// Method calls, calls, loops and the finished contract
// ---------------------------------------------------------------------------
/// What `format!("{:?}", s)` gives for a string: `s` quoted, with the
/// characters `Debug` escapes escaped.
pub uninterp spec fn debug_text(s: Seq<char>) -> Seq<char>;

/// A string in quotes, as `Debug` prints it.
///
/// Trusted: calls `format!("{:?}", s)` (`<str as Debug>::fmt`), whose text
/// depends only on the characters of `s`; it is named `debug_text`.
#[verifier::external_body]
fn debug_quote(s: &str) -> (r: String)
    ensures
        r@ == debug_text(s@),
{
    format!("{:?}", s)
}

/// A path's segments joined by `::`, or else the tokens.
pub open spec fn expr_text(path: Option<Seq<Seq<char>>>, tokens: Seq<char>) -> Seq<char> {
    match path {
        Some(p) => joined(p, "::"@),
        None => tokens,
    }
}

/// The first string among `args`.
pub open spec fn first_string(args: Seq<Option<String>>) -> Option<Seq<char>>
    decreases args.len(),
{
    if args.len() == 0 {
        None
    } else {
        match args[0] {
            Some(s) => Some(s@),
            None => first_string(args.drop_first()),
        }
    }
}

impl ExprInfo {
    /// The name of a symbol the expression builds: the first string-literal
    /// argument of a call of `Symbol..`/`symbol..`, or the string of
    /// `symbol_short!("..")` or `symbol!("..")`.
    pub open spec fn symbol(self) -> Option<Seq<char>> {
        match self.call {
            Some(c) => if c.path@.len() > 0 && (c.path@[0]@ == "Symbol"@ || c.path@[0]@ == "symbol"@) {
                first_string(c.string_args@)
            } else {
                None
            },
            None => match self.macro_call {
                Some(m) => if m.ident matches Some(i) && (i@ == "symbol_short"@ || i@ == "symbol"@) {
                    match m.string_body {
                        Some(b) => Some(b@),
                        None => None,
                    }
                } else {
                    None
                },
                None => None,
            },
        }
    }

    /// The number of arguments an argument container holds: the elements of
    /// a tuple or an array, the expressions of a `vec![..]` (1 when its body
    /// is not a list), 1 for anything else.
    pub open spec fn elements(self) -> nat {
        match self.tuple_len {
            Some(n) => n as nat,
            None => match self.macro_call {
                Some(m) => if m.ident matches Some(i) && i@ == "vec"@ {
                    match m.list_len {
                        Some(n) => n as nat,
                        None => 1,
                    }
                } else {
                    1
                },
                None => 1,
            },
        }
    }

    /// The expression as text: a path by its segments, anything else by its tokens.
    pub open spec fn text(self) -> Seq<char> {
        expr_text(match self.path { Some(p) => Some(p.deep_view()), None => None }, self.tokens@)
    }

    /// The inner expression as text.
    pub open spec fn inner_text(self) -> Seq<char> {
        expr_text(match self.inner_path { Some(p) => Some(p.deep_view()), None => None }, self.inner_tokens@)
    }

    /// The call target an argument names: a string literal's value, a symbol
    /// as `Symbol("name")`, or the inner expression's text.
    pub open spec fn target(self) -> Seq<char> {
        match self.string_lit {
            Some(s) => s@,
            None => match self.symbol() {
                Some(s) => "Symbol("@ + debug_text(s) + ")"@,
                None => self.inner_text(),
            },
        }
    }

    /// The invoked function an argument names: a symbol, a string literal's
    /// value, or the expression's text.
    pub open spec fn invoked_name(self) -> Seq<char> {
        match self.symbol() {
            Some(s) => s,
            None => match self.string_lit {
                Some(s) => s@,
                None => self.text(),
            },
        }
    }

    /// The value text of a storage write: the tokens without leading `&`
    /// and surrounding white space.
    pub open spec fn value_text(self) -> Seq<char> {
        trim_spec(crate::parser::patterns::without_leading_refs(self.tokens@))
    }
}

/// The key an access records for its key argument.
pub open spec fn key_from(a: StorageAccess, arg: Option<ExprInfo>) -> bool {
    match arg {
        None => a.key@ == "unknown"@ && (a.key_type matches StorageKeyType::Other(s) && s@ == "unknown"@),
        Some(e) => match e.string_lit {
            Some(s) => a.key@ == s@ && a.key_type is String,
            None => match e.symbol() {
                Some(s) => a.key@ == s && a.key_type is Symbol,
                None => {
                    &&& a.key@ == e.text()
                    &&& if has_prefix(e.text(), "Bytes"@) {
                        a.key_type is Bytes
                    } else {
                        a.key_type matches StorageKeyType::Other(s) && s@ == e.text()
                    }
                },
            },
        },
    }
}

/// The first position of `x` in `s`.
pub open spec fn first_index(s: Seq<Seq<char>>, x: Seq<char>) -> Option<int>
    decreases s.len(),
{
    if s.len() == 0 {
        None
    } else {
        match first_index(s.drop_last(), x) {
            Some(i) => Some(i),
            None => if s.last() == x { Some(s.len() - 1) } else { None },
        }
    }
}

/// The storage tier and operation of a chain `.. storage().<tier>().<op>`
/// whose last link is the operation.
pub open spec fn storage_op(chain: Seq<Seq<char>>) -> Option<(crate::parser::ast::StorageType, StorageAccessType)> {
    match first_index(chain, "storage"@) {
        Some(i) => if i + 2 == chain.len() - 1 {
            match (storage_type_named(chain[i + 1]), access_type_named(chain[i + 2])) {
                (Some(t), Some(a)) => Some((t, a)),
                _ => None,
            }
        } else {
            None
        },
        None => None,
    }
}

/// The contract address of a typed client call `XClient::new(.., addr).f(..)`:
/// the constructor's last argument, or the client's type name.
pub open spec fn client_target(rc: Option<(Vec<String>, Option<ExprInfo>)>) -> Option<Seq<char>> {
    match rc {
        Some((path, last)) => {
            let p = path.deep_view();
            if p.len() >= 2 && p.last() == "new"@ && crate::text::has_suffix(p[p.len() - 2], "Client"@) {
                match last {
                    Some(a) => Some(a.inner_text()),
                    None => Some(p[p.len() - 2]),
                }
            } else {
                None
            }
        },
        None => None,
    }
}

/// The target of an authorization method call: on `env`, its first
/// argument's target; otherwise the head of the chain.
pub open spec fn auth_target(m: MethodCallInfo) -> Seq<char> {
    let chain = m.chain.deep_view();
    if chain.len() >= 2 && chain[0] == "env"@ {
        if m.args@.len() > 0 { m.args@[0].target() } else { seq![] }
    } else {
        if chain.len() > 0 { chain[0] } else { seq![] }
    }
}

/// The authorization kind of a method name.
pub open spec fn auth_kind_of(name: Seq<char>) -> Option<AuthKind> {
    if name == "require_auth"@ {
        Some(AuthKind::RequireAuth)
    } else if name == "require_auth_for_args"@ {
        Some(AuthKind::RequireAuthForArgs)
    } else {
        None
    }
}

/// `new` is `old` with `n` more elements at its end.
pub open spec fn grown<T>(old: Seq<T>, new: Seq<T>, n: nat) -> bool {
    new.len() == old.len() + n && new.take(old.len() as int) == old
}

/// `a` records the explicit arithmetic method call `m` seen in state `v`.
pub open spec fn arith_from_method(a: ArithExpr, op: ArithOp, kind: ArithKind, m: MethodCallInfo, v: VisitorView) -> bool {
    &&& a.op == op
    &&& a.left@ == without_spaces(m.receiver.tokens@)
    &&& a.right@ == if m.args@.len() > 0 { without_spaces(m.args@[0].tokens@) } else { seq![] }
    &&& a.return_type@ == "i128"@
    &&& a.is_checked == kind.checked()
    &&& a.divisor_checked
    &&& a.compared == (v.compare_depth > 0)
    &&& !a.is_compound
    &&& a.in_loop == v.in_loop()
    &&& a.dynamic_loop == v.dynamic_loop()
    &&& a.position == m.position
}

/// `a` records the storage operation of `m`.
pub open spec fn access_from(a: StorageAccess, t: crate::parser::ast::StorageType, k: StorageAccessType, m: MethodCallInfo) -> bool {
    &&& key_from(a, if m.args@.len() > 0 { Some(m.args@[0]) } else { None })
    &&& a.access_type == k
    &&& a.storage_type == t
    &&& a.position == m.position
    &&& if k == StorageAccessType::Write && m.args@.len() > 1 {
        a.value_type matches Some(s) && s@ == m.args@[1].value_text()
    } else {
        a.value_type is None
    }
}

/// `c` records the `invoke_contract` call `m`.
pub open spec fn invoke_from(c: CrossContractCall, m: MethodCallInfo) -> bool {
    &&& c.target@ == if m.args@.len() > 0 { m.args@[0].target() } else { seq![] }
    &&& c.function@ == if m.args@.len() > 1 { m.args@[1].invoked_name() } else { seq![] }
    &&& c.args_count == if m.args@.len() > 2 { m.args@[2].elements() } else { 0 }
    &&& c.position == m.position
    &&& c.read_only == (m.method@ == "invoke_contract_read_only"@)
}

/// `c` records the typed client call `m` on `target`.
pub open spec fn client_call_from(c: CrossContractCall, target: Seq<char>, m: MethodCallInfo) -> bool {
    &&& c.target@ == target
    &&& c.function@ == m.method@
    &&& c.args_count == m.args@.len()
    &&& c.position == m.position
    &&& !c.read_only
}

/// What a method call `m`, seen in state `v`, adds to the body `b`, giving `b2`.
pub open spec fn method_effect(b: FnBodyAnalysis, b2: FnBodyAnalysis, m: MethodCallInfo, v: VisitorView) -> bool {
    let arith = arith_method_spec(m.method@);
    let storage = storage_op(m.chain.deep_view());
    let invoke = m.method@ == "invoke_contract"@ || m.method@ == "invoke_contract_read_only"@;
    let client = client_target(m.receiver_call);
    let auth = auth_kind_of(m.method@);
    let reads = storage matches Some((_, k)) && (k == StorageAccessType::Read || k == StorageAccessType::Check);
    let writes = storage matches Some((_, k)) && (k == StorageAccessType::Write || k == StorageAccessType::Delete);
    &&& b2 == (FnBodyAnalysis {
        arithmetic_ops: b2.arithmetic_ops,
        storage_reads: b2.storage_reads,
        storage_writes: b2.storage_writes,
        cross_contract_calls: b2.cross_contract_calls,
        auth_checks: b2.auth_checks,
        calls_external: b2.calls_external,
        ..b
    })
    &&& grown(b.arithmetic_ops@, b2.arithmetic_ops@, if arith is Some { 1 } else { 0 })
    &&& (arith matches Some((op, kind)) ==> arith_from_method(b2.arithmetic_ops@.last(), op, kind, m, v))
    &&& grown(b.storage_reads@, b2.storage_reads@, if reads { 1 } else { 0 })
    &&& grown(b.storage_writes@, b2.storage_writes@, if writes { 1 } else { 0 })
    &&& (storage matches Some((t, k)) ==> access_from(
        if reads { b2.storage_reads@.last() } else { b2.storage_writes@.last() },
        t,
        k,
        m,
    ))
    &&& grown(
        b.cross_contract_calls@,
        b2.cross_contract_calls@,
        (if invoke { 1nat } else { 0nat }) + (if client is Some { 1nat } else { 0nat }),
    )
    &&& (invoke ==> invoke_from(b2.cross_contract_calls@[b.cross_contract_calls@.len() as int], m))
    &&& (client matches Some(t) ==> client_call_from(b2.cross_contract_calls@.last(), t, m))
    &&& b2.calls_external == (b.calls_external || invoke || client is Some)
    &&& grown(b.auth_checks@, b2.auth_checks@, if auth is Some { 1 } else { 0 })
    &&& (auth matches Some(k) ==> b2.auth_checks@.last().kind == k && b2.auth_checks@.last().target@ == auth_target(m))
}

/// The string literals among `args`.
pub open spec fn literal_args(args: Seq<ExprInfo>) -> Seq<Seq<char>>
    decreases args.len(),
{
    if args.len() == 0 {
        seq![]
    } else {
        literal_args(args.drop_last()) + match args.last().string_lit {
            Some(s) => seq![s@],
            None => seq![],
        }
    }
}

/// The recorded hard-coded address strings with their positions.
pub open spec fn addresses_view(v: Seq<(String, SourcePos)>) -> Seq<(Seq<char>, SourcePos)> {
    v.map_values(|p: (String, SourcePos)| (p.0@, p.1))
}

/// What a call `c` adds to the body `b`, giving `b2`.
pub open spec fn call_effect(b: FnBodyAnalysis, b2: FnBodyAnalysis, c: CallInfo) -> bool {
    let ident = match c.ident { Some(s) => Some(s@), None => None };
    let ra = ident == Some("require_auth"@);
    let rafa = ident == Some("require_auth_for_args"@);
    let target = if c.args@.len() > 0 { c.args@[0].target() } else { seq![] };
    let path = joined(c.path.deep_view(), "::"@);
    let address = path == "Address::from_str"@ || path == "Address::from_string"@;
    let lits = if address { literal_args(c.args@) } else { seq![] };
    &&& b2 == (FnBodyAnalysis { auth_checks: b2.auth_checks, hardcoded_address_strs: b2.hardcoded_address_strs, ..b })
    &&& grown(b.auth_checks@, b2.auth_checks@, if ra || rafa { 1 } else { 0 })
    &&& (ra ==> b2.auth_checks@.last().kind == AuthKind::RequireAuth && b2.auth_checks@.last().target@ == target)
    &&& (rafa ==> b2.auth_checks@.last().kind == AuthKind::RequireAuthForArgs && b2.auth_checks@.last().target@ == target)
    &&& addresses_view(b2.hardcoded_address_strs@) == addresses_view(b.hardcoded_address_strs@) + lits.map_values(
        |s: Seq<char>| (s, c.position),
    )
}

/// The first string among `args`.
fn first_string_of(args: &Vec<Option<String>>) -> (r: Option<String>)
    ensures
        match r {
            Some(s) => first_string(args@) == Some(s@),
            None => first_string(args@) is None,
        },
{
    let mut i: usize = 0;
    assert(args@.skip(0) =~= args@);
    while i < args.len()
        invariant
            i <= args@.len(),
            first_string(args@) == first_string(args@.skip(i as int)),
        decreases args@.len() - i,
    {
        assert(args@.skip(i as int).drop_first() =~= args@.skip(i + 1));
        match &args[i] {
            Some(s) => {
                return Some(copy_str(s.as_str()));
            },
            None => {},
        }
        i = i + 1;
    }
    None
}

impl ExprInfo {
    /// The name of the symbol the expression builds, if any.
    pub fn symbol_of(&self) -> (r: Option<String>)
        ensures
            match r {
                Some(s) => self.symbol() == Some(s@),
                None => self.symbol() is None,
            },
    {
        match &self.call {
            Some(c) => {
                if c.path.len() > 0 && (same_text(c.path[0].as_str(), "Symbol") || same_text(c.path[0].as_str(), "symbol")) {
                    first_string_of(&c.string_args)
                } else {
                    None
                }
            },
            None => match &self.macro_call {
                Some(m) => {
                    let named = match &m.ident {
                        Some(i) => same_text(i.as_str(), "symbol_short") || same_text(i.as_str(), "symbol"),
                        None => false,
                    };
                    if named {
                        match &m.string_body {
                            Some(b) => Some(copy_str(b.as_str())),
                            None => None,
                        }
                    } else {
                        None
                    }
                },
                None => None,
            },
        }
    }

    /// The number of arguments the expression holds as an argument container.
    pub fn count_call_args(&self) -> (r: usize)
        ensures
            r as nat == self.elements(),
    {
        match self.tuple_len {
            Some(n) => n,
            None => match &self.macro_call {
                Some(m) => {
                    let named = match &m.ident {
                        Some(i) => same_text(i.as_str(), "vec"),
                        None => false,
                    };
                    if named {
                        match m.list_len {
                            Some(n) => n,
                            None => 1,
                        }
                    } else {
                        1
                    }
                },
                None => 1,
            },
        }
    }

    /// The expression as text.
    pub fn text_of(&self) -> (r: String)
        ensures
            r@ == self.text(),
    {
        match &self.path {
            Some(p) => join_with(p, "::"),
            None => copy_str(self.tokens.as_str()),
        }
    }

    /// The inner expression as text.
    pub fn inner_text_of(&self) -> (r: String)
        ensures
            r@ == self.inner_text(),
    {
        match &self.inner_path {
            Some(p) => join_with(p, "::"),
            None => copy_str(self.inner_tokens.as_str()),
        }
    }

    /// The call target the argument names.
    pub fn target_of(&self) -> (r: String)
        ensures
            r@ == self.target(),
    {
        match &self.string_lit {
            Some(s) => copy_str(s.as_str()),
            None => match self.symbol_of() {
                Some(s) => cat(cat(copy_str("Symbol("), debug_quote(s.as_str()).as_str()), ")"),
                None => self.inner_text_of(),
            },
        }
    }

    /// The invoked function the argument names.
    pub fn invoked_name_of(&self) -> (r: String)
        ensures
            r@ == self.invoked_name(),
    {
        match self.symbol_of() {
            Some(s) => copy_str(s.as_str()),
            None => match &self.string_lit {
                Some(s) => copy_str(s.as_str()),
                None => self.text_of(),
            },
        }
    }

    /// The value text of a storage write.
    pub fn value_text_of(&self) -> (r: String)
        ensures
            r@ == self.value_text(),
    {
        let cs = chars_of(self.tokens.as_str());
        let mut a: usize = 0;
        while a < cs.len() && cs[a] == '&'
            invariant
                a <= cs@.len(),
                forall|j: int| 0 <= j < a ==> cs@[j] == '&',
            decreases cs@.len() - a,
        {
            a = a + 1;
        }
        proof {
            crate::parser::patterns::lemma_leading_refs_skip(cs@, a as int);
            if a < cs.len() {
                assert(cs@.skip(a as int)[0] == cs@[a as int]);
            }
        }
        let mut rest: Vec<char> = Vec::new();
        let mut i = a;
        while i < cs.len()
            invariant
                a <= i <= cs@.len(),
                rest@ == cs@.subrange(a as int, i as int),
            decreases cs@.len() - i,
        {
            rest.push(cs[i]);
            assert(cs@.subrange(a as int, i + 1) =~= cs@.subrange(a as int, i as int).push(cs@[i as int]));
            i = i + 1;
        }
        assert(rest@ =~= cs@.skip(a as int));
        let t = trim_chars(rest.as_slice());
        string_of(t.as_slice())
    }

    /// The key an access records for this key argument.
    fn key_of(&self) -> (r: (String, StorageKeyType))
        ensures
            key_from(StorageAccess {
                key: r.0,
                key_type: r.1,
                access_type: StorageAccessType::Read,
                storage_type: crate::parser::ast::StorageType::Instance,
                position: SourcePos { line: 0, column: 0 },
                value_type: None,
            }, Some(*self)),
    {
        match &self.string_lit {
            Some(s) => (copy_str(s.as_str()), StorageKeyType::String),
            None => match self.symbol_of() {
                Some(s) => (copy_str(s.as_str()), StorageKeyType::Symbol),
                None => {
                    let t = self.text_of();
                    if starts_with_str(t.as_str(), "Bytes") {
                        (t, StorageKeyType::Bytes)
                    } else {
                        let o = copy_str(t.as_str());
                        (t, StorageKeyType::Other(o))
                    }
                },
            },
        }
    }
}

/// The first position of `x` in `s`.
fn position_of(s: &Vec<String>, x: &str) -> (r: Option<usize>)
    ensures
        match r {
            Some(i) => first_index(s.deep_view(), x@) == Some(i as int),
            None => first_index(s.deep_view(), x@) is None,
        },
{
    let ghost v = s.deep_view();
    let mut i: usize = 0;
    assert(v.take(0) =~= Seq::<Seq<char>>::empty());
    while i < s.len()
        invariant
            i <= s@.len(),
            v == s.deep_view(),
            first_index(v.take(i as int), x@) is None,
        decreases s@.len() - i,
    {
        assert(v.take(i + 1).drop_last() =~= v.take(i as int));
        if same_text(s[i].as_str(), x) {
            proof { lemma_first_index_prefix(v, i as int + 1, x@); }
            return Some(i);
        }
        i = i + 1;
    }
    assert(v.take(i as int) =~= v);
    None
}

/// A position found in a prefix is the position in the whole.
proof fn lemma_first_index_prefix(s: Seq<Seq<char>>, n: int, x: Seq<char>)
    requires
        0 <= n <= s.len(),
        first_index(s.take(n), x) is Some,
    ensures
        first_index(s, x) == first_index(s.take(n), x),
    decreases s.len() - n,
{
    if n < s.len() {
        assert(s.take(n + 1).drop_last() =~= s.take(n));
        lemma_first_index_prefix(s, n + 1, x);
    } else {
        assert(s.take(n) =~= s);
    }
}

/// The address of a typed client call on `rc`, if it is one.
fn detect_client_new(rc: &Option<(Vec<String>, Option<ExprInfo>)>) -> (r: Option<String>)
    ensures
        match r {
            Some(t) => client_target(*rc) == Some(t@),
            None => client_target(*rc) is None,
        },
{
    match rc {
        Some((path, last)) => {
            let n = path.len();
            if n >= 2 && same_text(path[n - 1].as_str(), "new") && crate::text::ends_with_str(path[n - 2].as_str(), "Client") {
                assert(path.deep_view()[n - 1] == path@[n - 1]@);
                assert(path.deep_view()[n - 2] == path@[n - 2]@);
                match last {
                    Some(a) => Some(a.inner_text_of()),
                    None => Some(copy_str(path[n - 2].as_str())),
                }
            } else {
                proof {
                    if n >= 2 {
                        assert(path.deep_view()[n - 1] == path@[n - 1]@);
                        assert(path.deep_view()[n - 2] == path@[n - 2]@);
                    }
                }
                None
            }
        },
        None => None,
    }
}

impl ContractVisitor {
    /// The arithmetic record of an explicit arithmetic method call.
    fn method_arith(&self, m: &MethodCallInfo) -> (r: Option<ArithExpr>)
        ensures
            match arith_method_spec(m.method@) {
                Some((op, kind)) => r matches Some(a) && arith_from_method(a, op, kind, *m, self@),
                None => r is None,
            },
    {
        match classify_arith_method(m.method.as_str()) {
            Some((op, kind)) => {
                let right = if m.args.len() > 0 { remove_spaces(m.args[0].tokens.as_str()) } else { String::new() };
                Some(ArithExpr {
                    op,
                    left: remove_spaces(m.receiver.tokens.as_str()),
                    right,
                    return_type: copy_str("i128"),
                    is_checked: kind.is_checked(),
                    divisor_checked: true,
                    compared: self.compare_depth > 0,
                    is_compound: false,
                    in_loop: self.loop_stack.len() > 0,
                    dynamic_loop: self.loop_stack.len() > 0 && self.loop_stack[self.loop_stack.len() - 1],
                    position: m.position,
                })
            },
            None => None,
        }
    }
}

/// The storage record of a method call, and whether it is a read.
fn method_storage(m: &MethodCallInfo) -> (r: Option<(StorageAccess, bool)>)
    ensures
        match storage_op(m.chain.deep_view()) {
            Some((t, k)) => r matches Some((a, is_read)) && access_from(a, t, k, *m) && is_read == (k
                == StorageAccessType::Read || k == StorageAccessType::Check),
            None => r is None,
        },
{
    let ghost chain = m.chain.deep_view();
    let idx = match position_of(&m.chain, "storage") {
        Some(i) => i,
        None => return None,
    };
    let n = m.chain.len();
    if !(n >= 3 && idx == n - 3) {
        return None;
    }
    assert(chain[idx + 1] == m.chain@[idx + 1]@);
    assert(chain[idx + 2] == m.chain@[idx + 2]@);
    let tier = match detect_storage_type(m.chain[idx + 1].as_str()) {
        Some(t) => t,
        None => return None,
    };
    let op = match detect_storage_access_type(m.chain[idx + 2].as_str()) {
        Some(k) => k,
        None => return None,
    };
    let (key, key_type) = if m.args.len() > 0 {
        m.args[0].key_of()
    } else {
        (copy_str("unknown"), StorageKeyType::Other(copy_str("unknown")))
    };
    let value_type = if op == StorageAccessType::Write && m.args.len() > 1 {
        Some(m.args[1].value_text_of())
    } else {
        None
    };
    let access = StorageAccess { key, key_type, access_type: op, storage_type: tier, position: m.position, value_type };
    let is_read = op == StorageAccessType::Read || op == StorageAccessType::Check;
    Some((access, is_read))
}

/// The record of an `invoke_contract` call.
fn method_invoke(m: &MethodCallInfo) -> (r: CrossContractCall)
    ensures
        invoke_from(r, *m),
{
    let target = if m.args.len() > 0 { m.args[0].target_of() } else { String::new() };
    let function = if m.args.len() > 1 { m.args[1].invoked_name_of() } else { String::new() };
    let args_count = if m.args.len() > 2 { m.args[2].count_call_args() } else { 0 };
    CrossContractCall {
        target,
        function,
        args_count,
        position: m.position,
        read_only: same_text(m.method.as_str(), "invoke_contract_read_only"),
    }
}

/// The target of an authorization method call.
fn method_auth_target(m: &MethodCallInfo) -> (r: String)
    ensures
        r@ == auth_target(*m),
{
    let ghost chain = m.chain.deep_view();
    if m.chain.len() >= 2 && same_text(m.chain[0].as_str(), "env") {
        assert(chain[0] == m.chain@[0]@);
        if m.args.len() > 0 { m.args[0].target_of() } else { String::new() }
    } else {
        proof {
            if m.chain@.len() > 0 {
                assert(chain[0] == m.chain@[0]@);
            }
        }
        if m.chain.len() > 0 { copy_str(m.chain[0].as_str()) } else { String::new() }
    }
}

/// `v` followed by the element of `x`, if any.
pub open spec fn plus_opt<T>(v: Seq<T>, x: Option<T>) -> Seq<T> {
    match x {
        Some(y) => v.push(y),
        None => v,
    }
}

/// Appends the element of `x`, if any.
fn push_opt<T>(v: &mut Vec<T>, x: Option<T>)
    ensures
        final(v)@ == plus_opt(old(v)@, x),
{
    match x {
        Some(y) => v.push(y),
        None => {},
    }
}

impl FnBodyAnalysis {
    /// Adds what one method call records.
    fn add_method_records(
        &mut self,
        arith: Option<ArithExpr>,
        read: Option<StorageAccess>,
        write: Option<StorageAccess>,
        invoke: Option<CrossContractCall>,
        client: Option<CrossContractCall>,
        auth: Option<AuthCheck>,
    )
        ensures
            *final(self) == (FnBodyAnalysis {
                arithmetic_ops: final(self).arithmetic_ops,
                storage_reads: final(self).storage_reads,
                storage_writes: final(self).storage_writes,
                cross_contract_calls: final(self).cross_contract_calls,
                auth_checks: final(self).auth_checks,
                calls_external: final(self).calls_external,
                ..*old(self)
            }),
            final(self).arithmetic_ops@ == plus_opt(old(self).arithmetic_ops@, arith),
            final(self).storage_reads@ == plus_opt(old(self).storage_reads@, read),
            final(self).storage_writes@ == plus_opt(old(self).storage_writes@, write),
            final(self).cross_contract_calls@ == plus_opt(plus_opt(old(self).cross_contract_calls@, invoke), client),
            final(self).calls_external == (old(self).calls_external || invoke is Some || client is Some),
            final(self).auth_checks@ == plus_opt(old(self).auth_checks@, auth),
    {
        let external = invoke.is_some() || client.is_some();
        push_opt(&mut self.arithmetic_ops, arith);
        push_opt(&mut self.storage_reads, read);
        push_opt(&mut self.storage_writes, write);
        push_opt(&mut self.cross_contract_calls, invoke);
        push_opt(&mut self.cross_contract_calls, client);
        push_opt(&mut self.auth_checks, auth);
        if external {
            self.calls_external = true;
        }
    }

    /// Adds what one call records.
    fn add_call_records(&mut self, auth: Option<AuthCheck>, addresses: Vec<(String, SourcePos)>)
        ensures
            *final(self) == (FnBodyAnalysis {
                auth_checks: final(self).auth_checks,
                hardcoded_address_strs: final(self).hardcoded_address_strs,
                ..*old(self)
            }),
            final(self).auth_checks@ == plus_opt(old(self).auth_checks@, auth),
            final(self).hardcoded_address_strs@ == old(self).hardcoded_address_strs@ + addresses@,
    {
        push_opt(&mut self.auth_checks, auth);
        let mut addresses = addresses;
        self.hardcoded_address_strs.append(&mut addresses);
    }
}

/// The records of a method call make up its effect.
proof fn lemma_method_effect(
    b: FnBodyAnalysis,
    b2: FnBodyAnalysis,
    m: MethodCallInfo,
    v: VisitorView,
    arith: Option<ArithExpr>,
    storage: Option<(StorageAccess, bool)>,
    invoke: Option<CrossContractCall>,
    client: Option<CrossContractCall>,
    auth: Option<AuthCheck>,
)
    requires
        match arith_method_spec(m.method@) {
            Some((op, kind)) => arith matches Some(a) && arith_from_method(a, op, kind, m, v),
            None => arith is None,
        },
        match storage_op(m.chain.deep_view()) {
            Some((t, k)) => storage matches Some((a, is_read)) && access_from(a, t, k, m) && is_read == (k
                == StorageAccessType::Read || k == StorageAccessType::Check),
            None => storage is None,
        },
        (m.method@ == "invoke_contract"@ || m.method@ == "invoke_contract_read_only"@) == invoke is Some,
        invoke matches Some(c) ==> invoke_from(c, m),
        match client_target(m.receiver_call) {
            Some(t) => client matches Some(c) && client_call_from(c, t, m),
            None => client is None,
        },
        match auth_kind_of(m.method@) {
            Some(k) => auth matches Some(x) && x.kind == k && x.target@ == auth_target(m),
            None => auth is None,
        },
        b2 == (FnBodyAnalysis {
            arithmetic_ops: b2.arithmetic_ops,
            storage_reads: b2.storage_reads,
            storage_writes: b2.storage_writes,
            cross_contract_calls: b2.cross_contract_calls,
            auth_checks: b2.auth_checks,
            calls_external: b2.calls_external,
            ..b
        }),
        b2.arithmetic_ops@ == plus_opt(b.arithmetic_ops@, arith),
        b2.storage_reads@ == plus_opt(b.storage_reads@, match storage {
            Some((a, true)) => Some(a),
            _ => None,
        }),
        b2.storage_writes@ == plus_opt(b.storage_writes@, match storage {
            Some((a, false)) => Some(a),
            _ => None,
        }),
        b2.cross_contract_calls@ == plus_opt(plus_opt(b.cross_contract_calls@, invoke), client),
        b2.calls_external == (b.calls_external || invoke is Some || client is Some),
        b2.auth_checks@ == plus_opt(b.auth_checks@, auth),
    ensures
        method_effect(b, b2, m, v),
{
    assert(b2.arithmetic_ops@.take(b.arithmetic_ops@.len() as int) =~= b.arithmetic_ops@);
    assert(b2.storage_reads@.take(b.storage_reads@.len() as int) =~= b.storage_reads@);
    assert(b2.storage_writes@.take(b.storage_writes@.len() as int) =~= b.storage_writes@);
    assert(b2.cross_contract_calls@.take(b.cross_contract_calls@.len() as int) =~= b.cross_contract_calls@);
    assert(b2.auth_checks@.take(b.auth_checks@.len() as int) =~= b.auth_checks@);
    if invoke is Some {
        assert(b2.cross_contract_calls@[b.cross_contract_calls@.len() as int] == invoke->0);
    }
}

/// The string literals among the arguments, each at `pos`.
fn literal_addresses(args: &Vec<ExprInfo>, pos: SourcePos) -> (r: Vec<(String, SourcePos)>)
    ensures
        addresses_view(r@) == literal_args(args@).map_values(|s: Seq<char>| (s, pos)),
{
    let ghost a = args@;
    let mut out: Vec<(String, SourcePos)> = Vec::new();
    let mut k: usize = 0;
    assert(a.take(0) =~= Seq::<ExprInfo>::empty());
    assert(addresses_view(out@) =~= literal_args(a.take(0)).map_values(|s: Seq<char>| (s, pos)));
    while k < args.len()
        invariant
            k <= a.len(),
            a == args@,
            addresses_view(out@) == literal_args(a.take(k as int)).map_values(|s: Seq<char>| (s, pos)),
        decreases a.len() - k,
    {
        assert(a.take(k + 1).drop_last() =~= a.take(k as int));
        let ghost before = out@;
        match &args[k].string_lit {
            Some(s) => {
                out.push((copy_str(s.as_str()), pos));
                assert(addresses_view(out@) =~= addresses_view(before).push((s@, pos)));
            },
            None => {},
        }
        assert(addresses_view(out@) =~= literal_args(a.take(k + 1)).map_values(|s: Seq<char>| (s, pos)));
        k = k + 1;
    }
    assert(a.take(k as int) =~= a);
    out
}

impl ContractVisitor {
    /// A method call in the current function: explicit arithmetic methods,
    /// storage operations, cross-contract calls (`invoke_contract` and typed
    /// clients) and authorization calls are recorded.
    pub fn record_method_call(&mut self, m: &MethodCallInfo)
        ensures
            match old(self)@.recording() {
                Some(i) => {
                    let b = old(self)@.functions[i].body_analysis;
                    let b2 = final(self)@.functions[i].body_analysis;
                    &&& final(self)@ == old(self)@.with_body(i, b2)
                    &&& method_effect(b, b2, *m, old(self)@)
                },
                None => final(self)@ == old(self)@,
            },
    {
        let i = match self.current_fn_idx {
            Some(i) => i,
            None => return,
        };
        if i >= self.functions.len() {
            return;
        }
        let ghost v = self@;
        let ghost b = self.functions@[i as int].body_analysis;
        let arith = self.method_arith(m);
        let storage = method_storage(m);
        let invoke = if method_is_invoke_contract(m.method.as_str()) { Some(method_invoke(m)) } else { None };
        let client = match detect_client_new(&m.receiver_call) {
            Some(target) => Some(CrossContractCall {
                target,
                function: copy_str(m.method.as_str()),
                args_count: m.args.len(),
                position: m.position,
                read_only: false,
            }),
            None => None,
        };
        let auth = if method_is_require_auth(m.method.as_str()) {
            Some(AuthCheck { kind: AuthKind::RequireAuth, target: method_auth_target(m) })
        } else if method_is_require_auth_for_args(m.method.as_str()) {
            Some(AuthCheck { kind: AuthKind::RequireAuthForArgs, target: method_auth_target(m) })
        } else {
            None
        };
        let ghost st = storage;
        let (read, write) = match storage {
            Some((a, true)) => (Some(a), None),
            Some((a, false)) => (None, Some(a)),
            None => (None, None),
        };
        self.functions[i].body_analysis.add_method_records(arith, read, write, invoke, client, auth);
        let ghost b2 = self.functions@[i as int].body_analysis;
        proof { lemma_method_effect(b, b2, *m, v, arith, st, invoke, client, auth); }
        assert(self@ == old(self)@.with_body(i as int, b2));
    }

    /// A call of a path in the current function: `require_auth(..)`,
    /// `require_auth_for_args(..)` and the string literals passed to
    /// `Address::from_str`/`Address::from_string` are recorded.
    pub fn record_call(&mut self, c: &CallInfo)
        ensures
            match old(self)@.recording() {
                Some(i) => {
                    let b = old(self)@.functions[i].body_analysis;
                    let b2 = final(self)@.functions[i].body_analysis;
                    &&& final(self)@ == old(self)@.with_body(i, b2)
                    &&& call_effect(b, b2, *c)
                },
                None => final(self)@ == old(self)@,
            },
    {
        let i = match self.current_fn_idx {
            Some(i) => i,
            None => return,
        };
        if i >= self.functions.len() {
            return;
        }
        let ghost b = self.functions@[i as int].body_analysis;
        proof {
            reveal_strlit("require_auth");
            reveal_strlit("require_auth_for_args");
            assert("require_auth_for_args"@.len() != "require_auth"@.len());
        }
        let ident: Option<&str> = match &c.ident {
            Some(s) => Some(s.as_str()),
            None => None,
        };
        let auth = if is_require_auth(ident) {
            let target = if c.args.len() > 0 { c.args[0].target_of() } else { String::new() };
            Some(AuthCheck { kind: AuthKind::RequireAuth, target })
        } else if is_require_auth_for_args(ident) {
            let target = if c.args.len() > 0 { c.args[0].target_of() } else { String::new() };
            Some(AuthCheck { kind: AuthKind::RequireAuthForArgs, target })
        } else {
            None
        };
        let path = join_with(&c.path, "::");
        let addresses = if same_text(path.as_str(), "Address::from_str") || same_text(path.as_str(), "Address::from_string") {
            literal_addresses(&c.args, c.position)
        } else {
            Vec::new()
        };
        let ghost added = addresses@;
        proof {
            let address = joined(c.path.deep_view(), "::"@) == "Address::from_str"@ || joined(c.path.deep_view(), "::"@)
                == "Address::from_string"@;
            let lits = if address { literal_args(c.args@) } else { seq![] };
            assert(addresses_view(added) =~= lits.map_values(|s: Seq<char>| (s, c.position)));
        }
        self.functions[i].body_analysis.add_call_records(auth, addresses);
        let ghost b2 = self.functions@[i as int].body_analysis;
        assert(b2.auth_checks@.take(b.auth_checks@.len() as int) =~= b.auth_checks@);
        assert(addresses_view(b2.hardcoded_address_strs@) =~= addresses_view(b.hardcoded_address_strs@) + addresses_view(added));
        assert(self@ == old(self)@.with_body(i as int, b2));
    }
}

/// `v` with the current function, if any, marked by `mark`.
pub open spec fn marked(old: VisitorView, new: VisitorView, loops: bool) -> bool {
    match old.recording() {
        Some(i) => {
            let b = old.functions[i].body_analysis;
            if loops {
                new.functions == old.with_body(i, FnBodyAnalysis { has_loops: true, ..b }).functions
            } else {
                new.functions == old.with_body(i, FnBodyAnalysis { has_unsafe: true, ..b }).functions
            }
        },
        None => new.functions == old.functions,
    }
}

/// The contract's dependencies: the targets of its cross-contract calls,
/// each once, in order of first appearance.
pub open spec fn distinct(s: Seq<Seq<char>>) -> Seq<Seq<char>>
    decreases s.len(),
{
    if s.len() == 0 {
        seq![]
    } else {
        let d = distinct(s.drop_last());
        if d.contains(s.last()) { d } else { d.push(s.last()) }
    }
}

/// The targets of the cross-contract calls of the functions, in order.
pub open spec fn call_targets(fs: Seq<ContractFn>) -> Seq<Seq<char>>
    decreases fs.len(),
{
    if fs.len() == 0 {
        seq![]
    } else {
        call_targets(fs.drop_last()) + fs.last().body_analysis.cross_contract_calls@.map_values(
            |c: CrossContractCall| c.target@,
        )
    }
}

/// The storage accesses of the functions: each function's writes, then its reads.
pub open spec fn storage_keys_of(fs: Seq<ContractFn>) -> Seq<StorageAccess>
    decreases fs.len(),
{
    if fs.len() == 0 {
        seq![]
    } else {
        storage_keys_of(fs.drop_last()) + fs.last().body_analysis.storage_writes@
            + fs.last().body_analysis.storage_reads@
    }
}

/// Copies of the accesses.
fn copy_accesses(v: &Vec<StorageAccess>, out: &mut Vec<StorageAccess>)
    ensures
        final(out)@ == old(out)@ + v@,
{
    let mut i: usize = 0;
    while i < v.len()
        invariant
            i <= v@.len(),
            out@ == old(out)@ + v@.take(i as int),
        decreases v@.len() - i,
    {
        out.push(v[i].duplicate());
        assert(v@.take(i + 1) =~= v@.take(i as int).push(v@[i as int]));
        i = i + 1;
    }
    assert(v@.take(i as int) =~= v@);
}

/// Whether `s` is among `v`.
fn holds_text(v: &Vec<String>, s: &str) -> (r: bool)
    ensures
        r == v.deep_view().contains(s@),
{
    let ghost d = v.deep_view();
    let mut i: usize = 0;
    while i < v.len()
        invariant
            i <= v@.len(),
            d == v.deep_view(),
            forall|j: int| 0 <= j < i ==> d[j] != s@,
        decreases v@.len() - i,
    {
        if same_text(v[i].as_str(), s) {
            assert(d[i as int] == s@);
            return true;
        }
        i = i + 1;
    }
    false
}

impl ContractVisitor {
    /// Enters a `for` loop whose range ends at `range_end` (the digits of an
    /// integer literal, if the iterated expression is such a range).  A loop
    /// up to a literal below 100 has a static bound; any other is dynamic.
    pub fn enter_for_loop(&mut self, range_end: Option<&str>)
        ensures
            marked(old(self)@, final(self)@, true),
            final(self)@ == (VisitorView {
                functions: final(self)@.functions,
                loop_stack: old(self)@.loop_stack.push(!small_bound(match range_end { Some(d) => Some(d@), None => None })),
                ..old(self)@
            }),
    {
        self.mark_loop();
        let dynamic = !is_small_constant_range(range_end);
        self.loop_stack.push(dynamic);
    }

    /// Enters a `while` loop, whose bound is always dynamic.
    pub fn enter_while(&mut self)
        ensures
            marked(old(self)@, final(self)@, true),
            final(self)@ == (VisitorView {
                functions: final(self)@.functions,
                loop_stack: old(self)@.loop_stack.push(true),
                ..old(self)@
            }),
    {
        self.mark_loop();
        self.loop_stack.push(true);
    }

    /// Enters a `loop`, whose bound is always dynamic.
    pub fn enter_loop(&mut self)
        ensures
            marked(old(self)@, final(self)@, true),
            final(self)@ == (VisitorView {
                functions: final(self)@.functions,
                loop_stack: old(self)@.loop_stack.push(true),
                ..old(self)@
            }),
    {
        self.mark_loop();
        self.loop_stack.push(true);
    }

    /// Leaves the innermost loop.
    pub fn exit_loop(&mut self)
        ensures
            final(self)@ == (VisitorView {
                loop_stack: if old(self)@.loop_stack.len() > 0 {
                    old(self)@.loop_stack.drop_last()
                } else {
                    old(self)@.loop_stack
                },
                ..old(self)@
            }),
    {
        let _ = self.loop_stack.pop();
        proof {
            if old(self)@.loop_stack.len() > 0 {
                assert(self.loop_stack@ =~= old(self)@.loop_stack.drop_last());
            }
        }
    }

    /// An `unsafe` block in the current function.
    pub fn note_unsafe(&mut self)
        ensures
            marked(old(self)@, final(self)@, false),
            final(self)@ == (VisitorView { functions: final(self)@.functions, ..old(self)@ }),
    {
        let i = match self.current_fn_idx {
            Some(i) => i,
            None => return,
        };
        if i < self.functions.len() {
            self.functions[i].body_analysis.has_unsafe = true;
        }
    }

    fn mark_loop(&mut self)
        ensures
            marked(old(self)@, final(self)@, true),
            final(self)@ == (VisitorView { functions: final(self)@.functions, ..old(self)@ }),
    {
        let i = match self.current_fn_idx {
            Some(i) => i,
            None => return,
        };
        if i < self.functions.len() {
            self.functions[i].body_analysis.has_loops = true;
        }
    }

    /// The contract seen: named `Unknown` when no `#[contractimpl]` block
    /// named it, with the recorded functions, every storage access (each
    /// function's writes, then its reads) and the distinct targets of the
    /// cross-contract calls.
    pub fn finalize(self) -> (r: Result<Contract, String>)
        ensures
            r matches Ok(c) && {
                &&& c.name@ == if self@.contract_name.len() == 0 { "Unknown"@ } else { self@.contract_name }
                &&& c.functions@ == self@.functions
                &&& c.storage_keys@ == storage_keys_of(self@.functions)
                &&& c.dependencies.deep_view() == distinct(call_targets(self@.functions))
            },
    {
        let ghost fs = self.functions@;
        let mut keys: Vec<StorageAccess> = Vec::new();
        let mut deps: Vec<String> = Vec::new();
        let mut i: usize = 0;
        assert(fs.take(0) =~= Seq::<ContractFn>::empty());
        while i < self.functions.len()
            invariant
                i <= fs.len(),
                fs == self.functions@,
                keys@ == storage_keys_of(fs.take(i as int)),
                deps.deep_view() == distinct(call_targets(fs.take(i as int))),
            decreases fs.len() - i,
        {
            assert(fs.take(i + 1).drop_last() =~= fs.take(i as int));
            let func = &self.functions[i];
            let ghost ts = func.body_analysis.cross_contract_calls@.map_values(|c: CrossContractCall| c.target@);
            let ghost base = call_targets(fs.take(i as int));
            let mut k: usize = 0;
            assert(ts.take(0) =~= Seq::<Seq<char>>::empty());
            assert(base + ts.take(0) =~= base);
            while k < func.body_analysis.cross_contract_calls.len()
                invariant
                    k <= ts.len(),
                    ts == func.body_analysis.cross_contract_calls@.map_values(|c: CrossContractCall| c.target@),
                    deps.deep_view() == distinct(base + ts.take(k as int)),
                decreases ts.len() - k,
            {
                let target = func.body_analysis.cross_contract_calls[k].target.as_str();
                assert((base + ts.take(k + 1)).drop_last() =~= base + ts.take(k as int));
                assert((base + ts.take(k + 1)).last() == target@);
                if !holds_text(&deps, target) {
                    let ghost before = deps.deep_view();
                    deps.push(copy_str(target));
                    assert(deps.deep_view() =~= before.push(target@));
                }
                k = k + 1;
            }
            assert(ts.take(k as int) =~= ts);
            let ghost kb = keys@;
            copy_accesses(&func.body_analysis.storage_writes, &mut keys);
            copy_accesses(&func.body_analysis.storage_reads, &mut keys);
            assert(keys@ =~= kb + func.body_analysis.storage_writes@ + func.body_analysis.storage_reads@);
            i = i + 1;
        }
        assert(fs.take(i as int) =~= fs);
        proof {
            reveal_strlit("");
            if self.contract_name@.len() == 0 {
                assert(self.contract_name@ =~= ""@);
            }
        }
        let name = if same_text(self.contract_name.as_str(), "") { copy_str("Unknown") } else { self.contract_name };
        Ok(Contract { name, functions: self.functions, storage_keys: keys, dependencies: deps })
    }
}

/// The dependencies hold every call target, each exactly once.
pub proof fn law_dependencies_distinct(s: Seq<Seq<char>>)
    ensures
        forall|a: int, b: int| 0 <= a < b < distinct(s).len() ==> (#[trigger] distinct(s)[a]) != (#[trigger] distinct(s)[b]),
        forall|x: Seq<char>| s.contains(x) <==> #[trigger] distinct(s).contains(x),
    decreases s.len(),
{
    if s.len() > 0 {
        law_dependencies_distinct(s.drop_last());
        let d = distinct(s.drop_last());
        assert forall|x: Seq<char>| s.contains(x) <==> #[trigger] distinct(s).contains(x) by {
            if s.contains(x) {
                let i = choose|i: int| 0 <= i < s.len() && s[i] == x;
                if i < s.len() - 1 {
                    assert(s.drop_last()[i] == x);
                    assert(s.drop_last().contains(x));
                    assert(d.contains(x));
                    let j = choose|j: int| 0 <= j < d.len() && d[j] == x;
                    if d.contains(s.last()) {
                        assert(distinct(s) == d);
                    } else {
                        assert(distinct(s) == d.push(s.last()));
                        assert(distinct(s)[j] == d[j]);
                    }
                    assert(distinct(s)[j] == x);
                } else if !d.contains(x) {
                    assert(distinct(s)[d.len() as int] == x);
                }
            }
            if distinct(s).contains(x) {
                let j = choose|j: int| 0 <= j < distinct(s).len() && distinct(s)[j] == x;
                if j < d.len() {
                    assert(d[j] == x);
                    assert(d.contains(x));
                    assert(s.drop_last().contains(x));
                    let i = choose|i: int| 0 <= i < s.drop_last().len() && s.drop_last()[i] == x;
                    assert(s[i] == x);
                } else {
                    assert(s[s.len() - 1] == x);
                }
            }
        }
    }
}

/// A parser of Soroban contract sources.
pub struct ContractParser;

impl ContractParser {
    /// A parser.
    pub fn new() -> (r: ContractParser) {
        ContractParser
    }
}

impl Default for ContractParser {
    fn default() -> (r: Self) {
        ContractParser
    }
}

} // verus!
