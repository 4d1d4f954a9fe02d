//! The model of a parsed contract that every rule reads.
use vstd::prelude::*;

verus! {

/// A contract: its `#[contractimpl]` functions and what they touch.
#[derive(Debug, Clone)]
pub struct Contract {
    pub name: String,
    pub functions: Vec<ContractFn>,
    pub storage_keys: Vec<StorageAccess>,
    pub dependencies: Vec<String>,
}

/// One function of a `#[contractimpl]` block.
#[derive(Debug, Clone)]
pub struct ContractFn {
    pub name: String,
    pub args: Vec<FnArg>,
    pub return_type: String,
    pub visibility: FnVisibility,
    pub attributes: Vec<String>,
    pub is_init: bool,
    pub body_analysis: FnBodyAnalysis,
}

/// A typed function argument.
#[derive(Debug, Clone)]
pub struct FnArg {
    pub name: String,
    pub arg_type: String,
}

/// Whether a function is `pub`.
#[derive(Debug, Clone, Copy, PartialEq, Eq, Structural)]
pub enum FnVisibility {
    Public,
    Private,
}

/// What the body of a function does that the rules care about.
#[derive(Debug, Clone)]
pub struct FnBodyAnalysis {
    pub cross_contract_calls: Vec<CrossContractCall>,
    pub storage_writes: Vec<StorageAccess>,
    pub storage_reads: Vec<StorageAccess>,
    pub auth_checks: Vec<AuthCheck>,
    pub arithmetic_ops: Vec<ArithExpr>,
    pub casts: Vec<CastExpr>,
    pub hardcoded_address_strs: Vec<(String, SourcePos)>,
    pub has_loops: bool,
    pub has_unsafe: bool,
    pub calls_external: bool,
}

impl FnBodyAnalysis {
    /// The analysis of a body that does nothing.
    pub open spec fn is_blank(self) -> bool {
        &&& self.cross_contract_calls@.len() == 0
        &&& self.storage_writes@.len() == 0
        &&& self.storage_reads@.len() == 0
        &&& self.auth_checks@.len() == 0
        &&& self.arithmetic_ops@.len() == 0
        &&& self.casts@.len() == 0
        &&& self.hardcoded_address_strs@.len() == 0
        &&& !self.has_loops
        &&& !self.has_unsafe
        &&& !self.calls_external
    }

    /// An empty analysis.
    pub fn new() -> (r: FnBodyAnalysis)
        ensures
            r.is_blank(),
    {
        FnBodyAnalysis {
            cross_contract_calls: Vec::new(),
            storage_writes: Vec::new(),
            storage_reads: Vec::new(),
            auth_checks: Vec::new(),
            arithmetic_ops: Vec::new(),
            casts: Vec::new(),
            hardcoded_address_strs: Vec::new(),
            has_loops: false,
            has_unsafe: false,
            calls_external: false,
        }
    }

    /// The body writes or deletes some storage entry.
    pub fn has_storage_writes(&self) -> (r: bool)
        ensures
            r == (self.storage_writes@.len() > 0),
    {
        self.storage_writes.len() > 0
    }
}

/// A call into another contract.
#[derive(Debug, Clone)]
pub struct CrossContractCall {
    pub target: String,
    pub function: String,
    pub args_count: usize,
    pub position: SourcePos,
    /// The call was made via `invoke_contract_read_only`.
    pub read_only: bool,
}

/// A source position, ordered by line and then column.
#[derive(Debug, Clone, Copy, PartialEq, Eq, PartialOrd, Ord, Structural)]
pub struct SourcePos {
    pub line: usize,
    pub column: usize,
}

impl SourcePos {
    /// `self` comes strictly before `other` in the source.
    pub open spec fn precedes(self, other: SourcePos) -> bool {
        self.line < other.line || (self.line == other.line && self.column < other.column)
    }

    /// `self` comes strictly before `other` in the source.
    pub fn before(&self, other: &SourcePos) -> (r: bool)
        ensures
            r == self.precedes(*other),
    {
        self.line < other.line || (self.line == other.line && self.column < other.column)
    }

    /// The position that stands for "no position".
    pub fn unknown() -> (r: SourcePos)
        ensures
            r.line == 0 && r.column == 0,
    {
        SourcePos { line: 0, column: 0 }
    }
}

/// How a storage key was written.
#[derive(Debug, Clone)]
pub enum StorageKeyType {
    Symbol,
    Bytes,
    String,
    Other(String),
}

/// What a storage operation does.
#[derive(Debug, Clone, Copy, PartialEq, Eq, Structural)]
pub enum StorageAccessType {
    Read,
    Write,
    Delete,
    Check,
}

/// Which Soroban storage tier an operation uses.
#[derive(Debug, Clone, Copy, PartialEq, Eq, Structural)]
pub enum StorageType {
    Instance,
    Temporary,
    Persistent,
}

/// One storage operation.
#[derive(Debug, Clone)]
pub struct StorageAccess {
    pub key: String,
    pub key_type: StorageKeyType,
    pub access_type: StorageAccessType,
    pub storage_type: StorageType,
    pub position: SourcePos,
    /// The rendered value expression of a write.
    pub value_type: Option<String>,
}

impl StorageKeyType {
    /// A copy of this key type.
    pub fn duplicate(&self) -> (r: StorageKeyType)
        ensures
            r == *self,
    {
        match self {
            StorageKeyType::Symbol => StorageKeyType::Symbol,
            StorageKeyType::Bytes => StorageKeyType::Bytes,
            StorageKeyType::String => StorageKeyType::String,
            StorageKeyType::Other(s) => StorageKeyType::Other(s.clone()),
        }
    }
}

impl StorageAccess {
    /// A copy of this access.
    pub fn duplicate(&self) -> (r: StorageAccess)
        ensures
            r == *self,
    {
        StorageAccess {
            key: self.key.clone(),
            key_type: self.key_type.duplicate(),
            access_type: self.access_type,
            storage_type: self.storage_type,
            position: self.position,
            value_type: match &self.value_type {
                Some(v) => Some(v.clone()),
                None => None,
            },
        }
    }
}

/// An authorization call.
#[derive(Debug, Clone)]
pub struct AuthCheck {
    pub kind: AuthKind,
    pub target: String,
}

/// Which authorization call was made.
#[derive(Debug, Clone, Copy, PartialEq, Eq, Structural)]
pub enum AuthKind {
    RequireAuth,
    RequireAuthForArgs,
}

/// An arithmetic operator.
#[derive(Debug, Clone, Copy, PartialEq, Eq, Structural)]
pub enum ArithOp {
    Add,
    Sub,
    Mul,
    Div,
    Mod,
    Shl,
    Shr,
}

impl ArithOp {
    /// The operator's symbol.
    pub open spec fn symbol_spec(self) -> Seq<char> {
        match self {
            ArithOp::Add => "+"@,
            ArithOp::Sub => "-"@,
            ArithOp::Mul => "*"@,
            ArithOp::Div => "/"@,
            ArithOp::Mod => "%"@,
            ArithOp::Shl => "<<"@,
            ArithOp::Shr => ">>"@,
        }
    }

    /// The name of the checked method that replaces the operator.
    pub open spec fn checked_method_spec(self) -> Seq<char> {
        match self {
            ArithOp::Add => "checked_add"@,
            ArithOp::Sub => "checked_sub"@,
            ArithOp::Mul => "checked_mul"@,
            ArithOp::Div => "checked_div"@,
            ArithOp::Mod => "checked_rem"@,
            ArithOp::Shl => "checked_shl"@,
            ArithOp::Shr => "checked_shr"@,
        }
    }

    /// The operator's symbol.
    pub fn symbol(&self) -> (r: &'static str)
        ensures
            r@ == self.symbol_spec(),
    {
        match self {
            ArithOp::Add => "+",
            ArithOp::Sub => "-",
            ArithOp::Mul => "*",
            ArithOp::Div => "/",
            ArithOp::Mod => "%",
            ArithOp::Shl => "<<",
            ArithOp::Shr => ">>",
        }
    }

    /// The name of the checked method that replaces the operator.
    pub fn checked_method(&self) -> (r: &'static str)
        ensures
            r@ == self.checked_method_spec(),
    {
        match self {
            ArithOp::Add => "checked_add",
            ArithOp::Sub => "checked_sub",
            ArithOp::Mul => "checked_mul",
            ArithOp::Div => "checked_div",
            ArithOp::Mod => "checked_rem",
            ArithOp::Shl => "checked_shl",
            ArithOp::Shr => "checked_shr",
        }
    }
}

/// One arithmetic expression found in a body.
#[derive(Debug, Clone)]
pub struct ArithExpr {
    pub op: ArithOp,
    pub left: String,
    pub right: String,
    /// `"i128"` when an operand is known to be a financial integer.
    pub return_type: String,
    /// Written with an explicit `checked_*`/`wrapping_*`/... method.
    pub is_checked: bool,
    /// A division whose divisor cannot be zero.
    pub divisor_checked: bool,
    /// Nested inside a comparison.
    pub compared: bool,
    /// A compound assignment such as `+=`.
    pub is_compound: bool,
    pub in_loop: bool,
    /// The innermost enclosing loop has a dynamic bound.
    pub dynamic_loop: bool,
    pub position: SourcePos,
}

/// A cast of a financial value to a narrower integer type.
#[derive(Debug, Clone)]
pub struct CastExpr {
    pub from: String,
    pub from_type: String,
    pub to: String,
    pub position: SourcePos,
}

} // verus!
