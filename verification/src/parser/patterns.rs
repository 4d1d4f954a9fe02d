//! Recognisers for the Soroban call and type patterns the parser looks for.
use vstd::prelude::*;

use crate::parser::ast::{ArithOp, StorageAccessType, StorageType};
use crate::text::{chars_of, same_text, string_of, trim_chars, trim_spec};

verus! {

// ---------------------------------------------------------------------------
// Method and call names
// ---------------------------------------------------------------------------
/// `addr.require_auth()`.
pub fn method_is_require_auth(name: &str) -> (r: bool)
    ensures
        r == (name@ == "require_auth"@),
{
    same_text(name, "require_auth")
}

/// `addr.require_auth_for_args(..)`.
pub fn method_is_require_auth_for_args(name: &str) -> (r: bool)
    ensures
        r == (name@ == "require_auth_for_args"@),
{
    same_text(name, "require_auth_for_args")
}

/// `env.invoke_contract(..)` or `env.invoke_contract_read_only(..)`.
pub fn method_is_invoke_contract(name: &str) -> (r: bool)
    ensures
        r == (name@ == "invoke_contract"@ || name@ == "invoke_contract_read_only"@),
{
    same_text(name, "invoke_contract") || same_text(name, "invoke_contract_read_only")
}

/// `env.storage()`.
pub fn method_is_storage(name: &str) -> (r: bool)
    ensures
        r == (name@ == "storage"@),
{
    same_text(name, "storage")
}

/// A bare path `require_auth(..)`.
pub fn is_require_auth(ident: Option<&str>) -> (r: bool)
    ensures
        r == (ident matches Some(s) && s@ == "require_auth"@),
{
    match ident {
        Some(s) => same_text(s, "require_auth"),
        None => false,
    }
}

/// A bare path `require_auth_for_args(..)`.
pub fn is_require_auth_for_args(ident: Option<&str>) -> (r: bool)
    ensures
        r == (ident matches Some(s) && s@ == "require_auth_for_args"@),
{
    match ident {
        Some(s) => same_text(s, "require_auth_for_args"),
        None => false,
    }
}

/// The storage tier a method name selects.
pub open spec fn storage_type_named(name: Seq<char>) -> Option<StorageType> {
    if name == "instance"@ {
        Some(StorageType::Instance)
    } else if name == "temporary"@ {
        Some(StorageType::Temporary)
    } else if name == "persistent"@ {
        Some(StorageType::Persistent)
    } else {
        None
    }
}

/// The storage operation a method name performs.
pub open spec fn access_type_named(name: Seq<char>) -> Option<StorageAccessType> {
    if name == "set"@ {
        Some(StorageAccessType::Write)
    } else if name == "get"@ {
        Some(StorageAccessType::Read)
    } else if name == "del"@ {
        Some(StorageAccessType::Delete)
    } else if name == "has"@ {
        Some(StorageAccessType::Check)
    } else {
        None
    }
}

/// The storage tier of `env.storage().<name>()`.
pub fn detect_storage_type(name: &str) -> (r: Option<StorageType>)
    ensures
        r == storage_type_named(name@),
{
    if same_text(name, "instance") {
        Some(StorageType::Instance)
    } else if same_text(name, "temporary") {
        Some(StorageType::Temporary)
    } else if same_text(name, "persistent") {
        Some(StorageType::Persistent)
    } else {
        None
    }
}

/// The operation of `env.storage().<tier>().<name>(..)`.
pub fn detect_storage_access_type(name: &str) -> (r: Option<StorageAccessType>)
    ensures
        r == access_type_named(name@),
{
    if same_text(name, "set") {
        Some(StorageAccessType::Write)
    } else if same_text(name, "get") {
        Some(StorageAccessType::Read)
    } else if same_text(name, "del") {
        Some(StorageAccessType::Delete)
    } else if same_text(name, "has") {
        Some(StorageAccessType::Check)
    } else {
        None
    }
}

// ---------------------------------------------------------------------------
// Explicit arithmetic methods
// ---------------------------------------------------------------------------
/// How an explicit arithmetic method handles overflow.
#[derive(Debug, Clone, Copy, PartialEq, Eq, Structural)]
pub enum ArithKind {
    Checked,
    Saturating,
    Wrapping,
    Overflowing,
}

impl ArithKind {
    /// The method states its overflow behaviour, so the overflow rules skip it.
    pub open spec fn checked(self) -> bool {
        true
    }

    /// The method states its overflow behaviour, so the overflow rules skip it.
    pub fn is_checked(&self) -> (r: bool)
        ensures
            r == self.checked(),
    {
        true
    }
}

/// The operator of an arithmetic method suffix.
pub open spec fn op_named(s: Seq<char>) -> Option<ArithOp> {
    if s == "add"@ {
        Some(ArithOp::Add)
    } else if s == "sub"@ {
        Some(ArithOp::Sub)
    } else if s == "mul"@ {
        Some(ArithOp::Mul)
    } else if s == "div"@ {
        Some(ArithOp::Div)
    } else if s == "rem"@ {
        Some(ArithOp::Mod)
    } else if s == "shl"@ {
        Some(ArithOp::Shl)
    } else if s == "shr"@ {
        Some(ArithOp::Shr)
    } else {
        None
    }
}

/// The operator and kind of `checked_<op>`, `saturating_<op>`, `wrapping_<op>`
/// or `overflowing_<op>`.
pub open spec fn arith_method_spec(name: Seq<char>) -> Option<(ArithOp, ArithKind)> {
    let (kind, rest) = if name.len() >= 8 && name.take(8) == "checked_"@ {
        (Some(ArithKind::Checked), name.skip(8))
    } else if name.len() >= 11 && name.take(11) == "saturating_"@ {
        (Some(ArithKind::Saturating), name.skip(11))
    } else if name.len() >= 9 && name.take(9) == "wrapping_"@ {
        (Some(ArithKind::Wrapping), name.skip(9))
    } else if name.len() >= 12 && name.take(12) == "overflowing_"@ {
        (Some(ArithKind::Overflowing), name.skip(12))
    } else {
        (None, name)
    };
    match (kind, op_named(rest)) {
        (Some(k), Some(op)) => Some((op, k)),
        _ => None,
    }
}

/// The characters `cs[start..]`.
fn chars_from(cs: &Vec<char>, start: usize) -> (r: String)
    requires
        start <= cs@.len(),
    ensures
        r@ == cs@.skip(start as int),
{
    let mut out: Vec<char> = Vec::new();
    let mut i = start;
    while i < cs.len()
        invariant
            start <= i <= cs@.len(),
            out@ == cs@.subrange(start as int, i as int),
        decreases cs@.len() - i,
    {
        out.push(cs[i]);
        assert(cs@.subrange(start as int, i + 1) =~= cs@.subrange(start as int, i as int).push(cs@[i as int]));
        i = i + 1;
    }
    assert(out@ =~= cs@.skip(start as int));
    string_of(out.as_slice())
}

/// Whether `cs` starts with `p`.
fn chars_start_with(cs: &Vec<char>, p: &str) -> (r: bool)
    ensures
        r == (p@.len() <= cs@.len() && cs@.take(p@.len() as int) == p@),
{
    let pc = chars_of(p);
    if pc.len() > cs.len() {
        return false;
    }
    let mut i: usize = 0;
    while i < pc.len()
        invariant
            i <= pc@.len() <= cs@.len(),
            pc@ == p@,
            forall|j: int| 0 <= j < i ==> cs@[j] == pc@[j],
        decreases pc@.len() - i,
    {
        if cs[i] != pc[i] {
            assert(cs@.take(pc@.len() as int)[i as int] != p@[i as int]);
            return false;
        }
        i = i + 1;
    }
    assert(cs@.take(pc@.len() as int) =~= p@);
    true
}

/// The operator of an arithmetic method suffix.
fn op_of_suffix(s: &str) -> (r: Option<ArithOp>)
    ensures
        r == op_named(s@),
{
    if same_text(s, "add") {
        Some(ArithOp::Add)
    } else if same_text(s, "sub") {
        Some(ArithOp::Sub)
    } else if same_text(s, "mul") {
        Some(ArithOp::Mul)
    } else if same_text(s, "div") {
        Some(ArithOp::Div)
    } else if same_text(s, "rem") {
        Some(ArithOp::Mod)
    } else if same_text(s, "shl") {
        Some(ArithOp::Shl)
    } else if same_text(s, "shr") {
        Some(ArithOp::Shr)
    } else {
        None
    }
}

/// Classifies an explicit arithmetic method such as `checked_add` or
/// `wrapping_mul`.
pub fn classify_arith_method(name: &str) -> (r: Option<(ArithOp, ArithKind)>)
    ensures
        r == arith_method_spec(name@),
{
    let cs = chars_of(name);
    proof {
        reveal_strlit("checked_");
        reveal_strlit("saturating_");
        reveal_strlit("wrapping_");
        reveal_strlit("overflowing_");
    }
    let (kind, start): (Option<ArithKind>, usize) = if chars_start_with(&cs, "checked_") {
        (Some(ArithKind::Checked), 8)
    } else if chars_start_with(&cs, "saturating_") {
        (Some(ArithKind::Saturating), 11)
    } else if chars_start_with(&cs, "wrapping_") {
        (Some(ArithKind::Wrapping), 9)
    } else if chars_start_with(&cs, "overflowing_") {
        (Some(ArithKind::Overflowing), 12)
    } else {
        (None, 0)
    };
    match kind {
        Some(k) => {
            let rest = chars_from(&cs, start);
            match op_of_suffix(rest.as_str()) {
                Some(op) => Some((op, k)),
                None => None,
            }
        },
        None => None,
    }
}

// ---------------------------------------------------------------------------
// Type names
// ---------------------------------------------------------------------------
/// `s` without its space characters.
pub open spec fn without_spaces(s: Seq<char>) -> Seq<char>
    decreases s.len(),
{
    if s.len() == 0 {
        seq![]
    } else {
        without_spaces(s.drop_last()) + if s.last() == ' ' {
            seq![]
        } else {
            seq![s.last()]
        }
    }
}

/// `s` without its leading `&` characters (`trim_start_matches('&')`).
pub open spec fn without_leading_refs(s: Seq<char>) -> Seq<char>
    decreases s.len(),
{
    if s.len() > 0 && s[0] == '&' {
        without_leading_refs(s.drop_first())
    } else {
        s
    }
}

/// `s` up to its first `<` (the first piece of `split('<')`).
pub open spec fn before_angle(s: Seq<char>) -> Seq<char>
    decreases s.len(),
{
    if s.len() == 0 {
        seq![]
    } else if s[0] == '<' {
        seq![]
    } else {
        seq![s[0]] + before_angle(s.drop_first())
    }
}

/// `s` starts with `::`.
pub open spec fn starts_with_path_sep(s: Seq<char>) -> bool {
    s.len() >= 2 && s[0] == ':' && s[1] == ':'
}

/// Scanning `s` from the left finds a `::`.
pub open spec fn scan_finds_sep(s: Seq<char>) -> bool
    decreases s.len(),
{
    if s.len() < 2 {
        false
    } else if starts_with_path_sep(s) {
        true
    } else {
        scan_finds_sep(s.drop_first())
    }
}

/// The last piece of `split("::")`.
pub open spec fn last_path_piece(s: Seq<char>) -> Seq<char>
    decreases s.len(),
{
    if starts_with_path_sep(s) {
        last_path_piece(s.skip(2))
    } else if s.len() == 0 {
        s
    } else if scan_finds_sep(s.drop_first()) {
        last_path_piece(s.drop_first())
    } else {
        s
    }
}

/// The simple name of a type: without leading `&`, surrounding white space
/// and generic arguments, its last path segment, without spaces.
pub open spec fn simple_type_name_spec(ty: Seq<char>) -> Seq<char> {
    without_spaces(last_path_piece(before_angle(trim_spec(without_leading_refs(ty)))))
}

/// A type written as `i128` or `u128`, spaces aside.
pub open spec fn financial_type_spec(ty: Seq<char>) -> bool {
    without_spaces(ty) == "i128"@ || without_spaces(ty) == "u128"@
}

/// An integer type narrower than 128 bits.
pub open spec fn narrowing_type_spec(ty: Seq<char>) -> bool {
    let n = simple_type_name_spec(ty);
    ||| n == "i8"@
    ||| n == "i16"@
    ||| n == "i32"@
    ||| n == "i64"@
    ||| n == "u8"@
    ||| n == "u16"@
    ||| n == "u32"@
    ||| n == "u64"@
    ||| n == "usize"@
    ||| n == "isize"@
}

/// `cs` without its space characters.
fn strip_spaces(cs: &[char]) -> (r: Vec<char>)
    ensures
        r@ == without_spaces(cs@),
{
    let mut out: Vec<char> = Vec::new();
    let mut i: usize = 0;
    assert(cs@.take(0) =~= Seq::<char>::empty());
    while i < cs.len()
        invariant
            i <= cs@.len(),
            out@ == without_spaces(cs@.take(i as int)),
        decreases cs@.len() - i,
    {
        assert(cs@.take(i + 1).drop_last() =~= cs@.take(i as int));
        if cs[i] != ' ' {
            out.push(cs[i]);
        }
        assert(out@ =~= without_spaces(cs@.take(i + 1)));
        i = i + 1;
    }
    assert(cs@.take(i as int) =~= cs@);
    out
}

/// `s` without its space characters (`replace(' ', "")`).
pub fn remove_spaces(s: &str) -> (r: String)
    ensures
        r@ == without_spaces(s@),
{
    let cs = chars_of(s);
    let out = strip_spaces(cs.as_slice());
    string_of(out.as_slice())
}

pub proof fn lemma_leading_refs_skip(s: Seq<char>, i: int)
    requires
        0 <= i <= s.len(),
        forall|j: int| 0 <= j < i ==> s[j] == '&',
    ensures
        without_leading_refs(s) == without_leading_refs(s.skip(i)),
    decreases i,
{
    if i > 0 {
        assert(s.drop_first().skip(i - 1) =~= s.skip(i));
        lemma_leading_refs_skip(s.drop_first(), i - 1);
    } else {
        assert(s.skip(0) =~= s);
    }
}

proof fn lemma_before_angle(s: Seq<char>, i: int)
    requires
        0 <= i <= s.len(),
        forall|j: int| 0 <= j < i ==> s[j] != '<',
        i == s.len() || s[i] == '<',
    ensures
        before_angle(s) == s.take(i),
    decreases i,
{
    if i > 0 {
        lemma_before_angle(s.drop_first(), i - 1);
        assert(seq![s[0]] + s.drop_first().take(i - 1) =~= s.take(i));
    } else {
        assert(s.take(0) =~= Seq::<char>::empty());
    }
}

proof fn lemma_no_sep_whole(s: Seq<char>)
    requires
        !scan_finds_sep(s),
    ensures
        last_path_piece(s) == s,
    decreases s.len(),
{
}

/// The last piece of `split("::")` of `cs`.
fn last_piece(cs: &Vec<char>) -> (r: Vec<char>)
    ensures
        r@ == last_path_piece(cs@),
{
    let ghost s = cs@;
    let n = cs.len();
    let mut start: usize = 0;
    let mut i: usize = 0;
    proof {
        assert(s.skip(0) =~= s);
        if !scan_finds_sep(s) {
            lemma_no_sep_whole(s);
        }
        assert(s.subrange(0, n as int) =~= s);
    }
    while i < n
        invariant
            start <= i <= n,
            n == s.len(),
            s == cs@,
            last_path_piece(s) == (if scan_finds_sep(s.skip(i as int)) {
                last_path_piece(s.skip(i as int))
            } else {
                s.subrange(start as int, n as int)
            }),
        decreases n - i,
    {
        let ghost u = s.skip(i as int);
        if i + 1 < n && cs[i] == ':' && cs[i + 1] == ':' {
            assert(starts_with_path_sep(u));
            assert(u.skip(2) =~= s.skip(i + 2));
            proof {
                if !scan_finds_sep(s.skip(i + 2)) {
                    lemma_no_sep_whole(s.skip(i + 2));
                    assert(s.subrange(i + 2, n as int) =~= s.skip(i + 2));
                }
            }
            start = i + 2;
            i = i + 2;
        } else {
            assert(!starts_with_path_sep(u));
            assert(u.drop_first() =~= s.skip(i + 1));
            i = i + 1;
        }
    }
    assert(!scan_finds_sep(s.skip(i as int)));
    let mut out: Vec<char> = Vec::new();
    let mut k = start;
    while k < n
        invariant
            start <= k <= n,
            n == cs@.len(),
            out@ == cs@.subrange(start as int, k as int),
        decreases n - k,
    {
        out.push(cs[k]);
        assert(cs@.subrange(start as int, k + 1) =~= cs@.subrange(start as int, k as int).push(cs@[k as int]));
        k = k + 1;
    }
    out
}

/// The simple name of a type string: `&soroban_sdk::Vec<i128>` gives `Vec`.
pub fn simple_type_name(ty: &str) -> (r: String)
    ensures
        r@ == simple_type_name_spec(ty@),
{
    let cs = chars_of(ty);
    let mut a: usize = 0;
    while a < cs.len() && cs[a] == '&'
        invariant
            a <= cs@.len(),
            forall|j: int| 0 <= j < a ==> cs@[j] == '&',
        decreases cs@.len() - a,
    {
        a = a + 1;
    }
    proof {
        lemma_leading_refs_skip(cs@, a as int);
        if a < cs.len() {
            assert(cs@.skip(a as int)[0] == cs@[a as int]);
        }
    }
    let mut rest: Vec<char> = Vec::new();
    let mut i = a;
    while i < cs.len()
        invariant
            a <= i <= cs@.len(),
            rest@ == cs@.subrange(a as int, i as int),
        decreases cs@.len() - i,
    {
        rest.push(cs[i]);
        assert(cs@.subrange(a as int, i + 1) =~= cs@.subrange(a as int, i as int).push(cs@[i as int]));
        i = i + 1;
    }
    assert(rest@ =~= cs@.skip(a as int));
    assert(rest@ == without_leading_refs(ty@));
    let trimmed = trim_chars(rest.as_slice());
    let mut head: Vec<char> = Vec::new();
    let mut j: usize = 0;
    while j < trimmed.len() && trimmed[j] != '<'
        invariant
            j <= trimmed@.len(),
            head@ == trimmed@.take(j as int),
            forall|q: int| 0 <= q < j ==> trimmed@[q] != '<',
        decreases trimmed@.len() - j,
    {
        head.push(trimmed[j]);
        assert(trimmed@.take(j + 1) =~= trimmed@.take(j as int).push(trimmed@[j as int]));
        j = j + 1;
    }
    proof { lemma_before_angle(trimmed@, j as int); }
    let last = last_piece(&head);
    let out = strip_spaces(last.as_slice());
    string_of(out.as_slice())
}

/// A type string naming `i128` or `u128`.
pub fn is_financial_type(ty: &str) -> (r: bool)
    ensures
        r == financial_type_spec(ty@),
{
    let t = remove_spaces(ty);
    same_text(t.as_str(), "i128") || same_text(t.as_str(), "u128")
}

/// A type string naming an integer type narrower than 128 bits.
pub fn is_narrowing_int_type(ty: &str) -> (r: bool)
    ensures
        r == narrowing_type_spec(ty@),
{
    let n = simple_type_name(ty);
    let s = n.as_str();
    same_text(s, "i8") || same_text(s, "i16") || same_text(s, "i32") || same_text(s, "i64") || same_text(s, "u8")
        || same_text(s, "u16") || same_text(s, "u32") || same_text(s, "u64") || same_text(s, "usize")
        || same_text(s, "isize")
}

} // verus!
