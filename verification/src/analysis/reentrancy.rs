//! Reentrancy detection for Soroban contracts.
//!
//! In Soroban, execution is single-threaded, so reentrancy manifests as
//! recursive invocation: a contract calls another contract, and the callee
//! re-enters the calling contract before it has finished updating its own
//! state.  The rules compare the source positions of storage accesses with
//! those of cross-contract calls:
//!
//! * **R-01** (Critical) — a storage write occurs after an external call.
//! * **R-02** (Medium)   — a read-only external call sits between a read and a
//!   later write of the same storage key.
//! * **R-03** (Low)      — a function makes external calls but the contract has
//!   no reentrancy-guard storage key.
//! * **R-04** (High)     — two externally-calling functions share a storage key.
use vstd::prelude::*;

use super::{location, location_spec, push_finding};
use crate::parser::ast::{Contract, ContractFn, CrossContractCall, SourcePos, StorageAccess};
use crate::report::finding::{finding_spec, Finding, FindingView};
use crate::report::severity::Severity;
use crate::sorted::{
    insert_sorted, lemma_lex_transitive, lemma_sorted_of, lex_lt, sorted_of, strictly_sorted,
};
use crate::text::{cat, contains_str, copy_str, has_infix, to_upper, upper_case};

verus! {

/// The reentrancy detector (rules R-01 to R-04).
pub struct ReentrancyDetector;

// ---------------------------------------------------------------------------
// Guard keys
// ---------------------------------------------------------------------------
/// An upper-cased key names a guard or lock flag.
pub open spec fn guard_marked(upper: Seq<char>) -> bool {
    has_infix(upper, "REENTRANCY"@) || has_infix(upper, "GUARD"@) || has_infix(upper, "LOCK"@)
}

/// A storage key names a reentrancy guard or lock flag (case-insensitively).
pub open spec fn guard_key(key: Seq<char>) -> bool {
    guard_marked(upper_case(key))
}

/// An upper-cased key mentions `REENTRANCY`, `GUARD` or `LOCK`.
pub fn has_guard_marker(upper: &str) -> (r: bool)
    ensures
        r == guard_marked(upper@),
{
    contains_str(upper, "REENTRANCY") || contains_str(upper, "GUARD") || contains_str(upper, "LOCK")
}

/// True when a storage key looks like a reentrancy guard or lock flag.  Writes
/// to such keys are the guard mechanism itself.
pub fn is_guard_key(key: &str) -> (r: bool)
    ensures
        r == guard_key(key@),
{
    let upper = to_upper(key);
    has_guard_marker(upper.as_str())
}

// ---------------------------------------------------------------------------
// Specification of the rules
// ---------------------------------------------------------------------------
/// The position of the earliest call in `calls` (meaningful when non-empty).
pub open spec fn earliest_pos(calls: Seq<CrossContractCall>) -> SourcePos
    decreases calls.len(),
{
    if calls.len() <= 1 {
        calls[0].position
    } else {
        let m = earliest_pos(calls.drop_last());
        if calls.last().position.precedes(m) {
            calls.last().position
        } else {
            m
        }
    }
}

/// Some write to a non-guard key happens after `p`.
pub open spec fn non_guard_write_after(writes: Seq<StorageAccess>, p: SourcePos) -> bool {
    exists|i: int|
        0 <= i < writes.len() && !guard_key(#[trigger] writes[i].key@) && p.precedes(
            writes[i].position,
        )
}

/// Some write to `key` happens after `p`.
pub open spec fn key_written_after(writes: Seq<StorageAccess>, key: Seq<char>, p: SourcePos) -> bool {
    exists|i: int| 0 <= i < writes.len() && #[trigger] writes[i].key@ == key && p.precedes(writes[i].position)
}

/// The first read (in order) before `p` whose key is written after `p`.
pub open spec fn stale_key(reads: Seq<StorageAccess>, writes: Seq<StorageAccess>, p: SourcePos) -> Option<Seq<char>>
    decreases reads.len(),
{
    if reads.len() == 0 {
        None
    } else if reads[0].position.precedes(p) && key_written_after(writes, reads[0].key@, p) {
        Some(reads[0].key@)
    } else {
        stale_key(reads.drop_first(), writes, p)
    }
}

pub open spec fn r01_message(name: Seq<char>) -> Seq<char> {
    "Function '"@ + name + "' writes to storage after an external call — reentrancy risk"@
}

pub open spec fn r02_message(name: Seq<char>, key: Seq<char>) -> Seq<char> {
    "Function '"@ + name + "' reads storage key '"@ + key
        + "', makes a read-only external call, then updates that key — read-only reentrancy risk (stale read)"@
}

pub open spec fn r03_message(name: Seq<char>) -> Seq<char> {
    "Function '"@ + name + "' makes external calls but no reentrancy guard was found on the contract"@
}

pub open spec fn r04_message(name: Seq<char>, key: Seq<char>) -> Seq<char> {
    "Function '"@ + name + "' makes an external call and shares storage key '"@ + key
        + "' with another externally-calling function — cross-function reentrancy risk"@
}

/// R-01 for one function: a non-guard write after its earliest external call.
pub open spec fn r01_spec(c: Contract, f: ContractFn) -> Seq<FindingView> {
    let calls = f.body_analysis.cross_contract_calls@;
    if calls.len() > 0 && non_guard_write_after(f.body_analysis.storage_writes@, earliest_pos(calls)) {
        seq![finding_spec(
            Severity::Critical,
            "R-01"@,
            r01_message(f.name@),
            location_spec(c.name@, earliest_pos(calls)),
            "Move state updates before the external call, or use a reentrancy guard"@,
        )]
    } else {
        seq![]
    }
}

/// R-02 for one call of a function.
pub open spec fn r02_for_call(c: Contract, f: ContractFn, call: CrossContractCall) -> Seq<FindingView> {
    if !call.read_only {
        seq![]
    } else {
        match stale_key(f.body_analysis.storage_reads@, f.body_analysis.storage_writes@, call.position) {
            Some(key) => seq![finding_spec(
                Severity::Medium,
                "R-02"@,
                r02_message(f.name@, key),
                location_spec(c.name@, call.position),
                "Cache or re-validate the value after the call, or guard the function against reentrancy"@,
            )],
            None => seq![],
        }
    }
}

/// R-02 for the first `n` calls of a function.
pub open spec fn r02_upto(c: Contract, f: ContractFn, n: int) -> Seq<FindingView>
    decreases n,
{
    if n <= 0 {
        seq![]
    } else {
        r02_upto(c, f, n - 1) + r02_for_call(c, f, f.body_analysis.cross_contract_calls@[n - 1])
    }
}

/// R-02 for all calls of a function.
pub open spec fn r02_spec(c: Contract, f: ContractFn) -> Seq<FindingView> {
    r02_upto(c, f, f.body_analysis.cross_contract_calls@.len() as int)
}

/// R-03 for one function of a contract without a guard key.
pub open spec fn r03_spec(c: Contract, f: ContractFn) -> Seq<FindingView> {
    let calls = f.body_analysis.cross_contract_calls@;
    if calls.len() > 0 {
        seq![finding_spec(
            Severity::Low,
            "R-03"@,
            r03_message(f.name@),
            location_spec(c.name@, earliest_pos(calls)),
            "Consider adding a reentrancy guard (e.g. a REENTRANCY_GUARD storage flag)"@,
        )]
    } else {
        seq![]
    }
}

/// The contract stores some guard key.
pub open spec fn contract_has_guard(c: Contract) -> bool {
    exists|i: int| 0 <= i < c.storage_keys@.len() && guard_key(#[trigger] c.storage_keys@[i].key@)
}

/// Findings of the per-function rules, in the order the detector reports them.
pub open spec fn per_fn_spec(c: Contract, f: ContractFn) -> Seq<FindingView> {
    r01_spec(c, f) + r02_spec(c, f) + if contract_has_guard(c) {
        seq![]
    } else {
        r03_spec(c, f)
    }
}

/// Per-function findings of the first `n` functions.
pub open spec fn per_fn_upto(c: Contract, n: int) -> Seq<FindingView>
    decreases n,
{
    if n <= 0 {
        seq![]
    } else {
        per_fn_upto(c, n - 1) + per_fn_spec(c, c.functions@[n - 1])
    }
}

/// The function makes a cross-contract call.
pub open spec fn is_external(f: ContractFn) -> bool {
    f.body_analysis.cross_contract_calls@.len() > 0
}

/// The non-guard keys a function reads or writes.
pub open spec fn fn_keys(f: ContractFn) -> Set<Seq<char>> {
    Set::new(
        |k: Seq<char>|
            !guard_key(k) && ((exists|i: int|
                0 <= i < f.body_analysis.storage_reads@.len()
                    && #[trigger] f.body_analysis.storage_reads@[i].key@ == k) || (exists|i: int|
                0 <= i < f.body_analysis.storage_writes@.len()
                    && #[trigger] f.body_analysis.storage_writes@[i].key@ == k)),
    )
}

/// Another externally-calling function of `c` than the `i`-th touches `k`.
pub open spec fn shared_with_other(c: Contract, i: int, k: Seq<char>) -> bool {
    exists|j: int|
        0 <= j < c.functions@.len() && j != i && is_external(#[trigger] c.functions@[j])
            && fn_keys(c.functions@[j]).contains(k)
}

/// The keys of the `i`-th function that another externally-calling function touches, in order.
pub open spec fn shared_keys(c: Contract, i: int) -> Seq<Seq<char>> {
    sorted_of(fn_keys(c.functions@[i]).filter(|k: Seq<char>| shared_with_other(c, i, k)))
}

pub open spec fn r04_finding(c: Contract, f: ContractFn, key: Seq<char>) -> FindingView {
    finding_spec(
        Severity::High,
        "R-04"@,
        r04_message(f.name@, key),
        location_spec(c.name@, earliest_pos(f.body_analysis.cross_contract_calls@)),
        "Use a shared reentrancy guard across functions that touch this key"@,
    )
}

/// R-04 for the `i`-th function.
pub open spec fn r04_for_fn(c: Contract, i: int) -> Seq<FindingView> {
    if is_external(c.functions@[i]) {
        shared_keys(c, i).map_values(|k: Seq<char>| r04_finding(c, c.functions@[i], k))
    } else {
        seq![]
    }
}

/// R-04 for the first `n` functions.
pub open spec fn r04_upto(c: Contract, n: int) -> Seq<FindingView>
    decreases n,
{
    if n <= 0 {
        seq![]
    } else {
        r04_upto(c, n - 1) + r04_for_fn(c, n - 1)
    }
}

/// Everything the detector reports for a contract.
pub open spec fn reentrancy_spec(c: Contract) -> Seq<FindingView> {
    per_fn_upto(c, c.functions@.len() as int) + r04_upto(c, c.functions@.len() as int)
}

// ---------------------------------------------------------------------------
// Implementation
// ---------------------------------------------------------------------------
/// The position of the earliest call.
pub fn earliest_call_pos(calls: &Vec<CrossContractCall>) -> (r: SourcePos)
    requires
        calls@.len() > 0,
    ensures
        r == earliest_pos(calls@),
{
    let mut best = calls[0].position;
    let mut i: usize = 1;
    assert(calls@.take(1).drop_last() =~= calls@.take(0));
    while i < calls.len()
        invariant
            1 <= i <= calls@.len(),
            best == earliest_pos(calls@.take(i as int)),
        decreases calls@.len() - i,
    {
        assert(calls@.take(i + 1).drop_last() =~= calls@.take(i as int));
        if calls[i].position.before(&best) {
            best = calls[i].position;
        }
        i = i + 1;
    }
    assert(calls@.take(calls@.len() as int) =~= calls@);
    best
}


/// The non-guard keys `f` reads or writes, in increasing order, without repeats.
pub fn storage_keys_of(func: &ContractFn) -> (r: Vec<String>)
    ensures
        strictly_sorted(r.deep_view()),
        r.deep_view().to_set() == fn_keys(*func),
{
    let reads = &func.body_analysis.storage_reads;
    let writes = &func.body_analysis.storage_writes;
    let mut r: Vec<String> = Vec::new();
    let mut i: usize = 0;
    assert(r.deep_view().to_set() =~= Set::<Seq<char>>::empty());
    while i < reads.len()
        invariant
            i <= reads@.len(),
            reads@ == func.body_analysis.storage_reads@,
            strictly_sorted(r.deep_view()),
            r.deep_view().to_set() == Set::new(
                |k: Seq<char>| !guard_key(k) && exists|t: int| 0 <= t < i && #[trigger] reads@[t].key@ == k,
            ),
        decreases reads@.len() - i,
    {
        let ghost prev = r.deep_view().to_set();
        if !is_guard_key(reads[i].key.as_str()) {
            insert_sorted(&mut r, &reads[i].key);
        }
        assert(r.deep_view().to_set() =~= Set::new(
            |k: Seq<char>| !guard_key(k) && exists|t: int| 0 <= t < i + 1 && #[trigger] reads@[t].key@ == k,
        )) by {
            assert forall|k: Seq<char>| prev.contains(k) implies (exists|t: int|
                0 <= t < i + 1 && #[trigger] reads@[t].key@ == k) by {
                let t = choose|t: int| 0 <= t < i && #[trigger] reads@[t].key@ == k;
                assert(reads@[t].key@ == k);
            }
        }
        i = i + 1;
    }
    let ghost read_set = r.deep_view().to_set();
    let mut i: usize = 0;
    while i < writes.len()
        invariant
            i <= writes@.len(),
            writes@ == func.body_analysis.storage_writes@,
            strictly_sorted(r.deep_view()),
            r.deep_view().to_set() == read_set.union(Set::new(
                |k: Seq<char>| !guard_key(k) && exists|t: int| 0 <= t < i && #[trigger] writes@[t].key@ == k,
            )),
        decreases writes@.len() - i,
    {
        let ghost prev = r.deep_view().to_set();
        if !is_guard_key(writes[i].key.as_str()) {
            insert_sorted(&mut r, &writes[i].key);
        }
        assert(r.deep_view().to_set() =~= read_set.union(Set::new(
            |k: Seq<char>| !guard_key(k) && exists|t: int| 0 <= t < i + 1 && #[trigger] writes@[t].key@ == k,
        ))) by {
            assert forall|k: Seq<char>| prev.contains(k) && !read_set.contains(k) implies (exists|t: int|
                0 <= t < i + 1 && #[trigger] writes@[t].key@ == k) by {
                let t = choose|t: int| 0 <= t < i && #[trigger] writes@[t].key@ == k;
                assert(writes@[t].key@ == k);
            }
        }
        i = i + 1;
    }
    assert(r.deep_view().to_set() =~= fn_keys(*func));
    r
}

/// `v` holds a string equal to `k`.
fn holds_key(v: &Vec<String>, k: &String) -> (r: bool)
    ensures
        r == v.deep_view().contains(k@),
{
    let mut i: usize = 0;
    while i < v.len()
        invariant
            i <= v@.len(),
            forall|j: int| 0 <= j < i ==> v.deep_view()[j] != k@,
        decreases v@.len() - i,
    {
        assert(v.deep_view()[i as int] == v@[i as int]@);
        if v[i] == *k {
            return true;
        }
        i = i + 1;
    }
    false
}

/// The ordered key sets of a contract's functions, empty for functions that
/// make no external call.
pub open spec fn key_sets_ok(c: Contract, sets: Seq<Vec<String>>) -> bool {
    &&& sets.len() == c.functions@.len()
    &&& forall|j: int| 0 <= j < sets.len() ==> strictly_sorted(#[trigger] sets[j].deep_view())
    &&& forall|j: int| 0 <= j < sets.len() ==> (#[trigger] sets[j].deep_view()).to_set() == (if is_external(c.functions@[j]) {
        fn_keys(c.functions@[j])
    } else {
        Set::<Seq<char>>::empty()
    })
}

/// Computes the key sets of every function.
fn key_sets(contract: &Contract) -> (r: Vec<Vec<String>>)
    ensures
        key_sets_ok(*contract, r@),
{
    let mut sets: Vec<Vec<String>> = Vec::new();
    let mut i: usize = 0;
    while i < contract.functions.len()
        invariant
            i <= contract.functions@.len(),
            sets@.len() == i,
            forall|j: int| 0 <= j < i ==> strictly_sorted(#[trigger] sets@[j].deep_view()),
            forall|j: int| 0 <= j < i ==> (#[trigger] sets@[j].deep_view()).to_set() == (if is_external(contract.functions@[j]) {
                fn_keys(contract.functions@[j])
            } else {
                Set::<Seq<char>>::empty()
            }),
        decreases contract.functions@.len() - i,
    {
        let f = &contract.functions[i];
        if f.body_analysis.cross_contract_calls.len() > 0 {
            sets.push(storage_keys_of(f));
        } else {
            let e: Vec<String> = Vec::new();
            assert(e.deep_view().to_set() =~= Set::<Seq<char>>::empty());
            sets.push(e);
        }
        i = i + 1;
    }
    sets
}

/// Another externally-calling function than the `i`-th touches `k`.
fn shared_elsewhere(contract: &Contract, sets: &Vec<Vec<String>>, i: usize, k: &String) -> (r: bool)
    requires
        key_sets_ok(*contract, sets@),
    ensures
        r == shared_with_other(*contract, i as int, k@),
{
    let mut j: usize = 0;
    while j < sets.len()
        invariant
            j <= sets@.len(),
            key_sets_ok(*contract, sets@),
            forall|t: int|
                0 <= t < j && t != i ==> !(is_external(#[trigger] contract.functions@[t]) && fn_keys(
                    contract.functions@[t],
                ).contains(k@)),
        decreases sets@.len() - j,
    {
        if j != i && contract.functions[j].body_analysis.cross_contract_calls.len() > 0 {
            assert(sets@[j as int].deep_view().to_set() == fn_keys(contract.functions@[j as int]));
            if holds_key(&sets[j], k) {
                return true;
            }
        }
        j = j + 1;
    }
    false
}

/// The keys of the `i`-th function shared with another externally-calling function, in order.
fn shared_keys_of(contract: &Contract, sets: &Vec<Vec<String>>, i: usize) -> (r: Vec<String>)
    requires
        key_sets_ok(*contract, sets@),
        i < contract.functions@.len(),
        is_external(contract.functions@[i as int]),
    ensures
        r.deep_view() == shared_keys(*contract, i as int),
{
    let keys = &sets[i];
    let ghost kq = keys.deep_view();
    let mut shared: Vec<String> = Vec::new();
    let mut t: usize = 0;
    while t < keys.len()
        invariant
            t <= keys@.len(),
            kq == keys.deep_view(),
            strictly_sorted(kq),
            key_sets_ok(*contract, sets@),
            i < sets@.len(),
            keys == sets@[i as int],
            strictly_sorted(shared.deep_view()),
            forall|a: int| 0 <= a < shared@.len() ==> exists|u: int| 0 <= u < t && kq[u] == #[trigger] shared.deep_view()[a],
            forall|x: Seq<char>| shared.deep_view().to_set().contains(x) <==> (exists|u: int| 0 <= u < t && #[trigger] kq[u] == x && shared_with_other(*contract, i as int, x)),
        decreases keys@.len() - t,
    {
        let ghost before = shared.deep_view();
        assert(kq[t as int] == keys@[t as int]@);
        if shared_elsewhere(contract, sets, i, &keys[t]) {
            shared.push(keys[t].clone());
            let ghost now = shared.deep_view();
            assert(now =~= before.push(kq[t as int]));
            assert forall|a: int, b: int| 0 <= a < b < now.len() implies lex_lt(#[trigger] now[a], #[trigger] now[b]) by {
                if b == now.len() - 1 {
                    let u = choose|u: int| 0 <= u < t && kq[u] == before[a];
                    assert(lex_lt(kq[u], kq[t as int]));
                } else {
                    assert(lex_lt(before[a], before[b]));
                }
            }
            assert forall|a: int| 0 <= a < now.len() implies exists|u: int| 0 <= u < t + 1 && kq[u] == #[trigger] now[a] by {
                if a < before.len() {
                    let u = choose|u: int| 0 <= u < t && kq[u] == before[a];
                    assert(kq[u] == now[a]);
                } else {
                    assert(kq[t as int] == now[a]);
                }
            }
            assert forall|x: Seq<char>| now.to_set().contains(x) <==> (exists|u: int| 0 <= u < t + 1 && #[trigger] kq[u] == x && shared_with_other(*contract, i as int, x)) by {
                if now.to_set().contains(x) {
                    let a = choose|a: int| 0 <= a < now.len() && now[a] == x;
                    if a < before.len() {
                        assert(before.to_set().contains(x));
                        let u = choose|u: int| 0 <= u < t && #[trigger] kq[u] == x && shared_with_other(*contract, i as int, x);
                        assert(kq[u] == x);
                    } else {
                        assert(kq[t as int] == x);
                    }
                }
                if exists|u: int| 0 <= u < t + 1 && #[trigger] kq[u] == x && shared_with_other(*contract, i as int, x) {
                    let u = choose|u: int| 0 <= u < t + 1 && #[trigger] kq[u] == x && shared_with_other(*contract, i as int, x);
                    if u < t {
                        assert(before.to_set().contains(x));
                        let a = choose|a: int| 0 <= a < before.len() && before[a] == x;
                        assert(now[a] == x);
                    } else {
                        assert(now[now.len() - 1] == x);
                    }
                }
            }
        } else {
            assert forall|x: Seq<char>| before.to_set().contains(x) <==> (exists|u: int| 0 <= u < t + 1 && #[trigger] kq[u] == x && shared_with_other(*contract, i as int, x)) by {
                if exists|u: int| 0 <= u < t + 1 && #[trigger] kq[u] == x && shared_with_other(*contract, i as int, x) {
                    let u = choose|u: int| 0 <= u < t + 1 && #[trigger] kq[u] == x && shared_with_other(*contract, i as int, x);
                    if u == t {
                        assert(!shared_with_other(*contract, i as int, kq[t as int]));
                    }
                    assert(exists|u: int| 0 <= u < t && #[trigger] kq[u] == x && shared_with_other(*contract, i as int, x));
                }
            }
            assert forall|a: int| 0 <= a < before.len() implies exists|u: int| 0 <= u < t + 1 && kq[u] == #[trigger] before[a] by {
                let u = choose|u: int| 0 <= u < t && kq[u] == before[a];
                assert(kq[u] == before[a]);
            }
        }
        t = t + 1;
    }
    let ghost target = fn_keys(contract.functions@[i as int]).filter(|k: Seq<char>| shared_with_other(*contract, i as int, k));
    assert(shared.deep_view().to_set() =~= target) by {
        assert(kq.to_set() == fn_keys(contract.functions@[i as int]));
        assert forall|x: Seq<char>| shared.deep_view().to_set().contains(x) <==> target.contains(x) by {
            if target.contains(x) {
                assert(kq.to_set().contains(x));
                let u = choose|u: int| 0 <= u < kq.len() && kq[u] == x;
                assert(kq[u] == x && shared_with_other(*contract, i as int, x));
            }
            if shared.deep_view().to_set().contains(x) {
                let u = choose|u: int| 0 <= u < t && #[trigger] kq[u] == x && shared_with_other(*contract, i as int, x);
                assert(kq.to_set().contains(kq[u]));
            }
        }
    }
    proof {
        lemma_sorted_of(shared.deep_view());
    }
    shared
}

impl ReentrancyDetector {
    /// The contract stores a key that looks like a reentrancy guard.
    fn has_guard(contract: &Contract) -> (r: bool)
        ensures
            r == contract_has_guard(*contract),
    {
        let mut i: usize = 0;
        while i < contract.storage_keys.len()
            invariant
                i <= contract.storage_keys@.len(),
                forall|j: int| 0 <= j < i ==> !guard_key(#[trigger] contract.storage_keys@[j].key@),
            decreases contract.storage_keys@.len() - i,
        {
            if is_guard_key(contract.storage_keys[i].key.as_str()) {
                return true;
            }
            i = i + 1;
        }
        false
    }

    /// R-01: a storage write after the earliest external call.
    fn check_state_after_call(contract: &Contract, func: &ContractFn, out: &mut Vec<Finding>)
        ensures
            final(out).deep_view() == old(out).deep_view() + r01_spec(*contract, *func),
    {
        let analysis = &func.body_analysis;
        if analysis.cross_contract_calls.len() == 0 {
            assert(old(out).deep_view() + r01_spec(*contract, *func) =~= old(out).deep_view());
            return;
        }
        let p = earliest_call_pos(&analysis.cross_contract_calls);
        let mut found = false;
        let mut i: usize = 0;
        while i < analysis.storage_writes.len()
            invariant
                i <= analysis.storage_writes@.len(),
                found == exists|j: int|
                    0 <= j < i && !guard_key(#[trigger] analysis.storage_writes@[j].key@)
                        && p.precedes(analysis.storage_writes@[j].position),
            decreases analysis.storage_writes@.len() - i,
        {
            let w = &analysis.storage_writes[i];
            if !is_guard_key(w.key.as_str()) && p.before(&w.position) {
                found = true;
            }
            i = i + 1;
        }
        if found {
            let msg = cat(cat(copy_str("Function '"), func.name.as_str()),
                "' writes to storage after an external call — reentrancy risk");
            let f = Finding::new(
                Severity::Critical,
                copy_str("R-01"),
                msg,
                location(contract, &p),
                copy_str("Move state updates before the external call, or use a reentrancy guard"),
            );
            push_finding(out, f);
        } else {
            assert(old(out).deep_view() + r01_spec(*contract, *func) =~= old(out).deep_view());
        }
    }

    /// The first read before `p` whose key is written after `p`.
    #[verifier::loop_isolation(false)]
    fn find_stale_key(func: &ContractFn, p: &SourcePos) -> (r: Option<String>)
        ensures
            r matches Some(k) ==> stale_key(func.body_analysis.storage_reads@, func.body_analysis.storage_writes@, *p) == Some(k@),
            r is None ==> stale_key(func.body_analysis.storage_reads@, func.body_analysis.storage_writes@, *p) is None,
    {
        let reads = &func.body_analysis.storage_reads;
        let writes = &func.body_analysis.storage_writes;
        let mut i: usize = 0;
        assert(reads@.skip(0) =~= reads@);
        while i < reads.len()
            invariant
                i <= reads@.len(),
                stale_key(reads@, writes@, *p) == stale_key(reads@.skip(i as int), writes@, *p),
            decreases reads@.len() - i,
        {
            let r = &reads[i];
            assert(reads@.skip(i as int)[0] == reads@[i as int]);
            assert(reads@.skip(i as int).drop_first() =~= reads@.skip(i + 1));
            if r.position.before(p) {
                let mut written = false;
                let mut j: usize = 0;
                while j < writes.len()
                    invariant
                        j <= writes@.len(),
                        written == exists|t: int|
                            0 <= t < j && #[trigger] writes@[t].key@ == r.key@ && p.precedes(writes@[t].position),
                    decreases writes@.len() - j,
                {
                    if writes[j].key == r.key && p.before(&writes[j].position) {
                        written = true;
                    }
                    j = j + 1;
                }
                if written {
                    return Some(r.key.clone());
                }
            }
            i = i + 1;
        }
        None
    }

    /// R-02: a read-only external call between a read and a later write of the same key.
    #[verifier::loop_isolation(false)]
    fn check_read_only_reentrancy(contract: &Contract, func: &ContractFn, out: &mut Vec<Finding>)
        ensures
            final(out).deep_view() == old(out).deep_view() + r02_spec(*contract, *func),
    {
        let calls = &func.body_analysis.cross_contract_calls;
        let mut i: usize = 0;
        assert(old(out).deep_view() + r02_upto(*contract, *func, 0) =~= old(out).deep_view());
        while i < calls.len()
            invariant
                i <= calls@.len(),
                out.deep_view() == old(out).deep_view() + r02_upto(*contract, *func, i as int),
            decreases calls@.len() - i,
        {
            let call = &calls[i];
            let ghost before = out.deep_view();
            if call.read_only {
                match Self::find_stale_key(func, &call.position) {
                    Some(key) => {
                        let msg = cat(cat(cat(cat(copy_str("Function '"), func.name.as_str()),
                            "' reads storage key '"), key.as_str()),
                            "', makes a read-only external call, then updates that key — read-only reentrancy risk (stale read)");
                        let f = Finding::new(
                            Severity::Medium,
                            copy_str("R-02"),
                            msg,
                            location(contract, &call.position),
                            copy_str("Cache or re-validate the value after the call, or guard the function against reentrancy"),
                        );
                        push_finding(out, f);
                    },
                    None => {},
                }
            }
            assert(calls@ == func.body_analysis.cross_contract_calls@);
            assert(r02_upto(*contract, *func, i + 1) == r02_upto(*contract, *func, i as int) + r02_for_call(*contract, *func, func.body_analysis.cross_contract_calls@[i as int]));
            assert(out.deep_view() == before + r02_for_call(*contract, *func, calls@[i as int]));
            assert(out.deep_view() =~= old(out).deep_view() + r02_upto(*contract, *func, i + 1));
            i = i + 1;
        }
    }

    /// R-03: a function with external calls in a contract without a guard key.
    fn check_missing_guard(contract: &Contract, func: &ContractFn, out: &mut Vec<Finding>)
        ensures
            final(out).deep_view() == old(out).deep_view() + r03_spec(*contract, *func),
    {
        if func.body_analysis.cross_contract_calls.len() == 0 {
            assert(old(out).deep_view() + r03_spec(*contract, *func) =~= old(out).deep_view());
            return;
        }
        let p = earliest_call_pos(&func.body_analysis.cross_contract_calls);
        let msg = cat(cat(copy_str("Function '"), func.name.as_str()),
            "' makes external calls but no reentrancy guard was found on the contract");
        let f = Finding::new(
            Severity::Low,
            copy_str("R-03"),
            msg,
            location(contract, &p),
            copy_str("Consider adding a reentrancy guard (e.g. a REENTRANCY_GUARD storage flag)"),
        );
        push_finding(out, f);
    }

    /// R-04: functions that make external calls and share a storage key.
    #[verifier::loop_isolation(false)]
    fn check_cross_function(contract: &Contract, out: &mut Vec<Finding>)
        ensures
            final(out).deep_view() == old(out).deep_view() + r04_upto(*contract, contract.functions@.len() as int),
    {
        let sets = key_sets(contract);
        let n = contract.functions.len();
        let mut i: usize = 0;
        assert(old(out).deep_view() + r04_upto(*contract, 0) =~= old(out).deep_view());
        while i < n
            invariant
                i <= n,
                out.deep_view() == old(out).deep_view() + r04_upto(*contract, i as int),
            decreases n - i,
        {
            let f = &contract.functions[i];
            let ghost before = out.deep_view();
            if f.body_analysis.cross_contract_calls.len() > 0 {
                let p = earliest_call_pos(&f.body_analysis.cross_contract_calls);
                let shared = shared_keys_of(contract, &sets, i);
                let ghost sk = shared_keys(*contract, i as int);
                let ghost mk = |k: Seq<char>| r04_finding(*contract, *f, k);
                let mut t: usize = 0;
                assert(before + sk.take(0).map_values(mk) =~= before);
                while t < shared.len()
                    invariant
                        t <= shared@.len(),
                        shared.deep_view() == sk,
                        out.deep_view() == before + sk.take(t as int).map_values(mk),
                    decreases shared@.len() - t,
                {
                    let key = &shared[t];
                    assert(sk[t as int] == key@);
                    let msg = cat(cat(cat(cat(copy_str("Function '"), f.name.as_str()),
                        "' makes an external call and shares storage key '"), key.as_str()),
                        "' with another externally-calling function — cross-function reentrancy risk");
                    let fd = Finding::new(
                        Severity::High,
                        copy_str("R-04"),
                        msg,
                        location(contract, &p),
                        copy_str("Use a shared reentrancy guard across functions that touch this key"),
                    );
                    push_finding(out, fd);
                    assert(sk.take(t + 1).map_values(mk) =~= sk.take(t as int).map_values(mk).push(mk(sk[t as int])));
                    t = t + 1;
                }
                assert(sk.take(sk.len() as int) =~= sk);
                assert(r04_for_fn(*contract, i as int) == sk.map_values(mk));
            }
            assert(out.deep_view() =~= old(out).deep_view() + r04_upto(*contract, i + 1));
            i = i + 1;
        }
    }
}

/// Source text is analysed once parsed; this analyzer adds nothing of its own.
impl crate::analysis::Analyzer for ReentrancyDetector {
    fn analyze(&self, source: &str, file_path: &str) -> (r: Vec<Finding>)
        ensures
            r@.len() == 0,
    {
        Vec::new()
    }

    fn name(&self) -> (r: &'static str)
        ensures
            r@ == "reentrancy"@,
    {
        "reentrancy"
    }
}

impl crate::analysis::AnalysisRule for ReentrancyDetector {
    /// `"reentrancy"`.
    fn id(&self) -> (r: &'static str)
        ensures
            r@ == "reentrancy"@,
    {
        "reentrancy"
    }

    fn name(&self) -> (r: &'static str)
        ensures
            r@ == "Reentrancy Detector"@,
    {
        "Reentrancy Detector"
    }

    fn description(&self) -> (r: &'static str)
        ensures
            r@ == "Detects checks-effects-interactions violations and reentrancy exposure in cross-contract calls"@,
    {
        "Detects checks-effects-interactions violations and reentrancy exposure in cross-contract calls"
    }

    /// Exactly the findings this detector's rules give for `c`.
    open spec fn accepts(&self, c: Contract, fs: Seq<FindingView>) -> bool {
        fs == reentrancy_spec(c)
    }

    #[verifier::loop_isolation(false)]
    fn analyze(&self, contract: &Contract) -> (r: Vec<Finding>)
        ensures
            r.deep_view() == reentrancy_spec(*contract),
    {
        let mut findings: Vec<Finding> = Vec::new();
        let has_guard = Self::has_guard(contract);
        let n = contract.functions.len();
        let mut i: usize = 0;
        assert(findings.deep_view() =~= per_fn_upto(*contract, 0));
        while i < n
            invariant
                i <= n,
                findings.deep_view() == per_fn_upto(*contract, i as int),
            decreases n - i,
        {
            let func = &contract.functions[i];
            Self::check_state_after_call(contract, func, &mut findings);
            Self::check_read_only_reentrancy(contract, func, &mut findings);
            if !has_guard {
                Self::check_missing_guard(contract, func, &mut findings);
            }
            assert(findings.deep_view() =~= per_fn_upto(*contract, i + 1));
            i = i + 1;
        }
        Self::check_cross_function(contract, &mut findings);
        findings
    }
}

// ---------------------------------------------------------------------------
// Laws
// ---------------------------------------------------------------------------
/// None of the findings has rule id `id`.
pub open spec fn lacks_rule(fs: Seq<FindingView>, id: Seq<char>) -> bool {
    forall|k: int| 0 <= k < fs.len() ==> (#[trigger] fs[k]).rule_id != id
}

proof fn lemma_lacks_concat(a: Seq<FindingView>, b: Seq<FindingView>, id: Seq<char>)
    requires
        lacks_rule(a, id),
        lacks_rule(b, id),
    ensures
        lacks_rule(a + b, id),
{
    assert forall|k: int| 0 <= k < (a + b).len() implies (#[trigger] (a + b)[k]).rule_id != id by {
        if k >= a.len() {
            assert((a + b)[k] == b[k - a.len()]);
        }
    }
}

proof fn lemma_r02_no_r03(c: Contract, f: ContractFn, n: int)
    ensures
        lacks_rule(r02_upto(c, f, n), "R-03"@),
    decreases n,
{
    reveal_strlit("R-02");
    reveal_strlit("R-03");
    assert("R-02"@ != "R-03"@) by {
        assert("R-02"@[3] != "R-03"@[3]);
    }
    if n > 0 {
        lemma_r02_no_r03(c, f, n - 1);
        let call = f.body_analysis.cross_contract_calls@[n - 1];
        assert(lacks_rule(r02_for_call(c, f, call), "R-03"@));
        lemma_lacks_concat(r02_upto(c, f, n - 1), r02_for_call(c, f, call), "R-03"@);
    }
}

proof fn lemma_per_fn_no_r03(c: Contract, n: int)
    requires
        contract_has_guard(c),
    ensures
        lacks_rule(per_fn_upto(c, n), "R-03"@),
    decreases n,
{
    reveal_strlit("R-01");
    reveal_strlit("R-03");
    assert("R-01"@ != "R-03"@) by {
        assert("R-01"@[3] != "R-03"@[3]);
    }
    if n > 0 {
        lemma_per_fn_no_r03(c, n - 1);
        let f = c.functions@[n - 1];
        lemma_r02_no_r03(c, f, f.body_analysis.cross_contract_calls@.len() as int);
        assert(lacks_rule(r01_spec(c, f), "R-03"@));
        lemma_lacks_concat(r01_spec(c, f), r02_spec(c, f), "R-03"@);
        assert(per_fn_spec(c, f) =~= r01_spec(c, f) + r02_spec(c, f));
        lemma_lacks_concat(per_fn_upto(c, n - 1), per_fn_spec(c, f), "R-03"@);
    }
}

proof fn lemma_r04_no_r03(c: Contract, n: int)
    ensures
        lacks_rule(r04_upto(c, n), "R-03"@),
    decreases n,
{
    reveal_strlit("R-04");
    reveal_strlit("R-03");
    assert("R-04"@ != "R-03"@) by {
        assert("R-04"@[3] != "R-03"@[3]);
    }
    if n > 0 {
        lemma_r04_no_r03(c, n - 1);
        let r = r04_for_fn(c, n - 1);
        assert forall|k: int| 0 <= k < r.len() implies (#[trigger] r[k]).rule_id != "R-03"@ by {
            if is_external(c.functions@[n - 1]) {
                let keys = shared_keys(c, n - 1);
                assert(r[k] == r04_finding(c, c.functions@[n - 1], keys[k]));
            }
        }
        lemma_lacks_concat(r04_upto(c, n - 1), r04_for_fn(c, n - 1), "R-03"@);
    }
}

/// A contract that stores a reentrancy guard key gets no R-03 finding.
pub proof fn law_guard_suppresses_r03(c: Contract)
    requires
        contract_has_guard(c),
    ensures
        lacks_rule(reentrancy_spec(c), "R-03"@),
{
    let n = c.functions@.len() as int;
    lemma_per_fn_no_r03(c, n);
    lemma_r04_no_r03(c, n);
    lemma_lacks_concat(per_fn_upto(c, n), r04_upto(c, n), "R-03"@);
}

/// A function without cross-contract calls gets no reentrancy finding of its own.
pub proof fn law_no_calls_no_per_function_findings(c: Contract, f: ContractFn)
    requires
        f.body_analysis.cross_contract_calls@.len() == 0,
    ensures
        per_fn_spec(c, f) == Seq::<FindingView>::empty(),
{
    assert(r02_upto(c, f, 0) =~= Seq::<FindingView>::empty());
    assert(per_fn_spec(c, f) =~= Seq::<FindingView>::empty());
}


/// The position of the earliest call is the position of one of the calls,
/// and no call comes before it.
pub proof fn law_earliest_call(calls: Seq<CrossContractCall>)
    requires
        calls.len() > 0,
    ensures
        exists|i: int| 0 <= i < calls.len() && (#[trigger] calls[i]).position == earliest_pos(calls),
        forall|i: int| 0 <= i < calls.len() ==> !(#[trigger] calls[i]).position.precedes(earliest_pos(calls)),
    decreases calls.len(),
{
    if calls.len() == 1 {
        assert(calls[0].position == earliest_pos(calls));
    } else {
        let init = calls.drop_last();
        law_earliest_call(init);
        let m = earliest_pos(init);
        let j = choose|j: int| 0 <= j < init.len() && (#[trigger] init[j]).position == m;
        assert(calls[j] == init[j]);
        assert(calls[calls.len() - 1] == calls.last());
        assert forall|i: int| 0 <= i < calls.len() implies !(#[trigger] calls[i]).position.precedes(earliest_pos(calls)) by {
            if i < calls.len() - 1 {
                assert(calls[i] == init[i]);
                assert(!init[i].position.precedes(m));
            }
        }
    }
}

/// A write to a key that is not a guard, made after any external call of a
/// function, gives one R-01 finding (Critical) for that function.
pub proof fn law_write_after_any_call_is_r01(c: Contract, f: ContractFn, i: int, k: int)
    requires
        0 <= i < f.body_analysis.cross_contract_calls@.len(),
        0 <= k < f.body_analysis.storage_writes@.len(),
        !guard_key(f.body_analysis.storage_writes@[k].key@),
        f.body_analysis.cross_contract_calls@[i].position.precedes(f.body_analysis.storage_writes@[k].position),
    ensures
        r01_spec(c, f).len() == 1,
        r01_spec(c, f)[0].rule_id == "R-01"@,
        r01_spec(c, f)[0].severity == Severity::Critical,
        r01_spec(c, f)[0].message == "Function '"@ + f.name@
            + "' writes to storage after an external call \u{2014} reentrancy risk"@,
{
    let calls = f.body_analysis.cross_contract_calls@;
    let writes = f.body_analysis.storage_writes@;
    law_earliest_call(calls);
    assert(!calls[i].position.precedes(earliest_pos(calls)));
    assert(earliest_pos(calls).precedes(writes[k].position));
    assert(non_guard_write_after(writes, earliest_pos(calls)));
}

} // verus!
