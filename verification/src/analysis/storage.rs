//! Storage key collision detection (rules S-01 to S-05).
//!
//! All storage accesses of a contract are grouped by key.  Keys are visited in
//! the order in which they first appear (functions in order; within a
//! function, its writes and then its reads).
use vstd::prelude::*;

use super::{flatten_findings, lemma_flatten_none, lemma_flatten_step, location, location_spec, push_finding};
use crate::parser::ast::{Contract, ContractFn, StorageAccess, StorageType};
use crate::report::finding::{finding_spec, Finding, FindingView};
use crate::report::severity::Severity;
use crate::text::{cat, contains_str, copy_str, has_infix, is_one_of, lower_case, same_text, to_lower};
use vstd::utf8::encode_utf8;

verus! {

/// The storage collision detector (rules S-01 to S-05).
pub struct StorageCollisionDetector;

/// One storage access together with the name of the function that makes it.
pub type Usage = (String, StorageAccess);

/// All accesses to one key, in order.
pub struct KeyUsages {
    pub key: String,
    pub usages: Vec<Usage>,
}

// ---------------------------------------------------------------------------
// Specification
// ---------------------------------------------------------------------------
/// The accesses of one function: its writes, then its reads.
pub open spec fn fn_usages(f: ContractFn) -> Seq<Usage> {
    f.body_analysis.storage_writes@.map_values(|a: StorageAccess| (f.name, a))
        + f.body_analysis.storage_reads@.map_values(|a: StorageAccess| (f.name, a))
}

/// The accesses of the first `n` functions.
pub open spec fn usages_upto(c: Contract, n: int) -> Seq<Usage>
    decreases n,
{
    if n <= 0 {
        seq![]
    } else {
        usages_upto(c, n - 1) + fn_usages(c.functions@[n - 1])
    }
}

/// All accesses of a contract.
pub open spec fn all_usages(c: Contract) -> Seq<Usage> {
    usages_upto(c, c.functions@.len() as int)
}

/// The distinct keys of `u`, in the order of their first access.
pub open spec fn key_order(u: Seq<Usage>) -> Seq<Seq<char>>
    decreases u.len(),
{
    if u.len() == 0 {
        seq![]
    } else {
        let p = key_order(u.drop_last());
        if p.contains(u.last().1.key@) {
            p
        } else {
            p.push(u.last().1.key@)
        }
    }
}

/// The accesses of `u` to `key`, in order.
pub open spec fn group(u: Seq<Usage>, key: Seq<char>) -> Seq<Usage> {
    u.filter(|e: Usage| e.1.key@ == key)
}

/// `m` groups the accesses `u` by key, keys in order of first access.
pub open spec fn key_map_ok(m: Seq<KeyUsages>, u: Seq<Usage>) -> bool {
    &&& m.len() == key_order(u).len()
    &&& forall|g: int| 0 <= g < m.len() ==> (#[trigger] m[g]).key@ == key_order(u)[g]
    &&& forall|g: int| 0 <= g < m.len() ==> (#[trigger] m[g]).usages@ == group(u, key_order(u)[g])
}

/// A key of at most two bytes (as `str::len` counts them) other than `id`.
pub open spec fn short_key(key: Seq<char>) -> bool {
    (encode_utf8(key).len() as usize) <= 2 && key != "id"@
}

/// One of the common key names that collide easily.
pub open spec fn generic_key(key: Seq<char>) -> bool {
    key == "balance"@ || key == "owner"@ || key == "admin"@ || key == "config"@ || key == "total"@
        || key == "count"@ || key == "name"@ || key == "symbol"@
}

pub open spec fn s01_for_key(c: Contract, u: Seq<Usage>, key: Seq<char>) -> Seq<FindingView> {
    if short_key(key) {
        seq![finding_spec(
            Severity::Medium,
            "S-01"@,
            "Short storage key '"@ + key + "' may collide with other contracts"@,
            location_spec(c.name@, group(u, key)[0].1.position),
            "Use descriptive namespaced keys like 'v1_contract_balance'"@,
        )]
    } else {
        seq![]
    }
}

pub open spec fn s02_for_key(c: Contract, u: Seq<Usage>, key: Seq<char>) -> Seq<FindingView> {
    if generic_key(key) {
        seq![finding_spec(
            Severity::Low,
            "S-02"@,
            "Generic storage key '"@ + key + "' \u{2014} consider adding a namespace prefix"@,
            location_spec(c.name@, group(u, key)[0].1.position),
            "Prefix with contract version: 'v1_{contract_name}_{key}'"@,
        )]
    } else {
        seq![]
    }
}

/// The value type recorded for a usage.
pub open spec fn value_of(e: Usage) -> Seq<char> {
    match e.1.value_type {
        Some(v) => v@,
        None => seq![],
    }
}

/// The first usage of `us` that records a value type.
pub open spec fn first_typed(us: Seq<Usage>) -> Option<Usage>
    decreases us.len(),
{
    if us.len() == 0 {
        None
    } else if us[0].1.value_type is Some {
        Some(us[0])
    } else {
        first_typed(us.drop_first())
    }
}

/// The first usage of `us` that records a value type other than `t`.
pub open spec fn first_other_type(us: Seq<Usage>, t: Seq<char>) -> Option<Usage>
    decreases us.len(),
{
    if us.len() == 0 {
        None
    } else if us[0].1.value_type is Some && value_of(us[0]) != t {
        Some(us[0])
    } else {
        first_other_type(us.drop_first(), t)
    }
}

/// S-03: the first two distinct value types written to a key.
pub open spec fn s03_for_key(c: Contract, u: Seq<Usage>, key: Seq<char>) -> Seq<FindingView> {
    let g = group(u, key);
    match first_typed(g) {
        Some(a) => match first_other_type(g, value_of(a)) {
            Some(b) => seq![finding_spec(
                Severity::High,
                "S-03"@,
                "Storage key '"@ + key + "' written with different value types: '"@ + value_of(a)
                    + "' in '"@ + a.0@ + "' and '"@ + value_of(b) + "' in '"@ + b.0@ + "'"@,
                location_spec(c.name@, a.1.position),
                "Use the same Rust type for all writes to this key, or rename one of the keys"@,
            )],
            None => seq![],
        },
        None => seq![],
    }
}

/// Some access of `us` uses the storage tier `t`.
pub open spec fn uses_tier(us: Seq<Usage>, t: StorageType) -> bool {
    exists|i: int| 0 <= i < us.len() && (#[trigger] us[i]).1.storage_type == t
}

pub open spec fn s04_for_key(c: Contract, u: Seq<Usage>, key: Seq<char>) -> Seq<FindingView> {
    let g = group(u, key);
    if uses_tier(g, StorageType::Instance) && uses_tier(g, StorageType::Temporary) {
        seq![finding_spec(
            Severity::High,
            "S-04"@,
            "Key '"@ + key + "' accessed via both instance and temporary storage"@,
            location_spec(c.name@, g[0].1.position),
            "Choose one storage type for this key"@,
        )]
    } else {
        seq![]
    }
}

/// A lower-cased key names a version.
pub open spec fn version_marked(lower: Seq<char>) -> bool {
    has_infix(lower, "version"@) || has_infix(lower, "storage_version"@)
}

/// The contract stores a version key.
pub open spec fn has_version_key(c: Contract) -> bool {
    exists|i: int|
        0 <= i < c.storage_keys@.len() && version_marked(lower_case(#[trigger] c.storage_keys@[i].key@))
}

pub open spec fn s05_spec(c: Contract) -> Seq<FindingView> {
    if has_version_key(c) {
        seq![]
    } else {
        seq![finding_spec(
            Severity::Info,
            "S-05"@,
            "No version key found \u{2014} upgrade could cause storage collisions"@,
            c.name@,
            "Store a VERSION key and use it as prefix for all other keys"@,
        )]
    }
}

/// Everything the detector reports for a contract.
pub open spec fn storage_spec(c: Contract) -> Seq<FindingView> {
    let u = all_usages(c);
    let keys = key_order(u);
    flatten_findings(keys.map_values(|k: Seq<char>| s01_for_key(c, u, k)))
        + flatten_findings(keys.map_values(|k: Seq<char>| s02_for_key(c, u, k)))
        + flatten_findings(keys.map_values(|k: Seq<char>| s03_for_key(c, u, k)))
        + flatten_findings(keys.map_values(|k: Seq<char>| s04_for_key(c, u, k)))
        + s05_spec(c)
}

// ---------------------------------------------------------------------------
// Implementation
// ---------------------------------------------------------------------------
/// Adds one access to the grouping.
#[verifier::loop_isolation(false)]
fn add_usage(map: &mut Vec<KeyUsages>, name: &String, access: &StorageAccess, Ghost(u): Ghost<Seq<Usage>>)
    requires
        key_map_ok(old(map)@, u),
    ensures
        key_map_ok(final(map)@, u.push((*name, *access))),
{
    let e: Usage = (name.clone(), access.duplicate());
    let ghost u2 = u.push(e);
    assert(e.1 == *access);
    assert(e.0 == *name);
    proof {
        lemma_key_order_push(u, e);
    }
    let mut g: usize = 0;
    while g < map.len()
        invariant
            g <= map@.len(),
            key_map_ok(map@, u),
            forall|h: int| 0 <= h < g ==> key_order(u)[h] != access.key@,
        decreases map@.len() - g,
    {
        if map[g].key == access.key {
            assert(key_order(u).contains(access.key@));
            assert(key_order(u2) == key_order(u));
            let ghost old_map = map@;
            let mut entry = map.remove(g);
            assert(entry == old_map[g as int]);
            entry.usages.push(e);
            let ghost new_usages = entry.usages@;
            assert(new_usages == old_map[g as int].usages@.push(e));
            map.insert(g, entry);
            assert(map@[g as int].usages@ == new_usages);
            assert(key_order(u)[g as int] == access.key@);
            assert forall|h: int| 0 <= h < map@.len() implies (#[trigger] map@[h]).usages@ == group(u2, key_order(u2)[h]) by {
                let k = key_order(u)[h];
                lemma_group_push(u, e, k);
                lemma_key_order_distinct(u);
                if h != g {
                    assert(map@[h] == old_map[h]);
                    assert(k != key_order(u)[g as int]);
                }
            }
            assert forall|h: int| 0 <= h < map@.len() implies (#[trigger] map@[h]).key@ == key_order(u2)[h] by {
                if h != g {
                    assert(map@[h] == old_map[h]);
                }
            }
            return;
        }
        g = g + 1;
    }
    assert(!key_order(u).contains(access.key@));
    assert(key_order(u2) == key_order(u).push(access.key@));
    let ghost old_map = map@;
    let mut usages: Vec<Usage> = Vec::new();
    usages.push(e);
    map.push(KeyUsages { key: access.key.clone(), usages });
    assert forall|h: int| 0 <= h < map@.len() implies (#[trigger] map@[h]).usages@ == group(u2, key_order(u2)[h]) by {
        let k = key_order(u2)[h];
        lemma_group_push(u, e, k);
        if h < old_map.len() {
            assert(map@[h] == old_map[h]);
            assert(k != access.key@);
        } else {
            assert(group(u, access.key@) =~= seq![]) by {
                lemma_group_absent(u, access.key@);
            }
            assert(map@[h].usages@ =~= seq![e]);
        }
    }
}

/// Adding an access extends the key order by its key if it is new.
pub proof fn lemma_key_order_push(u: Seq<Usage>, e: Usage)
    ensures
        key_order(u.push(e)) == if key_order(u).contains(e.1.key@) {
            key_order(u)
        } else {
            key_order(u).push(e.1.key@)
        },
{
    assert(u.push(e).drop_last() =~= u);
}

/// Adding an access extends the group of its key.
pub proof fn lemma_group_push(u: Seq<Usage>, e: Usage, k: Seq<char>)
    ensures
        group(u.push(e), k) == if e.1.key@ == k {
            group(u, k).push(e)
        } else {
            group(u, k)
        },
{
    reveal(Seq::filter);
    assert(u.push(e).drop_last() =~= u);
    assert(u.push(e).last() == e);
}

/// No key appears twice in the key order.
pub proof fn lemma_key_order_distinct(u: Seq<Usage>)
    ensures
        key_order(u).no_duplicates(),
    decreases u.len(),
{
    if u.len() > 0 {
        lemma_key_order_distinct(u.drop_last());
    }
}

/// The key order lists every accessed key.
pub proof fn lemma_key_order_complete(u: Seq<Usage>, i: int)
    requires
        0 <= i < u.len(),
    ensures
        key_order(u).contains(u[i].1.key@),
    decreases u.len(),
{
    let p = key_order(u.drop_last());
    if i < u.len() - 1 {
        lemma_key_order_complete(u.drop_last(), i);
        let j = choose|j: int| 0 <= j < p.len() && p[j] == u[i].1.key@;
        assert(key_order(u)[j] == u[i].1.key@);
    } else if !p.contains(u.last().1.key@) {
        assert(key_order(u)[p.len() as int] == u[i].1.key@);
    }
}

/// A key that never appears has no accesses.
pub proof fn lemma_group_absent(u: Seq<Usage>, k: Seq<char>)
    requires
        !key_order(u).contains(k),
    ensures
        group(u, k).len() == 0,
    decreases u.len(),
{
    if u.len() > 0 {
        let u0 = u.drop_last();
        let e = u.last();
        assert(u0.push(e) =~= u);
        lemma_key_order_push(u0, e);
        lemma_group_push(u0, e, k);
        lemma_key_order_complete(u, u.len() - 1);
        if key_order(u0).contains(k) {
            let j = choose|j: int| 0 <= j < key_order(u0).len() && key_order(u0)[j] == k;
            assert(key_order(u)[j] == k);
        }
        lemma_group_absent(u0, k);
    }
}


/// An accessed key has at least one access.
pub proof fn lemma_group_present(u: Seq<Usage>, k: Seq<char>)
    requires
        key_order(u).contains(k),
    ensures
        group(u, k).len() > 0,
    decreases u.len(),
{
    if u.len() > 0 {
        let u0 = u.drop_last();
        let e = u.last();
        assert(u0.push(e) =~= u);
        lemma_key_order_push(u0, e);
        lemma_group_push(u0, e, k);
        if e.1.key@ != k {
            assert(key_order(u0).contains(k));
            lemma_group_present(u0, k);
        }
    }
}

/// The index of the first usage that records a value type.
#[verifier::loop_isolation(false)]
fn first_typed_index(us: &Vec<Usage>) -> (r: Option<usize>)
    ensures
        r matches Some(i) ==> i < us@.len() && first_typed(us@) == Some(us@[i as int]) && us@[i as int].1.value_type is Some,
        r is None ==> first_typed(us@) is None,
{
    let mut i: usize = 0;
    assert(us@.skip(0) =~= us@);
    while i < us.len()
        invariant
            i <= us@.len(),
            first_typed(us@) == first_typed(us@.skip(i as int)),
        decreases us@.len() - i,
    {
        assert(us@.skip(i as int)[0] == us@[i as int]);
        assert(us@.skip(i as int).drop_first() =~= us@.skip(i + 1));
        if us[i].1.value_type.is_some() {
            return Some(i);
        }
        i = i + 1;
    }
    None
}

/// The index of the first usage that records a value type other than `t`.
#[verifier::loop_isolation(false)]
fn first_other_type_index(us: &Vec<Usage>, t: &str) -> (r: Option<usize>)
    ensures
        r matches Some(i) ==> i < us@.len() && first_other_type(us@, t@) == Some(us@[i as int]) && us@[i as int].1.value_type is Some,
        r is None ==> first_other_type(us@, t@) is None,
{
    let mut i: usize = 0;
    assert(us@.skip(0) =~= us@);
    while i < us.len()
        invariant
            i <= us@.len(),
            first_other_type(us@, t@) == first_other_type(us@.skip(i as int), t@),
        decreases us@.len() - i,
    {
        assert(us@.skip(i as int)[0] == us@[i as int]);
        assert(us@.skip(i as int).drop_first() =~= us@.skip(i + 1));
        match &us[i].1.value_type {
            Some(v) => {
                if !same_text(v.as_str(), t) {
                    return Some(i);
                }
            },
            None => {},
        }
        i = i + 1;
    }
    None
}

/// A lower-cased key mentions `version`.
pub fn has_version_marker(lower: &str) -> (r: bool)
    ensures
        r == version_marked(lower@),
{
    contains_str(lower, "version") || contains_str(lower, "storage_version")
}

impl StorageCollisionDetector {
    /// A key of at most two bytes other than `id`.
    pub fn is_short_key(key: &str) -> (r: bool)
        ensures
            r == short_key(key@),
    {
        key.len() <= 2 && !same_text(key, "id")
    }

    /// One of the common key names that collide easily.
    pub fn is_generic_key(key: &str) -> (r: bool)
        ensures
            r == generic_key(key@),
    {
        let names: [&str; 8] = ["balance", "owner", "admin", "config", "total", "count", "name", "symbol"];
        let r = is_one_of(key, &names);
        proof {
            if generic_key(key@) {
                if key@ == "balance"@ { assert(names@[0]@ == key@); }
                else if key@ == "owner"@ { assert(names@[1]@ == key@); }
                else if key@ == "admin"@ { assert(names@[2]@ == key@); }
                else if key@ == "config"@ { assert(names@[3]@ == key@); }
                else if key@ == "total"@ { assert(names@[4]@ == key@); }
                else if key@ == "count"@ { assert(names@[5]@ == key@); }
                else if key@ == "name"@ { assert(names@[6]@ == key@); }
                else { assert(names@[7]@ == key@); }
            }
        }
        r
    }

    /// Groups all storage accesses by key.
    fn build_key_map(contract: &Contract) -> (r: Vec<KeyUsages>)
        ensures
            key_map_ok(r@, all_usages(*contract)),
    {
        let mut map: Vec<KeyUsages> = Vec::new();
        let mut i: usize = 0;
        while i < contract.functions.len()
            invariant
                i <= contract.functions@.len(),
                key_map_ok(map@, usages_upto(*contract, i as int)),
            decreases contract.functions@.len() - i,
        {
            let func = &contract.functions[i];
            let ghost base = usages_upto(*contract, i as int);
            let mut j: usize = 0;
            while j < func.body_analysis.storage_writes.len()
                invariant
                    j <= func.body_analysis.storage_writes@.len(),
                    key_map_ok(map@, base + func.body_analysis.storage_writes@.take(j as int).map_values(
                        |a: StorageAccess| (func.name, a),
                    )),
                decreases func.body_analysis.storage_writes@.len() - j,
            {
                let ghost cur = base + func.body_analysis.storage_writes@.take(j as int).map_values(
                    |a: StorageAccess| (func.name, a),
                );
                add_usage(&mut map, &func.name, &func.body_analysis.storage_writes[j], Ghost(cur));
                assert(cur.push((func.name, func.body_analysis.storage_writes@[j as int])) =~= base
                    + func.body_analysis.storage_writes@.take(j + 1).map_values(|a: StorageAccess| (func.name, a)));
                j = j + 1;
            }
            let ghost mid = base + func.body_analysis.storage_writes@.map_values(|a: StorageAccess| (func.name, a));
            assert(func.body_analysis.storage_writes@.take(j as int) =~= func.body_analysis.storage_writes@);
            let mut j: usize = 0;
            assert(mid =~= mid + func.body_analysis.storage_reads@.take(0).map_values(|a: StorageAccess| (func.name, a)));
            while j < func.body_analysis.storage_reads.len()
                invariant
                    j <= func.body_analysis.storage_reads@.len(),
                    key_map_ok(map@, mid + func.body_analysis.storage_reads@.take(j as int).map_values(
                        |a: StorageAccess| (func.name, a),
                    )),
                decreases func.body_analysis.storage_reads@.len() - j,
            {
                let ghost cur = mid + func.body_analysis.storage_reads@.take(j as int).map_values(
                    |a: StorageAccess| (func.name, a),
                );
                add_usage(&mut map, &func.name, &func.body_analysis.storage_reads[j], Ghost(cur));
                assert(cur.push((func.name, func.body_analysis.storage_reads@[j as int])) =~= mid
                    + func.body_analysis.storage_reads@.take(j + 1).map_values(|a: StorageAccess| (func.name, a)));
                j = j + 1;
            }
            assert(func.body_analysis.storage_reads@.take(j as int) =~= func.body_analysis.storage_reads@);
            assert(mid + func.body_analysis.storage_reads@.map_values(|a: StorageAccess| (func.name, a))
                =~= usages_upto(*contract, i + 1));
            i = i + 1;
        }
        map
    }

    /// S-01: keys of at most two bytes.
    #[verifier::loop_isolation(false)]
    fn check_s01(contract: &Contract, key_map: &Vec<KeyUsages>, out: &mut Vec<Finding>, Ghost(u): Ghost<Seq<Usage>>)
        requires
            key_map_ok(key_map@, u),
        ensures
            final(out).deep_view() == old(out).deep_view() + flatten_findings(
                key_order(u).map_values(|k: Seq<char>| s01_for_key(*contract, u, k)),
            ),
    {
        let ghost keys = key_order(u);
        let ghost f = |k: Seq<char>| s01_for_key(*contract, u, k);
        let mut g: usize = 0;
        proof { lemma_flatten_none(keys, f); }
        while g < key_map.len()
            invariant
                g <= key_map@.len(),
                out.deep_view() == old(out).deep_view() + flatten_findings(keys.take(g as int).map_values(f)),
            decreases key_map@.len() - g,
        {
            let entry = &key_map[g];
            proof {
                lemma_flatten_step(keys, f, g as int);
                lemma_group_present(u, keys[g as int]);
            }
            if Self::is_short_key(entry.key.as_str()) {
                let msg = cat(cat(copy_str("Short storage key '"), entry.key.as_str()), "' may collide with other contracts");
                let fd = Finding::new(
                    Severity::Medium,
                    copy_str("S-01"),
                    msg,
                    location(contract, &entry.usages[0].1.position),
                    copy_str("Use descriptive namespaced keys like 'v1_contract_balance'"),
                );
                push_finding(out, fd);
            }
            assert(out.deep_view() =~= old(out).deep_view() + flatten_findings(keys.take(g + 1).map_values(f)));
            g = g + 1;
        }
        assert(keys.take(keys.len() as int) =~= keys);
    }

    /// S-02: common key names.
    #[verifier::loop_isolation(false)]
    fn check_s02(contract: &Contract, key_map: &Vec<KeyUsages>, out: &mut Vec<Finding>, Ghost(u): Ghost<Seq<Usage>>)
        requires
            key_map_ok(key_map@, u),
        ensures
            final(out).deep_view() == old(out).deep_view() + flatten_findings(
                key_order(u).map_values(|k: Seq<char>| s02_for_key(*contract, u, k)),
            ),
    {
        let ghost keys = key_order(u);
        let ghost f = |k: Seq<char>| s02_for_key(*contract, u, k);
        let mut g: usize = 0;
        proof { lemma_flatten_none(keys, f); }
        while g < key_map.len()
            invariant
                g <= key_map@.len(),
                out.deep_view() == old(out).deep_view() + flatten_findings(keys.take(g as int).map_values(f)),
            decreases key_map@.len() - g,
        {
            let entry = &key_map[g];
            proof {
                lemma_flatten_step(keys, f, g as int);
                lemma_group_present(u, keys[g as int]);
            }
            if Self::is_generic_key(entry.key.as_str()) {
                let msg = cat(cat(copy_str("Generic storage key '"), entry.key.as_str()),
                    "' \u{2014} consider adding a namespace prefix");
                let fd = Finding::new(
                    Severity::Low,
                    copy_str("S-02"),
                    msg,
                    location(contract, &entry.usages[0].1.position),
                    copy_str("Prefix with contract version: 'v1_{contract_name}_{key}'"),
                );
                push_finding(out, fd);
            }
            assert(out.deep_view() =~= old(out).deep_view() + flatten_findings(keys.take(g + 1).map_values(f)));
            g = g + 1;
        }
        assert(keys.take(keys.len() as int) =~= keys);
    }

    /// S-03: one key written with different value types.
    #[verifier::loop_isolation(false)]
    fn check_s03(contract: &Contract, key_map: &Vec<KeyUsages>, out: &mut Vec<Finding>, Ghost(u): Ghost<Seq<Usage>>)
        requires
            key_map_ok(key_map@, u),
        ensures
            final(out).deep_view() == old(out).deep_view() + flatten_findings(
                key_order(u).map_values(|k: Seq<char>| s03_for_key(*contract, u, k)),
            ),
    {
        let ghost keys = key_order(u);
        let ghost f = |k: Seq<char>| s03_for_key(*contract, u, k);
        let mut g: usize = 0;
        proof { lemma_flatten_none(keys, f); }
        while g < key_map.len()
            invariant
                g <= key_map@.len(),
                out.deep_view() == old(out).deep_view() + flatten_findings(keys.take(g as int).map_values(f)),
            decreases key_map@.len() - g,
        {
            let entry = &key_map[g];
            proof {
                lemma_flatten_step(keys, f, g as int);
            }
            match first_typed_index(&entry.usages) {
                Some(a) => {
                    let ua = &entry.usages[a];
                    let ta: &str = match &ua.1.value_type {
                        Some(v) => v.as_str(),
                        None => "",
                    };
                    assert(entry.usages@ == group(u, keys[g as int]));
                    assert(ta@ == value_of(entry.usages@[a as int]));
                    match first_other_type_index(&entry.usages, ta) {
                        Some(b) => {
                            let ub = &entry.usages[b];
                            let tb: &str = match &ub.1.value_type {
                                Some(v) => v.as_str(),
                                None => "",
                            };
                            assert(tb@ == value_of(entry.usages@[b as int]));
                            let msg = cat(cat(cat(cat(cat(cat(cat(cat(cat(cat(
                                copy_str("Storage key '"), entry.key.as_str()),
                                "' written with different value types: '"), ta),
                                "' in '"), ua.0.as_str()),
                                "' and '"), tb),
                                "' in '"), ub.0.as_str()),
                                "'");
                            let fd = Finding::new(
                                Severity::High,
                                copy_str("S-03"),
                                msg,
                                location(contract, &ua.1.position),
                                copy_str("Use the same Rust type for all writes to this key, or rename one of the keys"),
                            );
                            push_finding(out, fd);
                        },
                        None => {},
                    }
                },
                None => {},
            }
            assert(out.deep_view() =~= old(out).deep_view() + flatten_findings(keys.take(g + 1).map_values(f)));
            g = g + 1;
        }
        assert(keys.take(keys.len() as int) =~= keys);
    }

    /// S-04: one key used through both instance and temporary storage.
    #[verifier::loop_isolation(false)]
    fn check_s04(contract: &Contract, key_map: &Vec<KeyUsages>, out: &mut Vec<Finding>, Ghost(u): Ghost<Seq<Usage>>)
        requires
            key_map_ok(key_map@, u),
        ensures
            final(out).deep_view() == old(out).deep_view() + flatten_findings(
                key_order(u).map_values(|k: Seq<char>| s04_for_key(*contract, u, k)),
            ),
    {
        let ghost keys = key_order(u);
        let ghost f = |k: Seq<char>| s04_for_key(*contract, u, k);
        let mut g: usize = 0;
        proof { lemma_flatten_none(keys, f); }
        while g < key_map.len()
            invariant
                g <= key_map@.len(),
                out.deep_view() == old(out).deep_view() + flatten_findings(keys.take(g as int).map_values(f)),
            decreases key_map@.len() - g,
        {
            let entry = &key_map[g];
            proof {
                lemma_flatten_step(keys, f, g as int);
                lemma_group_present(u, keys[g as int]);
            }
            let mut has_instance = false;
            let mut has_temporary = false;
            let mut t: usize = 0;
            while t < entry.usages.len()
                invariant
                    t <= entry.usages@.len(),
                    has_instance == exists|j: int| 0 <= j < t && (#[trigger] entry.usages@[j]).1.storage_type == StorageType::Instance,
                    has_temporary == exists|j: int| 0 <= j < t && (#[trigger] entry.usages@[j]).1.storage_type == StorageType::Temporary,
                decreases entry.usages@.len() - t,
            {
                if entry.usages[t].1.storage_type == StorageType::Instance {
                    has_instance = true;
                }
                if entry.usages[t].1.storage_type == StorageType::Temporary {
                    has_temporary = true;
                }
                t = t + 1;
            }
            if has_instance && has_temporary {
                let msg = cat(cat(copy_str("Key '"), entry.key.as_str()), "' accessed via both instance and temporary storage");
                let fd = Finding::new(
                    Severity::High,
                    copy_str("S-04"),
                    msg,
                    location(contract, &entry.usages[0].1.position),
                    copy_str("Choose one storage type for this key"),
                );
                push_finding(out, fd);
            }
            assert(out.deep_view() =~= old(out).deep_view() + flatten_findings(keys.take(g + 1).map_values(f)));
            g = g + 1;
        }
        assert(keys.take(keys.len() as int) =~= keys);
    }

    /// S-05: no version key anywhere in the contract.
    fn check_s05(contract: &Contract, out: &mut Vec<Finding>)
        ensures
            final(out).deep_view() == old(out).deep_view() + s05_spec(*contract),
    {
        let mut has_version = false;
        let mut i: usize = 0;
        while i < contract.storage_keys.len()
            invariant
                i <= contract.storage_keys@.len(),
                has_version == exists|j: int| 0 <= j < i && version_marked(lower_case(#[trigger] contract.storage_keys@[j].key@)),
            decreases contract.storage_keys@.len() - i,
        {
            let lower = to_lower(contract.storage_keys[i].key.as_str());
            if has_version_marker(lower.as_str()) {
                has_version = true;
            }
            i = i + 1;
        }
        if !has_version {
            let fd = Finding::new(
                Severity::Info,
                copy_str("S-05"),
                copy_str("No version key found \u{2014} upgrade could cause storage collisions"),
                copy_str(contract.name.as_str()),
                copy_str("Store a VERSION key and use it as prefix for all other keys"),
            );
            push_finding(out, fd);
        } else {
            assert(old(out).deep_view() + s05_spec(*contract) =~= old(out).deep_view());
        }
    }
}

/// Source text is analysed once parsed; this analyzer adds nothing of its own.
impl crate::analysis::Analyzer for StorageCollisionDetector {
    fn analyze(&self, source: &str, file_path: &str) -> (r: Vec<Finding>)
        ensures
            r@.len() == 0,
    {
        Vec::new()
    }

    fn name(&self) -> (r: &'static str)
        ensures
            r@ == "storage"@,
    {
        "storage"
    }
}

impl crate::analysis::AnalysisRule for StorageCollisionDetector {
    /// `"storage"`.
    fn id(&self) -> (r: &'static str)
        ensures
            r@ == "storage"@,
    {
        "storage"
    }

    fn name(&self) -> (r: &'static str)
        ensures
            r@ == "Storage Collision Detector"@,
    {
        "Storage Collision Detector"
    }

    fn description(&self) -> (r: &'static str)
        ensures
            r@ == "Detects storage key collisions, short/generic keys, mixed types, and storage-type confusion"@,
    {
        "Detects storage key collisions, short/generic keys, mixed types, and storage-type confusion"
    }

    /// Exactly the findings this detector's rules give for `c`.
    open spec fn accepts(&self, c: Contract, fs: Seq<FindingView>) -> bool {
        fs == storage_spec(c)
    }

    fn analyze(&self, contract: &Contract) -> (r: Vec<Finding>)
        ensures
            r.deep_view() == storage_spec(*contract),
    {
        let mut findings: Vec<Finding> = Vec::new();
        let key_map = Self::build_key_map(contract);
        let ghost u = all_usages(*contract);
        Self::check_s01(contract, &key_map, &mut findings, Ghost(u));
        Self::check_s02(contract, &key_map, &mut findings, Ghost(u));
        Self::check_s03(contract, &key_map, &mut findings, Ghost(u));
        Self::check_s04(contract, &key_map, &mut findings, Ghost(u));
        Self::check_s05(contract, &mut findings);
        assert(findings.deep_view() =~= storage_spec(*contract));
        findings
    }
}

// ---------------------------------------------------------------------------
// Laws
// ---------------------------------------------------------------------------
/// A contract that stores a version key gets no S-05 finding.
pub proof fn law_version_key_no_s05(c: Contract)
    requires
        has_version_key(c),
    ensures
        s05_spec(c) == Seq::<FindingView>::empty(),
{
}


/// The generic key names are exactly balance, owner, admin, config, total,
/// count, name and symbol; each such key gets one S-02 finding (Low) naming it.
pub proof fn law_generic_keys(c: Contract, u: Seq<Usage>, key: Seq<char>)
    ensures
        generic_key(key) <==> (key == "balance"@ || key == "owner"@ || key == "admin"@ || key == "config"@ || key
            == "total"@ || key == "count"@ || key == "name"@ || key == "symbol"@),
        s02_for_key(c, u, key).len() == (if generic_key(key) { 1int } else { 0int }),
        generic_key(key) ==> {
            &&& s02_for_key(c, u, key)[0].rule_id == "S-02"@
            &&& s02_for_key(c, u, key)[0].severity == Severity::Low
            &&& s02_for_key(c, u, key)[0].message == "Generic storage key '"@ + key
                + "' \u{2014} consider adding a namespace prefix"@
        },
{
}

} // verus!
