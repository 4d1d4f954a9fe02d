//! Character-level string utilities with specifications.
//!
//! Every string of the library is modelled by its characters (`s@`, a
//! `Seq<char>`); the functions here search, split, trim and print numbers on
//! that model.
use vstd::prelude::*;

verus! {

// ---------------------------------------------------------------------------
// Specifications
// ---------------------------------------------------------------------------
/// `p` occurs in `s` as a contiguous block of characters.
pub open spec fn has_infix(s: Seq<char>, p: Seq<char>) -> bool {
    exists|i: int| 0 <= i <= s.len() - p.len() && #[trigger] s.subrange(i, i + p.len()) == p
}

/// `p` is a prefix of `s`.
pub open spec fn has_prefix(s: Seq<char>, p: Seq<char>) -> bool {
    p.len() <= s.len() && s.subrange(0, p.len() as int) == p
}

/// `p` is a suffix of `s`.
pub open spec fn has_suffix(s: Seq<char>, p: Seq<char>) -> bool {
    p.len() <= s.len() && s.subrange(s.len() - p.len(), s.len() as int) == p
}

/// The Unicode `White_Space` property, which `char::is_whitespace` tests.
pub open spec fn is_ws(c: char) -> bool {
    ||| ('\u{9}' <= c && c <= '\u{d}')
    ||| c == ' '
    ||| c == '\u{85}'
    ||| c == '\u{a0}'
    ||| c == '\u{1680}'
    ||| ('\u{2000}' <= c && c <= '\u{200a}')
    ||| c == '\u{2028}'
    ||| c == '\u{2029}'
    ||| c == '\u{202f}'
    ||| c == '\u{205f}'
    ||| c == '\u{3000}'
}

/// Number of leading white-space characters of `s`.
pub open spec fn lead_ws(s: Seq<char>) -> nat
    decreases s.len(),
{
    if s.len() > 0 && is_ws(s[0]) {
        1 + lead_ws(s.drop_first())
    } else {
        0
    }
}

/// `s` without its leading white space.
pub open spec fn trim_start_spec(s: Seq<char>) -> Seq<char> {
    s.skip(lead_ws(s) as int)
}

/// `s` without its trailing white space.
pub open spec fn trim_end_spec(s: Seq<char>) -> Seq<char>
    decreases s.len(),
{
    if s.len() > 0 && is_ws(s.last()) {
        trim_end_spec(s.drop_last())
    } else {
        s
    }
}

/// `s` without leading and trailing white space (`str::trim`).
pub open spec fn trim_spec(s: Seq<char>) -> Seq<char> {
    trim_end_spec(trim_start_spec(s))
}

/// The pieces of `s` between the occurrences of `sep` (`str::split` on a char).
pub open spec fn split_spec(s: Seq<char>, sep: char) -> Seq<Seq<char>>
    decreases s.len(),
{
    if s.len() == 0 {
        seq![Seq::<char>::empty()]
    } else {
        let p = split_spec(s.drop_last(), sep);
        if s.last() == sep {
            p.push(Seq::<char>::empty())
        } else {
            p.update(p.len() - 1, p.last().push(s.last()))
        }
    }
}

/// The decimal digit character for `d < 10`.
pub open spec fn digit_char(d: nat) -> char {
    if d == 0 { '0' }
    else if d == 1 { '1' }
    else if d == 2 { '2' }
    else if d == 3 { '3' }
    else if d == 4 { '4' }
    else if d == 5 { '5' }
    else if d == 6 { '6' }
    else if d == 7 { '7' }
    else if d == 8 { '8' }
    else { '9' }
}

/// The decimal rendering of `n`, as `Display` prints an unsigned integer.
pub open spec fn decimal(n: nat) -> Seq<char>
    decreases n,
{
    if n < 10 {
        seq![digit_char(n)]
    } else {
        decimal(n / 10).push(digit_char(n % 10))
    }
}

/// The value of a decimal digit character, if it is one.
pub open spec fn digit_value(c: char) -> Option<nat> {
    if '0' <= c && c <= '9' {
        Some((c as nat - '0' as nat) as nat)
    } else {
        None
    }
}

/// All characters of `s` are decimal digits.
pub open spec fn all_digits(s: Seq<char>) -> bool {
    forall|i: int| 0 <= i < s.len() ==> (#[trigger] digit_value(s[i])) is Some
}

/// The number written by the decimal digits `s`.
pub open spec fn digits_value(s: Seq<char>) -> nat
    decreases s.len(),
{
    if s.len() == 0 {
        0
    } else {
        digits_value(s.drop_last()) * 10 + match digit_value(s.last()) {
            Some(d) => d,
            None => 0,
        }
    }
}

/// The value `i64::from_str` gives for `s`: an optional sign, then at least one
/// decimal digit, and the value must fit in an `i64`.
pub open spec fn parse_i64_spec(s: Seq<char>) -> Option<int> {
    let neg = s.len() > 0 && s[0] == '-';
    let signed = s.len() > 0 && (s[0] == '-' || s[0] == '+');
    let body = if signed { s.drop_first() } else { s };
    if body.len() == 0 || !all_digits(body) {
        None
    } else {
        let v: int = if neg { -(digits_value(body) as int) } else { digits_value(body) as int };
        if i64::MIN <= v <= i64::MAX { Some(v) } else { None }
    }
}

// ---------------------------------------------------------------------------
// Outside calls
// ---------------------------------------------------------------------------
/// Appends one character to a string.
///
/// Trusted: calls `String::push`, which appends the given `char` to the end
/// of the string.
#[verifier::external_body]
fn push_char(s: &mut String, c: char)
    ensures
        final(s)@ == old(s)@.push(c),
{
    s.push(c);
}

/// What `str::to_uppercase` returns for a string, by its characters.
pub uninterp spec fn upper_case(s: Seq<char>) -> Seq<char>;

/// What `str::to_lowercase` returns for a string, by its characters.
pub uninterp spec fn lower_case(s: Seq<char>) -> Seq<char>;

/// Upper-cases a string.
///
/// Trusted: calls `str::to_uppercase`, whose result (Unicode case mapping)
/// depends only on the characters of its argument; that result is named
/// `upper_case`.  Nothing more is stated of it.
#[verifier::external_body]
pub fn to_upper(s: &str) -> (r: String)
    ensures
        r@ == upper_case(s@),
{
    s.to_uppercase()
}

/// Lower-cases a string.
///
/// Trusted: calls `str::to_lowercase`, whose result (Unicode case mapping)
/// depends only on the characters of its argument; that result is named
/// `lower_case`.  Nothing more is stated of it.
#[verifier::external_body]
pub fn to_lower(s: &str) -> (r: String)
    ensures
        r@ == lower_case(s@),
{
    s.to_lowercase()
}

// ---------------------------------------------------------------------------
// Conversions
// ---------------------------------------------------------------------------
/// The characters of `s`, in order.
pub fn chars_of(s: &str) -> (r: Vec<char>)
    ensures
        r@ == s@,
{
    let mut r: Vec<char> = Vec::new();
    for c in it: s.chars()
        invariant
            r@ == it.seq().take(it.index() as int),
            it.seq() == s@,
    {
        r.push(c);
    }
    r
}

/// Builds a string from characters.
pub fn string_of(cs: &[char]) -> (r: String)
    ensures
        r@ == cs@,
{
    let mut r = String::new();
    let mut i: usize = 0;
    while i < cs.len()
        invariant
            i <= cs@.len(),
            r@ == cs@.take(i as int),
        decreases cs@.len() - i,
    {
        push_char(&mut r, cs[i]);
        assert(cs@.take(i as int).push(cs@[i as int]) =~= cs@.take(i + 1));
        i = i + 1;
    }
    assert(cs@.take(cs@.len() as int) =~= cs@);
    r
}

/// `s` followed by `t`.
pub fn cat(s: String, t: &str) -> (r: String)
    ensures
        r@ == s@ + t@,
{
    let mut s = s;
    s.append(t);
    s
}

/// `s` followed by the character `c`.
pub fn cat_char(s: String, c: char) -> (r: String)
    ensures
        r@ == s@.push(c),
{
    let mut s = s;
    push_char(&mut s, c);
    s
}

/// A copy of `s`.
pub fn copy_str(s: &str) -> (r: String)
    ensures
        r@ == s@,
{
    s.to_owned()
}

// ---------------------------------------------------------------------------
// Comparisons and searches
// ---------------------------------------------------------------------------
/// Character slices equal on a range.
fn eq_from(a: &[char], b: &[char], start: usize) -> (r: bool)
    requires
        start as int + b@.len() <= a@.len(),
    ensures
        r == (a@.subrange(start as int, start + b@.len()) == b@),
{
    let n = a.len();
    let mut i: usize = 0;
    while i < b.len()
        invariant
            i <= b@.len(),
            n == a@.len(),
            start as int + b@.len() <= a@.len(),
            forall|j: int| 0 <= j < i ==> a@[start + j] == b@[j],
        decreases b@.len() - i,
    {
        if a[start + i] != b[i] {
            assert(a@.subrange(start as int, start + b@.len())[i as int] != b@[i as int]);
            return false;
        }
        i = i + 1;
    }
    assert(a@.subrange(start as int, start + b@.len()) =~= b@);
    true
}

/// Two strings have the same characters.
pub fn same_text(a: &str, b: &str) -> (r: bool)
    ensures
        r == (a@ == b@),
{
    let ac = chars_of(a);
    let bc = chars_of(b);
    if ac.len() != bc.len() {
        return false;
    }
    let r = eq_from(ac.as_slice(), bc.as_slice(), 0);
    assert(ac@.subrange(0, bc@.len() as int) =~= ac@);
    r
}

/// `p` occurs in the character slice `s`.
pub fn slice_contains(s: &[char], p: &[char]) -> (r: bool)
    ensures
        r == has_infix(s@, p@),
{
    if p.len() > s.len() {
        return false;
    }
    let last = s.len() - p.len();
    let mut i: usize = 0;
    loop
        invariant
            last == s@.len() - p@.len(),
            p@.len() <= s@.len(),
            i <= last,
            forall|j: int| 0 <= j < i ==> #[trigger] s@.subrange(j, j + p@.len()) != p@,
        decreases last - i,
    {
        if eq_from(s, p, i) {
            return true;
        }
        if i == last {
            return false;
        }
        i = i + 1;
    }
}

/// `p` occurs in `s` (`str::contains` with a string pattern).
pub fn contains_str(s: &str, p: &str) -> (r: bool)
    ensures
        r == has_infix(s@, p@),
{
    let sc = chars_of(s);
    let pc = chars_of(p);
    slice_contains(sc.as_slice(), pc.as_slice())
}

/// `s` begins with `p` (`str::starts_with`).
pub fn starts_with_str(s: &str, p: &str) -> (r: bool)
    ensures
        r == has_prefix(s@, p@),
{
    let sc = chars_of(s);
    let pc = chars_of(p);
    if pc.len() > sc.len() {
        return false;
    }
    eq_from(sc.as_slice(), pc.as_slice(), 0)
}

/// `s` ends with `p` (`str::ends_with`).
pub fn ends_with_str(s: &str, p: &str) -> (r: bool)
    ensures
        r == has_suffix(s@, p@),
{
    let sc = chars_of(s);
    let pc = chars_of(p);
    if pc.len() > sc.len() {
        return false;
    }
    eq_from(sc.as_slice(), pc.as_slice(), sc.len() - pc.len())
}

/// `s` is one of the strings in `list`.
pub fn is_one_of(s: &str, list: &[&str]) -> (r: bool)
    ensures
        r == exists|i: int| 0 <= i < list@.len() && (#[trigger] list@[i])@ == s@,
{
    let mut i: usize = 0;
    while i < list.len()
        invariant
            i <= list@.len(),
            forall|j: int| 0 <= j < i ==> (#[trigger] list@[j])@ != s@,
        decreases list@.len() - i,
    {
        if same_text(list[i], s) {
            return true;
        }
        i = i + 1;
    }
    false
}


// ---------------------------------------------------------------------------
// Splitting and trimming
// ---------------------------------------------------------------------------
/// `c` is white space (`char::is_whitespace`).
pub fn is_whitespace(c: char) -> (r: bool)
    ensures
        r == is_ws(c),
{
    ('\u{9}' <= c && c <= '\u{d}') || c == ' ' || c == '\u{85}' || c == '\u{a0}' || c == '\u{1680}'
        || ('\u{2000}' <= c && c <= '\u{200a}') || c == '\u{2028}' || c == '\u{2029}' || c
        == '\u{202f}' || c == '\u{205f}' || c == '\u{3000}'
}

/// Leading white space of `s` beyond its first `i` characters.
proof fn lemma_lead_ws_skip(s: Seq<char>, i: int)
    requires
        0 <= i <= s.len(),
        forall|j: int| 0 <= j < i ==> is_ws(s[j]),
    ensures
        lead_ws(s) == i + lead_ws(s.skip(i)),
    decreases i,
{
    if i > 0 {
        assert(s.drop_first().skip(i - 1) =~= s.skip(i));
        lemma_lead_ws_skip(s.drop_first(), i - 1);
    } else {
        assert(s.skip(0) =~= s);
    }
}

/// Trailing white space of `s` before its last `k` characters.
proof fn lemma_trim_end_take(s: Seq<char>, n: int)
    requires
        0 <= n <= s.len(),
        forall|j: int| n <= j < s.len() ==> is_ws(s[j]),
    ensures
        trim_end_spec(s) == trim_end_spec(s.take(n)),
    decreases s.len() - n,
{
    if n < s.len() {
        assert(s.drop_last().take(n) =~= s.take(n));
        lemma_trim_end_take(s.drop_last(), n);
    } else {
        assert(s.take(n) =~= s);
    }
}

/// `cs` without leading and trailing white space (`str::trim`).
pub fn trim_chars(cs: &[char]) -> (r: Vec<char>)
    ensures
        r@ == trim_spec(cs@),
{
    let n = cs.len();
    let mut start: usize = 0;
    while start < n && is_whitespace(cs[start])
        invariant
            start <= n,
            n == cs@.len(),
            forall|j: int| 0 <= j < start ==> is_ws(cs@[j]),
        decreases n - start,
    {
        start = start + 1;
    }
    proof {
        lemma_lead_ws_skip(cs@, start as int);
        if start < n {
            assert(cs@.skip(start as int)[0] == cs@[start as int]);
        }
    }
    let ghost rest = cs@.skip(start as int);
    assert(trim_start_spec(cs@) =~= rest);
    let mut end: usize = n;
    while end > start && is_whitespace(cs[end - 1])
        invariant
            start <= end <= n,
            n == cs@.len(),
            rest == cs@.skip(start as int),
            forall|j: int| end - start <= j < rest.len() ==> is_ws(rest[j]),
        decreases end - start,
    {
        end = end - 1;
    }
    proof {
        lemma_trim_end_take(rest, end - start);
        if end > start {
            assert(rest.take(end - start).last() == cs@[end - 1]);
        }
    }
    let mut r: Vec<char> = Vec::new();
    let mut i: usize = start;
    while i < end
        invariant
            start <= i <= end <= n,
            n == cs@.len(),
            r@ == cs@.subrange(start as int, i as int),
        decreases end - i,
    {
        r.push(cs[i]);
        assert(cs@.subrange(start as int, i + 1) =~= cs@.subrange(start as int, i as int).push(cs@[i as int]));
        i = i + 1;
    }
    assert(r@ =~= rest.take(end - start));
    r
}

/// The pieces of `s` between occurrences of `sep` (`str::split` with a char).
pub fn split_chars(s: &str, sep: char) -> (r: Vec<Vec<char>>)
    ensures
        r@.map_values(|v: Vec<char>| v@) == split_spec(s@, sep),
{
    let cs = chars_of(s);
    let mut pieces: Vec<Vec<char>> = Vec::new();
    let mut cur: Vec<char> = Vec::new();
    let mut i: usize = 0;
    assert(cs@.take(0) =~= Seq::<char>::empty());
    assert(pieces@.map_values(|v: Vec<char>| v@).push(cur@) =~= split_spec(cs@.take(0), sep));
    while i < cs.len()
        invariant
            i <= cs@.len(),
            pieces@.map_values(|v: Vec<char>| v@).push(cur@) == split_spec(cs@.take(i as int), sep),
        decreases cs@.len() - i,
    {
        let c = cs[i];
        let ghost prev = pieces@.map_values(|v: Vec<char>| v@).push(cur@);
        assert(cs@.take(i + 1).drop_last() =~= cs@.take(i as int));
        if c == sep {
            let ghost old_pieces = pieces@.map_values(|v: Vec<char>| v@);
            let ghost done_view = cur@;
            let done = cur;
            pieces.push(done);
            assert(pieces@.map_values(|v: Vec<char>| v@) =~= old_pieces.push(done_view));
            cur = Vec::new();
            assert(pieces@.map_values(|v: Vec<char>| v@).push(cur@) =~= prev.push(Seq::<char>::empty()));
        } else {
            cur.push(c);
            assert(pieces@.map_values(|v: Vec<char>| v@).push(cur@) =~= prev.update(prev.len() - 1, prev.last().push(c)));
        }
        i = i + 1;
    }
    assert(cs@.take(i as int) =~= cs@);
    let ghost old_pieces = pieces@.map_values(|v: Vec<char>| v@);
    let ghost cur_view = cur@;
    pieces.push(cur);
    assert(pieces@.map_values(|v: Vec<char>| v@) =~= old_pieces.push(cur_view));
    pieces
}

/// The pieces joined with `sep` between them.
pub open spec fn joined(pieces: Seq<Seq<char>>, sep: Seq<char>) -> Seq<char>
    decreases pieces.len(),
{
    if pieces.len() == 0 {
        seq![]
    } else if pieces.len() == 1 {
        pieces[0]
    } else {
        joined(pieces.drop_last(), sep) + sep + pieces.last()
    }
}

/// The pieces joined by `sep`.
pub fn join_with(pieces: &Vec<String>, sep: &str) -> (r: String)
    ensures
        r@ == joined(pieces.deep_view(), sep@),
{
    let ghost v = pieces.deep_view();
    if pieces.len() == 0 {
        return String::new();
    }
    let mut out = copy_str(pieces[0].as_str());
    let mut i: usize = 1;
    assert(v.take(1).len() == 1);
    assert(joined(v.take(1), sep@) == v.take(1)[0]);
    while i < pieces.len()
        invariant
            1 <= i <= pieces@.len(),
            v == pieces.deep_view(),
            out@ == joined(v.take(i as int), sep@),
        decreases pieces@.len() - i,
    {
        assert(v.take(i + 1).drop_last() =~= v.take(i as int));
        out = cat(cat(out, sep), pieces[i].as_str());
        i = i + 1;
    }
    assert(v.take(i as int) =~= v);
    out
}

// ---------------------------------------------------------------------------
// Numbers
// ---------------------------------------------------------------------------
/// The digit character for `d < 10`.
fn digit(d: usize) -> (c: char)
    requires
        d < 10,
    ensures
        c == digit_char(d as nat),
{
    if d == 0 { '0' }
    else if d == 1 { '1' }
    else if d == 2 { '2' }
    else if d == 3 { '3' }
    else if d == 4 { '4' }
    else if d == 5 { '5' }
    else if d == 6 { '6' }
    else if d == 7 { '7' }
    else if d == 8 { '8' }
    else { '9' }
}

/// Appends the decimal rendering of `n` to `out`.
pub fn push_decimal(out: &mut String, n: usize)
    ensures
        final(out)@ == old(out)@ + decimal(n as nat),
    decreases n,
{
    if n >= 10 {
        push_decimal(out, n / 10);
    }
    push_char(out, digit(n % 10));
    assert(old(out)@ + decimal(n as nat) =~= final(out)@) by {
        if n >= 10 {
            assert(decimal(n as nat) == decimal((n / 10) as nat).push(digit_char((n % 10) as nat)));
        }
    }
}

/// The decimal rendering of `n` (`usize::to_string`).
pub fn decimal_string(n: usize) -> (r: String)
    ensures
        r@ == decimal(n as nat),
{
    let mut r = String::new();
    push_decimal(&mut r, n);
    assert(Seq::<char>::empty() + decimal(n as nat) =~= decimal(n as nat));
    r
}

/// A longer prefix of digits never has a smaller value.
pub proof fn lemma_digits_value_grows(s: Seq<char>, j: int, k: int)
    requires
        0 <= j <= k <= s.len(),
    ensures
        digits_value(s.take(j)) <= digits_value(s.take(k)),
    decreases k - j,
{
    if j < k {
        lemma_digits_value_grows(s, j, k - 1);
        assert(s.take(k).drop_last() =~= s.take(k - 1));
    }
}

/// Whether every character of `cs[start..]` is a decimal digit.
fn all_digits_from(cs: &[char], start: usize) -> (r: bool)
    requires
        start <= cs@.len(),
    ensures
        r == all_digits(cs@.skip(start as int)),
{
    let mut i = start;
    while i < cs.len()
        invariant
            start <= i <= cs@.len(),
            forall|j: int| start <= j < i ==> (#[trigger] digit_value(cs@[j])) is Some,
        decreases cs@.len() - i,
    {
        let c = cs[i];
        if !('0' <= c && c <= '9') {
            assert(cs@.skip(start as int)[i - start] == c);
            assert(digit_value(cs@.skip(start as int)[i - start]) is None);
            return false;
        }
        i = i + 1;
    }
    assert forall|j: int| 0 <= j < cs@.skip(start as int).len() implies (#[trigger] digit_value(
        cs@.skip(start as int)[j],
    )) is Some by {
        assert(cs@.skip(start as int)[j] == cs@[start + j]);
    }
    true
}

/// The value of the decimal digits `cs[start..]`, if it is at most `bound`.
fn digits_at_most(cs: &[char], start: usize, bound: u128) -> (r: Option<u128>)
    requires
        start <= cs@.len(),
        all_digits(cs@.skip(start as int)),
    ensures
        match r {
            Some(v) => v as nat == digits_value(cs@.skip(start as int)) && v <= bound,
            None => digits_value(cs@.skip(start as int)) > bound,
        },
{
    let ghost body = cs@.skip(start as int);
    let mut v: u128 = 0;
    let mut i = start;
    assert(body.take(0) =~= Seq::<char>::empty());
    while i < cs.len()
        invariant
            start <= i <= cs@.len(),
            body == cs@.skip(start as int),
            all_digits(body),
            v as nat == digits_value(body.take(i - start)),
            v <= bound,
        decreases cs@.len() - i,
    {
        let ghost k = (i - start) as int;
        assert(body[k] == cs@[i as int]);
        assert(digit_value(body[k]) is Some);
        let d = (cs[i] as u32 - '0' as u32) as u128;
        assert(body.take(k + 1).drop_last() =~= body.take(k));
        assert(digits_value(body.take(k + 1)) == digits_value(body.take(k)) * 10 + d);
        if v > bound / 10 {
            assert(v * 10 > bound) by (nonlinear_arith)
                requires
                    v > bound / 10,
            ;
            proof { lemma_digits_value_grows(body, k + 1, body.len() as int); }
            assert(body.take(body.len() as int) =~= body);
            return None;
        }
        assert(v * 10 <= bound) by (nonlinear_arith)
            requires
                v <= bound / 10,
        ;
        let t: u128 = v * 10;
        if d > bound - t {
            proof { lemma_digits_value_grows(body, k + 1, body.len() as int); }
            assert(body.take(body.len() as int) =~= body);
            return None;
        }
        v = t + d;
        i = i + 1;
    }
    assert(body.take(body.len() as int) =~= body);
    Some(v)
}

/// `s` parsed as an `i64` the way `str::parse::<i64>` does: an optional sign,
/// then at least one decimal digit, within range.
pub fn parse_i64(s: &str) -> (r: Option<i64>)
    ensures
        r matches Some(v) ==> parse_i64_spec(s@) == Some(v as int),
        r is None ==> parse_i64_spec(s@) is None,
{
    let cs = chars_of(s);
    let neg = cs.len() > 0 && cs[0] == '-';
    let signed = cs.len() > 0 && (cs[0] == '-' || cs[0] == '+');
    let start: usize = if signed { 1 } else { 0 };
    let ghost body = if signed { s@.drop_first() } else { s@ };
    assert(cs@.skip(start as int) =~= body);
    if start >= cs.len() || !all_digits_from(cs.as_slice(), start) {
        return None;
    }
    let bound: u128 = if neg { 9223372036854775808 } else { 9223372036854775807 };
    match digits_at_most(cs.as_slice(), start, bound) {
        Some(m) => {
            if neg {
                if m == 9223372036854775808 {
                    Some(-9223372036854775808i64)
                } else {
                    Some(-(m as i64))
                }
            } else {
                Some(m as i64)
            }
        },
        None => None,
    }
}

/// The value `u128::from_str` gives for `s`: an optional `+`, then at least one
/// decimal digit, at most `u128::MAX`.
pub open spec fn parse_u128_spec(s: Seq<char>) -> Option<nat> {
    let body = if s.len() > 0 && s[0] == '+' { s.drop_first() } else { s };
    if body.len() == 0 || !all_digits(body) || digits_value(body) > u128::MAX {
        None
    } else {
        Some(digits_value(body))
    }
}

/// `s` parsed as a `u128` the way `str::parse::<u128>` does.
pub fn parse_u128(s: &str) -> (r: Option<u128>)
    ensures
        r matches Some(v) ==> parse_u128_spec(s@) == Some(v as nat),
        r is None ==> parse_u128_spec(s@) is None,
{
    let cs = chars_of(s);
    let signed = cs.len() > 0 && cs[0] == '+';
    let start: usize = if signed { 1 } else { 0 };
    let ghost body = if signed { s@.drop_first() } else { s@ };
    assert(cs@.skip(start as int) =~= body);
    if start >= cs.len() || !all_digits_from(cs.as_slice(), start) {
        return None;
    }
    digits_at_most(cs.as_slice(), start, u128::MAX)
}

} // verus!
