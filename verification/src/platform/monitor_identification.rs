//! Monitor identification overlays: geometry and numbering. Both are platform
//! neutral; the native windows that show them live with the application.
use vstd::prelude::*;

use crate::session::shutdown::Received;
use crate::text::{chars_of, decimal, lex_le, lemma_lex_antisymmetric, lemma_lex_reflexive, lemma_lex_total, lemma_lex_transitive, lex_le_chars, push_decimal, push_str, string_of};

verus! {

/// How long (in nanoseconds) the identification overlays stay up.
pub const DISPLAY_TIME: u64 = 5_000_000_000;

#[derive(Clone, Debug, PartialEq, Eq, Structural)]
pub struct PixelRect {
    pub left: i32,
    pub top: i32,
    pub right: i32,
    pub bottom: i32,
}

#[derive(Clone, Debug, PartialEq, Eq)]
pub struct MonitorDescriptor {
    pub stable_id: String,
    pub windows_name: String,
    pub number: u32,
    pub rect: PixelRect,
}

/// `s` without the prefix `p`, when it starts with it.
pub open spec fn strip_prefix(s: Seq<char>, p: Seq<char>) -> Option<Seq<char>> {
    if p.len() <= s.len() && s.subrange(0, p.len() as int) == p {
        Some(s.subrange(p.len() as int, s.len() as int))
    } else {
        None
    }
}

pub open spec fn is_ascii_digit(c: char) -> bool {
    '0' <= c && c <= '9'
}

pub open spec fn all_ascii_digits(s: Seq<char>) -> bool {
    forall|i: int| 0 <= i < s.len() ==> is_ascii_digit(#[trigger] s[i])
}

/// The number that a string of decimal digits denotes.
pub open spec fn digits_value(s: Seq<char>) -> nat
    decreases s.len(),
{
    if s.len() == 0 {
        0
    } else {
        digits_value(s.drop_last()) * 10 + ((s.last() as u32) - 48) as nat
    }
}

/// The number at the end of a GDI display name such as `\\.\DISPLAY3`: the
/// digits after `DISPLAY` (the `\\.\` prefix being optional), when there is at
/// least one, all are ASCII digits, and they denote a non-zero `u32`.
pub open spec fn display_number(name: Seq<char>) -> Option<u32> {
    let visible = match strip_prefix(name, "\\\\.\\"@) {
        Some(v) => v,
        None => name,
    };
    match strip_prefix(visible, "DISPLAY"@) {
        None => None,
        Some(d) => if d.len() == 0 || !all_ascii_digits(d) || digits_value(d) > u32::MAX
            || digits_value(d) == 0 {
            None
        } else {
            Some(digits_value(d) as u32)
        },
    }
}

fn strip_prefix_chars(s: &[char], p: &[char]) -> (r: Option<Vec<char>>)
    ensures
        match strip_prefix(s@, p@) {
            Some(rest) => r matches Some(v) && v@ == rest,
            None => r is None,
        },
{
    if p.len() > s.len() {
        return None;
    }
    let mut i: usize = 0;
    while i < p.len()
        invariant
            p.len() <= s.len(),
            i <= p.len(),
            forall|k: int| 0 <= k < i ==> s@[k] == p@[k],
        decreases p.len() - i,
    {
        if s[i] != p[i] {
            assert(s@.subrange(0, p@.len() as int)[i as int] != p@[i as int]);
            return None;
        }
        i = i + 1;
    }
    assert(s@.subrange(0, p@.len() as int) =~= p@);
    let mut rest: Vec<char> = Vec::new();
    let mut k: usize = p.len();
    while k < s.len()
        invariant
            p.len() <= k <= s.len(),
            rest@ == s@.subrange(p@.len() as int, k as int),
        decreases s.len() - k,
    {
        rest.push(s[k]);
        k = k + 1;
        assert(rest@ =~= s@.subrange(p@.len() as int, k as int));
    }
    Some(rest)
}

proof fn lemma_digits_value_prefix(s: Seq<char>, i: int)
    requires
        0 <= i <= s.len(),
        all_ascii_digits(s),
    ensures
        digits_value(s.subrange(0, i)) <= digits_value(s),
    decreases s.len() - i,
{
    if i < s.len() {
        lemma_digits_value_prefix(s, i + 1);
        let t = s.subrange(0, i + 1);
        assert(t.drop_last() =~= s.subrange(0, i));
        assert(is_ascii_digit(t.last()));
    } else {
        assert(s.subrange(0, i) =~= s);
    }
}

/// The number at the end of a GDI display name, if it has one.
pub fn terminal_display_number(name: &str) -> (r: Option<u32>)
    ensures
        r == display_number(name@),
{
    let cs = chars_of(name);
    let unc = chars_of("\\\\.\\");
    let display = chars_of("DISPLAY");
    let visible = match strip_prefix_chars(cs.as_slice(), unc.as_slice()) {
        Some(v) => v,
        None => cs,
    };
    let digits = match strip_prefix_chars(visible.as_slice(), display.as_slice()) {
        Some(d) => d,
        None => return None,
    };
    let ghost vis = match strip_prefix(name@, "\\\\.\\"@) {
        Some(v) => v,
        None => name@,
    };
    assert(visible@ == vis);
    assert(strip_prefix(vis, "DISPLAY"@) == Some(digits@));
    if digits.len() == 0 {
        return None;
    }
    let ghost expected = if !all_ascii_digits(digits@) || digits_value(digits@) > u32::MAX
        || digits_value(digits@) == 0 {
        None
    } else {
        Some(digits_value(digits@) as u32)
    };
    assert(display_number(name@) == expected);
    let mut i: usize = 0;
    while i < digits.len()
        invariant
            i <= digits@.len(),
            forall|k: int| 0 <= k < i ==> is_ascii_digit(#[trigger] digits@[k]),
            display_number(name@) == expected,
            expected == (if !all_ascii_digits(digits@) || digits_value(digits@) > u32::MAX
                || digits_value(digits@) == 0 {
                None
            } else {
                Some(digits_value(digits@) as u32)
            }),
        decreases digits@.len() - i,
    {
        if !('0' <= digits[i] && digits[i] <= '9') {
            assert(!is_ascii_digit(digits@[i as int]));
            return None;
        }
        i = i + 1;
    }
    let mut value: u64 = 0;
    let mut j: usize = 0;
    while j < digits.len()
        invariant
            j <= digits@.len(),
            all_ascii_digits(digits@),
            value == digits_value(digits@.subrange(0, j as int)),
            value <= u32::MAX,
            display_number(name@) == expected,
            expected == (if !all_ascii_digits(digits@) || digits_value(digits@) > u32::MAX
                || digits_value(digits@) == 0 {
                None
            } else {
                Some(digits_value(digits@) as u32)
            }),
        decreases digits@.len() - j,
    {
        let d = digits[j];
        assert(digits@.subrange(0, j + 1).drop_last() =~= digits@.subrange(0, j as int));
        assert(is_ascii_digit(digits@[j as int]));
        let next = value * 10 + ((d as u32) - 48) as u64;
        assert(digits@.subrange(0, j + 1).last() == d);
        assert(next == digits_value(digits@.subrange(0, j + 1)));
        j = j + 1;
        if next > 0xffff_ffff {
            proof {
                lemma_digits_value_prefix(digits@, j as int);
            }
            return None;
        }
        value = next;
    }
    assert(digits@.subrange(0, j as int) =~= digits@);
    if value == 0 {
        None
    } else {
        Some(value as u32)
    }
}

/// The name shown on an overlay: `DISPLAY` and the display's own number when
/// its GDI name carries one, else the assigned number.
pub open spec fn visible_name(name: Seq<char>, number: u32) -> Seq<char> {
    "DISPLAY"@ + decimal(
        match display_number(name) {
            Some(n) => n as nat,
            None => number as nat,
        },
    )
}

pub fn visible_display_name(name: &str, number: u32) -> (r: String)
    ensures
        r@ == visible_name(name@, number),
{
    let n = match terminal_display_number(name) {
        Some(n) => n,
        None => number,
    };
    let mut out: Vec<char> = Vec::new();
    push_str(&mut out, "DISPLAY");
    push_decimal(&mut out, n as u64);
    string_of(out.as_slice())
}

/// `v` clamped to the range of `i32`.
pub open spec fn sat(v: int) -> int {
    if v > i32::MAX {
        i32::MAX as int
    } else if v < i32::MIN {
        i32::MIN as int
    } else {
        v
    }
}

pub open spec fn min_int(a: int, b: int) -> int {
    if a <= b {
        a
    } else {
        b
    }
}

pub open spec fn max_int(a: int, b: int) -> int {
    if a >= b {
        a
    } else {
        b
    }
}

/// The inset actually applied: the request clamped to 0..=16 and to less than
/// half the width and height (each at least one pixel).
pub open spec fn applied_inset(rect: PixelRect, requested: i32) -> int {
    let width = max_int(sat(rect.right - rect.left), 1);
    let height = max_int(sat(rect.bottom - rect.top), 1);
    min_int(min_int(min_int(max_int(requested as int, 0), 16), (width - 1) / 2), (height - 1) / 2)
}

/// `a + b` clamped to the range of `i32`, as `i32::saturating_add` computes it.
pub fn saturating_add_i32(a: i32, b: i32) -> (r: i32)
    ensures
        r == sat(a + b),
{
    let v = a as i64 + b as i64;
    if v > i32::MAX as i64 {
        i32::MAX
    } else if v < i32::MIN as i64 {
        i32::MIN
    } else {
        v as i32
    }
}

/// `a - b` clamped to the range of `i32`, as `i32::saturating_sub` computes it.
pub fn saturating_sub_i32(a: i32, b: i32) -> (r: i32)
    ensures
        r == sat(a - b),
{
    let v = a as i64 - b as i64;
    if v > i32::MAX as i64 {
        i32::MAX
    } else if v < i32::MIN as i64 {
        i32::MIN
    } else {
        v as i32
    }
}

/// Shrinks a rectangle on every side by the applied inset (with saturating
/// arithmetic), so that an overlay never spills over its monitor's edge.
pub fn inset_rect(rect: &PixelRect, requested: i32) -> (r: PixelRect)
    ensures
        r.left == sat(rect.left + applied_inset(*rect, requested)),
        r.top == sat(rect.top + applied_inset(*rect, requested)),
        r.right == sat(rect.right - applied_inset(*rect, requested)),
        r.bottom == sat(rect.bottom - applied_inset(*rect, requested)),
        rect.left < rect.right ==> rect.left <= r.left < r.right <= rect.right,
        rect.top < rect.bottom ==> rect.top <= r.top < r.bottom <= rect.bottom,
{
    let width = saturating_sub_i32(rect.right, rect.left);
    let width = if width < 1 { 1 } else { width };
    let height = saturating_sub_i32(rect.bottom, rect.top);
    let height = if height < 1 { 1 } else { height };
    let mut inset = if requested < 0 { 0 } else { requested };
    if inset > 16 {
        inset = 16;
    }
    if inset > (width - 1) / 2 {
        inset = (width - 1) / 2;
    }
    if inset > (height - 1) / 2 {
        inset = (height - 1) / 2;
    }
    PixelRect {
        left: saturating_add_i32(rect.left, inset),
        top: saturating_add_i32(rect.top, inset),
        right: saturating_sub_i32(rect.right, inset),
        bottom: saturating_sub_i32(rect.bottom, inset),
    }
}


/// A monitor as the enumeration reports it: stable id, GDI name and rectangle.
pub type MonitorEntry = (String, String, PixelRect);

/// The order in which monitors are numbered: top to bottom, then left to right,
/// then by stable id and name, as the tuple `(top, left, id, name)` compares.
pub open spec fn entry_le(a: MonitorEntry, b: MonitorEntry) -> bool {
    a.2.top < b.2.top || (a.2.top == b.2.top && (a.2.left < b.2.left || (a.2.left == b.2.left && (
    if a.0@ != b.0@ {
        lex_le(a.0@, b.0@)
    } else {
        lex_le(a.1@, b.1@)
    }))))
}

proof fn lemma_entry_total(a: MonitorEntry, b: MonitorEntry)
    ensures
        entry_le(a, b) || entry_le(b, a),
{
    lemma_lex_total(a.0@, b.0@);
    lemma_lex_total(a.1@, b.1@);
}

proof fn lemma_entry_transitive(a: MonitorEntry, b: MonitorEntry, c: MonitorEntry)
    requires
        entry_le(a, b),
        entry_le(b, c),
    ensures
        entry_le(a, c),
{
    if a.2.top == b.2.top && b.2.top == c.2.top && a.2.left == b.2.left && b.2.left == c.2.left {
        if a.0@ != b.0@ && b.0@ != c.0@ {
            if a.0@ == c.0@ {
                lemma_lex_antisymmetric(a.0@, b.0@);
            } else {
                lemma_lex_transitive(a.0@, b.0@, c.0@);
            }
        } else if a.0@ != b.0@ {
            lemma_lex_reflexive(b.0@);
            lemma_lex_transitive(a.0@, b.0@, c.0@);
        } else if b.0@ != c.0@ {
            lemma_lex_reflexive(a.0@);
            lemma_lex_transitive(a.0@, b.0@, c.0@);
        } else {
            lemma_lex_transitive(a.1@, b.1@, c.1@);
        }
    }
}

fn entry_le_exec(a: &MonitorEntry, b: &MonitorEntry) -> (r: bool)
    ensures
        r == entry_le(*a, *b),
{
    if a.2.top != b.2.top {
        return a.2.top < b.2.top;
    }
    if a.2.left != b.2.left {
        return a.2.left < b.2.left;
    }
    let a0 = chars_of(a.0.as_str());
    let b0 = chars_of(b.0.as_str());
    let a1 = chars_of(a.1.as_str());
    let b1 = chars_of(b.1.as_str());
    if !crate::text::chars_eq(a0.as_slice(), b0.as_slice()) {
        lex_le_chars(a0.as_slice(), b0.as_slice())
    } else {
        lex_le_chars(a1.as_slice(), b1.as_slice())
    }
}

pub open spec fn sorted_entries(s: Seq<MonitorEntry>) -> bool {
    forall|i: int, j: int| 0 <= i < j < s.len() ==> entry_le(#[trigger] s[i], #[trigger] s[j])
}

proof fn lemma_empty_multiset<A>()
    ensures
        Seq::<A>::empty().to_multiset() =~= vstd::multiset::Multiset::<A>::empty(),
{
    broadcast use vstd::seq_lib::group_to_multiset_ensures;
    assert(Seq::<A>::empty().to_multiset().len() == 0);
}

/// Stable insertion sort by [`entry_le`].
fn sort_entries(monitors: Vec<MonitorEntry>) -> (out: Vec<MonitorEntry>)
    ensures
        out@.len() == monitors@.len(),
        sorted_entries(out@),
        out@.to_multiset() == monitors@.to_multiset(),
{
    broadcast use vstd::seq_lib::group_to_multiset_ensures;
    let ghost input = monitors@;
    assert(input.subrange(0, 0) =~= Seq::<MonitorEntry>::empty());
    proof {
        lemma_empty_multiset::<MonitorEntry>();
    }
    let mut rest = monitors;
    let mut out: Vec<MonitorEntry> = Vec::new();
    let ghost mut taken: nat = 0;
    while rest.len() > 0
        invariant
            taken + rest@.len() == input.len(),
            rest@ == input.subrange(taken as int, input.len() as int),
            sorted_entries(out@),
            out@.len() == taken,
            out@.to_multiset() == input.subrange(0, taken as int).to_multiset(),
        decreases rest@.len(),
    {
        let x = rest.remove(0);
        let ghost old_taken = taken;
        proof {
            assert(input.subrange(0, taken as int + 1) =~= input.subrange(0, taken as int).push(x));
            assert(input.subrange(0, taken as int).push(x) =~= input.subrange(0, taken as int).insert(taken as int, x));
            taken = taken + 1;
            assert(rest@ =~= input.subrange(taken as int, input.len() as int));
        }
        let mut p = out.len();
        while p > 0 && !entry_le_exec(&out[p - 1], &x)
            invariant
                p <= out@.len(),
                forall|k: int| p <= k < out@.len() ==> !entry_le(#[trigger] out@[k], x),
            decreases p,
        {
            p = p - 1;
        }
        let ghost before = out@;
        proof {
            assert forall|k: int| 0 <= k < p implies entry_le(#[trigger] before[k], x) by {
                if k < p - 1 {
                    lemma_entry_transitive(before[k], before[p - 1], x);
                }
            }
            assert forall|k: int| p <= k < before.len() implies entry_le(x, #[trigger] before[k]) by {
                lemma_entry_total(x, before[k]);
            }
        }
        out.insert(p, x);
        proof {
            assert(out@ == before.insert(p as int, x));
            vstd::seq_lib::to_multiset_insert(before, p as int, x);
            vstd::seq_lib::to_multiset_insert(input.subrange(0, old_taken as int), old_taken as int, x);
            assert(input.subrange(0, taken as int) =~= input.subrange(0, old_taken as int).insert(old_taken as int, x));
            assert forall|i: int, j: int| 0 <= i < j < out@.len() implies entry_le(#[trigger] out@[i], #[trigger] out@[j]) by {
                if i < p && j < p {
                } else if i < p && j == p {
                } else if i < p && j > p {
                    assert(out@[j] == before[j - 1]);
                    lemma_entry_transitive(before[i], x, before[j - 1]);
                } else if i == p {
                    assert(out@[j] == before[j - 1]);
                } else {
                    assert(out@[i] == before[i - 1] && out@[j] == before[j - 1]);
                }
            }
        }
    }
    assert(input.subrange(0, taken as int) =~= input);
    out
}


pub open spec fn entry_of(d: MonitorDescriptor) -> MonitorEntry {
    (d.stable_id, d.windows_name, d.rect)
}

pub open spec fn entries_of(r: Seq<MonitorDescriptor>) -> Seq<MonitorEntry> {
    r.map_values(|d: MonitorDescriptor| entry_of(d))
}

/// The numbers of the descriptors, in order.
pub open spec fn numbers_of(r: Seq<MonitorDescriptor>) -> Seq<u32> {
    r.map_values(|d: MonitorDescriptor| d.number)
}

/// The number that entry `i`'s GDI name carries, if any.
pub open spec fn carried(e: Seq<MonitorEntry>, i: int) -> Option<u32> {
    display_number(e[i].1@)
}

/// Entry `i` keeps the number its name carries: it is the first entry, in
/// numbering order, that carries it.
pub open spec fn claims(e: Seq<MonitorEntry>, i: int) -> bool {
    &&& carried(e, i) is Some
    &&& forall|j: int| 0 <= j < i ==> #[trigger] carried(e, j) != carried(e, i)
}

/// Some entry's name carries `k`.
pub open spec fn is_carried(e: Seq<MonitorEntry>, k: u32) -> bool {
    exists|j: int| 0 <= j < e.len() && #[trigger] carried(e, j) == Some(k)
}

/// How many of the first `i` entries claim their number.
pub open spec fn claims_before(e: Seq<MonitorEntry>, i: int) -> nat
    decreases i,
{
    if i <= 0 {
        0
    } else {
        claims_before(e, i - 1) + if claims(e, i - 1) {
            1nat
        } else {
            0nat
        }
    }
}

proof fn lemma_claims_before_bound(e: Seq<MonitorEntry>, i: int, n: int)
    requires
        0 <= i <= n,
    ensures
        claims_before(e, i) <= claims_before(e, n),
        claims_before(e, n) - claims_before(e, i) <= n - i,
    decreases n - i,
{
    if i < n {
        lemma_claims_before_bound(e, i, n - 1);
    }
}

proof fn lemma_pigeonhole(s: Seq<u32>, m: int)
    requires
        0 <= m,
        forall|k: u32| 1 <= k <= m ==> #[trigger] s.contains(k),
        m <= u32::MAX,
    ensures
        s.len() >= m,
{
    broadcast use vstd::seq_lib::seq_to_set_is_finite;
    let t = s.map_values(|x: u32| x as int);
    let big = t.to_set();
    let small = vstd::set_lib::set_int_range(1, m + 1);
    assert forall|k: int| small.contains(k) implies big.contains(k) by {
        assert(s.contains(k as u32));
        let idx = choose|idx: int| 0 <= idx < s.len() && s[idx] == k as u32;
        assert(t[idx] == k);
    }
    vstd::set_lib::lemma_len_subset(small, big);
    vstd::set_lib::lemma_int_range(1, m + 1);
    t.lemma_cardinality_of_set();
}

fn contains_u32(v: &Vec<u32>, x: u32) -> (r: bool)
    ensures
        r == v@.contains(x),
{
    let mut i: usize = 0;
    while i < v.len()
        invariant
            i <= v@.len(),
            forall|k: int| 0 <= k < i ==> v@[k] != x,
        decreases v@.len() - i,
    {
        if v[i] == x {
            return true;
        }
        i = i + 1;
    }
    false
}

proof fn lemma_push_contains(s: Seq<u32>, v: u32, k: u32)
    ensures
        s.push(v).contains(k) <==> (s.contains(k) || k == v),
{
    if s.push(v).contains(k) && k != v {
        let idx = choose|idx: int| 0 <= idx < s.push(v).len() && s.push(v)[idx] == k;
        assert(s[idx] == k);
    }
    if s.contains(k) {
        let idx = choose|idx: int| 0 <= idx < s.len() && s[idx] == k;
        assert(s.push(v)[idx] == k);
    }
    if k == v {
        assert(s.push(v)[s.len() as int] == k);
    }
}

/// The number an unclaimed entry receives is the smallest positive number
/// that no name carries and no earlier unclaimed entry received.
pub open spec fn fill_ok(e: Seq<MonitorEntry>, numbers: Seq<u32>, j: int) -> bool {
    &&& numbers[j] >= 1
    &&& !is_carried(e, numbers[j])
    &&& forall|k: u32|
        1 <= k < numbers[j] ==> is_carried(e, k) || exists|j2: int|
            0 <= j2 < j && !claims(e, j2) && #[trigger] numbers[j2] == k
}

/// Entries before `i` hold the numbers the rules give them.
pub open spec fn numbered_prefix(e: Seq<MonitorEntry>, numbers: Seq<u32>, i: int) -> bool {
    &&& forall|j: int| 0 <= j < i && claims(e, j) ==> Some(#[trigger] numbers[j]) == carried(e, j)
    &&& forall|j: int| 0 <= j < i && !claims(e, j) ==> #[trigger] fill_ok(e, numbers, j)
    &&& forall|j1: int, j2: int|
        0 <= j1 < j2 < i && !claims(e, j2) ==> #[trigger] numbers[j1] != #[trigger] numbers[j2]
}

/// Numbers in use: carried by some name, or given to an earlier unclaimed entry.
pub open spec fn in_use(e: Seq<MonitorEntry>, numbers: Seq<u32>, i: int, k: u32) -> bool {
    is_carried(e, k) || exists|j: int| 0 <= j < i && !claims(e, j) && #[trigger] numbers[j] == k
}

proof fn lemma_in_use_extend(e: Seq<MonitorEntry>, numbers: Seq<u32>, i: int, f: u32, k: u32)
    requires
        0 <= i,
        numbers.len() == i,
        !claims(e, i),
    ensures
        in_use(e, numbers.push(f), i + 1, k) <==> (in_use(e, numbers, i, k) || k == f),
{
    let ext = numbers.push(f);
    if in_use(e, ext, i + 1, k) && !is_carried(e, k) && k != f {
        let j = choose|j: int| 0 <= j < i + 1 && !claims(e, j) && #[trigger] ext[j] == k;
        assert(j < i);
        assert(numbers[j] == k);
    }
    if in_use(e, numbers, i, k) && !is_carried(e, k) {
        let j = choose|j: int| 0 <= j < i && !claims(e, j) && #[trigger] numbers[j] == k;
        assert(ext[j] == k);
    }
    if k == f {
        assert(ext[i] == k);
    }
}

proof fn lemma_in_use_claimed_step(e: Seq<MonitorEntry>, numbers: Seq<u32>, i: int, v: u32, k: u32)
    requires
        0 <= i,
        numbers.len() == i,
        claims(e, i),
    ensures
        in_use(e, numbers.push(v), i + 1, k) <==> in_use(e, numbers, i, k),
{
    let ext = numbers.push(v);
    if in_use(e, ext, i + 1, k) && !is_carried(e, k) {
        let j = choose|j: int| 0 <= j < i + 1 && !claims(e, j) && #[trigger] ext[j] == k;
        assert(numbers[j] == k);
    }
    if in_use(e, numbers, i, k) && !is_carried(e, k) {
        let j = choose|j: int| 0 <= j < i && !claims(e, j) && #[trigger] numbers[j] == k;
        assert(ext[j] == k);
    }
}

proof fn lemma_numbered_extend(e: Seq<MonitorEntry>, numbers: Seq<u32>, i: int, f: u32)
    requires
        0 <= i < e.len(),
        numbers.len() == i,
        numbered_prefix(e, numbers, i),
        claims(e, i) ==> Some(f) == carried(e, i),
        !claims(e, i) ==> f >= 1 && !in_use(e, numbers, i, f) && forall|k: u32|
            1 <= k < f ==> #[trigger] in_use(e, numbers, i, k),
    ensures
        numbered_prefix(e, numbers.push(f), i + 1),
{
    let ext = numbers.push(f);
    assert forall|j: int| 0 <= j < i + 1 && claims(e, j) implies Some(#[trigger] ext[j]) == carried(e, j) by {
        if j < i {
            assert(ext[j] == numbers[j]);
        }
    }
    assert forall|j: int| 0 <= j < i + 1 && !claims(e, j) implies #[trigger] fill_ok(e, ext, j) by {
        if j < i {
            assert(ext[j] == numbers[j]);
            assert(fill_ok(e, numbers, j));
            assert forall|k: u32| 1 <= k < ext[j] implies is_carried(e, k) || exists|j2: int|
                0 <= j2 < j && !claims(e, j2) && #[trigger] ext[j2] == k by {
                if !is_carried(e, k) {
                    let j2 = choose|j2: int| 0 <= j2 < j && !claims(e, j2) && #[trigger] numbers[j2] == k;
                    assert(ext[j2] == k);
                }
            }
        } else {
            assert(ext[j] == f);
            assert(!is_carried(e, f));
            assert forall|k: u32| 1 <= k < ext[j] implies is_carried(e, k) || exists|j2: int|
                0 <= j2 < j && !claims(e, j2) && #[trigger] ext[j2] == k by {
                assert(in_use(e, numbers, i, k));
                if !is_carried(e, k) {
                    let j2 = choose|j2: int| 0 <= j2 < i && !claims(e, j2) && #[trigger] numbers[j2] == k;
                    assert(ext[j2] == k);
                }
            }
        }
    }
    assert forall|j1: int, j2: int| 0 <= j1 < j2 < i + 1 && !claims(e, j2) implies #[trigger] ext[j1] != #[trigger] ext[j2] by {
        if j2 < i {
            assert(ext[j1] == numbers[j1] && ext[j2] == numbers[j2]);
        } else {
            assert(ext[j2] == f);
            assert(ext[j1] == numbers[j1]);
            if numbers[j1] == f {
                if claims(e, j1) {
                    assert(is_carried(e, f));
                } else {
                    assert(in_use(e, numbers, i, f));
                }
            }
        }
    }
}

/// Assigns each monitor a number independently of enumeration order. The
/// monitors are put in numbering order ([`entry_le`]); the first monitor whose
/// GDI name carries a number keeps it; every other monitor, in order, gets the
/// smallest positive number that no name carries and no earlier monitor got.
pub fn assign_friendly_numbers(monitors: Vec<MonitorEntry>) -> (r: Vec<MonitorDescriptor>)
    requires
        monitors@.len() < u32::MAX,
    ensures
        r@.len() == monitors@.len(),
        sorted_entries(entries_of(r@)),
        entries_of(r@).to_multiset() == monitors@.to_multiset(),
        forall|i: int|
            0 <= i < r@.len() && claims(entries_of(r@), i) ==> Some(#[trigger] r@[i].number)
                == carried(entries_of(r@), i),
        forall|i: int|
            0 <= i < r@.len() && !claims(entries_of(r@), i) ==> #[trigger] fill_ok(
                entries_of(r@),
                numbers_of(r@),
                i,
            ),
        forall|i: int, j: int|
            0 <= i < j < r@.len() ==> #[trigger] r@[i].number != #[trigger] r@[j].number,
{
    let sorted = sort_entries(monitors);
    let n = sorted.len();
    let ghost e = sorted@;
    // The numbers the names carry.
    let mut nums: Vec<Option<u32>> = Vec::new();
    let mut i: usize = 0;
    while i < n
        invariant
            n == sorted@.len(),
            e == sorted@,
            i <= n,
            nums@.len() == i,
            forall|j: int| 0 <= j < i ==> #[trigger] nums@[j] == carried(e, j),
        decreases n - i,
    {
        nums.push(terminal_display_number(sorted[i].1.as_str()));
        i = i + 1;
    }
    // The first carrier of each number claims it.
    let mut used: Vec<u32> = Vec::new();
    let mut claimed: Vec<bool> = Vec::new();
    let mut i: usize = 0;
    while i < n
        invariant
            n == e.len(),
            i <= n,
            nums@.len() == n,
            forall|j: int| 0 <= j < n ==> #[trigger] nums@[j] == carried(e, j),
            claimed@.len() == i,
            forall|j: int| 0 <= j < i ==> #[trigger] claimed@[j] == claims(e, j),
            forall|k: u32| #[trigger] used@.contains(k) <==> exists|j: int| 0 <= j < i && #[trigger] carried(e, j) == Some(k),
            used@.len() == claims_before(e, i as int),
        decreases n - i,
    {
        let ghost old_used = used@;
        match nums[i] {
            Some(v) => {
                if !contains_u32(&used, v) {
                    proof {
                        assert forall|j: int| 0 <= j < i implies #[trigger] carried(e, j) != carried(e, i as int) by {
                            if carried(e, j) == Some(v) {
                                assert(old_used.contains(v));
                            }
                        }
                    }
                    used.push(v);
                    claimed.push(true);
                    proof {
                        assert forall|k: u32| #[trigger] used@.contains(k) <==> exists|j: int| 0 <= j < i + 1 && #[trigger] carried(e, j) == Some(k) by {
                            lemma_push_contains(old_used, v, k);
                            if k == v {
                                assert(carried(e, i as int) == Some(k));
                            }
                            if exists|j: int| 0 <= j < i + 1 && #[trigger] carried(e, j) == Some(k) {
                                let j = choose|j: int| 0 <= j < i + 1 && #[trigger] carried(e, j) == Some(k);
                                if j == i {
                                    assert(k == v);
                                }
                            }
                        }
                    }
                } else {
                    proof {
                        let j = choose|j: int| 0 <= j < i && #[trigger] carried(e, j) == Some(v);
                        assert(carried(e, j) == carried(e, i as int));
                    }
                    claimed.push(false);
                    proof {
                        assert forall|k: u32| #[trigger] used@.contains(k) <==> exists|j: int| 0 <= j < i + 1 && #[trigger] carried(e, j) == Some(k) by {
                            if exists|j: int| 0 <= j < i + 1 && #[trigger] carried(e, j) == Some(k) {
                                let j = choose|j: int| 0 <= j < i + 1 && #[trigger] carried(e, j) == Some(k);
                                if j == i {
                                    assert(k == v);
                                }
                            }
                        }
                    }
                }
            },
            None => {
                claimed.push(false);
                proof {
                    assert forall|k: u32| #[trigger] used@.contains(k) <==> exists|j: int| 0 <= j < i + 1 && #[trigger] carried(e, j) == Some(k) by {
                        if exists|j: int| 0 <= j < i + 1 && #[trigger] carried(e, j) == Some(k) {
                            let j = choose|j: int| 0 <= j < i + 1 && #[trigger] carried(e, j) == Some(k);
                            assert(j != i);
                        }
                    }
                }
            },
        }
        i = i + 1;
    }
    // Everyone else gets the smallest free number.
    let ghost total_claims = claims_before(e, n as int);
    let mut numbers: Vec<u32> = Vec::new();
    let mut next: u32 = 1;
    let mut i: usize = 0;
    proof {
        assert forall|k: u32| #[trigger] used@.contains(k) <==> in_use(e, numbers@, 0, k) by {}
    }
    while i < n
        invariant
            n == e.len(),
            n < u32::MAX,
            i <= n,
            nums@.len() == n,
            forall|j: int| 0 <= j < n ==> #[trigger] nums@[j] == carried(e, j),
            claimed@.len() == n,
            forall|j: int| 0 <= j < n ==> #[trigger] claimed@[j] == claims(e, j),
            total_claims == claims_before(e, n as int),
            numbers@.len() == i,
            numbered_prefix(e, numbers@, i as int),
            forall|k: u32| #[trigger] used@.contains(k) <==> in_use(e, numbers@, i as int, k),
            next >= 1,
            forall|k: u32| 1 <= k < next ==> #[trigger] used@.contains(k),
            used@.len() == total_claims + (i - claims_before(e, i as int)),
        decreases n - i,
    {
        proof {
            lemma_claims_before_bound(e, i as int, n as int);
            lemma_claims_before_bound(e, i as int + 1, n as int);
        }
        let ghost old_numbers = numbers@;
        let ghost old_used = used@;
        if claimed[i] {
            let v = match nums[i] {
                Some(v) => v,
                None => 0,
            };
            numbers.push(v);
            proof {
                lemma_numbered_extend(e, old_numbers, i as int, v);
                assert forall|k: u32| #[trigger] used@.contains(k) <==> in_use(e, numbers@, i + 1, k) by {
                    lemma_in_use_claimed_step(e, old_numbers, i as int, v, k);
                }
            }
        } else {
            while contains_u32(&used, next)
                invariant
                    used@.len() <= n,
                    n < u32::MAX,
                    next >= 1,
                    forall|k: u32| 1 <= k < next ==> #[trigger] used@.contains(k),
                decreases used@.len() + 1 - next,
            {
                proof {
                    lemma_pigeonhole(used@, next as int);
                }
                next = next + 1;
            }
            let f = next;
            numbers.push(f);
            used.push(f);
            proof {
                assert forall|k: u32| 1 <= k < f implies #[trigger] in_use(e, old_numbers, i as int, k) by {
                    assert(old_used.contains(k));
                }
                lemma_numbered_extend(e, old_numbers, i as int, f);
                assert forall|k: u32| #[trigger] used@.contains(k) <==> in_use(e, numbers@, i + 1, k) by {
                    lemma_push_contains(old_used, f, k);
                    lemma_in_use_extend(e, old_numbers, i as int, f, k);
                }
                assert forall|k: u32| 1 <= k < next implies #[trigger] used@.contains(k) by {
                    lemma_push_contains(old_used, f, k);
                }
            }
        }
        i = i + 1;
    }
    // Pair every entry with its number, in numbering order.
    let mut rest = sorted;
    let mut out: Vec<MonitorDescriptor> = Vec::new();
    let mut k: usize = 0;
    while k < n
        invariant
            n == e.len(),
            k <= n,
            rest@ == e.subrange(k as int, n as int),
            numbers@.len() == n,
            out@.len() == k,
            forall|j: int| 0 <= j < k ==> entry_of(#[trigger] out@[j]) == e[j] && out@[j].number == numbers@[j],
        decreases n - k,
    {
        let (stable_id, windows_name, rect) = rest.remove(0);
        out.push(MonitorDescriptor { stable_id, windows_name, rect, number: numbers[k] });
        k = k + 1;
        assert(rest@ =~= e.subrange(k as int, n as int));
    }
    assert(entries_of(out@) =~= e);
    assert(numbers_of(out@) =~= numbers@);
    proof {
        assert forall|i: int, j: int|
            0 <= i < j < out@.len() implies #[trigger] out@[i].number != #[trigger] out@[j].number by {
            assert(out@[i].number == numbers@[i] && out@[j].number == numbers@[j]);
            if claims(e, j) {
                if claims(e, i) {
                    assert(carried(e, i) != carried(e, j));
                } else {
                    assert(fill_ok(e, numbers@, i));
                    assert(is_carried(e, numbers@[j]));
                }
            }
        }
    }
    out
}

/// What [`assign_friendly_numbers`] promises of its result `r` for the
/// monitors `m`.
pub open spec fn numbering_of(m: Seq<MonitorEntry>, r: Seq<MonitorDescriptor>) -> bool {
    &&& r.len() == m.len()
    &&& sorted_entries(entries_of(r))
    &&& entries_of(r).to_multiset() == m.to_multiset()
    &&& forall|i: int|
        0 <= i < r.len() && claims(entries_of(r), i) ==> Some(#[trigger] r[i].number) == carried(entries_of(r), i)
    &&& forall|i: int| 0 <= i < r.len() && !claims(entries_of(r), i) ==> #[trigger] fill_ok(entries_of(r), numbers_of(r), i)
    &&& forall|i: int, j: int| 0 <= i < j < r.len() ==> #[trigger] r[i].number != #[trigger] r[j].number
}

/// No two different monitors come level in numbering order.
pub open spec fn no_ties(m: Seq<MonitorEntry>) -> bool {
    forall|a: MonitorEntry, b: MonitorEntry|
        #![trigger m.contains(a), m.contains(b)]
        m.contains(a) && m.contains(b) && entry_le(a, b) && entry_le(b, a) ==> a == b
}

/// Two orderings of the same monitors, with no two different ones level,
/// sort to the same sequence.
proof fn lemma_sorted_is_unique(s1: Seq<MonitorEntry>, s2: Seq<MonitorEntry>)
    requires
        sorted_entries(s1),
        sorted_entries(s2),
        s1.to_multiset() == s2.to_multiset(),
        no_ties(s1),
    ensures
        s1 == s2,
    decreases s1.len(),
{
    broadcast use vstd::seq_lib::group_to_multiset_ensures;
    assert(s1.to_multiset().len() == s1.len());
    assert(s2.to_multiset().len() == s2.len());
    if s1.len() == 0 {
        assert(s2.len() == 0);
        assert(s1 =~= s2);
    } else {
        assert(s2.len() == s1.len());
        let a = s1[0];
        let b = s2[0];
        assert(s1.contains(a));
        assert(s2.to_multiset().count(a) > 0);
        assert(s2.contains(a));
        assert(s1.to_multiset().count(b) > 0);
        assert(s1.contains(b));
        let ia = choose|k: int| 0 <= k < s2.len() && s2[k] == a;
        let ib = choose|k: int| 0 <= k < s1.len() && s1[k] == b;
        if ia > 0 {
            assert(entry_le(s2[0], s2[ia]));
        } else {
            lemma_entry_reflexive(b);
        }
        if ib > 0 {
            assert(entry_le(s1[0], s1[ib]));
        } else {
            lemma_entry_reflexive(a);
        }
        assert(a == b);
        let t1 = s1.drop_first();
        let t2 = s2.drop_first();
        assert(t1 =~= s1.remove(0));
        assert(t2 =~= s2.remove(0));
        assert(t1.to_multiset() == t2.to_multiset());
        assert forall|x: MonitorEntry, y: MonitorEntry|
            t1.contains(x) && t1.contains(y) && entry_le(x, y) && entry_le(y, x) implies x == y by {
            let kx = choose|k: int| 0 <= k < t1.len() && t1[k] == x;
            let ky = choose|k: int| 0 <= k < t1.len() && t1[k] == y;
            assert(s1[kx + 1] == x);
            assert(s1[ky + 1] == y);
            assert(s1.contains(x) && s1.contains(y));
        }
        lemma_sorted_is_unique(t1, t2);
        assert(s1 =~= s2) by {
            assert forall|k: int| 0 <= k < s1.len() implies s1[k] == s2[k] by {
                if k > 0 {
                    assert(s1[k] == t1[k - 1]);
                    assert(s2[k] == t2[k - 1]);
                }
            }
        }
    }
}

proof fn lemma_entry_reflexive(a: MonitorEntry)
    ensures
        entry_le(a, a),
{
    lemma_lex_reflexive(a.0@);
    lemma_lex_reflexive(a.1@);
}

/// The numbers that the rules give sorted monitors are determined by them.
proof fn lemma_numbers_are_determined(e: Seq<MonitorEntry>, n1: Seq<u32>, n2: Seq<u32>, i: int)
    requires
        0 <= i <= e.len(),
        n1.len() == e.len(),
        n2.len() == e.len(),
        numbered_prefix(e, n1, e.len() as int),
        numbered_prefix(e, n2, e.len() as int),
    ensures
        n1.subrange(0, i) == n2.subrange(0, i),
    decreases i,
{
    if i > 0 {
        let j = i - 1;
        lemma_numbers_are_determined(e, n1, n2, j);
        assert forall|k: int| 0 <= k < j implies n1[k] == n2[k] by {
            assert(n1.subrange(0, j)[k] == n2.subrange(0, j)[k]);
        }
        if claims(e, j) {
            assert(Some(n1[j]) == carried(e, j));
            assert(Some(n2[j]) == carried(e, j));
        } else {
            assert(fill_ok(e, n1, j));
            assert(fill_ok(e, n2, j));
            if n1[j] < n2[j] {
                let k = n1[j];
                assert(1 <= k < n2[j]);
                assert(!is_carried(e, k));
                let j2 = choose|j2: int| 0 <= j2 < j && !claims(e, j2) && #[trigger] n2[j2] == k;
                assert(n1[j2] == k);
                assert(n1[j2] != n1[j]);
            } else if n2[j] < n1[j] {
                let k = n2[j];
                assert(1 <= k < n1[j]);
                assert(!is_carried(e, k));
                let j2 = choose|j2: int| 0 <= j2 < j && !claims(e, j2) && #[trigger] n1[j2] == k;
                assert(n2[j2] == k);
                assert(n2[j2] != n2[j]);
            }
        }
        assert(n1.subrange(0, i) =~= n2.subrange(0, i)) by {
            assert forall|k: int| 0 <= k < i implies n1.subrange(0, i)[k] == n2.subrange(0, i)[k] by {
                if k < j {
                    assert(n1[k] == n2[k]);
                }
            }
        }
    }
}

/// Monitor numbering does not depend on the order in which the monitors are
/// enumerated, where no two different monitors come level in numbering
/// order (same top, left, stable id and name).
pub proof fn lemma_numbering_ignores_enumeration_order(
    m1: Seq<MonitorEntry>,
    m2: Seq<MonitorEntry>,
    r1: Seq<MonitorDescriptor>,
    r2: Seq<MonitorDescriptor>,
)
    requires
        m1.to_multiset() == m2.to_multiset(),
        no_ties(m1),
        numbering_of(m1, r1),
        numbering_of(m2, r2),
    ensures
        r1 == r2,
{
    broadcast use vstd::seq_lib::group_to_multiset_ensures;
    let e1 = entries_of(r1);
    let e2 = entries_of(r2);
    assert forall|a: MonitorEntry, b: MonitorEntry|
        e1.contains(a) && e1.contains(b) && entry_le(a, b) && entry_le(b, a) implies a == b by {
        assert(e1.to_multiset().count(a) > 0);
        assert(e1.to_multiset().count(b) > 0);
        assert(m1.to_multiset().count(a) > 0);
        assert(m1.to_multiset().count(b) > 0);
        assert(m1.contains(a) && m1.contains(b));
    }
    lemma_sorted_is_unique(e1, e2);
    let n1 = numbers_of(r1);
    let n2 = numbers_of(r2);
    assert(numbered_prefix(e1, n1, e1.len() as int));
    assert(numbered_prefix(e1, n2, e1.len() as int)) by {
        assert forall|j1: int, j2: int| 0 <= j1 < j2 < e1.len() && !claims(e1, j2) implies #[trigger] n2[j1]
            != #[trigger] n2[j2] by {
            assert(r2[j1].number != r2[j2].number);
        }
    }
    lemma_numbers_are_determined(e1, n1, n2, e1.len() as int);
    assert(r1 =~= r2) by {
        assert forall|k: int| 0 <= k < r1.len() implies r1[k] == r2[k] by {
            assert(n1.subrange(0, e1.len() as int)[k] == n2.subrange(0, e1.len() as int)[k]);
            assert(e1[k] == e2[k]);
        }
    }
}

/// The native overlay windows that show each monitor's number. The program
/// supplies one for its platform.
pub trait NativeWindowBackend {
    type Handle: Copy;

    /// Opens the overlay for a monitor.
    fn create(&mut self, monitor: &MonitorDescriptor) -> Result<Self::Handle, String>;

    /// Closes an overlay.
    fn destroy(&mut self, handle: Self::Handle) -> Result<(), String>;

    /// Whether Escape was pressed since the last call. A backend that does
    /// not watch the keyboard never reports a press.
    fn escape_pressed(&mut self) -> (pressed: bool)
        default_ensures
            !pressed,
    {
        false
    }

    /// Handles pending window messages.
    fn pump_messages(&mut self) {
    }
}

/// The overlays on show, the count of times they were shown, and when they
/// close; times are monotonic nanoseconds.
pub struct Session<B: NativeWindowBackend> {
    pub backend: B,
    handles: Vec<B::Handle>,
    generation: u64,
    deadline: Option<u64>,
    opened: Ghost<Seq<MonitorDescriptor>>,
    refusals: Ghost<nat>,
}

impl<B: NativeWindowBackend> Session<B> {
    /// The overlays on show.
    pub closed spec fn shown(&self) -> Seq<B::Handle> {
        self.handles@
    }

    /// How many times overlays were shown.
    pub closed spec fn shows(&self) -> u64 {
        self.generation
    }

    /// When the overlays close.
    pub closed spec fn closes_at(&self) -> Option<u64> {
        self.deadline
    }

    /// The backend that opens and closes the overlays.
    pub closed spec fn window_backend(&self) -> B {
        self.backend
    }

    /// The monitors handed to the backend to open an overlay on, in order.
    pub closed spec fn opened(&self) -> Seq<MonitorDescriptor> {
        self.opened@
    }

    /// How many times the backend would not close an overlay.
    pub closed spec fn refusals(&self) -> nat {
        self.refusals@
    }

    /// Nothing shown yet.
    pub fn new(backend: B) -> (s: Self)
        ensures
            s.shown().len() == 0,
            s.shows() == 0,
            s.closes_at() is None,
            s.window_backend() == backend,
            s.opened().len() == 0,
            s.refusals() == 0,
    {
        Session {
            backend,
            handles: Vec::new(),
            generation: 0,
            deadline: None,
            opened: Ghost(Seq::empty()),
            refusals: Ghost(0),
        }
    }

    /// The number of overlays on show.
    pub fn handle_count(&self) -> (n: usize)
        ensures
            n == self.shown().len(),
    {
        self.handles.len()
    }

    /// Closes every overlay, in the order they were opened, and hands back
    /// the errors of those that would not close.
    pub fn close(&mut self) -> (errors: Vec<String>)
        ensures
            final(self).shown().len() == 0,
            final(self).closes_at() is None,
            final(self).shows() == old(self).shows(),
            final(self).opened() == old(self).opened(),
            final(self).refusals() == old(self).refusals() + errors@.len(),
            errors@.len() <= old(self).shown().len(),
    {
        self.deadline = None;
        let mut errors: Vec<String> = Vec::new();
        let n = self.handles.len();
        let mut i: usize = 0;
        while i < n
            invariant
                n == self.handles@.len(),
                i <= n,
                errors@.len() <= i,
                self.deadline is None,
                self.generation == old(self).generation,
                self.handles@ == old(self).handles@,
                self.opened@ == old(self).opened@,
                self.refusals@ == old(self).refusals@ + errors@.len(),
            decreases n - i,
        {
            let h = self.handles[i];
            match self.backend.destroy(h) {
                Ok(()) => {},
                Err(e) => {
                    errors.push(e);
                    proof {
                        self.refusals@ = self.refusals@ + 1;
                    }
                },
            }
            i = i + 1;
        }
        self.handles = Vec::new();
        errors
    }

    /// Shows an overlay on each monitor until `now` plus [`DISPLAY_TIME`],
    /// after closing those on show. Either every monitor gets its overlay and
    /// the closing time is set, or no overlay stays open; a failure to close
    /// the earlier overlays is reported though the new ones are up.
    pub fn show(&mut self, monitors: &[MonitorDescriptor], now: u64) -> (r: Result<u64, String>)
        requires
            now + DISPLAY_TIME <= u64::MAX,
        ensures
            exists|k: int|
                0 <= k <= monitors@.len() && final(self).opened() == old(self).opened() + monitors@.take(k) && (k
                    == monitors@.len() || final(self).shown().len() == 0 && r is Err),
            r is Ok <==> final(self).refusals() == old(self).refusals() && final(self).shown().len()
                == monitors@.len(),
            final(self).shows() == old(self).shows().wrapping_add(1),
            r matches Ok(g) ==> g == final(self).shows(),
            r is Ok ==> final(self).shown().len() == monitors@.len(),
            final(self).shown().len() == monitors@.len() && final(self).closes_at() == Some((now + DISPLAY_TIME) as u64)
                || final(self).shown().len() == 0 && final(self).closes_at() is None && r is Err,
    {
        let cleanup = self.close();
        self.generation = self.generation.wrapping_add(1);
        let ghost refusals_after_cleanup = self.refusals@;
        let mut i: usize = 0;
        while i < monitors.len()
            invariant
                i <= monitors@.len(),
                self.handles@.len() == i,
                self.deadline is None,
                self.generation == old(self).generation.wrapping_add(1),
                self.opened@ == old(self).opened@ + monitors@.take(i as int),
                self.refusals@ == refusals_after_cleanup,
                refusals_after_cleanup == old(self).refusals@ + cleanup@.len(),
            decreases monitors@.len() - i,
        {
            proof {
                self.opened@ = self.opened@.push(monitors@[i as int]);
                assert(monitors@.take(i + 1) =~= monitors@.take(i as int).push(monitors@[i as int]));
            }
            match self.backend.create(&monitors[i]) {
                Ok(h) => self.handles.push(h),
                Err(error) => {
                    let mut errors: Vec<String> = Vec::new();
                    errors.push(error);
                    let more = self.close();
                    let mut k: usize = 0;
                    while k < more.len()
                        invariant
                            k <= more@.len(),
                        decreases more@.len() - k,
                    {
                        errors.push(more[k].clone());
                        k = k + 1;
                    }
                    return Err(join_errors(&errors));
                },
            }
            i = i + 1;
        }
        self.deadline = Some(now + DISPLAY_TIME);
        if cleanup.len() == 0 {
            Ok(self.generation)
        } else {
            let mut out: Vec<char> = Vec::new();
            push_str(&mut out, "overlays replaced after cleanup errors: ");
            let joined = join_errors(&cleanup);
            push_str(&mut out, joined.as_str());
            Err(string_of(out.as_slice()))
        }
    }

    /// Handles window messages, and closes the overlays once their time is
    /// up or Escape was pressed while any is open; hands back the errors of
    /// closing.
    pub fn tick(&mut self, now: u64) -> (errors: Vec<String>)
        ensures
            final(self).shows() == old(self).shows(),
            (old(self).closes_at() matches Some(d) && now >= d) ==> final(self).shown().len() == 0
                && final(self).closes_at() is None,
            final(self).shown().len() == 0 || final(self).shown() == old(self).shown(),
            final(self).closes_at() is None || final(self).closes_at() == old(self).closes_at(),
            old(self).shown().len() == 0 && !(old(self).closes_at() matches Some(d) && now >= d)
                ==> final(self).shown() == old(self).shown() && final(self).closes_at() == old(self).closes_at()
                && errors@.len() == 0,
    {
        self.backend.pump_messages();
        let expired = match self.deadline {
            Some(d) => now >= d,
            None => false,
        };
        if expired || (self.handles.len() > 0 && self.backend.escape_pressed()) {
            self.close()
        } else {
            Vec::new()
        }
    }
}

/// Texts joined into one, with `"; "` between neighbours.
pub open spec fn joined(texts: Seq<Seq<char>>) -> Seq<char>
    decreases texts.len(),
{
    if texts.len() == 0 {
        Seq::empty()
    } else if texts.len() == 1 {
        texts[0]
    } else {
        joined(texts.drop_last()) + "; "@ + texts.last()
    }
}

/// Error texts joined with `"; "`.
fn join_errors(errors: &Vec<String>) -> (s: String)
    ensures
        s@ == joined(errors@.map_values(|e: String| e@)),
{
    let ghost texts = errors@.map_values(|e: String| e@);
    let mut out: Vec<char> = Vec::new();
    let mut i: usize = 0;
    while i < errors.len()
        invariant
            i <= errors@.len(),
            texts == errors@.map_values(|e: String| e@),
            out@ == joined(texts.take(i as int)),
        decreases errors@.len() - i,
    {
        proof {
            assert(texts.take(i + 1).drop_last() =~= texts.take(i as int));
            assert(texts.take(i + 1).last() == errors@[i as int]@);
            if i == 0 {
                assert(texts.take(0) =~= Seq::<Seq<char>>::empty());
            }
        }
        if i > 0 {
            push_str(&mut out, "; ");
        }
        push_str(&mut out, errors[i].as_str());
        proof {
            if i == 0 {
                assert(out@ =~= texts.take(1)[0]);
            }
        }
        i = i + 1;
    }
    proof {
        assert(texts.take(errors@.len() as int) =~= texts);
    }
    string_of(out.as_slice())
}

/// A request to the identification worker.
#[derive(Debug)]
pub enum Command {
    Show(Vec<MonitorDescriptor>),
    Close,
    Shutdown,
}

/// What the identification worker reports; times are monotonic nanoseconds.
#[derive(Clone, Debug)]
pub enum Status {
    Shown { generation: u64, expires_at: u64 },
    Closed,
    Error(String),
    ShutdownComplete,
}

impl Status {
    /// Whether whoever sent the worker a command still waits on it after
    /// this report: only while the overlays are on show.
    pub fn keeps_pending(&self) -> (b: bool)
        ensures
            b == (*self is Shown),
    {
        match self {
            Status::Shown { .. } => true,
            _ => false,
        }
    }
}

/// Reports that are all errors.
pub open spec fn all_errors(s: Seq<Status>) -> bool {
    forall|i: int| 0 <= i < s.len() ==> #[trigger] s[i] is Error
}

/// Errors, then one report that the overlays closed.
pub open spec fn errors_then_closed(s: Seq<Status>) -> bool {
    &&& s.len() >= 1
    &&& s.last() is Closed
    &&& all_errors(s.drop_last())
}

/// The reports of one turn of the identification worker, in the order they
/// are sent, and whether it keeps running.
pub struct WorkerTurn {
    pub statuses: Vec<Status>,
    pub running: bool,
}

/// Appends one error report for each text, in order.
fn push_errors(statuses: &mut Vec<Status>, errors: Vec<String>)
    ensures
        final(statuses)@.len() == old(statuses)@.len() + errors@.len(),
        final(statuses)@.take(old(statuses)@.len() as int) == old(statuses)@,
        forall|i: int| 0 <= i < errors@.len() ==> #[trigger] final(statuses)@[old(statuses)@.len() + i]
            == Status::Error(errors@[i]),
{
    let ghost start = statuses@;
    let mut i: usize = 0;
    while i < errors.len()
        invariant
            i <= errors@.len(),
            statuses@.len() == start.len() + i,
            statuses@.take(start.len() as int) == start,
            forall|j: int| 0 <= j < i ==> #[trigger] statuses@[start.len() + j] == Status::Error(errors@[j]),
        decreases errors@.len() - i,
    {
        statuses.push(Status::Error(errors[i].clone()));
        proof {
            assert(statuses@.take(start.len() as int) =~= start);
        }
        i = i + 1;
    }
}

impl<B: NativeWindowBackend> Session<B> {
    /// One turn of the identification worker: acts on what came in at
    /// `received_at` (a command, nothing, or the news that no command can
    /// come any more), then handles window messages at `ticked_at`, and says
    /// what to report and whether to go on.
    pub fn handle(&mut self, input: Received<Command>, received_at: u64, ticked_at: u64) -> (turn: WorkerTurn)
        requires
            received_at + DISPLAY_TIME <= u64::MAX,
        ensures
            turn.running == !(input is Disconnected || input matches Received::Message(Command::Shutdown)),
            final(self).closes_at() matches Some(d) ==> ticked_at < d,
            final(self).shows() == if input matches Received::Message(Command::Show(_)) {
                old(self).shows().wrapping_add(1)
            } else {
                old(self).shows()
            },
            input matches Received::Message(Command::Show(_)) ==> {
                &&& turn.statuses@.len() >= 1
                &&& turn.statuses@[0] is Error || turn.statuses@[0] == (Status::Shown {
                    generation: final(self).shows(),
                    expires_at: (received_at + DISPLAY_TIME) as u64,
                })
                &&& all_errors(turn.statuses@.skip(1)) || errors_then_closed(turn.statuses@.skip(1))
                &&& errors_then_closed(turn.statuses@.skip(1)) ==> final(self).closes_at() is None
            },
            input matches Received::Message(Command::Close) ==> {
                &&& errors_then_closed(turn.statuses@)
                &&& final(self).shown().len() == 0
                &&& final(self).closes_at() is None
            },
            (input is Disconnected || input matches Received::Message(Command::Shutdown)) ==> {
                &&& all_errors(turn.statuses@)
                &&& final(self).shown().len() == 0
                &&& final(self).closes_at() is None
            },
            input is Empty ==> {
                &&& all_errors(turn.statuses@) || errors_then_closed(turn.statuses@)
                &&& errors_then_closed(turn.statuses@) <==> (old(self).closes_at() is Some
                    && final(self).closes_at() is None)
            },
            input is Empty && old(self).shown().len() == 0 && !(old(self).closes_at() matches Some(d)
                && ticked_at >= d) ==> turn.statuses@.len() == 0 && final(self).closes_at()
                == old(self).closes_at(),
    {
        let mut statuses: Vec<Status> = Vec::new();
        let mut running = true;
        match input {
            Received::Message(Command::Show(monitors)) => {
                match self.show(monitors.as_slice(), received_at) {
                    Ok(generation) => {
                        let expires_at = match self.deadline {
                            Some(d) => d,
                            None => received_at,
                        };
                        statuses.push(Status::Shown { generation, expires_at });
                    },
                    Err(e) => statuses.push(Status::Error(e)),
                }
            },
            Received::Message(Command::Close) => {
                let errors = self.close();
                push_errors(&mut statuses, errors);
                let ghost errs = statuses@;
                statuses.push(Status::Closed);
                proof {
                    assert(statuses@.drop_last() =~= errs);
                    assert forall|k: int| 0 <= k < errs.len() implies #[trigger] errs[k] is Error by {
                        assert(errs[0 + k] is Error);
                    }
                }
            },
            Received::Message(Command::Shutdown) | Received::Disconnected => {
                let errors = self.close();
                push_errors(&mut statuses, errors);
                proof {
                    assert forall|k: int| 0 <= k < statuses@.len() implies #[trigger] statuses@[k] is Error by {
                        assert(statuses@[0 + k] is Error);
                    }
                }
                running = false;
            },
            Received::Empty => {},
        }
        let ghost before_tick = statuses@;
        let was_open = self.deadline.is_some();
        let errors = self.tick(ticked_at);
        push_errors(&mut statuses, errors);
        let ghost after_tick = statuses@;
        let ghost b = before_tick.len() as int;
        proof {
            assert forall|k: int| 0 <= k < after_tick.skip(b).len() implies #[trigger] after_tick.skip(b)[k] is Error by {
                assert(after_tick.skip(b)[k] == after_tick[b + k]);
            }
            assert forall|k: int| 0 <= k < b implies #[trigger] after_tick[k] == before_tick[k] by {
                assert(after_tick.take(b)[k] == after_tick[k]);
            }
        }
        if was_open && self.deadline.is_none() {
            statuses.push(Status::Closed);
            proof {
                assert(statuses@.skip(b).drop_last() =~= after_tick.skip(b));
                assert(statuses@.drop_last() =~= after_tick);
            }
        } else {
            proof {
                assert(statuses@.skip(b) =~= after_tick.skip(b));
                if statuses@.skip(b).len() > 0 {
                    assert(statuses@.skip(b).last() is Error);
                }
            }
        }
        proof {
            if b == 0 {
                assert(statuses@.skip(b) =~= statuses@);
            }
        }
        WorkerTurn { statuses, running }
    }
}

} // verus!
