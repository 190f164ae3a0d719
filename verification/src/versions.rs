//! Versions of toolchain installations: parsing, ordering, range membership.
use vstd::prelude::*;

use core::cmp::Ordering;

verus! {

// ////////////////////////////////////////////////////////////////////////
// The mathematical model of a version.
//
// A version is a sequence of numeric components, most significant first.
// For comparison, components past the end of the shorter sequence count as
// zero, so `1.0` and `1.0.0.0` denote the same ordering position.
// ////////////////////////////////////////////////////////////////////////

/// Component `i` of a version, where components beyond the stored
/// sequence count as zero.
pub open spec fn part_at(parts: Seq<u64>, i: int) -> u64 {
    if 0 <= i < parts.len() {
        parts[i]
    } else {
        0u64
    }
}

/// Two versions denote the same ordering position: they agree on every
/// component once the shorter sequence is padded with zeros.
pub open spec fn ver_eq(a: Seq<u64>, b: Seq<u64>) -> bool {
    forall|i: int| #![trigger part_at(a, i)] #![trigger part_at(b, i)] part_at(a, i) == part_at(
        b,
        i,
    )
}

/// `i` witnesses that `a` is strictly below `b`: the components agree
/// before `i` and `a` is smaller at `i`.
pub open spec fn lt_witness(a: Seq<u64>, b: Seq<u64>, i: int) -> bool {
    &&& 0 <= i
    &&& part_at(a, i) < part_at(b, i)
    &&& forall|j: int| 0 <= j < i ==> part_at(a, j) == part_at(b, j)
}

/// `a` is strictly below `b` in the component-wise order.
pub open spec fn ver_lt(a: Seq<u64>, b: Seq<u64>) -> bool {
    exists|i: int| lt_witness(a, b, i)
}

/// `a` is below or equivalent to `b`.
pub open spec fn ver_le(a: Seq<u64>, b: Seq<u64>) -> bool {
    ver_lt(a, b) || ver_eq(a, b)
}

/// Membership in a version range: below the exclusive upper bound (when one
/// is given) and at or above the inclusive lower bound (when one is given).
pub open spec fn ver_in_range(v: Seq<u64>, max: Option<Seq<u64>>, min: Option<Seq<u64>>) -> bool {
    &&& match max {
        Some(m) => ver_lt(v, m),
        None => true,
    }
    &&& match min {
        Some(m) => ver_le(m, v),
        None => true,
    }
}

// ////////////////////////////////////////////////////////////////////////
// The order is total; these lemmas are used by the comparison routines and
// by the selection algorithm.
// ////////////////////////////////////////////////////////////////////////

/// An equivalence at every component rules out a strict difference.
proof fn lemma_eq_not_lt(a: Seq<u64>, b: Seq<u64>)
    requires
        ver_eq(a, b),
    ensures
        !ver_lt(a, b),
{
    if ver_lt(a, b) {
        let i = choose|i: int| lt_witness(a, b, i);
        assert(part_at(a, i) == part_at(b, i));
    }
}

/// If the components agree before `i` and `a` is larger at `i`, then `a` is
/// strictly above `b` and in particular not below it.
proof fn lemma_first_diff_gt(a: Seq<u64>, b: Seq<u64>, i: int)
    requires
        0 <= i,
        forall|j: int| 0 <= j < i ==> part_at(a, j) == part_at(b, j),
        part_at(a, i) > part_at(b, i),
    ensures
        ver_lt(b, a),
        !ver_lt(a, b),
        !ver_eq(a, b),
{
    assert(lt_witness(b, a, i));
    if ver_lt(a, b) {
        let k = choose|k: int| lt_witness(a, b, k);
        if k < i {
            assert(part_at(a, k) == part_at(b, k));
        } else if k > i {
            assert(part_at(a, i) == part_at(b, i));
        }
    }
}

proof fn lemma_total_from(a: Seq<u64>, b: Seq<u64>, i: int)
    requires
        0 <= i,
        forall|j: int| 0 <= j < i ==> part_at(a, j) == part_at(b, j),
    ensures
        ver_lt(a, b) || ver_lt(b, a) || ver_eq(a, b),
    decreases a.len() + b.len() - i,
{
    if i >= a.len() && i >= b.len() {
        assert forall|k: int| part_at(a, k) == part_at(b, k) by {
            if 0 <= k < i {
                assert(part_at(a, k) == part_at(b, k));
            }
        }
    } else if part_at(a, i) < part_at(b, i) {
        assert(lt_witness(a, b, i));
    } else if part_at(a, i) > part_at(b, i) {
        assert(lt_witness(b, a, i));
    } else {
        lemma_total_from(a, b, i + 1);
    }
}

/// The component-wise order is total: any two versions are comparable, a
/// strict difference is asymmetric, and equivalence excludes strictness.
pub proof fn lemma_version_order_total(a: Seq<u64>, b: Seq<u64>)
    ensures
        ver_le(a, b) || ver_le(b, a),
        ver_lt(a, b) ==> !ver_lt(b, a) && !ver_eq(a, b),
        ver_eq(a, b) ==> !ver_lt(a, b) && !ver_lt(b, a),
{
    lemma_total_from(a, b, 0);
    if ver_lt(a, b) {
        let i = choose|i: int| lt_witness(a, b, i);
        lemma_first_diff_gt(b, a, i);
    }
    if ver_eq(a, b) {
        lemma_eq_not_lt(a, b);
        assert forall|k: int| part_at(b, k) == part_at(a, k) by {
            assert(part_at(a, k) == part_at(b, k));
        }
        lemma_eq_not_lt(b, a);
    }
}

/// The order is transitive on `ver_le`, and a strict step on either side of
/// a `ver_le` keeps the result strict.
pub proof fn lemma_ver_le_trans(a: Seq<u64>, b: Seq<u64>, c: Seq<u64>)
    requires
        ver_le(a, b),
        ver_le(b, c),
    ensures
        ver_le(a, c),
{
    if ver_lt(a, b) && ver_lt(b, c) {
        let i1 = choose|i: int| lt_witness(a, b, i);
        let i2 = choose|i: int| lt_witness(b, c, i);
        if i1 < i2 {
            assert(part_at(b, i1) == part_at(c, i1));
            assert(lt_witness(a, c, i1));
        } else if i1 == i2 {
            assert(lt_witness(a, c, i1));
        } else {
            assert(part_at(a, i2) == part_at(b, i2));
            assert(lt_witness(a, c, i2));
        }
    } else if ver_lt(a, b) && ver_eq(b, c) {
        let i1 = choose|i: int| lt_witness(a, b, i);
        assert(part_at(b, i1) == part_at(c, i1));
        assert forall|j: int| 0 <= j < i1 implies part_at(a, j) == part_at(c, j) by {
            assert(part_at(a, j) == part_at(b, j));
            assert(part_at(b, j) == part_at(c, j));
        }
        assert(lt_witness(a, c, i1));
    } else if ver_eq(a, b) && ver_lt(b, c) {
        let i2 = choose|i: int| lt_witness(b, c, i);
        assert(part_at(a, i2) == part_at(b, i2));
        assert forall|j: int| 0 <= j < i2 implies part_at(a, j) == part_at(c, j) by {
            assert(part_at(a, j) == part_at(b, j));
            assert(part_at(b, j) == part_at(c, j));
        }
        assert(lt_witness(a, c, i2));
    } else {
        assert(ver_eq(a, b) && ver_eq(b, c));
        assert forall|k: int|
            #![trigger part_at(a, k)]
            #![trigger part_at(c, k)]
            part_at(a, k) == part_at(c, k) by {
            assert(part_at(a, k) == part_at(b, k));
            assert(part_at(b, k) == part_at(c, k));
        }
    }
}

/// Equivalence of versions is symmetric.
pub proof fn lemma_ver_eq_sym(a: Seq<u64>, b: Seq<u64>)
    ensures
        ver_eq(a, b) == ver_eq(b, a),
{
    if ver_eq(a, b) {
        assert forall|i: int|
            #![trigger part_at(b, i)]
            #![trigger part_at(a, i)]
            part_at(b, i) == part_at(a, i) by {
            assert(part_at(a, i) == part_at(b, i));
        }
    }
    if ver_eq(b, a) {
        assert forall|i: int|
            #![trigger part_at(a, i)]
            #![trigger part_at(b, i)]
            part_at(a, i) == part_at(b, i) by {
            assert(part_at(b, i) == part_at(a, i));
        }
    }
}

/// A version with no bounds on either side is always in range.
pub proof fn lemma_in_range_unbounded(v: Seq<u64>)
    ensures
        ver_in_range(v, None, None),
{
}

/// With only an exclusive upper bound, membership fails exactly when the
/// version is at or above the bound; in particular the bound itself is out
/// of range.
pub proof fn lemma_max_bound_exclusive(v: Seq<u64>, max: Seq<u64>)
    ensures
        ver_in_range(v, Some(max), None) <==> !ver_le(max, v),
        !ver_in_range(max, Some(max), None),
{
    lemma_version_order_total(v, max);
    lemma_version_order_total(max, v);
    lemma_ver_eq_sym(v, max);
    assert(ver_eq(max, max));
}

/// With only an inclusive lower bound, membership holds exactly when the
/// version is at or above the bound; in particular the bound itself is in
/// range.
pub proof fn lemma_min_bound_inclusive(v: Seq<u64>, min: Seq<u64>)
    ensures
        ver_in_range(v, None, Some(min)) <==> ver_le(min, v),
        ver_in_range(min, None, Some(min)),
{
    assert(ver_eq(min, min));
}

/// Appending a zero component to a version does not change its ordering
/// position: `1.0` and `1.0.0.0` compare as equivalent.
pub proof fn lemma_trailing_zero_equiv(parts: Seq<u64>)
    ensures
        ver_eq(parts, parts.push(0u64)),
{
    assert forall|i: int|
        #![trigger part_at(parts, i)]
        #![trigger part_at(parts.push(0u64), i)]
        part_at(parts, i) == part_at(parts.push(0u64), i) by {
        if 0 <= i < parts.len() {
            assert(parts.push(0u64)[i] == parts[i]);
        } else if i == parts.len() {
            assert(parts.push(0u64)[i] == 0u64);
        }
    }
}

// ////////////////////////////////////////////////////////////////////////
// The grammar of a version string.
//
// A version string is split on `.` into segments.  Each segment contributes
// one numeric component: the value of its longest leading run of decimal
// digits; a segment without leading digits contributes zero, and characters
// after the digit run are tolerated.  A string parses when at least one
// segment has a leading digit and every segment value fits in a `u64`.
// ////////////////////////////////////////////////////////////////////////

/// `c` is a decimal digit.
pub open spec fn is_digit_char(c: char) -> bool {
    48 <= c as u32 && c as u32 <= 57
}

/// The numeric value of a digit character.
pub open spec fn digit_of(c: char) -> int {
    c as u32 - 48
}

/// Index of the first `.` in `s`, or `-1` when there is none.
pub open spec fn first_dot(s: Seq<char>) -> int
    decreases s.len(),
{
    if s.len() == 0 {
        -1
    } else if s[0] == '.' {
        0
    } else if first_dot(s.drop_first()) < 0 {
        -1
    } else {
        first_dot(s.drop_first()) + 1
    }
}

proof fn lemma_first_dot_spec(s: Seq<char>)
    ensures
        first_dot(s) < 0 ==> forall|k: int| 0 <= k < s.len() ==> s[k] != '.',
        first_dot(s) >= 0 ==> first_dot(s) < s.len() && s[first_dot(s)] == '.',
    decreases s.len(),
{
    if s.len() == 0 {
    } else if s[0] == '.' {
    } else {
        lemma_first_dot_spec(s.drop_first());
        if first_dot(s) < 0 {
            assert forall|k: int| 0 <= k < s.len() implies s[k] != '.' by {
                if k > 0 {
                    assert(s.drop_first()[k - 1] == s[k]);
                }
            }
        } else {
            assert(s.drop_first()[first_dot(s.drop_first())] == s[first_dot(s)]);
        }
    }
}

proof fn lemma_first_dot_is(s: Seq<char>, i: int)
    requires
        0 <= i < s.len(),
        s[i] == '.',
        forall|k: int| 0 <= k < i ==> s[k] != '.',
    ensures
        first_dot(s) == i,
    decreases s.len(),
{
    if i == 0 {
    } else {
        assert(s[0] != '.');
        assert(s.drop_first()[i - 1] == s[i]);
        assert forall|k: int| 0 <= k < i - 1 implies s.drop_first()[k] != '.' by {
            assert(s.drop_first()[k] == s[k + 1]);
        }
        lemma_first_dot_is(s.drop_first(), i - 1);
    }
}

proof fn lemma_first_dot_none(s: Seq<char>)
    requires
        forall|k: int| 0 <= k < s.len() ==> s[k] != '.',
    ensures
        first_dot(s) < 0,
    decreases s.len(),
{
    if s.len() > 0 {
        assert(s[0] != '.');
        assert forall|k: int| 0 <= k < s.drop_first().len() implies s.drop_first()[k] != '.' by {
            assert(s.drop_first()[k] == s[k + 1]);
        }
        lemma_first_dot_none(s.drop_first());
    }
}

/// The segments of `s`, split on `.`; a string without dots is one segment.
pub open spec fn split_at_dots(s: Seq<char>) -> Seq<Seq<char>>
    decreases s.len(),
    via split_at_dots_decreases
{
    if first_dot(s) < 0 {
        seq![s]
    } else {
        seq![s.take(first_dot(s))] + split_at_dots(s.skip(first_dot(s) + 1))
    }
}

#[via_fn]
proof fn split_at_dots_decreases(s: Seq<char>) {
    lemma_first_dot_spec(s);
}

/// Length of the longest run of digits at the start of a segment.
pub open spec fn digit_run_len(seg: Seq<char>) -> int
    decreases seg.len(),
{
    if seg.len() == 0 || !is_digit_char(seg[0]) {
        0
    } else {
        1 + digit_run_len(seg.drop_first())
    }
}

/// Value of the first `n` characters of a segment read as decimal digits,
/// most significant first.
pub open spec fn prefix_value(seg: Seq<char>, n: int) -> int
    decreases n,
{
    if n <= 0 {
        0
    } else {
        prefix_value(seg, n - 1) * 10 + digit_of(seg[n - 1])
    }
}

/// The numeric component a segment contributes: the value of its leading
/// digit run, zero when the run is empty.
pub open spec fn seg_value(seg: Seq<char>) -> int {
    prefix_value(seg, digit_run_len(seg))
}

/// The segment starts with at least one digit.
pub open spec fn seg_has_digit(seg: Seq<char>) -> bool {
    digit_run_len(seg) > 0
}

/// A version string is accepted when some segment starts with a digit and
/// every segment value fits in a `u64`.
pub open spec fn parse_accepted(s: Seq<char>) -> bool {
    &&& exists|k: int|
        0 <= k < split_at_dots(s).len() && seg_has_digit(#[trigger] split_at_dots(s)[k])
    &&& forall|k: int|
        0 <= k < split_at_dots(s).len() ==> seg_value(#[trigger] split_at_dots(s)[k]) <= u64::MAX
}

/// The components an accepted version string denotes.
pub open spec fn version_parts(s: Seq<char>) -> Seq<u64> {
    split_at_dots(s).map_values(|seg: Seq<char>| seg_value(seg) as u64)
}

proof fn lemma_digit_run_bounds(seg: Seq<char>)
    ensures
        0 <= digit_run_len(seg) <= seg.len(),
        forall|k: int| 0 <= k < digit_run_len(seg) ==> is_digit_char(seg[k]),
        digit_run_len(seg) < seg.len() ==> !is_digit_char(seg[digit_run_len(seg)]),
    decreases seg.len(),
{
    if seg.len() == 0 || !is_digit_char(seg[0]) {
    } else {
        lemma_digit_run_bounds(seg.drop_first());
        assert forall|k: int| 0 <= k < digit_run_len(seg) implies is_digit_char(seg[k]) by {
            if k > 0 {
                assert(seg.drop_first()[k - 1] == seg[k]);
            }
        }
        if digit_run_len(seg) < seg.len() {
            assert(seg.drop_first()[digit_run_len(seg.drop_first())] == seg[digit_run_len(seg)]);
        }
    }
}

proof fn lemma_digit_run_is(seg: Seq<char>, n: int)
    requires
        0 <= n <= seg.len(),
        forall|k: int| 0 <= k < n ==> is_digit_char(seg[k]),
        n == seg.len() || !is_digit_char(seg[n]),
    ensures
        digit_run_len(seg) == n,
    decreases seg.len(),
{
    if n == 0 {
    } else {
        assert(is_digit_char(seg[0]));
        assert forall|k: int| 0 <= k < n - 1 implies is_digit_char(seg.drop_first()[k]) by {
            assert(seg.drop_first()[k] == seg[k + 1]);
        }
        if n < seg.len() {
            assert(seg.drop_first()[n - 1] == seg[n]);
        }
        lemma_digit_run_is(seg.drop_first(), n - 1);
    }
}

proof fn lemma_digit_run_at_least(seg: Seq<char>, m: int)
    requires
        0 <= m <= seg.len(),
        forall|k: int| 0 <= k < m ==> is_digit_char(seg[k]),
    ensures
        digit_run_len(seg) >= m,
    decreases m,
{
    if m > 0 {
        assert(is_digit_char(seg[0]));
        assert forall|k: int| 0 <= k < m - 1 implies is_digit_char(seg.drop_first()[k]) by {
            assert(seg.drop_first()[k] == seg[k + 1]);
        }
        lemma_digit_run_at_least(seg.drop_first(), m - 1);
    } else {
        lemma_digit_run_bounds(seg);
    }
}

proof fn lemma_prefix_value_nonneg(seg: Seq<char>, n: int)
    requires
        forall|k: int| 0 <= k < n ==> is_digit_char(seg[k]),
    ensures
        prefix_value(seg, n) >= 0,
    decreases n,
{
    if n > 0 {
        lemma_prefix_value_nonneg(seg, n - 1);
        assert(is_digit_char(seg[n - 1]));
        assert(prefix_value(seg, n) == prefix_value(seg, n - 1) * 10 + digit_of(seg[n - 1]));
    }
}

proof fn lemma_prefix_value_mono(seg: Seq<char>, m: int, n: int)
    requires
        0 <= m <= n,
        forall|k: int| 0 <= k < n ==> is_digit_char(seg[k]),
    ensures
        0 <= prefix_value(seg, m) <= prefix_value(seg, n),
    decreases n - m,
{
    lemma_prefix_value_nonneg(seg, m);
    if m < n {
        lemma_prefix_value_mono(seg, m, n - 1);
        assert(is_digit_char(seg[n - 1]));
        assert(prefix_value(seg, n) == prefix_value(seg, n - 1) * 10 + digit_of(seg[n - 1]));
    }
}

// ////////////////////////////////////////////////////////////////////////
// The executable parser.
// ////////////////////////////////////////////////////////////////////////

/// Reads the leading digit run of the segment `s[start..end]`.  Returns the
/// run's value and whether the run is non-empty, or `None` when the value
/// does not fit in a `u64`.
fn parse_segment_value(s: &str, start: usize, end: usize) -> (r: Option<(u64, bool)>)
    requires
        start <= end <= s@.len(),
    ensures
        ({
            let seg = s@.subrange(start as int, end as int);
            match r {
                Some(p) => p.0 == seg_value(seg) && p.1 == seg_has_digit(seg),
                None => seg_value(seg) > u64::MAX,
            }
        }),
{
    let ghost seg = s@.subrange(start as int, end as int);
    let mut j: usize = start;
    let mut acc: u64 = 0;
    while j < end
        invariant
            start <= j <= end <= s@.len(),
            seg == s@.subrange(start as int, end as int),
            forall|k: int| 0 <= k < j - start ==> is_digit_char(seg[k]),
            acc == prefix_value(seg, j - start),
        decreases end - j,
    {
        let c: char = s.get_char(j);
        proof {
            assert(seg[j - start] == s@[j as int]);
        }
        if !(c as u32 >= 48 && c as u32 <= 57) {
            proof {
                lemma_digit_run_is(seg, j - start);
            }
            return Some((acc, j > start));
        }
        let d: u64 = ((c as u32) - 48) as u64;
        let next: Option<u64> = match acc.checked_mul(10) {
            Some(t) => t.checked_add(d),
            None => None,
        };
        match next {
            Some(v) => {
                proof {
                    assert(prefix_value(seg, j - start + 1) == prefix_value(seg, j - start) * 10
                        + digit_of(seg[j - start]));
                }
                acc = v;
            },
            None => {
                proof {
                    let m = j - start + 1;
                    assert(prefix_value(seg, m) == prefix_value(seg, m - 1) * 10 + digit_of(
                        seg[m - 1],
                    ));
                    assert(prefix_value(seg, m) > u64::MAX);
                    lemma_digit_run_at_least(seg, m);
                    lemma_digit_run_bounds(seg);
                    lemma_prefix_value_mono(seg, m, digit_run_len(seg));
                }
                return None;
            },
        }
        j = j + 1;
    }
    proof {
        lemma_digit_run_is(seg, j - start);
    }
    Some((acc, end > start))
}

/// Parses all segments of `s`.  Returns the component of each segment and
/// whether any segment has a leading digit, or `None` when some segment
/// value does not fit in a `u64`.
pub(crate) fn parse_components(s: &str) -> (r: Option<(Vec<u64>, bool)>)
    ensures
        ({
            let segs = split_at_dots(s@);
            match r {
                Some(p) => {
                    &&& p.0@.len() == segs.len()
                    &&& forall|k: int|
                        0 <= k < segs.len() ==> p.0@[k] == seg_value(#[trigger] segs[k])
                    &&& p.1 == exists|k: int|
                        0 <= k < segs.len() && seg_has_digit(#[trigger] segs[k])
                },
                None => exists|k: int|
                    0 <= k < segs.len() && seg_value(#[trigger] segs[k]) > u64::MAX,
            }
        }),
    decreases s@.len(),
{
    let n: usize = s.unicode_len();
    let mut i: usize = 0;
    let mut found: bool = false;
    while i < n
        invariant_except_break
            !found,
        invariant
            i <= n,
            n == s@.len(),
            forall|k: int| 0 <= k < i ==> s@[k] != '.',
        ensures
            found ==> i < n && s@[i as int] == '.',
            !found ==> i == n,
        decreases n - i,
    {
        let c: char = s.get_char(i);
        if c == '.' {
            found = true;
            break ;
        }
        i = i + 1;
    }
    let ghost segs = split_at_dots(s@);
    if !found {
        proof {
            lemma_first_dot_none(s@);
            assert(segs =~= seq![s@]);
            assert(s@.subrange(0, n as int) =~= s@);
        }
        match parse_segment_value(s, 0, n) {
            Some(p) => {
                let mut parts: Vec<u64> = Vec::new();
                parts.push(p.0);
                proof {
                    assert(segs[0] == s@);
                    if p.1 {
                        assert(seg_has_digit(segs[0]));
                    }
                }
                Some((parts, p.1))
            },
            None => {
                proof {
                    assert(seg_value(segs[0]) > u64::MAX);
                }
                None
            },
        }
    } else {
        proof {
            lemma_first_dot_is(s@, i as int);
            assert(segs =~= seq![s@.take(i as int)] + split_at_dots(s@.skip(i + 1)));
            assert(s@.subrange(0, i as int) =~= s@.take(i as int));
        }
        match parse_segment_value(s, 0, i) {
            None => {
                proof {
                    assert(segs[0] == s@.take(i as int));
                    assert(seg_value(segs[0]) > u64::MAX);
                }
                None
            },
            Some(head) => {
                let rest = s.substring_char(i + 1, n);
                proof {
                    assert(rest@ =~= s@.skip(i + 1));
                }
                let ghost rest_segs = split_at_dots(rest@);
                proof {
                    assert(segs =~= seq![s@.take(i as int)] + rest_segs);
                    assert(segs.len() == 1 + rest_segs.len());
                    assert(segs[0] == s@.take(i as int));
                    assert forall|k: int| 1 <= k < segs.len() implies segs[k] == rest_segs[k
                        - 1] by {}
                }
                match parse_components(rest) {
                    None => {
                        proof {
                            let k = choose|k: int|
                                0 <= k < rest_segs.len() && seg_value(#[trigger] rest_segs[k])
                                    > u64::MAX;
                            assert(segs[k + 1] == rest_segs[k]);
                            assert(seg_value(segs[k + 1]) > u64::MAX);
                        }
                        None
                    },
                    Some(rest_parts) => {
                        let mut parts: Vec<u64> = rest_parts.0;
                        parts.insert(0, head.0);
                        let any: bool = head.1 || rest_parts.1;
                        proof {
                            assert(parts@ =~= seq![head.0] + rest_parts.0@);
                            assert forall|k: int| 0 <= k < segs.len() implies parts@[k]
                                == seg_value(#[trigger] segs[k]) by {
                                if k == 0 {
                                    assert(parts@[0] == head.0);
                                } else {
                                    assert(segs[k] == rest_segs[k - 1]);
                                    assert(parts@[k] == rest_parts.0@[k - 1]);
                                }
                            }
                            if any == (exists|k: int|
                                0 <= k < segs.len() && seg_has_digit(#[trigger] segs[k])) {
                            } else if any {
                                if head.1 {
                                    assert(seg_has_digit(segs[0]));
                                } else {
                                    let k = choose|k: int|
                                        0 <= k < rest_segs.len() && seg_has_digit(
                                            #[trigger] rest_segs[k],
                                        );
                                    assert(seg_has_digit(segs[k + 1]));
                                }
                                assert(false);
                            } else {
                                let k = choose|k: int|
                                    0 <= k < segs.len() && seg_has_digit(#[trigger] segs[k]);
                                if k == 0 {
                                    assert(head.1);
                                } else {
                                    assert(rest_segs[k - 1] == segs[k]);
                                    assert(rest_parts.1);
                                }
                                assert(false);
                            }
                        }
                        Some((parts, any))
                    },
                }
            },
        }
    }
}

// ////////////////////////////////////////////////////////////////////////
// Executable comparison of component sequences.
// ////////////////////////////////////////////////////////////////////////

/// Strict comparison of two component sequences.
pub(crate) fn parts_lt(a: &Vec<u64>, b: &Vec<u64>) -> (r: bool)
    ensures
        r == ver_lt(a@, b@),
{
    let na: usize = a.len();
    let nb: usize = b.len();
    let n: usize = if na > nb {
        na
    } else {
        nb
    };
    let mut i: usize = 0;
    while i < n
        invariant
            i <= n,
            n == a@.len() || n == b@.len(),
            a@.len() <= n,
            b@.len() <= n,
            forall|j: int| 0 <= j < i ==> part_at(a@, j) == part_at(b@, j),
        decreases n - i,
    {
        let pa: u64 = if i < a.len() {
            a[i]
        } else {
            0
        };
        let pb: u64 = if i < b.len() {
            b[i]
        } else {
            0
        };
        if pa < pb {
            proof {
                assert(lt_witness(a@, b@, i as int));
            }
            return true;
        }
        if pa > pb {
            proof {
                lemma_first_diff_gt(a@, b@, i as int);
            }
            return false;
        }
        i = i + 1;
    }
    proof {
        assert forall|k: int| part_at(a@, k) == part_at(b@, k) by {
            if 0 <= k < n {
                assert(part_at(a@, k) == part_at(b@, k));
            }
        }
        lemma_eq_not_lt(a@, b@);
    }
    false
}

/// Non-strict comparison of two component sequences.
pub(crate) fn parts_le(a: &Vec<u64>, b: &Vec<u64>) -> (r: bool)
    ensures
        r == ver_le(a@, b@),
{
    let lt_ba: bool = parts_lt(b, a);
    proof {
        lemma_version_order_total(a@, b@);
    }
    !lt_ba
}

/// Non-strict comparison of two versions.
pub(crate) fn version_le(a: &VsInstallationVersion, b: &VsInstallationVersion) -> (r: bool)
    ensures
        r == ver_le(a@, b@),
{
    parts_le(a.parts(), b.parts())
}

/// Equivalence of two component sequences.
fn parts_eq(a: &Vec<u64>, b: &Vec<u64>) -> (r: bool)
    ensures
        r == ver_eq(a@, b@),
{
    let lt_ab: bool = parts_lt(a, b);
    let lt_ba: bool = parts_lt(b, a);
    proof {
        lemma_version_order_total(a@, b@);
    }
    !lt_ab && !lt_ba
}

// ////////////////////////////////////////////////////////////////////////
// The version of a Visual Studio installation.
// ////////////////////////////////////////////////////////////////////////

/// Version of a Visual Studio (or build-tools) installation: a dotted
/// sequence of numeric components such as `17.12.35506.116`.
#[derive(Debug)]
pub struct VsInstallationVersion {
    parts: Vec<u64>,
}

impl View for VsInstallationVersion {
    type V = Seq<u64>;

    closed spec fn view(&self) -> Seq<u64> {
        self.parts@
    }
}

impl VsInstallationVersion {
    /// Parses the VsInstallationVersion from a string.
    pub fn parse(value: &str) -> (r: Result<VsInstallationVersion, crate::Error>)
        ensures
            match r {
                Ok(v) => parse_accepted(value@) && v@ == version_parts(value@),
                Err(e) => !parse_accepted(value@) && e == crate::Error::InvalidFormat,
            },
    {
        match parse_components(value) {
            Some(p) => {
                if p.1 {
                    proof {
                        assert(p.0@ =~= version_parts(value@));
                    }
                    Ok(VsInstallationVersion { parts: p.0 })
                } else {
                    Err(crate::Error::InvalidFormat)
                }
            },
            None => {
                proof {
                    let segs = split_at_dots(value@);
                    let k = choose|k: int|
                        0 <= k < segs.len() && seg_value(#[trigger] segs[k]) > u64::MAX;
                    assert(!parse_accepted(value@));
                }
                Err(crate::Error::InvalidFormat)
            },
        }
    }

    /// The numeric components, most significant first.
    pub fn parts(&self) -> (r: &Vec<u64>)
        ensures
            r@ == self@,
    {
        &self.parts
    }

    /// Checks if the version is in the specified range.
    pub fn is_in_range(
        &self,
        max: Option<&VsInstallationVersion>,
        min: Option<&VsInstallationVersion>,
    ) -> (r: bool)
        ensures
            r == ver_in_range(self@, opt_version_view(max), opt_version_view(min)),
    {
        has_version_in_range(self, max, min)
    }
}

impl PartialEq for VsInstallationVersion {
    fn eq(&self, other: &Self) -> (r: bool) {
        parts_eq(&self.parts, &other.parts)
    }
}

impl vstd::std_specs::cmp::PartialEqSpecImpl for VsInstallationVersion {
    open spec fn obeys_eq_spec() -> bool {
        true
    }

    open spec fn eq_spec(&self, other: &Self) -> bool {
        ver_eq(self@, other@)
    }
}

impl PartialOrd for VsInstallationVersion {
    fn partial_cmp(&self, other: &Self) -> (r: Option<Ordering>) {
        if parts_lt(&self.parts, &other.parts) {
            Some(Ordering::Less)
        } else if parts_lt(&other.parts, &self.parts) {
            Some(Ordering::Greater)
        } else {
            Some(Ordering::Equal)
        }
    }
}

impl vstd::std_specs::cmp::PartialOrdSpecImpl for VsInstallationVersion {
    open spec fn obeys_partial_cmp_spec() -> bool {
        true
    }

    open spec fn partial_cmp_spec(&self, other: &Self) -> Option<Ordering> {
        if ver_lt(self@, other@) {
            Some(Ordering::Less)
        } else if ver_lt(other@, self@) {
            Some(Ordering::Greater)
        } else {
            Some(Ordering::Equal)
        }
    }
}

/// The view of an optional version reference.
pub open spec fn opt_version_view(o: Option<&VsInstallationVersion>) -> Option<Seq<u64>> {
    match o {
        Some(v) => Some(v@),
        None => None,
    }
}

/// The view of an optional owned version.
pub open spec fn version_opt_view(o: Option<VsInstallationVersion>) -> Option<Seq<u64>> {
    match o {
        Some(v) => Some(v@),
        None => None,
    }
}

/// Checks whether `version` lies in the range given by the optional
/// exclusive upper bound `max` and the optional inclusive lower bound `min`.
pub fn has_version_in_range(
    version: &VsInstallationVersion,
    max: Option<&VsInstallationVersion>,
    min: Option<&VsInstallationVersion>,
) -> (r: bool)
    ensures
        r == ver_in_range(version@, opt_version_view(max), opt_version_view(min)),
{
    let is_below_max: bool = match max {
        Some(max_version) => parts_lt(&version.parts, &max_version.parts),
        None => true,
    };
    let is_above_min: bool = match min {
        Some(min_version) => parts_le(&min_version.parts, &version.parts),
        None => true,
    };
    is_below_max && is_above_min
}

// ////////////////////////////////////////////////////////////////////////
// Product line versions.
// ////////////////////////////////////////////////////////////////////////

/// Enum holding the VS product line versions.
#[derive(Debug, Clone, Copy, PartialEq, Eq, Structural)]
pub enum VsProductLineVersion {
    Vs2022,
    Vs2019,
    Vs2017,
}

/// The exclusive upper installation version of a product line: the floor of
/// the next line.
pub open spec fn plv_max_parts(p: VsProductLineVersion) -> Seq<u64> {
    match p {
        VsProductLineVersion::Vs2022 => seq![18u64, 0u64, 0u64, 0u64],
        VsProductLineVersion::Vs2019 => seq![17u64, 0u64, 0u64, 0u64],
        VsProductLineVersion::Vs2017 => seq![16u64, 0u64, 0u64, 0u64],
    }
}

/// The inclusive lower installation version of a product line.
pub open spec fn plv_min_parts(p: VsProductLineVersion) -> Seq<u64> {
    match p {
        VsProductLineVersion::Vs2022 => seq![17u64, 0u64, 0u64, 0u64],
        VsProductLineVersion::Vs2019 => seq![16u64, 0u64, 0u64, 0u64],
        VsProductLineVersion::Vs2017 => seq![15u64, 0u64, 0u64, 0u64],
    }
}

/// The product line a name such as `2022` denotes.
pub open spec fn product_line_of(s: Seq<char>) -> Option<VsProductLineVersion> {
    if s == "2017"@ {
        Some(VsProductLineVersion::Vs2017)
    } else if s == "2019"@ {
        Some(VsProductLineVersion::Vs2019)
    } else if s == "2022"@ {
        Some(VsProductLineVersion::Vs2022)
    } else {
        None
    }
}

impl VsProductLineVersion {
    /// Parses a product line name such as `2022`.
    pub fn parse(value: &str) -> (r: Result<VsProductLineVersion, crate::Error>)
        ensures
            match r {
                Ok(p) => product_line_of(value@) == Some(p),
                Err(e) => product_line_of(value@) is None && e == crate::Error::InvalidFormat,
            },
    {
        let v: String = value.to_owned();
        if v.eq(&"2017".to_owned()) {
            Ok(VsProductLineVersion::Vs2017)
        } else if v.eq(&"2019".to_owned()) {
            Ok(VsProductLineVersion::Vs2019)
        } else if v.eq(&"2022".to_owned()) {
            Ok(VsProductLineVersion::Vs2022)
        } else {
            Err(crate::Error::InvalidFormat)
        }
    }

    /// The non-inclusive max installation version for a specific product
    /// line version.
    pub fn installation_version_max(&self) -> (r: VsInstallationVersion)
        ensures
            r@ == plv_max_parts(*self),
    {
        let major: u64 = match self {
            VsProductLineVersion::Vs2022 => 18,
            VsProductLineVersion::Vs2019 => 17,
            VsProductLineVersion::Vs2017 => 16,
        };
        let mut parts: Vec<u64> = Vec::new();
        parts.push(major);
        parts.push(0);
        parts.push(0);
        parts.push(0);
        proof {
            assert(parts@ =~= seq![major, 0u64, 0u64, 0u64]);
        }
        VsInstallationVersion { parts }
    }

    /// The inclusive min installation version for a specific product line
    /// version.
    pub fn installation_version_min(&self) -> (r: VsInstallationVersion)
        ensures
            r@ == plv_min_parts(*self),
    {
        let major: u64 = match self {
            VsProductLineVersion::Vs2022 => 17,
            VsProductLineVersion::Vs2019 => 16,
            VsProductLineVersion::Vs2017 => 15,
        };
        let mut parts: Vec<u64> = Vec::new();
        parts.push(major);
        parts.push(0);
        parts.push(0);
        parts.push(0);
        proof {
            assert(parts@ =~= seq![major, 0u64, 0u64, 0u64]);
        }
        VsInstallationVersion { parts }
    }
}

} // verus!
