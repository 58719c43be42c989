//! How fairly the scan goes round the courses: every course with a subscriber
//! gets its turn before any other course gets a second one.
use crate::accounts::{first_subscribed, next_cursor, pick, CourseView};
use vstd::arithmetic::div_mod::{lemma_add_mod_noop, lemma_fundamental_div_mod, lemma_mod_multiples_vanish};
use vstd::prelude::*;

verus! {

/// The cursor after `m` scans from `cursor`.
pub open spec fn cursor_after(rows: Seq<(Seq<char>, CourseView)>, cursor: int, m: nat) -> int
    decreases m,
{
    if m == 0 {
        cursor
    } else {
        next_cursor(rows, cursor_after(rows, cursor, (m - 1) as nat))
    }
}

/// How often row `i` is selected in `m` scans from `cursor`.
pub open spec fn times_picked(rows: Seq<(Seq<char>, CourseView)>, cursor: int, m: nat, i: int) -> nat
    decreases m,
{
    if m == 0 {
        0
    } else {
        times_picked(rows, cursor, (m - 1) as nat, i) + if pick(
            rows,
            cursor_after(rows, cursor, (m - 1) as nat),
        ) == Some(i) {
            1nat
        } else {
            0nat
        }
    }
}

/// No row has a subscriber.
pub open spec fn none_subscribed(rows: Seq<(Seq<char>, CourseView)>) -> bool {
    forall|j: int| 0 <= j < rows.len() ==> (#[trigger] rows[j]).1.channels.is_empty()
}

proof fn lemma_none_found(rows: Seq<(Seq<char>, CourseView)>, start: int, k: int)
    requires
        none_subscribed(rows),
        rows.len() > 0,
    ensures
        first_subscribed(rows, start, k) is None,
    decreases rows.len() - k,
{
    if 0 <= k < rows.len() {
        let n = rows.len() as int;
        assert(0 <= (start + k) % n < n) by (nonlinear_arith)
            requires n > 0;
        lemma_none_found(rows, start, k + 1);
    }
}

/// Row `j` has a subscriber.
pub open spec fn eligible(rows: Seq<(Seq<char>, CourseView)>, j: int) -> bool {
    !rows[j].1.channels.is_empty()
}

/// Number of rows with a subscriber among the `d` rows from position `s` on,
/// going round.
pub open spec fn count_from(rows: Seq<(Seq<char>, CourseView)>, s: int, d: int) -> nat
    decreases d,
{
    if d <= 0 {
        0
    } else {
        count_from(rows, s, d - 1) + if eligible(rows, (s + d - 1) % (rows.len() as int)) {
            1nat
        } else {
            0nat
        }
    }
}

/// Number of rows with a subscriber.
pub open spec fn subscribed_count(rows: Seq<(Seq<char>, CourseView)>) -> nat {
    count_from(rows, 0, rows.len() as int)
}

proof fn lemma_mod_range(x: int, n: int)
    requires
        n > 0,
    ensures
        0 <= x % n < n,
{
    assert(0 <= x % n < n) by (nonlinear_arith)
        requires n > 0;
}

proof fn lemma_first_subscribed(rows: Seq<(Seq<char>, CourseView)>, s: int, k: int)
    requires
        rows.len() > 0,
        0 <= k,
    ensures
        match first_subscribed(rows, s, k) {
            Some(x) => k <= x < rows.len() && eligible(rows, (s + x) % (rows.len() as int)) && forall|y: int|
                k <= y < x ==> !eligible(rows, #[trigger] ((s + y) % (rows.len() as int))),
            None => forall|y: int| k <= y < rows.len() ==> !eligible(rows, #[trigger] ((s + y) % (rows.len() as int))),
        },
    decreases rows.len() - k,
{
    if k < rows.len() {
        lemma_first_subscribed(rows, s, k + 1);
    }
}

proof fn lemma_count_split(rows: Seq<(Seq<char>, CourseView)>, s: int, a: int, d: int)
    requires
        0 <= a <= d,
    ensures
        count_from(rows, s, d) == count_from(rows, s, a) + count_from(rows, s + a, d - a),
    decreases d,
{
    if d > a {
        lemma_count_split(rows, s, a, d - 1);
        assert((s + a) + (d - a) - 1 == s + d - 1);
    }
}

proof fn lemma_count_congruent(rows: Seq<(Seq<char>, CourseView)>, s1: int, s2: int, d: int)
    requires
        rows.len() > 0,
        s1 % (rows.len() as int) == s2 % (rows.len() as int),
    ensures
        count_from(rows, s1, d) == count_from(rows, s2, d),
    decreases d,
{
    if d > 0 {
        let n = rows.len() as int;
        lemma_count_congruent(rows, s1, s2, d - 1);
        lemma_add_mod_noop(s1, d - 1, n);
        lemma_add_mod_noop(s2, d - 1, n);
    }
}

proof fn lemma_count_bound(rows: Seq<(Seq<char>, CourseView)>, s: int, a: int, d: int)
    requires
        0 <= a <= d,
    ensures
        count_from(rows, s, a) <= count_from(rows, s, d),
    decreases d,
{
    if a < d {
        lemma_count_bound(rows, s, a, d - 1);
    }
}

proof fn lemma_count_rotation(rows: Seq<(Seq<char>, CourseView)>, s: int)
    requires
        rows.len() > 0,
        s >= 0,
    ensures
        count_from(rows, s, rows.len() as int) == subscribed_count(rows),
    decreases s,
{
    let n = rows.len() as int;
    if s > 0 {
        lemma_count_rotation(rows, s - 1);
        lemma_count_split(rows, s - 1, 1, n);
        lemma_count_split(rows, s, n - 1, n);
        assert(count_from(rows, s - 1, 1) == count_from(rows, s + n - 1, 1)) by {
            lemma_mod_multiples_vanish(1, s - 1, n);
            assert((s - 1 + n) % n == (s - 1) % n) by {
                lemma_mod_multiples_vanish(1, s - 1, n);
            }
            lemma_count_congruent(rows, s - 1, s + n - 1, 1);
        }
    }
}

/// Forward distance, going round, from the cursor's row to row `i`.
pub open spec fn distance(n: int, cursor: int, i: int) -> int {
    (i - cursor % n) % n
}

/// Rows with a subscriber that a scan from `cursor` reaches before row `i`.
pub open spec fn ahead_of(rows: Seq<(Seq<char>, CourseView)>, cursor: int, i: int) -> nat {
    let n = rows.len() as int;
    count_from(rows, cursor % n, distance(n, cursor, i))
}

proof fn lemma_offset_row(n: int, s: int, i: int)
    requires
        n > 0,
        0 <= s < n,
        0 <= i < n,
    ensures
        (s + distance(n, s, i)) % n == i,
        0 <= distance(n, s, i) < n,
{
    lemma_mod_range(i - s, n);
    assert(s % n == s) by (nonlinear_arith)
        requires 0 <= s < n;
    lemma_fundamental_div_mod(i - s, n);
    let q = (i - s) / n;
    let d = (i - s) % n;
    assert(s + d == i - q * n);
    assert((i - q * n) % n == i) by {
        lemma_mod_multiples_vanish(-q, i, n);
        assert(n * -q + i == i - q * n) by (nonlinear_arith);
        assert(i % n == i) by (nonlinear_arith)
            requires 0 <= i < n;
    }
}

proof fn lemma_scan_step(rows: Seq<(Seq<char>, CourseView)>, cursor: int, i: int)
    requires
        rows.len() > 0,
        cursor >= 0,
        0 <= i < rows.len(),
        eligible(rows, i),
    ensures
        pick(rows, cursor) is Some,
        next_cursor(rows, cursor) >= 0,
        pick(rows, cursor) != Some(i) ==> ahead_of(rows, cursor, i) == ahead_of(rows, next_cursor(rows, cursor), i) + 1,
        ahead_of(rows, cursor, i) + 1 <= subscribed_count(rows),
{
    let n = rows.len() as int;
    let s = cursor % n;
    lemma_mod_range(cursor, n);
    let d = distance(n, cursor, i);
    assert(distance(n, s, i) == d) by {
        assert(s % n == s) by (nonlinear_arith)
            requires 0 <= s < n;
    }
    lemma_offset_row(n, s, i);
    lemma_first_subscribed(rows, s, 0);
    let k0 = first_subscribed(rows, s, 0)->0;
    assert(k0 <= d);
    let p = (s + k0) % n;
    assert(pick(rows, cursor) == Some(p));
    lemma_mod_range(s + k0, n);
    // the rows before i, counted from the cursor, and the one at i itself
    lemma_count_split(rows, s, d, d + 1);
    lemma_count_bound(rows, s, d + 1, n);
    lemma_count_rotation(rows, s);
    assert(count_from(rows, s + d, 1) == 1);
    if p != i {
        assert(k0 < d);
        let c2 = p + 1;
        let s2 = c2 % n;
        lemma_count_split(rows, s, k0 + 1, d);
        lemma_count_split(rows, s, k0, k0 + 1);
        assert(count_from(rows, s, k0) == 0) by {
            lemma_count_zero(rows, s, k0);
        }
        assert(count_from(rows, s + k0, 1) == 1);
        // the new cursor stands just past p
        assert(s2 == (s + k0 + 1) % n) by {
            lemma_add_mod_noop(s + k0, 1, n);
            lemma_mod_range(s + k0, n);
            assert(1int % n == 1 || n == 1) by (nonlinear_arith)
                requires n > 0;
            if n == 1 {
                assert(false);
            }
            lemma_mod_twice_local(s + k0, n);
        }
        lemma_mod_twice_local(c2, n);
        lemma_mod_twice_local(s + k0 + 1, n);
        assert(s2 % n == (s + k0 + 1) % n);
        lemma_count_congruent(rows, s2, s + k0 + 1, d - k0 - 1);
        assert(distance(n, c2, i) == d - k0 - 1) by {
            lemma_distance_step(n, s, k0, i, d);
        }
    }
}

proof fn lemma_count_zero(rows: Seq<(Seq<char>, CourseView)>, s: int, k: int)
    requires
        rows.len() > 0,
        forall|y: int| 0 <= y < k ==> !eligible(rows, #[trigger] ((s + y) % (rows.len() as int))),
    ensures
        count_from(rows, s, k) == 0,
    decreases k,
{
    if k > 0 {
        lemma_count_zero(rows, s, k - 1);
        assert(!eligible(rows, (s + (k - 1)) % (rows.len() as int)));
    }
}

proof fn lemma_mod_twice_local(x: int, n: int)
    requires
        n > 0,
    ensures
        (x % n) % n == x % n,
{
    lemma_mod_range(x, n);
    assert((x % n) % n == x % n) by (nonlinear_arith)
        requires 0 <= x % n < n;
}

proof fn lemma_distance_step(n: int, s: int, k0: int, i: int, d: int)
    requires
        n > 0,
        0 <= s < n,
        0 <= k0 < d,
        d == distance(n, s, i),
        0 <= i < n,
        d < n,
    ensures
        distance(n, (s + k0) % n + 1, i) == d - k0 - 1,
{
    assert(s % n == s) by (nonlinear_arith)
        requires 0 <= s < n;
    lemma_offset_row(n, s, i);
    lemma_mod_range(s + k0, n);
    let c2 = (s + k0) % n + 1;
    lemma_add_mod_noop(s + k0, 1, n);
    lemma_mod_twice_local(s + k0, n);
    assert(c2 % n == (s + k0 + 1) % n) by {
        lemma_add_mod_noop((s + k0) % n, 1, n);
        lemma_add_mod_noop(s + k0, 1, n);
        lemma_mod_twice_local(s + k0, n);
        lemma_mod_twice_local(1, n);
    }
    // i sits d rows after s, so it sits d - k0 - 1 rows after s + k0 + 1
    assert((s + d) % n == i);
    let e = d - k0 - 1;
    assert(0 <= e < n);
    lemma_add_mod_noop(s + k0 + 1, e, n);
    assert((s + k0 + 1 + e) % n == i);
    let t = (s + k0 + 1) % n;
    lemma_mod_range(s + k0 + 1, n);
    assert((t + e) % n == i) by {
        lemma_add_mod_noop(s + k0 + 1, e, n);
        lemma_mod_twice_local(s + k0 + 1, n);
        lemma_add_mod_noop(t, e, n);
        assert(e % n == e) by (nonlinear_arith)
            requires 0 <= e < n;
    }
    lemma_distance_unique(n, t, e, i);
    lemma_mod_twice_local(s + k0 + 1, n);
    assert(t % n == t);
    assert(c2 % n == t);
    assert((i - t) % n == e);
    assert(distance(n, c2, i) == (i - c2 % n) % n);
}

proof fn lemma_distance_unique(n: int, t: int, e: int, i: int)
    requires
        n > 0,
        0 <= t < n,
        0 <= e < n,
        0 <= i < n,
        (t + e) % n == i,
    ensures
        (i - t % n) % n == e,
{
    assert(t % n == t) by (nonlinear_arith)
        requires 0 <= t < n;
    if t + e < n {
        assert((t + e) % n == t + e) by (nonlinear_arith)
            requires 0 <= t + e < n;
        assert((i - t) % n == e) by (nonlinear_arith)
            requires i - t == e, 0 <= e < n;
    } else {
        assert((t + e) % n == t + e - n) by (nonlinear_arith)
            requires n <= t + e < 2 * n;
        assert((i - t) % n == e) by (nonlinear_arith)
            requires i - t == e - n, 0 <= e < n, n > 0;
    }
}

proof fn lemma_next_cursor_nonneg(rows: Seq<(Seq<char>, CourseView)>, cursor: int)
    requires
        cursor >= 0,
    ensures
        next_cursor(rows, cursor) >= 0,
{
    if rows.len() > 0 {
        lemma_mod_range(cursor, rows.len() as int);
        match pick(rows, cursor) {
            Some(p) => {
                let s = cursor % (rows.len() as int);
                lemma_mod_range(s + first_subscribed(rows, s, 0)->0, rows.len() as int);
            },
            None => {},
        }
    }
}

proof fn lemma_cursor_after_nonneg(rows: Seq<(Seq<char>, CourseView)>, cursor: int, t: nat)
    requires
        cursor >= 0,
    ensures
        cursor_after(rows, cursor, t) >= 0,
    decreases t,
{
    if t > 0 {
        lemma_cursor_after_nonneg(rows, cursor, (t - 1) as nat);
        lemma_next_cursor_nonneg(rows, cursor_after(rows, cursor, (t - 1) as nat));
    }
}

proof fn lemma_cursor_after_compose(rows: Seq<(Seq<char>, CourseView)>, cursor: int, a: nat, b: nat)
    ensures
        cursor_after(rows, cursor, a + b) == cursor_after(rows, cursor_after(rows, cursor, a), b),
    decreases b,
{
    if b > 0 {
        lemma_cursor_after_compose(rows, cursor, a, (b - 1) as nat);
        assert((a + b - 1) as nat == a + (b - 1) as nat);
    }
}

proof fn lemma_times_picked_split(rows: Seq<(Seq<char>, CourseView)>, cursor: int, a: nat, b: nat, i: int)
    ensures
        times_picked(rows, cursor, a + b, i) == times_picked(rows, cursor, a, i) + times_picked(
            rows,
            cursor_after(rows, cursor, a),
            b,
            i,
        ),
    decreases b,
{
    if b > 0 {
        lemma_times_picked_split(rows, cursor, a, (b - 1) as nat, i);
        lemma_cursor_after_compose(rows, cursor, a, (b - 1) as nat);
        assert((a + b - 1) as nat == a + (b - 1) as nat);
    }
}

proof fn lemma_times_picked_monotone(rows: Seq<(Seq<char>, CourseView)>, cursor: int, a: nat, b: nat, i: int)
    requires
        a <= b,
    ensures
        times_picked(rows, cursor, a, i) <= times_picked(rows, cursor, b, i),
    decreases b - a,
{
    if a < b {
        lemma_times_picked_monotone(rows, cursor, a, (b - 1) as nat, i);
    }
}

/// A row with a subscriber is selected within one more scan than there are rows
/// with a subscriber ahead of it.
proof fn lemma_visited(rows: Seq<(Seq<char>, CourseView)>, cursor: int, i: int)
    requires
        rows.len() > 0,
        cursor >= 0,
        0 <= i < rows.len(),
        eligible(rows, i),
    ensures
        times_picked(rows, cursor, ahead_of(rows, cursor, i) + 1, i) >= 1,
    decreases ahead_of(rows, cursor, i),
{
    lemma_scan_step(rows, cursor, i);
    let r = ahead_of(rows, cursor, i);
    assert(cursor_after(rows, cursor, 0) == cursor);
    assert(times_picked(rows, cursor, 0, i) == 0);
    assert(((1 - 1) as nat) == 0nat);
    assert(times_picked(rows, cursor, 1, i) == if pick(rows, cursor) == Some(i) {
        1nat
    } else {
        0nat
    });
    if pick(rows, cursor) == Some(i) {
        lemma_times_picked_monotone(rows, cursor, 1, r + 1, i);
    } else {
        let c2 = next_cursor(rows, cursor);
        lemma_visited(rows, c2, i);
        lemma_times_picked_split(rows, cursor, 1, r, i);
        assert(cursor_after(rows, cursor, 1) == c2);
        assert((1 + r) as nat == r + 1);
    }
}

/// Fair scanning. A course with a subscriber is selected at least `m / k` times
/// in any `m` scans in a row, where `k` is the number of courses with a
/// subscriber: no course waits for a second turn of another. When no course has
/// a subscriber, a scan selects nothing and leaves the cursor where it began.
pub proof fn lemma_scan_fairness(rows: Seq<(Seq<char>, CourseView)>, cursor: int, m: nat, i: int)
    requires
        cursor >= 0,
        0 <= i < rows.len(),
    ensures
        eligible(rows, i) ==> subscribed_count(rows) > 0 && times_picked(rows, cursor, m, i) >= m
            / subscribed_count(rows),
        none_subscribed(rows) ==> pick(rows, cursor) is None && next_cursor(rows, cursor) == cursor % (
        rows.len() as int),
    decreases m,
{
    let n = rows.len() as int;
    if none_subscribed(rows) {
        lemma_none_found(rows, cursor % n, 0);
    }
    if eligible(rows, i) {
        lemma_scan_step(rows, cursor, i);
        let k = subscribed_count(rows);
        if m >= k {
            let m0 = (m - k) as nat;
            lemma_scan_fairness(rows, cursor, m0, i);
            let c0 = cursor_after(rows, cursor, m0);
            lemma_cursor_after_nonneg(rows, cursor, m0);
            lemma_scan_step(rows, c0, i);
            lemma_visited(rows, c0, i);
            lemma_times_picked_monotone(rows, c0, ahead_of(rows, c0, i) + 1, k, i);
            lemma_times_picked_split(rows, cursor, m0, k, i);
            assert(m0 + k == m);
            vstd::arithmetic::div_mod::lemma_div_minus_one(m as int, k as int);
        } else {
            assert(m / k == 0) by (nonlinear_arith)
                requires 0 <= m < k;
        }
    }
}

} // verus!
