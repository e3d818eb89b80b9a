//! The proportional capacity partitioner.
//!
//! Given a total capacity and one positive weight per category, the
//! partitioner produces one non-negative integer per category such that
//! the entries sum exactly to the total. Weights are integers on an
//! arbitrary common scale (the library samples them as hundredths of the
//! total); only their ratios matter. Rounding of the ideal shares is
//! round-half-up, and the drift that rounding causes is repaired by a
//! deterministic reconciliation walk that always moves from the last
//! category toward the first, wrapping around as often as needed.
//!
//! When the total is smaller than the number of categories, an exact sum
//! and a minimum of one bed per category cannot both hold. The documented
//! resolution here is to relax the minimum: the first `total` categories
//! receive one unit each and the remaining categories receive zero.

use vstd::prelude::*;

verus! {

/// Why a partition request was rejected.
#[derive(Clone, Copy, Debug, PartialEq, Eq, Structural)]
pub enum PartitionError {
    /// Positive capacity cannot be distributed over zero categories.
    EmptyWeights,
    /// Every weight is zero, so shares cannot be normalized.
    ZeroWeightSum,
}

/// Sum of a sequence of integers.
pub open spec fn sum_seq(s: Seq<int>) -> int
    decreases s.len(),
{
    if s.len() == 0 {
        0
    } else {
        sum_seq(s.drop_last()) + s.last()
    }
}

/// The mathematical view of a vector of allocation entries or weights.
pub open spec fn ints_of(s: Seq<u32>) -> Seq<int> {
    s.map_values(|x: u32| x as int)
}

/// The ideal share of one category, rounded half-up: the nearest integer
/// to `w * total / s`, halves rounding up.
pub open spec fn round_share(w: int, s: int, total: int) -> int {
    (2 * w * total + s) / (2 * s)
}

/// Steps 1 to 3 of the algorithm: normalize, round, and force every entry
/// up to at least one.
pub open spec fn provisional_spec(total: int, ws: Seq<int>) -> Seq<int> {
    let s = sum_seq(ws);
    ws.map_values(|w: int| if round_share(w, s, total) < 1 { 1int } else { round_share(w, s, total) })
}

/// The incrementing reconciliation walk. `idx` is the next position to
/// visit (positions are visited from last to first, wrapping around), and
/// `need` is how many single increments are still owed. Every visited
/// position is incremented.
pub open spec fn inc_walk(a: Seq<int>, idx: int, need: nat) -> Seq<int>
    decreases need,
{
    if need == 0 || a.len() == 0 {
        a
    } else {
        let j = if 0 <= idx && idx < a.len() { idx } else { a.len() - 1 };
        inc_walk(a.update(j, a[j] + 1), j - 1, (need - 1) as nat)
    }
}

/// The decrementing reconciliation walk. `idx` is the next position to
/// visit (from last to first, wrapping), `need` is how many single
/// decrements are still owed, and `changed` records whether the current
/// pass has decremented anything. A position is decremented only while it
/// holds more than one unit; a full pass without any change stops the
/// walk.
pub open spec fn dec_walk(a: Seq<int>, idx: int, need: nat, changed: bool) -> Seq<int>
    decreases need, (if changed { 1int } else { 0int }), idx + 1,
{
    if need == 0 {
        a
    } else if idx < 0 {
        if changed {
            dec_walk(a, a.len() - 1, need, false)
        } else {
            a
        }
    } else if idx < a.len() && a[idx] > 1 {
        dec_walk(a.update(idx, a[idx] - 1), idx - 1, (need - 1) as nat, true)
    } else {
        dec_walk(a, idx - 1, need, changed)
    }
}

/// Step 4 of the algorithm: repair the drift between the provisional sum
/// and the target total, starting from the last category.
pub open spec fn spec_reconcile(p: Seq<int>, total: int) -> Seq<int> {
    let s = sum_seq(p);
    if s < total {
        inc_walk(p, p.len() - 1, (total - s) as nat)
    } else if s > total {
        dec_walk(p, p.len() - 1, (s - total) as nat, false)
    } else {
        p
    }
}

/// The whole partition, including the degenerate policy for
/// `total < categoryCount`: one unit to each of the first `total`
/// categories and zero to the rest.
pub open spec fn spec_partition(total: int, ws: Seq<int>) -> Seq<int> {
    if total < ws.len() {
        Seq::new(ws.len(), |i: int| if i < total { 1int } else { 0int })
    } else {
        spec_reconcile(provisional_spec(total, ws), total)
    }
}

proof fn lemma_sum_take_step(s: Seq<int>, i: int)
    requires
        0 <= i < s.len(),
    ensures
        sum_seq(s.take(i + 1)) == sum_seq(s.take(i)) + s[i],
{
    assert(s.take(i + 1).drop_last() =~= s.take(i));
    assert(s.take(i + 1).last() == s[i]);
}

proof fn lemma_sum_full(s: Seq<int>)
    ensures
        sum_seq(s.take(s.len() as int)) == sum_seq(s),
{
    assert(s.take(s.len() as int) =~= s);
}

proof fn lemma_sum_update(s: Seq<int>, i: int, v: int)
    requires
        0 <= i < s.len(),
    ensures
        sum_seq(s.update(i, v)) == sum_seq(s) - s[i] + v,
    decreases s.len(),
{
    if i == s.len() - 1 {
        assert(s.update(i, v).drop_last() =~= s.drop_last());
    } else {
        assert(s.update(i, v).drop_last() =~= s.drop_last().update(i, v));
        lemma_sum_update(s.drop_last(), i, v);
    }
}

/// Every entry of a sequence of non-negative integers is bounded by the
/// whole sum.
proof fn lemma_sum_bounds_entry(s: Seq<int>, i: int)
    requires
        0 <= i < s.len(),
        forall|k: int| 0 <= k < s.len() ==> s[k] >= 0,
    ensures
        s[i] <= sum_seq(s),
    decreases s.len(),
{
    if i == s.len() - 1 {
        lemma_sum_lower_bound(s.drop_last(), 0);
    } else {
        lemma_sum_bounds_entry(s.drop_last(), i);
    }
}

/// A sequence whose entries are all at least `c` sums to at least
/// `c * len`.
pub(crate) proof fn lemma_sum_lower_bound(s: Seq<int>, c: int)
    requires
        forall|k: int| 0 <= k < s.len() ==> s[k] >= c,
    ensures
        sum_seq(s) >= c * s.len(),
    decreases s.len(),
{
    if s.len() > 0 {
        lemma_sum_lower_bound(s.drop_last(), c);
        assert(c * s.len() == c * (s.len() - 1) + c) by (nonlinear_arith);
    }
}

/// A sequence whose entries are all at most `c` sums to at most
/// `c * len`.
proof fn lemma_sum_upper_bound(s: Seq<int>, c: int)
    requires
        forall|k: int| 0 <= k < s.len() ==> s[k] <= c,
    ensures
        sum_seq(s) <= c * s.len(),
    decreases s.len(),
{
    if s.len() > 0 {
        lemma_sum_upper_bound(s.drop_last(), c);
        assert(c * s.len() == c * (s.len() - 1) + c) by (nonlinear_arith);
    }
}

/// Pigeonhole for the all-ones case: entries that are each at least one
/// and sum to exactly the length are each exactly one.
proof fn lemma_sum_exact_all_ones(s: Seq<int>)
    requires
        forall|k: int| 0 <= k < s.len() ==> s[k] >= 1,
        sum_seq(s) == s.len(),
    ensures
        forall|k: int| 0 <= k < s.len() ==> s[k] == 1,
{
    assert forall|k: int| 0 <= k < s.len() implies s[k] == 1 by {
        if s[k] > 1 {
            lemma_sum_update(s, k, 1);
            lemma_sum_lower_bound(s.update(k, 1), 1);
            assert(1 * s.update(k, 1).len() == s.len());
        }
    }
}

/// The incrementing walk distributes exactly `need` extra units and keeps
/// every entry at least one.
proof fn lemma_inc_walk(a: Seq<int>, idx: int, need: nat)
    requires
        forall|k: int| 0 <= k < a.len() ==> a[k] >= 1,
    ensures
        inc_walk(a, idx, need).len() == a.len(),
        forall|k: int| 0 <= k < a.len() ==> inc_walk(a, idx, need)[k] >= 1,
        a.len() > 0 ==> sum_seq(inc_walk(a, idx, need)) == sum_seq(a) + need,
    decreases need,
{
    if need == 0 || a.len() == 0 {
    } else {
        let j = if 0 <= idx && idx < a.len() { idx } else { a.len() - 1 };
        let a2 = a.update(j, a[j] + 1);
        lemma_sum_update(a, j, a[j] + 1);
        lemma_inc_walk(a2, j - 1, (need - 1) as nat);
    }
}

/// The decrementing walk removes exactly `need` units whenever the target
/// is still at least one unit per entry, and it never takes an entry
/// below one.
proof fn lemma_dec_walk(a: Seq<int>, idx: int, need: nat, changed: bool)
    requires
        idx < a.len(),
        forall|k: int| 0 <= k < a.len() ==> a[k] >= 1,
        sum_seq(a) - need >= a.len(),
        !changed ==> forall|k: int| idx < k < a.len() ==> a[k] == 1,
    ensures
        dec_walk(a, idx, need, changed).len() == a.len(),
        forall|k: int| 0 <= k < a.len() ==> dec_walk(a, idx, need, changed)[k] >= 1,
        sum_seq(dec_walk(a, idx, need, changed)) == sum_seq(a) - need,
    decreases need, (if changed { 1int } else { 0int }), idx + 1,
{
    if need == 0 {
    } else if idx < 0 {
        if changed {
            lemma_dec_walk(a, a.len() - 1, need, false);
        } else {
            lemma_sum_upper_bound(a, 1);
            assert(1 * a.len() == a.len());
        }
    } else if idx < a.len() && a[idx] > 1 {
        let a2 = a.update(idx, a[idx] - 1);
        lemma_sum_update(a, idx, a[idx] - 1);
        lemma_dec_walk(a2, idx - 1, (need - 1) as nat, true);
    } else {
        lemma_dec_walk(a, idx - 1, need, changed);
    }
}

proof fn lemma_sum_ones_prefix(n: int, t: int)
    requires
        0 <= t,
        0 <= n,
    ensures
        sum_seq(Seq::new(n as nat, |i: int| if i < t { 1int } else { 0int })) == if t < n { t } else { n },
    decreases n,
{
    let s = Seq::new(n as nat, |i: int| if i < t { 1int } else { 0int });
    if n > 0 {
        lemma_sum_ones_prefix(n - 1, t);
        assert(s.drop_last() =~= Seq::new((n - 1) as nat, |i: int| if i < t { 1int } else { 0int }));
    }
}

/// The reconciliation walk turns any provisional allocation whose entries
/// are each at least one into an exact partition of the total, provided
/// the total leaves room for one unit per entry.
pub proof fn lemma_spec_reconcile_props(p: Seq<int>, total: int)
    requires
        forall|k: int| 0 <= k < p.len() ==> p[k] >= 1,
        p.len() <= total,
        p.len() == 0 ==> total == 0,
    ensures
        spec_reconcile(p, total).len() == p.len(),
        sum_seq(spec_reconcile(p, total)) == total,
        forall|k: int| 0 <= k < p.len() ==> spec_reconcile(p, total)[k] >= 1,
{
    let s = sum_seq(p);
    if p.len() == 0 {
    } else if s < total {
        lemma_inc_walk(p, p.len() - 1, (total - s) as nat);
    } else if s > total {
        lemma_dec_walk(p, p.len() - 1, (s - total) as nat, false);
    }
}

/// Conservation and minimum-presence: for any non-negative total and any
/// weight vector that is non-empty with a positive sum whenever the total
/// is positive, the partition has one entry per weight, sums exactly to
/// the total, keeps every entry at least one when the total covers the
/// category count, and otherwise gives one unit to the first `total`
/// categories and zero to the rest.
pub proof fn lemma_spec_partition_props(total: int, ws: Seq<int>)
    requires
        total >= 0,
        forall|k: int| 0 <= k < ws.len() ==> ws[k] >= 0,
        total > 0 ==> ws.len() > 0 && sum_seq(ws) > 0,
    ensures
        spec_partition(total, ws).len() == ws.len(),
        sum_seq(spec_partition(total, ws)) == total,
        total >= ws.len() ==> forall|k: int| 0 <= k < ws.len() ==> spec_partition(total, ws)[k] >= 1,
        total < ws.len() ==> forall|k: int| 0 <= k < ws.len()
            ==> spec_partition(total, ws)[k] == if k < total { 1int } else { 0int },
        forall|k: int| 0 <= k < ws.len() ==> spec_partition(total, ws)[k] >= 0,
{
    if total < ws.len() {
        lemma_sum_ones_prefix(ws.len() as int, total);
    } else {
        let p = provisional_spec(total, ws);
        assert(forall|k: int| 0 <= k < p.len() ==> p[k] >= 1);
        lemma_spec_reconcile_props(p, total);
    }
}

/// Monotonic conservation: raising the total by one raises the sum of the
/// partition by exactly one.
pub proof fn lemma_partition_total_increment(total: int, ws: Seq<int>)
    requires
        total >= 0,
        ws.len() > 0,
        sum_seq(ws) > 0,
        forall|k: int| 0 <= k < ws.len() ==> ws[k] >= 0,
    ensures
        sum_seq(spec_partition(total + 1, ws)) == sum_seq(spec_partition(total, ws)) + 1,
{
    lemma_spec_partition_props(total, ws);
    lemma_spec_partition_props(total + 1, ws);
}

/// Degenerate exact fit: when the total equals the category count, every
/// category receives exactly one unit.
pub proof fn lemma_partition_exact_fit_all_ones(ws: Seq<int>)
    requires
        ws.len() > 0,
        sum_seq(ws) > 0,
        forall|k: int| 0 <= k < ws.len() ==> ws[k] >= 0,
    ensures
        forall|k: int| 0 <= k < ws.len() ==> spec_partition(ws.len() as int, ws)[k] == 1,
{
    lemma_spec_partition_props(ws.len() as int, ws);
    lemma_sum_exact_all_ones(spec_partition(ws.len() as int, ws));
}

/// Reconciliation is deterministic: the reconciled allocation is a
/// function of the provisional allocation and the target total alone, so
/// two runs on identical inputs agree.
pub proof fn lemma_reconcile_deterministic(p: Seq<int>, total: int, r1: Seq<int>, r2: Seq<int>)
    requires
        r1 == spec_reconcile(p, total),
        r2 == spec_reconcile(p, total),
    ensures
        r1 == r2,
{
}

/// A rounded share never exceeds the total, because no weight exceeds the
/// weight sum.
proof fn lemma_round_share_le_total(w: int, s: int, total: int)
    requires
        0 <= w <= s,
        s >= 1,
        total >= 0,
    ensures
        0 <= round_share(w, s, total) <= total,
{
    let x = 2 * w * total + s;
    let d = 2 * s;
    let q = x / d;
    vstd::arithmetic::div_mod::lemma_fundamental_div_mod(x, d);
    vstd::arithmetic::div_mod::lemma_mod_bound(x, d);
    assert(2 * w * total >= 0) by (nonlinear_arith)
        requires
            w >= 0,
            total >= 0,
    ;
    assert(2 * w * total <= 2 * s * total) by (nonlinear_arith)
        requires
            w <= s,
            total >= 0,
    ;
    if q > total {
        assert(d * q >= d * (total + 1)) by (nonlinear_arith)
            requires
                q >= total + 1,
                d >= 1,
        ;
        assert(2 * s * (total + 1) == 2 * s * total + 2 * s) by (nonlinear_arith);
        assert(false);
    }
    if q < 0 {
        assert(d * q <= d * (-1)) by (nonlinear_arith)
            requires
                q <= -1,
                d >= 1,
        ;
        assert(false);
    }
}

/// The sum of a weight vector, computed exactly (the accumulator is wide
/// enough for any vector of 32-bit weights).
fn weight_sum(weights: &Vec<u32>) -> (s: u128)
    ensures
        s == sum_seq(ints_of(weights@)),
        s <= weights@.len() * 0xffff_ffff,
{
    let ghost ws = ints_of(weights@);
    let n = weights.len();
    let mut s: u128 = 0;
    let mut i: usize = 0;
    while i < n
        invariant
            i <= n,
            n == weights@.len(),
            ws == ints_of(weights@),
            s == sum_seq(ws.take(i as int)),
            s <= (i as int) * 0xffff_ffff,
        decreases n - i,
    {
        proof {
            lemma_sum_take_step(ws, i as int);
            assert((i as int) * 0xffff_ffff + 0xffff_ffff == ((i + 1) as int) * 0xffff_ffff)
                by (nonlinear_arith);
        }
        s = s + (weights[i] as u128);
        i = i + 1;
    }
    proof {
        lemma_sum_full(ws);
    }
    s
}

/// Steps 1 to 3 of the algorithm as executable code: compute each
/// category's ideal share rounded half-up, and force every entry up to at
/// least one.
pub fn provisional_allocation(total: u32, weights: &Vec<u32>) -> (r: Vec<u32>)
    requires
        weights@.len() > 0 ==> sum_seq(ints_of(weights@)) > 0,
    ensures
        r@.len() == weights@.len(),
        ints_of(r@) == provisional_spec(total as int, ints_of(weights@)),
        forall|k: int| 0 <= k < r@.len() ==> 1 <= r@[k],
{
    let ghost ws = ints_of(weights@);
    let n = weights.len();
    let s = weight_sum(weights);
    let ghost prov = provisional_spec(total as int, ws);
    let mut r: Vec<u32> = Vec::new();
    let mut i: usize = 0;
    while i < n
        invariant
            i <= n,
            n == weights@.len(),
            ws == ints_of(weights@),
            n > 0 ==> sum_seq(ws) > 0,
            s == sum_seq(ws),
            s <= (n as int) * 0xffff_ffff,
            prov == provisional_spec(total as int, ws),
            r@.len() == i,
            forall|k: int| 0 <= k < i ==> (r@[k] as int) == prov[k],
            forall|k: int| 0 <= k < i ==> 1 <= r@[k],
        decreases n - i,
    {
        let w = weights[i];
        proof {
            assert(forall|k: int| 0 <= k < ws.len() ==> ws[k] >= 0);
            lemma_sum_bounds_entry(ws, i as int);
            lemma_round_share_le_total(w as int, s as int, total as int);
            assert(2 * (w as int) * (total as int) <= 2 * 0xffff_ffff * 0xffff_ffff)
                by (nonlinear_arith)
                requires
                    0 <= w as int <= 0xffff_ffff,
                    0 <= total as int <= 0xffff_ffff,
            ;
            assert(2 * (w as int) * (total as int) >= 0) by (nonlinear_arith)
                requires
                    w as int >= 0,
                    total as int >= 0,
            ;
            assert((n as int) * 0xffff_ffff <= 0xffff_ffff_ffff_ffff * 0xffff_ffff)
                by (nonlinear_arith)
                requires
                    0 <= n as int <= 0xffff_ffff_ffff_ffff,
            ;
        }
        let ideal: u128 = (2 * (w as u128) * (total as u128) + s) / (2 * s);
        let entry: u32 = if ideal < 1 { 1 } else { ideal as u32 };
        assert(entry as int == prov[i as int]);
        r.push(entry);
        i = i + 1;
    }
    proof {
        assert(ints_of(r@) =~= prov);
    }
    r
}

/// Step 4 of the algorithm as executable code: the deterministic
/// reverse-order reconciliation walk. Starting from the last category and
/// wrapping around, entries are incremented one unit at a time while the
/// sum falls short of the total, and decremented (never below one) while
/// it exceeds the total. The result is a function of the provisional
/// allocation and the total alone.
#[verifier::loop_isolation(false)]
pub fn reconcile(alloc: Vec<u32>, total: u32) -> (r: Vec<u32>)
    requires
        forall|k: int| 0 <= k < alloc@.len() ==> alloc@[k] >= 1,
        alloc@.len() <= total as int,
        alloc@.len() == 0 ==> total == 0,
    ensures
        r@.len() == alloc@.len(),
        ints_of(r@) == spec_reconcile(ints_of(alloc@), total as int),
        sum_seq(ints_of(r@)) == total as int,
        forall|k: int| 0 <= k < r@.len() ==> r@[k] >= 1,
{
    let ghost p0 = ints_of(alloc@);
    let n = alloc.len();
    let mut a = alloc;
    let mut assigned: u128 = 0;
    let mut i: usize = 0;
    while i < n
        invariant
            i <= n,
            a@ == alloc@,
            assigned == sum_seq(p0.take(i as int)),
            assigned <= (i as int) * 0xffff_ffff,
        decreases n - i,
    {
        proof {
            lemma_sum_take_step(p0, i as int);
            assert((i as int) * 0xffff_ffff + 0xffff_ffff == ((i + 1) as int) * 0xffff_ffff)
                by (nonlinear_arith);
        }
        assigned = assigned + (a[i] as u128);
        i = i + 1;
    }
    proof {
        lemma_sum_full(p0);
    }
    let ghost sum0 = sum_seq(p0);
    let t128 = total as u128;
    if assigned < t128 {
        let ghost target = inc_walk(p0, n as int - 1, (total as int - sum0) as nat);
        let mut idx: usize = n;
        while assigned < t128
            invariant
                idx <= n,
                n == a@.len(),
                assigned == sum_seq(ints_of(a@)),
                assigned <= t128,
                forall|k: int| 0 <= k < n ==> a@[k] >= 1,
                inc_walk(ints_of(a@), idx as int - 1, (t128 - assigned) as nat) == target,
            decreases t128 - assigned,
        {
            if idx == 0 {
                idx = n;
            }
            idx = idx - 1;
            proof {
                assert(forall|k: int| 0 <= k < n ==> ints_of(a@)[k] >= 0);
                lemma_sum_bounds_entry(ints_of(a@), idx as int);
            }
            let v = a[idx];
            let ghost a_pre = ints_of(a@);
            a.set(idx, v + 1);
            assigned = assigned + 1;
            proof {
                assert(ints_of(a@) =~= a_pre.update(idx as int, v as int + 1));
                lemma_sum_update(a_pre, idx as int, v as int + 1);
            }
        }
        proof {
            assert(ints_of(a@) == target);
        }
        a
    } else if assigned > t128 {
        let ghost target = dec_walk(p0, n as int - 1, (sum0 - total as int) as nat, false);
        let mut idx: usize = n;
        let mut changed: bool = false;
        while assigned > t128
            invariant
                idx <= n,
                n == a@.len(),
                assigned == sum_seq(ints_of(a@)),
                assigned >= t128,
                forall|k: int| 0 <= k < n ==> a@[k] >= 1,
                !changed ==> forall|k: int| idx <= k < n ==> a@[k] == 1,
                dec_walk(
                    ints_of(a@),
                    idx as int - 1,
                    (assigned - t128) as nat,
                    changed,
                ) == target,
            decreases assigned - t128, (if changed { 1int } else { 0int }), idx,
        {
            if idx == 0 {
                proof {
                    if !changed {
                        lemma_sum_upper_bound(ints_of(a@), 1);
                        assert(1 * (n as int) == n as int);
                        assert(false);
                    }
                }
                assert(changed);
                idx = n;
                changed = false;
            } else {
                idx = idx - 1;
                let v = a[idx];
                if v > 1 {
                    let ghost a_pre = ints_of(a@);
                    a.set(idx, v - 1);
                    assigned = assigned - 1;
                    changed = true;
                    proof {
                        assert(ints_of(a@) =~= a_pre.update(idx as int, v as int - 1));
                        lemma_sum_update(a_pre, idx as int, v as int - 1);
                    }
                }
            }
        }
        proof {
            assert(ints_of(a@) == target);
        }
        a
    } else {
        a
    }
}

/// Partition `total` units across one category per weight.
///
/// On success the result has one entry per weight, sums exactly to
/// `total`, and keeps every category at least one unit whenever
/// `total >= categoryCount`; when `total < categoryCount` the minimum is
/// relaxed instead: the first `total` categories receive one unit each
/// and the rest receive zero. Positive capacity is rejected when there
/// are no categories, or when every weight is zero (shares cannot be
/// normalized).
#[verifier::loop_isolation(false)]
pub fn partition(total: u32, weights: &Vec<u32>) -> (r: Result<Vec<u32>, PartitionError>)
    ensures
        r is Ok <==> (total == 0 || (weights@.len() > 0 && sum_seq(ints_of(weights@)) > 0)),
        r matches Ok(a) ==> {
            &&& a@.len() == weights@.len()
            &&& ints_of(a@) == spec_partition(total as int, ints_of(weights@))
            &&& sum_seq(ints_of(a@)) == total as int
            &&& (total as int >= weights@.len() ==> forall|k: int|
                0 <= k < a@.len() ==> a@[k] >= 1)
            &&& ((total as int) < weights@.len() ==> forall|k: int|
                0 <= k < a@.len() ==> a@[k] == (if k < total as int { 1u32 } else { 0u32 }))
        },
        (r matches Err(e) && e is EmptyWeights) <==> (total > 0 && weights@.len() == 0),
        (r matches Err(e) && e is ZeroWeightSum) <==> (total > 0 && weights@.len() > 0
            && sum_seq(ints_of(weights@)) == 0),
{
    let ghost ws = ints_of(weights@);
    let n = weights.len();
    if total > 0 && n == 0 {
        return Err(PartitionError::EmptyWeights);
    }
    let s = weight_sum(weights);
    proof {
        assert(forall|k: int| 0 <= k < ws.len() ==> ws[k] >= 0);
        lemma_sum_lower_bound(ws, 0);
        assert(0 * ws.len() == 0);
    }
    if total > 0 && s == 0 {
        return Err(PartitionError::ZeroWeightSum);
    }
    if (total as usize) < n {
        let ghost pat = Seq::new(n as nat, |i: int| if i < total as int { 1int } else { 0int });
        let mut r: Vec<u32> = Vec::new();
        let mut i: usize = 0;
        while i < n
            invariant
                i <= n,
                r@.len() == i,
                forall|k: int| 0 <= k < i ==> (r@[k] as int) == pat[k],
            decreases n - i,
        {
            if i < total as usize {
                r.push(1);
            } else {
                r.push(0);
            }
            i = i + 1;
        }
        proof {
            assert(ws.len() == weights@.len());
            assert(ints_of(r@) =~= pat);
            assert(pat =~= spec_partition(total as int, ws));
            lemma_sum_ones_prefix(n as int, total as int);
            assert forall|k: int| 0 <= k < r@.len() implies r@[k] == (if k < total as int {
                1u32
            } else {
                0u32
            }) by {
                assert((r@[k] as int) == pat[k]);
            }
        }
        Ok(r)
    } else {
        let p = provisional_allocation(total, weights);
        let a = reconcile(p, total);
        proof {
            assert(ws.len() == weights@.len());
            assert(ints_of(a@) == spec_partition(total as int, ws));
        }
        Ok(a)
    }
}

} // verus!

