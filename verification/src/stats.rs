//! Statistics over a stake distribution: descending insertion sort,
//! Nakamoto coefficients, concentration shares and the Gini coefficient.
//!
//! All quantities are integers. Fractional results (shares, Gini) are
//! numerators over [`crate::state::RATE_SCALE`].

use vstd::prelude::*;
use crate::state::{Validator, RATE_SCALE};

verus! {

/// Sum of the first `i` entries, as a mathematical integer.
pub open spec fn sum_upto(s: Seq<u64>, i: int) -> int
    decreases i,
{
    if i <= 0 {
        0
    } else {
        sum_upto(s, i - 1) + s[i - 1]
    }
}

/// Sum of all entries.
pub open spec fn sum_all(s: Seq<u64>) -> int {
    sum_upto(s, s.len() as int)
}

pub proof fn lemma_sum_upto_nonneg(s: Seq<u64>, i: int)
    requires
        i <= s.len(),
    ensures
        0 <= sum_upto(s, i),
    decreases i,
{
    if i > 0 {
        lemma_sum_upto_nonneg(s, i - 1);
    }
}

pub proof fn lemma_sum_upto_bound(s: Seq<u64>, i: int, b: int)
    requires
        0 <= i <= s.len(),
        forall|k: int| 0 <= k < s.len() ==> s[k] <= b,
        0 <= b,
    ensures
        sum_upto(s, i) <= i * b,
    decreases i,
{
    if i > 0 {
        lemma_sum_upto_bound(s, i - 1, b);
        assert(i * b == (i - 1) * b + b) by (nonlinear_arith);
    }
}

/// Two sequences that agree on their first `i` entries have the same
/// partial sums there.
pub proof fn lemma_sum_upto_agree(s1: Seq<u64>, s2: Seq<u64>, i: int)
    requires
        i <= s1.len(),
        i <= s2.len(),
        forall|k: int| 0 <= k < i ==> s1[k] == s2[k],
    ensures
        sum_upto(s1, i) == sum_upto(s2, i),
    decreases i,
{
    if i > 0 {
        lemma_sum_upto_agree(s1, s2, i - 1);
    }
}

pub proof fn lemma_sum_upto_mono(s: Seq<u64>, i: int, j: int)
    requires
        0 <= i <= j <= s.len(),
    ensures
        sum_upto(s, i) <= sum_upto(s, j),
    decreases j,
{
    if i < j {
        lemma_sum_upto_mono(s, i, j - 1);
    }
}

/// Sum of a cons: peeling the head shifts every index by one.
pub proof fn lemma_sum_upto_cons(t: Seq<u64>, v: u64, i: int)
    requires
        0 <= i <= t.len(),
    ensures
        sum_upto(seq![v] + t, i + 1) == v + sum_upto(t, i),
    decreases i,
{
    let c = seq![v] + t;
    if i == 0 {
        assert(c[0] == v);
        assert(sum_upto(c, 1) == sum_upto(c, 0) + c[0]);
        assert(sum_upto(c, 0) == 0);
    } else {
        lemma_sum_upto_cons(t, v, i - 1);
        assert(c[i] == t[i - 1]);
        assert(sum_upto(c, i + 1) == sum_upto(c, i) + c[i]);
    }
}

/// The stakes of the active validators, in validator order.
pub open spec fn active_stakes(vs: Seq<Validator>) -> Seq<u64>
    decreases vs.len(),
{
    if vs.len() == 0 {
        Seq::empty()
    } else if vs.last().active {
        active_stakes(vs.drop_last()).push(vs.last().stake)
    } else {
        active_stakes(vs.drop_last())
    }
}

pub proof fn lemma_active_stakes_len(vs: Seq<Validator>)
    ensures
        active_stakes(vs).len() == crate::state::active_count(vs),
    decreases vs.len(),
{
    if vs.len() > 0 {
        lemma_active_stakes_len(vs.drop_last());
    }
}

pub proof fn lemma_active_stakes_sum(vs: Seq<Validator>)
    ensures
        sum_all(active_stakes(vs)) == crate::state::active_stake_sum(vs),
    decreases vs.len(),
{
    if vs.len() > 0 {
        lemma_active_stakes_sum(vs.drop_last());
        let prev = active_stakes(vs.drop_last());
        if vs.last().active {
            lemma_sum_upto_agree(prev.push(vs.last().stake), prev, prev.len() as int);
        }
    }
}

/// Gather the stakes of the active validators, in validator order.
pub fn collect_active_stakes(validators: &Vec<Validator>) -> (r: Vec<u64>)
    ensures
        r@ == active_stakes(validators@),
{
    let mut out: Vec<u64> = Vec::new();
    let n = validators.len();
    let mut i: usize = 0;
    while i < n
        invariant
            i <= n,
            n == validators@.len(),
            out@ == active_stakes(validators@.take(i as int)),
        decreases n - i,
    {
        proof {
            assert(validators@.take(i + 1).drop_last() =~= validators@.take(i as int));
            assert(validators@.take(i + 1).last() == validators@[i as int]);
        }
        if validators[i].active {
            out.push(validators[i].stake);
        }
        i = i + 1;
    }
    proof {
        assert(validators@.take(n as int) =~= validators@);
    }
    out
}

/// Sum of a sequence of stakes, in `u128` so that no overflow is possible.
pub fn sum_stakes(stakes: &Vec<u64>) -> (r: u128)
    ensures
        r == sum_all(stakes@),
{
    let mut total: u128 = 0;
    let n = stakes.len();
    let mut i: usize = 0;
    while i < n
        invariant
            i <= n,
            n == stakes@.len(),
            total == sum_upto(stakes@, i as int),
        decreases n - i,
    {
        proof {
            lemma_sum_upto_nonneg(stakes@, i as int);
            lemma_sum_upto_bound(stakes@, i as int, u64::MAX as int);
            assert(i as int * (u64::MAX as int) < (u128::MAX as int) - (u64::MAX as int))
                by (nonlinear_arith)
                requires i as int <= usize::MAX as int;
        }
        total = total + stakes[i] as u128;
        i = i + 1;
    }
    total
}

/// Weakly descending order.
pub open spec fn sorted_desc(s: Seq<u64>) -> bool {
    forall|i: int, j: int| 0 <= i < j < s.len() ==> s[i] >= s[j]
}

/// Insertion into a descending sequence, keeping strictly greater entries
/// in front.
pub open spec fn insert_desc(s: Seq<u64>, x: u64) -> Seq<u64>
    decreases s.len(),
{
    if s.len() == 0 {
        seq![x]
    } else if x >= s[0] {
        seq![x] + s
    } else {
        seq![s[0]] + insert_desc(s.drop_first(), x)
    }
}

/// Descending insertion sort.
pub open spec fn sort_desc(s: Seq<u64>) -> Seq<u64>
    decreases s.len(),
{
    if s.len() == 0 {
        Seq::empty()
    } else {
        insert_desc(sort_desc(s.drop_last()), s.last())
    }
}

pub proof fn lemma_insert_desc_len(s: Seq<u64>, x: u64)
    ensures
        insert_desc(s, x).len() == s.len() + 1,
    decreases s.len(),
{
    if s.len() > 0 && !(x >= s[0]) {
        lemma_insert_desc_len(s.drop_first(), x);
    }
}

pub proof fn lemma_sort_desc_len(s: Seq<u64>)
    ensures
        sort_desc(s).len() == s.len(),
    decreases s.len(),
{
    if s.len() > 0 {
        lemma_sort_desc_len(s.drop_last());
        lemma_insert_desc_len(sort_desc(s.drop_last()), s.last());
    }
}

pub proof fn lemma_insert_desc_sorted(s: Seq<u64>, x: u64)
    requires
        sorted_desc(s),
    ensures
        sorted_desc(insert_desc(s, x)),
    decreases s.len(),
{
    lemma_insert_desc_len(s, x);
    if s.len() > 0 && !(x >= s[0]) {
        lemma_insert_desc_sorted(s.drop_first(), x);
        lemma_insert_desc_len(s.drop_first(), x);
        let r = seq![s[0]] + insert_desc(s.drop_first(), x);
        lemma_insert_desc_elems(s.drop_first(), x);
        assert forall|i: int, j: int| 0 <= i < j < r.len() implies r[i] >= r[j] by {
            if i == 0 {
                let inner = insert_desc(s.drop_first(), x);
                assert(inner[j - 1] == x || s.drop_first().contains(inner[j - 1]));
            }
        }
    }
}

/// Every entry of `insert_desc(s, x)` is `x` or an entry of `s`.
pub proof fn lemma_insert_desc_elems(s: Seq<u64>, x: u64)
    ensures
        forall|i: int|
            0 <= i < insert_desc(s, x).len() ==> #[trigger] insert_desc(s, x)[i] == x
                || s.contains(insert_desc(s, x)[i]),
    decreases s.len(),
{
    lemma_insert_desc_len(s, x);
    if s.len() == 0 {
    } else if x >= s[0] {
        assert forall|i: int| 0 <= i < insert_desc(s, x).len() implies #[trigger] insert_desc(
            s,
            x,
        )[i] == x || s.contains(insert_desc(s, x)[i]) by {
            if i > 0 {
                assert(insert_desc(s, x)[i] == s[i - 1]);
            }
        }
    } else {
        lemma_insert_desc_elems(s.drop_first(), x);
        let inner = insert_desc(s.drop_first(), x);
        lemma_insert_desc_len(s.drop_first(), x);
        assert forall|i: int| 0 <= i < insert_desc(s, x).len() implies #[trigger] insert_desc(
            s,
            x,
        )[i] == x || s.contains(insert_desc(s, x)[i]) by {
            if i > 0 {
                assert(insert_desc(s, x)[i] == inner[i - 1]);
                if inner[i - 1] != x {
                    let k = choose|k: int|
                        0 <= k < s.drop_first().len() && s.drop_first()[k] == inner[i - 1];
                    assert(s[k + 1] == inner[i - 1]);
                }
            }
        }
    }
}

pub proof fn lemma_sort_desc_sorted(s: Seq<u64>)
    ensures
        sorted_desc(sort_desc(s)),
    decreases s.len(),
{
    if s.len() > 0 {
        lemma_sort_desc_sorted(s.drop_last());
        lemma_insert_desc_sorted(sort_desc(s.drop_last()), s.last());
    }
}

pub proof fn lemma_insert_desc_sum(s: Seq<u64>, x: u64)
    ensures
        sum_all(insert_desc(s, x)) == sum_all(s) + x,
    decreases s.len(),
{
    lemma_insert_desc_len(s, x);
    if s.len() == 0 {
        let r = insert_desc(s, x);
        assert(r[0] == x);
        assert(sum_upto(r, 1) == sum_upto(r, 0) + r[0]);
    } else if x >= s[0] {
        assert(seq![x] + s == insert_desc(s, x));
        lemma_sum_upto_cons(s, x, s.len() as int);
    } else {
        lemma_insert_desc_sum(s.drop_first(), x);
        lemma_insert_desc_len(s.drop_first(), x);
        let inner = insert_desc(s.drop_first(), x);
        lemma_sum_upto_cons(inner, s[0], inner.len() as int);
        lemma_sum_upto_cons(s.drop_first(), s[0], s.drop_first().len() as int);
        assert(seq![s[0]] + s.drop_first() =~= s);
    }
}

/// Sorting preserves the total stake.
pub proof fn lemma_sort_desc_sum(s: Seq<u64>)
    ensures
        sum_all(sort_desc(s)) == sum_all(s),
    decreases s.len(),
{
    if s.len() > 0 {
        lemma_sort_desc_sum(s.drop_last());
        lemma_insert_desc_sum(sort_desc(s.drop_last()), s.last());
        assert(sum_upto(s, s.len() as int) == sum_upto(s, s.len() - 1) + s.last());
        lemma_sum_upto_agree(s.drop_last(), s, s.len() - 1);
    }
}

/// Inserting at the first position whose entry is not strictly greater
/// than `x` is exactly `insert_desc`.
proof fn lemma_insert_desc_at(s: Seq<u64>, x: u64, j: int)
    requires
        0 <= j <= s.len(),
        forall|k: int| 0 <= k < j ==> s[k] > x,
        j < s.len() ==> s[j] <= x,
    ensures
        insert_desc(s, x) == s.insert(j, x),
    decreases j,
{
    lemma_insert_desc_len(s, x);
    if s.len() == 0 {
        assert(insert_desc(s, x) =~= s.insert(j, x));
    } else if j == 0 {
        assert(insert_desc(s, x) =~= s.insert(0, x));
    } else {
        lemma_insert_desc_at(s.drop_first(), x, j - 1);
        lemma_insert_desc_len(s.drop_first(), x);
        assert(insert_desc(s, x) =~= s.insert(j, x));
    }
}

/// Sort a stake list into weakly descending order.
pub fn sort_stakes_desc(stakes: &Vec<u64>) -> (r: Vec<u64>)
    ensures
        r@ == sort_desc(stakes@),
        sorted_desc(r@),
        r@.len() == stakes@.len(),
        sum_all(r@) == sum_all(stakes@),
{
    let mut out: Vec<u64> = Vec::new();
    let n = stakes.len();
    let mut i: usize = 0;
    while i < n
        invariant
            i <= n,
            n == stakes@.len(),
            out@ == sort_desc(stakes@.take(i as int)),
            out@.len() == i,
            sorted_desc(out@),
        decreases n - i,
    {
        let x = stakes[i];
        let mut j: usize = 0;
        while j < out.len() && out[j] > x
            invariant
                j <= out@.len(),
                forall|k: int| 0 <= k < j ==> out@[k] > x,
            decreases out@.len() - j,
        {
            j = j + 1;
        }
        proof {
            lemma_insert_desc_at(out@, x, j as int);
            lemma_insert_desc_sorted(out@, x);
            assert(stakes@.take(i + 1).drop_last() =~= stakes@.take(i as int));
            assert(stakes@.take(i + 1).last() == stakes@[i as int]);
        }
        out.insert(j, x);
        i = i + 1;
    }
    proof {
        assert(stakes@.take(n as int) =~= stakes@);
        lemma_sort_desc_len(stakes@);
        lemma_sort_desc_sum(stakes@);
    }
    out
}

/// Tail of the Nakamoto computation: with `cum` already accumulated over
/// the first `i` entries, the 1-based count of entries needed for the
/// cumulative stake to reach the fraction `num / den` of `total`, or the
/// full count if the threshold is never reached.
pub open spec fn nakamoto_from(
    s: Seq<u64>,
    num: u64,
    den: u64,
    total: int,
    cum: int,
    i: int,
) -> int
    decreases s.len() - i,
{
    if i < 0 || i >= s.len() {
        s.len() as int
    } else if (cum + s[i]) * den >= num * total {
        i + 1
    } else {
        nakamoto_from(s, num, den, total, cum + s[i], i + 1)
    }
}

/// The Nakamoto coefficient of a stake list at threshold `num / den`:
/// the minimal number of entries, taken in the given order, whose sum
/// reaches that fraction of the total; 0 for an empty list. Called on a
/// descending list this is the minimal number of top stakeholders that
/// together control the threshold fraction.
pub open spec fn nakamoto_of(s: Seq<u64>, num: u64, den: u64) -> int {
    if s.len() == 0 {
        0
    } else {
        nakamoto_from(s, num, den, sum_all(s), 0, 0)
    }
}

proof fn lemma_nakamoto_from_range(s: Seq<u64>, num: u64, den: u64, total: int, cum: int, i: int)
    requires
        0 <= i < s.len(),
    ensures
        i + 1 <= nakamoto_from(s, num, den, total, cum, i) <= s.len(),
    decreases s.len() - i,
{
    if (cum + s[i]) * den >= num * total {
        assert(nakamoto_from(s, num, den, total, cum, i) == i + 1);
    } else if i + 1 < s.len() {
        lemma_nakamoto_from_range(s, num, den, total, cum + s[i], i + 1);
    } else {
        assert(nakamoto_from(s, num, den, total, cum + s[i], i + 1) == s.len());
    }
}

/// On a nonempty stake list the Nakamoto coefficient is between 1 and the
/// number of stakeholders.
pub proof fn lemma_nakamoto_range(s: Seq<u64>, num: u64, den: u64)
    requires
        s.len() > 0,
    ensures
        1 <= nakamoto_of(s, num, den) <= s.len(),
{
    lemma_nakamoto_from_range(s, num, den, sum_all(s), 0, 0);
}

proof fn lemma_nakamoto_from_monotone(
    s: Seq<u64>,
    num1: u64,
    num2: u64,
    den: u64,
    total: int,
    cum: int,
    i: int,
)
    requires
        num1 <= num2,
        total >= 0,
        0 <= i,
    ensures
        nakamoto_from(s, num1, den, total, cum, i) <= nakamoto_from(s, num2, den, total, cum, i),
    decreases s.len() - i,
{
    if i < s.len() {
        assert(num1 * total <= num2 * total) by (nonlinear_arith)
            requires num1 <= num2, total >= 0;
        if (cum + s[i]) * den >= num2 * total {
        } else if (cum + s[i]) * den >= num1 * total {
            if i + 1 < s.len() {
                lemma_nakamoto_from_range(s, num2, den, total, cum + s[i], i + 1);
            }
        } else {
            lemma_nakamoto_from_monotone(s, num1, num2, den, total, cum + s[i], i + 1);
        }
    }
}

/// Reaching a larger cumulative share requires at least as many entries:
/// the Nakamoto coefficient is monotone in the threshold fraction.
pub proof fn lemma_nakamoto_threshold_monotone(s: Seq<u64>, num1: u64, num2: u64, den: u64)
    requires
        num1 <= num2,
    ensures
        nakamoto_of(s, num1, den) <= nakamoto_of(s, num2, den),
{
    if s.len() > 0 {
        lemma_sum_upto_nonneg(s, s.len() as int);
        lemma_nakamoto_from_monotone(s, num1, num2, den, sum_all(s), 0, 0);
    }
}

/// The minimal 1-based count of entries whose cumulative sum reaches
/// `threshold_num / threshold_den` of `total`; the full count if the
/// threshold is never reached; 0 for an empty list.
pub fn compute_nakamoto_coefficient(
    stakes: &Vec<u64>,
    threshold_num: u64,
    threshold_den: u64,
    total: u128,
) -> (r: usize)
    requires
        stakes@.len() <= crate::state::MAX_VALIDATORS,
        total == sum_all(stakes@),
        threshold_num <= RATE_SCALE,
        threshold_den <= RATE_SCALE,
    ensures
        r == nakamoto_of(stakes@, threshold_num, threshold_den),
{
    let n = stakes.len();
    if n == 0 {
        return 0;
    }
    proof {
        lemma_sum_upto_nonneg(stakes@, n as int);
        lemma_sum_upto_bound(stakes@, n as int, u64::MAX as int);
        assert(n as int * (u64::MAX as int) <= 0x100000 * 0xffff_ffff_ffff_ffff)
            by (nonlinear_arith)
            requires n as int <= 0x100000;
        assert(threshold_num * total <= (u128::MAX as int)) by (nonlinear_arith)
            requires
                0 <= total as int <= 0x100000 * 0xffff_ffff_ffff_ffff,
                threshold_num <= 0x100000,
        ;
    }
    let goal: u128 = (threshold_num as u128) * total;
    let mut cum: u128 = 0;
    let mut i: usize = 0;
    while i < n
        invariant
            i <= n,
            n == stakes@.len(),
            n <= crate::state::MAX_VALIDATORS,
            n > 0,
            total == sum_all(stakes@),
            threshold_num <= RATE_SCALE,
            threshold_den <= RATE_SCALE,
            goal == threshold_num * total,
            cum == sum_upto(stakes@, i as int),
            nakamoto_of(stakes@, threshold_num, threshold_den) == nakamoto_from(
                stakes@,
                threshold_num,
                threshold_den,
                total as int,
                cum as int,
                i as int,
            ),
        decreases n - i,
    {
        proof {
            lemma_sum_upto_nonneg(stakes@, i as int);
            lemma_sum_upto_mono(stakes@, i + 1, n as int);
            lemma_sum_upto_bound(stakes@, n as int, u64::MAX as int);
            assert(n as int * (u64::MAX as int) <= 0x100000 * 0xffff_ffff_ffff_ffff)
                by (nonlinear_arith)
                requires n as int <= 0x100000;
            assert((cum + stakes@[i as int]) * threshold_den <= (u128::MAX as int))
                by (nonlinear_arith)
                requires
                    0 <= cum + stakes@[i as int] <= 0x100000 * 0xffff_ffff_ffff_ffff,
                    threshold_den <= 0x100000;
            assert(threshold_num * total <= (u128::MAX as int)) by (nonlinear_arith)
                requires
                    0 <= total <= 0x100000 * 0xffff_ffff_ffff_ffff,
                    threshold_num <= 0x100000;
        }
        let cum2: u128 = cum + stakes[i] as u128;
        if cum2 * (threshold_den as u128) >= goal {
            return i + 1;
        }
        cum = cum2;
        i = i + 1;
    }
    n
}

/// Rank-weighted stake sum over the first `i` entries of a descending
/// list: entry `j` (0-based) is weighted by `len - 1 - 2*j`. This equals
/// the classical Gini numerator `sum((2*rank - n - 1) * value)` taken over
/// the same entries in ascending order.
pub open spec fn wsum_upto(s: Seq<u64>, i: int) -> int
    decreases i,
{
    if i <= 0 {
        0
    } else {
        wsum_upto(s, i - 1) + (s.len() - 2 * (i - 1) - 1) * s[i - 1]
    }
}

pub open spec fn wsum_all(s: Seq<u64>) -> int {
    wsum_upto(s, s.len() as int)
}

/// The Gini coefficient of a descending stake list, scaled by
/// `RATE_SCALE`: `wsum / (n * total)`, 0 for an empty list or zero total.
pub open spec fn gini_of(s: Seq<u64>) -> int {
    if s.len() == 0 || sum_all(s) == 0 {
        0
    } else {
        wsum_all(s) * RATE_SCALE / (s.len() * sum_all(s))
    }
}

/// Peeling the head of a list shifts every weight down by one:
/// `wsum([v] + t) == len(t)*v + wsum(t) - sum(t)`.
proof fn lemma_wsum_upto_cons(t: Seq<u64>, v: u64, i: int)
    requires
        0 <= i <= t.len(),
    ensures
        wsum_upto(seq![v] + t, i + 1) == t.len() * v + wsum_upto(t, i) - sum_upto(t, i),
    decreases i,
{
    let c = seq![v] + t;
    if i == 0 {
        assert(c[0] == v);
        assert(wsum_upto(c, 1) == wsum_upto(c, 0) + (c.len() - 1) * c[0]);
        assert((c.len() - 1) * v == t.len() * v);
    } else {
        lemma_wsum_upto_cons(t, v, i - 1);
        assert(c[i] == t[i - 1]);
        assert(wsum_upto(c, i + 1) == wsum_upto(c, i) + (c.len() - 2 * i - 1) * c[i]);
        assert(wsum_upto(t, i) == wsum_upto(t, i - 1) + (t.len() - 2 * (i - 1) - 1) * t[i - 1]);
        assert(sum_upto(t, i) == sum_upto(t, i - 1) + t[i - 1]);
        assert((c.len() - 2 * i - 1) * t[i - 1] == (t.len() - 2 * (i - 1) - 1) * t[i - 1] - t[i
            - 1]) by (nonlinear_arith)
            requires c.len() == t.len() + 1;
    }
}

/// On a weakly descending list the Gini numerator is nonnegative.
pub proof fn lemma_wsum_nonneg(s: Seq<u64>)
    requires
        sorted_desc(s),
    ensures
        wsum_all(s) >= 0,
    decreases s.len(),
{
    if s.len() > 0 {
        let v = s[0];
        let t = s.drop_first();
        assert(seq![v] + t =~= s);
        assert(sorted_desc(t));
        lemma_wsum_nonneg(t);
        lemma_wsum_upto_cons(t, v, t.len() as int);
        lemma_sum_upto_bound(t, t.len() as int, v as int);
    }
}

/// The Gini numerator is at most `(n - 1) * total`.
pub proof fn lemma_wsum_upper(s: Seq<u64>)
    ensures
        wsum_all(s) <= (s.len() - 1) * sum_all(s),
    decreases s.len(),
{
    if s.len() == 0 {
    } else {
        let v = s[0];
        let t = s.drop_first();
        assert(seq![v] + t =~= s);
        lemma_wsum_upper(t);
        lemma_wsum_upto_cons(t, v, t.len() as int);
        lemma_sum_upto_cons(t, v, t.len() as int);
        lemma_sum_upto_nonneg(t, t.len() as int);
        assert(
            t.len() * v + ((t.len() - 1) * sum_all(t)) - sum_all(t) <= (s.len() - 1) * (v
                + sum_all(t))
        ) by (nonlinear_arith)
            requires
                s.len() == t.len() + 1,
                sum_all(t) >= 0;
    }
}

/// A perfectly equal distribution has a zero Gini numerator.
pub proof fn lemma_wsum_equal_zero(s: Seq<u64>, v: u64)
    requires
        forall|k: int| 0 <= k < s.len() ==> s[k] == v,
    ensures
        wsum_all(s) == 0,
    decreases s.len(),
{
    if s.len() > 0 {
        let t = s.drop_first();
        assert(seq![v] + t =~= s);
        lemma_wsum_equal_zero(t, v);
        lemma_wsum_upto_cons(t, v, t.len() as int);
        lemma_sum_upto_bound(t, t.len() as int, v as int);
        lemma_sum_const(t, v, t.len() as int);
    }
}

proof fn lemma_sum_const(s: Seq<u64>, v: u64, i: int)
    requires
        0 <= i <= s.len(),
        forall|k: int| 0 <= k < s.len() ==> s[k] == v,
    ensures
        sum_upto(s, i) == i * v,
    decreases i,
{
    if i > 0 {
        lemma_sum_const(s, v, i - 1);
        assert(i * v == (i - 1) * v + v) by (nonlinear_arith);
    } else {
        assert(i * v == 0) by (nonlinear_arith)
            requires i == 0;
    }
}

/// With all stake in the first entry and none elsewhere, the Gini
/// numerator is `(n - 1) * total`.
pub proof fn lemma_wsum_concentrated(s: Seq<u64>)
    requires
        s.len() >= 1,
        forall|k: int| 1 <= k < s.len() ==> s[k] == 0,
    ensures
        wsum_all(s) == (s.len() - 1) * s[0],
        sum_all(s) == s[0],
    decreases s.len(),
{
    let v = s[0];
    let t = s.drop_first();
    assert(seq![v] + t =~= s);
    assert(forall|k: int| 0 <= k < t.len() ==> t[k] == 0);
    lemma_wsum_equal_zero(t, 0);
    lemma_sum_const(t, 0, t.len() as int);
    lemma_wsum_upto_cons(t, v, t.len() as int);
    lemma_sum_upto_cons(t, v, t.len() as int);
    assert(t.len() * v == (s.len() - 1) * s[0]);
}

/// The Gini coefficient of a descending stake list, scaled by
/// `RATE_SCALE`.
pub fn gini_from_sorted(stakes: &Vec<u64>) -> (r: u64)
    requires
        sorted_desc(stakes@),
        stakes@.len() <= crate::state::MAX_VALIDATORS,
    ensures
        r == gini_of(stakes@),
        r <= RATE_SCALE,
{
    let s = stakes;
    let n = s.len();
    if n == 0 {
        return 0;
    }
    let total = sum_stakes(s);
    if total == 0 {
        return 0;
    }
    proof {
        lemma_sum_upto_nonneg(s@, n as int);
        lemma_sum_upto_bound(s@, n as int, u64::MAX as int);
        assert(n as int * (u64::MAX as int) <= 0x100000 * 0xffff_ffff_ffff_ffff)
            by (nonlinear_arith)
            requires n as int <= 0x100000;
    }
    let mut pos: u128 = 0;
    let mut neg: u128 = 0;
    let mut i: usize = 0;
    while i < n
        invariant
            i <= n,
            n == s@.len(),
            0 < n <= crate::state::MAX_VALIDATORS,
            total == sum_all(s@),
            0 < total,
            total as int <= 0x100000 * 0xffff_ffff_ffff_ffff,
            pos as int - neg as int == wsum_upto(s@, i as int),
            pos as int <= n * sum_upto(s@, i as int),
            neg as int <= n * sum_upto(s@, i as int),
        decreases n - i,
    {
        proof {
            lemma_sum_upto_nonneg(s@, i as int);
            lemma_sum_upto_mono(s@, i + 1, n as int);
            assert(wsum_upto(s@, i + 1) == wsum_upto(s@, i as int) + (s@.len() - 2 * (
            i as int) - 1) * s@[i as int]);
            assert(n * sum_upto(s@, i + 1) == n * sum_upto(s@, i as int) + n * s@[i as int])
                by (nonlinear_arith)
                requires sum_upto(s@, i + 1) == sum_upto(s@, i as int) + s@[i as int];
            assert(n * sum_upto(s@, i + 1) <= n * (total as int)) by (nonlinear_arith)
                requires
                    sum_upto(s@, i + 1) <= total as int,
                    0 <= n,
            ;
            assert(n * (total as int) <= 0x100000 * (0x100000 * 0xffff_ffff_ffff_ffff))
                by (nonlinear_arith)
                requires
                    0 <= total as int <= 0x100000 * 0xffff_ffff_ffff_ffff,
                    0 <= n <= 0x100000,
            ;
        }
        let x: u128 = s[i] as u128;
        let twoi = 2 * i;
        if twoi + 1 <= n {
            let coeff: u128 = (n - 1 - twoi) as u128;
            proof {
                assert(coeff * x <= n * s@[i as int]) by (nonlinear_arith)
                    requires
                        coeff as int <= n,
                        x == s@[i as int],
                        0 <= x,
                ;
            }
            pos = pos + coeff * x;
        } else {
            let coeff: u128 = (twoi + 1 - n) as u128;
            proof {
                assert(coeff * x <= n * s@[i as int]) by (nonlinear_arith)
                    requires
                        coeff as int <= n,
                        x == s@[i as int],
                        0 <= x,
                ;
                assert((s@.len() - 2 * (i as int) - 1) * s@[i as int] == -(coeff * x))
                    by (nonlinear_arith)
                    requires
                        coeff == 2 * (i as int) + 1 - s@.len(),
                        x == s@[i as int],
                ;
            }
            neg = neg + coeff * x;
        }
        i = i + 1;
    }
    proof {
        lemma_wsum_nonneg(s@);
        lemma_wsum_upper(s@);
    }
    let num: u128 = pos - neg;
    proof {
        assert(n * (total as int) <= 0x100000 * (0x100000 * 0xffff_ffff_ffff_ffff))
            by (nonlinear_arith)
            requires
                0 <= total as int <= 0x100000 * 0xffff_ffff_ffff_ffff,
                0 <= n <= 0x100000,
        ;
    }
    let den: u128 = (n as u128) * total;
    proof {
        assert(0 < den <= 0x100000 * (0x100000 * 0xffff_ffff_ffff_ffff)) by (nonlinear_arith)
            requires
                den == n * (total as int),
                0 < n <= 0x100000,
                0 < total as int <= 0x100000 * 0xffff_ffff_ffff_ffff,
        ;
        assert(num <= den) by (nonlinear_arith)
            requires
                num as int <= (n - 1) * (total as int),
                den == n * (total as int),
                0 <= total as int,
        ;
        assert(num * RATE_SCALE <= den * RATE_SCALE) by (nonlinear_arith)
            requires num <= den;
        assert(den * RATE_SCALE <= (0x100000 * (0x100000 * 0xffff_ffff_ffff_ffff)) * 0x100000)
            by (nonlinear_arith)
            requires 0 < den <= 0x100000 * (0x100000 * 0xffff_ffff_ffff_ffff);
    }
    let g: u128 = (num * (RATE_SCALE as u128)) / den;
    proof {
        vstd::arithmetic::div_mod::lemma_div_is_ordered(
            (num * (RATE_SCALE as u128)) as int,
            (den * (RATE_SCALE as u128)) as int,
            den as int,
        );
        vstd::arithmetic::div_mod::lemma_div_by_multiple(RATE_SCALE as int, den as int);
        assert(den * (RATE_SCALE as u128) == (RATE_SCALE as int) * (den as int))
            by (nonlinear_arith);
    }
    g as u64
}

/// The Gini coefficient of a stake list, scaled by `RATE_SCALE`. The list
/// is sorted internally; 0 for an empty list or zero total.
pub fn compute_gini(stakes: &Vec<u64>) -> (r: u64)
    requires
        stakes@.len() <= crate::state::MAX_VALIDATORS,
    ensures
        r == gini_of(sort_desc(stakes@)),
        r <= RATE_SCALE,
{
    let sorted = sort_stakes_desc(stakes);
    gini_from_sorted(&sorted)
}

/// A perfectly equal nonempty distribution has Gini coefficient zero.
pub proof fn lemma_gini_equal_distribution(s: Seq<u64>, v: u64)
    requires
        forall|k: int| 0 <= k < s.len() ==> s[k] == v,
    ensures
        gini_of(s) == 0,
{
    if s.len() > 0 && sum_all(s) != 0 {
        lemma_wsum_equal_zero(s, v);
        assert(0 * RATE_SCALE == 0) by (nonlinear_arith);
        lemma_sum_upto_nonneg(s, s.len() as int);
        assert(0 < s.len() * sum_all(s)) by (nonlinear_arith)
            requires 0 < s.len(), 0 < sum_all(s);
        vstd::arithmetic::div_mod::lemma_div_of0((s.len() * sum_all(s)) as int);
    }
}

/// A distribution with one entry holding everything and the rest zero has
/// Gini coefficient `(n - 1) / n`, scaled by `RATE_SCALE`.
pub proof fn lemma_gini_concentrated(s: Seq<u64>)
    requires
        s.len() >= 1,
        s[0] > 0,
        forall|k: int| 1 <= k < s.len() ==> s[k] == 0,
    ensures
        gini_of(s) == (s.len() - 1) * RATE_SCALE / (s.len() as int),
{
    lemma_wsum_concentrated(s);
    let n = s.len() as int;
    let t = s[0] as int;
    assert(gini_of(s) == ((n - 1) * t) * RATE_SCALE / (n * t));
    assert(((n - 1) * t) * RATE_SCALE == t * ((n - 1) * RATE_SCALE)) by (nonlinear_arith);
    assert(n * t == t * n) by (nonlinear_arith);
    vstd::arithmetic::div_mod::lemma_div_multiples_vanish_quotient(t, (n - 1) * RATE_SCALE, n);
    assert((n - 1) * RATE_SCALE >= 0) by (nonlinear_arith)
        requires n >= 1;
}

} // verus!
