use vstd::prelude::*;

verus! {

/// While generating remaining hitresults, decide how they should be distributed.
#[derive(Copy, Clone, Debug, PartialEq, Eq, Structural)]
pub enum HitResultPriority {
    /// Prioritize good hitresults over bad ones
    BestCase,
    /// Prioritize bad hitresults over good ones
    WorstCase,
}

impl Default for HitResultPriority {
    fn default() -> (r: Self)
        ensures
            r == HitResultPriority::BestCase,
    {
        HitResultPriority::BestCase
    }
}

/// A non-negative fraction `num / den`, used for accuracies between 0 and 1.
#[derive(Copy, Clone, Debug, PartialEq, Eq, Structural)]
pub struct Fraction {
    pub num: u64,
    pub den: u64,
}

impl Fraction {
    /// A fraction in `[0, 1]`: a positive denominator and a numerator no
    /// larger than it.
    pub open spec fn is_unit(self) -> bool {
        0 < self.den && self.num <= self.den
    }

    pub open spec fn clamped_spec(num: u64, den: u64) -> Fraction {
        if den == 0 {
            Fraction { num: 0, den: 1 }
        } else if num <= den {
            Fraction { num, den }
        } else {
            Fraction { num: den, den }
        }
    }

    /// `num / den` clamped to `[0, 1]`; a zero denominator gives zero.
    pub fn clamped(num: u64, den: u64) -> (r: Fraction)
        ensures
            r == Fraction::clamped_spec(num, den),
            r.is_unit(),
    {
        if den == 0 {
            Fraction { num: 0, den: 1 }
        } else if num <= den {
            Fraction { num, den }
        } else {
            Fraction { num: den, den }
        }
    }
}

/// The weighted hit total of a play: 30 per 300, 10 per 100, 5 per 50,
/// 15 per slider end and 3 per slider tick (a tenth of the score points).
pub open spec fn hit_total(n300: int, n100: int, n50: int, ends: int, ticks: int) -> int {
    30 * n300 + 10 * n100 + 5 * n50 + 15 * ends + 3 * ticks
}

/// The weighted hit total of a perfect play over `n_objects` objects.
pub open spec fn full_total(n_objects: int, max_ends: int, max_ticks: int) -> int {
    30 * n_objects + 15 * max_ends + 3 * max_ticks
}

pub open spec fn abs_int(x: int) -> int {
    if x < 0 {
        -x
    } else {
        x
    }
}

/// `|acc - total / weight|`, scaled by `acc.den * weight` so that it is an
/// integer; with `weight` fixed it orders candidates by accuracy distance.
pub open spec fn acc_distance(acc: Fraction, weight: int, total: int) -> int {
    abs_int(acc.num * weight - acc.den * total)
}

/// `floor(num / den)`, or zero where that is negative.
pub open spec fn floor_or_zero(num: int, den: int) -> int {
    if num <= 0 {
        0
    } else {
        num / den
    }
}

/// `ceil(num / den)`, or zero where that is negative.
pub open spec fn ceil_or_zero(num: int, den: int) -> int {
    if num <= 0 {
        0
    } else {
        (num + den - 1) / den
    }
}

pub open spec fn min_int(a: int, b: int) -> int {
    if a <= b {
        a
    } else {
        b
    }
}

/// `a - b`, or zero where that is negative.
pub open spec fn sat_sub(a: int, b: int) -> int {
    if a >= b {
        a - b
    } else {
        0
    }
}


/// What a search for hitresults aims at: the accuracy, the weighted total of
/// a perfect play, and the slider hits that stay fixed.
#[derive(Copy, Clone, Debug, PartialEq, Eq, Structural)]
pub struct AccTarget {
    pub acc: Fraction,
    pub weight: u64,
    pub ends: u32,
    pub ticks: u32,
}

/// A bound on weighted hit totals: 48 times the largest `u32` stays below
/// it, so every product with a `u64` fits in a `u128`.
pub const MAX_WEIGHT: u64 = 0x100_0000_0000;

impl AccTarget {
    /// A unit accuracy and a weight within the bound.
    pub open spec fn wf(self) -> bool {
        &&& self.acc.is_unit()
        &&& self.weight <= MAX_WEIGHT
    }

    /// How far the accuracy of `(n300, n100, n50)` is from the target.
    pub open spec fn dist(self, c: (int, int, int)) -> int {
        acc_distance(self.acc, self.weight as int, hit_total(c.0, c.1, c.2, self.ends as int, self.ticks as int))
    }
}

/// Which bucket a one-dimensional search varies; the remaining objects go
/// to the bucket that is neither fixed nor varied.
#[derive(Copy, Clone, Debug, PartialEq, Eq, Structural)]
pub enum SearchKind {
    /// 300s fixed, 100s varied, 50s take the rest.
    Hundreds,
    /// 100s fixed, 300s varied, 50s take the rest.
    GreatsBeside100s,
    /// 50s fixed, 300s varied, 100s take the rest.
    GreatsBeside50s,
}

/// The `(n300, n100, n50)` that a search tries for the value `x`.
pub open spec fn candidate(kind: SearchKind, fixed: int, rest: int, x: int) -> (int, int, int) {
    match kind {
        SearchKind::Hundreds => (fixed, x, rest - x),
        SearchKind::GreatsBeside100s => (x, fixed, rest - x),
        SearchKind::GreatsBeside50s => (x, rest - x, fixed),
    }
}

/// The first candidate for `x` in `lo..=hi` whose accuracy is closest to the
/// target.
pub open spec fn first_closest(
    t: AccTarget,
    kind: SearchKind,
    fixed: int,
    rest: int,
    lo: int,
    hi: int,
) -> (int, int, int)
    decreases hi - lo,
{
    if hi <= lo {
        candidate(kind, fixed, rest, lo)
    } else {
        let prev = first_closest(t, kind, fixed, rest, lo, hi - 1);
        let c = candidate(kind, fixed, rest, hi);
        if t.dist(c) < t.dist(prev) {
            c
        } else {
            prev
        }
    }
}

/// For `x` 300s out of `rest` objects, the numerator of the number of 100s
/// that meets the target, over the denominator `5 * acc.den`; `base` is
/// the hit total of `rest` 50s plus the fixed slider hits.
pub open spec fn row_num(t: AccTarget, base: int, x: int) -> int {
    t.acc.num * t.weight - t.acc.den * (base + 25 * x)
}

pub open spec fn row_lo(t: AccTarget, base: int, rest: int, x: int) -> int {
    min_int(floor_or_zero(row_num(t, base, x), 5 * t.acc.den), rest - x)
}

pub open spec fn row_hi(t: AccTarget, base: int, rest: int, x: int) -> int {
    min_int(ceil_or_zero(row_num(t, base, x), 5 * t.acc.den), rest - x)
}

/// The closest candidate with `x` 300s, the rest split into 100s and 50s.
pub open spec fn row_best(t: AccTarget, base: int, rest: int, x: int) -> (int, int, int) {
    first_closest(t, SearchKind::Hundreds, x, rest - x, row_lo(t, base, rest, x), row_hi(t, base, rest, x))
}

/// The first closest candidate over the rows `lo..=hi` of 300 counts.
pub open spec fn first_closest_grid(t: AccTarget, base: int, rest: int, lo: int, hi: int) -> (int, int, int)
    decreases hi - lo,
{
    if hi <= lo {
        row_best(t, base, rest, lo)
    } else {
        let prev = first_closest_grid(t, base, rest, lo, hi - 1);
        let c = row_best(t, base, rest, hi);
        if t.dist(c) < t.dist(prev) {
            c
        } else {
            prev
        }
    }
}

pub open spec fn ints(c: (u32, u32, u32)) -> (int, int, int) {
    (c.0 as int, c.1 as int, c.2 as int)
}

proof fn lemma_mul_le(x: int, y: int, bx: int, by_: int)
    requires
        0 <= x <= bx,
        0 <= y <= by_,
    ensures
        0 <= x * y <= bx * by_,
{
    assert(0 <= x * y <= bx * by_) by (nonlinear_arith)
        requires
            0 <= x <= bx,
            0 <= y <= by_,
    ;
}

/// `acc.num * weight` and `acc.den * total` as exact integers.
pub fn scaled(t: &AccTarget, total: u64) -> (r: (u128, u128))
    requires
        t.wf(),
        total <= MAX_WEIGHT,
    ensures
        r.0 == t.acc.num * t.weight,
        r.1 == t.acc.den * total,
        r.0 <= u64::MAX * MAX_WEIGHT,
        r.1 <= u64::MAX * MAX_WEIGHT,
{
    proof {
        lemma_mul_le(t.acc.num as int, t.weight as int, u64::MAX as int, MAX_WEIGHT as int);
        lemma_mul_le(t.acc.den as int, total as int, u64::MAX as int, MAX_WEIGHT as int);
    }
    (t.acc.num as u128 * t.weight as u128, t.acc.den as u128 * total as u128)
}

/// The weighted hit total of `c` with the target's slider hits.
fn total_of(t: &AccTarget, c: (u32, u32, u32)) -> (r: u64)
    ensures
        r == hit_total(c.0 as int, c.1 as int, c.2 as int, t.ends as int, t.ticks as int),
{
    30 * c.0 as u64 + 10 * c.1 as u64 + 5 * c.2 as u64 + 15 * t.ends as u64 + 3 * t.ticks as u64
}

fn distance(t: &AccTarget, c: (u32, u32, u32)) -> (r: u128)
    requires
        t.wf(),
        hit_total(c.0 as int, c.1 as int, c.2 as int, t.ends as int, t.ticks as int) <= MAX_WEIGHT,
    ensures
        r == t.dist(ints(c)),
{
    let (a, b) = scaled(t, total_of(t, c));
    if a >= b {
        a - b
    } else {
        b - a
    }
}

fn candidate_exec(kind: SearchKind, fixed: u32, rest: u32, x: u32) -> (r: (u32, u32, u32))
    requires
        x <= rest,
        fixed + rest <= u32::MAX,
    ensures
        ints(r) == candidate(kind, fixed as int, rest as int, x as int),
        r.0 + r.1 + r.2 == fixed + rest,
{
    match kind {
        SearchKind::Hundreds => (fixed, x, rest - x),
        SearchKind::GreatsBeside100s => (x, fixed, rest - x),
        SearchKind::GreatsBeside50s => (x, rest - x, fixed),
    }
}

/// Every candidate of a search stays within the weight bound.
pub open spec fn search_fits(fixed: int, rest: int, t: AccTarget) -> bool {
    30 * (fixed + rest) + 15 * t.ends + 3 * t.ticks <= MAX_WEIGHT
}

/// Runs a one-dimensional search over `lo..=hi`.
pub fn closest(t: &AccTarget, kind: SearchKind, fixed: u32, rest: u32, lo: u32, hi: u32) -> (r: (
    u32,
    u32,
    u32,
))
    requires
        t.wf(),
        lo <= hi <= rest,
        fixed + rest <= u32::MAX,
        search_fits(fixed as int, rest as int, *t),
    ensures
        ints(r) == first_closest(*t, kind, fixed as int, rest as int, lo as int, hi as int),
        r.0 + r.1 + r.2 == fixed + rest,
{
    let mut best = candidate_exec(kind, fixed, rest, lo);
    let mut best_dist = distance(t, best);
    let mut x = lo;
    while x < hi
        invariant
            t.wf(),
            lo <= x <= hi <= rest,
            fixed + rest <= u32::MAX,
            search_fits(fixed as int, rest as int, *t),
            ints(best) == first_closest(*t, kind, fixed as int, rest as int, lo as int, x as int),
            best_dist == t.dist(ints(best)),
            best.0 + best.1 + best.2 == fixed + rest,
        decreases hi - x,
    {
        x = x + 1;
        let c = candidate_exec(kind, fixed, rest, x);
        let d = distance(t, c);
        if d < best_dist {
            best = c;
            best_dist = d;
        }
    }
    best
}

/// `floor` and `ceil` of `(pos - neg) / den`, each zero where negative.
fn floor_ceil(pos: u128, neg: u128, den: u128) -> (r: (u128, u128))
    requires
        0 < den <= u64::MAX * 30,
        pos <= u64::MAX * MAX_WEIGHT * 2,
    ensures
        r.0 == floor_or_zero(pos - neg, den as int),
        r.1 == ceil_or_zero(pos - neg, den as int),
{
    if pos <= neg {
        (0, 0)
    } else {
        let num = pos - neg;
        (num / den, (num + den - 1) / den)
    }
}

fn min_u32(a: u128, b: u32) -> (r: u32)
    ensures
        r == min_int(a as int, b as int),
{
    if a <= b as u128 {
        a as u32
    } else {
        b
    }
}

/// `min(floor(q), cap)` and `min(ceil(q), cap)` for `q = (pos - neg) / den`,
/// each of floor and ceil taken as zero where negative.
pub fn search_bounds(pos: u128, neg: u128, den: u128, cap: u32) -> (r: (u32, u32))
    requires
        0 < den <= u64::MAX * 30,
        pos <= u64::MAX * MAX_WEIGHT * 2,
    ensures
        r.0 == min_int(floor_or_zero(pos - neg, den as int), cap as int),
        r.1 == min_int(ceil_or_zero(pos - neg, den as int), cap as int),
        r.0 <= r.1 <= cap,
{
    let (lo, hi) = floor_ceil(pos, neg, den);
    proof {
        let num = pos - neg;
        if num > 0 {
            assert(num / (den as int) <= (num + den - 1) / (den as int)) by {
                vstd::arithmetic::div_mod::lemma_div_is_ordered(num, num + den - 1, den as int);
            }
        }
    }
    (min_u32(lo, cap), min_u32(hi, cap))
}

/// The range of 100 counts that a grid row for `x` 300s tries.
fn row_bounds(t: &AccTarget, base: u64, rest: u32, x: u32) -> (r: (u32, u32))
    requires
        t.wf(),
        x <= rest,
        base + 25 * x <= MAX_WEIGHT,
    ensures
        r.0 == row_lo(*t, base as int, rest as int, x as int),
        r.1 == row_hi(*t, base as int, rest as int, x as int),
        r.0 <= r.1 <= rest - x,
{
    let (pos, neg) = scaled(t, base + 25 * x as u64);
    search_bounds(pos, neg, 5 * t.acc.den as u128, rest - x)
}

/// Runs the two-dimensional search: 300 counts over `lo..=hi`, and for each
/// the 100 counts of its row.
pub fn closest_grid(t: &AccTarget, base: u64, rest: u32, lo: u32, hi: u32) -> (r: (u32, u32, u32))
    requires
        t.wf(),
        lo <= hi <= rest,
        base + 25 * rest <= MAX_WEIGHT,
        search_fits(0, rest as int, *t),
    ensures
        ints(r) == first_closest_grid(*t, base as int, rest as int, lo as int, hi as int),
        r.0 + r.1 + r.2 == rest,
{
    let (lo100, hi100) = row_bounds(t, base, rest, lo);
    let mut best = closest(t, SearchKind::Hundreds, lo, rest - lo, lo100, hi100);
    let mut best_dist = distance(t, best);
    let mut x = lo;
    while x < hi
        invariant
            t.wf(),
            lo <= x <= hi <= rest,
            base + 25 * rest <= MAX_WEIGHT,
            search_fits(0, rest as int, *t),
            ints(best) == first_closest_grid(*t, base as int, rest as int, lo as int, x as int),
            best_dist == t.dist(ints(best)),
            best.0 + best.1 + best.2 == rest,
        decreases hi - x,
    {
        x = x + 1;
        let (lo100, hi100) = row_bounds(t, base, rest, x);
        let c = closest(t, SearchKind::Hundreds, x, rest - x, lo100, hi100);
        let d = distance(t, c);
        if d < best_dist {
            best = c;
            best_dist = d;
        }
    }
    best
}


/// No candidate of a search is closer to the target than what it picks.
pub proof fn lemma_first_closest_is_closest(
    t: AccTarget,
    kind: SearchKind,
    fixed: int,
    rest: int,
    lo: int,
    hi: int,
    y: int,
)
    requires
        lo <= y <= hi,
    ensures
        t.dist(first_closest(t, kind, fixed, rest, lo, hi)) <= t.dist(candidate(kind, fixed, rest, y)),
    decreases hi - lo,
{
    if y < hi {
        lemma_first_closest_is_closest(t, kind, fixed, rest, lo, hi - 1, y);
    }
}

/// No row of the grid search holds a closer candidate than what it picks.
pub proof fn lemma_grid_is_closest(t: AccTarget, base: int, rest: int, lo: int, hi: int, x: int)
    requires
        lo <= x <= hi,
    ensures
        t.dist(first_closest_grid(t, base, rest, lo, hi)) <= t.dist(row_best(t, base, rest, x)),
    decreases hi - lo,
{
    if x < hi {
        lemma_grid_is_closest(t, base, rest, lo, hi - 1, x);
    }
}

/// A one-dimensional search whose candidates' hit totals rise by `k` per
/// step from `base` lands within one step of a target that lies between its
/// first and last candidate.
pub proof fn lemma_search_within_step(
    t: AccTarget,
    kind: SearchKind,
    fixed: int,
    rest: int,
    base: int,
    k: int,
)
    requires
        k > 0,
        rest >= 0,
        t.acc.den > 0,
        forall|x: int|
            #![trigger candidate(kind, fixed, rest, x)]
            {
                let c = candidate(kind, fixed, rest, x);
                hit_total(c.0, c.1, c.2, t.ends as int, t.ticks as int) == base + k * x
            },
        t.acc.den * base <= t.acc.num * t.weight <= t.acc.den * (base + k * rest),
    ensures
        ({
            let b = t.acc.den as int;
            let num = t.acc.num * t.weight - b * base;
            t.dist(
                first_closest(
                    t,
                    kind,
                    fixed,
                    rest,
                    min_int(floor_or_zero(num, k * b), rest),
                    min_int(ceil_or_zero(num, k * b), rest),
                ),
            ) < k * b
        }),
{
    let b = t.acc.den as int;
    let aw = t.acc.num * t.weight;
    let num = aw - b * base;
    let d = k * b;
    assert(d > 0) by (nonlinear_arith)
        requires
            k > 0,
            b > 0,
            d == k * b,
    ;
    assert(0 <= num <= d * rest) by (nonlinear_arith)
        requires
            num == aw - b * base,
            b * base <= aw <= b * (base + k * rest),
            d == k * b,
    ;
    let x = num / d;
    vstd::arithmetic::div_mod::lemma_fundamental_div_mod(num, d);
    vstd::arithmetic::div_mod::lemma_mod_bound(num, d);
    vstd::arithmetic::div_mod::lemma_div_pos_is_pos(num, d);
    vstd::arithmetic::div_mod::lemma_div_is_ordered(num, d * rest, d);
    vstd::arithmetic::div_mod::lemma_div_multiples_vanish(rest, d);
    assert(0 <= x <= rest);
    assert(d * x <= num < d * x + d);
    let lo = min_int(floor_or_zero(num, d), rest);
    let hi = min_int(ceil_or_zero(num, d), rest);
    if num > 0 {
        vstd::arithmetic::div_mod::lemma_div_is_ordered(num, num + d - 1, d);
    }
    assert(lo == x && x <= hi);
    let c = candidate(kind, fixed, rest, x);
    let total = hit_total(c.0, c.1, c.2, t.ends as int, t.ticks as int);
    assert(total == base + k * x);
    assert(aw - b * total == num - d * x) by (nonlinear_arith)
        requires
            total == base + k * x,
            num == aw - b * base,
            d == k * b,
    ;
    assert(t.dist(c) < d);
    lemma_first_closest_is_closest(t, kind, fixed, rest, lo, hi, x);
}

} // verus!
