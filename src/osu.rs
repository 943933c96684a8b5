use vstd::prelude::*;

use crate::hitresults::{
    ceil_or_zero, closest, closest_grid, first_closest, first_closest_grid, floor_or_zero,
    candidate, full_total, hit_total, ints, lemma_first_closest_is_closest, lemma_grid_is_closest,
    lemma_search_within_step, acc_distance, min_int, row_best, row_hi, row_lo, row_num, sat_sub,
    scaled, search_bounds, AccTarget, Fraction, HitResultPriority, SearchKind, MAX_WEIGHT,
};

verus! {

/// The hitresults and combo of an osu!standard play.
#[derive(Copy, Clone, Debug, PartialEq, Eq, Structural)]
pub struct OsuScoreState {
    /// Maximum combo that the score has had so far.
    pub max_combo: u32,
    /// Amount of successfully hit slider ticks and repeats (lazer only).
    pub slider_tick_hits: u32,
    /// Amount of successfully hit slider ends (lazer only).
    pub slider_end_hits: u32,
    pub n300: u32,
    pub n100: u32,
    pub n50: u32,
    pub misses: u32,
}

impl OsuScoreState {
    /// A state with every count at zero.
    pub fn new() -> (r: Self)
        ensures
            r == (OsuScoreState {
                max_combo: 0,
                slider_tick_hits: 0,
                slider_end_hits: 0,
                n300: 0,
                n100: 0,
                n50: 0,
                misses: 0,
            }),
    {
        OsuScoreState {
            max_combo: 0,
            slider_tick_hits: 0,
            slider_end_hits: 0,
            n300: 0,
            n100: 0,
            n50: 0,
            misses: 0,
        }
    }

    pub open spec fn total_hits_spec(self) -> int {
        self.n300 + self.n100 + self.n50 + self.misses
    }

    /// The number of judged objects: 300s, 100s, 50s and misses.
    pub fn total_hits(&self) -> (r: u64)
        ensures
            r == self.total_hits_spec(),
    {
        self.n300 as u64 + self.n100 as u64 + self.n50 as u64 + self.misses as u64
    }

    /// The accuracy of the play as a fraction, slider ends and ticks counted
    /// against the given maxima; zero when nothing has been judged.
    pub fn accuracy(&self, max_slider_ticks: u32, max_slider_ends: u32) -> (r: Fraction)
        ensures
            self.total_hits_spec() + self.slider_tick_hits + self.slider_end_hits == 0 ==> r
                == (Fraction { num: 0, den: 1 }),
            self.total_hits_spec() + self.slider_tick_hits + self.slider_end_hits > 0 ==> r.num
                == 300 * self.n300 + 100 * self.n100 + 50 * self.n50 + 150 * self.slider_end_hits
                + 30 * self.slider_tick_hits && r.den == 300 * self.total_hits_spec() + 150
                * max_slider_ends + 30 * max_slider_ticks,
    {
        let judged = self.total_hits() + self.slider_tick_hits as u64 + self.slider_end_hits as u64;
        if judged == 0 {
            Fraction { num: 0, den: 1 }
        } else {
            let num = 300 * self.n300 as u64 + 100 * self.n100 as u64 + 50 * self.n50 as u64 + 150
                * self.slider_end_hits as u64 + 30 * self.slider_tick_hits as u64;
            let den = 300 * self.total_hits() + 150 * max_slider_ends as u64 + 30
                * max_slider_ticks as u64;
            Fraction { num, den }
        }
    }
}

/// The object counts of an osu!standard map that hitresult generation and
/// miss inference read.
#[derive(Copy, Clone, Debug, PartialEq, Eq, Structural)]
pub struct OsuMapCounts {
    pub max_combo: u32,
    pub n_circles: u32,
    pub n_sliders: u32,
    pub n_spinners: u32,
    pub n_slider_ticks: u32,
}

impl OsuMapCounts {
    pub open spec fn n_objects_spec(self) -> int {
        self.n_circles + self.n_sliders + self.n_spinners
    }

    /// The number of hit objects: circles, sliders and spinners.
    pub fn n_objects(&self) -> (r: u64)
        ensures
            r == self.n_objects_spec(),
    {
        self.n_circles as u64 + self.n_sliders as u64 + self.n_spinners as u64
    }
}

/// Performance settings for osu!standard: the map's object counts, and the
/// parts of a score that are given; the rest is generated.
#[derive(Copy, Clone, Debug, PartialEq, Eq, Structural)]
pub struct OsuPerformance {
    pub counts: OsuMapCounts,
    pub passed_objects: Option<u32>,
    pub acc: Option<Fraction>,
    pub combo: Option<u32>,
    pub slider_tick_hits: Option<u32>,
    pub slider_end_hits: Option<u32>,
    pub n300: Option<u32>,
    pub n100: Option<u32>,
    pub n50: Option<u32>,
    pub misses: Option<u32>,
    pub hitresult_priority: HitResultPriority,
    pub lazer: Option<bool>,
}

pub open spec fn or_else(o: Option<u32>, d: int) -> int {
    match o {
        Some(v) => v as int,
        None => d,
    }
}

/// The shift that `priority` applies to a generated `(n300, n100, n50)`:
/// trading one 300 and four 50s for five 100s as often as possible, or the
/// other way round.
pub open spec fn priority_shift(priority: HitResultPriority, c: (int, int, int)) -> (int, int, int) {
    match priority {
        HitResultPriority::BestCase => {
            let n = min_int(c.0, c.2 / 4);
            (c.0 - n, c.1 + 5 * n, c.2 - 4 * n)
        },
        HitResultPriority::WorstCase => {
            let n = c.1 / 5;
            (c.0 + n, c.1 - 5 * n, c.2 + 4 * n)
        },
    }
}

impl OsuPerformance {
    /// The number of objects that the score covers.
    pub open spec fn n_objects_spec(self) -> int {
        min_int(or_else(self.passed_objects, u32::MAX as int), self.counts.n_objects_spec())
    }

    pub open spec fn misses_spec(self) -> int {
        min_int(or_else(self.misses, 0), self.n_objects_spec())
    }

    /// Objects that are neither misses nor beyond the covered ones.
    pub open spec fn remaining_spec(self) -> int {
        self.n_objects_spec() - self.misses_spec()
    }

    /// The given counts are capped together at the remaining objects, in
    /// the order 300s, 100s, 50s, so that they never add up to more.
    pub open spec fn given300(self) -> int {
        min_int(or_else(self.n300, 0), self.remaining_spec())
    }

    pub open spec fn given100(self) -> int {
        min_int(or_else(self.n100, 0), self.remaining_spec() - self.given300())
    }

    pub open spec fn given50(self) -> int {
        min_int(or_else(self.n50, 0), self.remaining_spec() - self.given300() - self.given100())
    }

    pub open spec fn lazer_spec(self) -> bool {
        match self.lazer {
            Some(l) => l,
            None => true,
        }
    }

    pub open spec fn max_ends(self) -> int {
        if self.lazer_spec() {
            self.counts.n_sliders as int
        } else {
            0
        }
    }

    pub open spec fn max_ticks(self) -> int {
        if self.lazer_spec() {
            self.counts.n_slider_ticks as int
        } else {
            0
        }
    }

    pub open spec fn ends_spec(self) -> int {
        min_int(or_else(self.slider_end_hits, self.max_ends()), self.max_ends())
    }

    pub open spec fn ticks_spec(self) -> int {
        min_int(or_else(self.slider_tick_hits, self.max_ticks()), self.max_ticks())
    }

    /// What the searches aim at, for the accuracy `acc`.
    pub open spec fn target(self, acc: Fraction) -> AccTarget {
        AccTarget {
            acc,
            weight: full_total(self.n_objects_spec(), self.max_ends(), self.max_ticks()) as u64,
            ends: self.ends_spec() as u32,
            ticks: self.ticks_spec() as u32,
        }
    }

    /// The fixed slider hits and the `rest` objects as 50s, weighted.
    pub open spec fn base_spec(self, rest: int) -> int {
        5 * rest + 15 * self.ends_spec() + 3 * self.ticks_spec()
    }

    /// With only the 300s given: the 100s searched, the 50s taking the rest.
    pub open spec fn search_hundreds(self, acc: Fraction) -> (int, int, int) {
        let t = self.target(acc);
        let n300 = self.given300();
        let rest = self.remaining_spec() - n300;
        let b = acc.den as int;
        let num = acc.num * t.weight - b * (self.base_spec(rest) + 30 * n300);
        first_closest(
            t,
            SearchKind::Hundreds,
            n300,
            rest,
            min_int(floor_or_zero(num, 5 * b), rest),
            min_int(ceil_or_zero(num, 5 * b), rest),
        )
    }

    /// With only the 100s given: the 300s searched, the 50s taking the rest.
    pub open spec fn search_beside100s(self, acc: Fraction) -> (int, int, int) {
        let t = self.target(acc);
        let n100 = self.given100();
        let rest = self.remaining_spec() - n100;
        let b = acc.den as int;
        let num = acc.num * t.weight - b * (self.base_spec(rest) + 10 * n100);
        first_closest(
            t,
            SearchKind::GreatsBeside100s,
            n100,
            rest,
            min_int(floor_or_zero(num, 25 * b), rest),
            min_int(ceil_or_zero(num, 25 * b), rest),
        )
    }

    /// With only the 50s given: the 300s searched, the 100s taking the rest.
    pub open spec fn search_beside50s(self, acc: Fraction) -> (int, int, int) {
        let t = self.target(acc);
        let n50 = self.given50();
        let m = self.misses_spec();
        let rest = self.remaining_spec() - n50;
        let b = acc.den as int;
        let num = acc.num * t.weight + b * (10 * m + 5 * n50) - b * (10 * self.n_objects_spec()
            + 15 * t.ends + 3 * t.ticks);
        first_closest(
            t,
            SearchKind::GreatsBeside50s,
            n50,
            rest,
            min_int(floor_or_zero(num, 20 * b), rest),
            min_int(ceil_or_zero(num, 20 * b), rest),
        )
    }

    /// With no count given: 300s and 100s searched together, then the
    /// priority's shift.
    pub open spec fn search_all(self, acc: Fraction) -> (int, int, int) {
        let t = self.target(acc);
        let nr = self.remaining_spec();
        let base = self.base_spec(nr);
        let b = acc.den as int;
        let num = acc.num * t.weight - b * base;
        priority_shift(
            self.hitresult_priority,
            first_closest_grid(
                t,
                base,
                nr,
                min_int(floor_or_zero(num, 25 * b), nr),
                min_int(ceil_or_zero(num, 25 * b), nr),
            ),
        )
    }

    /// The generated `(n300, n100, n50)` when an accuracy is given.
    pub open spec fn hits_for_acc(self, acc: Fraction) -> (int, int, int) {
        let (n300, n100, n50) = (self.given300(), self.given100(), self.given50());
        let m = self.misses_spec();
        let n_obj = self.n_objects_spec();
        match (self.n300, self.n100, self.n50) {
            (Some(_), Some(_), Some(_)) => {
                let remaining = sat_sub(n_obj, n300 + n100 + n50 + m);
                match self.hitresult_priority {
                    HitResultPriority::BestCase => (n300 + remaining, n100, n50),
                    HitResultPriority::WorstCase => (n300, n100, n50 + remaining),
                }
            },
            (Some(_), Some(_), None) => (n300, n100, sat_sub(n_obj, n300 + n100 + m)),
            (Some(_), None, Some(_)) => (n300, sat_sub(n_obj, n300 + n50 + m), n50),
            (None, Some(_), Some(_)) => (sat_sub(n_obj, n100 + n50 + m), n100, n50),
            (Some(_), None, None) => self.search_hundreds(acc),
            (None, Some(_), None) => self.search_beside100s(acc),
            (None, None, Some(_)) => self.search_beside50s(acc),
            (None, None, None) => self.search_all(acc),
        }
    }

    /// The generated `(n300, n100, n50)` when no accuracy is given: the
    /// objects that no count covers go to the first bucket that was not
    /// given, from the best (or, for the worst case, the worst) judgement on.
    pub open spec fn hits_without_acc(self) -> (int, int, int) {
        let (n300, n100, n50) = (self.given300(), self.given100(), self.given50());
        let remaining = sat_sub(self.n_objects_spec(), n300 + n100 + n50 + self.misses_spec());
        match self.hitresult_priority {
            HitResultPriority::BestCase => {
                if self.n300.is_none() {
                    (remaining, n100, n50)
                } else if self.n100.is_none() {
                    (n300, remaining, n50)
                } else if self.n50.is_none() {
                    (n300, n100, remaining)
                } else {
                    (n300 + remaining, n100, n50)
                }
            },
            HitResultPriority::WorstCase => {
                if self.n50.is_none() {
                    (n300, n100, remaining)
                } else if self.n100.is_none() {
                    (n300, remaining, n50)
                } else if self.n300.is_none() {
                    (remaining, n100, n50)
                } else {
                    (n300, n100, n50 + remaining)
                }
            },
        }
    }

    pub open spec fn hits_spec(self) -> (int, int, int) {
        match self.acc {
            Some(acc) => self.hits_for_acc(acc),
            None => self.hits_without_acc(),
        }
    }

    pub open spec fn combo_spec(self) -> int {
        let max_possible = sat_sub(self.counts.max_combo as int, self.misses_spec());
        min_int(or_else(self.combo, max_possible), max_possible)
    }

    /// The score state that generation yields for these settings.
    pub open spec fn generated(self) -> OsuScoreState {
        let h = self.hits_spec();
        OsuScoreState {
            max_combo: self.combo_spec() as u32,
            slider_tick_hits: self.ticks_spec() as u32,
            slider_end_hits: self.ends_spec() as u32,
            n300: h.0 as u32,
            n100: h.1 as u32,
            n50: h.2 as u32,
            misses: self.misses_spec() as u32,
        }
    }

    pub open spec fn wf(self) -> bool {
        match self.acc {
            Some(acc) => acc.is_unit(),
            None => true,
        }
    }
}


fn min_u64(a: u64, b: u64) -> (r: u64)
    ensures
        r == min_int(a as int, b as int),
{
    if a <= b {
        a
    } else {
        b
    }
}

fn sat_sub_u64(a: u64, b: u64) -> (r: u64)
    ensures
        r == sat_sub(a as int, b as int),
{
    if a >= b {
        a - b
    } else {
        0
    }
}

fn shift_exec(priority: HitResultPriority, c: (u32, u32, u32)) -> (r: (u32, u32, u32))
    requires
        c.0 + c.1 + c.2 <= u32::MAX,
    ensures
        ints(r) == priority_shift(priority, ints(c)),
        r.0 + r.1 + r.2 == c.0 + c.1 + c.2,
{
    let (n300, n100, n50) = c;
    match priority {
        HitResultPriority::BestCase => {
            let n = if n300 <= n50 / 4 {
                n300
            } else {
                n50 / 4
            };
            (n300 - n, n100 + 5 * n, n50 - 4 * n)
        },
        HitResultPriority::WorstCase => {
            let n = n100 / 5;
            (n300 + n, n100 - 5 * n, n50 + 4 * n)
        },
    }
}

impl OsuPerformance {
    /// Settings for a map with the given object counts, with nothing of the
    /// score given yet.
    pub fn new(counts: OsuMapCounts) -> (r: Self)
        ensures
            r == (OsuPerformance {
                counts,
                passed_objects: None,
                acc: None,
                combo: None,
                slider_tick_hits: None,
                slider_end_hits: None,
                n300: None,
                n100: None,
                n50: None,
                misses: None,
                hitresult_priority: HitResultPriority::BestCase,
                lazer: None,
            }),
    {
        OsuPerformance {
            counts,
            passed_objects: None,
            acc: None,
            combo: None,
            slider_tick_hits: None,
            slider_end_hits: None,
            n300: None,
            n100: None,
            n50: None,
            misses: None,
            hitresult_priority: HitResultPriority::BestCase,
            lazer: None,
        }
    }

    /// Specify the max combo of the play.
    pub fn combo(self, combo: u32) -> (r: Self)
        ensures
            r == (OsuPerformance { combo: Some(combo), ..self }),
    {
        OsuPerformance { combo: Some(combo), ..self }
    }

    /// Specify how hitresults are generated.
    pub fn hitresult_priority(self, hitresult_priority: HitResultPriority) -> (r: Self)
        ensures
            r == (OsuPerformance { hitresult_priority: hitresult_priority, ..self }),
    {
        OsuPerformance { hitresult_priority: hitresult_priority, ..self }
    }

    /// Whether the score was set on lazer, which counts slider ends and ticks.
    pub fn lazer(self, lazer: bool) -> (r: Self)
        ensures
            r == (OsuPerformance { lazer: Some(lazer), ..self }),
    {
        OsuPerformance { lazer: Some(lazer), ..self }
    }

    /// Specify the amount of hit slider ticks (lazer only).
    pub fn n_slider_ticks(self, n_slider_ticks: u32) -> (r: Self)
        ensures
            r == (OsuPerformance { slider_tick_hits: Some(n_slider_ticks), ..self }),
    {
        OsuPerformance { slider_tick_hits: Some(n_slider_ticks), ..self }
    }

    /// Specify the amount of hit slider ends (lazer only).
    pub fn n_slider_ends(self, n_slider_ends: u32) -> (r: Self)
        ensures
            r == (OsuPerformance { slider_end_hits: Some(n_slider_ends), ..self }),
    {
        OsuPerformance { slider_end_hits: Some(n_slider_ends), ..self }
    }

    /// Specify the amount of 300s of a play.
    pub fn n300(self, n300: u32) -> (r: Self)
        ensures
            r == (OsuPerformance { n300: Some(n300), ..self }),
    {
        OsuPerformance { n300: Some(n300), ..self }
    }

    /// Specify the amount of 100s of a play.
    pub fn n100(self, n100: u32) -> (r: Self)
        ensures
            r == (OsuPerformance { n100: Some(n100), ..self }),
    {
        OsuPerformance { n100: Some(n100), ..self }
    }

    /// Specify the amount of 50s of a play.
    pub fn n50(self, n50: u32) -> (r: Self)
        ensures
            r == (OsuPerformance { n50: Some(n50), ..self }),
    {
        OsuPerformance { n50: Some(n50), ..self }
    }

    /// Specify the amount of misses of a play.
    pub fn misses(self, misses: u32) -> (r: Self)
        ensures
            r == (OsuPerformance { misses: Some(misses), ..self }),
    {
        OsuPerformance { misses: Some(misses), ..self }
    }

    /// Amount of passed objects for partial plays, e.g. a fail.
    pub fn passed_objects(self, passed_objects: u32) -> (r: Self)
        ensures
            r == (OsuPerformance { passed_objects: Some(passed_objects), ..self }),
    {
        OsuPerformance { passed_objects: Some(passed_objects), ..self }
    }

    /// Specify the accuracy of a play, between 0 and 1; a larger fraction
    /// counts as 1. This will be used to generate matching hitresults.
    pub fn accuracy(self, acc: Fraction) -> (r: Self)
        ensures
            r == (OsuPerformance { acc: Some(r.acc.unwrap()), ..self }),
            r.acc.unwrap() == Fraction::clamped_spec(acc.num, acc.den),
            r.wf(),
    {
        OsuPerformance { acc: Some(Fraction::clamped(acc.num, acc.den)), ..self }
    }

    /// Provide all of a score's parameters through a state.
    pub fn state(self, state: OsuScoreState) -> (r: Self)
        ensures
            r == (OsuPerformance {
                combo: Some(state.max_combo),
                slider_tick_hits: Some(state.slider_tick_hits),
                slider_end_hits: Some(state.slider_end_hits),
                n300: Some(state.n300),
                n100: Some(state.n100),
                n50: Some(state.n50),
                misses: Some(state.misses),
                ..self
            }),
    {
        OsuPerformance {
            combo: Some(state.max_combo),
            slider_tick_hits: Some(state.slider_tick_hits),
            slider_end_hits: Some(state.slider_end_hits),
            n300: Some(state.n300),
            n100: Some(state.n100),
            n50: Some(state.n50),
            misses: Some(state.misses),
            ..self
        }
    }

    fn n_objects_exec(&self) -> (r: u32)
        ensures
            r == self.n_objects_spec(),
    {
        let passed = match self.passed_objects {
            Some(n) => n,
            None => u32::MAX,
        };
        min_u64(passed as u64, self.counts.n_objects()) as u32
    }

    fn misses_exec(&self) -> (r: u32)
        ensures
            r == self.misses_spec(),
    {
        let n = match self.misses {
            Some(n) => n,
            None => 0,
        };
        min_u64(n as u64, self.n_objects_exec() as u64) as u32
    }

    fn given_counts(&self) -> (r: (u32, u32, u32))
        ensures
            r.0 == self.given300(),
            r.1 == self.given100(),
            r.2 == self.given50(),
    {
        let remaining = (self.n_objects_exec() - self.misses_exec()) as u64;
        let n300 = match self.n300 {
            Some(v) => v,
            None => 0,
        };
        let n100 = match self.n100 {
            Some(v) => v,
            None => 0,
        };
        let n50 = match self.n50 {
            Some(v) => v,
            None => 0,
        };
        let g300 = min_u64(n300 as u64, remaining);
        let g100 = min_u64(n100 as u64, remaining - g300);
        let g50 = min_u64(n50 as u64, remaining - g300 - g100);
        (g300 as u32, g100 as u32, g50 as u32)
    }

    fn lazer_exec(&self) -> (r: bool)
        ensures
            r == self.lazer_spec(),
    {
        match self.lazer {
            Some(l) => l,
            None => true,
        }
    }

    /// The slider end hits and slider tick hits, each capped at its maximum.
    fn slider_hits(&self) -> (r: (u32, u32))
        ensures
            r.0 == self.ends_spec(),
            r.1 == self.ticks_spec(),
    {
        if self.lazer_exec() {
            let ends = match self.slider_end_hits {
                Some(n) => n,
                None => self.counts.n_sliders,
            };
            let ticks = match self.slider_tick_hits {
                Some(n) => n,
                None => self.counts.n_slider_ticks,
            };
            (
                min_u64(ends as u64, self.counts.n_sliders as u64) as u32,
                min_u64(ticks as u64, self.counts.n_slider_ticks as u64) as u32,
            )
        } else {
            (0, 0)
        }
    }

    fn base_exec(&self, rest: u32) -> (r: u64)
        ensures
            r == self.base_spec(rest as int),
    {
        let (ends, ticks) = self.slider_hits();
        5 * rest as u64 + 15 * ends as u64 + 3 * ticks as u64
    }

    fn target_exec(&self, acc: Fraction) -> (r: AccTarget)
        requires
            acc.is_unit(),
        ensures
            r == self.target(acc),
            r.wf(),
    {
        let n_obj = self.n_objects_exec();
        let (ends, ticks) = self.slider_hits();
        let (max_ends, max_ticks): (u64, u64) = if self.lazer_exec() {
            (self.counts.n_sliders as u64, self.counts.n_slider_ticks as u64)
        } else {
            (0, 0)
        };
        let weight = 30 * n_obj as u64 + 15 * max_ends + 3 * max_ticks;
        AccTarget { acc, weight, ends, ticks }
    }

    fn search_hundreds_exec(&self, acc: Fraction) -> (r: (u32, u32, u32))
        requires
            acc.is_unit(),
        ensures
            ints(r) == self.search_hundreds(acc),
            r.0 + r.1 + r.2 == self.remaining_spec(),
    {
        let t = self.target_exec(acc);
        let n300 = self.given_counts().0;
        let rest = self.n_objects_exec() - self.misses_exec() - n300;
        let (pos, neg) = scaled(&t, self.base_exec(rest) + 30 * n300 as u64);
        let (lo, hi) = search_bounds(pos, neg, 5 * acc.den as u128, rest);
        closest(&t, SearchKind::Hundreds, n300, rest, lo, hi)
    }

    fn search_beside100s_exec(&self, acc: Fraction) -> (r: (u32, u32, u32))
        requires
            acc.is_unit(),
        ensures
            ints(r) == self.search_beside100s(acc),
            r.0 + r.1 + r.2 == self.remaining_spec(),
    {
        let t = self.target_exec(acc);
        let n100 = self.given_counts().1;
        let rest = self.n_objects_exec() - self.misses_exec() - n100;
        let (pos, neg) = scaled(&t, self.base_exec(rest) + 10 * n100 as u64);
        let (lo, hi) = search_bounds(pos, neg, 25 * acc.den as u128, rest);
        closest(&t, SearchKind::GreatsBeside100s, n100, rest, lo, hi)
    }

    fn search_beside50s_exec(&self, acc: Fraction) -> (r: (u32, u32, u32))
        requires
            acc.is_unit(),
        ensures
            ints(r) == self.search_beside50s(acc),
            r.0 + r.1 + r.2 == self.remaining_spec(),
    {
        let t = self.target_exec(acc);
        let n50 = self.given_counts().2;
        let n_obj = self.n_objects_exec();
        let m = self.misses_exec();
        let rest = n_obj - m - n50;
        let (aw, gain) = scaled(&t, 10 * m as u64 + 5 * n50 as u64);
        let (_, neg) = scaled(&t, 10 * n_obj as u64 + 15 * t.ends as u64 + 3 * t.ticks as u64);
        let (lo, hi) = search_bounds(aw + gain, neg, 20 * acc.den as u128, rest);
        closest(&t, SearchKind::GreatsBeside50s, n50, rest, lo, hi)
    }

    fn search_all_exec(&self, acc: Fraction) -> (r: (u32, u32, u32))
        requires
            acc.is_unit(),
        ensures
            ints(r) == self.search_all(acc),
            r.0 + r.1 + r.2 == self.remaining_spec(),
    {
        let t = self.target_exec(acc);
        let nr = self.n_objects_exec() - self.misses_exec();
        let base = self.base_exec(nr);
        let (pos, neg) = scaled(&t, base);
        let (lo, hi) = search_bounds(pos, neg, 25 * acc.den as u128, nr);
        let c = closest_grid(&t, base, nr, lo, hi);
        shift_exec(self.hitresult_priority, c)
    }

    fn hits_for_acc_exec(&self, acc: Fraction) -> (r: (u32, u32, u32))
        requires
            acc.is_unit(),
        ensures
            ints(r) == self.hits_for_acc(acc),
            r.0 + r.1 + r.2 == self.remaining_spec(),
    {
        let n_obj = self.n_objects_exec();
        let m = self.misses_exec();
        let (n300, n100, n50) = self.given_counts();
        match (self.n300, self.n100, self.n50) {
            (Some(_), Some(_), Some(_)) => {
                let remaining = sat_sub_u64(
                    n_obj as u64,
                    n300 as u64 + n100 as u64 + n50 as u64 + m as u64,
                ) as u32;
                match self.hitresult_priority {
                    HitResultPriority::BestCase => (n300 + remaining, n100, n50),
                    HitResultPriority::WorstCase => (n300, n100, n50 + remaining),
                }
            },
            (Some(_), Some(_), None) => (
                n300,
                n100,
                sat_sub_u64(n_obj as u64, n300 as u64 + n100 as u64 + m as u64) as u32,
            ),
            (Some(_), None, Some(_)) => (
                n300,
                sat_sub_u64(n_obj as u64, n300 as u64 + n50 as u64 + m as u64) as u32,
                n50,
            ),
            (None, Some(_), Some(_)) => (
                sat_sub_u64(n_obj as u64, n100 as u64 + n50 as u64 + m as u64) as u32,
                n100,
                n50,
            ),
            (Some(_), None, None) => self.search_hundreds_exec(acc),
            (None, Some(_), None) => self.search_beside100s_exec(acc),
            (None, None, Some(_)) => self.search_beside50s_exec(acc),
            (None, None, None) => self.search_all_exec(acc),
        }
    }

    fn hits_without_acc_exec(&self) -> (r: (u32, u32, u32))
        ensures
            ints(r) == self.hits_without_acc(),
            r.0 + r.1 + r.2 == self.remaining_spec(),
    {
        let (n300, n100, n50) = self.given_counts();
        let m = self.misses_exec();
        let n_obj = self.n_objects_exec();
        let remaining = sat_sub_u64(
            n_obj as u64,
            n300 as u64 + n100 as u64 + n50 as u64 + m as u64,
        ) as u32;
        match self.hitresult_priority {
            HitResultPriority::BestCase => {
                if self.n300.is_none() {
                    (remaining, n100, n50)
                } else if self.n100.is_none() {
                    (n300, remaining, n50)
                } else if self.n50.is_none() {
                    (n300, n100, remaining)
                } else {
                    (n300 + remaining, n100, n50)
                }
            },
            HitResultPriority::WorstCase => {
                if self.n50.is_none() {
                    (n300, n100, remaining)
                } else if self.n100.is_none() {
                    (n300, remaining, n50)
                } else if self.n300.is_none() {
                    (remaining, n100, n50)
                } else {
                    (n300, n100, n50 + remaining)
                }
            },
        }
    }

    /// Creates the score state that performance calculation uses: the given
    /// counts, capped at the covered objects, and the rest generated to
    /// match the accuracy (if any) as closely as the priority allows. The
    /// generated values are stored as given from then on.
    pub fn generate_state(&mut self) -> (r: OsuScoreState)
        requires
            old(self).wf(),
        ensures
            r == old(self).generated(),
            ints((r.n300, r.n100, r.n50)) == old(self).hits_spec(),
            r.n300 + r.n100 + r.n50 + r.misses == old(self).n_objects_spec(),
            *final(self) == (OsuPerformance {
                combo: Some(r.max_combo),
                slider_tick_hits: Some(r.slider_tick_hits),
                slider_end_hits: Some(r.slider_end_hits),
                n300: Some(r.n300),
                n100: Some(r.n100),
                n50: Some(r.n50),
                misses: Some(r.misses),
                ..*old(self)
            }),
    {
        let (n300, n100, n50) = match self.acc {
            Some(acc) => self.hits_for_acc_exec(acc),
            None => self.hits_without_acc_exec(),
        };
        let misses = self.misses_exec();
        let (ends, ticks) = self.slider_hits();
        let max_possible = sat_sub_u64(self.counts.max_combo as u64, misses as u64);
        let combo = match self.combo {
            Some(c) => min_u64(c as u64, max_possible),
            None => max_possible,
        } as u32;
        let state = OsuScoreState {
            max_combo: combo,
            slider_tick_hits: ticks,
            slider_end_hits: ends,
            n300,
            n100,
            n50,
            misses,
        };
        self.combo = Some(combo);
        self.slider_end_hits = Some(ends);
        self.slider_tick_hits = Some(ticks);
        self.n300 = Some(n300);
        self.n100 = Some(n100);
        self.n50 = Some(n50);
        self.misses = Some(misses);
        state
    }
}


/// The miss count that a combo below the map's maximum implies, as an exact
/// fraction: a combo short of `max_combo - n_sliders / 10` counts as
/// `(max_combo - n_sliders / 10) / combo` misses, capped at the 100s, 50s
/// and misses together and never below the reported misses.
pub open spec fn effective_misses_spec(counts: OsuMapCounts, state: OsuScoreState) -> (int, int) {
    let threshold = 10 * counts.max_combo - counts.n_sliders;
    let combo_based = if counts.n_sliders > 0 && 10 * state.max_combo < threshold {
        (threshold, 10 * (if state.max_combo > 0 {
            state.max_combo as int
        } else {
            1
        }))
    } else {
        (0, 1)
    };
    let cap = state.n100 + state.n50 + state.misses;
    let capped = if combo_based.0 <= cap * combo_based.1 {
        combo_based
    } else {
        (cap, 1)
    };
    if capped.0 < state.misses * capped.1 {
        (state.misses as int, 1)
    } else {
        capped
    }
}

/// Guesses the number of misses plus slider breaks from the combo, as the
/// fraction `num / den`.
pub fn calculate_effective_misses(counts: &OsuMapCounts, state: &OsuScoreState) -> (r: Fraction)
    ensures
        (r.num as int, r.den as int) == effective_misses_spec(*counts, *state),
        r.den > 0,
        state.misses * r.den <= r.num <= (state.n100 + state.n50 + state.misses) * r.den,
{
    let threshold: u64 = 10 * counts.max_combo as u64;
    let mut num: u64 = 0;
    let mut den: u64 = 1;
    if counts.n_sliders > 0 && (10 * state.max_combo as u64) + (counts.n_sliders as u64)
        < threshold {
        num = threshold - counts.n_sliders as u64;
        den = 10 * (if state.max_combo > 0 {
            state.max_combo as u64
        } else {
            1
        });
    }
    let cap: u64 = state.n100 as u64 + state.n50 as u64 + state.misses as u64;
    proof {
        vstd::arithmetic::mul::lemma_mul_upper_bound(cap as int, cap as int, den as int, 0x10_0000_0000);
    }
    if num as u128 > cap as u128 * den as u128 {
        num = cap;
        den = 1;
    }
    proof {
        vstd::arithmetic::mul::lemma_mul_upper_bound(state.misses as int, cap as int, den as int, 0x10_0000_0000);
    }
    if (num as u128) < state.misses as u128 * den as u128 {
        num = state.misses as u64;
        den = 1;
    }
    Fraction { num, den }
}

/// With no object covered, generation yields a state without any judged
/// object.
pub proof fn lemma_no_objects_no_hits(p: OsuPerformance)
    requires
        p.wf(),
        p.passed_objects == Some(0u32),
    ensures
        p.hits_spec() == (0int, 0int, 0int),
        p.generated().total_hits_spec() == 0,
{
    let nr = p.remaining_spec();
    assert(nr == 0);
    if let Some(acc) = p.acc {
        let t = p.target(acc);
        let base = p.base_spec(0);
        assert(row_best(t, base, 0, 0) == (0int, 0int, 0int));
    }
}

/// The hit total after the priority's shift is the hit total before it.
pub proof fn lemma_shift_keeps_total(priority: HitResultPriority, c: (int, int, int), ends: int, ticks: int)
    ensures
        ({
            let s = priority_shift(priority, c);
            hit_total(s.0, s.1, s.2, ends, ticks) == hit_total(c.0, c.1, c.2, ends, ticks)
        }),
{
}

/// For a given accuracy and the same given counts, the best-case priority
/// never generates a lower hit total, and so a lower accuracy, than the
/// worst case.
pub proof fn lemma_best_case_not_below_worst_case(p: OsuPerformance)
    requires
        p.wf(),
        p.acc.is_some(),
    ensures
        ({
            let best = (OsuPerformance { hitresult_priority: HitResultPriority::BestCase, ..p }).hits_spec();
            let worst = (OsuPerformance { hitresult_priority: HitResultPriority::WorstCase, ..p }).hits_spec();
            &&& best.0 + best.1 + best.2 == worst.0 + worst.1 + worst.2
            &&& hit_total(best.0, best.1, best.2, p.ends_spec(), p.ticks_spec()) >= hit_total(
                worst.0,
                worst.1,
                worst.2,
                p.ends_spec(),
                p.ticks_spec(),
            )
        }),
{
    let acc = p.acc.unwrap();
    let bp = OsuPerformance { hitresult_priority: HitResultPriority::BestCase, ..p };
    let wp = OsuPerformance { hitresult_priority: HitResultPriority::WorstCase, ..p };
    assert(bp.n_objects_spec() == p.n_objects_spec() && wp.n_objects_spec() == p.n_objects_spec());
    assert(bp.remaining_spec() == p.remaining_spec() && wp.remaining_spec() == p.remaining_spec());
    assert(bp.target(acc) == p.target(acc) && wp.target(acc) == p.target(acc));
    assert(bp.ends_spec() == p.ends_spec() && wp.ends_spec() == p.ends_spec());
    assert(bp.ticks_spec() == p.ticks_spec() && wp.ticks_spec() == p.ticks_spec());
    match (p.n300, p.n100, p.n50) {
        (Some(_), None, None) => {
            assert(bp.search_hundreds(acc) == wp.search_hundreds(acc));
        },
        (None, Some(_), None) => {
            assert(bp.search_beside100s(acc) == wp.search_beside100s(acc));
        },
        (None, None, Some(_)) => {
            assert(bp.search_beside50s(acc) == wp.search_beside50s(acc));
        },
        (None, None, None) => {
            let t = p.target(acc);
            let nr = p.remaining_spec();
            let base = p.base_spec(nr);
            let b = acc.den as int;
            let num = acc.num * t.weight - b * base;
            let g = first_closest_grid(
                t,
                base,
                nr,
                min_int(floor_or_zero(num, 25 * b), nr),
                min_int(ceil_or_zero(num, 25 * b), nr),
            );
            assert(bp.search_all(acc) == priority_shift(HitResultPriority::BestCase, g));
            assert(wp.search_all(acc) == priority_shift(HitResultPriority::WorstCase, g));
            lemma_shift_keeps_total(HitResultPriority::BestCase, g, p.ends_spec(), p.ticks_spec());
            lemma_shift_keeps_total(HitResultPriority::WorstCase, g, p.ends_spec(), p.ticks_spec());
        },
        _ => {},
    }
}

/// The round trip where no count is given: see `lemma_accuracy_round_trip`.
proof fn lemma_grid_round_trip(p: OsuPerformance)
    requires
        p.wf(),
        p.acc.is_some(),
        p.n300.is_none(),
        p.n100.is_none(),
        p.n50.is_none(),
        ({
            let acc = p.acc.unwrap();
            let w = p.target(acc).weight as int;
            let base = p.base_spec(p.remaining_spec());
            acc.den * base <= acc.num * w <= acc.den * (base + 25 * p.remaining_spec())
        }),
    ensures
        ({
            let acc = p.acc.unwrap();
            let h = p.hits_spec();
            acc_distance(acc, p.target(acc).weight as int, hit_total(h.0, h.1, h.2, p.ends_spec(), p.ticks_spec()))
                < 25 * acc.den
        }),
{
    let acc = p.acc.unwrap();
    let t = p.target(acc);
    let nr = p.remaining_spec();
    let base = p.base_spec(nr);
    let b = acc.den as int;
    let aw = acc.num * t.weight;
    let num = aw - b * base;
    let lo = min_int(floor_or_zero(num, 25 * b), nr);
    let hi = min_int(ceil_or_zero(num, 25 * b), nr);
    let g = first_closest_grid(t, base, nr, lo, hi);
    lemma_shift_keeps_total(p.hitresult_priority, g, p.ends_spec(), p.ticks_spec());
    // the first row: as many 300s as fit below the target
    let x = num / (25 * b);
    assert(0 <= x <= nr && 25 * b * x <= num < 25 * b * (x + 1)) by {
        vstd::arithmetic::div_mod::lemma_fundamental_div_mod(num, 25 * b);
        vstd::arithmetic::div_mod::lemma_mod_bound(num, 25 * b);
        vstd::arithmetic::div_mod::lemma_div_pos_is_pos(num, 25 * b);
        assert(num <= 25 * b * nr) by (nonlinear_arith)
            requires
                num == aw - b * base,
                aw <= b * (base + 25 * nr),
        ;
        vstd::arithmetic::div_mod::lemma_div_is_ordered(num, 25 * b * nr, 25 * b);
        vstd::arithmetic::div_mod::lemma_div_multiples_vanish(nr, 25 * b);
        assert(25 * b * (x + 1) == 25 * b * x + 25 * b) by (nonlinear_arith);
    }
    assert(lo == x && x <= hi) by {
        if num > 0 {
            vstd::arithmetic::div_mod::lemma_div_is_ordered(num, num + 25 * b - 1, 25 * b);
        }
    }
    let rn = row_num(t, base, x);
    assert(rn == num - 25 * b * x) by (nonlinear_arith)
        requires
            rn == aw - b * (base + 25 * x),
            num == aw - b * base,
    ;
    let y = row_lo(t, base, nr, x);
    assert(rn >= 0);
    if rn > 0 {
        let q = rn / (5 * b);
        vstd::arithmetic::div_mod::lemma_fundamental_div_mod(rn, 5 * b);
        vstd::arithmetic::div_mod::lemma_mod_bound(rn, 5 * b);
        vstd::arithmetic::div_mod::lemma_div_pos_is_pos(rn, 5 * b);
        vstd::arithmetic::div_mod::lemma_div_is_ordered(rn, rn + 5 * b - 1, 5 * b);
        assert(y <= q);
        assert(5 * b * y <= 5 * b * q) by (nonlinear_arith)
            requires
                0 <= y <= q,
                b > 0,
        ;
        assert(5 * b * q <= rn);
    } else {
        assert(y == 0);
        assert(5 * b * y == 0) by (nonlinear_arith)
            requires
                y == 0,
        ;
    }
    assert(0 <= y <= row_hi(t, base, nr, x));
    assert(5 * b * y <= rn);
    let c = candidate(SearchKind::Hundreds, x, nr - x, y);
    let s = hit_total(c.0, c.1, c.2, t.ends as int, t.ticks as int);
    assert(s == base + 25 * x + 5 * y);
    assert(aw - b * s == rn - 5 * b * y) by (nonlinear_arith)
        requires
            s == base + 25 * x + 5 * y,
            rn == aw - b * (base + 25 * x),
    ;
    lemma_first_closest_is_closest(
        t,
        SearchKind::Hundreds,
        x,
        nr - x,
        row_lo(t, base, nr, x),
        row_hi(t, base, nr, x),
        y,
    );
    lemma_grid_is_closest(t, base, nr, lo, hi, x);
    assert(25 * b * (x + 1) == 25 * b * x + 25 * b) by (nonlinear_arith);
    assert(rn < 25 * b);
    assert(t.dist(c) < 25 * b);
    assert(p.hits_spec() == priority_shift(p.hitresult_priority, g));
}

/// The number of difficulty objects of an osu!standard map with `n_objects`
/// hit objects of which the first `take` are processed: one per processed
/// object but the first, which has no predecessor.
pub fn difficulty_object_count(n_objects: usize, take: usize) -> (r: usize)
    ensures
        r == sat_sub(min_int(n_objects as int, take as int), 1),
{
    let n = if n_objects <= take {
        n_objects
    } else {
        take
    };
    if n >= 1 {
        n - 1
    } else {
        0
    }
}

impl OsuPerformance {
    /// Whether a search is left to meet `acc` (at most one count given) and
    /// `acc` lies between the accuracies of the first and the last candidate
    /// it tries, with misses and slider hits as they are.
    pub open spec fn acc_within_reach(self, acc: Fraction) -> bool {
        let t = self.target(acc);
        let aw = acc.num * t.weight;
        let b = acc.den as int;
        let nr = self.remaining_spec();
        match (self.n300, self.n100, self.n50) {
            (Some(_), None, None) => {
                let rest = nr - self.given300();
                let base = self.base_spec(rest) + 30 * self.given300();
                b * base <= aw <= b * (base + 5 * rest)
            },
            (None, Some(_), None) => {
                let rest = nr - self.given100();
                let base = self.base_spec(rest) + 10 * self.given100();
                b * base <= aw <= b * (base + 25 * rest)
            },
            (None, None, Some(_)) => {
                let rest = nr - self.given50();
                let base = 10 * rest + 5 * self.given50() + 15 * t.ends + 3 * t.ticks;
                b * base <= aw <= b * (base + 20 * rest)
            },
            (None, None, None) => {
                let base = self.base_spec(nr);
                b * base <= aw <= b * (base + 25 * nr)
            },
            _ => false,
        }
    }
}

/// Where at most one count is given and the accuracy lies within reach of
/// the search, the generated hitresults land within one object's step from
/// a 50 to a 300 of it: their hit total differs from the targeted one by
/// less than 25, out of 30 per object.
pub proof fn lemma_accuracy_round_trip(p: OsuPerformance)
    requires
        p.wf(),
        p.acc.is_some(),
        p.acc_within_reach(p.acc.unwrap()),
    ensures
        ({
            let acc = p.acc.unwrap();
            let h = p.hits_spec();
            acc_distance(acc, p.target(acc).weight as int, hit_total(h.0, h.1, h.2, p.ends_spec(), p.ticks_spec()))
                < 25 * acc.den
        }),
{
    let acc = p.acc.unwrap();
    let t = p.target(acc);
    let b = acc.den as int;
    let nr = p.remaining_spec();
    assert(t.ends as int == p.ends_spec() && t.ticks as int == p.ticks_spec());
    match (p.n300, p.n100, p.n50) {
        (Some(_), None, None) => {
            let n300 = p.given300();
            let rest = nr - n300;
            let base = p.base_spec(rest) + 30 * n300;
            assert forall|x: int|
                #![trigger candidate(SearchKind::Hundreds, n300, rest, x)]
                {
                    let c = candidate(SearchKind::Hundreds, n300, rest, x);
                    hit_total(c.0, c.1, c.2, t.ends as int, t.ticks as int) == base + 5 * x
                } by {}
            lemma_search_within_step(t, SearchKind::Hundreds, n300, rest, base, 5);
        },
        (None, Some(_), None) => {
            let n100 = p.given100();
            let rest = nr - n100;
            let base = p.base_spec(rest) + 10 * n100;
            assert forall|x: int|
                #![trigger candidate(SearchKind::GreatsBeside100s, n100, rest, x)]
                {
                    let c = candidate(SearchKind::GreatsBeside100s, n100, rest, x);
                    hit_total(c.0, c.1, c.2, t.ends as int, t.ticks as int) == base + 25 * x
                } by {}
            lemma_search_within_step(t, SearchKind::GreatsBeside100s, n100, rest, base, 25);
        },
        (None, None, Some(_)) => {
            let n50 = p.given50();
            let m = p.misses_spec();
            let rest = nr - n50;
            let base = 10 * rest + 5 * n50 + 15 * t.ends + 3 * t.ticks;
            assert forall|x: int|
                #![trigger candidate(SearchKind::GreatsBeside50s, n50, rest, x)]
                {
                    let c = candidate(SearchKind::GreatsBeside50s, n50, rest, x);
                    hit_total(c.0, c.1, c.2, t.ends as int, t.ticks as int) == base + 20 * x
                } by {}
            let aw = acc.num * t.weight;
            let n_obj = p.n_objects_spec();
            assert(aw + b * (10 * m + 5 * n50) - b * (10 * n_obj + 15 * t.ends + 3 * t.ticks)
                == aw - b * base) by (nonlinear_arith)
                requires
                    base == 10 * rest + 5 * n50 + 15 * t.ends + 3 * t.ticks,
                    rest == n_obj - m - n50,
            ;
            lemma_search_within_step(t, SearchKind::GreatsBeside50s, n50, rest, base, 20);
        },
        (None, None, None) => {
            lemma_grid_round_trip(p);
        },
        _ => {},
    }
}

} // verus!
