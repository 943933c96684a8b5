use vstd::prelude::*;

use crate::hitresults::{min_int, sat_sub, Fraction};

verus! {

/// Marker for osu!standard with the Relax mod.
#[derive(Copy, Clone, Debug, PartialEq, Eq, Structural)]
pub struct OsuRelax;

/// `round(6 * acc * n_objects)`, halves rounded up: the points, six per
/// 300, two per 100 and one per 50, that the accuracy `acc` asks for.
pub open spec fn target_points(acc: Fraction, n_objects: int) -> int {
    (12 * acc.num * n_objects + acc.den) / (2 * acc.den)
}

pub open spec fn or_zero(o: Option<u32>) -> int {
    match o {
        Some(v) => v as int,
        None => 0,
    }
}

/// Hitresults of an osu!standard play under the Relax mod, over a map of
/// `n_objects` objects: the counts that are given, and an accuracy that is
/// given or follows from them.
#[derive(Copy, Clone, Debug, PartialEq, Eq, Structural)]
pub struct OsuPP {
    pub n_objects: u32,
    pub combo: Option<u32>,
    pub acc: Option<Fraction>,
    pub n300: Option<u32>,
    pub n100: Option<u32>,
    pub n50: Option<u32>,
    pub n_misses: u32,
}

impl OsuPP {
    /// The misses, capped at the objects.
    pub open spec fn misses_spec(self) -> int {
        min_int(self.n_misses as int, self.n_objects as int)
    }

    /// The objects that are not misses.
    pub open spec fn rest_spec(self) -> int {
        self.n_objects - self.misses_spec()
    }

    /// The `(n300, n100, n50)` that an accuracy `acc` fixes, in points of
    /// six per 300, two per 100 and one per 50: see `hits_around_given` and
    /// `hits_spread`. They always add up to the objects that are not misses.
    pub open spec fn hits_for_acc(self, acc: Fraction) -> (int, int, int) {
        let target = target_points(acc, self.n_objects as int);
        if self.n100.is_some() || self.n50.is_some() {
            self.hits_around_given(target)
        } else {
            self.hits_spread(target)
        }
    }

    /// With 100s or 50s given (capped together at the objects that are not
    /// misses): the points missing from `target` go to 300s and the objects
    /// left to 50s; with only 50s given, 50s are then traded back for 100s,
    /// four 50s and one 300 for five 100s, as often as possible.
    pub open spec fn hits_around_given(self, target: int) -> (int, int, int) {
        let rest = self.rest_spec();
        let n100 = min_int(or_zero(self.n100), rest);
        let n50 = min_int(or_zero(self.n50), rest - n100);
        let placed = 2 * n100 + n50 + self.misses_spec();
        let missing_objects = rest - n100 - n50;
        let missing_points = sat_sub(target, placed);
        let n300 = min_int(missing_objects, missing_points / 6);
        let n50_new = n50 + missing_objects - n300;
        if self.n100.is_none() {
            let k = min_int(n300, (missing_objects - n300) / 4);
            (n300 - k, n100 + 5 * k, n50_new - 4 * k)
        } else {
            (n300, n100, n50_new)
        }
    }

    /// With neither given: the points beyond one per object that is not a
    /// miss go five to a 300 and the rest to 100s, as far as the objects
    /// allow, the other objects are 50s, and then the same trade of 50s for
    /// 100s.
    pub open spec fn hits_spread(self, target: int) -> (int, int, int) {
        let rest = self.rest_spec();
        let delta = sat_sub(target, rest);
        let n300 = min_int(delta / 5, rest);
        let n100 = min_int(delta - 5 * n300, rest - n300);
        let n50 = rest - n300 - n100;
        let k = min_int(n300, n50 / 4);
        (n300 - k, n100 + 5 * k, n50 - 4 * k)
    }

    /// Settings for a map of `n_objects` objects with no hitresult given.
    pub fn new(n_objects: u32) -> (r: Self)
        ensures
            r == (OsuPP {
                n_objects,
                combo: None,
                acc: None,
                n300: None,
                n100: None,
                n50: None,
                n_misses: 0,
            }),
    {
        OsuPP { n_objects, combo: None, acc: None, n300: None, n100: None, n50: None, n_misses: 0 }
    }

    /// Specify the max combo of the play.
    pub fn combo(self, combo: u32) -> (r: Self)
        ensures
            r == (OsuPP { combo: Some(combo), ..self }),
    {
        OsuPP { combo: Some(combo), ..self }
    }

    /// Specify the amount of 300s of a play.
    pub fn n300(self, n300: u32) -> (r: Self)
        ensures
            r == (OsuPP { n300: Some(n300), ..self }),
    {
        OsuPP { n300: Some(n300), ..self }
    }

    /// Specify the amount of 100s of a play.
    pub fn n100(self, n100: u32) -> (r: Self)
        ensures
            r == (OsuPP { n100: Some(n100), ..self }),
    {
        OsuPP { n100: Some(n100), ..self }
    }

    /// Specify the amount of 50s of a play.
    pub fn n50(self, n50: u32) -> (r: Self)
        ensures
            r == (OsuPP { n50: Some(n50), ..self }),
    {
        OsuPP { n50: Some(n50), ..self }
    }

    /// Specify the amount of misses of a play.
    pub fn misses(self, n_misses: u32) -> (r: Self)
        ensures
            r == (OsuPP { n_misses, ..self }),
    {
        OsuPP { n_misses, ..self }
    }

    /// Amount of passed objects for partial plays, e.g. a fail.
    pub fn passed_objects(self, passed_objects: u32) -> (r: Self)
        ensures
            r == (OsuPP { n_objects: passed_objects, ..self }),
    {
        OsuPP { n_objects: passed_objects, ..self }
    }

    fn rest_exec(&self) -> (r: (u64, u64))
        ensures
            r.0 == self.misses_spec(),
            r.1 == self.rest_spec(),
    {
        let n = self.n_objects as u64;
        let m = if self.n_misses as u64 <= n {
            self.n_misses as u64
        } else {
            n
        };
        (m, n - m)
    }

    fn hits_around_given_exec(&self, target: u64) -> (r: (u64, u64, u64))
        ensures
            (r.0 as int, r.1 as int, r.2 as int) == self.hits_around_given(target as int),
            r.0 + r.1 + r.2 == self.rest_spec(),
    {
        let (m, rest) = self.rest_exec();
        let given100: u64 = match self.n100 {
            Some(v) => v as u64,
            None => 0,
        };
        let given50: u64 = match self.n50 {
            Some(v) => v as u64,
            None => 0,
        };
        let n100 = if given100 <= rest {
            given100
        } else {
            rest
        };
        let n50 = if given50 <= rest - n100 {
            given50
        } else {
            rest - n100
        };
        let placed = 2 * n100 + n50 + m;
        let missing_objects = rest - n100 - n50;
        let missing_points = if target >= placed {
            target - placed
        } else {
            0
        };
        let n300 = if missing_objects <= missing_points / 6 {
            missing_objects
        } else {
            missing_points / 6
        };
        let n50_new = n50 + missing_objects - n300;
        if self.n100.is_none() {
            let quarter = (missing_objects - n300) / 4;
            let k = if n300 <= quarter {
                n300
            } else {
                quarter
            };
            (n300 - k, n100 + 5 * k, n50_new - 4 * k)
        } else {
            (n300, n100, n50_new)
        }
    }

    fn hits_spread_exec(&self, target: u64) -> (r: (u64, u64, u64))
        ensures
            (r.0 as int, r.1 as int, r.2 as int) == self.hits_spread(target as int),
            r.0 + r.1 + r.2 == self.rest_spec(),
    {
        let (_, rest) = self.rest_exec();
        let delta = if target >= rest {
            target - rest
        } else {
            0
        };
        let n300 = if delta / 5 <= rest {
            delta / 5
        } else {
            rest
        };
        let n100 = if delta - 5 * n300 <= rest - n300 {
            delta - 5 * n300
        } else {
            rest - n300
        };
        let n50 = rest - n300 - n100;
        let k = if n300 <= n50 / 4 {
            n300
        } else {
            n50 / 4
        };
        (n300 - k, n100 + 5 * k, n50 - 4 * k)
    }

    /// Generate the hitresults for an accuracy between 0 and 1 (a larger
    /// fraction counts as 1); set the misses beforehand. The 300s, 100s and
    /// 50s add up to the objects that are not misses, and the accuracy
    /// stored is the one of the generated hitresults.
    pub fn accuracy(self, acc: Fraction) -> (r: Self)
        ensures
            ({
                let h = self.hits_for_acc(Fraction::clamped_spec(acc.num, acc.den));
                r == (OsuPP {
                    n300: Some(h.0 as u32),
                    n100: Some(h.1 as u32),
                    n50: Some(h.2 as u32),
                    acc: Some(
                        Fraction {
                            num: (6 * h.0 + 2 * h.1 + h.2) as u64,
                            den: (6 * self.n_objects) as u64,
                        },
                    ),
                    ..self
                })
            }),
            r.n300.unwrap() + r.n100.unwrap() + r.n50.unwrap() == self.rest_spec(),
    {
        let acc = Fraction::clamped(acc.num, acc.den);
        let target = target_exec(acc, self.n_objects);
        let (n300, n100, n50) = if self.n100.is_some() || self.n50.is_some() {
            self.hits_around_given_exec(target)
        } else {
            self.hits_spread_exec(target)
        };
        OsuPP {
            n300: Some(n300 as u32),
            n100: Some(n100 as u32),
            n50: Some(n50 as u32),
            acc: Some(Fraction { num: 6 * n300 + 2 * n100 + n50, den: 6 * self.n_objects as u64 }),
            ..self
        }
    }
}

impl OsuPP {
    /// The hitresults that `assert_hitresults` settles on when no accuracy
    /// is given: the given counts, capped together at the objects that are
    /// not misses (300s first, then 100s, then 50s); the objects no count
    /// covers go to the first bucket that is not given, from 300s on, or to
    /// the 300s if all are.
    pub open spec fn filled(self) -> (int, int, int) {
        let rest = self.rest_spec();
        let n300 = min_int(or_zero(self.n300), rest);
        let n100 = min_int(or_zero(self.n100), rest - n300);
        let n50 = min_int(or_zero(self.n50), rest - n300 - n100);
        let remaining = rest - n300 - n100 - n50;
        if remaining > 0 {
            if self.n300.is_none() {
                (remaining, n100, n50)
            } else if self.n100.is_none() {
                (n300, remaining, n50)
            } else if self.n50.is_none() {
                (n300, n100, remaining)
            } else {
                (n300 + remaining, n100, n50)
            }
        } else {
            (n300, n100, n50)
        }
    }

    /// Makes sure that every hitresult and the accuracy are set: where no
    /// accuracy is given, the counts are settled as `filled` says, adding
    /// up to the objects that are not misses, and the accuracy follows from
    /// them.
    pub fn assert_hitresults(&mut self)
        ensures
            old(self).acc.is_some() ==> *final(self) == *old(self),
            old(self).acc.is_none() ==> ({
                let h = old(self).filled();
                &&& *final(self) == (OsuPP {
                    n300: Some(h.0 as u32),
                    n100: Some(h.1 as u32),
                    n50: Some(h.2 as u32),
                    acc: Some(
                        Fraction {
                            num: (h.2 + 2 * h.1 + 6 * h.0) as u64,
                            den: (6 * old(self).n_objects) as u64,
                        },
                    ),
                    ..*old(self)
                })
                &&& h.0 + h.1 + h.2 == old(self).rest_spec()
            }),
    {
        if self.acc.is_none() {
            let (_, rest) = self.rest_exec();
            let given300: u64 = match self.n300 {
                Some(v) => v as u64,
                None => 0,
            };
            let given100: u64 = match self.n100 {
                Some(v) => v as u64,
                None => 0,
            };
            let given50: u64 = match self.n50 {
                Some(v) => v as u64,
                None => 0,
            };
            let n300 = if given300 <= rest {
                given300
            } else {
                rest
            };
            let n100 = if given100 <= rest - n300 {
                given100
            } else {
                rest - n300
            };
            let n50 = if given50 <= rest - n300 - n100 {
                given50
            } else {
                rest - n300 - n100
            };
            let remaining = rest - n300 - n100 - n50;
            let (h300, h100, h50) = if remaining > 0 {
                if self.n300.is_none() {
                    (remaining, n100, n50)
                } else if self.n100.is_none() {
                    (n300, remaining, n50)
                } else if self.n50.is_none() {
                    (n300, n100, remaining)
                } else {
                    (n300 + remaining, n100, n50)
                }
            } else {
                (n300, n100, n50)
            };
            self.n300 = Some(h300 as u32);
            self.n100 = Some(h100 as u32);
            self.n50 = Some(h50 as u32);
            self.acc = Some(
                Fraction { num: h50 + 2 * h100 + 6 * h300, den: 6 * self.n_objects as u64 },
            );
        }
    }

    /// The number of judged objects, at most the number of objects.
    pub fn total_hits(&self) -> (r: u32)
        ensures
            r == min_int(
                or_zero(self.n300) + or_zero(self.n100) + or_zero(self.n50) + self.n_misses,
                self.n_objects as int,
            ),
    {
        let n300 = match self.n300 {
            Some(v) => v,
            None => 0,
        };
        let n100 = match self.n100 {
            Some(v) => v,
            None => 0,
        };
        let n50 = match self.n50 {
            Some(v) => v,
            None => 0,
        };
        let sum = n300 as u64 + n100 as u64 + n50 as u64 + self.n_misses as u64;
        if sum <= self.n_objects as u64 {
            sum as u32
        } else {
            self.n_objects
        }
    }
}

/// Where no 100s or 50s are given and some split of the objects that are
/// not misses into 300s, 100s and 50s has exactly the points that the
/// accuracy asks for, the generated hitresults have those points too: their
/// accuracy is `acc` rounded to the nearest sixth of a point per object.
pub proof fn lemma_relax_round_trip(p: OsuPP, acc: Fraction, a: int, b: int)
    requires
        p.n100.is_none(),
        p.n50.is_none(),
        acc.is_unit(),
        0 <= a,
        0 <= b,
        a + b <= p.rest_spec(),
        6 * a + 2 * b + (p.rest_spec() - a - b) == target_points(acc, p.n_objects as int),
    ensures
        ({
            let h = p.hits_for_acc(acc);
            &&& 6 * h.0 + 2 * h.1 + h.2 == target_points(acc, p.n_objects as int)
            &&& h.0 + h.1 + h.2 == p.rest_spec()
        }),
{
    let rest = p.rest_spec();
    let target = target_points(acc, p.n_objects as int);
    let delta = target - rest;
    assert(delta == 5 * a + b);
    let q = delta / 5;
    let r = delta % 5;
    assert(delta == 5 * q + r && 0 <= r < 5);
    assert(q >= a);
    assert(q + r <= a + b);
}

/// `round(6 * acc * n_objects)`.
fn target_exec(acc: Fraction, n_objects: u32) -> (r: u64)
    requires
        acc.is_unit(),
    ensures
        r == target_points(acc, n_objects as int),
        r <= 6 * n_objects,
{
    let num = acc.num as u128;
    let den = acc.den as u128;
    proof {
        vstd::arithmetic::mul::lemma_mul_upper_bound(
            12 * num as int,
            12 * u64::MAX as int,
            n_objects as int,
            u32::MAX as int,
        );
        vstd::arithmetic::mul::lemma_mul_upper_bound(
            12 * num as int,
            12 * den as int,
            n_objects as int,
            n_objects as int,
        );
        let t = 12 * num * n_objects + den;
        assert(t <= 12 * den * n_objects + den);
        assert(12 * den * n_objects + den == (2 * den) * (6 * n_objects) + den) by (nonlinear_arith);
        vstd::arithmetic::div_mod::lemma_div_is_ordered(t, (2 * den) * (6 * n_objects) + den, 2 * den);
        vstd::arithmetic::div_mod::lemma_fundamental_div_mod((2 * den) * (6 * n_objects) + den, 2 * den);
        vstd::arithmetic::div_mod::lemma_div_plus_one((2 * den) * (6 * n_objects) + den - 2 * den, 2 * den);
        assert(((2 * den) * (6 * n_objects) + den) / (2 * den) == 6 * n_objects) by {
            vstd::arithmetic::div_mod::lemma_div_multiples_vanish_fancy(6 * n_objects as int, den as int, 2 * den as int);
        }
    }
    ((12 * num * n_objects as u128 + den) / (2 * den)) as u64
}

} // verus!
