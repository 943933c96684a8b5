use vstd::prelude::*;

use crate::gradual::{nth_spec, GradualPerformanceStep, GradualProgress};

verus! {

/// The hitresults and combo of an osu!catch play.
#[derive(Copy, Clone, Debug, PartialEq, Eq, Structural)]
pub struct CatchScoreState {
    /// Maximum combo that the score has had so far.
    pub max_combo: u32,
    /// Amount of current fruits (300s).
    pub fruits: u32,
    /// Amount of current droplets (100s).
    pub droplets: u32,
    /// Amount of current tiny droplets (50s).
    pub tiny_droplets: u32,
    /// Amount of current tiny droplet misses (katus).
    pub tiny_droplet_misses: u32,
    /// Amount of current misses (fruits and droplets).
    pub misses: u32,
}

impl CatchScoreState {
    /// A state with every count at zero.
    pub fn new() -> (r: Self)
        ensures
            r == (CatchScoreState {
                max_combo: 0,
                fruits: 0,
                droplets: 0,
                tiny_droplets: 0,
                tiny_droplet_misses: 0,
                misses: 0,
            }),
    {
        CatchScoreState {
            max_combo: 0,
            fruits: 0,
            droplets: 0,
            tiny_droplets: 0,
            tiny_droplet_misses: 0,
            misses: 0,
        }
    }
}

/// Gradually calculate the performance of an osu!catch map.
///
/// Each call processes one or more fruits or droplets and yields what to
/// evaluate: the given score state over the objects processed so far.
pub struct CatchGradualPerformance {
    difficulty: GradualProgress,
}

impl CatchGradualPerformance {
    pub closed spec fn progress(&self) -> GradualProgress {
        self.difficulty
    }

    /// A gradual calculation over `n_objects` fruits and droplets.
    pub fn new(n_objects: usize) -> (r: Self)
        requires
            n_objects <= u32::MAX,
        ensures
            r.progress().wf(),
            r.progress().idx_spec() == 0,
            r.progress().total_spec() == n_objects,
    {
        CatchGradualPerformance { difficulty: GradualProgress::new(n_objects) }
    }

    /// Process the next fruit or droplet.
    pub fn next(&mut self, state: CatchScoreState) -> (r: Option<GradualPerformanceStep<CatchScoreState>>)
        requires
            old(self).progress().wf(),
        ensures
            final(self).progress().wf(),
            final(self).progress().total_spec() == old(self).progress().total_spec(),
            r == (match nth_spec(old(self).progress().idx_spec(), old(self).progress().total_spec(), 0) {
                Some(k) => Some(GradualPerformanceStep { state, passed_objects: k as u32 }),
                None => None,
            }),
            r is Some ==> final(self).progress().idx_spec() == r.unwrap().passed_objects,
            r is None ==> final(self).progress() == old(self).progress(),
    {
        self.nth(state, 0)
    }

    /// Process all remaining fruits and droplets.
    pub fn last(&mut self, state: CatchScoreState) -> (r: Option<GradualPerformanceStep<CatchScoreState>>)
        requires
            old(self).progress().wf(),
        ensures
            final(self).progress().wf(),
            final(self).progress().total_spec() == old(self).progress().total_spec(),
            r == (match nth_spec(old(self).progress().idx_spec(), old(self).progress().total_spec(), usize::MAX as int) {
                Some(k) => Some(GradualPerformanceStep { state, passed_objects: k as u32 }),
                None => None,
            }),
            r is Some ==> final(self).progress().idx_spec() == r.unwrap().passed_objects,
            r is None ==> final(self).progress() == old(self).progress(),
    {
        self.nth(state, usize::MAX)
    }

    /// Process everything up to the next `n`th fruit or droplet, zero-indexed:
    /// `n = 0` processes one object.
    pub fn nth(&mut self, state: CatchScoreState, n: usize) -> (r: Option<GradualPerformanceStep<CatchScoreState>>)
        requires
            old(self).progress().wf(),
        ensures
            final(self).progress().wf(),
            final(self).progress().total_spec() == old(self).progress().total_spec(),
            r == (match nth_spec(old(self).progress().idx_spec(), old(self).progress().total_spec(), n as int) {
                Some(k) => Some(GradualPerformanceStep { state, passed_objects: k as u32 }),
                None => None,
            }),
            r is Some ==> final(self).progress().idx_spec() == r.unwrap().passed_objects,
            r is None ==> final(self).progress() == old(self).progress(),
    {
        match self.difficulty.nth(n) {
            Some(passed_objects) => Some(GradualPerformanceStep { state, passed_objects }),
            None => None,
        }
    }

    /// The number of remaining objects.
    pub fn len(&self) -> (r: usize)
        requires
            self.progress().wf(),
        ensures
            r == self.progress().total_spec() - self.progress().idx_spec(),
    {
        self.difficulty.len()
    }
}

} // verus!
