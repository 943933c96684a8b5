use vstd::prelude::*;

use crate::osu::OsuScoreState;

verus! {

/// The passed-object count after a call of `nth(n)` on a gradual
/// calculation that has processed `idx` of `total` objects, or `None` when
/// none is left.
pub open spec fn nth_spec(idx: int, total: int, n: int) -> Option<int> {
    if idx >= total {
        None
    } else if idx + n + 1 <= total {
        Some(idx + n + 1)
    } else {
        Some(total)
    }
}

/// How far a gradual calculation has got through a map's objects.
#[derive(Copy, Clone, Debug, PartialEq, Eq, Structural)]
pub struct GradualProgress {
    idx: usize,
    total: usize,
}

impl GradualProgress {
    pub closed spec fn idx_spec(self) -> int {
        self.idx as int
    }

    pub closed spec fn total_spec(self) -> int {
        self.total as int
    }

    /// No more objects processed than there are, and their number fits in
    /// a `u32`.
    pub open spec fn wf(self) -> bool {
        0 <= self.idx_spec() <= self.total_spec() <= u32::MAX
    }

    /// Progress through `total` objects, none processed yet.
    pub fn new(total: usize) -> (r: Self)
        requires
            total <= u32::MAX,
        ensures
            r.wf(),
            r.idx_spec() == 0,
            r.total_spec() == total,
    {
        GradualProgress { idx: 0, total }
    }

    /// The number of objects not yet processed.
    pub fn len(&self) -> (r: usize)
        requires
            self.wf(),
        ensures
            r == self.total_spec() - self.idx_spec(),
    {
        self.total - self.idx
    }

    /// Skips `n` objects and processes the one after, so that `n = 0`
    /// processes one; returns the count of processed objects, or `None` if
    /// every object was processed already.
    pub fn nth(&mut self, n: usize) -> (r: Option<u32>)
        requires
            old(self).wf(),
        ensures
            final(self).wf(),
            final(self).total_spec() == old(self).total_spec(),
            r == (match nth_spec(old(self).idx_spec(), old(self).total_spec(), n as int) {
                Some(k) => Some(k as u32),
                None => None::<u32>,
            }),
            final(self).idx_spec() == (match r {
                Some(k) => k as int,
                None => old(self).idx_spec(),
            }),
            r is None ==> *final(self) == *old(self),
    {
        if self.idx >= self.total {
            return None;
        }
        let len = self.total - self.idx;
        let skip = if n < len - 1 {
            n
        } else {
            len - 1
        };
        self.idx = self.idx + skip + 1;
        Some(self.idx as u32)
    }
}

/// From a fresh start, `nth(n)` covers exactly the first `n + 1` objects:
/// the gradual result is the one for that many passed objects.
pub proof fn lemma_nth_from_start(total: int, n: int)
    requires
        0 <= n < total,
    ensures
        nth_spec(0, total, n) == Some(n + 1),
{
}

/// Two calls `nth(a)` and `nth(b)` reach the same prefix as one call
/// `nth(a + b + 1)`.
pub proof fn lemma_nth_composes(idx: int, total: int, a: int, b: int)
    requires
        0 <= idx,
        0 <= a,
        0 <= b,
        nth_spec(idx, total, a) is Some,
    ensures
        nth_spec(idx, total, a + b + 1) == (if nth_spec(idx, total, a).unwrap() >= total {
            Some(total)
        } else {
            nth_spec(nth_spec(idx, total, a).unwrap(), total, b)
        }),
{
}

/// Once a call has processed the last object, every later call answers
/// `None`, which tells the end apart from any result.
pub proof fn lemma_nth_after_end(total: int, idx: int, n: int, m: int)
    requires
        0 <= idx,
        0 <= n,
        nth_spec(idx, total, n) == Some(total),
    ensures
        nth_spec(nth_spec(idx, total, n).unwrap(), total, m) is None,
{
}

/// What a gradual performance calculation asks for after a step: the
/// performance of `state` over the first `passed_objects` objects.
#[derive(Copy, Clone, Debug, PartialEq, Eq, Structural)]
pub struct GradualPerformanceStep<S> {
    pub state: S,
    pub passed_objects: u32,
}

/// Gradually calculate the performance of an osu!standard map.
///
/// Each call processes one or more hit objects and yields what to evaluate:
/// the given score state over the objects processed so far.
pub struct OsuGradualPerformance {
    difficulty: GradualProgress,
}

impl OsuGradualPerformance {
    pub closed spec fn progress(&self) -> GradualProgress {
        self.difficulty
    }

    /// A gradual calculation over `n_objects` hit objects.
    pub fn new(n_objects: usize) -> (r: Self)
        requires
            n_objects <= u32::MAX,
        ensures
            r.progress().wf(),
            r.progress().idx_spec() == 0,
            r.progress().total_spec() == n_objects,
    {
        OsuGradualPerformance { difficulty: GradualProgress::new(n_objects) }
    }

    /// Process the next hit object.
    pub fn next(&mut self, state: OsuScoreState) -> (r: Option<GradualPerformanceStep<OsuScoreState>>)
        requires
            old(self).progress().wf(),
        ensures
            final(self).progress().wf(),
            final(self).progress().total_spec() == old(self).progress().total_spec(),
            r == (match nth_spec(old(self).progress().idx_spec(), old(self).progress().total_spec(), 0) {
                Some(k) => Some(GradualPerformanceStep { state, passed_objects: k as u32 }),
                None => None,
            }),
            r is Some ==> final(self).progress().idx_spec() == r.unwrap().passed_objects,
            r is None ==> final(self).progress() == old(self).progress(),
    {
        self.nth(state, 0)
    }

    /// Process all remaining hit objects.
    pub fn last(&mut self, state: OsuScoreState) -> (r: Option<GradualPerformanceStep<OsuScoreState>>)
        requires
            old(self).progress().wf(),
        ensures
            final(self).progress().wf(),
            final(self).progress().total_spec() == old(self).progress().total_spec(),
            r == (match nth_spec(old(self).progress().idx_spec(), old(self).progress().total_spec(), usize::MAX as int) {
                Some(k) => Some(GradualPerformanceStep { state, passed_objects: k as u32 }),
                None => None,
            }),
            r is Some ==> final(self).progress().idx_spec() == r.unwrap().passed_objects,
            r is None ==> final(self).progress() == old(self).progress(),
    {
        self.nth(state, usize::MAX)
    }

    /// Process everything up to the next `n`th hit object, zero-indexed:
    /// `n = 0` processes one object.
    pub fn nth(&mut self, state: OsuScoreState, n: usize) -> (r: Option<GradualPerformanceStep<OsuScoreState>>)
        requires
            old(self).progress().wf(),
        ensures
            final(self).progress().wf(),
            final(self).progress().total_spec() == old(self).progress().total_spec(),
            r == (match nth_spec(old(self).progress().idx_spec(), old(self).progress().total_spec(), n as int) {
                Some(k) => Some(GradualPerformanceStep { state, passed_objects: k as u32 }),
                None => None,
            }),
            r is Some ==> final(self).progress().idx_spec() == r.unwrap().passed_objects,
            r is None ==> final(self).progress() == old(self).progress(),
    {
        match self.difficulty.nth(n) {
            Some(passed_objects) => Some(GradualPerformanceStep { state, passed_objects }),
            None => None,
        }
    }

    /// The number of remaining objects.
    pub fn len(&self) -> (r: usize)
        requires
            self.progress().wf(),
        ensures
            r == self.progress().total_spec() - self.progress().idx_spec(),
    {
        self.difficulty.len()
    }
}

} // verus!
