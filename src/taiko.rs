use vstd::prelude::*;

verus! {

/// Which of a map's first two hit objects are circles and so add to the
/// combo before any difficulty object exists.
#[derive(Copy, Clone, Debug, PartialEq, Eq, Structural)]
pub enum FirstTwoCombos {
    Neither,
    OnlyFirst,
    OnlySecond,
    Both,
}

pub open spec fn first_two_spec(is_circle: Seq<bool>) -> FirstTwoCombos {
    if is_circle.len() == 0 {
        FirstTwoCombos::Neither
    } else if is_circle.len() == 1 {
        if is_circle[0] {
            FirstTwoCombos::OnlyFirst
        } else {
            FirstTwoCombos::Neither
        }
    } else if is_circle[0] && is_circle[1] {
        FirstTwoCombos::Both
    } else if is_circle[0] {
        FirstTwoCombos::OnlyFirst
    } else if is_circle[1] {
        FirstTwoCombos::OnlySecond
    } else {
        FirstTwoCombos::Neither
    }
}

/// The number of circles in `flags` at or after position `from`.
pub open spec fn circles_from(flags: Seq<bool>, from: int) -> int
    decreases flags.len() - from,
{
    if from >= flags.len() {
        0
    } else {
        circles_from(flags, from + 1) + if flags[from] {
            1int
        } else {
            0int
        }
    }
}

/// The first position at or after `from` whose object is a circle, or the
/// length of `flags` if there is none.
pub open spec fn next_hit(flags: Seq<bool>, from: int) -> int
    decreases flags.len() - from,
{
    if from >= flags.len() {
        flags.len() as int
    } else if flags[from] {
        from
    } else {
        next_hit(flags, from + 1)
    }
}

/// The combo after the first `idx` objects (zero, one or two), which carry
/// no difficulty object.
pub open spec fn early_combo(first: FirstTwoCombos, idx: int, combo: int) -> int {
    match first {
        FirstTwoCombos::Neither => combo,
        FirstTwoCombos::OnlyFirst => if idx >= 1 { 1 } else { combo },
        FirstTwoCombos::OnlySecond => if idx >= 2 { 1 } else { combo },
        FirstTwoCombos::Both => if idx >= 2 { 2 } else if idx == 1 { 1 } else { combo },
    }
}

/// What one step of the gradual calculation asks of the strain skills: feed
/// them the difficulty objects `start..end`, then evaluate with `max_combo`.
#[derive(Copy, Clone, Debug, PartialEq, Eq, Structural)]
pub struct TaikoGradualStep {
    pub start: usize,
    pub end: usize,
    pub max_combo: u32,
}

/// The state of a gradual osu!taiko difficulty calculation, as plain values.
///
/// The steps are: one for each of the first objects (at most two), which
/// carry no difficulty object, then one for each circle among the
/// difficulty objects, covering the drum rolls and swells before it.
pub struct TaikoGradualModel {
    /// Steps taken so far.
    pub idx: int,
    /// Combo so far.
    pub max_combo: int,
    /// The next difficulty object to hand to the skills.
    pub cursor: int,
    /// For each difficulty object, whether its hit object is a circle.
    pub flags: Seq<bool>,
    /// The steps for the first objects.
    pub early: int,
    /// All steps.
    pub total: int,
    pub first: FirstTwoCombos,
}

impl TaikoGradualModel {
    /// The steps are counted as described above, the cursor follows them,
    /// and the combo is at most one per step.
    pub open spec fn inv(self) -> bool {
        &&& 0 <= self.early <= 2
        &&& self.total == self.early + circles_from(self.flags, 0)
        &&& self.total <= self.flags.len() + 2
        &&& 0 <= self.idx <= self.total
        &&& 0 <= self.cursor <= self.flags.len()
        &&& self.idx <= self.early ==> self.cursor == 0
        &&& self.idx >= self.early ==> circles_from(self.flags, self.cursor) == self.total - self.idx
        &&& 0 <= self.max_combo <= self.idx
    }

    /// The number of steps still to come.
    pub open spec fn len(self) -> int {
        self.total - self.idx
    }

    /// The effect of one step; `None`, with nothing changed, once every step
    /// is taken.
    pub open spec fn next(self) -> (TaikoGradualModel, Option<TaikoGradualStep>) {
        if self.idx < self.early {
            let combo = early_combo(self.first, self.idx + 1, self.max_combo);
            (
                TaikoGradualModel { idx: self.idx + 1, max_combo: combo, ..self },
                Some(
                    TaikoGradualStep {
                        start: self.cursor as usize,
                        end: self.cursor as usize,
                        max_combo: combo as u32,
                    },
                ),
            )
        } else if self.idx < self.total {
            let j = next_hit(self.flags, self.cursor);
            (
                TaikoGradualModel {
                    idx: self.idx + 1,
                    max_combo: self.max_combo + 1,
                    cursor: j + 1,
                    ..self
                },
                Some(
                    TaikoGradualStep {
                        start: self.cursor as usize,
                        end: (j + 1) as usize,
                        max_combo: (self.max_combo + 1) as u32,
                    },
                ),
            )
        } else {
            (self, None)
        }
    }

    /// The state after `k` steps.
    pub open spec fn advance(self, k: nat) -> TaikoGradualModel
        decreases k,
    {
        if k == 0 {
            self
        } else {
            self.next().0.advance((k - 1) as nat)
        }
    }

    /// Skipping `n` steps, at most all but the last, and taking the one
    /// after; the step covers every difficulty object passed on the way.
    pub open spec fn nth(self, n: int) -> (TaikoGradualModel, Option<TaikoGradualStep>) {
        if self.len() <= 0 {
            (self, None)
        } else {
            let k = if n < self.len() - 1 {
                n
            } else {
                self.len() - 1
            };
            let (after, step) = self.advance(k as nat).next();
            (
                after,
                match step {
                    Some(st) => Some(TaikoGradualStep { start: self.cursor as usize, ..st }),
                    None => None,
                },
            )
        }
    }
}

proof fn lemma_circles_step(flags: Seq<bool>, c: int)
    requires
        0 <= c <= flags.len(),
        circles_from(flags, c) > 0,
    ensures
        c <= next_hit(flags, c) < flags.len(),
        circles_from(flags, next_hit(flags, c) + 1) == circles_from(flags, c) - 1,
    decreases flags.len() - c,
{
    if c < flags.len() && !flags[c] {
        lemma_circles_step(flags, c + 1);
    }
}

proof fn lemma_circles_bound(flags: Seq<bool>, c: int)
    requires
        0 <= c <= flags.len(),
    ensures
        0 <= circles_from(flags, c) <= flags.len() - c,
    decreases flags.len() - c,
{
    if c < flags.len() {
        lemma_circles_bound(flags, c + 1);
    }
}

/// A step keeps the invariant, comes exactly while steps remain, takes one
/// of them, and never lowers the combo.
pub proof fn lemma_next_step(m: TaikoGradualModel)
    requires
        m.inv(),
    ensures
        m.next().0.inv(),
        (m.next().1 is Some) == (m.len() > 0),
        m.next().0.len() == if m.len() > 0 {
            m.len() - 1
        } else {
            0
        },
        m.next().0.max_combo >= m.max_combo,
{
    lemma_circles_bound(m.flags, 0);
    if m.idx >= m.early && m.idx < m.total {
        lemma_circles_step(m.flags, m.cursor);
    }
}

/// Advancing `k` steps keeps the invariant and takes `k` steps, or all that
/// remain.
pub proof fn lemma_advance(m: TaikoGradualModel, k: nat)
    requires
        m.inv(),
    ensures
        m.advance(k).inv(),
        m.advance(k).len() == if k <= m.len() {
            m.len() - k
        } else {
            0
        },
        m.advance(k + 1) == m.advance(k).next().0,
    decreases k,
{
    lemma_next_step(m);
    if k > 0 {
        let m1 = m.next().0;
        lemma_advance(m1, (k - 1) as nat);
        assert(m.advance(k) == m1.advance((k - 1) as nat));
        assert(m.advance(k + 1) == m1.advance(k));
    } else {
        assert(m.advance(1) == m.next().0.advance(0));
    }
}

/// `nth(n)` is `n + 1` steps, or all that remain: it yields a step exactly
/// when steps remain, and ends where that many calls of `next` end.
pub proof fn lemma_nth_is_repeated_next(m: TaikoGradualModel, n: int)
    requires
        m.inv(),
        n >= 0,
    ensures
        (m.nth(n).1 is Some) == (m.len() > 0),
        m.len() > 0 ==> m.nth(n).0 == m.advance((if n + 1 <= m.len() { n + 1 } else { m.len() }) as nat),
        m.nth(n).0.inv(),
        m.nth(n).0.len() == if n + 1 <= m.len() { m.len() - (n + 1) } else { 0 },
{
    if m.len() > 0 {
        let k = if n < m.len() - 1 {
            n
        } else {
            m.len() - 1
        };
        lemma_advance(m, k as nat);
        lemma_next_step(m.advance(k as nat));
    }
}

/// Once no step remains, every later call yields `None` and changes
/// nothing: exhaustion is a terminal state, told apart from a step with
/// zero difficulty by its `None`.
pub proof fn lemma_exhausted_stays_exhausted(m: TaikoGradualModel)
    requires
        m.inv(),
        m.len() == 0,
    ensures
        m.next() == (m, None::<TaikoGradualStep>),
{
    lemma_circles_bound(m.flags, 0);
}

/// The difficulty-object flags of a map whose first `take` hit objects are
/// processed: one per object from the third on.
pub open spec fn taiko_flags(is_circle: Seq<bool>, take: int) -> Seq<bool> {
    let end = if take <= is_circle.len() {
        take
    } else {
        is_circle.len() as int
    };
    if end <= 2 {
        Seq::empty()
    } else {
        is_circle.subrange(2, end)
    }
}

/// The steps for the first objects of a map of `n` objects whose first
/// `take` are processed.
pub open spec fn taiko_early(n: int, take: int) -> int {
    let end = if take <= n {
        take
    } else {
        n
    };
    if end <= 2 {
        end
    } else {
        2
    }
}

/// The state of a fresh calculation.
pub open spec fn taiko_start(is_circle: Seq<bool>, take: int) -> TaikoGradualModel {
    let flags = taiko_flags(is_circle, take);
    let early = taiko_early(is_circle.len() as int, take);
    TaikoGradualModel {
        idx: 0,
        max_combo: 0,
        cursor: 0,
        flags,
        early,
        total: early + circles_from(flags, 0),
        first: first_two_spec(is_circle),
    }
}

fn early_combo_exec(first: FirstTwoCombos, idx: usize, combo: u32) -> (r: u32)
    ensures
        r == early_combo(first, idx as int, combo as int),
{
    match first {
        FirstTwoCombos::Neither => combo,
        FirstTwoCombos::OnlyFirst => if idx >= 1 { 1 } else { combo },
        FirstTwoCombos::OnlySecond => if idx >= 2 { 1 } else { combo },
        FirstTwoCombos::Both => if idx >= 2 { 2 } else if idx == 1 { 1 } else { combo },
    }
}

/// Gradually calculate the difficulty of an osu!taiko map, one step at a
/// time.
///
/// The difficulty objects belong to the hit objects from the third on. Each
/// of the first two objects is a step of its own that may add to the combo;
/// after them, each step hands the strain skills the difficulty objects up
/// to and including the next circle, passing drum rolls and swells on the
/// way.
pub struct TaikoGradualDifficulty {
    idx: usize,
    max_combo: u32,
    diff_is_hit: Vec<bool>,
    cursor: usize,
    early: usize,
    total: usize,
    first_combos: FirstTwoCombos,
}

impl View for TaikoGradualDifficulty {
    type V = TaikoGradualModel;

    closed spec fn view(&self) -> TaikoGradualModel {
        TaikoGradualModel {
            idx: self.idx as int,
            max_combo: self.max_combo as int,
            cursor: self.cursor as int,
            flags: self.diff_is_hit@,
            early: self.early as int,
            total: self.total as int,
            first: self.first_combos,
        }
    }
}

impl TaikoGradualDifficulty {
    /// The model's invariant holds and the combo fits in a `u32`.
    pub open spec fn wf(&self) -> bool {
        &&& self@.inv()
        &&& self@.flags.len() + 3 < u32::MAX
    }

    /// A gradual calculation over a map whose hit objects are circles where
    /// `is_circle` holds, with its first `take` objects processed.
    pub fn new(is_circle: &Vec<bool>, take: usize) -> (r: Self)
        requires
            is_circle@.len() + 3 < u32::MAX,
        ensures
            r.wf(),
            r@ == taiko_start(is_circle@, take as int),
    {
        let n = is_circle.len();
        let first_combos = if n == 0 {
            FirstTwoCombos::Neither
        } else if n == 1 {
            if is_circle[0] {
                FirstTwoCombos::OnlyFirst
            } else {
                FirstTwoCombos::Neither
            }
        } else if is_circle[0] && is_circle[1] {
            FirstTwoCombos::Both
        } else if is_circle[0] {
            FirstTwoCombos::OnlyFirst
        } else if is_circle[1] {
            FirstTwoCombos::OnlySecond
        } else {
            FirstTwoCombos::Neither
        };
        let end = if take <= n {
            take
        } else {
            n
        };
        let early = if end <= 2 {
            end
        } else {
            2
        };
        let mut diff_is_hit: Vec<bool> = Vec::new();
        if end > 2 {
            let mut i: usize = 2;
            while i < end
                invariant
                    end <= n == is_circle@.len(),
                    2 <= i <= end,
                    diff_is_hit@ == is_circle@.subrange(2, i as int),
                decreases end - i,
            {
                diff_is_hit.push(is_circle[i]);
                i = i + 1;
                assert(diff_is_hit@ =~= is_circle@.subrange(2, i as int));
            }
        }
        assert(diff_is_hit@ =~= taiko_flags(is_circle@, take as int));
        let mut circles: usize = 0;
        let mut k: usize = diff_is_hit.len();
        while k > 0
            invariant
                k <= diff_is_hit@.len() < u32::MAX,
                circles == circles_from(diff_is_hit@, k as int),
                circles <= diff_is_hit@.len() - k,
            decreases k,
        {
            k = k - 1;
            if diff_is_hit[k] {
                circles = circles + 1;
            }
        }
        proof {
            lemma_circles_bound(diff_is_hit@, 0);
        }
        TaikoGradualDifficulty {
            idx: 0,
            max_combo: 0,
            diff_is_hit,
            cursor: 0,
            early,
            total: early + circles,
            first_combos,
        }
    }

    /// The number of steps still to come.
    pub fn len(&self) -> (r: usize)
        requires
            self.wf(),
        ensures
            r == self@.len(),
    {
        self.total - self.idx
    }

    /// Lower and upper bound on the remaining steps; both are exact.
    pub fn size_hint(&self) -> (r: (usize, Option<usize>))
        requires
            self.wf(),
        ensures
            r == (self@.len() as usize, Some(self@.len() as usize)),
    {
        let len = self.len();
        (len, Some(len))
    }

    /// The first circle at or after `from`, or the end of the objects.
    fn find_hit(&self, from: usize) -> (j: usize)
        requires
            from <= self.diff_is_hit@.len(),
        ensures
            j == next_hit(self.diff_is_hit@, from as int),
            from <= j <= self.diff_is_hit@.len(),
    {
        let mut j = from;
        while j < self.diff_is_hit.len() && !self.diff_is_hit[j]
            invariant
                from <= j <= self.diff_is_hit@.len(),
                next_hit(self.diff_is_hit@, from as int) == next_hit(self.diff_is_hit@, j as int),
            decreases self.diff_is_hit@.len() - j,
        {
            j = j + 1;
        }
        j
    }

    /// Takes the next step; `None` exactly when no step remains.
    pub fn next(&mut self) -> (r: Option<TaikoGradualStep>)
        requires
            old(self).wf(),
        ensures
            final(self).wf(),
            (final(self)@, r) == old(self)@.next(),
            r.is_some() == (old(self)@.len() > 0),
            final(self)@.len() == if old(self)@.len() > 0 {
                old(self)@.len() - 1
            } else {
                0
            },
    {
        proof {
            lemma_next_step(self@);
        }
        if self.idx < self.early {
            self.idx = self.idx + 1;
            self.max_combo = early_combo_exec(self.first_combos, self.idx, self.max_combo);
            Some(TaikoGradualStep { start: self.cursor, end: self.cursor, max_combo: self.max_combo })
        } else if self.idx < self.total {
            proof {
                lemma_circles_step(self.diff_is_hit@, self.cursor as int);
            }
            let j = self.find_hit(self.cursor);
            let start = self.cursor;
            self.cursor = j + 1;
            self.idx = self.idx + 1;
            self.max_combo = self.max_combo + 1;
            Some(TaikoGradualStep { start, end: self.cursor, max_combo: self.max_combo })
        } else {
            None
        }
    }

    /// Skips `n` steps, at most all but the last, and takes the one after,
    /// so that `n = 0` takes one step; `None` exactly when no step remains.
    /// The step covers every difficulty object passed on the way.
    pub fn nth(&mut self, n: usize) -> (r: Option<TaikoGradualStep>)
        requires
            old(self).wf(),
        ensures
            final(self).wf(),
            (final(self)@, r) == old(self)@.nth(n as int),
            r.is_some() == (old(self)@.len() > 0),
            final(self)@.len() == if n + 1 <= old(self)@.len() {
                old(self)@.len() - (n + 1)
            } else {
                0
            },
    {
        proof {
            lemma_nth_is_repeated_next(self@, n as int);
        }
        let len = self.len();
        if len == 0 {
            return None;
        }
        let start = self.cursor;
        let take: usize = if n < len - 1 {
            n
        } else {
            len - 1
        };
        let mut i: usize = 0;
        while i < take
            invariant
                old(self).wf(),
                self.wf(),
                self.diff_is_hit@ == old(self)@.flags,
                i <= take,
                take < len == old(self)@.len(),
                self@ == old(self)@.advance(i as nat),
            decreases take - i,
        {
            proof {
                lemma_advance(old(self)@, i as nat);
            }
            self.next();
            i = i + 1;
        }
        proof {
            lemma_advance(old(self)@, take as nat);
        }
        match self.next() {
            Some(st) => Some(TaikoGradualStep { start, ..st }),
            None => None,
        }
    }
}

/// The hitresults and combo of an osu!taiko play.
#[derive(Copy, Clone, Debug, PartialEq, Eq, Structural)]
pub struct TaikoScoreState {
    /// Maximum combo that the score has had so far.
    pub max_combo: u32,
    pub n300: u32,
    pub n100: u32,
    pub misses: u32,
}

impl TaikoScoreState {
    /// A state with every count at zero.
    pub fn new() -> (r: Self)
        ensures
            r == (TaikoScoreState { max_combo: 0, n300: 0, n100: 0, misses: 0 }),
    {
        TaikoScoreState { max_combo: 0, n300: 0, n100: 0, misses: 0 }
    }
}

/// What a gradual osu!taiko performance calculation asks for after a step:
/// the difficulty step, then the performance of `state` over the first
/// `passed_objects` objects.
#[derive(Copy, Clone, Debug, PartialEq, Eq, Structural)]
pub struct TaikoPerformanceStep {
    pub difficulty: TaikoGradualStep,
    pub state: TaikoScoreState,
    pub passed_objects: u32,
}

/// Gradually calculate the performance of an osu!taiko map.
pub struct TaikoGradualPerformance {
    difficulty: TaikoGradualDifficulty,
}

impl TaikoGradualPerformance {
    pub closed spec fn model(&self) -> TaikoGradualModel {
        self.difficulty@
    }

    /// The model's invariant holds and the combo fits in a `u32`.
    pub open spec fn wf(&self) -> bool {
        &&& self.model().inv()
        &&& self.model().flags.len() + 3 < u32::MAX
    }

    /// A gradual calculation over a map whose hit objects are circles where
    /// `is_circle` holds, with its first `take` objects processed.
    pub fn new(is_circle: &Vec<bool>, take: usize) -> (r: Self)
        requires
            is_circle@.len() + 3 < u32::MAX,
        ensures
            r.wf(),
            r.model() == taiko_start(is_circle@, take as int),
    {
        TaikoGradualPerformance { difficulty: TaikoGradualDifficulty::new(is_circle, take) }
    }

    /// Take the next step; `None` exactly when no step remains.
    pub fn next(&mut self, state: TaikoScoreState) -> (r: Option<TaikoPerformanceStep>)
        requires
            old(self).wf(),
        ensures
            final(self).wf(),
            final(self).model() == old(self).model().nth(0).0,
            r.is_some() == (old(self).model().len() > 0),
            r == (match old(self).model().nth(0).1 {
                Some(step) => Some(
                    TaikoPerformanceStep {
                        difficulty: step,
                        state,
                        passed_objects: final(self).model().idx as u32,
                    },
                ),
                None => None,
            }),
    {
        self.nth(state, 0)
    }

    /// Take every remaining step; `None` exactly when none remains.
    pub fn last(&mut self, state: TaikoScoreState) -> (r: Option<TaikoPerformanceStep>)
        requires
            old(self).wf(),
        ensures
            final(self).wf(),
            final(self).model() == old(self).model().nth(usize::MAX as int).0,
            r.is_some() == (old(self).model().len() > 0),
            r == (match old(self).model().nth(usize::MAX as int).1 {
                Some(step) => Some(
                    TaikoPerformanceStep {
                        difficulty: step,
                        state,
                        passed_objects: final(self).model().idx as u32,
                    },
                ),
                None => None,
            }),
    {
        self.nth(state, usize::MAX)
    }

    /// Take `n + 1` steps, or all that remain: `n = 0` takes one step.
    pub fn nth(&mut self, state: TaikoScoreState, n: usize) -> (r: Option<TaikoPerformanceStep>)
        requires
            old(self).wf(),
        ensures
            final(self).wf(),
            final(self).model() == old(self).model().nth(n as int).0,
            r.is_some() == (old(self).model().len() > 0),
            r == (match old(self).model().nth(n as int).1 {
                Some(step) => Some(
                    TaikoPerformanceStep {
                        difficulty: step,
                        state,
                        passed_objects: final(self).model().idx as u32,
                    },
                ),
                None => None,
            }),
    {
        match self.difficulty.nth(n) {
            Some(step) => Some(
                TaikoPerformanceStep {
                    difficulty: step,
                    state,
                    passed_objects: self.difficulty.idx as u32,
                },
            ),
            None => None,
        }
    }

    /// The number of steps still to come.
    pub fn len(&self) -> (r: usize)
        requires
            self.wf(),
        ensures
            r == self.model().len(),
    {
        self.difficulty.len()
    }
}

} // verus!
