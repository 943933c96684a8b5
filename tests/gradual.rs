use rosu_pp::{
    CatchGradualPerformance, CatchScoreState, GradualPerformanceStep, GradualProgress,
    OsuGradualPerformance, OsuScoreState, TaikoGradualDifficulty, TaikoGradualPerformance,
    TaikoGradualStep, TaikoScoreState,
};

#[test]
fn progress_counts_processed_objects() {
    let mut progress = GradualProgress::new(5);
    assert_eq!(progress.len(), 5);
    assert_eq!(progress.nth(1), Some(2));
    assert_eq!(progress.len(), 3);
    assert_eq!(progress.nth(0), Some(3));
    assert_eq!(progress.nth(usize::MAX), Some(5));
    assert_eq!(progress.nth(0), None);
    assert_eq!(progress.len(), 0);
}

#[test]
fn nth_matches_a_prefix_of_that_length() {
    for n in 0..7 {
        let mut progress = GradualProgress::new(7);
        assert_eq!(progress.nth(n), Some(n as u32 + 1));
    }
}

#[test]
fn empty_map_yields_nothing() {
    let mut progress = GradualProgress::new(0);
    assert_eq!(progress.nth(0), None);
}

#[test]
fn osu_gradual_performance_steps() {
    let mut gradual = OsuGradualPerformance::new(3);
    let mut state = OsuScoreState::new();
    state.n300 = 1;
    state.max_combo = 1;
    assert_eq!(gradual.next(state), Some(GradualPerformanceStep { state, passed_objects: 1 }));
    assert_eq!(gradual.len(), 2);
    state.n300 = 3;
    assert_eq!(gradual.last(state), Some(GradualPerformanceStep { state, passed_objects: 3 }));
    assert_eq!(gradual.next(state), None);
}

#[test]
fn catch_gradual_performance_steps() {
    let mut gradual = CatchGradualPerformance::new(12);
    let mut state = CatchScoreState::new();
    state.fruits = 10;
    state.max_combo = 10;
    assert_eq!(gradual.nth(state, 9), Some(GradualPerformanceStep { state, passed_objects: 10 }));
    assert_eq!(gradual.len(), 2);
    state.misses = 1;
    assert_eq!(gradual.next(state), Some(GradualPerformanceStep { state, passed_objects: 11 }));
    assert_eq!(gradual.nth(state, 5), Some(GradualPerformanceStep { state, passed_objects: 12 }));
    assert_eq!(gradual.last(state), None);
}

fn map() -> Vec<bool> {
    // circle, drum roll, circle, circle, swell, circle
    vec![true, false, true, true, false, true]
}

#[test]
fn taiko_steps_one_object_at_a_time() {
    let mut gradual = TaikoGradualDifficulty::new(&map(), usize::MAX);
    assert_eq!(gradual.len(), 5);
    assert_eq!(gradual.size_hint(), (5, Some(5)));
    assert_eq!(gradual.next(), Some(TaikoGradualStep { start: 0, end: 0, max_combo: 1 }));
    assert_eq!(gradual.next(), Some(TaikoGradualStep { start: 0, end: 0, max_combo: 1 }));
    assert_eq!(gradual.next(), Some(TaikoGradualStep { start: 0, end: 1, max_combo: 2 }));
    assert_eq!(gradual.next(), Some(TaikoGradualStep { start: 1, end: 2, max_combo: 3 }));
    assert_eq!(gradual.next(), Some(TaikoGradualStep { start: 2, end: 4, max_combo: 4 }));
    assert_eq!(gradual.next(), None);
    assert_eq!(gradual.len(), 0);
}

#[test]
fn taiko_nth_skips_the_first_two_objects() {
    let mut gradual = TaikoGradualDifficulty::new(&map(), usize::MAX);
    assert_eq!(gradual.nth(2), Some(TaikoGradualStep { start: 0, end: 1, max_combo: 2 }));
    assert_eq!(gradual.len(), 2);
    // the step covers every difficulty object passed on the way
    assert_eq!(gradual.nth(1), Some(TaikoGradualStep { start: 1, end: 4, max_combo: 4 }));
    assert_eq!(gradual.len(), 0);
    assert_eq!(gradual.nth(0), None);
}

#[test]
fn taiko_first_two_circles_both_count() {
    let mut gradual = TaikoGradualDifficulty::new(&vec![true, true, true], usize::MAX);
    assert_eq!(gradual.nth(1), Some(TaikoGradualStep { start: 0, end: 0, max_combo: 2 }));
    assert_eq!(gradual.next(), Some(TaikoGradualStep { start: 0, end: 1, max_combo: 3 }));
    assert_eq!(gradual.next(), None);
}

#[test]
fn taiko_map_without_difficulty_objects_still_steps() {
    let mut gradual = TaikoGradualDifficulty::new(&vec![true, true], usize::MAX);
    assert_eq!(gradual.len(), 2);
    assert_eq!(gradual.next(), Some(TaikoGradualStep { start: 0, end: 0, max_combo: 1 }));
    assert_eq!(gradual.next(), Some(TaikoGradualStep { start: 0, end: 0, max_combo: 2 }));
    assert_eq!(gradual.next(), None);
}

#[test]
fn taiko_one_circle_map_steps_once() {
    let mut gradual = TaikoGradualDifficulty::new(&vec![true], usize::MAX);
    assert_eq!(gradual.len(), 1);
    assert_eq!(gradual.nth(0), Some(TaikoGradualStep { start: 0, end: 0, max_combo: 1 }));
    assert_eq!(gradual.len(), 0);
    assert_eq!(gradual.next(), None);
}

#[test]
fn taiko_drum_rolls_first_count_as_steps() {
    let mut gradual = TaikoGradualDifficulty::new(&vec![false, false, true], usize::MAX);
    assert_eq!(gradual.len(), 3);
    assert_eq!(gradual.next(), Some(TaikoGradualStep { start: 0, end: 0, max_combo: 0 }));
    assert_eq!(gradual.next(), Some(TaikoGradualStep { start: 0, end: 0, max_combo: 0 }));
    assert_eq!(gradual.len(), 1);
    assert_eq!(gradual.next(), Some(TaikoGradualStep { start: 0, end: 1, max_combo: 1 }));
    assert_eq!(gradual.next(), None);
}

#[test]
fn taiko_passed_objects_limit_the_difficulty_objects() {
    let mut gradual = TaikoGradualDifficulty::new(&map(), 4);
    assert_eq!(gradual.nth(3), Some(TaikoGradualStep { start: 0, end: 2, max_combo: 3 }));
    assert_eq!(gradual.next(), None);
}

#[test]
fn taiko_gradual_performance_steps() {
    let mut gradual = TaikoGradualPerformance::new(&map(), usize::MAX);
    let mut state = TaikoScoreState::new();
    state.n300 = 1;
    state.max_combo = 1;
    let step = gradual.next(state).unwrap();
    assert_eq!(step.passed_objects, 1);
    assert_eq!(step.state, state);
    assert_eq!(step.difficulty, TaikoGradualStep { start: 0, end: 0, max_combo: 1 });
    assert_eq!(gradual.len(), 4);
    let step = gradual.last(state).unwrap();
    assert_eq!(step.passed_objects, 5);
    assert_eq!(step.difficulty, TaikoGradualStep { start: 0, end: 4, max_combo: 4 });
    assert_eq!(gradual.len(), 0);
    assert!(gradual.next(state).is_none());
}

#[test]
fn taiko_one_passed_object_has_no_difficulty_objects() {
    let mut gradual = TaikoGradualDifficulty::new(&map(), 1);
    assert_eq!(gradual.len(), 1);
    assert_eq!(gradual.next(), Some(TaikoGradualStep { start: 0, end: 0, max_combo: 1 }));
    assert_eq!(gradual.next(), None);
}
