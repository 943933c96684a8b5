use rosu_pp::{
    calculate_effective_misses, Fraction, HitResultPriority, OsuMapCounts, OsuPerformance,
    OsuScoreState,
};

fn counts(n_circles: u32, n_sliders: u32, n_slider_ticks: u32, max_combo: u32) -> OsuMapCounts {
    OsuMapCounts { max_combo, n_circles, n_sliders, n_spinners: 0, n_slider_ticks }
}

fn acc(num: u64, den: u64) -> Fraction {
    Fraction { num, den }
}

#[test]
fn fraction_is_clamped() {
    assert_eq!(Fraction::clamped(3, 2), acc(2, 2));
    assert_eq!(Fraction::clamped(1, 2), acc(1, 2));
    assert_eq!(Fraction::clamped(1, 0), acc(0, 1));
}

#[test]
fn default_priority_is_best_case() {
    assert_eq!(HitResultPriority::default(), HitResultPriority::BestCase);
}

#[test]
fn remaining_objects_fill_the_first_missing_bucket() {
    let mut calc = OsuPerformance::new(counts(50, 10, 20, 100)).n100(5).misses(2);
    let state = calc.generate_state();
    assert_eq!(
        state,
        OsuScoreState {
            max_combo: 98,
            slider_tick_hits: 20,
            slider_end_hits: 10,
            n300: 53,
            n100: 5,
            n50: 0,
            misses: 2,
        }
    );
    assert_eq!(calc.n300, Some(53));
    assert_eq!(calc.combo, Some(98));
}

#[test]
fn worst_case_fills_fifties() {
    let mut calc = OsuPerformance::new(counts(50, 10, 20, 100))
        .n100(5)
        .misses(2)
        .hitresult_priority(HitResultPriority::WorstCase);
    let state = calc.generate_state();
    assert_eq!((state.n300, state.n100, state.n50), (0, 5, 53));
}

#[test]
fn given_counts_are_capped() {
    let mut calc = OsuPerformance::new(counts(10, 0, 0, 10))
        .n300(30)
        .misses(20)
        .combo(50);
    let state = calc.generate_state();
    assert_eq!(state.misses, 10);
    assert_eq!(state.n300, 0);
    assert_eq!(state.max_combo, 0);
}

#[test]
fn unreachable_accuracy_picks_the_closest() {
    let mut calc = OsuPerformance::new(counts(10, 0, 0, 10)).lazer(false).accuracy(acc(95, 100));
    let state = calc.generate_state();
    assert_eq!((state.n300, state.n100, state.n50), (9, 1, 0));
    assert_eq!(state.slider_end_hits, 0);
    assert_eq!(state.accuracy(0, 0), acc(2800, 3000));
}

#[test]
fn exact_accuracy_with_best_and_worst_case() {
    let base = OsuPerformance::new(counts(100, 0, 0, 100)).lazer(false).accuracy(acc(9, 10));
    let best = base.clone().generate_state();
    let mut worst_calc = base.hitresult_priority(HitResultPriority::WorstCase);
    let worst = worst_calc.generate_state();
    assert_eq!((best.n300, best.n100, best.n50), (85, 15, 0));
    assert_eq!((worst.n300, worst.n100, worst.n50), (88, 0, 12));
    assert_eq!(best.accuracy(0, 0), worst.accuracy(0, 0));
    assert_eq!(best.accuracy(0, 0), acc(27000, 30000));
}

#[test]
fn all_counts_given_with_accuracy() {
    let base = OsuPerformance::new(counts(100, 0, 0, 100))
        .lazer(false)
        .accuracy(acc(9, 10))
        .n300(50)
        .n100(10)
        .n50(5);
    let best = base.clone().generate_state();
    let worst = base.hitresult_priority(HitResultPriority::WorstCase).generate_state();
    assert_eq!((best.n300, best.n100, best.n50), (85, 10, 5));
    assert_eq!((worst.n300, worst.n100, worst.n50), (50, 10, 40));
}

#[test]
fn two_counts_given_with_accuracy() {
    let state = OsuPerformance::new(counts(100, 0, 0, 100))
        .lazer(false)
        .accuracy(acc(1, 2))
        .n300(60)
        .n100(30)
        .misses(4)
        .generate_state();
    assert_eq!((state.n300, state.n100, state.n50, state.misses), (60, 30, 6, 4));
}

#[test]
fn only_300s_given_searches_100s() {
    // 100 objects, 80 300s: the 20 left are split to meet 90%.
    // 2400 + 10 x + 5 (20 - x) = 2700 gives x = 40, capped at 20.
    let state = OsuPerformance::new(counts(100, 0, 0, 100))
        .lazer(false)
        .accuracy(acc(9, 10))
        .n300(80)
        .generate_state();
    assert_eq!((state.n300, state.n100, state.n50), (80, 20, 0));
}

#[test]
fn only_100s_given_searches_300s() {
    // 10 100s: 100 + 30 x + 5 (90 - x) = 2700 gives x = 86.
    let state = OsuPerformance::new(counts(100, 0, 0, 100))
        .lazer(false)
        .accuracy(acc(9, 10))
        .n100(10)
        .generate_state();
    assert_eq!((state.n300, state.n100, state.n50), (86, 10, 4));
}

#[test]
fn only_50s_given_searches_300s() {
    // 4 50s: 20 + 30 x + 10 (96 - x) = 2700 gives x = 86.
    let state = OsuPerformance::new(counts(100, 0, 0, 100))
        .lazer(false)
        .accuracy(acc(9, 10))
        .n50(4)
        .generate_state();
    assert_eq!((state.n300, state.n100, state.n50), (86, 10, 4));
}

#[test]
fn full_accuracy_on_lazer_counts_slider_hits() {
    let state = OsuPerformance::new(counts(8, 2, 4, 16)).accuracy(acc(1, 1)).generate_state();
    assert_eq!(
        state,
        OsuScoreState {
            max_combo: 16,
            slider_tick_hits: 4,
            slider_end_hits: 2,
            n300: 10,
            n100: 0,
            n50: 0,
            misses: 0,
        }
    );
    assert_eq!(state.accuracy(4, 2), acc(3420, 3420));
}

#[test]
fn state_sets_every_count() {
    let given = OsuScoreState {
        max_combo: 5,
        slider_tick_hits: 1,
        slider_end_hits: 1,
        n300: 3,
        n100: 1,
        n50: 1,
        misses: 0,
    };
    let calc = OsuPerformance::new(counts(4, 1, 1, 7)).state(given);
    assert_eq!(calc.n300, Some(3));
    assert_eq!(calc.slider_tick_hits, Some(1));
    let state = calc.clone().generate_state();
    assert_eq!(state, given);
}

#[test]
fn no_passed_objects_means_no_hits() {
    let state = OsuPerformance::new(counts(10, 3, 6, 20))
        .passed_objects(0)
        .accuracy(acc(97, 100))
        .generate_state();
    assert_eq!(state.total_hits(), 0);
    assert_eq!(state.accuracy(6, 3).num, 150 * 3 + 30 * 6);
    let empty = OsuPerformance::new(counts(10, 3, 6, 20)).passed_objects(0).lazer(false);
    let state = empty.clone().generate_state();
    assert_eq!(state.total_hits(), 0);
    assert_eq!((state.slider_end_hits, state.slider_tick_hits), (0, 0));
    assert_eq!(state.accuracy(0, 0), acc(0, 1));
}

#[test]
fn passed_objects_limit_generation() {
    let state = OsuPerformance::new(counts(100, 0, 0, 100)).passed_objects(10).generate_state();
    assert_eq!(state.n300, 10);
    assert_eq!(state.total_hits(), 10);
}

#[test]
fn round_trip_stays_within_one_step() {
    for percent in [17u64, 50, 77, 91, 99, 100] {
        let target = acc(percent, 100);
        let state = OsuPerformance::new(counts(37, 0, 0, 37))
            .lazer(false)
            .accuracy(target)
            .generate_state();
        let got = state.accuracy(0, 0);
        // |percent / 100 - num / den| < 25 / (30 * 37)
        let lhs = (percent as i128 * got.den as i128 - 100 * got.num as i128).abs();
        assert!(lhs * 30 * 37 < 25 * 100 * got.den as i128, "{percent}");
    }
}

#[test]
fn effective_misses_from_combo() {
    let c = counts(80, 20, 0, 100);
    let mut state = OsuScoreState::new();
    state.max_combo = 50;
    state.n100 = 3;
    state.n50 = 1;
    state.misses = 1;
    assert_eq!(calculate_effective_misses(&c, &state), acc(980, 500));
    state.max_combo = 10;
    assert_eq!(calculate_effective_misses(&c, &state), acc(5, 1));
    state.max_combo = 0;
    assert_eq!(calculate_effective_misses(&c, &state), acc(5, 1));
}

#[test]
fn effective_misses_without_sliders_are_reported_misses() {
    let c = counts(100, 0, 0, 100);
    let mut state = OsuScoreState::new();
    state.max_combo = 3;
    state.misses = 1;
    assert_eq!(calculate_effective_misses(&c, &state), acc(1, 1));
}

#[test]
fn full_combo_has_no_effective_misses() {
    let c = counts(0, 10, 0, 10);
    let mut state = OsuScoreState::new();
    state.max_combo = 10;
    state.n300 = 10;
    assert_eq!(calculate_effective_misses(&c, &state), acc(0, 1));
}

#[test]
fn ten_perfect_hits_on_a_full_combo() {
    let c = counts(10, 0, 0, 10);
    let mut calc = OsuPerformance::new(c).n300(10).misses(0).combo(10);
    let state = calc.generate_state();
    assert_eq!((state.n300, state.n100, state.n50, state.misses), (10, 0, 0, 0));
    assert_eq!(state.max_combo, 10);
    assert_eq!(calculate_effective_misses(&c, &state), acc(0, 1));
    assert_eq!(state.accuracy(0, 0), acc(3000, 3000));
}

#[test]
fn generation_is_repeatable() {
    let calc = OsuPerformance::new(counts(40, 7, 12, 60)).accuracy(acc(883, 1000)).misses(3);
    let first = calc.clone().generate_state();
    let second = calc.clone().generate_state();
    assert_eq!(first, second);
}

#[test]
fn one_passed_object_has_no_difficulty_objects() {
    assert_eq!(rosu_pp::difficulty_object_count(10, 1), 0);
    assert_eq!(rosu_pp::difficulty_object_count(10, 0), 0);
    assert_eq!(rosu_pp::difficulty_object_count(10, usize::MAX), 9);
    assert_eq!(rosu_pp::difficulty_object_count(10, 4), 3);
}

#[test]
fn round_trip_with_one_count_given() {
    for percent in [20u64, 45, 70, 93] {
        let state = OsuPerformance::new(counts(100, 0, 0, 100))
            .lazer(false)
            .accuracy(acc(percent, 100))
            .n100(10)
            .generate_state();
        assert_eq!(state.n100, 10);
        let got = state.accuracy(0, 0);
        let lhs = (percent as i128 * got.den as i128 - 100 * got.num as i128).abs();
        assert!(lhs * 3000 < 2500 * got.den as i128, "{percent}");
    }
}

#[test]
fn given_counts_never_exceed_the_objects() {
    let state = OsuPerformance::new(counts(10, 0, 0, 10))
        .n300(6)
        .n100(6)
        .n50(6)
        .misses(1)
        .generate_state();
    assert_eq!((state.n300, state.n100, state.n50, state.misses), (6, 3, 0, 1));
    assert_eq!(state.total_hits(), 10);
}
