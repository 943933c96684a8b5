use rosu_pp::{Fraction, OsuPP, OsuRelax};

#[test]
fn accuracy_spreads_points_over_300s_and_100s() {
    let calc = OsuPP::new(100).misses(2).accuracy(Fraction { num: 95, den: 100 });
    assert_eq!((calc.n300, calc.n100, calc.n50), (Some(94), Some(2), Some(2)));
    assert_eq!(calc.acc, Some(Fraction { num: 570, den: 600 }));
}

#[test]
fn accuracy_trades_50s_for_100s() {
    // 60 objects at 50%: 180 points, 120 beyond one per object, all 300s
    // first (24), then four 50s and a 300 traded for five 100s while possible.
    let calc = OsuPP::new(60).accuracy(Fraction { num: 1, den: 2 });
    assert_eq!((calc.n300, calc.n100, calc.n50), (Some(15), Some(45), Some(0)));
    assert_eq!(calc.acc, Some(Fraction { num: 180, den: 360 }));
}

#[test]
fn accuracy_around_given_50s() {
    let calc = OsuPP::new(100).n50(10).accuracy(Fraction { num: 9, den: 10 });
    assert_eq!((calc.n300, calc.n100, calc.n50), (Some(88), Some(0), Some(12)));
    assert_eq!(calc.acc, Some(Fraction { num: 540, den: 600 }));
}

#[test]
fn accuracy_around_given_100s() {
    let calc = OsuPP::new(10).n100(2).accuracy(Fraction { num: 1, den: 1 });
    assert_eq!((calc.n300, calc.n100, calc.n50), (Some(8), Some(2), Some(0)));
}

#[test]
fn accuracy_below_one_point_per_object() {
    let calc = OsuPP::new(10).accuracy(Fraction { num: 0, den: 1 });
    assert_eq!((calc.n300, calc.n100, calc.n50), (Some(0), Some(0), Some(10)));
}

#[test]
fn assert_hitresults_fills_the_first_missing_bucket() {
    let mut calc = OsuPP::new(10).n300(7).misses(1);
    calc.assert_hitresults();
    assert_eq!((calc.n300, calc.n100, calc.n50), (Some(7), Some(2), Some(0)));
    assert_eq!(calc.acc, Some(Fraction { num: 46, den: 60 }));
}

#[test]
fn assert_hitresults_keeps_a_given_accuracy() {
    let mut calc = OsuPP::new(10).accuracy(Fraction { num: 1, den: 1 });
    let before = calc;
    calc.assert_hitresults();
    assert_eq!(calc, before);
}

#[test]
fn assert_hitresults_with_everything_given() {
    let mut calc = OsuPP::new(10).n300(5).n100(2).n50(1).misses(1).combo(7);
    calc.assert_hitresults();
    assert_eq!((calc.n300, calc.n100, calc.n50), (Some(6), Some(2), Some(1)));
    assert_eq!(calc.combo, Some(7));
}

#[test]
fn total_hits_is_capped() {
    let calc = OsuPP::new(10).n300(7).n100(5).misses(1);
    assert_eq!(calc.total_hits(), 10);
    assert_eq!(calc.passed_objects(20).total_hits(), 13);
}

#[test]
fn relax_marker_exists() {
    assert_eq!(OsuRelax, OsuRelax);
}

#[test]
fn accuracy_never_places_more_hits_than_objects() {
    let calc = OsuPP::new(10).misses(5).accuracy(Fraction { num: 1, den: 1 });
    assert_eq!((calc.n300, calc.n100, calc.n50), (Some(5), Some(0), Some(0)));
    assert_eq!(calc.acc, Some(Fraction { num: 30, den: 60 }));
}

#[test]
fn given_counts_are_capped_together() {
    let calc = OsuPP::new(10).n100(8).n50(8).misses(1).accuracy(Fraction { num: 1, den: 2 });
    assert_eq!((calc.n300, calc.n100, calc.n50), (Some(0), Some(8), Some(1)));
    let mut calc = OsuPP::new(10).n300(8).n100(5);
    calc.assert_hitresults();
    assert_eq!((calc.n300, calc.n100, calc.n50), (Some(8), Some(2), Some(0)));
}

#[test]
fn accuracy_above_one_counts_as_one() {
    let calc = OsuPP::new(4).accuracy(Fraction { num: 3, den: 2 });
    assert_eq!((calc.n300, calc.n100, calc.n50), (Some(4), Some(0), Some(0)));
    let zero = OsuPP::new(4).accuracy(Fraction { num: 1, den: 0 });
    assert_eq!((zero.n300, zero.n100, zero.n50), (Some(0), Some(0), Some(4)));
}
