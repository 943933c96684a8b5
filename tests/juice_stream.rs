use rosu_pp::{
    nested_objects, tiny_droplets_between, JuiceStreamCounts, NestedJuiceStreamObjectKind,
    SliderEventKind,
};

#[test]
fn short_gaps_hold_no_tiny_droplets() {
    assert_eq!(tiny_droplets_between(0), 0);
    assert_eq!(tiny_droplets_between(80), 0);
    assert_eq!(tiny_droplets_between(-500), 0);
}

#[test]
fn gaps_are_halved_down_to_a_hundred() {
    assert_eq!(tiny_droplets_between(81), 0);
    assert_eq!(tiny_droplets_between(100), 0);
    assert_eq!(tiny_droplets_between(101), 1);
    assert_eq!(tiny_droplets_between(200), 1);
    assert_eq!(tiny_droplets_between(201), 3);
    assert_eq!(tiny_droplets_between(1000), 15);
}

#[test]
fn events_become_nested_objects() {
    let events = vec![
        (0, SliderEventKind::Head),
        (150, SliderEventKind::Tick),
        (250, SliderEventKind::LastTick),
        (300, SliderEventKind::Tail),
    ];
    // 150 ms after the head: halved once to 75 ms, one tiny droplet; the
    // 100 ms and 50 ms gaps hold none.
    let (nested, counts) = nested_objects(&events);
    assert_eq!(
        nested,
        vec![
            (NestedJuiceStreamObjectKind::Fruit, 0),
            (NestedJuiceStreamObjectKind::TinyDroplet, 1),
            (NestedJuiceStreamObjectKind::Droplet, 1),
            (NestedJuiceStreamObjectKind::Fruit, 3),
        ]
    );
    assert_eq!(counts, JuiceStreamCounts { fruits: 2, droplets: 1, tiny_droplets: 1 });
}

#[test]
fn no_events_no_objects() {
    let (nested, counts) = nested_objects(&Vec::new());
    assert!(nested.is_empty());
    assert_eq!(counts, JuiceStreamCounts { fruits: 0, droplets: 0, tiny_droplets: 0 });
}
