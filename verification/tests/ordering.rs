use roller::{Data, Event, KeyCode, Network, Rate, SortingStrategy, Tui};

fn rate(value: f32) -> Rate {
    Rate::from_bits(value.to_bits())
}

fn measured(name: &str, tps: f32, gps: f32, dps: f32) -> Network {
    Network::new(
        name.to_string(),
        name.to_string(),
        "base".to_string(),
        "da".to_string(),
        "stack".to_string(),
        Some(Data { block_number: 1, tps: rate(tps), gps: rate(gps), dps: rate(dps) }),
    )
}

fn silent(name: &str) -> Network {
    Network::new(
        name.to_string(),
        name.to_string(),
        "base".to_string(),
        "da".to_string(),
        "stack".to_string(),
        None,
    )
}

fn names(tui: &Tui) -> Vec<String> {
    tui.networks.iter().map(|n| n.name.clone()).collect()
}

fn reading(network: &Network, by: SortingStrategy) -> f32 {
    let data = network.data.unwrap_or_default();
    f32::from_bits(data.reading(by).to_bits())
}

#[test]
fn rank_orders_as_the_numbers_do() {
    let values = [
        f32::NEG_INFINITY,
        f32::MIN,
        -1.0e10,
        -3.5,
        -1.0,
        -f32::MIN_POSITIVE,
        -1.0e-45,
        -0.0,
        0.0,
        1.0e-45,
        f32::MIN_POSITIVE,
        0.1,
        1.0,
        1.5,
        3.2,
        1.0e10,
        f32::MAX,
        f32::INFINITY,
    ];
    for a in values {
        for b in values {
            let (ra, rb) = (rate(a).sort_rank(), rate(b).sort_rank());
            assert_eq!(ra < rb, a < b, "{a} < {b}");
            assert_eq!(ra == rb, a == b, "{a} == {b}");
        }
    }
}

#[test]
fn rank_of_exact_patterns() {
    assert_eq!(Rate::zero().sort_rank(), 0);
    assert_eq!(Rate::from_bits(0x8000_0000).sort_rank(), 0);
    assert_eq!(Rate::from_bits(0x3F80_0000).sort_rank(), 0x3F80_0000);
    assert_eq!(Rate::from_bits(0xBF80_0000).sort_rank(), -0x3F80_0000);
    assert_eq!(Rate::from_bits(0x7F80_0000).sort_rank(), 0x7F80_0000);
    assert_eq!(Rate::from_bits(0xFF80_0000).sort_rank(), -0x7F80_0000);
    assert_eq!(Rate::from_bits(0x0000_0001).sort_rank(), 1);
    assert_eq!(rate(3.2).sort_rank(), 0x404C_CCCD);
}

#[test]
fn a_reading_that_is_no_number_ranks_as_zero() {
    assert_eq!(rate(f32::NAN).sort_rank(), 0);
    assert_eq!(Rate::from_bits(0x7F80_0001).sort_rank(), 0);
    assert_eq!(Rate::from_bits(0xFFFF_FFFF).sort_rank(), 0);
    let mut tui = Tui::new(vec![
        measured("low", 0.0, -1.0, 0.0),
        measured("odd", 0.0, f32::NAN, 0.0),
        measured("high", 0.0, 1.0, 0.0),
        silent("none"),
    ]);
    tui.sort_networks();
    assert_eq!(names(&tui), vec!["high", "odd", "none", "low"]);
}

#[test]
fn sort_is_descending_under_every_strategy() {
    let strategies = [SortingStrategy::Gps, SortingStrategy::Tps, SortingStrategy::Dps];
    for by in strategies {
        let mut tui = Tui::new(vec![
            measured("a", 1.0, 9.0, 4.0),
            silent("b"),
            measured("c", 7.5, 0.5, 4.0),
            measured("d", -2.0, 3.0, 8.25),
            measured("e", 7.5, 3.0, 0.0),
            silent("f"),
            measured("g", 100.0, 2.0, 1.0),
        ]);
        tui.sorting_strategy = by;
        tui.sort_networks();
        assert_eq!(tui.networks.len(), 7);
        for pair in tui.networks.windows(2) {
            assert!(reading(&pair[0], by) >= reading(&pair[1], by));
            assert!(pair[0].sort_rank(by) >= pair[1].sort_rank(by));
        }
    }
}

#[test]
fn sort_gives_the_expected_order() {
    let mut tui = Tui::new(vec![
        measured("a", 1.0, 9.0, 4.0),
        silent("b"),
        measured("c", 7.5, 0.5, 4.0),
        measured("d", -2.0, 3.0, 8.25),
        measured("e", 7.5, 3.0, 0.0),
    ]);
    tui.sort_networks();
    assert_eq!(names(&tui), vec!["a", "d", "e", "c", "b"]);
    tui.sorting_strategy = SortingStrategy::Tps;
    tui.sort_networks();
    assert_eq!(names(&tui), vec!["e", "c", "a", "b", "d"]);
    tui.sorting_strategy = SortingStrategy::Dps;
    tui.sort_networks();
    assert_eq!(names(&tui), vec!["d", "c", "a", "e", "b"]);
}

#[test]
fn sort_keeps_the_order_of_equal_readings() {
    let mut tui = Tui::new(vec![
        measured("one", 0.0, 2.0, 0.0),
        measured("two", 0.0, 5.0, 0.0),
        measured("three", 0.0, 2.0, 0.0),
        silent("four"),
        measured("five", 0.0, 0.0, 0.0),
        measured("six", 0.0, -0.0, 0.0),
        measured("seven", 0.0, 5.0, 0.0),
        measured("eight", 0.0, 2.0, 0.0),
    ]);
    tui.sort_networks();
    assert_eq!(
        names(&tui),
        vec!["two", "seven", "one", "three", "eight", "four", "five", "six"]
    );
}

#[test]
fn sort_agrees_with_a_stable_sort_of_the_numbers() {
    let mut seed: u32 = 12345;
    let mut networks = Vec::new();
    for i in 0..60 {
        seed = seed.wrapping_mul(1664525).wrapping_add(1013904223);
        let value = ((seed >> 16) % 9) as f32 - 4.0;
        if seed % 7 == 0 {
            networks.push(silent(&format!("n{i}")));
        } else {
            networks.push(measured(&format!("n{i}"), value, value * 0.5, -value));
        }
    }
    for by in [SortingStrategy::Gps, SortingStrategy::Tps, SortingStrategy::Dps] {
        let mut expected = networks.clone();
        expected.sort_by(|a, b| reading(b, by).partial_cmp(&reading(a, by)).unwrap());
        let mut tui = Tui::new(networks.clone());
        tui.sorting_strategy = by;
        tui.sort_networks();
        let want: Vec<String> = expected.iter().map(|n| n.name.clone()).collect();
        assert_eq!(names(&tui), want);
    }
}

#[test]
fn sorting_twice_is_sorting_once() {
    let mut tui = Tui::new(vec![
        measured("a", 1.0, 2.0, 3.0),
        measured("b", 3.0, 2.0, 1.0),
        measured("c", 2.0, 4.0, 0.0),
    ]);
    tui.sort_networks();
    let once = names(&tui);
    tui.sort_networks();
    assert_eq!(names(&tui), once);
    assert_eq!(once, vec!["c", "a", "b"]);
}

#[test]
fn sort_of_nothing_and_of_one() {
    let mut empty = Tui::new(Vec::new());
    empty.sort_networks();
    assert!(empty.networks.is_empty());
    let mut one = Tui::new(vec![silent("only")]);
    one.sort_networks();
    assert_eq!(names(&one), vec!["only"]);
}

#[test]
fn strategy_key_reorders_at_once() {
    let mut tui = Tui::new(vec![
        measured("a", 1.0, 9.0, 5.0),
        measured("b", 8.0, 1.0, 7.0),
        measured("c", 4.0, 4.0, 9.0),
    ]);
    tui.handle_input(KeyCode::Char('g'));
    assert_eq!(tui.sorting_strategy, SortingStrategy::Gps);
    assert_eq!(names(&tui), vec!["a", "c", "b"]);
    tui.handle_input(KeyCode::Char('t'));
    assert_eq!(tui.sorting_strategy, SortingStrategy::Tps);
    assert_eq!(names(&tui), vec!["b", "c", "a"]);
    tui.handle_input(KeyCode::Char('k'));
    assert_eq!(tui.sorting_strategy, SortingStrategy::Dps);
    assert_eq!(names(&tui), vec!["c", "b", "a"]);
}

#[test]
fn cursor_keeps_its_position_when_the_order_changes() {
    let mut tui = Tui::new(vec![
        measured("a", 1.0, 9.0, 5.0),
        measured("b", 8.0, 1.0, 7.0),
        measured("c", 4.0, 4.0, 9.0),
    ]);
    tui.handle_input(KeyCode::Char('g'));
    tui.handle_input(KeyCode::Down);
    tui.handle_input(KeyCode::Down);
    assert_eq!(tui.selected, 2);
    assert_eq!(tui.networks[tui.selected].name, "b");
    tui.handle_input(KeyCode::Char('t'));
    assert_eq!(tui.selected, 2);
    assert_eq!(tui.networks[tui.selected].name, "a");
    tui.update_networks(Event {
        event_type: "a".to_string(),
        data: Some(Data { block_number: 2, tps: rate(50.0), gps: rate(0.0), dps: rate(0.0) }),
    });
    assert_eq!(tui.selected, 2);
    assert_eq!(names(&tui), vec!["a", "b", "c"]);
}

#[test]
fn other_keys_change_nothing() {
    let mut tui = Tui::new(vec![measured("a", 1.0, 1.0, 1.0), measured("b", 2.0, 2.0, 2.0)]);
    for key in [KeyCode::Other, KeyCode::Char('q'), KeyCode::Char('G'), KeyCode::Char('x')] {
        tui.handle_input(key);
        assert_eq!(names(&tui), vec!["a", "b"]);
        assert_eq!(tui.selected, 0);
        assert_eq!(tui.sorting_strategy, SortingStrategy::Gps);
    }
}

#[test]
fn strategy_names() {
    assert_eq!(SortingStrategy::Gps.name(), "Gps");
    assert_eq!(SortingStrategy::Tps.name(), "Tps");
    assert_eq!(SortingStrategy::Dps.name(), "Dps");
    assert_eq!(SortingStrategy::default(), SortingStrategy::Gps);
}
