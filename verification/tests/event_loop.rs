use roller::{
    Data, Event, EventLoop, KeyCode, LoopAction, LoopEvent, LoopState, Network, Rate,
    SortingStrategy, Tui,
};

fn rate(value: f32) -> Rate {
    Rate::from_bits(value.to_bits())
}

fn network(name: &str) -> Network {
    Network::new(
        name.to_string(),
        name.to_string(),
        "arbitrum".to_string(),
        "da".to_string(),
        "stack".to_string(),
        None,
    )
}

fn update(name: &str, gps: f32) -> LoopEvent {
    LoopEvent::Message(Event {
        event_type: name.to_string(),
        data: Some(Data { block_number: 1, tps: rate(1.0), gps: rate(gps), dps: rate(2.0) }),
    })
}

fn names(event_loop: &EventLoop) -> Vec<String> {
    event_loop.tui.networks.iter().map(|n| n.name.clone()).collect()
}

fn running() -> EventLoop {
    EventLoop::new(Tui::new(vec![network("A"), network("B"), network("C")]))
}

#[test]
fn a_new_loop_runs() {
    let event_loop = running();
    assert_eq!(event_loop.state, LoopState::Running);
    assert!(event_loop.is_running());
    assert_eq!(names(&event_loop), vec!["A", "B", "C"]);
}

#[test]
fn a_stream_event_is_merged_ordered_and_drawn() {
    let mut event_loop = running();
    assert_eq!(event_loop.step(update("C", 4.0)), LoopAction::Render);
    assert_eq!(names(&event_loop), vec!["C", "A", "B"]);
    assert_eq!(event_loop.step(update("B", 6.0)), LoopAction::Render);
    assert_eq!(names(&event_loop), vec!["B", "C", "A"]);
    assert!(event_loop.is_running());
}

#[test]
fn an_event_for_an_unknown_network_is_drawn_but_changes_nothing() {
    let mut event_loop = running();
    assert_eq!(event_loop.step(update("Z", 4.0)), LoopAction::Render);
    assert_eq!(names(&event_loop), vec!["A", "B", "C"]);
    assert!(event_loop.tui.networks.iter().all(|n| n.data.is_none()));
}

#[test]
fn keys_move_the_cursor_without_drawing() {
    let mut event_loop = running();
    assert_eq!(event_loop.step(LoopEvent::Key(KeyCode::Down)), LoopAction::Continue);
    assert_eq!(event_loop.tui.selected, 1);
    assert_eq!(event_loop.step(LoopEvent::Key(KeyCode::Up)), LoopAction::Continue);
    assert_eq!(event_loop.tui.selected, 0);
    assert_eq!(event_loop.step(LoopEvent::Key(KeyCode::Other)), LoopAction::Continue);
    assert_eq!(event_loop.step(LoopEvent::Key(KeyCode::Char('z'))), LoopAction::Continue);
    assert!(event_loop.is_running());
}

#[test]
fn a_strategy_key_switches_and_orders() {
    let mut event_loop = running();
    event_loop.step(LoopEvent::Message(Event {
        event_type: "A".to_string(),
        data: Some(Data { block_number: 1, tps: rate(1.0), gps: rate(9.0), dps: rate(0.0) }),
    }));
    event_loop.step(LoopEvent::Message(Event {
        event_type: "B".to_string(),
        data: Some(Data { block_number: 1, tps: rate(5.0), gps: rate(3.0), dps: rate(0.0) }),
    }));
    assert_eq!(names(&event_loop), vec!["A", "B", "C"]);
    assert_eq!(event_loop.step(LoopEvent::Key(KeyCode::Char('t'))), LoopAction::Continue);
    assert_eq!(event_loop.tui.sorting_strategy, SortingStrategy::Tps);
    assert_eq!(names(&event_loop), vec!["B", "A", "C"]);
}

#[test]
fn idle_and_skipped_change_nothing() {
    let mut event_loop = running();
    assert_eq!(event_loop.step(LoopEvent::Idle), LoopAction::Continue);
    assert_eq!(event_loop.step(LoopEvent::Skipped), LoopAction::Continue);
    assert!(event_loop.is_running());
    assert_eq!(names(&event_loop), vec!["A", "B", "C"]);
    assert_eq!(event_loop.tui.selected, 0);
}

#[test]
fn the_quit_key_ends_the_loop() {
    let mut event_loop = running();
    assert_eq!(event_loop.step(LoopEvent::Key(KeyCode::Char('q'))), LoopAction::Exit);
    assert_eq!(event_loop.state, LoopState::Terminating);
    assert!(!event_loop.is_running());
}

#[test]
fn the_end_of_the_stream_ends_the_loop() {
    let mut event_loop = running();
    assert_eq!(event_loop.step(LoopEvent::Closed), LoopAction::Exit);
    assert_eq!(event_loop.state, LoopState::Terminating);
}

#[test]
fn a_loop_that_has_ended_takes_nothing_more() {
    let mut event_loop = running();
    event_loop.step(LoopEvent::Key(KeyCode::Down));
    event_loop.step(LoopEvent::Closed);
    let events = [
        update("C", 4.0),
        LoopEvent::Key(KeyCode::Down),
        LoopEvent::Key(KeyCode::Char('t')),
        LoopEvent::Idle,
        LoopEvent::Skipped,
        LoopEvent::Closed,
        LoopEvent::Key(KeyCode::Char('q')),
    ];
    for event in events {
        assert_eq!(event_loop.step(event), LoopAction::Exit);
        assert_eq!(event_loop.state, LoopState::Terminating);
        assert_eq!(names(&event_loop), vec!["A", "B", "C"]);
        assert_eq!(event_loop.tui.selected, 1);
        assert_eq!(event_loop.tui.sorting_strategy, SortingStrategy::Gps);
        assert!(event_loop.tui.networks.iter().all(|n| n.data.is_none()));
    }
}

#[test]
fn the_loop_keeps_identifiers_and_cursor_bounds() {
    let mut event_loop = running();
    let mut seed: u32 = 99;
    for round in 0..300 {
        seed = seed.wrapping_mul(1664525).wrapping_add(1013904223);
        let event = match (seed >> 16) % 8 {
            0 => update("A", round as f32),
            1 => update("B", (round % 5) as f32),
            2 => update("nobody", 1.0),
            3 => LoopEvent::Key(KeyCode::Down),
            4 => LoopEvent::Key(KeyCode::Up),
            5 => LoopEvent::Key(KeyCode::Char('k')),
            6 => LoopEvent::Idle,
            _ => LoopEvent::Key(KeyCode::Char('g')),
        };
        event_loop.step(event);
        let mut all = names(&event_loop);
        all.sort();
        assert_eq!(all, vec!["A", "B", "C"]);
        assert!(event_loop.tui.selected < 3);
        assert!(event_loop.is_running());
    }
}
