//! The decisions of the event loop.
//!
//! The loop itself waits for the stream and for the keyboard; what it does
//! with what arrives is decided here, one event at a time.

use crate::cursor::in_bounds;
use crate::order::lemma_ordered_len;
use crate::registry::{
    identifiers, lemma_first_named, lemma_merged_identifiers, lemma_ordered_identifiers,
};
use crate::tui::{strategy_key, Event, EventView, KeyCode, Tui, TuiView};
use vstd::prelude::*;

verus! {

/// Whether the loop goes on.
#[derive(Clone, Copy, Debug, PartialEq, Eq, Structural)]
pub enum LoopState {
    /// The loop takes events.
    Running,
    /// The loop has ended; nothing that arrives is looked at any more.
    Terminating,
}

/// Something that arrived at the loop.
#[derive(Clone, Debug)]
pub enum LoopEvent {
    /// The stream delivered an event for a network.
    Message(Event),
    /// The stream delivered something that is no event.
    Skipped,
    /// The stream ended or failed.
    Closed,
    /// A key was pressed within the polling interval.
    Key(KeyCode),
    /// The polling interval passed without a key press.
    Idle,
}

/// What a `LoopEvent` holds, as mathematical values.
pub enum LoopEventView {
    Message(EventView),
    Skipped,
    Closed,
    Key(KeyCode),
    Idle,
}

impl View for LoopEvent {
    type V = LoopEventView;

    open spec fn view(&self) -> LoopEventView {
        match self {
            LoopEvent::Message(event) => LoopEventView::Message(event@),
            LoopEvent::Skipped => LoopEventView::Skipped,
            LoopEvent::Closed => LoopEventView::Closed,
            LoopEvent::Key(key) => LoopEventView::Key(*key),
            LoopEvent::Idle => LoopEventView::Idle,
        }
    }
}

/// What the loop is to do after an event.
#[derive(Clone, Copy, Debug, PartialEq, Eq, Structural)]
pub enum LoopAction {
    /// Draw the dashboard, then go on.
    Render,
    /// Go on without drawing.
    Continue,
    /// Leave the loop.
    Exit,
}

/// The dashboard together with the state of the loop that drives it.
pub struct EventLoop {
    pub tui: Tui,
    pub state: LoopState,
}

/// What an `EventLoop` holds, as mathematical values.
pub struct EventLoopView {
    pub tui: TuiView,
    pub state: LoopState,
}

impl View for EventLoop {
    type V = EventLoopView;

    open spec fn view(&self) -> EventLoopView {
        EventLoopView { tui: self.tui@, state: self.state }
    }
}

/// Whether a key ends the loop: only `q` does.
pub open spec fn is_quit(key: KeyCode) -> bool {
    key == KeyCode::Char('q')
}

/// Whether an event ends a running loop: the end of the stream and the quit
/// key do.
pub open spec fn ends_loop(event: LoopEventView) -> bool {
    match event {
        LoopEventView::Closed => true,
        LoopEventView::Key(key) => is_quit(key),
        _ => false,
    }
}

impl EventLoopView {
    /// The loop after an event. A running loop merges a stream event and
    /// orders the table again, hands a key to the dashboard, and ends on the
    /// quit key and on the end of the stream. A loop that has ended stays as
    /// it is.
    pub open spec fn next(self, event: LoopEventView) -> EventLoopView {
        match self.state {
            LoopState::Terminating => self,
            LoopState::Running => match event {
                LoopEventView::Message(update) => EventLoopView {
                    tui: self.tui.after_update(update),
                    ..self
                },
                LoopEventView::Key(key) => if is_quit(key) {
                    EventLoopView { state: LoopState::Terminating, ..self }
                } else {
                    EventLoopView { tui: self.tui.after_key(key), ..self }
                },
                LoopEventView::Closed => EventLoopView { state: LoopState::Terminating, ..self },
                LoopEventView::Skipped => self,
                LoopEventView::Idle => self,
            },
        }
    }

    /// What the loop is to do after an event: draw after a stream event,
    /// leave when the loop has ended, and otherwise just go on.
    pub open spec fn action(self, event: LoopEventView) -> LoopAction {
        if self.next(event).state == LoopState::Terminating {
            LoopAction::Exit
        } else if event is Message {
            LoopAction::Render
        } else {
            LoopAction::Continue
        }
    }

    /// The loop after a series of events, first to last.
    pub open spec fn run(self, events: Seq<LoopEventView>) -> EventLoopView
        decreases events.len(),
    {
        if events.len() == 0 {
            self
        } else {
            self.run(events.drop_last()).next(events.last())
        }
    }
}

/// A running loop ends exactly on the end of the stream and on the quit key,
/// and a loop that has ended never runs again nor changes the dashboard.
pub proof fn lemma_loop_states(view: EventLoopView, event: LoopEventView)
    ensures
        view.state == LoopState::Running ==> (view.next(event).state == LoopState::Terminating
            <==> ends_loop(event)),
        view.state == LoopState::Terminating ==> view.next(event) == view,
        view.action(event) == LoopAction::Exit <==> view.next(event).state
            == LoopState::Terminating,
{
}

/// Once ended, always ended: no series of events changes a loop that has
/// ended.
pub proof fn lemma_terminating_is_final(view: EventLoopView, events: Seq<LoopEventView>)
    requires
        view.state == LoopState::Terminating,
    ensures
        view.run(events) == view,
    decreases events.len(),
{
    if events.len() > 0 {
        lemma_terminating_is_final(view, events.drop_last());
    }
}

/// Whatever arrives at the loop, in whatever order, the registry keeps its
/// identifiers and its length, and a cursor within bounds stays within
/// bounds.
pub proof fn lemma_loop_keeps_registry(view: EventLoopView, events: Seq<LoopEventView>)
    ensures
        identifiers(view.run(events).tui.networks) == identifiers(view.tui.networks),
        view.run(events).tui.networks.len() == view.tui.networks.len(),
        view.tui.cursor_in_bounds() ==> view.run(events).tui.cursor_in_bounds(),
    decreases events.len(),
{
    if events.len() > 0 {
        lemma_loop_keeps_registry(view, events.drop_last());
        let before = view.run(events.drop_last());
        if before.state == LoopState::Running {
            match events.last() {
                LoopEventView::Message(update) => {
                    let merged = before.tui.merged(update);
                    lemma_merged_identifiers(before.tui.networks, update.event_type, update.data);
                    lemma_first_named(before.tui.networks, update.event_type);
                    lemma_ordered_identifiers(merged.networks, merged.sorting_strategy);
                    lemma_ordered_len(merged.networks, merged.sorting_strategy);
                },
                LoopEventView::Key(KeyCode::Char(c)) => {
                    if let Some(strategy) = strategy_key(c) {
                        lemma_ordered_identifiers(before.tui.networks, strategy);
                        lemma_ordered_len(before.tui.networks, strategy);
                    }
                },
                _ => {},
            }
        }
    }
}

impl EventLoop {
    /// A loop that runs, over the given dashboard.
    pub fn new(tui: Tui) -> (event_loop: EventLoop)
        ensures
            event_loop.tui == tui,
            event_loop.state == LoopState::Running,
    {
        EventLoop { tui, state: LoopState::Running }
    }

    /// Whether the loop still takes events.
    pub fn is_running(&self) -> (running: bool)
        ensures
            running == (self.state == LoopState::Running),
    {
        match self.state {
            LoopState::Running => true,
            LoopState::Terminating => false,
        }
    }

    /// Takes one event: changes the dashboard and the state of the loop as
    /// `next` says, and answers what the loop is to do now.
    pub fn step(&mut self, event: LoopEvent) -> (action: LoopAction)
        ensures
            final(self)@ == old(self)@.next(event@),
            action == old(self)@.action(event@),
    {
        match self.state {
            LoopState::Terminating => LoopAction::Exit,
            LoopState::Running => match event {
                LoopEvent::Message(update) => {
                    self.tui.update_networks(update);
                    LoopAction::Render
                },
                LoopEvent::Key(KeyCode::Char('q')) => {
                    self.state = LoopState::Terminating;
                    LoopAction::Exit
                },
                LoopEvent::Key(key) => {
                    self.tui.handle_input(key);
                    LoopAction::Continue
                },
                LoopEvent::Closed => {
                    self.state = LoopState::Terminating;
                    LoopAction::Exit
                },
                LoopEvent::Skipped => LoopAction::Continue,
                LoopEvent::Idle => LoopAction::Continue,
            },
        }
    }
}

} // verus!
