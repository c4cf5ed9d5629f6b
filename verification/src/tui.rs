//! The dashboard state and the operations the event loop applies to it.

use crate::cursor::{in_bounds, move_down, move_up, moved_down, moved_up};
use crate::network::{views, Data, Network, NetworkView, Row, RowView};
use crate::order::{
    descending, lemma_ordered_descending, lemma_ordered_len, lemma_ordered_permutes,
    lemma_ordered_stable, lemma_slot_found, ordered, tier,
};
use crate::registry::{
    identifiers, is_first_named, knows, lemma_first_named, lemma_first_named_found,
    lemma_merged_identifiers, lemma_ordered_identifiers, lemma_unknown_is_dropped, merged,
};
use vstd::prelude::*;

verus! {

/// The metric that orders the table. The order is always descending.
#[derive(Clone, Copy, Debug, PartialEq, Eq, Structural)]
pub enum SortingStrategy {
    /// Gas per second.
    Gps,
    /// Transactions per second.
    Tps,
    /// Data per second.
    Dps,
}

impl Default for SortingStrategy {
    fn default() -> (strategy: SortingStrategy)
        ensures
            strategy == SortingStrategy::Gps,
    {
        SortingStrategy::Gps
    }
}

impl SortingStrategy {
    /// The name of the strategy, as text.
    pub open spec fn label(self) -> Seq<char> {
        match self {
            SortingStrategy::Gps => "Gps"@,
            SortingStrategy::Tps => "Tps"@,
            SortingStrategy::Dps => "Dps"@,
        }
    }

    /// The name of the strategy.
    pub fn name(&self) -> (name: &'static str)
        ensures
            name@ == self.label(),
    {
        match self {
            SortingStrategy::Gps => "Gps",
            SortingStrategy::Tps => "Tps",
            SortingStrategy::Dps => "Dps",
        }
    }
}

/// A key press, as far as the dashboard tells keys apart.
#[derive(Clone, Copy, Debug, PartialEq, Eq, Structural)]
pub enum KeyCode {
    /// Arrow up.
    Up,
    /// Arrow down.
    Down,
    /// A character key.
    Char(char),
    /// Any other key.
    Other,
}

/// The strategy that a character key selects: `g` gas, `t` transactions and
/// `k` data per second.
pub open spec fn strategy_key(c: char) -> Option<SortingStrategy> {
    if c == 'g' {
        Some(SortingStrategy::Gps)
    } else if c == 't' {
        Some(SortingStrategy::Tps)
    } else if c == 'k' {
        Some(SortingStrategy::Dps)
    } else {
        None
    }
}

/// Says which strategy a character key selects, if any.
pub fn strategy_for(c: char) -> (strategy: Option<SortingStrategy>)
    ensures
        strategy == strategy_key(c),
{
    if c == 'g' {
        Some(SortingStrategy::Gps)
    } else if c == 't' {
        Some(SortingStrategy::Tps)
    } else if c == 'k' {
        Some(SortingStrategy::Dps)
    } else {
        None
    }
}

/// An event of the stream: the identifier of a network and the measurements
/// that its payload held. `data` is absent when the payload held none.
#[derive(Clone, Debug)]
pub struct Event {
    pub event_type: String,
    pub data: Option<Data>,
}

/// What an `Event` holds, as mathematical values.
pub struct EventView {
    pub event_type: Seq<char>,
    pub data: Option<Data>,
}

impl View for Event {
    type V = EventView;

    open spec fn view(&self) -> EventView {
        EventView { event_type: self.event_type@, data: self.data }
    }
}

/// The state of the dashboard: the networks in the order they are shown, the
/// cursor and the active strategy.
pub struct Tui {
    /// The networks, in table order.
    pub networks: Vec<Network>,
    /// Position of the highlighted row.
    pub selected: usize,
    /// The strategy the table is ordered by.
    pub sorting_strategy: SortingStrategy,
    /// Whether the info bar has been drawn.
    pub info_rendered: bool,
}

/// What a `Tui` holds, as mathematical values.
pub struct TuiView {
    pub networks: Seq<NetworkView>,
    pub selected: nat,
    pub sorting_strategy: SortingStrategy,
    pub info_rendered: bool,
}

impl View for Tui {
    type V = TuiView;

    open spec fn view(&self) -> TuiView {
        TuiView {
            networks: views(self.networks@),
            selected: self.selected as nat,
            sorting_strategy: self.sorting_strategy,
            info_rendered: self.info_rendered,
        }
    }
}

/// What a renderer is shown of the state.
pub struct Snapshot<'a> {
    /// The networks, in table order.
    pub networks: &'a Vec<Network>,
    /// Position of the highlighted row.
    pub selected: usize,
    /// The strategy the table is ordered by.
    pub sorting_strategy: SortingStrategy,
}

/// What a `Snapshot` holds, as mathematical values.
pub struct SnapshotView {
    pub networks: Seq<NetworkView>,
    pub selected: nat,
    pub sorting_strategy: SortingStrategy,
}

impl<'a> View for Snapshot<'a> {
    type V = SnapshotView;

    open spec fn view(&self) -> SnapshotView {
        SnapshotView {
            networks: views(self.networks@),
            selected: self.selected as nat,
            sorting_strategy: self.sorting_strategy,
        }
    }
}

impl TuiView {
    /// The state a dashboard starts in: the networks as given, the cursor on
    /// the first row, ordering by gas per second.
    pub open spec fn initial(networks: Seq<NetworkView>) -> TuiView {
        TuiView {
            networks,
            selected: 0,
            sorting_strategy: SortingStrategy::Gps,
            info_rendered: false,
        }
    }

    /// Whether the cursor is a position of the table.
    pub open spec fn cursor_in_bounds(self) -> bool {
        in_bounds(self.selected, self.networks.len())
    }

    /// The state with the table ordered by the active strategy.
    pub open spec fn sorted(self) -> TuiView {
        TuiView { networks: ordered(self.networks, self.sorting_strategy), ..self }
    }

    /// The state with an event merged into the registry, the order left as
    /// it is.
    pub open spec fn merged(self, event: EventView) -> TuiView {
        TuiView { networks: merged(self.networks, event.event_type, event.data), ..self }
    }

    /// The state after an event of the stream: the event is merged, then the
    /// table is ordered again.
    pub open spec fn after_update(self, event: EventView) -> TuiView {
        self.merged(event).sorted()
    }

    /// The state after a series of events, first to last.
    pub open spec fn after_updates(self, events: Seq<EventView>) -> TuiView
        decreases events.len(),
    {
        if events.len() == 0 {
            self
        } else {
            self.after_updates(events.drop_last()).after_update(events.last())
        }
    }

    /// The state with another strategy, the table ordered by it at once.
    pub open spec fn with_strategy(self, strategy: SortingStrategy) -> TuiView {
        TuiView { sorting_strategy: strategy, ..self }.sorted()
    }

    /// The state after a key press: the arrows move the cursor, a strategy
    /// key selects that strategy, every other key changes nothing.
    pub open spec fn after_key(self, key: KeyCode) -> TuiView {
        match key {
            KeyCode::Up => TuiView {
                selected: moved_up(self.selected, self.networks.len()),
                ..self
            },
            KeyCode::Down => TuiView {
                selected: moved_down(self.selected, self.networks.len()),
                ..self
            },
            KeyCode::Char(c) => match strategy_key(c) {
                Some(strategy) => self.with_strategy(strategy),
                None => self,
            },
            KeyCode::Other => self,
        }
    }

    /// The state after a series of key presses, first to last.
    pub open spec fn after_keys(self, keys: Seq<KeyCode>) -> TuiView
        decreases keys.len(),
    {
        if keys.len() == 0 {
            self
        } else {
            self.after_keys(keys.drop_last()).after_key(keys.last())
        }
    }

    /// What a renderer is shown of the state.
    pub open spec fn snapshot(self) -> SnapshotView {
        SnapshotView {
            networks: self.networks,
            selected: self.selected,
            sorting_strategy: self.sorting_strategy,
        }
    }

    /// The lines of the table, top to bottom.
    pub open spec fn rows(self) -> Seq<RowView> {
        Seq::new(self.networks.len(), |i: int| self.networks[i].row())
    }
}

/// Identifier-set invariance: whatever events arrive, the registry holds the
/// same identifiers, and as many networks, after them as before.
pub proof fn lemma_identifiers_fixed(state: TuiView, events: Seq<EventView>)
    ensures
        identifiers(state.after_updates(events).networks) == identifiers(state.networks),
        state.after_updates(events).networks.len() == state.networks.len(),
        state.after_updates(events).selected == state.selected,
        state.after_updates(events).sorting_strategy == state.sorting_strategy,
    decreases events.len(),
{
    if events.len() > 0 {
        let before = state.after_updates(events.drop_last());
        let event = events.last();
        lemma_identifiers_fixed(state, events.drop_last());
        lemma_merged_identifiers(before.networks, event.event_type, event.data);
        lemma_ordered_identifiers(before.merged(event).networks, before.sorting_strategy);
        lemma_ordered_len(before.merged(event).networks, before.sorting_strategy);
        lemma_first_named(before.networks, event.event_type);
    }
}

/// Unknown-identifier no-op: an event whose identifier no network has
/// changes no network. The state after it is the state before it, ordered, so
/// every network is still there with the measurements it had.
pub proof fn lemma_unknown_event(state: TuiView, event: EventView)
    requires
        !knows(state.networks, event.event_type),
    ensures
        state.merged(event) == state,
        state.after_update(event) == state.sorted(),
        state.after_update(event).networks.to_multiset() == state.networks.to_multiset(),
{
    lemma_unknown_is_dropped(state.networks, event.event_type, event.data);
    lemma_ordered_permutes(state.networks, state.sorting_strategy);
}

/// Whatever keys are pressed, the table keeps its length, and a cursor
/// within bounds stays within bounds; on the empty table it stays where it
/// is.
pub proof fn lemma_keys_keep_cursor(state: TuiView, keys: Seq<KeyCode>)
    requires
        state.cursor_in_bounds(),
    ensures
        state.after_keys(keys).networks.len() == state.networks.len(),
        state.after_keys(keys).cursor_in_bounds(),
        state.networks.len() == 0 ==> state.after_keys(keys).selected == state.selected,
    decreases keys.len(),
{
    if keys.len() > 0 {
        let before = state.after_keys(keys.drop_last());
        lemma_keys_keep_cursor(state, keys.drop_last());
        match keys.last() {
            KeyCode::Char(c) => {
                if let Some(strategy) = strategy_key(c) {
                    lemma_ordered_len(before.networks, strategy);
                }
            },
            _ => {},
        }
    }
}

/// Two snapshots of one state show the same.
pub proof fn lemma_snapshot_repeats(state: TuiView, first: SnapshotView, second: SnapshotView)
    requires
        first == state.snapshot(),
        second == state.snapshot(),
    ensures
        first == second,
{
}

impl Tui {
    /// Starts a dashboard over the given networks: the cursor on the first
    /// row, ordering by gas per second. The networks keep the order they
    /// come in until the first event or strategy key.
    pub fn new(networks: Vec<Network>) -> (tui: Tui)
        ensures
            tui.networks == networks,
            tui@ == TuiView::initial(views(networks@)),
            tui@.cursor_in_bounds(),
    {
        Tui {
            networks,
            selected: 0,
            sorting_strategy: SortingStrategy::default(),
            info_rendered: false,
        }
    }

    /// Merges an event into the registry: the first network named
    /// `event_type` has its measurements replaced by `data`. Says whether
    /// there was such a network; when there was none, nothing changes.
    pub fn apply_update(&mut self, event_type: &String, data: Option<Data>) -> (found: bool)
        ensures
            final(self)@ == old(self)@.merged(EventView { event_type: event_type@, data }),
            found == knows(old(self)@.networks, event_type@),
    {
        let ghost before = views(self.networks@);
        let n = self.networks.len();
        let mut i: usize = 0;
        while i < n
            invariant
                i <= n,
                n == self.networks.len(),
                *self == *old(self),
                before == views(self.networks@),
                forall|j: int| 0 <= j < i ==> (#[trigger] before[j]).name != event_type@,
            decreases n - i,
        {
            if self.networks[i].name == *event_type {
                self.networks[i].data = data;
                proof {
                    assert(is_first_named(before, event_type@, i as int));
                    lemma_first_named_found(before, event_type@, i as int);
                    assert(views(self.networks@) =~= before.update(
                        i as int,
                        before[i as int].with_data(data),
                    ));
                }
                return true;
            }
            i += 1;
        }
        proof {
            assert(!knows(before, event_type@));
            lemma_unknown_is_dropped(before, event_type@, data);
        }
        false
    }

    /// Orders the table by the active strategy: descending, networks of
    /// equal rank in the order they had.
    pub fn sort_networks(&mut self)
        ensures
            final(self)@ == old(self)@.sorted(),
            descending(final(self)@.networks, final(self)@.sorting_strategy),
            forall|rank: int|
                tier(final(self)@.networks, final(self)@.sorting_strategy, rank) == tier(
                    old(self)@.networks,
                    old(self)@.sorting_strategy,
                    rank,
                ),
    {
        let by = self.sorting_strategy;
        let n = self.networks.len();
        let ghost start = views(self.networks@);
        let mut i: usize = 0;
        while i < n
            invariant
                i <= n,
                n == self.networks.len(),
                n == start.len(),
                self.selected == old(self).selected,
                self.sorting_strategy == by,
                by == old(self).sorting_strategy,
                self.info_rendered == old(self).info_rendered,
                start == views(old(self).networks@),
                views(self.networks@).take(i as int) == ordered(start.take(i as int), by),
                views(self.networks@).skip(i as int) == start.skip(i as int),
            decreases n - i,
        {
            let ghost now = views(self.networks@);
            let ghost front = now.take(i as int);
            let rank = self.networks[i].sort_rank(by);
            let mut j: usize = i;
            while j > 0 && self.networks[j - 1].sort_rank(by) < rank
                invariant
                    j <= i < n,
                    n == self.networks.len(),
                    now == views(self.networks@),
                    rank == now[i as int].rank(by),
                    forall|k: int| j <= k < i ==> (#[trigger] now[k]).rank(by) < rank,
                decreases j,
            {
                j -= 1;
            }
            proof {
                assert(now[i as int] == now.skip(i as int)[0]);
                assert(start[i as int] == start.skip(i as int)[0]);
                assert forall|k: int| j <= k < front.len() implies (#[trigger] front[k]).rank(by)
                    < now[i as int].rank(by) by {
                    assert(front[k] == now[k]);
                }
                if j > 0 {
                    assert(front[j - 1] == now[j - 1]);
                }
                lemma_slot_found(front, now[i as int], by, j as int);
                assert(start.take(i + 1).drop_last() =~= start.take(i as int));
                assert(start.take(i + 1).last() == start[i as int]);
            }
            if j < i {
                let moved = self.networks.remove(i);
                self.networks.insert(j, moved);
            }
            proof {
                let next = views(self.networks@);
                assert(next.take(i + 1) =~= front.insert(j as int, now[i as int]));
                assert(next.skip(i + 1) =~= start.skip(i + 1)) by {
                    assert forall|k: int| 0 <= k < n - i - 1 implies #[trigger] next.skip(i + 1)[k]
                        == start.skip(i + 1)[k] by {
                        assert(next[i + 1 + k] == now[i + 1 + k]);
                        assert(now[i + 1 + k] == now.skip(i as int)[k + 1]);
                        assert(start[i + 1 + k] == start.skip(i as int)[k + 1]);
                    }
                }
            }
            i += 1;
        }
        proof {
            assert(views(self.networks@).take(n as int) =~= views(self.networks@));
            assert(start.take(n as int) =~= start);
            lemma_ordered_descending(start, by);
            assert forall|rank: int| tier(ordered(start, by), by, rank) == tier(start, by, rank) by {
                lemma_ordered_stable(start, by, rank);
            }
        }
    }

    /// Takes in an event of the stream: merges it into the registry, then
    /// orders the table again. An event for an unknown identifier changes no
    /// network.
    pub fn update_networks(&mut self, event: Event)
        ensures
            final(self)@ == old(self)@.after_update(event@),
            final(self)@.networks.len() == old(self)@.networks.len(),
            identifiers(final(self)@.networks) == identifiers(old(self)@.networks),
    {
        let _ = self.apply_update(&event.event_type, event.data);
        self.sort_networks();
        proof {
            let before = old(self)@;
            lemma_merged_identifiers(before.networks, event@.event_type, event@.data);
            lemma_ordered_identifiers(before.merged(event@).networks, before.sorting_strategy);
            lemma_ordered_len(before.merged(event@).networks, before.sorting_strategy);
            lemma_first_named(before.networks, event@.event_type);
        }
    }

    /// Reacts to a key press: the arrows move the cursor, a strategy key
    /// selects that strategy and orders the table by it at once, every other
    /// key is ignored.
    pub fn handle_input(&mut self, key: KeyCode)
        ensures
            final(self)@ == old(self)@.after_key(key),
            final(self)@.networks.len() == old(self)@.networks.len(),
            old(self)@.cursor_in_bounds() ==> final(self)@.cursor_in_bounds(),
    {
        match key {
            KeyCode::Up => {
                self.selected = move_up(self.selected, self.networks.len());
            },
            KeyCode::Down => {
                self.selected = move_down(self.selected, self.networks.len());
            },
            KeyCode::Char(c) => {
                if let Some(strategy) = strategy_for(c) {
                    self.sorting_strategy = strategy;
                    self.sort_networks();
                    proof {
                        lemma_ordered_len(old(self)@.networks, strategy);
                    }
                }
            },
            KeyCode::Other => {},
        }
    }

    /// The lines of the table, top to bottom.
    pub fn rows(&self) -> (rows: Vec<Row>)
        ensures
            rows@.len() == self@.rows().len(),
            forall|i: int| 0 <= i < rows@.len() ==> (#[trigger] rows@[i])@ == self@.rows()[i],
    {
        let mut rows: Vec<Row> = Vec::new();
        let n = self.networks.len();
        let mut i: usize = 0;
        while i < n
            invariant
                i <= n,
                n == self.networks.len(),
                rows@.len() == i,
                forall|k: int|
                    0 <= k < i ==> (#[trigger] rows@[k])@ == views(self.networks@)[k].row(),
            decreases n - i,
        {
            rows.push(self.networks[i].to_row());
            i += 1;
        }
        rows
    }

    /// What a renderer is shown: the networks in table order, the cursor and
    /// the active strategy. The state is left as it is, so a second snapshot
    /// of it shows the same.
    pub fn snapshot(&self) -> (shown: Snapshot<'_>)
        ensures
            shown@ == self@.snapshot(),
            shown.networks == &self.networks,
    {
        Snapshot {
            networks: &self.networks,
            selected: self.selected,
            sorting_strategy: self.sorting_strategy,
        }
    }
}

} // verus!
