//! Monitored networks and their measurements.

use crate::decimal::{decimal, parse_u64};
use crate::rate::Rate;
use crate::tui::SortingStrategy;
use vstd::prelude::*;

verus! {

/// The latest measurements of one network.
#[derive(Clone, Copy, Debug, PartialEq, Eq, Structural)]
pub struct Data {
    /// Height of the newest block.
    pub block_number: u64,
    /// Transactions per second.
    pub tps: Rate,
    /// Gas per second.
    pub gps: Rate,
    /// Data per second.
    pub dps: Rate,
}

impl Data {
    /// Measurements that are all zero: what a network without measurements
    /// is shown and ranked with.
    pub open spec fn zeroed() -> Data {
        Data {
            block_number: 0,
            tps: Rate { bits: 0 },
            gps: Rate { bits: 0 },
            dps: Rate { bits: 0 },
        }
    }

    /// The reading that a strategy orders by.
    pub open spec fn metric(self, by: SortingStrategy) -> Rate {
        match by {
            SortingStrategy::Gps => self.gps,
            SortingStrategy::Tps => self.tps,
            SortingStrategy::Dps => self.dps,
        }
    }

    /// Picks the reading that `by` orders by.
    pub fn reading(&self, by: SortingStrategy) -> (rate: Rate)
        ensures
            rate == self.metric(by),
    {
        match by {
            SortingStrategy::Gps => self.gps,
            SortingStrategy::Tps => self.tps,
            SortingStrategy::Dps => self.dps,
        }
    }
}

impl Default for Data {
    fn default() -> (data: Data)
        ensures
            data == Data::zeroed(),
    {
        Data { block_number: 0, tps: Rate::zero(), gps: Rate::zero(), dps: Rate::zero() }
    }
}

/// A monitored network: its fixed description and, once the first event for
/// it has arrived, its latest measurements.
#[derive(Clone, Debug, Default)]
pub struct Network {
    /// Name of the network, which is also its identifier.
    pub name: String,
    /// Human-readable name.
    pub label: String,
    /// Name of the chain the network settles on.
    pub parent_chain: String,
    /// Data-availability layer.
    pub da: String,
    /// Stack the network is built with.
    pub stack: String,
    /// Latest measurements; absent until the first event for this network.
    pub data: Option<Data>,
}

/// What a `Network` holds, as mathematical values.
pub struct NetworkView {
    pub name: Seq<char>,
    pub label: Seq<char>,
    pub parent_chain: Seq<char>,
    pub da: Seq<char>,
    pub stack: Seq<char>,
    pub data: Option<Data>,
}

impl View for Network {
    type V = NetworkView;

    open spec fn view(&self) -> NetworkView {
        NetworkView {
            name: self.name@,
            label: self.label@,
            parent_chain: self.parent_chain@,
            da: self.da@,
            stack: self.stack@,
            data: self.data,
        }
    }
}

/// One line of the table, with the measurements a network without data is
/// shown with already filled in.
#[derive(Clone, Debug)]
pub struct Row {
    pub label: String,
    pub block_number: u64,
    pub tps: Rate,
    pub gps: Rate,
    pub dps: Rate,
    pub stack: String,
    pub da: String,
    pub parent_chain: String,
}

/// What a `Row` holds, as mathematical values.
pub struct RowView {
    pub label: Seq<char>,
    pub block_number: u64,
    pub tps: Rate,
    pub gps: Rate,
    pub dps: Rate,
    pub stack: Seq<char>,
    pub da: Seq<char>,
    pub parent_chain: Seq<char>,
}

impl View for Row {
    type V = RowView;

    open spec fn view(&self) -> RowView {
        RowView {
            label: self.label@,
            block_number: self.block_number,
            tps: self.tps,
            gps: self.gps,
            dps: self.dps,
            stack: self.stack@,
            da: self.da@,
            parent_chain: self.parent_chain@,
        }
    }
}

impl NetworkView {
    /// The measurements the network is shown and ranked with.
    pub open spec fn shown(self) -> Data {
        match self.data {
            Some(data) => data,
            None => Data::zeroed(),
        }
    }

    /// Rank of the network under a strategy: the rank of the selected
    /// reading, and 0 for a network without measurements.
    pub open spec fn rank(self, by: SortingStrategy) -> int {
        self.shown().metric(by).rank()
    }

    /// The same network with its measurements replaced as a whole.
    pub open spec fn with_data(self, data: Option<Data>) -> NetworkView {
        NetworkView { data, ..self }
    }

    /// The table line of the network.
    pub open spec fn row(self) -> RowView {
        RowView {
            label: self.label,
            block_number: self.shown().block_number,
            tps: self.shown().tps,
            gps: self.shown().gps,
            dps: self.shown().dps,
            stack: self.stack,
            da: self.da,
            parent_chain: self.parent_chain,
        }
    }
}

/// The views of a sequence of networks, in the same order.
pub open spec fn views(networks: Seq<Network>) -> Seq<NetworkView> {
    Seq::new(networks.len(), |i: int| networks[i]@)
}

/// Name of the parent chain with the given chain id.
pub open spec fn chain_name(id: u64) -> Seq<char> {
    if id == 1 {
        "ethereum"@
    } else if id == 8453 {
        "base"@
    } else if id == 42161 {
        "arbitrum"@
    } else {
        "unknown"@
    }
}

/// Name of the parent chain whose id is written out in `text`. A text that
/// denotes no 64-bit number counts as the id 0.
pub open spec fn chain_name_of(text: Seq<char>) -> Seq<char> {
    match decimal(text) {
        Some(id) => chain_name(id),
        None => chain_name(0),
    }
}

/// Resolves the parent chain of a network description from the chain id as
/// the description writes it: a number in text form.
pub fn deserialize_chain_id_to_name(chain_id: &str) -> (name: String)
    ensures
        name@ == chain_name_of(chain_id@),
{
    let id = match parse_u64(chain_id) {
        Some(id) => id,
        None => 0,
    };
    Network::name_from_chain_id(id)
}

impl Network {
    /// Builds a network from its parts.
    pub fn new(
        name: String,
        label: String,
        parent_chain: String,
        da: String,
        stack: String,
        data: Option<Data>,
    ) -> (network: Network)
        ensures
            network.name == name,
            network.label == label,
            network.parent_chain == parent_chain,
            network.da == da,
            network.stack == stack,
            network.data == data,
    {
        Network { name, label, parent_chain, da, stack, data }
    }

    /// Replaces the measurements as a whole.
    pub fn update_data(&mut self, data: Option<Data>)
        ensures
            *final(self) == (Network { data, ..*old(self) }),
            final(self)@ == old(self)@.with_data(data),
    {
        self.data = data;
    }

    /// Computes the rank of the network under `by`.
    pub fn sort_rank(&self, by: SortingStrategy) -> (rank: i64)
        ensures
            rank == self@.rank(by),
    {
        match &self.data {
            Some(data) => data.reading(by).sort_rank(),
            None => Rate::zero().sort_rank(),
        }
    }

    /// The table line of the network. A network without measurements is
    /// shown with zeros.
    pub fn to_row(&self) -> (row: Row)
        ensures
            row@ == self@.row(),
    {
        let shown = match &self.data {
            Some(data) => *data,
            None => Data::default(),
        };
        Row {
            label: self.label.clone(),
            block_number: shown.block_number,
            tps: shown.tps,
            gps: shown.gps,
            dps: shown.dps,
            stack: self.stack.clone(),
            da: self.da.clone(),
            parent_chain: self.parent_chain.clone(),
        }
    }

    /// Looks a chain id up in the table of known parent chains.
    pub fn name_from_chain_id(id: u64) -> (name: String)
        ensures
            name@ == chain_name(id),
    {
        if id == 1 {
            "ethereum".to_owned()
        } else if id == 8453 {
            "base".to_owned()
        } else if id == 42161 {
            "arbitrum".to_owned()
        } else {
            "unknown".to_owned()
        }
    }
}

} // verus!
