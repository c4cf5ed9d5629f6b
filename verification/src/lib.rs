//! State synchronizer of a terminal dashboard for live network metrics.
//!
//! The crate keeps the monitored networks with their latest measurements,
//! merges stream events into them, keeps them ordered by a selectable metric
//! and maintains the cursor of the highlighted row. Every function is stated
//! over a mathematical view of the state and proved against it.

pub mod client;
pub mod config;
pub mod cursor;
pub mod decimal;
pub mod event_loop;
pub mod network;
pub mod order;
pub mod rate;
pub mod registry;
pub mod tui;

pub use client::Client;
pub use config::{Config, DEFAULT_API_ENDPOINT, DEFAULT_INTERVAL_MS};
pub use event_loop::{EventLoop, LoopAction, LoopEvent, LoopState};
pub use network::{deserialize_chain_id_to_name, Data, Network, Row};
pub use rate::Rate;
pub use tui::{Event, KeyCode, Snapshot, SortingStrategy, Tui};
