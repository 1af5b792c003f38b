//! The indexing engine of an event indexer for Ethereum-compatible chains.
//!
//! The crate holds the decisions of the engine: how a block span is cut into
//! fetch windows, how the window shrinks and grows against provider limits,
//! how progress, permits and dispatch are accounted for, and how a run is
//! planned. Everything that waits (provider requests, database statements,
//! handler calls, timers) is left to the caller, which performs the step a
//! state machine asks for and reports back what happened.

pub mod primitives;
pub mod contract_setup;
pub mod filter;
pub mod reorg;
pub mod fetch_logs;
pub mod provider_errors;
pub mod progress;
pub mod callback_registry;
pub mod indexing;
pub mod unit;
pub mod supervisor;
pub mod startup;
