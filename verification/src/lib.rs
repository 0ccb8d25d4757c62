//! Display-state synchronisation for monitors reached through a DDC/CI
//! control utility: parsing of the utility's text output, the registry of
//! known displays, and the decisions of the refresh cycle.

pub mod command;
pub mod cycle;
pub mod ddcutil;
pub mod detect;
pub mod prefetch;
pub mod preset;
pub mod registry;
pub mod settings;
pub mod state;
pub mod text;
pub mod textmap;
pub mod vcp;
