//! Editing of GPT partition tables: the table model with validated insertion,
//! placement of new partitions, portable snapshots of a table and its device,
//! and the state machine of the interactive session.

pub mod actions;
pub mod blocks;
pub mod cli;
pub mod device;
pub mod entries;
pub mod gpt;
pub mod ids;
pub mod interactive;
pub mod placement;
pub mod snapshot;
pub mod table;
pub mod text;

pub use device::Info;
