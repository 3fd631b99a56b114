//! Saving and restoring display layouts for the Sway compositor.
//!
//! Layouts are stored per set of connected displays (default configurations)
//! or under a name chosen by the user (custom configurations), and are replayed
//! as a batch of compositor commands against whatever displays are connected.

pub mod text;
pub mod output;
pub mod properties;
pub mod table;
pub mod config;
pub mod settings;
pub mod cli;
