//! NearWeave moves files, shared directories and clipboard text between nearby devices, over
//! Bluetooth and over the local network.
//!
//! This library holds the rules: what the application knows while it runs and how each event
//! changes it, the frames that devices exchange, and what is done with them. It does no input or
//! output of its own. Where something is to be sent, read, written or waited for, a function
//! says what, and another takes the outcome.
//!
//! - `protocol` and `transport::framing`: messages, frames and packets, and their encryption.
//! - `state`: connections, devices, trust, transfers and what is shown of them.
//! - `transport`: how devices find each other, come to trust each other, and stay connected.
//! - `files`: files that are sent and received, and directories that are shared.
//! - `handlers`, `commands`, `clipboard`: what is done with frames, with the user's wishes, and
//!   with the clipboard.
//! - `identity`, `settings`, `installer`: what is kept between runs, and what the installer asks.
//! - `text`, `bytes`, `lists`, `table`, `paths`, `digest`, `ids`, `clock`, `error`: what all of
//!   these are built from.
pub mod bytes;
pub mod clipboard;
pub mod clock;
pub mod commands;
pub mod digest;
pub mod error;
pub mod files;
pub mod handlers;
pub mod identity;
pub mod ids;
pub mod installer;
pub mod lists;
pub mod models;
pub mod paths;
pub mod protocol;
pub mod settings;
pub mod state;
pub mod table;
pub mod text;
pub mod transport;
