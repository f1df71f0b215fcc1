//! Files that are sent and received, and directories that are shared.
pub mod canceling;
pub mod destinations;
pub mod receiving;
pub mod sending;
pub mod sharing;
