//! The links between devices.
pub mod bluetooth;
pub mod connecting;
pub mod discovery;
pub mod establish;
pub mod framing;
pub mod handshake;
pub mod links;
pub mod queue;
pub mod service;
