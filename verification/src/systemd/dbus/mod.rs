//! Talking to systemd over D-Bus.

pub mod error;
