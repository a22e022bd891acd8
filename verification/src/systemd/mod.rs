//! Control groups through systemd.

pub mod dbus;
