//! Control groups through the file system.

pub mod error;
pub mod events;
pub mod file_laws;
pub mod files;
pub mod freezer;
pub mod inotify;
pub mod memory_event;
pub mod misc;
pub mod number;
pub mod oom;
pub mod oom_laws;
pub mod oom_setup;
pub mod paths;
pub mod resources;
pub mod text;

pub use crate::fs::resources::{
    Controllers, MiscLimits, MiscMaxValue, MiscResources, Resources, Subsystem,
};
