//! Core of a wallpaper daemon: per-output image scheduling, transition timing,
//! texture and bind-group caching, the decode job bookkeeping and the control
//! commands.
pub mod config;
pub mod daemon;
pub mod engine;
pub mod files;
pub mod jobs;
pub mod launcher;
pub mod schedule;
pub mod socket;
pub mod transition;
