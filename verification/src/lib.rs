//! A verified core for a local video library: the fingerprint cache, the
//! folder scanner, the metadata merger, the thumbnail cache with its request
//! pipeline, and the media-information formatter.
//!
//! Everything here computes on plain values. Reading directories and files,
//! decoding video, persisting rows and talking to a user interface are the
//! business of the program around this crate.

pub mod filescan;
pub mod fingerprint;
pub mod folderscan;
pub mod gui;
pub mod job;
pub mod mediainfo;
pub mod progress;
pub mod rescan;
pub mod service;
pub mod state;
pub mod text;
pub mod thumbnail;
pub mod util;
pub mod video;
