//! Segmented video export: planning, cross-fade filter graphs, encoder
//! progress parsing and the export state machine; and around it the pure
//! parts of the media server, the prober's answers, frame selection and the
//! encoder arguments for thumbnails, preview clips and upload compression.
//!
//! Times are integers: milliseconds throughout.
use vstd::prelude::*;

pub mod command;
pub mod frames;
pub mod graph;
pub mod job;
pub mod media;
pub mod plan;
pub mod probe;
pub mod progress;
pub mod records;
pub mod scan;
pub mod server;
pub mod text;
