//! Resolution, planning, and dispatch logic for retrieving add-on content
//! ("mods") for locally installed emulated game titles from a remote
//! source-controlled file tree.
//!
//! The crate holds the pure core of the engine: turning remote tree paths
//! into per-title metadata, matching that metadata against installed titles,
//! building a download plan, computing the per-job fetch steps, and
//! dispatching archive extraction by container format. All file, network,
//! and process concerns live with the caller, which hands this crate plain
//! values and carries out the steps it computes.

pub mod archive;
pub mod config;
pub mod fetcher;
pub mod game;
pub mod path_meta;
pub mod planner;
pub mod resolver;
pub mod text;
pub mod tree;
pub mod version;
