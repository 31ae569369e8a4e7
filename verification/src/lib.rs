//! Manifest-driven file synchronization engine for the IW4x launcher.
//!
//! The library holds the decision logic of the launcher: which files of a
//! release manifest are missing or stale on disk, how downloads are retried
//! and verified against content hashes, which archive members still need
//! extraction, and how renames and deletions reconcile an installation with
//! a new manifest. Filesystem and network access stay outside; callers hand
//! the library observations (file present or not, computed hashes) as plain
//! values and perform the actions it decides on.

pub mod config;
pub mod dlc;
pub mod download;
pub mod extract;
pub mod game;
pub mod game_files;
pub mod github;
pub mod hashing;
pub mod misc;
pub mod reconcile;
pub mod release_definition;
pub mod release_tool;
pub mod search;
pub mod strmap;
pub mod sync;
pub mod version;
