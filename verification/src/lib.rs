//! Project synchronization core for a scene-authoring editor.
//!
//! The library keeps an on-disk scene description, a background check
//! process, a filesystem watcher and a live in-memory document model
//! mutually consistent.  Everything here is plain data and decision
//! logic: the surrounding process does the actual file, process and
//! channel work and feeds the observations in as values.

pub mod build_meta;
pub mod check;
pub mod json;
pub mod orchestrator;
pub mod project;
pub mod runner;
pub mod scene;
pub mod scene_text;
pub mod text;
pub mod watcher;
