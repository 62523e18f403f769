//! Core logic of a rack-management update orchestrator and of the zone-bundle
//! lifecycle manager that runs beside it on every sled.
//!
//! The update side models the tracker that serializes update starts, aborts
//! and plan replacement across devices, the singleton trampoline uploader,
//! and the per-device step engine that drives root-of-trust, service
//! processor and host updates. The bundle side models bundle metadata, its
//! on-disk archive format, and the priority-driven cleanup that keeps bundle
//! storage under its budget.

pub mod archive;
pub mod bundler;
pub mod bytestr;
pub mod cleanup;
pub mod component;
pub mod device;
pub mod engine;
pub mod errors;
pub mod gz;
pub mod hexid;
pub mod limits;
pub mod meta;
pub mod plan;
pub mod priority;
pub mod steps;
pub mod sys;
pub mod toml_meta;
pub mod tracker;
pub mod update_errors;
pub mod uploader;
pub mod version;
pub mod timespan;
