//! Verified core of the WASI-USB host runtime and its benchmark suite.

pub mod args;
pub mod backend;
pub mod bulk_only;
pub mod calendar;
pub mod checksum;
pub mod csv;
pub mod exchange;
pub mod host;
pub mod hotplug;
pub mod instrument;
pub mod mass_storage;
pub mod opening;
pub mod policy;
pub mod resources;
pub mod text;
pub mod transfers;
pub mod types;
pub mod w_bulk;
pub mod w_ctrl;
pub mod w_iso;
