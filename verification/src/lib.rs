//! Bucket usage accounting for an object store.

pub mod accumulator;
pub mod backend;
pub mod compression;
pub mod convert;
pub mod listing;
pub mod listing_laws;
pub mod live;
pub mod live_laws;
pub mod live_refresh;
pub mod live_response;
pub mod memory;
pub mod memory_laws;
pub mod memory_sync;
pub mod memory_update;
pub mod name_map;
pub mod snapshot;
pub mod snapshot_laws;
pub mod text;
pub mod time;
pub mod usage;
pub mod usage_laws;
