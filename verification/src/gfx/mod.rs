//! Graphics-side logic that needs no GPU: the transform hierarchy and the
//! renderer's init-time bookkeeping.

pub mod blob_release;
pub mod hot_reload_sources;
pub mod mesh_stream_inputs;
pub mod transform_propagation;
pub mod skinned_layout;
pub mod mesh_seed_plan;
pub mod dirty_plan;
pub mod mesh_stream_data;
pub mod atlas_slots;
