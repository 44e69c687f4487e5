//! Verified core of a voxel engine: packed light levels, block properties,
//! chunk-relative positions, event queues and a work dispatcher.
use vstd::prelude::*;

pub mod block;
pub mod chunk_position;
pub mod collision;
pub mod event;
pub mod global_vector;
pub mod interval;
pub mod keybinds;
pub mod name_map;
pub mod settings;
pub mod thread_work_dispatcher;
pub mod utils;
pub mod vector;

verus! {

} // verus!
