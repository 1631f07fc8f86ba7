use vstd::prelude::*;

pub mod seq_util;
pub mod ids;
pub mod model;
pub mod store;
pub mod managers;
pub mod native_tab_manager;
pub mod reactor;
pub mod native_tabs;
pub mod window_events;
pub mod testing;
pub mod laws;
pub mod group_laws;
pub mod operation_laws;

verus! {
} // verus!
