//! Pull-request menu bar core: the device-flow sign-in state machine, the
//! requests it and the pull-request query send, and the classification of the
//! fetched pull requests into buckets.

pub mod device_flow;
pub mod errors;
pub mod requests;
pub mod work_items;
