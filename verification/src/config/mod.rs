//! Chain configurations and the types that their extrinsics carry.

pub mod common;
pub mod para;
