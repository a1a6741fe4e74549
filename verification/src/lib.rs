//! Verified core of a unified zkVM toolkit: input framing, cost estimation,
//! test-vector handling, the cluster client's protocol decisions and the
//! container orchestration rules.

pub mod text;
pub mod encoding;
pub mod zkvm_interface;
pub mod cost;
pub mod zisk;
pub mod openvm;
pub mod sp1;
pub mod cluster;
pub mod metrics;
pub mod dockerized;
pub mod resource;
pub mod compiler;
pub mod program;
pub mod guest_heap;
