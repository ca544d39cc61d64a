//! A small container-lifecycle orchestration core for test sandboxes.
//!
//! A caller describes a container image (its identifier, launch arguments and
//! readiness conditions), hands it together with a runtime-client capability
//! to [`container::ContainerAsync`], and receives a handle that is only
//! released once every readiness condition of the image has been satisfied.
//! Disposing of the handle tears the container down according to its cleanup
//! policy, exactly once.

pub mod container;
pub mod fake;
pub mod generic;
pub mod image;
pub mod logs;
pub mod mongo;
pub mod parity_ethereum;
pub mod ports;
pub mod wait;
