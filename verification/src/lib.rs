//! Verified decision logic of a virtual machine monitor: sparse operations on
//! disk images, the event loop of a virtio device thread, and the bookkeeping
//! of an incremental memory snapshot.
//!
//! The library decides; it performs no input or output. Where work has to be
//! done by the operating system, a function here says which call to make and
//! with what arguments, and another one takes what the call returned.

pub mod capture_error;
pub mod capture_files;
pub mod capture_laws;
pub mod epoll_helper;
pub mod epoll_laws;
pub mod epoll_run;
pub mod errors;
pub mod incremental_snapshot;
pub mod loop_laws;
pub mod protocol;
pub mod restore_laws;
pub mod restore_layout;
pub mod sparse;
pub mod text;
