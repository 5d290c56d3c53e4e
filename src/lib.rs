//! Checked access to user-space memory for system-call handlers, and the
//! scheduling-attribute system calls built on top of it.
//!
//! * [`errno`]: the error codes that handlers return.
//! * [`space`]: the demand-paged user address space that pointers are
//!   validated against.
//! * [`user_ref`]: typed user addresses that are only read or written after
//!   validation.
//! * [`task`]: scheduling policies, statuses and per-task attributes.
//! * [`sched`]: the task and process registries, target resolution and the
//!   `sched_*` system calls.

pub mod errno;
pub mod space;
pub mod user_ref;
pub mod task;
pub mod sched;
