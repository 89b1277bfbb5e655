//! Kernel-argument reconciliation for a bootable-container host.
//!
//! When a new image replaces the booted one, the kernel command line of the
//! next boot is derived from three lists: the arguments the machine is booted
//! with, the arguments that the locally installed fragments ask for, and the
//! arguments that the fragments shipped in the new image ask for. Everything
//! here is computation on values that the caller has already read; nothing in
//! this crate touches the filesystem or a repository.

pub mod args;
pub mod booted;
pub mod document;
pub mod engine;
pub mod error;
pub mod fragment;
pub mod reconcile;
pub mod source;

pub use crate::booted::booted_args;
pub use crate::engine::get_kargs;
pub use crate::error::KargsError;
pub use crate::fragment::{parse_file, Fragment};
pub use crate::reconcile::{added_kargs, reconcile, removed_kargs};
pub use crate::source::{collect_args, Fetched};
