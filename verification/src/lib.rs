//! Canonical dependency specifications for an external build driver.
//!
//! A dependency is a package name plus a source: a local path (with an
//! optional fallback source), a git reference, or a registry version.
//! This crate renders such a dependency as the canonical argument string
//! `{ package = "...", <key-values> }` that the external driver consumes,
//! escaping every embedded string so that the driver's parser recovers it
//! exactly, and prepares the driver's full argument list and the outcome
//! reporting of the invocation.

use vstd::prelude::*;

mod encode;
mod orchestrator;
mod source;

verus! {

pub use crate::encode::lemma_lit_plain;
pub use crate::encode::lemma_lit_round_trip;
pub use crate::encode::to_lit;
pub use crate::orchestrator::driver_result;
pub use crate::orchestrator::exit_code;
pub use crate::orchestrator::lemma_failed_driver_is_reported;
pub use crate::orchestrator::lemma_toolchain_flag;
pub use crate::orchestrator::make_args;
pub use crate::orchestrator::plan_invocation;
pub use crate::orchestrator::report_lines;
pub use crate::orchestrator::resolve_all;
pub use crate::orchestrator::DriverEvent;
pub use crate::source::join_path;
pub use crate::source::Dependency;
pub use crate::source::ErrorChain;
pub use crate::source::ErrorKind;
pub use crate::source::Source;

} // verus!
