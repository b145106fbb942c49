//! AVP toolchain core: findings, gates, ratchets, intents, Rust source
//! classification and the conductor's session supervisor, with their
//! behaviour stated as Verus contracts.

#![allow(unused_imports)]

use vstd::prelude::*;

pub mod claude_event;
pub mod commands;
pub mod conductor;
pub mod config;
pub mod dates;
pub mod drift;
pub mod driver;
pub mod event;
pub mod finding;
pub mod fixture;
pub mod gate;
pub mod gates;
pub mod glob;
pub mod host;
pub mod install;
pub mod intent;
pub mod launch;
pub mod newtype;
pub mod policy;
pub mod ratchet;
pub mod repo;
pub mod reporter;
pub mod session;
pub mod source;
pub mod supervisor;
pub mod text;

verus! {

/// Crate version.
pub const VERSION: &'static str = "0.1.0";

/// Canonical name of the per-repo ratchet file.
pub const RATCHET_FILE: &'static str = "avp-ratchet.toml";

/// Canonical name of the per-repo intent file (multi-instance
/// coordination).
pub const INTENT_FILE: &'static str = ".avp-intent.toml";

/// Canonical workflow path siblings install via `avp install`.
pub const CANONICAL_WORKFLOW: &'static str = ".github/workflows/avp.yml";

} // verus!
