//! Resolution of a Windows ISO product selection into a downloadable URL.
//!
//! The library walks a five-stage selection funnel (version, release,
//! edition, language, architecture) against a vendor web API. It owns the
//! static product catalog, the case-insensitive matching rules, the
//! per-branch session registry, the retry and pacing decisions, response
//! classification including block detection, and the firmware-shell fork
//! that derives static release links. Network transport itself is left to
//! the surrounding application, which performs the requests this library
//! describes and feeds the responses back in.

#![verifier::loop_isolation(false)]

use vstd::prelude::*;

pub mod catalog;
pub mod classify;
pub mod error;
pub mod locale;
pub mod pipeline;
pub mod retry;
pub mod session;
pub mod text;
pub mod types;
pub mod uefi;
pub mod utils;
