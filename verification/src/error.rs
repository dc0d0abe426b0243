//! The error taxonomy of the resolution pipeline.
//!
//! Four outcomes are told apart: a selection fragment that matches nothing
//! (`*NotFound`), a transient transport or decoding failure (`Transient`),
//! a structured vendor error (`Api`), and the vendor's block signal
//! (`Blocked`). A missing branch session (`SessionNotFound`) indicates a
//! pipeline ordering fault and cannot arise when the stages run in order.
//! Whitelist failure is treated as fatal (`Whitelist`): the registry never
//! proceeds with a session the gateway rejected.

use vstd::prelude::*;

use crate::text::dec_str;
use crate::text::u64_to_string;

verus! {

/// A terminal failure of the resolution pipeline.
#[derive(Debug, Clone)]
pub enum ResolveError {
    /// No catalog version matches the selection fragment.
    VersionNotFound { name: String },
    /// No release of the matched version matches the fragment.
    ReleaseNotFound { name: String },
    /// No edition of the matched release matches the fragment.
    EditionNotFound { name: String },
    /// No discovered language matches the fragment.
    LanguageNotFound { name: String },
    /// No discovered download option carries the requested architecture.
    ArchitectureNotFound { name: String },
    /// A later stage asked for a branch session that was never registered.
    SessionNotFound { index: usize },
    /// The gateway rejected or failed the session allow-listing call.
    Whitelist { detail: String },
    /// A transient transport, empty-body or decoding failure.
    Transient { detail: String },
    /// A structured vendor error that is not the block signal.
    Api { detail: String },
    /// The vendor's block signal, with the explanation shown to the caller.
    Blocked { message: String },
}

/// The text of each error, as shown to the caller.
pub open spec fn spec_error_message(e: ResolveError) -> Seq<char> {
    match e {
        ResolveError::VersionNotFound { name } => "Version '"@ + name@ + "' not found"@,
        ResolveError::ReleaseNotFound { name } => "Release '"@ + name@ + "' not found"@,
        ResolveError::EditionNotFound { name } => "Edition '"@ + name@ + "' not found"@,
        ResolveError::LanguageNotFound { name } => "Language '"@ + name@ + "' not found"@,
        ResolveError::ArchitectureNotFound { name } => "Architecture '"@ + name@
            + "' not found"@,
        ResolveError::SessionNotFound { index } => "Session ID not found for index "@ + dec_str(
            index as nat,
        ),
        ResolveError::Whitelist { detail } => "Session whitelisting failed: "@ + detail@,
        ResolveError::Transient { detail } => detail@,
        ResolveError::Api { detail } => "API error: "@ + detail@,
        ResolveError::Blocked { message } => message@,
    }
}

impl ResolveError {
    /// Renders the error as the line shown to the caller.
    pub fn message(&self) -> (r: String)
        ensures
            r@ == spec_error_message(*self),
    {
        match self {
            ResolveError::VersionNotFound { name } => {
                let mut m = "Version '".to_owned();
                m.append(name.as_str());
                m.append("' not found");
                m
            },
            ResolveError::ReleaseNotFound { name } => {
                let mut m = "Release '".to_owned();
                m.append(name.as_str());
                m.append("' not found");
                m
            },
            ResolveError::EditionNotFound { name } => {
                let mut m = "Edition '".to_owned();
                m.append(name.as_str());
                m.append("' not found");
                m
            },
            ResolveError::LanguageNotFound { name } => {
                let mut m = "Language '".to_owned();
                m.append(name.as_str());
                m.append("' not found");
                m
            },
            ResolveError::ArchitectureNotFound { name } => {
                let mut m = "Architecture '".to_owned();
                m.append(name.as_str());
                m.append("' not found");
                m
            },
            ResolveError::SessionNotFound { index } => {
                let mut m = "Session ID not found for index ".to_owned();
                let ix = u64_to_string(*index as u64);
                m.append(ix.as_str());
                m
            },
            ResolveError::Whitelist { detail } => {
                let mut m = "Session whitelisting failed: ".to_owned();
                m.append(detail.as_str());
                m
            },
            ResolveError::Transient { detail } => detail.clone(),
            ResolveError::Api { detail } => {
                let mut m = "API error: ".to_owned();
                m.append(detail.as_str());
                m
            },
            ResolveError::Blocked { message } => message.clone(),
        }
    }
}

} // verus!
