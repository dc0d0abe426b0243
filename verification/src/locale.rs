//! Locale negotiation: which request locale the vendor accepts this run.
//!
//! The system locale is probed once against the vendor's localized landing
//! page. A successful probe adopts the system locale; anything else adopts
//! the fixed default. A single probe failure means "not supported" — it is
//! never retried.

use vstd::prelude::*;

verus! {

/// Relies on `sys_locale::get_locale` to read the process locale; the
/// result depends on the environment, so nothing is promised of it.
#[verifier::external_body]
fn read_locale() -> (r: Option<String>)
{
    sys_locale::get_locale()
}

/// The system locale when one is set, and the fixed default otherwise.
pub fn locale_or_default(found: Option<String>) -> (r: String)
    ensures
        match found {
            Some(l) => r@ == l@,
            None => r@ == "en-US"@,
        },
{
    match found {
        Some(l) => l,
        None => "en-US".to_owned(),
    }
}

/// Reads the system locale, falling back to the default when none is set.
pub fn get_system_locale() -> (r: String)
{
    locale_or_default(read_locale())
}

/// The vendor landing page probed to test a locale.
pub open spec fn spec_locale_probe_url(locale: Seq<char>) -> Seq<char> {
    "https://www.microsoft.com/"@ + locale + "/software-download/"@
}

/// Builds the landing-page URL whose existence probes a locale.
pub fn locale_probe_url(locale: &str) -> (r: String)
    ensures
        r@ == spec_locale_probe_url(locale@),
{
    let mut u = "https://www.microsoft.com/".to_owned();
    u.append(locale);
    u.append("/software-download/");
    u
}

/// Fixes the query locale for the run from the probe's outcome: the probed
/// locale if the vendor accepted it, and the fixed default otherwise.
pub fn adopt_locale(probed: String, probe_ok: bool) -> (r: String)
    ensures
        probe_ok ==> r@ == probed@,
        !probe_ok ==> r@ == "en-US"@,
{
    if probe_ok {
        probed
    } else {
        "en-US".to_owned()
    }
}

} // verus!
