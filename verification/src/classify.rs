//! Response classification and block detection.
//!
//! Every decoded vendor response is classified the same way, in order:
//! a non-empty structured validation container is a vendor failure; then a
//! non-empty legacy error list whose first entry carries the block
//! sentinel means the client is blocked, and any other first entry is a
//! vendor failure with its text kept verbatim; an empty response body is a
//! transient failure; otherwise the response is accepted.
//!
//! When the client is blocked, a human-readable explanation is pulled out
//! of the vendor's localized landing page: a fixed hidden-field marker is
//! located, its value is HTML-unescaped, markup tags are stripped,
//! whitespace is collapsed, and the result is used only when it carries
//! the block's reference code. Any failure along that chain falls back to
//! a fixed English explanation — the extraction is best-effort and never
//! raises an error of its own. The session identifier is appended for
//! support reference either way.

use vstd::prelude::*;

use crate::error::ResolveError;
use crate::text::contains_seq;
use crate::text::contains_sub;
use crate::text::collapse_ws;
use crate::text::find_from;
use crate::text::lemma_find_first;
use crate::text::lemma_matches_at_skip;
use crate::text::lemma_spec_find;
use crate::text::push_range;
use crate::text::replace_all;
use crate::text::seq_matches_at;
use crate::text::spec_collapse_ws;
use crate::text::spec_find;
use crate::text::spec_replace_all;
use crate::text::spec_strip_tags;
use crate::text::spec_trim;
use crate::text::string_from_utf8;
use crate::text::strip_tags;
use crate::text::trim_bytes;
use crate::types::MicrosoftApiResponse;
use vstd::utf8::decode_utf8;
use vstd::utf8::encode_utf8;
use vstd::utf8::is_ascii_chars;
use vstd::utf8::is_ascii_chars_encode_utf8;
use vstd::utf8::valid_utf8;

verus! {

/// The legacy error-type code the vendor returns when a client is
/// rate-limited or blocked.
pub const BAN_SENTINEL: u32 = 9;

/// What a vendor response means, before any payload is read.
pub enum Classification {
    /// No error container is populated; the payload may be read.
    Accepted,
    /// A vendor-side failure, with its text kept verbatim.
    Failure { detail: String },
    /// The vendor's block sentinel.
    Blocked,
}

/// Classifies a decoded response: the validation container is checked
/// first, then the legacy error list with its block sentinel.
pub fn classify_response(r: &MicrosoftApiResponse) -> (c: Classification)
    ensures
        match &r.validation_container {
            Some(vc) if vc.errors@.len() > 0 => c matches Classification::Failure { detail }
                && detail@ == vc.errors@[0]@,
            _ => match &r.errors {
                Some(es) if es@.len() > 0 => {
                    if es@[0].error_type == BAN_SENTINEL {
                        c == Classification::Blocked
                    } else {
                        c matches Classification::Failure { detail } && detail@ == es@[0].value@
                    }
                },
                _ => c == Classification::Accepted,
            },
        },
{
    match &r.validation_container {
        Some(vc) if vc.errors.len() > 0 => {
            return Classification::Failure { detail: vc.errors[0].clone() };
        },
        _ => {},
    }
    match &r.errors {
        Some(es) if es.len() > 0 => {
            if es[0].error_type == BAN_SENTINEL {
                Classification::Blocked
            } else {
                Classification::Failure { detail: es[0].value.clone() }
            }
        },
        _ => Classification::Accepted,
    }
}

/// An empty (all-whitespace) response body is a transient failure; the
/// status line is kept for the report.
pub fn classify_body(text: &str, status: &str) -> (r: Option<ResolveError>)
    ensures
        match r {
            Some(e) => spec_trim(encode_utf8(text@)).len() == 0 && (e
                matches ResolveError::Transient { detail } && detail@
                == "API returned empty response. Status: "@ + status@
                + ". This might indicate that the API is blocking our requests or requires additional authentication."@),
            None => spec_trim(encode_utf8(text@)).len() != 0,
        },
{
    let trimmed = trim_bytes(text.as_bytes());
    if trimmed.len() == 0 {
        let mut m = "API returned empty response. Status: ".to_owned();
        m.append(status);
        m.append(
            ". This might indicate that the API is blocking our requests or requires additional authentication.",
        );
        Some(ResolveError::Transient { detail: m })
    } else {
        None
    }
}

/// The hidden-field marker that precedes the explanation in the vendor's
/// landing page.
pub open spec fn marker_bytes() -> Seq<u8> {
    encode_utf8("<input id=\"msg-01\" type=\"hidden\" value=\""@)
}

/// The closing delimiter of the hidden field's value.
pub open spec fn closer_bytes() -> Seq<u8> {
    encode_utf8("\"/>"@)
}

/// The block's reference code; an extracted explanation is used only when
/// it carries this code.
pub open spec fn code_bytes() -> Seq<u8> {
    encode_utf8("715-123130"@)
}

/// The hidden-field value: what stands between the first marker
/// occurrence and the next closing delimiter.
pub open spec fn spec_extract_hidden(s: Seq<u8>) -> Option<Seq<u8>> {
    let m = spec_find(s, marker_bytes());
    if 0 <= m && m + marker_bytes().len() <= s.len() {
        let rest = s.skip(m + marker_bytes().len() as int);
        let c = spec_find(rest, closer_bytes());
        if c >= 0 {
            Some(rest.subrange(0, c))
        } else {
            None
        }
    } else {
        None
    }
}

/// The three HTML entity replacements applied to the extracted value,
/// in order.
pub open spec fn spec_unescape(v: Seq<u8>) -> Seq<u8> {
    let u1 = spec_replace_all(v, encode_utf8("&lt;"@), encode_utf8("<"@));
    let u2 = spec_replace_all(u1, encode_utf8("&gt;"@), encode_utf8(">"@));
    spec_replace_all(u2, encode_utf8("&amp;"@), encode_utf8("&"@))
}

/// The full extraction chain on the landing page's bytes: locate the
/// hidden field, unescape it, strip markup, collapse whitespace, and keep
/// the result — trimmed, with the support suffix — only when it carries
/// the reference code.
pub open spec fn spec_ban_extract(html: Seq<u8>) -> Option<Seq<u8>> {
    match spec_extract_hidden(html) {
        Some(v) => {
            let cleaned = spec_collapse_ws(spec_strip_tags(spec_unescape(v)));
            if contains_seq(cleaned, code_bytes()) {
                Some(spec_trim(cleaned) + encode_utf8(" Session ID: "@))
            } else {
                None
            }
        },
        None => None,
    }
}

/// The bytes of an ASCII string: one byte per character.
fn ascii_pattern(s: &str) -> (r: &[u8])
    requires
        is_ascii_chars(s@),
    ensures
        r@ == encode_utf8(s@),
        r@.len() == s@.len(),
{
    proof {
        is_ascii_chars_encode_utf8(s@);
    }
    s.as_bytes()
}

/// Extracts the hidden-field value from the landing page's bytes.
fn extract_hidden(s: &[u8]) -> (r: Option<Vec<u8>>)
    ensures
        match r {
            Some(v) => spec_extract_hidden(s@) matches Some(m) && m == v@,
            None => spec_extract_hidden(s@) is None,
        },
{
    proof {
        reveal_strlit("<input id=\"msg-01\" type=\"hidden\" value=\"");
        assert(is_ascii_chars("<input id=\"msg-01\" type=\"hidden\" value=\""@)) by {
            assert forall|i: int|
                0 <= i < "<input id=\"msg-01\" type=\"hidden\" value=\""@.len() implies (
            "<input id=\"msg-01\" type=\"hidden\" value=\""@[i] as nat) < 128 by {}
        }
        reveal_strlit("\"/>");
        assert(is_ascii_chars("\"/>"@)) by {
            assert forall|i: int| 0 <= i < "\"/>"@.len() implies ("\"/>"@[i] as nat) < 128 by {}
        }
    }
    let marker = ascii_pattern("<input id=\"msg-01\" type=\"hidden\" value=\"");
    let closer = ascii_pattern("\"/>");
    let s_len = s.len();
    match find_from(s, marker, 0) {
        None => {
            proof {
                lemma_spec_find(s@, marker_bytes());
                if spec_find(s@, marker_bytes()) >= 0 {
                    assert(seq_matches_at(s@, marker_bytes(), spec_find(s@, marker_bytes())));
                }
            }
            None
        },
        Some(i) => {
            proof {
                lemma_find_first(s@, marker_bytes(), i as int);
            }
            let start = i + marker.len();
            let ghost rest = s@.skip(start as int);
            match find_from(s, closer, start) {
                None => {
                    proof {
                        assert forall|k: int| !seq_matches_at(rest, closer_bytes(), k) by {
                            if 0 <= k {
                                lemma_matches_at_skip(
                                    s@,
                                    closer_bytes(),
                                    start as int,
                                    k + start,
                                );
                                assert(!seq_matches_at(s@, closer_bytes(), k + start));
                            }
                        }
                        lemma_spec_find(rest, closer_bytes());
                        if spec_find(rest, closer_bytes()) >= 0 {
                            assert(seq_matches_at(
                                rest,
                                closer_bytes(),
                                spec_find(rest, closer_bytes()),
                            ));
                        }
                    }
                    None
                },
                Some(c) => {
                    proof {
                        assert forall|k: int| 0 <= k implies (seq_matches_at(
                            s@,
                            closer_bytes(),
                            k + start,
                        ) == seq_matches_at(rest, closer_bytes(), k)) by {
                            lemma_matches_at_skip(s@, closer_bytes(), start as int, k + start);
                        }
                        assert(seq_matches_at(rest, closer_bytes(), c - start));
                        assert forall|k: int| 0 <= k < c - start implies !seq_matches_at(
                            rest,
                            closer_bytes(),
                            k,
                        ) by {
                            assert(!seq_matches_at(s@, closer_bytes(), k + start));
                        }
                        lemma_find_first(rest, closer_bytes(), c - start);
                    }
                    let mut out: Vec<u8> = Vec::new();
                    push_range(&mut out, s, start, c);
                    proof {
                        assert(out@ =~= rest.subrange(0, c - start));
                    }
                    Some(out)
                },
            }
        },
    }
}

/// Runs the full extraction chain on the landing page's bytes.
fn ban_extract(html: &[u8]) -> (r: Option<Vec<u8>>)
    ensures
        match r {
            Some(v) => spec_ban_extract(html@) matches Some(m) && m == v@,
            None => spec_ban_extract(html@) is None,
        },
{
    match extract_hidden(html) {
        None => None,
        Some(v) => {
            proof {
                reveal_strlit("&lt;");
                assert(is_ascii_chars("&lt;"@)) by {
                    assert forall|i: int| 0 <= i < "&lt;"@.len() implies ("&lt;"@[i] as nat)
                        < 128 by {}
                }
                reveal_strlit("&gt;");
                assert(is_ascii_chars("&gt;"@)) by {
                    assert forall|i: int| 0 <= i < "&gt;"@.len() implies ("&gt;"@[i] as nat)
                        < 128 by {}
                }
                reveal_strlit("&amp;");
                assert(is_ascii_chars("&amp;"@)) by {
                    assert forall|i: int| 0 <= i < "&amp;"@.len() implies ("&amp;"@[i] as nat)
                        < 128 by {}
                }
                reveal_strlit("715-123130");
                assert(is_ascii_chars("715-123130"@)) by {
                    assert forall|i: int|
                        0 <= i < "715-123130"@.len() implies ("715-123130"@[i] as nat) < 128 by {}
                }
            }
            let u1 = replace_all(v.as_slice(), ascii_pattern("&lt;"), "<".as_bytes());
            let u2 = replace_all(u1.as_slice(), ascii_pattern("&gt;"), ">".as_bytes());
            let u3 = replace_all(u2.as_slice(), ascii_pattern("&amp;"), "&".as_bytes());
            let stripped = strip_tags(u3.as_slice());
            let cleaned = collapse_ws(stripped.as_slice());
            let code = ascii_pattern("715-123130");
            if contains_sub(cleaned.as_slice(), code) {
                let mut msg = trim_bytes(cleaned.as_slice());
                proof {
                    reveal_strlit(" Session ID: ");
                    assert(is_ascii_chars(" Session ID: "@)) by {
                        assert forall|i: int|
                            0 <= i < " Session ID: "@.len() implies (" Session ID: "@[i] as nat)
                            < 128 by {}
                    }
                }
                let suffix = ascii_pattern(" Session ID: ");
                push_range(&mut msg, suffix, 0, suffix.len());
                proof {
                    assert(suffix@.subrange(0, suffix@.len() as int) =~= suffix@);
                }
                Some(msg)
            } else {
                None
            }
        },
    }
}

/// The fixed fallback explanation used whenever the extraction chain does
/// not produce a usable message.
pub open spec fn spec_fallback() -> Seq<char> {
    "Your IP address has been banned by Microsoft for issuing too many ISO download requests or for belonging to a region of the world where sanctions currently apply. Please try again later.\nIf you believe this ban to be in error, you can try contacting Microsoft by referring to message code 715-123130 and session ID "@
}

/// The fixed fallback explanation.
fn fallback_message() -> (r: String)
    ensures
        r@ == spec_fallback(),
{
    "Your IP address has been banned by Microsoft for issuing too many ISO download requests or for belonging to a region of the world where sanctions currently apply. Please try again later.\nIf you believe this ban to be in error, you can try contacting Microsoft by referring to message code 715-123130 and session ID ".to_owned()
}

/// The explanation body: the extracted landing-page message when the
/// chain produced one that decodes as UTF-8, and the fixed fallback
/// otherwise.
pub open spec fn spec_blocked_core(html: Option<Seq<char>>) -> Seq<char> {
    match html {
        Some(t) => match spec_ban_extract(encode_utf8(t)) {
            Some(m) => if valid_utf8(m) {
                decode_utf8(m)
            } else {
                spec_fallback()
            },
            None => spec_fallback(),
        },
        None => spec_fallback(),
    }
}

/// Builds the full block explanation: the extracted or fallback message
/// with the offending session identifier appended for support reference.
pub fn blocked_message(html: Option<&str>, session_id: &str) -> (r: String)
    ensures
        html matches Some(h) ==> r@ == spec_blocked_core(Some(h@)) + " "@ + session_id@,
        html is None ==> r@ == spec_blocked_core(None) + " "@ + session_id@,
{
    let mut m = match html {
        Some(h) => {
            match ban_extract(h.as_bytes()) {
                Some(v) => {
                    let ghost vb = v@;
                    match string_from_utf8(v) {
                        Some(s) => {
                            proof {
                                broadcast use vstd::utf8::encode_utf8_valid_utf8;
                                broadcast use vstd::utf8::encode_utf8_decode_utf8;

                            }
                            s
                        },
                        None => fallback_message(),
                    }
                },
                None => fallback_message(),
            }
        },
        None => fallback_message(),
    };
    m.append(" ");
    m.append(session_id);
    m
}

/// The vendor's localized landing page for the negotiated locale, from
/// which the block explanation is extracted.
pub open spec fn spec_ban_page_url(locale: Seq<char>) -> Seq<char> {
    "https://www.microsoft.com/"@ + locale + "/software-download/windows11"@
}

/// Builds the landing-page URL for the negotiated locale.
pub fn ban_page_url(locale: &str) -> (r: String)
    ensures
        r@ == spec_ban_page_url(locale@),
{
    let mut u = "https://www.microsoft.com/".to_owned();
    u.append(locale);
    u.append("/software-download/windows11");
    u
}

} // verus!
