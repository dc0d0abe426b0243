//! The firmware-shell fork of the funnel.
//!
//! Firmware-shell products are not served by the vendor's stateful SKU
//! API at all. A version name that contains the shell marker diverts the
//! pipeline: the language stage short-circuits to one fixed record, and
//! the architecture stage derives a static download link by substituting
//! the release tag and the shell version into a fixed URL template. The
//! supported architectures are read from a companion metadata document of
//! the same release when it can be had and parsed, and fall back to a
//! fixed three-architecture default otherwise.

use vstd::prelude::*;

use crate::text::char_matches_at;
use crate::text::contains_ci;
use crate::text::contains_str_ci;
use crate::text::find_from;
use crate::text::lemma_find_first;
use crate::text::lemma_matches_at_skip;
use crate::text::lemma_spec_char_find;
use crate::text::lemma_spec_char_rfind;
use crate::text::lemma_spec_find;
use crate::text::push_range;
use crate::text::seq_matches_at;
use crate::text::spec_char_find;
use crate::text::spec_char_rfind;
use crate::text::spec_find;
use crate::types::LanguageData;
use crate::types::WindowsArchitecture;
use crate::types::WindowsLanguage;
use vstd::utf8::decode_utf8;
use vstd::utf8::encode_utf8;
use vstd::utf8::is_ascii_chars;
use vstd::utf8::is_ascii_chars_encode_utf8;
use vstd::utf8::valid_utf8;

verus! {

/// The marker that identifies a firmware-shell product line in a version
/// name, matched case-insensitively.
pub open spec fn spec_is_shell_version(version_name: Seq<char>) -> bool {
    contains_ci(version_name, "uefi"@)
}

/// Whether a version name names a firmware-shell product.
pub fn is_shell_version(version_name: &str) -> (r: bool)
    ensures
        r == spec_is_shell_version(version_name@),
{
    contains_str_ci(version_name, "uefi")
}

/// The characters of `s` before its first space; all of `s` when it has
/// no space.
pub open spec fn spec_first_token(s: Seq<char>) -> Seq<char> {
    let f = spec_char_find(s, ' ');
    if f >= 0 {
        s.subrange(0, f)
    } else {
        s
    }
}

/// The characters of `s` after its last space; all of `s` when it has no
/// space.
pub open spec fn spec_last_token(s: Seq<char>) -> Seq<char> {
    let f = spec_char_rfind(s, ' ');
    if f >= 0 {
        s.skip(f + 1)
    } else {
        s
    }
}

/// The part of `s` before its first space.
fn first_token(s: &str) -> (r: String)
    ensures
        r@ == spec_first_token(s@),
{
    let n = s.unicode_len();
    let mut i: usize = 0;
    while i < n
        invariant
            n == s@.len(),
            i <= n,
            forall|j: int| 0 <= j < i ==> s@[j] != ' ',
        decreases n - i,
    {
        if s.get_char(i) == ' ' {
            proof {
                lemma_spec_char_find(s@, ' ');
                let f = spec_char_find(s@, ' ');
                assert(f == i);
            }
            return s.substring_char(0, i).to_owned();
        }
        i = i + 1;
    }
    proof {
        lemma_spec_char_find(s@, ' ');
    }
    s.to_owned()
}

/// The part of `s` after its last space.
fn last_token(s: &str) -> (r: String)
    ensures
        r@ == spec_last_token(s@),
{
    let n = s.unicode_len();
    let mut i: usize = n;
    while i > 0
        invariant
            n == s@.len(),
            i <= n,
            forall|j: int| i <= j < n ==> s@[j] != ' ',
        decreases i,
    {
        if s.get_char(i - 1) == ' ' {
            proof {
                lemma_spec_char_rfind(s@, ' ');
                let f = spec_char_rfind(s@, ' ');
                assert(f == i - 1);
            }
            return s.substring_char(i, n).to_owned();
        }
        i = i - 1;
    }
    proof {
        lemma_spec_char_rfind(s@, ' ');
        assert(s@.subrange(0, s@.len() as int) =~= s@);
    }
    s.substring_char(0, n).to_owned()
}

/// The release-asset base URL for a release tag.
pub open spec fn spec_uefi_base_url(tag: Seq<char>) -> Seq<char> {
    "https://github.com/pbatard/UEFI-Shell/releases/download/"@ + tag
}

/// The static download link of a firmware-shell build: the release tag
/// and the shell version substituted into the fixed template, ending in
/// the release or debug artifact depending on the edition.
pub open spec fn spec_uefi_link(
    version_name: Seq<char>,
    release_name: Seq<char>,
    edition_name: Seq<char>,
) -> Seq<char> {
    let tag = spec_first_token(release_name);
    let shell_version = spec_last_token(version_name);
    let link_base = spec_uefi_base_url(tag) + "/UEFI-Shell-"@ + shell_version + "-"@ + tag;
    if contains_ci(edition_name, "release"@) {
        link_base + "-RELEASE.iso"@
    } else {
        link_base + "-DEBUG.iso"@
    }
}

/// Builds the static download link of a firmware-shell build.
pub fn uefi_link(version_name: &str, release_name: &str, edition_name: &str) -> (r: String)
    ensures
        r@ == spec_uefi_link(version_name@, release_name@, edition_name@),
{
    let tag = first_token(release_name);
    let shell_version = last_token(version_name);
    let mut u = "https://github.com/pbatard/UEFI-Shell/releases/download/".to_owned();
    u.append(tag.as_str());
    u.append("/UEFI-Shell-");
    u.append(shell_version.as_str());
    u.append("-");
    u.append(tag.as_str());
    if contains_str_ci(edition_name, "release") {
        u.append("-RELEASE.iso");
    } else {
        u.append("-DEBUG.iso");
    }
    u
}

/// The URL of the release's companion metadata document.
pub open spec fn spec_uefi_version_url(release_name: Seq<char>) -> Seq<char> {
    spec_uefi_base_url(spec_first_token(release_name)) + "/Version.xml"@
}

/// Builds the URL of the release's companion metadata document.
pub fn uefi_version_url(release_name: &str) -> (r: String)
    ensures
        r@ == spec_uefi_version_url(release_name@),
{
    let tag = first_token(release_name);
    let mut u = "https://github.com/pbatard/UEFI-Shell/releases/download/".to_owned();
    u.append(tag.as_str());
    u.append("/Version.xml");
    u
}

/// The fixed language record of the firmware-shell path.
pub fn uefi_language() -> (r: WindowsLanguage)
    ensures
        r.name@ == "en-us"@,
        r.display_name@ == "English (US)"@,
        r.data@.len() == 1,
        r.data@[0].session_index == 0,
        r.data@[0].sku_id@ == "1"@,
{
    let mut data: Vec<LanguageData> = Vec::new();
    data.push(LanguageData { session_index: 0, sku_id: "1".to_owned() });
    WindowsLanguage {
        name: "en-us".to_owned(),
        display_name: "English (US)".to_owned(),
        data,
    }
}

/// The opening architecture tag of the metadata document.
pub open spec fn open_tag() -> Seq<u8> {
    encode_utf8("<arch>"@)
}

/// The closing architecture tag of the metadata document.
pub open spec fn close_tag() -> Seq<u8> {
    encode_utf8("</arch>"@)
}

/// Every architecture listed in the metadata document: the contents of
/// each well-formed architecture element, in order. An opening tag whose
/// contents are empty or never closed is skipped over.
pub open spec fn spec_arch_captures(s: Seq<u8>) -> Seq<Seq<u8>>
    decreases s.len(),
{
    let o = spec_find(s, open_tag());
    if 0 <= o && o + open_tag().len() <= s.len() && open_tag().len() >= 1 {
        let rest = s.skip(o + open_tag().len() as int);
        let c = spec_find(rest, seq![60u8]);
        if 1 <= c && c + close_tag().len() <= rest.len() && rest.subrange(
            c,
            c + close_tag().len() as int,
        ) == close_tag() {
            seq![rest.subrange(0, c)] + spec_arch_captures(
                rest.skip(c + close_tag().len() as int),
            )
        } else {
            spec_arch_captures(s.skip(o + 1))
        }
    } else {
        Seq::empty()
    }
}

/// Collects every architecture element's contents from the metadata
/// document's bytes.
fn parse_uefi_architectures(s: &[u8]) -> (r: Vec<Vec<u8>>)
    ensures
        r@.map_values(|v: Vec<u8>| v@) == spec_arch_captures(s@),
{
    proof {
        reveal_strlit("<arch>");
        assert(is_ascii_chars("<arch>"@)) by {
            assert forall|i: int| 0 <= i < "<arch>"@.len() implies ("<arch>"@[i] as nat)
                < 128 by {}
        }
        is_ascii_chars_encode_utf8("<arch>"@);
        reveal_strlit("</arch>");
        assert(is_ascii_chars("</arch>"@)) by {
            assert forall|i: int| 0 <= i < "</arch>"@.len() implies ("</arch>"@[i] as nat)
                < 128 by {}
        }
        is_ascii_chars_encode_utf8("</arch>"@);
    }
    let open = "<arch>".as_bytes();
    let close = "</arch>".as_bytes();
    let mut lt: Vec<u8> = Vec::new();
    lt.push(60);
    proof {
        assert(lt@ =~= seq![60u8]);
    }
    let s_len = s.len();
    let mut out: Vec<Vec<u8>> = Vec::new();
    let mut pos: usize = 0;
    let mut done = false;
    proof {
        assert(s@.skip(0) =~= s@);
        assert(out@.map_values(|v: Vec<u8>| v@) + spec_arch_captures(s@) =~= spec_arch_captures(
            s@,
        ));
    }
    while !done
        invariant
            pos <= s@.len(),
            open@ == open_tag(),
            close@ == close_tag(),
            lt@ == seq![60u8],
            open@.len() == 6,
            close@.len() == 7,
            !done ==> spec_arch_captures(s@) == out@.map_values(|v: Vec<u8>| v@)
                + spec_arch_captures(s@.skip(pos as int)),
            done ==> out@.map_values(|v: Vec<u8>| v@) == spec_arch_captures(s@),
        decreases s@.len() - pos + (if done { 0int } else { 1int }),
    {
        let ghost t = s@.skip(pos as int);
        match find_from(s, open, pos) {
            None => {
                proof {
                    assert forall|k: int| !seq_matches_at(t, open@, k) by {
                        if 0 <= k {
                            lemma_matches_at_skip(s@, open@, pos as int, k + pos);
                            assert(!seq_matches_at(s@, open@, k + pos));
                        }
                    }
                    lemma_spec_find(t, open@);
                    if spec_find(t, open@) >= 0 {
                        assert(seq_matches_at(t, open@, spec_find(t, open@)));
                    }
                    assert(spec_arch_captures(t) =~= Seq::<Seq<u8>>::empty());
                    assert(out@.map_values(|v: Vec<u8>| v@) + spec_arch_captures(t)
                        =~= out@.map_values(|v: Vec<u8>| v@));
                }
                done = true;
            },
            Some(o) => {
                proof {
                    assert forall|k: int| 0 <= k implies (seq_matches_at(s@, open@, k + pos)
                        == seq_matches_at(t, open@, k)) by {
                        lemma_matches_at_skip(s@, open@, pos as int, k + pos);
                    }
                    assert(seq_matches_at(t, open@, o - pos));
                    assert forall|k: int| 0 <= k < o - pos implies !seq_matches_at(
                        t,
                        open@,
                        k,
                    ) by {
                        assert(!seq_matches_at(s@, open@, k + pos));
                    }
                    lemma_find_first(t, open@, o - pos);
                }
                let content = o + 6;
                let ghost rest = t.skip(o - pos + 6);
                proof {
                    assert(rest =~= s@.skip(content as int));
                }
                match find_from(s, lt.as_slice(), content) {
                    None => {
                        proof {
                            assert forall|k: int| !seq_matches_at(rest, lt@, k) by {
                                if 0 <= k {
                                    lemma_matches_at_skip(s@, lt@, content as int, k + content);
                                    assert(!seq_matches_at(s@, lt@, k + content));
                                }
                            }
                            lemma_spec_find(rest, lt@);
                            if spec_find(rest, lt@) >= 0 {
                                assert(seq_matches_at(rest, lt@, spec_find(rest, lt@)));
                            }
                            assert(spec_arch_captures(t) == spec_arch_captures(t.skip(
                                o - pos + 1,
                            )));
                            assert(t.skip(o - pos + 1) =~= s@.skip(o + 1));
                        }
                        pos = o + 1;
                    },
                    Some(ca) => {
                        proof {
                            assert forall|k: int| 0 <= k implies (seq_matches_at(
                                s@,
                                lt@,
                                k + content,
                            ) == seq_matches_at(rest, lt@, k)) by {
                                lemma_matches_at_skip(s@, lt@, content as int, k + content);
                            }
                            assert(seq_matches_at(rest, lt@, ca - content));
                            assert forall|k: int| 0 <= k < ca - content implies !seq_matches_at(
                                rest,
                                lt@,
                                k,
                            ) by {
                                assert(!seq_matches_at(s@, lt@, k + content));
                            }
                            lemma_find_first(rest, lt@, ca - content);
                        }
                        let c = ca - content;
                        let close_ok = if c >= 1 && s_len - ca >= 7 {
                            crate::text::occurs_at(s, close, ca)
                        } else {
                            false
                        };
                        if close_ok {
                            proof {
                                assert(rest.subrange(c as int, c + 7) =~= s@.subrange(
                                    ca as int,
                                    ca + 7,
                                ));
                                assert(rest.subrange(c as int, c + 7) == close_tag());
                            }
                            let mut cap: Vec<u8> = Vec::new();
                            push_range(&mut cap, s, content, ca);
                            proof {
                                assert(cap@ =~= rest.subrange(0, c as int));
                                assert(spec_arch_captures(t) == seq![rest.subrange(0, c as int)]
                                    + spec_arch_captures(rest.skip(c + 7)));
                                assert(rest.skip(c + 7) =~= s@.skip(ca + 7));
                            }
                            out.push(cap);
                            pos = ca + 7;
                            proof {
                                assert(out@.map_values(|v: Vec<u8>| v@) + spec_arch_captures(
                                    s@.skip(pos as int),
                                ) =~= spec_arch_captures(s@));
                            }
                        } else {
                            proof {
                                if c >= 1 && ca + 7 <= s_len {
                                    assert(rest.subrange(c as int, c + 7) =~= s@.subrange(
                                        ca as int,
                                        ca + 7,
                                    ));
                                } else if ca + 7 > s_len {
                                    assert(c + close_tag().len() > rest.len());
                                }
                                assert(spec_arch_captures(t) == spec_arch_captures(t.skip(
                                    o - pos + 1,
                                )));
                                assert(t.skip(o - pos + 1) =~= s@.skip(o + 1));
                            }
                            pos = o + 1;
                        }
                    },
                }
            },
        }
    }
    out
}

/// The parts from `i` on, each preceded by the list separator.
pub open spec fn spec_join_tail(parts: Seq<Seq<u8>>, i: int) -> Seq<u8>
    decreases parts.len() - i,
{
    if i < 0 || i >= parts.len() {
        Seq::empty()
    } else {
        encode_utf8(", "@) + parts[i] + spec_join_tail(parts, i + 1)
    }
}

/// The architecture names joined with a comma and a space.
pub open spec fn spec_join(parts: Seq<Seq<u8>>) -> Seq<u8> {
    if parts.len() == 0 {
        Seq::empty()
    } else {
        parts[0] + spec_join_tail(parts, 1)
    }
}

/// Joins the parts from `i` on, each preceded by the separator.
fn join_tail(parts: &Vec<Vec<u8>>, i: usize) -> (r: Vec<u8>)
    ensures
        r@ == spec_join_tail(parts@.map_values(|v: Vec<u8>| v@), i as int),
    decreases parts@.len() - i,
{
    proof {
        reveal_strlit(", ");
        assert(is_ascii_chars(", "@)) by {
            assert forall|i2: int| 0 <= i2 < ", "@.len() implies (", "@[i2] as nat) < 128 by {}
        }
        is_ascii_chars_encode_utf8(", "@);
    }
    if i >= parts.len() {
        Vec::new()
    } else {
        let sep = ", ".as_bytes();
        let mut r: Vec<u8> = Vec::new();
        push_range(&mut r, sep, 0, sep.len());
        let part = parts[i].as_slice();
        push_range(&mut r, part, 0, part.len());
        let rest = join_tail(parts, i + 1);
        push_range(&mut r, rest.as_slice(), 0, rest.len());
        proof {
            assert(sep@.subrange(0, sep@.len() as int) =~= sep@);
            assert(part@.subrange(0, part@.len() as int) =~= part@);
            assert(rest@.subrange(0, rest@.len() as int) =~= rest@);
            assert(r@ =~= spec_join_tail(parts@.map_values(|v: Vec<u8>| v@), i as int));
        }
        r
    }
}

/// Joins the captured architecture names with a comma and a space.
fn join_captures(parts: &Vec<Vec<u8>>) -> (r: Vec<u8>)
    ensures
        r@ == spec_join(parts@.map_values(|v: Vec<u8>| v@)),
{
    if parts.len() == 0 {
        Vec::new()
    } else {
        let mut r: Vec<u8> = Vec::new();
        let first = parts[0].as_slice();
        push_range(&mut r, first, 0, first.len());
        let rest = join_tail(parts, 1);
        push_range(&mut r, rest.as_slice(), 0, rest.len());
        proof {
            assert(first@.subrange(0, first@.len() as int) =~= first@);
            assert(rest@.subrange(0, rest@.len() as int) =~= rest@);
            assert(r@ =~= spec_join(parts@.map_values(|v: Vec<u8>| v@)));
        }
        r
    }
}

/// The displayed architecture list of a firmware-shell release: the
/// joined contents of the metadata document's architecture elements when
/// the document was fetched, lists at least one architecture, and the
/// joined list decodes as UTF-8 — and the fixed three-architecture
/// default otherwise.
pub open spec fn spec_uefi_arch_names(xml: Option<Seq<char>>) -> Seq<char> {
    match xml {
        Some(x) => {
            let caps = spec_arch_captures(encode_utf8(x));
            let joined = spec_join(caps);
            if caps.len() > 0 && valid_utf8(joined) {
                decode_utf8(joined)
            } else {
                "x64, ARM64, IA32"@
            }
        },
        None => "x64, ARM64, IA32"@,
    }
}

/// Resolves the firmware-shell architecture stage: one entry whose name
/// lists the supported architectures and whose URL is the static
/// download link.
pub fn get_uefi_shell_architectures(
    version_name: &str,
    release_name: &str,
    edition_name: &str,
    xml: Option<&str>,
) -> (r: Vec<WindowsArchitecture>)
    ensures
        r@.len() == 1,
        r@[0].url@ == spec_uefi_link(version_name@, release_name@, edition_name@),
        xml matches Some(x) ==> r@[0].name@ == spec_uefi_arch_names(Some(x@)),
        xml is None ==> r@[0].name@ == spec_uefi_arch_names(None),
{
    let link = uefi_link(version_name, release_name, edition_name);
    let name = match xml {
        Some(x) => {
            let caps = parse_uefi_architectures(x.as_bytes());
            if caps.len() > 0 {
                let joined = join_captures(&caps);
                match crate::text::string_from_utf8(joined) {
                    Some(s) => {
                        proof {
                            broadcast use vstd::utf8::encode_utf8_valid_utf8;
                            broadcast use vstd::utf8::encode_utf8_decode_utf8;

                        }
                        s
                    },
                    None => "x64, ARM64, IA32".to_owned(),
                }
            } else {
                "x64, ARM64, IA32".to_owned()
            }
        },
        None => "x64, ARM64, IA32".to_owned(),
    };
    let mut r: Vec<WindowsArchitecture> = Vec::new();
    r.push(WindowsArchitecture { name, url: link });
    r
}

} // verus!
