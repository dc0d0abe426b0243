//! Small self-contained helpers: size formatting, architecture naming,
//! locale-driven language selection, and filename extraction.

use vstd::prelude::*;

use crate::text::char_matches_at;
use crate::text::contains_ci;
use crate::text::contains_str_ci;
use crate::text::dec_str;
use crate::text::equal_ci;
use crate::text::equal_str_ci;
use crate::text::lemma_spec_char_rfind;
use crate::text::lemma_spec_char_rfind_pat;
use crate::text::spec_char_rfind;
use crate::text::spec_char_rfind_pat;
use crate::text::starts_with_ci;
use crate::text::starts_with_str_ci;
use crate::text::str_eq;
use crate::text::u64_to_string;

verus! {

/// The architecture name for a vendor download-type code:
/// 0 is x86, 1 is x64, 2 is ARM64, anything else is unknown.
pub open spec fn spec_arch_name(arch_type: u32) -> Seq<char> {
    if arch_type == 0 {
        "x86"@
    } else if arch_type == 1 {
        "x64"@
    } else if arch_type == 2 {
        "ARM64"@
    } else {
        "Unknown"@
    }
}

/// Maps a vendor download-type code to the formal architecture name.
pub fn get_arch_from_type(arch_type: u32) -> (r: String)
    ensures
        r@ == spec_arch_name(arch_type),
{
    if arch_type == 0 {
        "x86".to_owned()
    } else if arch_type == 1 {
        "x64".to_owned()
    } else if arch_type == 2 {
        "ARM64".to_owned()
    } else {
        "Unknown".to_owned()
    }
}

/// The formal name of a build-target label, as the toolchain writes it:
/// labels with a formal name are mapped, anything else passes through.
pub fn arch_label(target: &str) -> (r: String)
    ensures
        target@ == "x86_64"@ ==> r@ == "x64"@,
        target@ == "x86"@ ==> r@ == "x86"@,
        target@ == "aarch64"@ ==> r@ == "ARM64"@,
        target@ == "arm"@ ==> r@ == "ARM32"@,
        target@ != "x86_64"@ && target@ != "x86"@ && target@ != "aarch64"@ && target@ != "arm"@
            ==> r@ == target@,
{
    proof {
        reveal_strlit("x86_64");
        reveal_strlit("x86");
        reveal_strlit("aarch64");
        reveal_strlit("arm");
        assert("x86_64"@.len() == 6);
        assert("x86"@.len() == 3);
        assert("aarch64"@.len() == 7);
        assert("arm"@.len() == 3);
        assert("arm"@ != "x86"@) by {
            assert("arm"@[0] == 'a');
            assert("x86"@[0] == 'x');
        }
    }
    if str_eq(target, "x86_64") {
        "x64".to_owned()
    } else if str_eq(target, "x86") {
        "x86".to_owned()
    } else if str_eq(target, "aarch64") {
        "ARM64".to_owned()
    } else if str_eq(target, "arm") {
        "ARM32".to_owned()
    } else {
        target.to_owned()
    }
}

/// 1024 to the power `k`.
pub open spec fn spec_pow1024(k: nat) -> nat
    decreases k,
{
    if k == 0 {
        1
    } else {
        1024 * spec_pow1024((k - 1) as nat)
    }
}

/// How many times 1024 divides into `b` before the quotient drops below
/// 1024, capped at the last size unit.
pub open spec fn spec_unit_index(b: nat, k: nat) -> nat
    decreases 5 - k,
{
    if k >= 5 || b < 1024 {
        k
    } else {
        spec_unit_index(b / 1024, (k + 1) as nat)
    }
}

/// The unit suffix of each size unit.
pub open spec fn spec_unit_suffix(k: nat) -> Seq<char> {
    if k == 0 {
        " B"@
    } else if k == 1 {
        " KB"@
    } else if k == 2 {
        " MB"@
    } else if k == 3 {
        " GB"@
    } else if k == 4 {
        " TB"@
    } else {
        " PB"@
    }
}

/// A byte count written with one decimal digit in the largest unit it
/// reaches, rounding the decimal half to even; plain bytes are written
/// without a decimal.
pub open spec fn spec_bytes_human(bytes: nat) -> Seq<char> {
    let k = spec_unit_index(bytes, 0);
    if k == 0 {
        dec_str(bytes) + " B"@
    } else {
        let d = spec_pow1024(k);
        let whole = bytes / d;
        let num = (bytes % d) * 10;
        let digit0 = num / d;
        let rem2 = num % d;
        let digit = if 2 * rem2 > d || (2 * rem2 == d && digit0 % 2 == 1) {
            (digit0 + 1) as nat
        } else {
            digit0
        };
        let w = if digit == 10 {
            (whole + 1) as nat
        } else {
            whole
        };
        let dg = if digit == 10 {
            0
        } else {
            digit as nat
        };
        dec_str(w) + "."@ + dec_str(dg) + spec_unit_suffix(k)
    }
}

/// The unit suffix used for a size unit.
fn unit_suffix(k: u32) -> (r: &'static str)
    ensures
        r@ == spec_unit_suffix(k as nat),
{
    if k == 0 {
        " B"
    } else if k == 1 {
        " KB"
    } else if k == 2 {
        " MB"
    } else if k == 3 {
        " GB"
    } else if k == 4 {
        " TB"
    } else {
        " PB"
    }
}

/// Writes a byte count in human-readable form, one decimal digit in the
/// largest unit reached.
pub fn bytes_to_human_readable(bytes: u64) -> (r: String)
    ensures
        r@ == spec_bytes_human(bytes as nat),
{
    let mut k: u32 = 0;
    let mut d: u64 = 1;
    while k < 5 && bytes >= d * 1024
        invariant
            k <= 5,
            d == spec_pow1024(k as nat),
            (if k == 0 {
                d == 1
            } else if k == 1 {
                d == 0x400
            } else if k == 2 {
                d == 0x100000
            } else if k == 3 {
                d == 0x40000000
            } else if k == 4 {
                d == 0x10000000000
            } else {
                d == 0x4000000000000
            }),
            spec_unit_index(bytes as nat, 0) == spec_unit_index((bytes / d) as nat, k as nat),
        decreases 5 - k,
    {
        proof {
            assert((bytes / d) as nat / 1024 == bytes as nat / ((d * 1024) as nat)) by {
                vstd::arithmetic::div_mod::lemma_div_denominator(bytes as int, d as int, 1024);
            }
            assert((bytes / d) as nat >= 1024) by {
                vstd::arithmetic::div_mod::lemma_div_is_ordered(
                    (d * 1024) as int,
                    bytes as int,
                    d as int,
                );
                vstd::arithmetic::div_mod::lemma_div_multiples_vanish(1024, d as int);
            }
        }
        d = d * 1024;
        k = k + 1;
    }
    proof {
        if bytes < d * 1024 {
            assert(((bytes / d) as nat) < 1024) by {
                vstd::arithmetic::div_mod::lemma_multiply_divide_lt(bytes as int, d as int, 1024);
            }
        }
        assert(spec_unit_index((bytes / d) as nat, k as nat) == k as nat);
    }
    if k == 0 {
        let mut m = u64_to_string(bytes);
        m.append(" B");
        m
    } else {
        let whole = bytes / d;
        let num = (bytes % d) * 10;
        let digit0 = num / d;
        let rem2 = num % d;
        let rounds_up = 2 * rem2 > d || (2 * rem2 == d && digit0 % 2 == 1);
        let digit = if rounds_up {
            digit0 + 1
        } else {
            digit0
        };
        let w = if digit == 10 {
            whole + 1
        } else {
            whole
        };
        let dg = if digit == 10 {
            0
        } else {
            digit
        };
        let mut m = u64_to_string(w);
        m.append(".");
        let frac = u64_to_string(dg);
        m.append(frac.as_str());
        m.append(unit_suffix(k));
        m
    }
}

/// The locale-to-language preference table: whether a discovered language
/// name is the one a system locale asks for.
pub open spec fn spec_select_language(lang: Seq<char>, locale: Seq<char>) -> bool {
    ||| starts_with_ci(locale, "ar"@) && contains_ci(lang, "arabic"@)
    ||| equal_ci(locale, "pt-br"@) && contains_ci(lang, "brazil"@)
    ||| starts_with_ci(locale, "bg"@) && contains_ci(lang, "bulgar"@)
    ||| equal_ci(locale, "zh-cn"@) && contains_ci(lang, "chinese"@) && contains_ci(lang, "simp"@)
    ||| equal_ci(locale, "zh-tw"@) && contains_ci(lang, "chinese"@) && contains_ci(lang, "trad"@)
    ||| starts_with_ci(locale, "hr"@) && contains_ci(lang, "croat"@)
    ||| starts_with_ci(locale, "cs"@) && contains_ci(lang, "czech"@)
    ||| starts_with_ci(locale, "da"@) && contains_ci(lang, "danish"@)
    ||| starts_with_ci(locale, "nl"@) && contains_ci(lang, "dutch"@)
    ||| equal_ci(locale, "en-us"@) && equal_ci(lang, "english"@)
    ||| starts_with_ci(locale, "en"@) && contains_ci(lang, "english"@) && (contains_ci(
        lang,
        "inter"@,
    ) || contains_ci(lang, "kingdom"@))
    ||| starts_with_ci(locale, "et"@) && contains_ci(lang, "eston"@)
    ||| starts_with_ci(locale, "fi"@) && contains_ci(lang, "finn"@)
    ||| equal_ci(locale, "fr-ca"@) && contains_ci(lang, "french"@) && contains_ci(lang, "canad"@)
    ||| starts_with_ci(locale, "fr"@) && equal_ci(lang, "french"@)
    ||| starts_with_ci(locale, "de"@) && contains_ci(lang, "german"@)
    ||| starts_with_ci(locale, "el"@) && contains_ci(lang, "greek"@)
    ||| starts_with_ci(locale, "he"@) && contains_ci(lang, "hebrew"@)
    ||| starts_with_ci(locale, "hu"@) && contains_ci(lang, "hungar"@)
    ||| starts_with_ci(locale, "id"@) && contains_ci(lang, "indones"@)
    ||| starts_with_ci(locale, "it"@) && contains_ci(lang, "italia"@)
    ||| starts_with_ci(locale, "ja"@) && contains_ci(lang, "japan"@)
    ||| starts_with_ci(locale, "ko"@) && contains_ci(lang, "korea"@)
    ||| starts_with_ci(locale, "lv"@) && contains_ci(lang, "latvia"@)
    ||| starts_with_ci(locale, "lt"@) && contains_ci(lang, "lithuania"@)
    ||| starts_with_ci(locale, "ms"@) && contains_ci(lang, "malay"@)
    ||| starts_with_ci(locale, "nb"@) && contains_ci(lang, "norw"@)
    ||| starts_with_ci(locale, "fa"@) && contains_ci(lang, "persia"@)
    ||| starts_with_ci(locale, "pl"@) && contains_ci(lang, "polish"@)
    ||| equal_ci(locale, "pt-pt"@) && equal_ci(lang, "portuguese"@)
    ||| starts_with_ci(locale, "ro"@) && contains_ci(lang, "romania"@)
    ||| starts_with_ci(locale, "ru"@) && contains_ci(lang, "russia"@)
    ||| starts_with_ci(locale, "sr"@) && contains_ci(lang, "serbia"@)
    ||| starts_with_ci(locale, "sk"@) && contains_ci(lang, "slovak"@)
    ||| starts_with_ci(locale, "sl"@) && contains_ci(lang, "slovenia"@)
    ||| equal_ci(locale, "es-es"@) && equal_ci(lang, "spanish"@)
    ||| starts_with_ci(locale, "es"@) && !equal_ci(locale, "es-es"@) && contains_ci(
        lang,
        "spanish"@,
    )
    ||| starts_with_ci(locale, "sv"@) && contains_ci(lang, "swed"@)
    ||| starts_with_ci(locale, "th"@) && contains_ci(lang, "thai"@)
    ||| starts_with_ci(locale, "tr"@) && contains_ci(lang, "turk"@)
    ||| starts_with_ci(locale, "uk"@) && contains_ci(lang, "ukrain"@)
    ||| starts_with_ci(locale, "vi"@) && contains_ci(lang, "vietnam"@)
}

/// Whether a discovered language name is the one the system locale asks
/// for, by the fixed preference table.
pub fn select_language_by_locale(language_name: &str, system_locale: &str) -> (r: bool)
    ensures
        r == spec_select_language(language_name@, system_locale@),
{
    let lang = language_name;
    let locale = system_locale;
    (starts_with_str_ci(locale, "ar") && contains_str_ci(lang, "arabic")) || (equal_str_ci(
        locale,
        "pt-br",
    ) && contains_str_ci(lang, "brazil")) || (starts_with_str_ci(locale, "bg")
        && contains_str_ci(lang, "bulgar")) || (equal_str_ci(locale, "zh-cn") && contains_str_ci(
        lang,
        "chinese",
    ) && contains_str_ci(lang, "simp")) || (equal_str_ci(locale, "zh-tw") && contains_str_ci(
        lang,
        "chinese",
    ) && contains_str_ci(lang, "trad")) || (starts_with_str_ci(locale, "hr") && contains_str_ci(
        lang,
        "croat",
    )) || (starts_with_str_ci(locale, "cs") && contains_str_ci(lang, "czech")) || (
    starts_with_str_ci(locale, "da") && contains_str_ci(lang, "danish")) || (starts_with_str_ci(
        locale,
        "nl",
    ) && contains_str_ci(lang, "dutch")) || (equal_str_ci(locale, "en-us") && equal_str_ci(
        lang,
        "english",
    )) || (starts_with_str_ci(locale, "en") && contains_str_ci(lang, "english") && (
    contains_str_ci(lang, "inter") || contains_str_ci(lang, "kingdom"))) || (starts_with_str_ci(
        locale,
        "et",
    ) && contains_str_ci(lang, "eston")) || (starts_with_str_ci(locale, "fi") && contains_str_ci(
        lang,
        "finn",
    )) || (equal_str_ci(locale, "fr-ca") && contains_str_ci(lang, "french") && contains_str_ci(
        lang,
        "canad",
    )) || (starts_with_str_ci(locale, "fr") && equal_str_ci(lang, "french")) || (
    starts_with_str_ci(locale, "de") && contains_str_ci(lang, "german")) || (starts_with_str_ci(
        locale,
        "el",
    ) && contains_str_ci(lang, "greek")) || (starts_with_str_ci(locale, "he") && contains_str_ci(
        lang,
        "hebrew",
    )) || (starts_with_str_ci(locale, "hu") && contains_str_ci(lang, "hungar")) || (
    starts_with_str_ci(locale, "id") && contains_str_ci(lang, "indones")) || (starts_with_str_ci(
        locale,
        "it",
    ) && contains_str_ci(lang, "italia")) || (starts_with_str_ci(locale, "ja") && contains_str_ci(
        lang,
        "japan",
    )) || (starts_with_str_ci(locale, "ko") && contains_str_ci(lang, "korea")) || (
    starts_with_str_ci(locale, "lv") && contains_str_ci(lang, "latvia")) || (starts_with_str_ci(
        locale,
        "lt",
    ) && contains_str_ci(lang, "lithuania")) || (starts_with_str_ci(locale, "ms")
        && contains_str_ci(lang, "malay")) || (starts_with_str_ci(locale, "nb")
        && contains_str_ci(lang, "norw")) || (starts_with_str_ci(locale, "fa") && contains_str_ci(
        lang,
        "persia",
    )) || (starts_with_str_ci(locale, "pl") && contains_str_ci(lang, "polish")) || (equal_str_ci(
        locale,
        "pt-pt",
    ) && equal_str_ci(lang, "portuguese")) || (starts_with_str_ci(locale, "ro")
        && contains_str_ci(lang, "romania")) || (starts_with_str_ci(locale, "ru")
        && contains_str_ci(lang, "russia")) || (starts_with_str_ci(locale, "sr")
        && contains_str_ci(lang, "serbia")) || (starts_with_str_ci(locale, "sk")
        && contains_str_ci(lang, "slovak")) || (starts_with_str_ci(locale, "sl")
        && contains_str_ci(lang, "slovenia")) || (equal_str_ci(locale, "es-es") && equal_str_ci(
        lang,
        "spanish",
    )) || (starts_with_str_ci(locale, "es") && !equal_str_ci(locale, "es-es") && contains_str_ci(
        lang,
        "spanish",
    )) || (starts_with_str_ci(locale, "sv") && contains_str_ci(lang, "swed")) || (
    starts_with_str_ci(locale, "th") && contains_str_ci(lang, "thai")) || (starts_with_str_ci(
        locale,
        "tr",
    ) && contains_str_ci(lang, "turk")) || (starts_with_str_ci(locale, "uk") && contains_str_ci(
        lang,
        "ukrain",
    )) || (starts_with_str_ci(locale, "vi") && contains_str_ci(lang, "vietnam"))
}

/// Whether `c` is a decimal digit.
pub open spec fn is_digit(c: char) -> bool {
    48 <= c as u32 <= 57
}

/// The value of a decimal digit.
pub open spec fn digit_val(c: char) -> nat
    recommends
        is_digit(c),
{
    ((c as u32) - 48) as nat
}

/// Every character of `s` is a decimal digit.
pub open spec fn all_digits(s: Seq<char>) -> bool {
    forall|i: int| 0 <= i < s.len() ==> is_digit(s[i])
}

/// The number a string of decimal digits denotes.
pub open spec fn dec_value(s: Seq<char>) -> nat
    decreases s.len(),
{
    if s.len() == 0 {
        0
    } else {
        dec_value(s.take(s.len() - 1)) * 10 + digit_val(s[s.len() - 1])
    }
}

/// A longer digit string never denotes a smaller number.
proof fn lemma_dec_value_prefix_le(s: Seq<char>, i: int, j: int)
    requires
        0 <= i <= j <= s.len(),
    ensures
        dec_value(s.subrange(0, i)) <= dec_value(s.subrange(0, j)),
    decreases j - i,
{
    if i < j {
        lemma_dec_value_prefix_le(s, i, j - 1);
        let p = s.subrange(0, j);
        assert(p.take(p.len() - 1) =~= s.subrange(0, j - 1));
    }
}

/// Reads a whole string of decimal digits as a number: the value when
/// the string is non-empty, all digits, and the value fits; nothing
/// otherwise.
pub fn parse_u64(s: &str) -> (r: Option<u64>)
    ensures
        match r {
            Some(n) => s@.len() > 0 && all_digits(s@) && n == dec_value(s@),
            None => s@.len() == 0 || !all_digits(s@) || dec_value(s@) > u64::MAX,
        },
{
    let n = s.unicode_len();
    if n == 0 {
        return None;
    }
    let mut acc: u64 = 0;
    let mut i: usize = 0;
    while i < n
        invariant
            n == s@.len(),
            i <= n,
            acc == dec_value(s@.subrange(0, i as int)),
            forall|k: int| 0 <= k < i ==> is_digit(s@[k]),
        decreases n - i,
    {
        let c = s.get_char(i);
        let cv = c as u32;
        if cv < 48 || cv > 57 {
            return None;
        }
        let d = (cv - 48) as u64;
        let limit = (u64::MAX - d) / 10;
        proof {
            vstd::arithmetic::div_mod::lemma_fundamental_div_mod((u64::MAX - d) as int, 10);
            assert(s@.subrange(0, i + 1).take(i as int) =~= s@.subrange(0, i as int));
        }
        if acc > limit {
            proof {
                assert(dec_value(s@.subrange(0, i + 1)) > u64::MAX);
                lemma_dec_value_prefix_le(s@, i + 1, n as int);
                assert(s@.subrange(0, n as int) =~= s@);
            }
            return None;
        }
        acc = acc * 10 + d;
        i = i + 1;
    }
    proof {
        assert(s@.subrange(0, n as int) =~= s@);
    }
    Some(acc)
}

/// The artifact filename inside a URL: the characters between the last
/// separator that leaves room for a name and the last `.iso`, that
/// suffix included; nothing when the URL has no such shape.
pub open spec fn spec_extract_filename(url: Seq<char>) -> Option<Seq<char>> {
    let e = spec_char_rfind_pat(url, ".iso"@);
    if e >= 1 {
        let p = spec_char_rfind(url.take(e - 1), '/');
        if p >= 0 {
            Some(url.subrange(p + 1, e + 4))
        } else {
            None
        }
    } else {
        None
    }
}

/// Whether `.iso` stands at character position `i` of `s`.
fn iso_at(s: &str, i: usize) -> (r: bool)
    requires
        i + 4 <= s@.len(),
        s@.len() <= usize::MAX,
    ensures
        r == char_matches_at(s@, ".iso"@, i as int),
{
    proof {
        reveal_strlit(".iso");
    }
    let r = s.get_char(i) == '.' && s.get_char(i + 1) == 'i' && s.get_char(i + 2) == 's'
        && s.get_char(i + 3) == 'o';
    proof {
        if r {
            assert(s@.subrange(i as int, i + 4) =~= ".iso"@);
        } else {
            if s@.subrange(i as int, i + 4) == ".iso"@ {
                assert(s@[i as int] == ".iso"@[0]);
                assert(s@[i + 1] == ".iso"@[1]);
                assert(s@[i + 2] == ".iso"@[2]);
                assert(s@[i + 3] == ".iso"@[3]);
            }
        }
    }
    r
}

/// Extracts the filename once the last `.iso` has been located at `e`.
fn filename_before(url: &str, e: usize, n: usize) -> (r: Option<String>)
    requires
        n == url@.len(),
        char_matches_at(url@, ".iso"@, e as int),
        forall|j: int| e < j ==> !char_matches_at(url@, ".iso"@, j),
    ensures
        match r {
            Some(f) => spec_extract_filename(url@) matches Some(m) && m == f@,
            None => spec_extract_filename(url@) is None,
        },
{
    proof {
        reveal_strlit(".iso");
        lemma_spec_char_rfind_pat(url@, ".iso"@);
        let f = spec_char_rfind_pat(url@, ".iso"@);
        if f < 0 {
            assert(!char_matches_at(url@, ".iso"@, e as int));
        }
        assert(f == e);
    }
    if e < 1 {
        return None;
    }
    let ghost prefix = url@.take(e - 1);
    let mut t: usize = e - 1;
    while t > 0
        invariant
            1 <= e,
            e + 4 <= n,
            t <= e - 1,
            forall|j: int| t <= j < e - 1 ==> prefix[j] != '/',
        decreases t,
    {
        if url.get_char(t - 1) == '/' {
            proof {
                lemma_spec_char_rfind(prefix, '/');
                let p = spec_char_rfind(prefix, '/');
                assert(prefix[t - 1] == '/');
                assert(p == t - 1);
            }
            let f = url.substring_char(t, e + 4);
            proof {
                assert(url@.subrange(t as int, e + 4) == spec_extract_filename(url@)->Some_0);
            }
            return Some(f.to_owned());
        }
        t = t - 1;
    }
    proof {
        lemma_spec_char_rfind(prefix, '/');
        if spec_char_rfind(prefix, '/') >= 0 {
            assert(prefix[spec_char_rfind(prefix, '/')] == '/');
        }
    }
    None
}

/// Extracts the artifact filename from a URL.
pub fn extract_filename_from_url(url: &str) -> (r: Option<String>)
    ensures
        match r {
            Some(f) => spec_extract_filename(url@) matches Some(m) && m == f@,
            None => spec_extract_filename(url@) is None,
        },
{
    proof {
        reveal_strlit(".iso");
    }
    let n = url.unicode_len();
    if n < 4 {
        proof {
            lemma_spec_char_rfind_pat(url@, ".iso"@);
        }
        return None;
    }
    let mut i: usize = n - 3;
    while i > 0
        invariant
            n == url@.len(),
            4 <= n,
            i <= n - 3,
            forall|j: int| i <= j ==> !char_matches_at(url@, ".iso"@, j),
        decreases i,
    {
        if iso_at(url, i - 1) {
            return filename_before(url, i - 1, n);
        }
        i = i - 1;
    }
    proof {
        lemma_spec_char_rfind_pat(url@, ".iso"@);
        if spec_char_rfind_pat(url@, ".iso"@) >= 0 {
            assert(char_matches_at(url@, ".iso"@, spec_char_rfind_pat(url@, ".iso"@)));
        }
    }
    None
}

} // verus!
