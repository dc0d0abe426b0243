//! Byte-level text primitives: ASCII case folding and substring search.
//!
//! Catalog and response matching throughout the crate is case-insensitive
//! substring matching. It is specified here over the UTF-8 bytes of the
//! strings involved: ASCII letters are folded to lower case and all other
//! bytes are left alone, so multi-byte characters are compared verbatim.

use vstd::prelude::*;

verus! {

/// An ASCII upper-case letter folded to lower case; any other byte unchanged.
pub open spec fn lower_byte(b: u8) -> u8 {
    if 65 <= b && b <= 90 {
        (b + 32) as u8
    } else {
        b
    }
}

/// Byte-wise ASCII lower-casing of a byte sequence.
pub open spec fn lower_bytes(s: Seq<u8>) -> Seq<u8> {
    s.map_values(|b: u8| lower_byte(b))
}

/// `needle` occurs in `hay` starting at position `i`.
pub open spec fn seq_matches_at(hay: Seq<u8>, needle: Seq<u8>, i: int) -> bool {
    &&& 0 <= i
    &&& i + needle.len() <= hay.len()
    &&& hay.subrange(i, i + needle.len()) == needle
}

/// `needle` occurs somewhere in `hay`.
pub open spec fn contains_seq(hay: Seq<u8>, needle: Seq<u8>) -> bool {
    exists|i: int| seq_matches_at(hay, needle, i)
}

/// Case-insensitive substring match over the UTF-8 bytes of two strings.
pub open spec fn contains_ci(hay: Seq<char>, needle: Seq<char>) -> bool {
    contains_seq(lower_bytes(vstd::utf8::encode_utf8(hay)), lower_bytes(vstd::utf8::encode_utf8(needle)))
}

/// Case-insensitive equality of two strings, over their UTF-8 bytes.
pub open spec fn equal_ci(a: Seq<char>, b: Seq<char>) -> bool {
    lower_bytes(vstd::utf8::encode_utf8(a)) == lower_bytes(vstd::utf8::encode_utf8(b))
}

/// Folds every ASCII upper-case letter of `s` to lower case.
pub fn lower_vec(s: &[u8]) -> (r: Vec<u8>)
    ensures
        r@ == lower_bytes(s@),
{
    let mut r: Vec<u8> = Vec::new();
    let mut i: usize = 0;
    while i < s.len()
        invariant
            i <= s@.len(),
            r@ =~= lower_bytes(s@.subrange(0, i as int)),
        decreases s@.len() - i,
    {
        let b = s[i];
        if 65 <= b && b <= 90 {
            r.push(b + 32);
        } else {
            r.push(b);
        }
        i = i + 1;
        proof {
            assert(s@.subrange(0, i as int) =~= s@.subrange(0, i - 1) + seq![s@[i - 1]]);
            assert(r@ =~= lower_bytes(s@.subrange(0, i as int)));
        }
    }
    proof {
        assert(s@.subrange(0, s@.len() as int) =~= s@);
    }
    r
}

/// Whether `needle` occurs in `hay` at position `i`.
fn matches_at(hay: &[u8], needle: &[u8], i: usize) -> (r: bool)
    requires
        i + needle@.len() <= hay@.len(),
    ensures
        r == seq_matches_at(hay@, needle@, i as int),
{
    let hay_len = hay.len();
    let mut j: usize = 0;
    while j < needle.len()
        invariant
            i + needle@.len() <= hay@.len(),
            hay_len == hay@.len(),
            j <= needle@.len(),
            forall|k: int| 0 <= k < j ==> hay@[i + k] == needle@[k],
        decreases needle@.len() - j,
    {
        if hay[i + j] != needle[j] {
            proof {
                assert(hay@.subrange(i as int, i + needle@.len())[j as int] != needle@[j as int]);
            }
            return false;
        }
        j = j + 1;
    }
    proof {
        assert(hay@.subrange(i as int, i + needle@.len()) =~= needle@);
    }
    true
}

/// Whether `needle` occurs in `hay` at position `i`.
pub fn occurs_at(hay: &[u8], needle: &[u8], i: usize) -> (r: bool)
    requires
        i + needle@.len() <= hay@.len(),
    ensures
        r == seq_matches_at(hay@, needle@, i as int),
{
    matches_at(hay, needle, i)
}

/// Relies on `String::from_utf8`: it succeeds exactly on valid UTF-8, and
/// the returned string's bytes are the input bytes.
#[verifier::external_body]
pub(crate) fn string_from_utf8(v: Vec<u8>) -> (r: Option<String>)
    ensures
        match r {
            Some(s) => vstd::utf8::encode_utf8(s@) == v@,
            None => !vstd::utf8::valid_utf8(v@),
        },
{
    String::from_utf8(v).ok()
}

/// Finds the first position at which `needle` occurs in `hay`.
pub fn find_sub(hay: &[u8], needle: &[u8]) -> (r: Option<usize>)
    ensures
        match r {
            Some(i) => seq_matches_at(hay@, needle@, i as int) && forall|j: int|
                0 <= j < i ==> !seq_matches_at(hay@, needle@, j),
            None => !contains_seq(hay@, needle@),
        },
{
    if needle.len() > hay.len() {
        return None;
    }
    if needle.len() == 0 {
        proof {
            assert(hay@.subrange(0, 0) =~= needle@);
        }
        return Some(0);
    }
    let last = hay.len() - needle.len();
    let mut i: usize = 0;
    while i <= last
        invariant
            i <= last + 1,
            forall|j: int| 0 <= j < i ==> !seq_matches_at(hay@, needle@, j),
        decreases last - i + 1,
    {
        if matches_at(hay, needle, i) {
            return Some(i);
        }
        i = i + 1;
    }
    proof {
        assert forall|j: int| !seq_matches_at(hay@, needle@, j) by {
            if seq_matches_at(hay@, needle@, j) {
                assert(0 <= j <= last);
            }
        }
    }
    None
}

/// Whether `needle` occurs anywhere in `hay`.
pub fn contains_sub(hay: &[u8], needle: &[u8]) -> (r: bool)
    ensures
        r == contains_seq(hay@, needle@),
{
    match find_sub(hay, needle) {
        Some(_) => true,
        None => false,
    }
}

/// Case-insensitive substring match: does `hay` contain `needle`,
/// ignoring ASCII case?
pub fn contains_str_ci(hay: &str, needle: &str) -> (r: bool)
    ensures
        r == contains_ci(hay@, needle@),
{
    let h = lower_vec(hay.as_bytes());
    let n = lower_vec(needle.as_bytes());
    contains_sub(h.as_slice(), n.as_slice())
}

/// Case-insensitive equality: are `a` and `b` the same string,
/// ignoring ASCII case?
pub fn equal_str_ci(a: &str, b: &str) -> (r: bool)
    ensures
        r == equal_ci(a@, b@),
{
    let fa = lower_vec(a.as_bytes());
    let fb = lower_vec(b.as_bytes());
    if fa.len() != fb.len() {
        return false;
    }
    let mut i: usize = 0;
    let ghost la = lower_bytes(vstd::utf8::encode_utf8(a@));
    let ghost lb = lower_bytes(vstd::utf8::encode_utf8(b@));
    while i < fa.len()
        invariant
            fa@ == la,
            fb@ == lb,
            la.len() == lb.len(),
            i <= la.len(),
            forall|k: int| 0 <= k < i ==> la[k] == lb[k],
        decreases fa@.len() - i,
    {
        if fa[i] != fb[i] {
            proof {
                assert(la[i as int] != lb[i as int]);
            }
            return false;
        }
        i = i + 1;
    }
    proof {
        assert(la =~= lb);
    }
    true
}

/// The position of the first occurrence of `pat` in `s`, or `-1` when
/// there is none.
pub open spec fn spec_find(s: Seq<u8>, pat: Seq<u8>) -> int
    decreases s.len(),
{
    if pat.len() > s.len() {
        -1
    } else if s.subrange(0, pat.len() as int) == pat {
        0
    } else if s.len() == 0 {
        -1
    } else {
        let r = spec_find(s.skip(1), pat);
        if r < 0 {
            -1
        } else {
            r + 1
        }
    }
}

/// `spec_find` returns the first match position, and `-1` exactly when
/// there is no match.
pub proof fn lemma_spec_find(s: Seq<u8>, pat: Seq<u8>)
    ensures
        spec_find(s, pat) >= 0 ==> seq_matches_at(s, pat, spec_find(s, pat)) && (forall|j: int|
            0 <= j < spec_find(s, pat) ==> !seq_matches_at(s, pat, j)),
        spec_find(s, pat) < 0 ==> !contains_seq(s, pat),
        spec_find(s, pat) >= -1,
    decreases s.len(),
{
    if pat.len() > s.len() {
        assert forall|j: int| !seq_matches_at(s, pat, j) by {}
        assert(!contains_seq(s, pat));
    } else if s.subrange(0, pat.len() as int) == pat {
        assert(seq_matches_at(s, pat, 0));
    } else if s.len() == 0 {
        assert(s.subrange(0, pat.len() as int) =~= pat);
    } else {
        lemma_spec_find(s.skip(1), pat);
        assert forall|j: int| 1 <= j implies (seq_matches_at(s, pat, j) == seq_matches_at(
            s.skip(1),
            pat,
            j - 1,
        )) by {
            if j + pat.len() <= s.len() {
                assert(s.subrange(j, j + pat.len() as int) =~= s.skip(1).subrange(
                    j - 1,
                    j - 1 + pat.len() as int,
                ));
            }
        }
        let r = spec_find(s.skip(1), pat);
        if r < 0 {
            assert forall|j: int| !seq_matches_at(s, pat, j) by {
                if j >= 1 {
                    assert(!contains_seq(s.skip(1), pat));
                    assert(!seq_matches_at(s.skip(1), pat, j - 1));
                }
            }
        }
    }
}

/// A position that matches and has no earlier match is what `spec_find`
/// returns.
pub proof fn lemma_find_first(s: Seq<u8>, pat: Seq<u8>, k: int)
    requires
        seq_matches_at(s, pat, k),
        forall|j: int| 0 <= j < k ==> !seq_matches_at(s, pat, j),
    ensures
        spec_find(s, pat) == k,
{
    lemma_spec_find(s, pat);
    let f = spec_find(s, pat);
    if f < 0 {
        assert(contains_seq(s, pat));
    }
}

/// A match inside the suffix `s.skip(pos)` is a match of `s`, shifted.
pub proof fn lemma_matches_at_skip(s: Seq<u8>, pat: Seq<u8>, pos: int, j: int)
    requires
        0 <= pos <= s.len(),
        pos <= j,
    ensures
        seq_matches_at(s, pat, j) == seq_matches_at(s.skip(pos), pat, j - pos),
{
    if j + pat.len() <= s.len() {
        assert(s.subrange(j, j + pat.len() as int) =~= s.skip(pos).subrange(
            j - pos,
            j - pos + pat.len() as int,
        ));
    }
}

/// Finds the first occurrence of `needle` in `hay` at or after `from`.
pub fn find_from(hay: &[u8], needle: &[u8], from: usize) -> (r: Option<usize>)
    requires
        from <= hay@.len(),
        needle@.len() >= 1,
    ensures
        match r {
            Some(i) => from <= i && seq_matches_at(hay@, needle@, i as int) && forall|j: int|
                from <= j < i ==> !seq_matches_at(hay@, needle@, j),
            None => forall|j: int| from <= j ==> !seq_matches_at(hay@, needle@, j),
        },
{
    if needle.len() > hay.len() {
        return None;
    }
    let last = hay.len() - needle.len();
    if from > last {
        return None;
    }
    let mut i: usize = from;
    while i <= last
        invariant
            from <= i <= last + 1,
            forall|j: int| from <= j < i ==> !seq_matches_at(hay@, needle@, j),
        decreases last - i + 1,
    {
        if matches_at(hay, needle, i) {
            return Some(i);
        }
        i = i + 1;
    }
    None
}

/// Appends `s[from..to]` to `out`.
pub fn push_range(out: &mut Vec<u8>, s: &[u8], from: usize, to: usize)
    requires
        from <= to <= s@.len(),
    ensures
        final(out)@ == old(out)@ + s@.subrange(from as int, to as int),
{
    let mut t: usize = from;
    while t < to
        invariant
            from <= t <= to,
            out@ =~= old(out)@ + s@.subrange(from as int, t as int),
        decreases to - t,
    {
        out.push(s[t]);
        proof {
            assert(s@.subrange(from as int, t + 1) =~= s@.subrange(from as int, t as int)
                + seq![s@[t as int]]);
        }
        t = t + 1;
    }
    proof {
        assert(out@ =~= old(out)@ + s@.subrange(from as int, to as int));
    }
}

/// `s` with every occurrence of `pat` replaced by `rep`, scanning left to
/// right over non-overlapping occurrences.
pub open spec fn spec_replace_all(s: Seq<u8>, pat: Seq<u8>, rep: Seq<u8>) -> Seq<u8>
    decreases s.len(),
{
    if pat.len() == 0 {
        s
    } else {
        let f = spec_find(s, pat);
        if 0 <= f && f + pat.len() <= s.len() {
            s.subrange(0, f) + rep + spec_replace_all(s.skip(f + pat.len() as int), pat, rep)
        } else {
            s
        }
    }
}

/// Replaces every occurrence of `pat` in `s` by `rep`.
pub fn replace_all(s: &[u8], pat: &[u8], rep: &[u8]) -> (r: Vec<u8>)
    requires
        pat@.len() >= 1,
    ensures
        r@ == spec_replace_all(s@, pat@, rep@),
{
    let s_len = s.len();
    let mut out: Vec<u8> = Vec::new();
    let mut pos: usize = 0;
    let mut done = false;
    proof {
        assert(s@.skip(0) =~= s@);
        assert(out@ + spec_replace_all(s@, pat@, rep@) =~= spec_replace_all(s@, pat@, rep@));
    }
    while !done
        invariant
            pos <= s@.len(),
            !done ==> spec_replace_all(s@, pat@, rep@) == out@ + spec_replace_all(
                s@.skip(pos as int),
                pat@,
                rep@,
            ),
            done ==> out@ == spec_replace_all(s@, pat@, rep@),
        decreases s@.len() - pos + (if done { 0int } else { 1int }),
    {
        let ghost t = s@.skip(pos as int);
        match find_from(s, pat, pos) {
            Some(i) => {
                proof {
                    assert forall|j: int| 0 <= j implies (seq_matches_at(s@, pat@, j + pos)
                        == seq_matches_at(t, pat@, j)) by {
                        lemma_matches_at_skip(s@, pat@, pos as int, j + pos);
                    }
                    assert(seq_matches_at(t, pat@, i - pos));
                    assert forall|j: int| 0 <= j < i - pos implies !seq_matches_at(
                        t,
                        pat@,
                        j,
                    ) by {
                        assert(!seq_matches_at(s@, pat@, j + pos));
                    }
                    lemma_find_first(t, pat@, i - pos);
                    assert(t.subrange(0, i - pos) =~= s@.subrange(pos as int, i as int));
                    assert(t.skip(i - pos + pat@.len() as int) =~= s@.skip(
                        i + pat@.len() as int,
                    ));
                }
                push_range(&mut out, s, pos, i);
                push_range(&mut out, rep, 0, rep.len());
                proof {
                    assert(rep@.subrange(0, rep@.len() as int) =~= rep@);
                    assert(spec_replace_all(t, pat@, rep@) == t.subrange(0, i - pos) + rep@
                        + spec_replace_all(t.skip(i - pos + pat@.len() as int), pat@, rep@));
                    assert(out@ + spec_replace_all(s@.skip(i + pat@.len() as int), pat@, rep@)
                        =~= spec_replace_all(s@, pat@, rep@));
                }
                pos = i + pat.len();
            },
            None => {
                proof {
                    assert forall|j: int| !seq_matches_at(t, pat@, j) by {
                        if 0 <= j {
                            lemma_matches_at_skip(s@, pat@, pos as int, j + pos);
                            assert(!seq_matches_at(s@, pat@, j + pos));
                        }
                    }
                    lemma_spec_find(t, pat@);
                    if spec_find(t, pat@) >= 0 {
                        assert(seq_matches_at(t, pat@, spec_find(t, pat@)));
                    }
                    assert(spec_replace_all(t, pat@, rep@) == t);
                }
                push_range(&mut out, s, pos, s.len());
                proof {
                    assert(s@.subrange(pos as int, s@.len() as int) =~= t);
                }
                done = true;
            },
        }
    }
    out
}

/// The ASCII whitespace bytes: space, tab, line feed, vertical tab, form
/// feed, carriage return.
pub open spec fn is_space(b: u8) -> bool {
    b == 32 || b == 9 || b == 10 || b == 11 || b == 12 || b == 13
}

/// Whether `b` is an ASCII whitespace byte.
pub fn byte_is_space(b: u8) -> (r: bool)
    ensures
        r == is_space(b),
{
    b == 32 || b == 9 || b == 10 || b == 11 || b == 12 || b == 13
}

/// `s` with every maximal run of whitespace replaced by a single space:
/// one step of the walk, carrying whether a run is open.
pub open spec fn spec_collapse_step(s: Seq<u8>, in_run: bool) -> Seq<u8>
    decreases s.len(),
{
    if s.len() == 0 {
        Seq::empty()
    } else if is_space(s[0]) {
        if in_run {
            spec_collapse_step(s.skip(1), true)
        } else {
            seq![32u8] + spec_collapse_step(s.skip(1), true)
        }
    } else {
        seq![s[0]] + spec_collapse_step(s.skip(1), false)
    }
}

/// `s` with every maximal run of whitespace replaced by a single space.
pub open spec fn spec_collapse_ws(s: Seq<u8>) -> Seq<u8> {
    spec_collapse_step(s, false)
}

/// Collapses every run of whitespace in `s` to a single space.
pub fn collapse_ws(s: &[u8]) -> (r: Vec<u8>)
    ensures
        r@ == spec_collapse_ws(s@),
{
    let mut out: Vec<u8> = Vec::new();
    let mut pos: usize = 0;
    let mut in_run = false;
    proof {
        assert(s@.skip(0) =~= s@);
        assert(out@ + spec_collapse_ws(s@) =~= spec_collapse_ws(s@));
    }
    while pos < s.len()
        invariant
            pos <= s@.len(),
            spec_collapse_ws(s@) == out@ + spec_collapse_step(s@.skip(pos as int), in_run),
        decreases s@.len() - pos,
    {
        let ghost t = s@.skip(pos as int);
        proof {
            assert(t.skip(1) =~= s@.skip(pos + 1));
        }
        let b = s[pos];
        if byte_is_space(b) {
            if !in_run {
                out.push(32);
            }
            in_run = true;
        } else {
            out.push(b);
            in_run = false;
        }
        pos = pos + 1;
        proof {
            assert(spec_collapse_ws(s@) =~= out@ + spec_collapse_step(
                s@.skip(pos as int),
                in_run,
            ));
        }
    }
    proof {
        assert(s@.skip(s@.len() as int) =~= Seq::<u8>::empty());
        assert(out@ =~= spec_collapse_ws(s@));
    }
    out
}

/// `s` with every markup tag removed: a `<`, at least one byte that is
/// not `>`, and the closing `>` disappear together; a `<` with no such
/// closing stays.
pub open spec fn spec_strip_tags(s: Seq<u8>) -> Seq<u8>
    decreases s.len(),
{
    if s.len() == 0 {
        s
    } else if s[0] == 60 {
        let f = spec_find(s.skip(1), seq![62u8]);
        if 1 <= f && f <= s.len() - 2 {
            spec_strip_tags(s.skip(f + 2))
        } else {
            seq![s[0]] + spec_strip_tags(s.skip(1))
        }
    } else {
        seq![s[0]] + spec_strip_tags(s.skip(1))
    }
}

/// Removes every markup tag from `s`.
pub fn strip_tags(s: &[u8]) -> (r: Vec<u8>)
    ensures
        r@ == spec_strip_tags(s@),
{
    let mut gt: Vec<u8> = Vec::new();
    gt.push(62);
    proof {
        assert(gt@ =~= seq![62u8]);
    }
    let mut out: Vec<u8> = Vec::new();
    let mut pos: usize = 0;
    proof {
        assert(s@.skip(0) =~= s@);
        assert(out@ + spec_strip_tags(s@) =~= spec_strip_tags(s@));
    }
    while pos < s.len()
        invariant
            pos <= s@.len(),
            gt@ == seq![62u8],
            spec_strip_tags(s@) == out@ + spec_strip_tags(s@.skip(pos as int)),
        decreases s@.len() - pos,
    {
        let ghost t = s@.skip(pos as int);
        proof {
            assert(t.skip(1) =~= s@.skip(pos + 1));
        }
        let b = s[pos];
        if b == 60 {
            let ghost t1 = t.skip(1);
            proof {
                assert(t1 =~= s@.skip(pos + 1));
            }
            match find_from(s, gt.as_slice(), pos + 1) {
                Some(j) => {
                    proof {
                        assert forall|k: int| 0 <= k implies (seq_matches_at(s@, gt@, k + pos + 1)
                            == seq_matches_at(t1, gt@, k)) by {
                            lemma_matches_at_skip(s@, gt@, pos + 1, k + pos + 1);
                        }
                        assert(seq_matches_at(t1, gt@, j - pos - 1));
                        assert forall|k: int| 0 <= k < j - pos - 1 implies !seq_matches_at(
                            t1,
                            gt@,
                            k,
                        ) by {
                            assert(!seq_matches_at(s@, gt@, k + pos + 1));
                        }
                        lemma_find_first(t1, gt@, j - pos - 1);
                    }
                    if j == pos + 1 {
                        // an immediate `>`: the pattern needs a byte between
                        out.push(b);
                        pos = pos + 1;
                        proof {
                            assert(spec_strip_tags(t) =~= seq![t[0]] + spec_strip_tags(t.skip(1)));
                            assert(spec_strip_tags(s@) =~= out@ + spec_strip_tags(
                                s@.skip(pos as int),
                            ));
                        }
                    } else {
                        proof {
                            let f = spec_find(t1, gt@);
                            assert(f == j - pos - 1);
                            assert(j + 1 <= s@.len());
                            assert(f <= t.len() - 2);
                            assert(t.skip(f + 2) =~= s@.skip(j + 1));
                            assert(spec_strip_tags(t) == spec_strip_tags(s@.skip(j + 1)));
                        }
                        pos = j + 1;
                    }
                },
                None => {
                    out.push(b);
                    pos = pos + 1;
                    proof {
                        assert forall|k: int| !seq_matches_at(t1, gt@, k) by {
                            if 0 <= k {
                                lemma_matches_at_skip(s@, gt@, pos as int, k + pos);
                                assert(!seq_matches_at(s@, gt@, k + pos));
                            }
                        }
                        lemma_spec_find(t1, gt@);
                        if spec_find(t1, gt@) >= 0 {
                            assert(seq_matches_at(t1, gt@, spec_find(t1, gt@)));
                        }
                        assert(spec_strip_tags(t) =~= seq![t[0]] + spec_strip_tags(t.skip(1)));
                        assert(spec_strip_tags(s@) =~= out@ + spec_strip_tags(s@.skip(pos as int)));
                    }
                },
            }
        } else {
            out.push(b);
            pos = pos + 1;
            proof {
                assert(spec_strip_tags(t) =~= seq![t[0]] + spec_strip_tags(t.skip(1)));
                assert(spec_strip_tags(s@) =~= out@ + spec_strip_tags(s@.skip(pos as int)));
            }
        }
    }
    proof {
        assert(s@.skip(s@.len() as int) =~= Seq::<u8>::empty());
        assert(out@ =~= spec_strip_tags(s@));
    }
    out
}

/// `s` with leading and trailing whitespace removed.
pub open spec fn spec_trim(s: Seq<u8>) -> Seq<u8>
    decreases s.len(),
{
    if s.len() == 0 {
        s
    } else if is_space(s[0]) {
        spec_trim(s.skip(1))
    } else if is_space(s[s.len() - 1]) {
        spec_trim(s.take(s.len() - 1))
    } else {
        s
    }
}

/// Removes leading and trailing whitespace from `s`.
pub fn trim_bytes(s: &[u8]) -> (r: Vec<u8>)
    ensures
        r@ == spec_trim(s@),
{
    let mut start: usize = 0;
    let mut end: usize = s.len();
    proof {
        assert(s@.subrange(0, s@.len() as int) =~= s@);
    }
    while start < end && byte_is_space(s[start])
        invariant
            start <= end <= s@.len(),
            spec_trim(s@) == spec_trim(s@.subrange(start as int, end as int)),
        decreases end - start,
    {
        proof {
            let t = s@.subrange(start as int, end as int);
            assert(t.skip(1) =~= s@.subrange(start + 1, end as int));
        }
        start = start + 1;
    }
    while end > start && byte_is_space(s[end - 1])
        invariant
            start <= end <= s@.len(),
            spec_trim(s@) == spec_trim(s@.subrange(start as int, end as int)),
            start < end ==> !is_space(s@[start as int]),
        decreases end,
    {
        proof {
            let t = s@.subrange(start as int, end as int);
            assert(t.take(t.len() - 1) =~= s@.subrange(start as int, end - 1));
        }
        end = end - 1;
    }
    let mut out: Vec<u8> = Vec::new();
    push_range(&mut out, s, start, end);
    proof {
        let t = s@.subrange(start as int, end as int);
        assert(out@ =~= t);
        assert(spec_trim(t) == t);
    }
    out
}

/// Whether two strings are the same sequence of characters.
pub fn str_eq(a: &str, b: &str) -> (r: bool)
    ensures
        r == (a@ == b@),
{
    proof {
        vstd::utf8::encode_utf8_decode_utf8(a@);
        vstd::utf8::encode_utf8_decode_utf8(b@);
    }
    let ab = a.as_bytes();
    let bb = b.as_bytes();
    if ab.len() != bb.len() {
        return false;
    }
    let mut i: usize = 0;
    while i < ab.len()
        invariant
            i <= ab@.len(),
            ab@.len() == bb@.len(),
            forall|k: int| 0 <= k < i ==> ab@[k] == bb@[k],
        decreases ab@.len() - i,
    {
        if ab[i] != bb[i] {
            return false;
        }
        i = i + 1;
    }
    proof {
        assert(ab@ =~= bb@);
    }
    true
}

/// `prefix` stands at the start of `s`, ignoring ASCII case.
pub open spec fn starts_with_ci(s: Seq<char>, prefix: Seq<char>) -> bool {
    seq_matches_at(
        lower_bytes(vstd::utf8::encode_utf8(s)),
        lower_bytes(vstd::utf8::encode_utf8(prefix)),
        0,
    )
}

/// Case-insensitive prefix test: does `s` start with `prefix`, ignoring
/// ASCII case?
pub fn starts_with_str_ci(s: &str, prefix: &str) -> (r: bool)
    ensures
        r == starts_with_ci(s@, prefix@),
{
    let fs = lower_vec(s.as_bytes());
    let fp = lower_vec(prefix.as_bytes());
    if fp.len() > fs.len() {
        return false;
    }
    matches_at(fs.as_slice(), fp.as_slice(), 0)
}

/// The position of the first occurrence of the character `c` in `s`, or
/// `-1` when there is none.
pub open spec fn spec_char_find(s: Seq<char>, c: char) -> int
    decreases s.len(),
{
    if s.len() == 0 {
        -1
    } else if s[0] == c {
        0
    } else {
        let r = spec_char_find(s.skip(1), c);
        if r < 0 {
            -1
        } else {
            r + 1
        }
    }
}

/// `spec_char_find` returns the first occurrence, and `-1` exactly when
/// the character does not occur.
pub proof fn lemma_spec_char_find(s: Seq<char>, c: char)
    ensures
        spec_char_find(s, c) >= 0 ==> 0 <= spec_char_find(s, c) < s.len() && s[spec_char_find(
            s,
            c,
        )] == c && (forall|j: int| 0 <= j < spec_char_find(s, c) ==> s[j] != c),
        spec_char_find(s, c) < 0 ==> forall|j: int| 0 <= j < s.len() ==> s[j] != c,
    decreases s.len(),
{
    if s.len() > 0 && s[0] != c {
        lemma_spec_char_find(s.skip(1), c);
        assert(forall|j: int| 1 <= j < s.len() ==> s[j] == s.skip(1)[j - 1]);
    }
}

/// The position of the last occurrence of the character `c` in `s`, or
/// `-1` when there is none.
pub open spec fn spec_char_rfind(s: Seq<char>, c: char) -> int
    decreases s.len(),
{
    if s.len() == 0 {
        -1
    } else if s[s.len() - 1] == c {
        s.len() - 1
    } else {
        spec_char_rfind(s.take(s.len() - 1), c)
    }
}

/// `spec_char_rfind` returns the last occurrence, and `-1` exactly when
/// the character does not occur.
pub proof fn lemma_spec_char_rfind(s: Seq<char>, c: char)
    ensures
        spec_char_rfind(s, c) >= 0 ==> 0 <= spec_char_rfind(s, c) < s.len() && s[spec_char_rfind(
            s,
            c,
        )] == c && (forall|j: int| spec_char_rfind(s, c) < j < s.len() ==> s[j] != c),
        spec_char_rfind(s, c) < 0 ==> forall|j: int| 0 <= j < s.len() ==> s[j] != c,
    decreases s.len(),
{
    if s.len() > 0 && s[s.len() - 1] != c {
        lemma_spec_char_rfind(s.take(s.len() - 1), c);
        assert(forall|j: int| 0 <= j < s.len() - 1 ==> s[j] == s.take(s.len() - 1)[j]);
    }
}

/// `pat` occurs in `hay` starting at character position `i`.
pub open spec fn char_matches_at(hay: Seq<char>, pat: Seq<char>, i: int) -> bool {
    &&& 0 <= i
    &&& i + pat.len() <= hay.len()
    &&& hay.subrange(i, i + pat.len()) == pat
}

/// The position of the last occurrence of `pat` in `hay`, or `-1` when
/// there is none.
pub open spec fn spec_char_rfind_pat(hay: Seq<char>, pat: Seq<char>) -> int
    decreases hay.len(),
{
    if pat.len() > hay.len() {
        -1
    } else if char_matches_at(hay, pat, hay.len() - pat.len()) {
        hay.len() - pat.len()
    } else if hay.len() == 0 {
        -1
    } else {
        spec_char_rfind_pat(hay.take(hay.len() - 1), pat)
    }
}

/// `spec_char_rfind_pat` returns the last match, and `-1` exactly when
/// there is none.
pub proof fn lemma_spec_char_rfind_pat(hay: Seq<char>, pat: Seq<char>)
    ensures
        spec_char_rfind_pat(hay, pat) >= 0 ==> char_matches_at(
            hay,
            pat,
            spec_char_rfind_pat(hay, pat),
        ) && (forall|j: int| spec_char_rfind_pat(hay, pat) < j ==> !char_matches_at(hay, pat, j)),
        spec_char_rfind_pat(hay, pat) < 0 ==> forall|j: int| !char_matches_at(hay, pat, j),
    decreases hay.len(),
{
    if pat.len() > hay.len() {
        assert forall|j: int| !char_matches_at(hay, pat, j) by {}
    } else if char_matches_at(hay, pat, hay.len() - pat.len()) {
        assert forall|j: int| hay.len() - pat.len() < j implies !char_matches_at(hay, pat, j) by {}
    } else if hay.len() == 0 {
        assert forall|j: int| !char_matches_at(hay, pat, j) by {
            if char_matches_at(hay, pat, j) {
                assert(hay.subrange(j, j + pat.len() as int) =~= pat);
            }
        }
    } else {
        lemma_spec_char_rfind_pat(hay.take(hay.len() - 1), pat);
        assert forall|j: int| 0 <= j && j + pat.len() <= hay.len() - 1 implies (char_matches_at(
            hay,
            pat,
            j,
        ) == char_matches_at(hay.take(hay.len() - 1), pat, j)) by {
            assert(hay.subrange(j, j + pat.len() as int) =~= hay.take(hay.len() - 1).subrange(
                j,
                j + pat.len() as int,
            ));
        }
        assert forall|j: int|
            spec_char_rfind_pat(hay, pat) < j implies !char_matches_at(hay, pat, j) by {
            if char_matches_at(hay, pat, j) {
                assert(j != hay.len() - pat.len());
                assert(j + pat.len() <= hay.len() - 1);
            }
        }
    }
}

/// The character for a single decimal digit.
pub open spec fn dec_digit(d: int) -> char {
    if d == 0 {
        '0'
    } else if d == 1 {
        '1'
    } else if d == 2 {
        '2'
    } else if d == 3 {
        '3'
    } else if d == 4 {
        '4'
    } else if d == 5 {
        '5'
    } else if d == 6 {
        '6'
    } else if d == 7 {
        '7'
    } else if d == 8 {
        '8'
    } else {
        '9'
    }
}

/// The decimal representation of `n`, most significant digit first.
pub open spec fn dec_str(n: nat) -> Seq<char>
    decreases n,
{
    if n < 10 {
        seq![dec_digit(n as int)]
    } else {
        dec_str(n / 10) + seq![dec_digit((n % 10) as int)]
    }
}

/// The one-character string for a single decimal digit.
fn digit_str(d: u64) -> (r: &'static str)
    requires
        d < 10,
    ensures
        r@ == seq![dec_digit(d as int)],
{
    proof {
        reveal_strlit("0");
        reveal_strlit("1");
        reveal_strlit("2");
        reveal_strlit("3");
        reveal_strlit("4");
        reveal_strlit("5");
        reveal_strlit("6");
        reveal_strlit("7");
        reveal_strlit("8");
        reveal_strlit("9");
    }
    let r = if d == 0 {
        "0"
    } else if d == 1 {
        "1"
    } else if d == 2 {
        "2"
    } else if d == 3 {
        "3"
    } else if d == 4 {
        "4"
    } else if d == 5 {
        "5"
    } else if d == 6 {
        "6"
    } else if d == 7 {
        "7"
    } else if d == 8 {
        "8"
    } else {
        "9"
    };
    proof {
        assert(r@ =~= seq![dec_digit(d as int)]);
    }
    r
}

/// Writes `n` in decimal.
pub fn u64_to_string(n: u64) -> (r: String)
    ensures
        r@ == dec_str(n as nat),
    decreases n,
{
    if n < 10 {
        digit_str(n).to_owned()
    } else {
        let mut s = u64_to_string(n / 10);
        s.append(digit_str(n % 10));
        s
    }
}

} // verus!
