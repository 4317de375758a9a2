//! Small verified string utilities: character-level equality, prefix and
//! substring tests, concatenation, trimming, and the environment-variable
//! name normalisation used throughout the engine.

use vstd::prelude::*;
use vstd::string::StrSliceExecFns;
use vstd::string::StringExecFns;

verus! {

/// Relies on `String::push`: appends exactly one character at the end.
#[verifier::external_body]
pub(crate) fn push_char(s: &mut String, c: char)
    ensures
        final(s)@ == old(s)@.push(c),
{
    s.push(c)
}

/// Character-level equality of two string slices.
pub fn str_eq(a: &str, b: &str) -> (r: bool)
    ensures
        r == (a@ == b@),
{
    let alen = a.unicode_len();
    let blen = b.unicode_len();
    if alen != blen {
        assert(a@ != b@);
        return false;
    }
    let mut i: usize = 0;
    while i < alen
        invariant
            alen == a@.len(),
            blen == b@.len(),
            alen == blen,
            i <= alen,
            forall|j: int| 0 <= j < i ==> a@[j] == b@[j],
        decreases alen - i,
    {
        if a.get_char(i) != b.get_char(i) {
            assert(a@ != b@);
            return false;
        }
        i = i + 1;
    }
    assert(a@ =~= b@);
    true
}

/// Concatenation of two string slices.
pub fn concat2(a: &str, b: &str) -> (r: String)
    ensures
        r@ == a@ + b@,
{
    let mut s = a.to_owned();
    s.append(b);
    s
}

/// Concatenation of three string slices.
pub fn concat3(a: &str, b: &str, c: &str) -> (r: String)
    ensures
        r@ == a@ + b@ + c@,
{
    let mut s = a.to_owned();
    s.append(b);
    s.append(c);
    s
}

/// True when `p` is a prefix of `s`.
pub open spec fn spec_has_prefix(s: Seq<char>, p: Seq<char>) -> bool {
    p.len() <= s.len() && s.subrange(0, p.len() as int) == p
}

/// Character-level prefix test.
pub fn has_prefix(s: &str, p: &str) -> (r: bool)
    ensures
        r == spec_has_prefix(s@, p@),
{
    let slen = s.unicode_len();
    let plen = p.unicode_len();
    if plen > slen {
        return false;
    }
    let mut i: usize = 0;
    while i < plen
        invariant
            slen == s@.len(),
            plen == p@.len(),
            plen <= slen,
            i <= plen,
            forall|j: int| 0 <= j < i ==> s@[j] == p@[j],
        decreases plen - i,
    {
        if s.get_char(i) != p.get_char(i) {
            assert(s@.subrange(0, p@.len() as int)[i as int] != p@[i as int]);
            return false;
        }
        i = i + 1;
    }
    assert(s@.subrange(0, p@.len() as int) =~= p@);
    true
}

/// True when `n` occurs as a contiguous part of `h`.
pub open spec fn spec_contains(h: Seq<char>, n: Seq<char>) -> bool {
    exists|i: int| 0 <= i <= h.len() - n.len() && #[trigger] h.subrange(i, i + n.len() as int) == n
}

/// Character-level substring search.
pub fn str_contains(h: &str, n: &str) -> (r: bool)
    ensures
        r == spec_contains(h@, n@),
{
    let hlen = h.unicode_len();
    let nlen = n.unicode_len();
    if nlen > hlen {
        return false;
    }
    if nlen == 0 {
        assert(h@.subrange(0, 0 + n@.len() as int) =~= n@);
        return true;
    }
    let mut i: usize = 0;
    while i <= hlen - nlen
        invariant
            hlen == h@.len(),
            nlen == n@.len(),
            0 < nlen <= hlen,
            i <= hlen - nlen + 1,
            forall|k: int| 0 <= k < i ==> #[trigger] h@.subrange(k, k + n@.len() as int) != n@,
        decreases hlen - nlen + 1 - i,
    {
        let part = h.substring_char(i, i + nlen);
        if str_eq(part, n) {
            assert(h@.subrange(i as int, i as int + n@.len() as int) == n@);
            return true;
        }
        i = i + 1;
    }
    false
}

/// How one character is folded into an environment-variable name: ASCII
/// lower-case letters become upper-case and `-` becomes `_`; everything else
/// is kept.
pub open spec fn envify_char(c: char) -> char {
    if c == '-' {
        '_'
    } else if 'a' <= c && c <= 'z' {
        ((c as u8) - 32) as char
    } else {
        c
    }
}

/// The environment-variable base name derived from a library name.
pub open spec fn spec_envify(s: Seq<char>) -> Seq<char> {
    s.map_values(|c: char| envify_char(c))
}

/// Derives the environment-variable base name for a library: upper-case the
/// ASCII letters and replace `-` with `_`.
pub fn envify(name: &str) -> (r: String)
    ensures
        r@ == spec_envify(name@),
{
    let len = name.unicode_len();
    let mut out = String::new();
    let mut i: usize = 0;
    while i < len
        invariant
            len == name@.len(),
            i <= len,
            out@ == spec_envify(name@.subrange(0, i as int)),
        decreases len - i,
    {
        let c = name.get_char(i);
        let d: char = if c == '-' {
            '_'
        } else if 'a' <= c && c <= 'z' {
            ((c as u8) - 32) as char
        } else {
            c
        };
        assert(d == envify_char(name@[i as int]));
        push_char(&mut out, d);
        assert(out@ =~= spec_envify(name@.subrange(0, i as int + 1)));
        i = i + 1;
    }
    assert(name@.subrange(0, len as int) =~= name@);
    out
}

/// Replaces every `-` with `_`, keeping all other characters.
pub open spec fn spec_underscore(s: Seq<char>) -> Seq<char> {
    s.map_values(|c: char| if c == '-' { '_' } else { c })
}

/// The target triple with its separators normalised: `-` becomes `_`.
pub fn underscore_dashes(s: &str) -> (r: String)
    ensures
        r@ == spec_underscore(s@),
{
    let len = s.unicode_len();
    let mut out = String::new();
    let mut i: usize = 0;
    while i < len
        invariant
            len == s@.len(),
            i <= len,
            out@ == spec_underscore(s@.subrange(0, i as int)),
        decreases len - i,
    {
        let c = s.get_char(i);
        let d: char = if c == '-' {
            '_'
        } else {
            c
        };
        push_char(&mut out, d);
        assert(out@ =~= spec_underscore(s@.subrange(0, i as int + 1)));
        i = i + 1;
    }
    assert(s@.subrange(0, len as int) =~= s@);
    out
}

/// The whitespace characters the engine trims around tool output.
pub open spec fn is_trim_space(c: char) -> bool {
    c == ' ' || c == '\t' || c == '\r' || c == '\n'
}

/// `s` without its trailing whitespace.
pub open spec fn spec_trim_end(s: Seq<char>) -> Seq<char>
    decreases s.len(),
{
    if s.len() > 0 && is_trim_space(s[s.len() - 1]) {
        spec_trim_end(s.drop_last())
    } else {
        s
    }
}

/// `s` without its leading whitespace.
pub open spec fn spec_trim_start(s: Seq<char>) -> Seq<char>
    decreases s.len(),
{
    if s.len() > 0 && is_trim_space(s[0]) {
        spec_trim_start(s.drop_first())
    } else {
        s
    }
}

/// `s` without leading and trailing whitespace.
pub open spec fn spec_trim(s: Seq<char>) -> Seq<char> {
    spec_trim_start(spec_trim_end(s))
}

/// Whitespace test used by the trimming functions.
pub fn is_space_char(c: char) -> (r: bool)
    ensures
        r == is_trim_space(c),
{
    c == ' ' || c == '\t' || c == '\r' || c == '\n'
}

/// Removes trailing whitespace.
pub fn trim_end_str(s: &str) -> (r: String)
    ensures
        r@ == spec_trim_end(s@),
{
    let len = s.unicode_len();
    assert(s@.subrange(0, len as int) =~= s@);
    let mut end: usize = len;
    while end > 0 && is_space_char(s.get_char(end - 1))
        invariant
            len == s@.len(),
            end <= len,
            spec_trim_end(s@) == spec_trim_end(s@.subrange(0, end as int)),
        decreases end,
    {
        assert(s@.subrange(0, end as int).drop_last() =~= s@.subrange(0, end as int - 1));
        end = end - 1;
    }
    if end == 0 {
        assert(s@.subrange(0, 0) =~= Seq::<char>::empty());
    }
    assert(spec_trim_end(s@.subrange(0, end as int)) == s@.subrange(0, end as int));
    let r = s.substring_char(0, end);
    r.to_owned()
}

/// Removes leading and trailing whitespace.
pub fn trim_str(s: &str) -> (r: String)
    ensures
        r@ == spec_trim(s@),
{
    let len = s.unicode_len();
    assert(s@.subrange(0, len as int) =~= s@);
    let mut end: usize = len;
    while end > 0 && is_space_char(s.get_char(end - 1))
        invariant
            len == s@.len(),
            end <= len,
            spec_trim_end(s@) == spec_trim_end(s@.subrange(0, end as int)),
        decreases end,
    {
        assert(s@.subrange(0, end as int).drop_last() =~= s@.subrange(0, end as int - 1));
        end = end - 1;
    }
    if end == 0 {
        assert(s@.subrange(0, 0) =~= Seq::<char>::empty());
    }
    assert(spec_trim_end(s@) == s@.subrange(0, end as int));
    let mut start: usize = 0;
    while start < end && is_space_char(s.get_char(start))
        invariant
            len == s@.len(),
            start <= end <= len,
            spec_trim_end(s@) == s@.subrange(0, end as int),
            spec_trim_start(s@.subrange(0, end as int)) == spec_trim_start(
                s@.subrange(start as int, end as int),
            ),
        decreases end - start,
    {
        assert(s@.subrange(start as int, end as int).drop_first() =~= s@.subrange(
            start as int + 1,
            end as int,
        ));
        start = start + 1;
    }
    if start == end {
        assert(s@.subrange(start as int, end as int) =~= Seq::<char>::empty());
    }
    assert(spec_trim_start(s@.subrange(start as int, end as int)) == s@.subrange(
        start as int,
        end as int,
    ));
    let r = s.substring_char(start, end);
    r.to_owned()
}

} // verus!
