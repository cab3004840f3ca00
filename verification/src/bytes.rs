//! Byte-level helpers on single lines of a file.

use bstr::ByteSlice;
use vstd::prelude::*;

verus! {

/// The byte `\n`.
pub const LF: u8 = 0x0a;

/// The byte `\r`.
pub const CR: u8 = 0x0d;

/// What `u8::is_ascii_whitespace` accepts: space, tab, line feed, form feed
/// and carriage return.
pub open spec fn is_ascii_ws(b: u8) -> bool {
    b == 0x20u8 || b == 0x09u8 || b == 0x0au8 || b == 0x0cu8 || b == 0x0du8
}

/// The line with one trailing `\n` removed, and then one trailing `\r`.
pub open spec fn spec_strip_line_ending(line: Seq<u8>) -> Seq<u8> {
    let a = if line.len() > 0 && line.last() == LF {
        line.drop_last()
    } else {
        line
    };
    if a.len() > 0 && a.last() == CR {
        a.drop_last()
    } else {
        a
    }
}

/// `s` without its leading ASCII whitespace.
pub open spec fn trim_start(s: Seq<u8>) -> Seq<u8>
    decreases s.len(),
{
    if s.len() > 0 && is_ascii_ws(s[0]) {
        trim_start(s.drop_first())
    } else {
        s
    }
}

/// `s` without its trailing ASCII whitespace.
pub open spec fn trim_end(s: Seq<u8>) -> Seq<u8>
    decreases s.len(),
{
    if s.len() > 0 && is_ascii_ws(s.last()) {
        trim_end(s.drop_last())
    } else {
        s
    }
}

/// `s` without leading and trailing ASCII whitespace (`<[u8]>::trim_ascii`).
pub open spec fn spec_trim_ascii(s: Seq<u8>) -> Seq<u8> {
    trim_end(trim_start(s))
}

/// A line without its line ending and surrounding ASCII whitespace.
pub open spec fn spec_trim_line(line: Seq<u8>) -> Seq<u8> {
    spec_trim_ascii(spec_strip_line_ending(line))
}

/// The index of the first `b` at or after `i`, or the length of `s`.
pub open spec fn first_index_from(s: Seq<u8>, b: u8, i: int) -> int
    decreases s.len() - i,
{
    if i < 0 || i >= s.len() {
        s.len() as int
    } else if s[i] == b {
        i
    } else {
        first_index_from(s, b, i + 1)
    }
}

/// The part of `s` before its first `b`, or all of `s` where it has none.
pub open spec fn before_first(s: Seq<u8>, b: u8) -> Seq<u8> {
    s.take(first_index_from(s, b, 0))
}

/// Whether `needle` occurs in `hay` as a contiguous run of bytes.
pub open spec fn contains_subslice(hay: Seq<u8>, needle: Seq<u8>) -> bool {
    exists|i: int|
        0 <= i && i + needle.len() <= hay.len() && #[trigger] hay.subrange(i, i + needle.len())
            == needle
}

/// Strips one trailing `\n`, then one trailing `\r`.
pub fn strip_line_ending(line: &[u8]) -> (r: &[u8])
    ensures
        r@ == spec_strip_line_ending(line@),
{
    let mut end = line.len();
    if end > 0 && line[end - 1] == LF {
        end = end - 1;
    }
    if end > 0 && line[end - 1] == CR {
        end = end - 1;
    }
    let r = &line[0..end];
    assert(r@ =~= spec_strip_line_ending(line@));
    r
}

/// Removes leading and trailing ASCII whitespace.
pub fn trim_ascii(s: &[u8]) -> (r: &[u8])
    ensures
        r@ == spec_trim_ascii(s@),
{
    let len = s.len();
    let mut i: usize = 0;
    assert(s@.subrange(0, len as int) =~= s@);
    while i < len && is_ascii_whitespace(s[i])
        invariant
            i <= len,
            len == s@.len(),
            trim_start(s@) == trim_start(s@.subrange(i as int, len as int)),
        decreases len - i,
    {
        assert(s@.subrange(i as int, len as int).drop_first() =~= s@.subrange(
            i + 1,
            len as int,
        ));
        i = i + 1;
    }
    let mut j: usize = len;
    assert(trim_start(s@) == s@.subrange(i as int, j as int));
    while j > i && is_ascii_whitespace(s[j - 1])
        invariant
            i <= j <= len,
            len == s@.len(),
            spec_trim_ascii(s@) == trim_end(s@.subrange(i as int, j as int)),
        decreases j,
    {
        assert(s@.subrange(i as int, j as int).drop_last() =~= s@.subrange(
            i as int,
            j - 1,
        ));
        j = j - 1;
    }
    &s[i..j]
}

/// Whether `b` is ASCII whitespace, as `u8::is_ascii_whitespace` decides.
pub fn is_ascii_whitespace(b: u8) -> (r: bool)
    ensures
        r == is_ascii_ws(b),
{
    b == 0x20u8 || b == 0x09u8 || b == 0x0au8 || b == 0x0cu8 || b == 0x0du8
}

/// Strips the line ending, then surrounding ASCII whitespace.
pub fn trim_line(line: &[u8]) -> (r: &[u8])
    ensures
        r@ == spec_trim_line(line@),
{
    trim_ascii(strip_line_ending(line))
}

/// Whether `prefix` is a prefix of `s`.
pub fn has_prefix(s: &[u8], prefix: &[u8]) -> (r: bool)
    ensures
        r == prefix@.is_prefix_of(s@),
{
    if prefix.len() > s.len() {
        return false;
    }
    let mut i: usize = 0;
    while i < prefix.len()
        invariant
            i <= prefix@.len() <= s@.len(),
            forall|k: int| 0 <= k < i ==> prefix@[k] == s@[k],
        decreases prefix@.len() - i,
    {
        if prefix[i] != s[i] {
            return false;
        }
        i = i + 1;
    }
    assert(prefix@ =~= s@.take(prefix@.len() as int));
    true
}

/// Whether `b` occurs in `s`.
pub fn contains_byte(s: &[u8], b: u8) -> (r: bool)
    ensures
        r == s@.contains(b),
{
    let mut i: usize = 0;
    while i < s.len()
        invariant
            i <= s@.len(),
            forall|k: int| 0 <= k < i ==> s@[k] != b,
        decreases s@.len() - i,
    {
        if s[i] == b {
            assert(s@[i as int] == b);
            return true;
        }
        i = i + 1;
    }
    false
}

/// The part of `s` before its first `b`, or all of `s` where it has none.
pub fn prefix_before(s: &[u8], b: u8) -> (r: &[u8])
    ensures
        r@ == before_first(s@, b),
{
    let mut i: usize = 0;
    while i < s.len() && s[i] != b
        invariant
            i <= s@.len(),
            first_index_from(s@, b, 0) == first_index_from(s@, b, i as int),
        decreases s@.len() - i,
    {
        i = i + 1;
    }
    &s[0..i]
}

/// Calls `bstr::ByteSlice::contains_str`, which is documented to return
/// true if and only if `hay` contains `needle`. Trusted: that answer.
#[verifier::external_body]
pub(crate) fn bstr_contains(hay: &[u8], needle: &[u8]) -> (r: bool)
    ensures
        r == contains_subslice(hay@, needle@),
{
    hay.contains_str(needle)
}

proof fn lemma_trim_start_shape(s: Seq<u8>)
    ensures
        trim_start(s).len() > 0 ==> !is_ascii_ws(trim_start(s)[0]),
        trim_start(s).len() <= s.len(),
        trim_start(s) == s.subrange(s.len() - trim_start(s).len(), s.len() as int),
    decreases s.len(),
{
    if s.len() > 0 && is_ascii_ws(s[0]) {
        lemma_trim_start_shape(s.drop_first());
        assert(s.drop_first().subrange(
            s.drop_first().len() - trim_start(s).len(),
            s.drop_first().len() as int,
        ) =~= s.subrange(s.len() - trim_start(s).len(), s.len() as int));
    } else {
        assert(s.subrange(0, s.len() as int) =~= s);
    }
}

proof fn lemma_trim_end_shape(s: Seq<u8>)
    ensures
        trim_end(s).len() > 0 ==> !is_ascii_ws(trim_end(s).last()),
        trim_end(s) == s.take(trim_end(s).len() as int),
        trim_end(s).len() <= s.len(),
    decreases s.len(),
{
    if s.len() > 0 && is_ascii_ws(s.last()) {
        lemma_trim_end_shape(s.drop_last());
        assert(s.drop_last().take(trim_end(s).len() as int) =~= s.take(trim_end(s).len() as int));
    } else {
        assert(s.take(s.len() as int) =~= s);
    }
}

/// What `trim_ascii` gives back starts and ends with no ASCII whitespace, is
/// a contiguous part of its input, and is unchanged by a second trim.
pub proof fn law_trim_ascii_trims(s: Seq<u8>)
    ensures
        spec_trim_ascii(s).len() > 0 ==> !is_ascii_ws(spec_trim_ascii(s)[0]) && !is_ascii_ws(
            spec_trim_ascii(s).last(),
        ),
        exists|i: int|
            0 <= i && i + spec_trim_ascii(s).len() <= s.len() && #[trigger] s.subrange(
                i,
                i + spec_trim_ascii(s).len(),
            ) == spec_trim_ascii(s),
        spec_trim_ascii(spec_trim_ascii(s)) == spec_trim_ascii(s),
{
    let a = trim_start(s);
    let t = trim_end(a);
    lemma_trim_start_shape(s);
    lemma_trim_end_shape(a);
    if t.len() > 0 {
        assert(t[0] == a[0]);
    }
    let i = s.len() - a.len();
    assert(s.subrange(i, i + t.len()) =~= t);
    // A second trim finds nothing to remove at either end.
    assert(trim_start(t) == t);
    assert(trim_end(t) == t);
}

/// A line trimmed by `trim_line` starts and ends with no ASCII whitespace and
/// holds no line ending at either end; trimming it again changes nothing.
pub proof fn law_trim_line_trims(line: Seq<u8>)
    ensures
        spec_trim_line(line).len() > 0 ==> !is_ascii_ws(spec_trim_line(line)[0]) && !is_ascii_ws(
            spec_trim_line(line).last(),
        ),
        spec_trim_line(spec_trim_line(line)) == spec_trim_line(line),
{
    let t = spec_trim_line(line);
    law_trim_ascii_trims(spec_strip_line_ending(line));
    assert(spec_strip_line_ending(t) =~= t);
}

/// Stripping a line ending removes exactly one of nothing, `\n`, `\r` or
/// `\r\n` from the end of the line (a `\n\r` ending loses only its `\r`),
/// and keeps the rest as it was.
pub proof fn law_strip_line_ending(line: Seq<u8>)
    ensures
        ({
            let r = spec_strip_line_ending(line);
            let tail = line.subrange(r.len() as int, line.len() as int);
            &&& r.len() <= line.len()
            &&& r == line.take(r.len() as int)
            &&& tail == Seq::<u8>::empty() || tail == seq![0x0au8] || tail == seq![0x0du8] || tail
                == seq![0x0du8, 0x0au8]
            &&& line.len() >= 2 && line[line.len() - 2] == 0x0du8 && line.last() == 0x0au8 ==> tail
                == seq![0x0du8, 0x0au8]
            &&& line.len() >= 1 && line.last() == 0x0au8 && !(line.len() >= 2 && line[line.len()
                - 2] == 0x0du8) ==> tail == seq![0x0au8]
            &&& line.len() >= 1 && line.last() == 0x0du8 ==> tail == seq![0x0du8]
            &&& line.len() >= 1 && line.last() != 0x0au8 && line.last() != 0x0du8 ==> tail
                == Seq::<u8>::empty()
        }),
{
    let r = spec_strip_line_ending(line);
    let tail = line.subrange(r.len() as int, line.len() as int);
    assert(r =~= line.take(r.len() as int));
    if line.len() >= 2 && line[line.len() - 2] == 0x0du8 && line.last() == 0x0au8 {
        assert(tail =~= seq![0x0du8, 0x0au8]);
    } else if line.len() >= 1 && line.last() == 0x0au8 {
        assert(tail =~= seq![0x0au8]);
    } else if line.len() >= 1 && line.last() == 0x0du8 {
        assert(tail =~= seq![0x0du8]);
    } else {
        assert(tail =~= Seq::<u8>::empty());
    }
}

} // verus!
