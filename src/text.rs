//! Byte-level text helpers: trimming, quote removal, and turning byte
//! ranges of a manifest back into strings.

use vstd::prelude::*;
use vstd::utf8::*;

verus! {

/// ASCII white space: space, tab, line feed, carriage return.
pub open spec fn is_space(b: u8) -> bool {
    b == 32u8 || b == 9u8 || b == 10u8 || b == 13u8
}

/// The double quote character.
pub open spec fn is_quote(b: u8) -> bool {
    b == 34u8
}

/// `b` without its leading white space.
pub open spec fn trim_front(b: Seq<u8>) -> Seq<u8>
    decreases b.len(),
{
    if b.len() > 0 && is_space(b[0]) {
        trim_front(b.drop_first())
    } else {
        b
    }
}

/// `b` without its trailing white space.
pub open spec fn trim_back(b: Seq<u8>) -> Seq<u8>
    decreases b.len(),
{
    if b.len() > 0 && is_space(b.last()) {
        trim_back(b.drop_last())
    } else {
        b
    }
}

/// `b` without white space at either end.
pub open spec fn trim(b: Seq<u8>) -> Seq<u8> {
    trim_back(trim_front(b))
}

/// `b` with every double quote removed.
pub open spec fn remove_quotes(b: Seq<u8>) -> Seq<u8>
    decreases b.len(),
{
    if b.len() == 0 {
        b
    } else if is_quote(b.last()) {
        remove_quotes(b.drop_last())
    } else {
        remove_quotes(b.drop_last()).push(b.last())
    }
}

/// The characters that the bytes `b` encode, or nothing where they are not
/// UTF-8.
pub open spec fn as_text(b: Seq<u8>) -> Seq<char> {
    if valid_utf8(b) {
        decode_utf8(b)
    } else {
        Seq::empty()
    }
}

/// Relies on String::from_utf8: it succeeds exactly on valid UTF-8, and the
/// string it returns holds those bytes.
#[verifier::external_body]
pub(crate) fn utf8_string(b: Vec<u8>) -> (r: Option<String>)
    ensures
        r is Some <==> valid_utf8(b@),
        r matches Some(s) ==> encode_utf8(s@) == b@,
{
    String::from_utf8(b).ok()
}

/// The string that the bytes `b` encode, empty where they are not UTF-8.
pub fn text_of(b: Vec<u8>) -> (r: String)
    ensures
        r@ == as_text(b@),
{
    match utf8_string(b) {
        Some(s) => {
            proof {
                encode_utf8_decode_utf8(s@);
            }
            s
        },
        None => String::new(),
    }
}

/// The bytes `src[start..end]` with the white space at both ends removed, as
/// the pair `(lo, hi)` of the remaining range.
pub fn trimmed_range(src: &[u8], start: usize, end: usize) -> (r: (usize, usize))
    requires
        start <= end <= src@.len(),
    ensures
        start <= r.0 <= r.1 <= end,
        src@.subrange(r.0 as int, r.1 as int) == trim(src@.subrange(start as int, end as int)),
{
    let mut lo = start;
    while lo < end && (src[lo] == 32 || src[lo] == 9 || src[lo] == 10 || src[lo] == 13)
        invariant
            start <= lo <= end <= src@.len(),
            trim_front(src@.subrange(start as int, end as int)) == trim_front(
                src@.subrange(lo as int, end as int),
            ),
        decreases end - lo,
    {
        assert(src@.subrange(lo as int, end as int).drop_first() =~= src@.subrange(
            lo + 1,
            end as int,
        ));
        lo = lo + 1;
    }
    let mut hi = end;
    while hi > lo && (src[hi - 1] == 32 || src[hi - 1] == 9 || src[hi - 1] == 10 || src[hi - 1]
        == 13)
        invariant
            start <= lo <= hi <= end <= src@.len(),
            trim_back(src@.subrange(lo as int, end as int)) == trim_back(
                src@.subrange(lo as int, hi as int),
            ),
        decreases hi - lo,
    {
        assert(src@.subrange(lo as int, hi as int).drop_last() =~= src@.subrange(
            lo as int,
            hi - 1,
        ));
        hi = hi - 1;
    }
    (lo, hi)
}

/// The bytes `src[start..end]` with every double quote removed.
pub fn unquoted(src: &[u8], start: usize, end: usize) -> (r: Vec<u8>)
    requires
        start <= end <= src@.len(),
    ensures
        r@ == remove_quotes(src@.subrange(start as int, end as int)),
{
    let mut out: Vec<u8> = Vec::new();
    let mut i = start;
    while i < end
        invariant
            start <= i <= end <= src@.len(),
            out@ == remove_quotes(src@.subrange(start as int, i as int)),
        decreases end - i,
    {
        assert(src@.subrange(start as int, i + 1).drop_last() =~= src@.subrange(
            start as int,
            i as int,
        ));
        if src[i] != 34 {
            out.push(src[i]);
        }
        i = i + 1;
    }
    out
}

/// Appends the bytes `src[start..end]` to `out`.
pub fn push_range(out: &mut Vec<u8>, src: &[u8], start: usize, end: usize)
    requires
        start <= end <= src@.len(),
    ensures
        final(out)@ == old(out)@ + src@.subrange(start as int, end as int),
{
    let mut i = start;
    while i < end
        invariant
            start <= i <= end <= src@.len(),
            out@ == old(out)@ + src@.subrange(start as int, i as int),
        decreases end - i,
    {
        out.push(src[i]);
        assert(out@ =~= old(out)@ + src@.subrange(start as int, i + 1));
        i = i + 1;
    }
}

/// A copy of the bytes `src[start..end]`.
pub fn copy_range(src: &[u8], start: usize, end: usize) -> (r: Vec<u8>)
    requires
        start <= end <= src@.len(),
    ensures
        r@ == src@.subrange(start as int, end as int),
{
    let mut out: Vec<u8> = Vec::new();
    let mut i = start;
    while i < end
        invariant
            start <= i <= end <= src@.len(),
            out@ == src@.subrange(start as int, i as int),
        decreases end - i,
    {
        out.push(src[i]);
        assert(out@ =~= src@.subrange(start as int, i + 1));
        i = i + 1;
    }
    out
}

/// Whether the bytes `src[start..end]` are exactly `word`.
pub fn range_is(src: &[u8], start: usize, end: usize, word: &[u8]) -> (r: bool)
    requires
        start <= end <= src@.len(),
    ensures
        r == (src@.subrange(start as int, end as int) == word@),
{
    if end - start != word.len() {
        return false;
    }
    let mut i: usize = 0;
    while i < word.len()
        invariant
            end - start == word@.len(),
            start <= end <= src@.len(),
            0 <= i <= word@.len(),
            forall|k: int| 0 <= k < i ==> src@[start + k] == word@[k],
        decreases word@.len() - i,
    {
        if src[start + i] != word[i] {
            assert(src@.subrange(start as int, end as int)[i as int] != word@[i as int]);
            return false;
        }
        i = i + 1;
    }
    assert(src@.subrange(start as int, end as int) =~= word@);
    true
}

} // verus!
