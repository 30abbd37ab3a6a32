//! The structural editor: one byte span of a manifest replaced by a new
//! literal, every other byte kept.

use vstd::prelude::*;
use vstd::utf8::*;
use vstd::string::StringSliceAdditionalSpecFns;
use crate::model::ByteSpan;
use crate::text::{push_range, utf8_string};

verus! {

broadcast use {valid_utf8_concat, encode_utf8_valid_utf8};

/// `src` with the bytes of `span` replaced by `literal`.
pub open spec fn spliced(src: Seq<u8>, span: ByteSpan, literal: Seq<u8>) -> Seq<u8> {
    src.subrange(0, span.start as int) + literal + src.subrange(span.end as int, src.len() as int)
}

/// A span that can be replaced in `src`: in bounds, and starting and ending
/// on character boundaries.
pub open spec fn valid_span(src: Seq<u8>, span: ByteSpan) -> bool {
    &&& span.start <= span.end <= src.len()
    &&& is_char_boundary(src, span.start as int)
    &&& is_char_boundary(src, span.end as int)
}

/// Whether `span` can be replaced in `source`.
pub fn span_is_valid(source: &str, span: ByteSpan) -> (r: bool)
    ensures
        r == valid_span(source.spec_bytes(), span),
{
    span.start <= span.end && span.end <= source.as_bytes().len() && source.is_char_boundary(
        span.start,
    ) && source.is_char_boundary(span.end)
}

/// Replaces the bytes of `span` in `source` by `literal`; the caller quotes
/// the literal as the grammar needs.
pub fn replace_span(source: &str, span: ByteSpan, literal: &str) -> (r: String)
    requires
        valid_span(source.spec_bytes(), span),
    ensures
        encode_utf8(r@) == spliced(source.spec_bytes(), span, literal.spec_bytes()),
{
    let src = source.as_bytes();
    let lit = literal.as_bytes();
    let mut out: Vec<u8> = Vec::new();
    push_range(&mut out, src, 0, span.start);
    push_range(&mut out, lit, 0, lit.len());
    push_range(&mut out, src, span.end, src.len());
    proof {
        let b = src@;
        valid_utf8_split(b, span.start as int);
        valid_utf8_split(b, span.end as int);
        assert(lit@.subrange(0, lit@.len() as int) =~= lit@);
        assert(out@ =~= spliced(b, span, lit@));
        assert(valid_utf8(b.subrange(0, span.start as int) + lit@));
    }
    match utf8_string(out) {
        Some(s) => s,
        // not reached: the spliced bytes are valid UTF-8, as proved above
        None => String::new(),
    }
}

/// Every byte before the span is kept in place, and every byte after it is
/// kept, shifted by the change in length.
pub proof fn lemma_edit_preserves_untouched_bytes(src: Seq<u8>, span: ByteSpan, literal: Seq<u8>)
    requires
        span.start <= span.end <= src.len(),
    ensures
        ({
            let out = spliced(src, span, literal);
            &&& out.len() == src.len() - (span.end - span.start) + literal.len()
            &&& forall|i: int| 0 <= i < span.start ==> out[i] == src[i]
            &&& forall|i: int|
                span.end <= i < src.len() ==> out[i - span.end + span.start + literal.len()]
                    == src[i]
            &&& out.subrange(span.start as int, span.start + literal.len()) == literal
        }),
{
    let out = spliced(src, span, literal);
    assert(out.subrange(span.start as int, span.start + literal.len()) =~= literal);
}

} // verus!
