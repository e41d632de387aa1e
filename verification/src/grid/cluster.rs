//! Grapheme cluster boundaries.
use unicode_segmentation::GraphemeCursor;
use vstd::prelude::*;
use vstd::string::StringSliceAdditionalSpecFns;
use vstd::utf8::{
    encode_scalar, encode_utf8, encode_utf8_first_scalar, encode_utf8_valid_utf8, is_char_boundary,
    pop_first_scalar,
};

verus! {

/// Whether the `unicode-segmentation` crate sees an extended grapheme cluster
/// boundary of a text at a byte offset.
pub uninterp spec fn grapheme_boundary(text: Seq<char>, offset: int) -> bool;

/// `unicode_segmentation::GraphemeCursor::is_boundary` on the whole text: with
/// nothing before the chunk it needs no further context, and its answer depends
/// on the text and the offset alone. Both ends of a text are boundaries, and so
/// is a place between two printable ASCII scalars.
#[verifier::external_body]
fn is_grapheme_boundary(text: &str, offset: usize) -> (r: bool)
    requires
        is_char_boundary(text.spec_bytes(), offset as int),
    ensures
        r == grapheme_boundary(text@, offset as int),
        offset == 0 || offset == text.spec_bytes().len() ==> r,
        0 < offset < text.spec_bytes().len() && 0x20 <= text.spec_bytes()[offset - 1] <= 0x7e
            && 0x20 <= text.spec_bytes()[offset as int] <= 0x7e ==> r,
{
    GraphemeCursor::new(offset, text.len(), true).is_boundary(text, 0).unwrap_or(true)
}

/// The encoding of a text is that of its parts, and the parts meet at a
/// character boundary.
pub proof fn lemma_encoding_splits(left: Seq<char>, right: Seq<char>)
    ensures
        encode_utf8(left + right) == encode_utf8(left) + encode_utf8(right),
        is_char_boundary(encode_utf8(left + right), encode_utf8(left).len() as int),
    decreases left.len(),
{
    let all = left + right;
    encode_utf8_valid_utf8(all);
    if left.len() == 0 {
        assert(all =~= right);
        assert(encode_utf8(left) + encode_utf8(right) =~= encode_utf8(right));
    } else {
        let rest = left.drop_first();
        lemma_encoding_splits(rest, right);
        assert(all.drop_first() =~= rest + right);
        let head = encode_scalar(all[0] as u32);
        assert(encode_utf8(all) =~= encode_utf8(left) + encode_utf8(right));
        encode_utf8_first_scalar(all);
        assert(pop_first_scalar(encode_utf8(all)) =~= encode_utf8(rest + right));
        assert(encode_utf8(left).len() == head.len() + encode_utf8(rest).len());
    }
}

/// A printable ASCII scalar.
pub open spec fn is_printable(c: char) -> bool {
    ' ' <= c <= '~'
}

/// A scalar joins the cluster that a text ends with. Two printable ASCII
/// scalars never join.
pub open spec fn joins_cluster(previous: Seq<char>, c: char) -> bool {
    &&& !(previous.len() > 0 && is_printable(previous.last()) && is_printable(c))
    &&& !grapheme_boundary(previous.push(c), encode_utf8(previous).len() as int)
}

proof fn lemma_last_byte(text: Seq<char>)
    requires
        text.len() > 0,
        is_printable(text.last()),
    ensures
        encode_utf8(text).len() > 0,
        0x20 <= encode_utf8(text).last() <= 0x7e,
{
    let c = text.last();
    assert(text =~= text.drop_last() + seq![c]);
    lemma_encoding_splits(text.drop_last(), seq![c]);
    lemma_single_byte(c);
}

proof fn lemma_single_byte(c: char)
    requires
        is_printable(c),
    ensures
        encode_utf8(seq![c]).len() == 1,
        0x20 <= encode_utf8(seq![c])[0] <= 0x7e,
{
    assert(seq![c].drop_first() =~= Seq::<char>::empty());
    assert(encode_utf8(Seq::<char>::empty()) =~= Seq::<u8>::empty());
    assert(encode_utf8(seq![c]) =~= encode_scalar(c as u32));
    let code = c as u32;
    assert(0x20 <= code <= 0x7e ==> 0x20 <= (code & 0x7f) as u8 <= 0x7e) by (bit_vector);
}

/// Test whether a scalar stays in the cluster of the text before it.
pub fn scalar_extends_grapheme(previous: &str, c: char) -> (r: bool)
    ensures
        r == joins_cluster(previous@, c),
{
    let mut text: String = previous.to_owned();
    text.push(c);
    proof {
        assert(text@ =~= previous@ + seq![c]);
        lemma_encoding_splits(previous@, seq![c]);
        assert(previous@.push(c) =~= previous@ + seq![c]);
        if previous@.len() > 0 && is_printable(previous@.last()) && is_printable(c) {
            lemma_last_byte(previous@);
            lemma_single_byte(c);
        }
    }
    !is_grapheme_boundary(text.as_str(), previous.as_bytes().len())
}

} // verus!
