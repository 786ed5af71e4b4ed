use unicode_segmentation::UnicodeSegmentation;
use unicode_width::UnicodeWidthStr;
use vstd::prelude::*;
use vstd::utf8::{
    decode_first_scalar, decode_utf8, encode_utf8, is_char_boundary, pop_first_scalar, valid_utf8,
};

verus! {

/// The number of terminal columns that `unicode_width::UnicodeWidthStr::width`
/// gives a string.
pub uninterp spec fn display_width(s: Seq<char>) -> nat;

/// The extended grapheme clusters that
/// `unicode_segmentation::UnicodeSegmentation::graphemes(s, true)` yields,
/// in order.
pub uninterp spec fn grapheme_clusters(s: Seq<char>) -> Seq<Seq<char>>;

/// Calls `UnicodeWidthStr::width` (unicode-width). Trusted: the result is
/// the name `display_width` applied to the string's characters; nothing more
/// is claimed of it.
#[verifier::external_body]
pub(crate) fn str_width(s: &str) -> (w: usize)
    ensures
        w as nat == display_width(s@),
{
    s.width()
}

/// Calls `UnicodeSegmentation::graphemes(s, true)` (unicode-segmentation)
/// and copies each cluster into a `String`. Trusted: the clusters are those
/// that the name `grapheme_clusters` gives for the string, in order.
#[verifier::external_body]
pub(crate) fn graphemes(s: &str) -> (g: Vec<String>)
    ensures
        g@.len() == grapheme_clusters(s@).len(),
        forall|i: int| 0 <= i < g@.len() ==> #[trigger] g@[i]@ == grapheme_clusters(s@)[i],
{
    UnicodeSegmentation::graphemes(s, true).map(|g| g.to_string()).collect()
}

/// Calls `String::from_utf8` (std) and drops its error. Trusted: a string
/// comes back exactly when the bytes are well-formed UTF-8, and its
/// characters are the ones the bytes encode.
#[verifier::external_body]
pub(crate) fn string_from_utf8(bytes: Vec<u8>) -> (s: Option<String>)
    ensures
        s is Some <==> valid_utf8(bytes@),
        s matches Some(s) ==> s@ == decode_utf8(bytes@),
{
    String::from_utf8(bytes).ok()
}

/// Calls `String::insert` (std). Trusted: as std documents, `idx` is a byte
/// offset that must lie on a character boundary (std panics otherwise), and
/// the UTF-8 encoding of `ch` is spliced into the string's bytes there.
#[verifier::external_body]
pub(crate) fn string_insert(s: &mut String, idx: usize, ch: char)
    requires
        is_char_boundary(encode_utf8(old(s)@), idx as int),
    ensures
        encode_utf8(final(s)@) == encode_utf8(old(s)@).subrange(0, idx as int) + encode_utf8(
            seq![ch],
        ) + encode_utf8(old(s)@).subrange(idx as int, encode_utf8(old(s)@).len() as int),
{
    s.insert(idx, ch)
}

/// Calls `String::remove` (std). Trusted: as std documents, `idx` is a byte
/// offset before the end that must lie on a character boundary (std panics
/// otherwise); the character encoded there is taken out and returned.
#[verifier::external_body]
pub(crate) fn string_remove(s: &mut String, idx: usize) -> (c: char)
    requires
        idx < encode_utf8(old(s)@).len(),
        is_char_boundary(encode_utf8(old(s)@), idx as int),
    ensures
        ({
            let bytes = encode_utf8(old(s)@);
            let rest = bytes.subrange(idx as int, bytes.len() as int);
            &&& c as u32 == decode_first_scalar(rest)
            &&& encode_utf8(final(s)@) == bytes.subrange(0, idx as int) + pop_first_scalar(rest)
        }),
{
    s.remove(idx)
}

} // verus!
