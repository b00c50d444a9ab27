//! Windows-1252 text for clients that expect it.
use vstd::prelude::*;
use vstd::utf8::{encode_utf8, is_ascii_chars};

verus! {

/// The Windows-1252 bytes of `s`, unmappable characters written as HTML
/// numeric character references.
pub uninterp spec fn cp1252_of(s: Seq<char>) -> Seq<u8>;

/// Relies on `encoding_rs::Encoding::encode` with `WINDOWS_1252`: the bytes
/// depend on the text alone, and ASCII text comes back as its own bytes. The
/// bound on the length keeps its buffer-size computation from overflowing,
/// the one case in which it panics.
#[verifier::external_body]
pub fn to_cp1252(s: &str) -> (r: Vec<u8>)
    requires
        encode_utf8(s@).len() <= usize::MAX / 8,
    ensures
        r@ == cp1252_of(s@),
        is_ascii_chars(s@) ==> r@ == encode_utf8(s@),
{
    let (encoded, _, _) = encoding_rs::WINDOWS_1252.encode(s);
    encoded.into_owned()
}

} // verus!
