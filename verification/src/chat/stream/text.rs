//! Text as bytes: which byte sequences are text, and where text may be cut.

use vstd::prelude::*;
use vstd::utf8::{is_char_boundary_iff_not_is_continuation_byte, valid_utf8, valid_utf8_split};

verus! {

/// Tells whether `bytes` is text, that is, well-formed UTF-8.
///
/// Trusted, not proved: the body asks `std::str::from_utf8`, which returns
/// `Ok` on the byte sequences that are well-formed UTF-8 and on no others. The
/// contract says the same through vstd's definition of well-formed UTF-8.
#[verifier::external_body]
pub(crate) fn is_text(bytes: &[u8]) -> (ok: bool)
    ensures
        ok == valid_utf8(bytes@),
{
    std::str::from_utf8(bytes).is_ok()
}

/// Text may be cut around any of its ASCII bytes: what stands before the byte
/// is text, and so is what stands after it.
pub proof fn lemma_cut_at_ascii(bytes: Seq<u8>, i: int)
    requires
        valid_utf8(bytes),
        0 <= i < bytes.len(),
        bytes[i] <= 0x7f,
    ensures
        valid_utf8(bytes.take(i)),
        valid_utf8(bytes.skip(i + 1)),
{
    is_char_boundary_iff_not_is_continuation_byte(bytes, i);
    valid_utf8_split(bytes, i);
    let tail = bytes.subrange(i, bytes.len() as int);
    assert(tail.subrange(1, tail.len() as int) =~= bytes.skip(i + 1));
}

} // verus!
