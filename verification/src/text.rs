//! The one bridge from raw bytes back to text.
//!
//! Strings leave this library as their UTF-8 bytes (`str::as_bytes`,
//! which vstd specifies); they come back in through the single trusted
//! wrapper below, stated over vstd's UTF-8 model.

use vstd::prelude::*;
use vstd::utf8::{
    decode_utf8, is_leading_byte_width_1, pop_first_scalar, valid_first_scalar, valid_utf8,
};

verus! {

/// Relies on `String::from_utf8`: it succeeds exactly on valid UTF-8
/// input and yields the characters those bytes encode.
#[verifier::external_body]
pub fn string_from_utf8(bytes: Vec<u8>) -> (r: Option<String>)
    ensures
        r is Some <==> valid_utf8(bytes@),
        r matches Some(s) ==> s@ == decode_utf8(bytes@),
{
    String::from_utf8(bytes).ok()
}

/// A sequence of bytes below `0x80` is valid UTF-8, and decodes to
/// exactly those values read as characters.
pub proof fn lemma_ascii_bytes_utf8(bytes: Seq<u8>)
    requires
        forall|i: int| 0 <= i < bytes.len() ==> bytes[i] < 0x80,
    ensures
        valid_utf8(bytes),
        decode_utf8(bytes) == bytes.map_values(|b: u8| b as char),
    decreases bytes.len(),
{
    if bytes.len() == 0 {
        assert(decode_utf8(bytes) =~= bytes.map_values(|b: u8| b as char));
    } else {
        let b0 = bytes[0];
        assert(is_leading_byte_width_1(b0));
        assert(valid_first_scalar(bytes));
        assert(b0 & 0x7f == b0) by (bit_vector)
            requires
                b0 < 0x80,
        ;
        let rest = pop_first_scalar(bytes);
        assert(rest =~= bytes.subrange(1, bytes.len() as int));
        lemma_ascii_bytes_utf8(rest);
        assert(decode_utf8(bytes) =~= bytes.map_values(|b: u8| b as char));
    }
}

} // verus!
