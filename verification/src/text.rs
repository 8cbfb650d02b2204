//! Text fields, written and read by borsh.
//!
//! The two functions here are the only places where the library calls borsh. Verus
//! does not look into them: it takes their contracts as given. Each contract restates,
//! over the functions of [`crate::wire`], what borsh's own code for `str` and `String`
//! does; the framing of records and payloads around the text fields is verified.
use crate::wire::{parse_text, text_bytes, text_fits};
use vstd::prelude::*;

verus! {

/// The error that borsh reports, `std::io::Error`, of which nothing is looked at.
#[verifier::external_type_specification]
#[verifier::external_body]
pub struct ExIoError(std::io::Error);

/// `borsh::to_vec` on a `str`. Taken on trust: the result is the count of the text's
/// UTF-8 bytes as four little-endian bytes, then the bytes themselves, and the call
/// fails exactly where the count does not fit in 32 bits.
#[verifier::external_body]
pub(crate) fn borsh_text_to_vec(text: &str) -> (r: Result<Vec<u8>, std::io::Error>)
    ensures
        r is Ok <==> text_fits(text@),
        r matches Ok(bytes) ==> bytes@ == text_bytes(text@),
{
    borsh::to_vec(text)
}

/// `BorshDeserialize::deserialize` for `String`, on a byte slice. Taken on trust: it
/// reads the four-byte count and as many bytes as the count states from the front of
/// `bytes`, and hands back the text with the bytes that follow it; it fails exactly
/// where fewer than four bytes are there, where the count states more bytes than
/// follow it, or where the counted bytes are not UTF-8.
#[verifier::external_body]
pub(crate) fn borsh_take_text<'a>(bytes: &'a [u8]) -> (r: Result<
    (String, &'a [u8]),
    std::io::Error,
>)
    ensures
        r is Ok <==> parse_text(bytes@) is Some,
        r matches Ok((text, rest)) ==> parse_text(bytes@) matches Some((t, used)) && text@ == t
            && rest@ == bytes@.skip(used as int),
{
    let mut rest = bytes;
    let text = <String as borsh::BorshDeserialize>::deserialize(&mut rest)?;
    Ok((text, rest))
}

} // verus!
