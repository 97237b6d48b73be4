use vstd::prelude::*;
use vstd::string::*;
use vstd::utf8::*;

verus! {

/// Relies on std::str::from_utf8: it succeeds exactly on valid UTF-8, and the
/// string then holds the characters that the bytes encode.
#[verifier::external_body]
fn utf8_decode(bytes: &[u8]) -> (r: Option<String>)
    ensures
        r is Some <==> valid_utf8(bytes@),
        r matches Some(s) ==> s@ == decode_utf8(bytes@),
{
    std::str::from_utf8(bytes).ok().map(|s| s.to_owned())
}

/// The stored form of a checkpoint revision: its UTF-8 bytes.
pub fn encode_checkpoint(revision: &String) -> (r: Vec<u8>)
    ensures
        r@ == encode_utf8(revision@),
{
    revision.as_str().as_bytes_vec()
}

/// The last indexed revision, from what the checkpoint store handed back.
/// Nothing stored, a failed read and bytes that are not UTF-8 all mean that
/// nothing was indexed yet.
pub fn decode_checkpoint(stored: &Result<Option<Vec<u8>>, String>) -> (r: Option<String>)
    ensures
        r is Some <==> (stored matches Ok(Some(b)) && valid_utf8(b@)),
        stored matches Ok(Some(b)) ==> (valid_utf8(b@) ==> (r matches Some(s) && s@
            == decode_utf8(b@))),
{
    match stored {
        Ok(Some(b)) => utf8_decode(b.as_slice()),
        _ => None,
    }
}

/// Decoding the stored form of a revision gives the revision back.
pub proof fn lemma_checkpoint_round_trip(revision: Seq<char>)
    ensures
        valid_utf8(encode_utf8(revision)),
        decode_utf8(encode_utf8(revision)) == revision,
{
    broadcast use encode_utf8_valid_utf8, encode_utf8_decode_utf8;
}

} // verus!
