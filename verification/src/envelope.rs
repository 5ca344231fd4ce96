//! The on-disk envelope: a program's byte stream is persisted as its length
//! in eight little-endian bytes followed by the bytes themselves.
use vstd::bytes::*;
use vstd::prelude::*;

verus! {

/// Relies on bincode::serialize: with its default configuration a byte
/// vector is written as its length in eight little-endian bytes followed by
/// its bytes, one each. Serializing a byte vector cannot fail — it writes
/// into a vector under no size limit and no element's encoding errs — so
/// the call always succeeds.
#[verifier::external_body]
fn bincode_encode(data: &Vec<u8>) -> (r: Option<Vec<u8>>)
    ensures
        r is Some,
        match r {
            Some(out) => out@ == spec_u64_to_le_bytes(data@.len() as u64) + data@,
            None => true,
        },
{
    bincode::serialize(data).ok()
}

/// Relies on bincode::deserialize: with its default configuration it reads
/// the eight-byte little-endian length, then that many bytes, ignoring
/// anything after them; a buffer too short for either part is an error.
#[verifier::external_body]
fn bincode_decode(buf: &Vec<u8>) -> (r: Option<Vec<u8>>)
    ensures
        r is Some <==> (buf@.len() >= 8 && 8 + spec_u64_from_le_bytes(buf@.subrange(0, 8))
            <= buf@.len()),
        match r {
            Some(data) => data@ == buf@.subrange(
                8,
                8 + spec_u64_from_le_bytes(buf@.subrange(0, 8)) as int,
            ),
            None => true,
        },
{
    bincode::deserialize::<Vec<u8>>(buf.as_slice()).ok()
}

/// Wraps an assembled byte stream in the envelope that program files carry
/// on disk: sealing always succeeds and yields the eight-byte little-endian
/// length followed by the stream.
pub fn seal_program(code: &Vec<u8>) -> (r: Option<Vec<u8>>)
    ensures
        r is Some,
        match r {
            Some(out) => out@ == spec_u64_to_le_bytes(code@.len() as u64) + code@,
            None => true,
        },
{
    bincode_encode(code)
}

/// Opens a program file's envelope: succeeds exactly when the buffer holds
/// the eight-byte length and at least that many bytes after it, and returns
/// those bytes.
pub fn open_program(buf: &Vec<u8>) -> (r: Option<Vec<u8>>)
    ensures
        r is Some <==> (buf@.len() >= 8 && 8 + spec_u64_from_le_bytes(buf@.subrange(0, 8))
            <= buf@.len()),
        match r {
            Some(code) => code@ == buf@.subrange(
                8,
                8 + spec_u64_from_le_bytes(buf@.subrange(0, 8)) as int,
            ),
            None => true,
        },
{
    bincode_decode(buf)
}

/// A sealed program opens to the very bytes that were sealed.
pub proof fn lemma_envelope_round_trip(code: Seq<u8>, out: Seq<u8>)
    requires
        code.len() <= usize::MAX,
        out == spec_u64_to_le_bytes(code.len() as u64) + code,
    ensures
        out.len() >= 8,
        8 + spec_u64_from_le_bytes(out.subrange(0, 8)) <= out.len(),
        out.subrange(8, 8 + spec_u64_from_le_bytes(out.subrange(0, 8)) as int) == code,
{
    lemma_auto_spec_u64_to_from_le_bytes();
    assert(out.subrange(0, 8) =~= spec_u64_to_le_bytes(code.len() as u64));
    assert(out.subrange(8, 8 + code.len() as int) =~= code);
}

} // verus!
