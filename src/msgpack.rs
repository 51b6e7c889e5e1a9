use vstd::prelude::*;

use crate::envelope::{FormatError, MsgPackBytes, VersionedEnvelope};

verus! {

#[verifier::external_type_specification]
#[verifier::external_body]
pub struct ExEncodeError(rmp_serde::encode::Error);

#[verifier::external_type_specification]
#[verifier::external_body]
pub struct ExDecodeError(rmp_serde::decode::Error);

/// The `k` low bytes of `n`, most significant first.
pub open spec fn be_bytes(n: nat, k: nat) -> Seq<u8>
    decreases k,
{
    if k == 0 {
        Seq::empty()
    } else {
        be_bytes(n / 256, (k - 1) as nat).push((n % 256) as u8)
    }
}

/// An unsigned integer in MessagePack's shortest form.
pub open spec fn uint_bytes(v: nat) -> Seq<u8> {
    if v < 0x80 {
        seq![v as u8]
    } else if v < 0x100 {
        seq![0xccu8, v as u8]
    } else if v < 0x1_0000 {
        seq![0xcdu8] + be_bytes(v, 2)
    } else if v < 0x1_0000_0000 {
        seq![0xceu8] + be_bytes(v, 4)
    } else {
        seq![0xcfu8] + be_bytes(v, 8)
    }
}

/// A MessagePack byte string (bin 8, 16 or 32, the shortest that fits).
pub open spec fn bin_bytes(p: Seq<u8>) -> Seq<u8> {
    if p.len() < 0x100 {
        seq![0xc4u8, p.len() as u8] + p
    } else if p.len() < 0x1_0000 {
        seq![0xc5u8] + be_bytes(p.len(), 2) + p
    } else {
        seq![0xc6u8] + be_bytes(p.len(), 4) + p
    }
}

/// The binary envelope of a version number and payload bytes: a two-element
/// array of the version number and the payload as a byte string.
pub open spec fn envelope_bytes(version: nat, payload: Seq<u8>) -> Seq<u8> {
    seq![0x92u8] + uint_bytes(version) + bin_bytes(payload)
}

/// What MessagePack decoding of a (version number, byte string) pair gives
/// for these bytes, if it succeeds.
pub uninterp spec fn msgpack_pair_of(b: Seq<u8>) -> Option<(nat, Seq<u8>)>;

/// Relies on rmp_serde::to_vec: a pair is written as a two-element array, a
/// `usize` as an unsigned integer in its shortest form, and a
/// serde_bytes::Bytes as a byte string whose length prefix is the shortest
/// that fits (the length is taken as a `u32`). Writing into a `Vec` fails
/// only when allocation fails, and none of these items has an error of its
/// own.
#[verifier::external_body]
fn msgpack_pair_to_vec(version: usize, payload: &Vec<u8>) -> (r: Result<
    Vec<u8>,
    rmp_serde::encode::Error,
>)
    requires
        payload@.len() <= u32::MAX,
    ensures
        r is Ok,
        r matches Ok(b) ==> b@ == envelope_bytes(version as nat, payload@),
{
    rmp_serde::to_vec(&(version, serde_bytes::Bytes::new(payload.as_slice())))
}

/// Relies on rmp_serde::from_slice for a `(usize, serde_bytes::ByteBuf)`: the
/// outcome depends on the bytes alone, and the bytes that rmp_serde::to_vec
/// writes for such a pair read back as that pair.
#[verifier::external_body]
fn msgpack_pair_from_slice(b: &[u8]) -> (r: Result<(usize, Vec<u8>), rmp_serde::decode::Error>)
    ensures
        r is Ok ==> msgpack_pair_of(b@) == Some((r->Ok_0.0 as nat, r->Ok_0.1@)),
        r is Err ==> msgpack_pair_of(b@) is None,
        forall|v: nat, p: Seq<u8>|
            v <= usize::MAX && p.len() <= u32::MAX && b@ == envelope_bytes(v, p) ==> (r is Ok
                && r->Ok_0.0 as nat == v && r->Ok_0.1@ == p),
{
    match rmp_serde::from_slice::<(usize, serde_bytes::ByteBuf)>(b) {
        Ok((v, p)) => Ok((v, p.into_vec())),
        Err(e) => Err(e),
    }
}

/// The outcome of reading a binary envelope out of `b`.
pub open spec fn decodes_msgpack(b: Seq<u8>, r: Result<VersionedEnvelope<MsgPackBytes>, FormatError>) -> bool {
    &&& match r {
        Ok(env) => msgpack_pair_of(b) == Some((env.version_number as nat, env.data@)),
        Err(e) => msgpack_pair_of(b) is None && e == FormatError::Malformed,
    }
    &&& forall|v: nat, p: Seq<u8>|
        v <= usize::MAX && p.len() <= u32::MAX && b == envelope_bytes(v, p) ==> (r is Ok
            && r->Ok_0.version_number as nat == v && r->Ok_0.data@ == p)
}

/// The outcome of writing `env` as a binary envelope.
pub open spec fn encodes_msgpack(env: VersionedEnvelope<MsgPackBytes>, r: Result<MsgPackBytes, FormatError>) -> bool {
    &&& env.data@.len() > u32::MAX ==> r == Err::<MsgPackBytes, FormatError>(
        FormatError::PayloadTooLarge,
    )
    &&& env.data@.len() <= u32::MAX ==> r is Ok
    &&& r matches Ok(b) ==> b@ == envelope_bytes(env.version_number as nat, env.data@)
}

/// Writes an envelope as MessagePack bytes.
pub fn encode_msgpack_envelope(envelope: &VersionedEnvelope<MsgPackBytes>) -> (r: Result<
    MsgPackBytes,
    FormatError,
>)
    ensures
        encodes_msgpack(*envelope, r),
{
    if envelope.data.0.len() > u32::MAX as usize {
        return Err(FormatError::PayloadTooLarge);
    }
    match msgpack_pair_to_vec(envelope.version_number, &envelope.data.0) {
        Ok(b) => Ok(MsgPackBytes(b)),
        Err(_) => {
            // the writer does not fail on a payload whose length fits a `u32`
            proof {
                assert(false);
            }
            Err(FormatError::PayloadTooLarge)
        },
    }
}

/// Reads an envelope out of MessagePack bytes, leaving the payload encoded.
pub fn decode_msgpack_envelope(wire: &MsgPackBytes) -> (r: Result<
    VersionedEnvelope<MsgPackBytes>,
    FormatError,
>)
    ensures
        decodes_msgpack(wire@, r),
{
    match msgpack_pair_from_slice(wire.0.as_slice()) {
        Ok((v, p)) => Ok(VersionedEnvelope { version_number: v, data: MsgPackBytes(p) }),
        Err(_) => Err(FormatError::Malformed),
    }
}

/// Reading back the bytes written for an envelope gives that envelope.
pub proof fn lemma_msgpack_round_trip(
    env: VersionedEnvelope<MsgPackBytes>,
    written: Result<MsgPackBytes, FormatError>,
    wire: MsgPackBytes,
    read: Result<VersionedEnvelope<MsgPackBytes>, FormatError>,
)
    requires
        encodes_msgpack(env, written),
        written == Ok::<MsgPackBytes, FormatError>(wire),
        decodes_msgpack(wire@, read),
    ensures
        read is Ok,
        read->Ok_0.version_number == env.version_number,
        read->Ok_0.data@ == env.data@,
{
}

} // verus!
