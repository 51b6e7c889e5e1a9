use vstd::prelude::*;

use crate::envelope::{FormatError, MsgPackBytes, VersionedEnvelope};
use crate::json::{decode_json_envelope, encode_json_envelope, json_envelope_of};
use crate::msgpack::{decode_msgpack_envelope, decodes_msgpack, encode_msgpack_envelope, encodes_msgpack};
use crate::registry::{Registry, RegistryView};

verus! {

/// Why a versioned value could not be read or written.
#[derive(Debug, Clone, PartialEq)]
pub enum VersionedError<E> {
    /// The wire value is not a well-formed envelope.
    Format(FormatError),
    /// The envelope's version number has no variant in the registry.
    UnknownVersion(usize),
    /// The shape's own decoder or encoder failed on the payload.
    Payload(E),
}

/// What dispatching `env` gives: the registry has no variant for its version
/// and `r` says so, or `r` is what `decode` returned for the version and
/// payload, tagged with that version.
pub open spec fn decoded_as<P, S, E, D: Fn(usize, P) -> Result<S, E>>(
    reg: RegistryView,
    env: VersionedEnvelope<P>,
    decode: D,
    r: Result<VersionedEnvelope<S>, VersionedError<E>>,
) -> bool {
    if !reg.contains(env.version_number as nat) {
        r == Err::<VersionedEnvelope<S>, VersionedError<E>>(
            VersionedError::UnknownVersion(env.version_number),
        )
    } else {
        exists|out: Result<S, E>|
            #[trigger] decode.ensures((env.version_number, env.data), out) && r == match out {
                Ok(s) => Ok(VersionedEnvelope { version_number: env.version_number, data: s }),
                Err(e) => Err(VersionedError::Payload(e)),
            }
    }
}

/// What encoding `value` gives: the registry has no variant for its version
/// and `r` says so, or `r` is what `encode` returned for the version and
/// shape, tagged with that version.
pub open spec fn encoded_as<S, P, E, En: Fn(usize, S) -> Result<P, E>>(
    reg: RegistryView,
    value: VersionedEnvelope<S>,
    encode: En,
    r: Result<VersionedEnvelope<P>, VersionedError<E>>,
) -> bool {
    if !reg.contains(value.version_number as nat) {
        r == Err::<VersionedEnvelope<P>, VersionedError<E>>(
            VersionedError::UnknownVersion(value.version_number),
        )
    } else {
        exists|out: Result<P, E>|
            #[trigger] encode.ensures((value.version_number, value.data), out) && r == match out {
                Ok(p) => Ok(VersionedEnvelope { version_number: value.version_number, data: p }),
                Err(e) => Err(VersionedError::Payload(e)),
            }
    }
}

/// Decodes an envelope's payload with the decoder of the shape that its
/// version number selects.
pub fn decode_variant<P, S, E, D: Fn(usize, P) -> Result<S, E>>(
    registry: &Registry,
    envelope: VersionedEnvelope<P>,
    decode: D,
) -> (r: Result<VersionedEnvelope<S>, VersionedError<E>>)
    requires
        registry.wf(),
        forall|v: usize, p: P| registry@.contains(v as nat) ==> decode.requires((v, p)),
    ensures
        decoded_as(registry@, envelope, decode, r),
{
    let v = envelope.version_number;
    if !registry.contains(v) {
        return Err(VersionedError::UnknownVersion(v));
    }
    let out = decode(v, envelope.data);
    match out {
        Ok(s) => Ok(VersionedEnvelope { version_number: v, data: s }),
        Err(e) => Err(VersionedError::Payload(e)),
    }
}

/// Encodes a shape with its own encoder and tags the payload with its version
/// number.
pub fn encode_variant<S, P, E, En: Fn(usize, S) -> Result<P, E>>(
    registry: &Registry,
    value: VersionedEnvelope<S>,
    encode: En,
) -> (r: Result<VersionedEnvelope<P>, VersionedError<E>>)
    requires
        registry.wf(),
        forall|v: usize, s: S| registry@.contains(v as nat) ==> encode.requires((v, s)),
    ensures
        encoded_as(registry@, value, encode, r),
{
    let v = value.version_number;
    if !registry.contains(v) {
        return Err(VersionedError::UnknownVersion(v));
    }
    let out = encode(v, value.data);
    match out {
        Ok(p) => Ok(VersionedEnvelope { version_number: v, data: p }),
        Err(e) => Err(VersionedError::Payload(e)),
    }
}

/// What reading a versioned value out of the JSON value `wire` gives.
pub open spec fn deserialized_json<S, E, D: Fn(usize, serde_json::Value) -> Result<S, E>>(
    reg: RegistryView,
    wire: serde_json::Value,
    decode: D,
    r: Result<VersionedEnvelope<S>, VersionedError<E>>,
) -> bool {
    match json_envelope_of(wire) {
        Err(f) => r == Err::<VersionedEnvelope<S>, VersionedError<E>>(VersionedError::Format(f)),
        Ok(env) => decoded_as(reg, env, decode, r),
    }
}

/// What writing `value` as a JSON envelope gives.
pub open spec fn serialized_json<S, E, En: Fn(usize, S) -> Result<serde_json::Value, E>>(
    reg: RegistryView,
    value: VersionedEnvelope<S>,
    encode: En,
    r: Result<serde_json::Value, VersionedError<E>>,
) -> bool {
    exists|env: Result<VersionedEnvelope<serde_json::Value>, VersionedError<E>>|
        #[trigger] encoded_as(reg, value, encode, env) && match env {
            Err(e) => r == Err::<serde_json::Value, VersionedError<E>>(e),
            Ok(env) => r is Ok && crate::json::is_json_envelope(
                r->Ok_0,
                env.version_number as nat,
                env.data,
            ),
        }
}

/// What reading a versioned value out of the MessagePack bytes `wire` gives.
pub open spec fn deserialized_msgpack<S, E, D: Fn(usize, MsgPackBytes) -> Result<S, E>>(
    reg: RegistryView,
    wire: Seq<u8>,
    decode: D,
    r: Result<VersionedEnvelope<S>, VersionedError<E>>,
) -> bool {
    exists|env: Result<VersionedEnvelope<MsgPackBytes>, FormatError>|
        #[trigger] decodes_msgpack(wire, env) && match env {
            Err(f) => r == Err::<VersionedEnvelope<S>, VersionedError<E>>(
                VersionedError::Format(f),
            ),
            Ok(env) => decoded_as(reg, env, decode, r),
        }
}

/// What writing `value` as a MessagePack envelope gives.
pub open spec fn serialized_msgpack<S, E, En: Fn(usize, S) -> Result<MsgPackBytes, E>>(
    reg: RegistryView,
    value: VersionedEnvelope<S>,
    encode: En,
    r: Result<MsgPackBytes, VersionedError<E>>,
) -> bool {
    exists|env: Result<VersionedEnvelope<MsgPackBytes>, VersionedError<E>>|
        #[trigger] encoded_as(reg, value, encode, env) && match env {
            Err(e) => r == Err::<MsgPackBytes, VersionedError<E>>(e),
            Ok(env) => exists|w: Result<MsgPackBytes, FormatError>|
                #[trigger] encodes_msgpack(env, w) && r == match w {
                    Ok(b) => Ok(b),
                    Err(f) => Err(VersionedError::<E>::Format(f)),
                },
        }
}

/// Reads a versioned value out of a JSON envelope.
pub fn deserialize_json<S, E, D: Fn(usize, serde_json::Value) -> Result<S, E>>(
    registry: &Registry,
    wire: &serde_json::Value,
    decode: D,
) -> (r: Result<VersionedEnvelope<S>, VersionedError<E>>)
    requires
        registry.wf(),
        forall|v: usize, p: serde_json::Value|
            registry@.contains(v as nat) ==> decode.requires((v, p)),
    ensures
        deserialized_json(registry@, *wire, decode, r),
{
    match decode_json_envelope(wire) {
        Err(f) => Err(VersionedError::Format(f)),
        Ok(env) => decode_variant(registry, env, decode),
    }
}

/// Writes a versioned value as a JSON envelope.
pub fn serialize_json<S, E, En: Fn(usize, S) -> Result<serde_json::Value, E>>(
    registry: &Registry,
    value: VersionedEnvelope<S>,
    encode: En,
) -> (r: Result<serde_json::Value, VersionedError<E>>)
    requires
        registry.wf(),
        forall|v: usize, s: S| registry@.contains(v as nat) ==> encode.requires((v, s)),
    ensures
        serialized_json(registry@, value, encode, r),
{
    let ghost value0 = value;
    let env = encode_variant(registry, value, encode);
    let ghost env0 = env;
    match env {
        Err(e) => Err(e),
        Ok(env) => {
            let r = Ok(encode_json_envelope(env));
            assert(encoded_as(registry@, value0, encode, env0));
            r
        },
    }
}

/// Reads a versioned value out of a MessagePack envelope.
pub fn deserialize_msgpack<S, E, D: Fn(usize, MsgPackBytes) -> Result<S, E>>(
    registry: &Registry,
    wire: &MsgPackBytes,
    decode: D,
) -> (r: Result<VersionedEnvelope<S>, VersionedError<E>>)
    requires
        registry.wf(),
        forall|v: usize, p: MsgPackBytes| registry@.contains(v as nat) ==> decode.requires((v, p)),
    ensures
        deserialized_msgpack(registry@, wire@, decode, r),
{
    let env = decode_msgpack_envelope(wire);
    let ghost env0 = env;
    let r = match env {
        Err(f) => Err(VersionedError::Format(f)),
        Ok(env) => decode_variant(registry, env, decode),
    };
    assert(decodes_msgpack(wire@, env0));
    r
}

/// Writes a versioned value as a MessagePack envelope.
pub fn serialize_msgpack<S, E, En: Fn(usize, S) -> Result<MsgPackBytes, E>>(
    registry: &Registry,
    value: VersionedEnvelope<S>,
    encode: En,
) -> (r: Result<MsgPackBytes, VersionedError<E>>)
    requires
        registry.wf(),
        forall|v: usize, s: S| registry@.contains(v as nat) ==> encode.requires((v, s)),
    ensures
        serialized_msgpack(registry@, value, encode, r),
{
    let ghost value0 = value;
    let env = encode_variant(registry, value, encode);
    let ghost env0 = env;
    match env {
        Err(e) => Err(e),
        Ok(env) => {
            let w = encode_msgpack_envelope(&env);
            let ghost w0 = w;
            let r = match w {
                Ok(b) => Ok(b),
                Err(f) => Err(VersionedError::Format(f)),
            };
            assert(encodes_msgpack(env, w0));
            assert(encoded_as(registry@, value0, encode, env0));
            r
        },
    }
}


/// The shape's JSON decoder undoes its JSON encoder.
pub open spec fn json_codec_inverse<S, E, En: Fn(usize, S) -> Result<serde_json::Value, E>, D: Fn(
    usize,
    serde_json::Value,
) -> Result<S, E>>(encode: En, decode: D) -> bool {
    forall|v: usize, s: S, p: serde_json::Value, out: Result<S, E>|
        #[trigger] encode.ensures((v, s), Ok(p)) && #[trigger] decode.ensures((v, p), out) ==> out
            == Ok::<S, E>(s)
}

/// The shape's MessagePack decoder undoes its MessagePack encoder: bytes equal
/// to what the encoder wrote decode to the value it was given.
pub open spec fn msgpack_codec_inverse<S, E, En: Fn(usize, S) -> Result<MsgPackBytes, E>, D: Fn(
    usize,
    MsgPackBytes,
) -> Result<S, E>>(encode: En, decode: D) -> bool {
    forall|v: usize, s: S, p: MsgPackBytes, q: MsgPackBytes, out: Result<S, E>|
        #[trigger] encode.ensures((v, s), Ok(p)) && q@ == p@ && #[trigger] decode.ensures(
            (v, q),
            out,
        ) ==> out == Ok::<S, E>(s)
}

/// Writing a registered value as a JSON envelope and reading it back gives
/// the value.
pub proof fn lemma_json_value_round_trip<S, E, En: Fn(usize, S) -> Result<
    serde_json::Value,
    E,
>, D: Fn(usize, serde_json::Value) -> Result<S, E>>(
    reg: RegistryView,
    value: VersionedEnvelope<S>,
    encode: En,
    decode: D,
    wire: serde_json::Value,
    read: Result<VersionedEnvelope<S>, VersionedError<E>>,
)
    requires
        reg.contains(value.version_number as nat),
        json_codec_inverse(encode, decode),
        serialized_json(reg, value, encode, Ok(wire)),
        deserialized_json(reg, wire, decode, read),
    ensures
        read == Ok::<VersionedEnvelope<S>, VersionedError<E>>(value),
{
    let env = choose|env: Result<VersionedEnvelope<serde_json::Value>, VersionedError<E>>|
        #[trigger] encoded_as(reg, value, encode, env) && match env {
            Err(e) => Ok::<serde_json::Value, VersionedError<E>>(wire) == Err::<
                serde_json::Value,
                VersionedError<E>,
            >(e),
            Ok(env) => crate::json::is_json_envelope(wire, env.version_number as nat, env.data),
        };
    let out = choose|out: Result<serde_json::Value, E>|
        #[trigger] encode.ensures((value.version_number, value.data), out) && env == match out {
            Ok(p) => Ok(VersionedEnvelope { version_number: value.version_number, data: p }),
            Err(e) => Err(VersionedError::Payload(e)),
        };
    let p = out->Ok_0;
    let e = env->Ok_0;
    crate::json::lemma_json_round_trip(e, wire);
    let out2 = choose|out2: Result<S, E>|
        #[trigger] decode.ensures((e.version_number, e.data), out2) && read == match out2 {
            Ok(s) => Ok(VersionedEnvelope { version_number: e.version_number, data: s }),
            Err(x) => Err(VersionedError::Payload(x)),
        };
    assert(encode.ensures((value.version_number, value.data), Ok(p)));
    assert(out2 == Ok::<S, E>(value.data));
}

/// Writing a registered value as a MessagePack envelope and reading it back
/// gives the value.
pub proof fn lemma_msgpack_value_round_trip<S, E, En: Fn(usize, S) -> Result<
    MsgPackBytes,
    E,
>, D: Fn(usize, MsgPackBytes) -> Result<S, E>>(
    reg: RegistryView,
    value: VersionedEnvelope<S>,
    encode: En,
    decode: D,
    wire: MsgPackBytes,
    read: Result<VersionedEnvelope<S>, VersionedError<E>>,
)
    requires
        reg.contains(value.version_number as nat),
        msgpack_codec_inverse(encode, decode),
        serialized_msgpack(reg, value, encode, Ok(wire)),
        deserialized_msgpack(reg, wire@, decode, read),
    ensures
        read == Ok::<VersionedEnvelope<S>, VersionedError<E>>(value),
{
    let env = choose|env: Result<VersionedEnvelope<MsgPackBytes>, VersionedError<E>>|
        #[trigger] encoded_as(reg, value, encode, env) && match env {
            Err(e) => Ok::<MsgPackBytes, VersionedError<E>>(wire) == Err::<
                MsgPackBytes,
                VersionedError<E>,
            >(e),
            Ok(env) => exists|w: Result<MsgPackBytes, FormatError>|
                #[trigger] encodes_msgpack(env, w) && Ok::<MsgPackBytes, VersionedError<E>>(wire)
                    == match w {
                    Ok(b) => Ok(b),
                    Err(f) => Err(VersionedError::<E>::Format(f)),
                },
        };
    let out = choose|out: Result<MsgPackBytes, E>|
        #[trigger] encode.ensures((value.version_number, value.data), out) && env == match out {
            Ok(p) => Ok(VersionedEnvelope { version_number: value.version_number, data: p }),
            Err(e) => Err(VersionedError::Payload(e)),
        };
    let p = out->Ok_0;
    let e = env->Ok_0;
    let w = choose|w: Result<MsgPackBytes, FormatError>|
        #[trigger] encodes_msgpack(e, w) && Ok::<MsgPackBytes, VersionedError<E>>(wire) == match w {
            Ok(b) => Ok(b),
            Err(f) => Err(VersionedError::<E>::Format(f)),
        };
    assert(w == Ok::<MsgPackBytes, FormatError>(wire));
    let denv = choose|denv: Result<VersionedEnvelope<MsgPackBytes>, FormatError>|
        #[trigger] decodes_msgpack(wire@, denv) && match denv {
            Err(f) => read == Err::<VersionedEnvelope<S>, VersionedError<E>>(
                VersionedError::Format(f),
            ),
            Ok(denv) => decoded_as(reg, denv, decode, read),
        };
    crate::msgpack::lemma_msgpack_round_trip(e, w, wire, denv);
    let d = denv->Ok_0;
    let out2 = choose|out2: Result<S, E>|
        #[trigger] decode.ensures((d.version_number, d.data), out2) && read == match out2 {
            Ok(s) => Ok(VersionedEnvelope { version_number: d.version_number, data: s }),
            Err(x) => Err(VersionedError::Payload(x)),
        };
    assert(encode.ensures((value.version_number, value.data), Ok(p)));
    assert(out2 == Ok::<S, E>(value.data));
}

/// A registered value written as a JSON envelope and as a MessagePack
/// envelope reads back as the same value from either.
pub proof fn lemma_cross_format<S, E, Ej: Fn(usize, S) -> Result<serde_json::Value, E>, Dj: Fn(
    usize,
    serde_json::Value,
) -> Result<S, E>, Em: Fn(usize, S) -> Result<MsgPackBytes, E>, Dm: Fn(
    usize,
    MsgPackBytes,
) -> Result<S, E>>(
    reg: RegistryView,
    value: VersionedEnvelope<S>,
    encode_json: Ej,
    decode_json: Dj,
    encode_msgpack: Em,
    decode_msgpack: Dm,
    json_wire: serde_json::Value,
    msgpack_wire: MsgPackBytes,
    from_json: Result<VersionedEnvelope<S>, VersionedError<E>>,
    from_msgpack: Result<VersionedEnvelope<S>, VersionedError<E>>,
)
    requires
        reg.contains(value.version_number as nat),
        json_codec_inverse(encode_json, decode_json),
        msgpack_codec_inverse(encode_msgpack, decode_msgpack),
        serialized_json(reg, value, encode_json, Ok(json_wire)),
        serialized_msgpack(reg, value, encode_msgpack, Ok(msgpack_wire)),
        deserialized_json(reg, json_wire, decode_json, from_json),
        deserialized_msgpack(reg, msgpack_wire@, decode_msgpack, from_msgpack),
    ensures
        from_json is Ok,
        from_json == from_msgpack,
{
    lemma_json_value_round_trip(reg, value, encode_json, decode_json, json_wire, from_json);
    lemma_msgpack_value_round_trip(
        reg,
        value,
        encode_msgpack,
        decode_msgpack,
        msgpack_wire,
        from_msgpack,
    );
}

/// A JSON envelope whose version number has no variant in the registry is
/// rejected as an unknown version, whatever the decoders would do.
pub proof fn lemma_json_unknown_version<S, E, D: Fn(usize, serde_json::Value) -> Result<S, E>>(
    reg: RegistryView,
    wire: serde_json::Value,
    decode: D,
    r: Result<VersionedEnvelope<S>, VersionedError<E>>,
)
    requires
        json_envelope_of(wire) is Ok,
        !reg.contains(json_envelope_of(wire)->Ok_0.version_number as nat),
        deserialized_json(reg, wire, decode, r),
    ensures
        r == Err::<VersionedEnvelope<S>, VersionedError<E>>(
            VersionedError::UnknownVersion(json_envelope_of(wire)->Ok_0.version_number),
        ),
{
}

/// The MessagePack envelope of a version number that has no variant in the
/// registry is rejected as an unknown version, whatever its payload.
pub proof fn lemma_msgpack_unknown_version<S, E, D: Fn(usize, MsgPackBytes) -> Result<S, E>>(
    reg: RegistryView,
    version: usize,
    payload: Seq<u8>,
    decode: D,
    r: Result<VersionedEnvelope<S>, VersionedError<E>>,
)
    requires
        payload.len() <= u32::MAX,
        !reg.contains(version as nat),
        deserialized_msgpack(reg, crate::msgpack::envelope_bytes(version as nat, payload), decode, r),
    ensures
        r == Err::<VersionedEnvelope<S>, VersionedError<E>>(VersionedError::UnknownVersion(version)),
{
    let denv = choose|denv: Result<VersionedEnvelope<MsgPackBytes>, FormatError>|
        #[trigger] decodes_msgpack(crate::msgpack::envelope_bytes(version as nat, payload), denv)
            && match denv {
            Err(f) => r == Err::<VersionedEnvelope<S>, VersionedError<E>>(
                VersionedError::Format(f),
            ),
            Ok(denv) => decoded_as(reg, denv, decode, r),
        };
    assert(denv is Ok && denv->Ok_0.version_number == version);
}

} // verus!
