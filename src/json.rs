use vstd::prelude::*;

use crate::envelope::{FormatError, VersionedEnvelope};

verus! {

#[verifier::external_type_specification]
#[verifier::external_body]
pub struct ExJsonValue(serde_json::Value);

/// The member stored under `key` in a JSON object; none for a value that is
/// not an object or has no such member.
pub uninterp spec fn json_member(v: serde_json::Value, key: Seq<char>) -> Option<serde_json::Value>;

/// A JSON value read as a `u64`: some for an integer in `u64`'s range.
pub uninterp spec fn json_u64(v: serde_json::Value) -> Option<u64>;

/// Relies on serde_json::Value::get with a string key: the member of an
/// object under that key, none for any other value.
#[verifier::external_body]
fn json_get(v: &serde_json::Value, key: &str) -> (r: Option<serde_json::Value>)
    ensures
        r == json_member(*v, key@),
{
    v.get(key).cloned()
}

/// Relies on serde_json::Value::as_u64.
#[verifier::external_body]
fn json_as_u64(v: &serde_json::Value) -> (r: Option<u64>)
    ensures
        r == json_u64(*v),
{
    v.as_u64()
}

/// Relies on serde_json::Value::from a `u64`: a number that reads back as
/// that `u64`.
#[verifier::external_body]
fn json_from_u64(n: u64) -> (r: serde_json::Value)
    ensures
        json_u64(r) == Some(n),
{
    serde_json::Value::from(n)
}

/// Relies on serde_json::Value's FromIterator of key/value pairs: an object
/// holding exactly those members.
#[verifier::external_body]
fn json_object2(k1: &str, v1: serde_json::Value, k2: &str, v2: serde_json::Value) -> (r:
    serde_json::Value)
    requires
        k1@ != k2@,
    ensures
        json_member(r, k1@) == Some(v1),
        json_member(r, k2@) == Some(v2),
        forall|k: Seq<char>| k != k1@ && k != k2@ ==> json_member(r, k) is None,
{
    serde_json::Value::from_iter([(k1, v1), (k2, v2)])
}

/// `w` is a JSON envelope of `version` and `data`: an object with exactly two
/// members, `version_number` holding that number and `data` holding `data`.
pub open spec fn is_json_envelope(w: serde_json::Value, version: nat, data: serde_json::Value) -> bool {
    &&& json_member(w, "version_number"@) matches Some(n) && json_u64(n) == Some(version as u64)
    &&& json_member(w, "data"@) == Some(data)
    &&& forall|k: Seq<char>|
        k != "version_number"@ && k != "data"@ ==> json_member(w, k) is None
}

/// What reading a JSON envelope out of `w` gives.
pub open spec fn json_envelope_of(w: serde_json::Value) -> Result<
    VersionedEnvelope<serde_json::Value>,
    FormatError,
> {
    match json_member(w, "version_number"@) {
        None => Err(FormatError::MissingVersion),
        Some(n) => match json_u64(n) {
            Some(v) if v <= usize::MAX => match json_member(w, "data"@) {
                None => Err(FormatError::MissingData),
                Some(d) => Ok(VersionedEnvelope { version_number: v as usize, data: d }),
            },
            _ => Err(FormatError::InvalidVersion),
        },
    }
}

/// Writes an envelope as a JSON object with the members `version_number`
/// and `data`.
pub fn encode_json_envelope(envelope: VersionedEnvelope<serde_json::Value>) -> (r: serde_json::Value)
    ensures
        is_json_envelope(r, envelope.version_number as nat, envelope.data),
{
    proof {
        reveal_strlit("version_number");
        reveal_strlit("data");
        assert("version_number"@.len() != "data"@.len());
    }
    let n = json_from_u64(envelope.version_number as u64);
    json_object2("version_number", n, "data", envelope.data)
}

/// Reads an envelope out of a JSON value, leaving the payload as a JSON value.
pub fn decode_json_envelope(wire: &serde_json::Value) -> (r: Result<
    VersionedEnvelope<serde_json::Value>,
    FormatError,
>)
    ensures
        r == json_envelope_of(*wire),
{
    let n = match json_get(wire, "version_number") {
        None => {
            return Err(FormatError::MissingVersion);
        },
        Some(n) => n,
    };
    let v = match json_as_u64(&n) {
        Some(v) if v <= usize::MAX as u64 => v as usize,
        _ => {
            return Err(FormatError::InvalidVersion);
        },
    };
    match json_get(wire, "data") {
        None => Err(FormatError::MissingData),
        Some(d) => Ok(VersionedEnvelope { version_number: v, data: d }),
    }
}

/// Reading back the JSON value written for an envelope gives that envelope.
pub proof fn lemma_json_round_trip(env: VersionedEnvelope<serde_json::Value>, wire: serde_json::Value)
    requires
        is_json_envelope(wire, env.version_number as nat, env.data),
    ensures
        json_envelope_of(wire) == Ok::<VersionedEnvelope<serde_json::Value>, FormatError>(env),
{
}

} // verus!
