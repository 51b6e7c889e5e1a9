use pro_serde_versioned::{
    decode_json_envelope, decode_msgpack_envelope, encode_json_envelope, encode_msgpack_envelope,
    FormatError, MsgPackBytes, VersionedEnvelope,
};
use serde_json::Value;

fn json(text: &str) -> Value {
    serde_json::from_str(text).unwrap()
}

#[test]
fn it_works() {
    let wire = MsgPackBytes(vec![0x92, 0x04, 0xc4, 0x02, 0x02, 0x02]);
    let env = decode_msgpack_envelope(&wire).unwrap();
    assert_eq!(env.version_number, 4);
    assert_eq!(env.data, MsgPackBytes(vec![2, 2]));
}

#[test]
fn json_envelope_is_an_object_of_two_members() {
    let env = VersionedEnvelope { version_number: 1, data: json(r#"{"field1": "value1"}"#) };
    let w = encode_json_envelope(env);
    assert_eq!(w, json(r#"{"version_number": 1, "data": {"field1": "value1"}}"#));
}

#[test]
fn json_envelope_round_trip() {
    let env = VersionedEnvelope { version_number: 42, data: json(r#"[1, "two", null]"#) };
    let back = decode_json_envelope(&encode_json_envelope(env.clone()));
    assert_eq!(back, Ok(env));
}

#[test]
fn json_envelope_errors() {
    assert_eq!(decode_json_envelope(&json(r#"{"data": 1}"#)), Err(FormatError::MissingVersion));
    assert_eq!(
        decode_json_envelope(&json(r#"{"version_number": "1", "data": 1}"#)),
        Err(FormatError::InvalidVersion)
    );
    assert_eq!(
        decode_json_envelope(&json(r#"{"version_number": -1, "data": 1}"#)),
        Err(FormatError::InvalidVersion)
    );
    assert_eq!(
        decode_json_envelope(&json(r#"{"version_number": 1.5, "data": 1}"#)),
        Err(FormatError::InvalidVersion)
    );
    assert_eq!(decode_json_envelope(&json(r#"{"version_number": 1}"#)), Err(FormatError::MissingData));
    assert_eq!(decode_json_envelope(&json(r#"[1, 2]"#)), Err(FormatError::MissingVersion));
}

#[test]
fn json_envelope_ignores_other_members() {
    let w = json(r#"{"version_number": 3, "data": true, "extra": 0}"#);
    assert_eq!(
        decode_json_envelope(&w),
        Ok(VersionedEnvelope { version_number: 3, data: Value::Bool(true) })
    );
}

#[test]
fn msgpack_envelope_small() {
    let payload = MsgPackBytes(vec![0x91, 0xa6, 0x76, 0x61, 0x6c, 0x75, 0x65, 0x31]);
    let env = VersionedEnvelope { version_number: 1, data: payload };
    let w = encode_msgpack_envelope(&env).unwrap();
    assert_eq!(w.0, vec![0x92, 0x01, 0xc4, 0x08, 0x91, 0xa6, 0x76, 0x61, 0x6c, 0x75, 0x65, 0x31]);
    assert_eq!(decode_msgpack_envelope(&w), Ok(env));
}

#[test]
fn msgpack_envelope_wide_version_and_payload() {
    let env = VersionedEnvelope { version_number: 300, data: MsgPackBytes(vec![7u8; 300]) };
    let w = encode_msgpack_envelope(&env).unwrap();
    assert_eq!(w.0[..6].to_vec(), vec![0x92, 0xcd, 0x01, 0x2c, 0xc5, 0x01]);
    assert_eq!(w.0[6], 0x2c);
    assert_eq!(w.0.len(), 7 + 300);
    assert_eq!(decode_msgpack_envelope(&w), Ok(env));

    let env = VersionedEnvelope { version_number: 200, data: MsgPackBytes(vec![]) };
    let w = encode_msgpack_envelope(&env).unwrap();
    assert_eq!(w.0, vec![0x92, 0xcc, 0xc8, 0xc4, 0x00]);

    let env = VersionedEnvelope { version_number: 70000, data: MsgPackBytes(vec![1]) };
    let w = encode_msgpack_envelope(&env).unwrap();
    assert_eq!(w.0, vec![0x92, 0xce, 0x00, 0x01, 0x11, 0x70, 0xc4, 0x01, 0x01]);
}

#[test]
fn msgpack_envelope_malformed() {
    assert_eq!(decode_msgpack_envelope(&MsgPackBytes(vec![])), Err(FormatError::Malformed));
    assert_eq!(decode_msgpack_envelope(&MsgPackBytes(vec![0x00])), Err(FormatError::Malformed));
    assert_eq!(
        decode_msgpack_envelope(&MsgPackBytes(vec![0x92, 0x01, 0xc4, 0x08, 0x91])),
        Err(FormatError::Malformed)
    );
}
