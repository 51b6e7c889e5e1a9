//! Versioned data envelopes: a registry of schema generations, envelope
//! framing for a JSON value tree and for MessagePack bytes, a dispatcher from
//! version numbers to per-shape decoders, and a chained upgrade to the latest
//! shape.

pub mod dispatch;
pub mod envelope;
pub mod json;
pub mod msgpack;
pub mod registry;
pub mod upgrade;
pub mod version;

pub use crate::dispatch::{
    decode_variant, deserialize_json, deserialize_msgpack, encode_variant, serialize_json,
    serialize_msgpack, VersionedError,
};
pub use crate::envelope::{FormatError, MsgPackBytes, VersionedEnvelope};
pub use crate::json::{decode_json_envelope, encode_json_envelope};
pub use crate::msgpack::{decode_msgpack_envelope, encode_msgpack_envelope};
pub use crate::registry::{ConfigurationError, Registry, VariantDecl};
pub use crate::upgrade::{upgrade_to_latest, UpgradableEnum, Upgrade, VersionedUpgrade};
pub use crate::version::parse_version_ident;
