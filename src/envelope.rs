use vstd::prelude::*;

verus! {

/// A payload paired with the version number of the shape it was encoded from.
/// The payload stays encoded until the version number selects its decoder.
#[derive(Debug, Clone, PartialEq)]
pub struct VersionedEnvelope<T> {
    pub version_number: usize,
    pub data: T,
}

/// MessagePack bytes, owned.
#[derive(Debug, Clone, PartialEq)]
pub struct MsgPackBytes(pub Vec<u8>);

impl View for MsgPackBytes {
    type V = Seq<u8>;

    open spec fn view(&self) -> Seq<u8> {
        self.0@
    }
}

/// A wire value that is not a well-formed envelope, or an envelope that could
/// not be written.
#[derive(Debug, Clone, Copy, PartialEq, Eq, Structural)]
pub enum FormatError {
    /// The JSON envelope has no `version_number` member.
    MissingVersion,
    /// The `version_number` member is not an unsigned integer that fits in `usize`.
    InvalidVersion,
    /// The JSON envelope has no `data` member.
    MissingData,
    /// The bytes are not a MessagePack envelope.
    Malformed,
    /// The payload is longer than a MessagePack byte string can hold.
    PayloadTooLarge,
}

} // verus!
