//! Peer-trust attestations over a distributed key-value overlay: the binary
//! codec for the records a node publishes — an identity key of two field
//! elements and a trust value naming two neighbours with their scores — and
//! the orchestration that ties peer discovery to publication and turns query
//! results into reports. The overlay itself (routing, storage, replication)
//! is an outside collaborator; this library only decides and encodes.

pub mod field;
pub mod orchestrator;
pub mod record;

use vstd::prelude::*;

verus! {

/// Errors returned by the record codecs. Decoding never panics: a buffer of
/// the wrong length or a non-canonical field encoding is reported here.
#[derive(Clone, Copy, PartialEq, Eq, Debug)]
pub enum CodecError {
    /// 32 bytes that do not encode a value below the field modulus.
    InvalidFieldEncoding,
    /// A key buffer whose length is not exactly 64 bytes.
    MalformedKey,
    /// A value buffer whose length is not exactly 168 bytes.
    MalformedValue,
}

} // verus!
