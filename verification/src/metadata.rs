//! The metadata of a DIP721 token: a list of parts, each with a purpose,
//! key-value data and a blob.

use vstd::prelude::*;
use crate::assoc::AssocMap;

verus! {

/// What a metadata part is for.
#[derive(Debug, Clone, Copy, PartialEq, Eq, Structural)]
pub enum MetadataPurpose {
    Preview,
    Rendered,
}

/// A value of the key-value data of a metadata part.
#[derive(Debug, Clone, PartialEq, Eq)]
pub enum MetadataVal {
    TextContent(String),
    BlobContent(Vec<u8>),
    NatContent(u128),
    Nat8Content(u8),
    Nat16Content(u16),
    Nat32Content(u32),
    Nat64Content(u64),
}

/// The key-value data of a metadata part: a map from text keys to values.
pub type KeyValData = AssocMap<String, MetadataVal>;

/// One part of a token's metadata.
#[derive(Debug)]
pub struct MetadataPart {
    pub purpose: MetadataPurpose,
    pub key_val_data: KeyValData,
    pub data: Vec<u8>,
}

} // verus!
