//! A byte-exact binary codec for asset and collection records.
//!
//! The library encodes typed, recursive descriptions of assets, collections
//! and the operations that mutate them into a packed little-endian wire
//! format, lays out a plugin registry whose header points forward at data
//! written after it, and selectively decodes a royalty schedule out of an
//! encoded buffer without materializing anything else.

use vstd::prelude::*;

pub mod asset;
pub mod burn_asset;
pub mod burn_collection;
pub mod create_asset;
pub mod create_collection;
pub mod decode;
pub mod error;
pub mod key;
pub mod plugins;
pub mod royalty;
pub mod serialize;
pub mod transfer;
pub mod update_asset_plugin;
pub mod update_collection_plugin;

verus! {

/// Discriminant of each operation understood by the external program.
pub enum Instructions {
    CreateAsset,
    CreateCollection,
    UpdateAssetPlugin,
    UpdateCollectionPlugin,
    BurnAsset,
    BurnCollection,
    TransferAsset,
}

impl Instructions {
    /// The one-byte discriminant that precedes an operation's payload.
    pub fn to_u8(self) -> (r: u8)
        ensures
            r == self.disc(),
    {
        match self {
            Self::CreateAsset => 0,
            Self::CreateCollection => 1,
            Self::UpdateAssetPlugin => 6,
            Self::UpdateCollectionPlugin => 7,
            Self::BurnAsset => 12,
            Self::BurnCollection => 13,
            Self::TransferAsset => 14,
        }
    }

    /// The operation a discriminant byte names, if any: the inverse of
    /// `to_u8` on the seven known discriminants, `None` on every other
    /// byte.
    pub fn from_u8(value: u8) -> (r: Option<Instructions>)
        ensures
            match r {
                Some(i) => i.disc() == value,
                None => forall|i: Instructions| i.disc() != value,
            },
    {
        match value {
            0 => Some(Self::CreateAsset),
            1 => Some(Self::CreateCollection),
            6 => Some(Self::UpdateAssetPlugin),
            7 => Some(Self::UpdateCollectionPlugin),
            12 => Some(Self::BurnAsset),
            13 => Some(Self::BurnCollection),
            14 => Some(Self::TransferAsset),
            _ => None,
        }
    }

    /// The discriminant as a mathematical value.
    pub open spec fn disc(self) -> u8 {
        match self {
            Self::CreateAsset => 0,
            Self::CreateCollection => 1,
            Self::UpdateAssetPlugin => 6,
            Self::UpdateCollectionPlugin => 7,
            Self::BurnAsset => 12,
            Self::BurnCollection => 13,
            Self::TransferAsset => 14,
        }
    }
}

} // verus!
