//! The record-kind tag: the single discriminant byte that every top-level
//! record begins with.

use vstd::prelude::*;
use crate::error::CodecError;
use crate::decode::Decode;
use crate::serialize::Serialize;

verus! {

/// Which top-level record a buffer begins with.
#[derive(Copy, Clone, PartialEq, Eq, Structural, Debug)]
pub enum Key {
    Uninitialized,
    AssetV1,
    HashedAssetV1,
    PluginHeaderV1,
    PluginRegistryV1,
    CollectionV1,
}

impl Key {
    /// The tag byte of this record kind.
    pub open spec fn disc(self) -> u8 {
        match self {
            Key::Uninitialized => 0,
            Key::AssetV1 => 1,
            Key::HashedAssetV1 => 2,
            Key::PluginHeaderV1 => 3,
            Key::PluginRegistryV1 => 4,
            Key::CollectionV1 => 5,
        }
    }

    /// What reading one record-kind tag byte yields: the kind for tags
    /// zero through five, `UnrecognizedTag` beyond, `TruncatedInput` on an
    /// empty buffer.
    pub open spec fn sdec(bytes: Seq<u8>) -> Result<Key, CodecError> {
        if bytes.len() < 1 {
            Err(CodecError::TruncatedInput)
        } else if bytes[0] == 0 {
            Ok(Key::Uninitialized)
        } else if bytes[0] == 1 {
            Ok(Key::AssetV1)
        } else if bytes[0] == 2 {
            Ok(Key::HashedAssetV1)
        } else if bytes[0] == 3 {
            Ok(Key::PluginHeaderV1)
        } else if bytes[0] == 4 {
            Ok(Key::PluginRegistryV1)
        } else if bytes[0] == 5 {
            Ok(Key::CollectionV1)
        } else {
            Err(CodecError::UnrecognizedTag)
        }
    }

    /// Read the record-kind tag at the head of `bytes`.
    pub fn deserialize_from(bytes: &[u8]) -> (r: Result<Key, CodecError>)
        ensures
            r == Key::sdec(bytes@),
    {
        if bytes.len() < 1 {
            return Err(CodecError::TruncatedInput);
        }
        let b = *vstd::slice::slice_index_get(bytes, 0);
        match b {
            0 => Ok(Key::Uninitialized),
            1 => Ok(Key::AssetV1),
            2 => Ok(Key::HashedAssetV1),
            3 => Ok(Key::PluginHeaderV1),
            4 => Ok(Key::PluginRegistryV1),
            5 => Ok(Key::CollectionV1),
            _ => Err(CodecError::UnrecognizedTag),
        }
    }

    /// Reading a buffer that begins with a kind's own tag yields that kind.
    pub proof fn lemma_round_trip(k: Key, rest: Seq<u8>)
        ensures
            Key::sdec(seq![k.disc()] + rest) == Ok::<Key, CodecError>(k),
    {
        assert((seq![k.disc()] + rest)[0] == k.disc());
    }
}

impl DeepView for Key {
    type V = Key;

    open spec fn deep_view(&self) -> Key {
        *self
    }
}

impl Serialize for Key {
    open spec fn vwire(v: Key) -> Seq<u8> {
        seq![v.disc()]
    }

    open spec fn vencodable(v: Key) -> bool {
        true
    }

    fn serialize_to(&self, buffer: &mut Vec<u8>, pos: usize) -> (r: Result<
        usize,
        CodecError,
    >) {
        proof {
            assert(<Key as Serialize>::vwire(self.deep_view()) == seq![self.deep_view().disc()]);
            assert(<Key as Serialize>::vencodable(self.deep_view()) == true);
        }
        if pos < buffer.len() {
            let b: u8 = match self {
                Key::Uninitialized => 0,
                Key::AssetV1 => 1,
                Key::HashedAssetV1 => 2,
                Key::PluginHeaderV1 => 3,
                Key::PluginRegistryV1 => 4,
                Key::CollectionV1 => 5,
            };
            buffer[pos] = b;
            assert(buffer@.subrange(pos as int, pos + 1int) =~= seq![self.disc()]);
            Ok(1)
        } else {
            Err(CodecError::BufferTooSmall)
        }
    }
}


impl Decode for Key {
    open spec fn vdec(bytes: Seq<u8>) -> Result<(Key, int), CodecError> {
        match Key::sdec(bytes) {
            Err(e) => Err(e),
            Ok(k) => Ok((k, 1)),
        }
    }

    proof fn lemma_round_trip(v: Key, rest: Seq<u8>) {
        Key::lemma_round_trip(v, rest);
    }
}

} // verus!
