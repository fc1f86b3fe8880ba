//! The payload of a burn-collection operation.

use vstd::prelude::*;
use crate::decode::Decode;
use crate::error::CodecError;
use crate::plugins::{CompressionProof, CompressionProofView};
use crate::serialize::Serialize;
use crate::Instructions;

verus! {

/// The operation payload: the one-byte operation discriminant followed by
/// compression proof.
pub struct BurnCollectionV1InstructionData {
    pub compression_proof: Option<CompressionProof>,
}

/// The mathematical value of a [`BurnCollectionV1InstructionData`].
#[verifier::ext_equal]
pub ghost struct BurnCollectionV1View {
    pub compression_proof: Option<CompressionProofView>,
}

/// The payload on the wire.
pub open spec fn burn_collection_wire(v: BurnCollectionV1View) -> Seq<u8> {
    seq![Instructions::BurnCollection.disc()] + crate::serialize::opt_wire::<CompressionProof>(v.compression_proof)
}

/// Whether the payload can be carried.
pub open spec fn burn_collection_encodable(v: BurnCollectionV1View) -> bool {
    crate::serialize::opt_encodable::<CompressionProof>(v.compression_proof)
}

impl DeepView for BurnCollectionV1InstructionData {
    type V = BurnCollectionV1View;

    open spec fn deep_view(&self) -> BurnCollectionV1View {
        BurnCollectionV1View { compression_proof: self.compression_proof.deep_view() }
    }
}

impl Serialize for BurnCollectionV1InstructionData {
    open spec fn vwire(v: BurnCollectionV1View) -> Seq<u8> {
        burn_collection_wire(v)
    }

    open spec fn vencodable(v: BurnCollectionV1View) -> bool {
        burn_collection_encodable(v)
    }

    fn serialize_to(&self, buffer: &mut Vec<u8>, pos: usize) -> (r: Result<
        usize,
        CodecError,
    >) {
        proof {
            assert(<BurnCollectionV1InstructionData as Serialize>::vwire(self.deep_view()) == burn_collection_wire(self.deep_view()));
            assert(<BurnCollectionV1InstructionData as Serialize>::vencodable(self.deep_view()) == burn_collection_encodable(self.deep_view()));
        }
        let blen = buffer.len();
        let ghost v = self.deep_view();
        if pos >= buffer.len() {
            return Err(CodecError::BufferTooSmall);
        }
        let tag = Instructions::BurnCollection.to_u8();
        buffer[pos] = tag;
        let n1 = match self.compression_proof.serialize_to(buffer, pos + 1) {
            Ok(n) => n,
            Err(e) => {
                return Err(e);
            },
        };
        proof {
            assert(buffer@.subrange(pos as int, pos + 1 + n1) =~= burn_collection_wire(v));
        }
        Ok(1 + n1)
    }
}

impl Decode for BurnCollectionV1InstructionData {
    open spec fn vdec(bytes: Seq<u8>) -> Result<(BurnCollectionV1View, int), CodecError> {
        if bytes.len() < 1 {
            Err(CodecError::TruncatedInput)
        } else if bytes[0] != Instructions::BurnCollection.disc() {
            Err(CodecError::StructuralMismatch)
        } else {
            match <Option<CompressionProof> as Decode>::vdec(bytes.skip(1)) {
                Err(e) => Err(e),
                Ok((f1, n1)) => {
                    Ok((BurnCollectionV1View { compression_proof: f1 }, 1 + n1))
                },
            }
        }
    }

    proof fn lemma_round_trip(v: BurnCollectionV1View, rest: Seq<u8>) {
        let w1 = <Option<CompressionProof> as Serialize>::vwire(v.compression_proof);
        let r1 = rest;
        assert(<BurnCollectionV1InstructionData as Serialize>::vwire(v) == seq![Instructions::BurnCollection.disc()] + w1);
        let b = <BurnCollectionV1InstructionData as Serialize>::vwire(v) + rest;
        assert(b[0] == Instructions::BurnCollection.disc());
        assert(b.skip(1) =~= w1 + r1);
        <Option<CompressionProof> as Decode>::lemma_round_trip(v.compression_proof, r1);
        assert(BurnCollectionV1View { compression_proof: v.compression_proof } =~= v);
    }
}

} // verus!
