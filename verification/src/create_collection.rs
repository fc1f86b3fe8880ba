//! The payload of a create-collection operation.

use vstd::prelude::*;
use crate::decode::Decode;
use crate::error::CodecError;
use crate::plugins::PluginAuthorityPair;
use crate::plugins::PluginAuthorityPairView;
use crate::serialize::{opt_encodable, opt_wire, seq_wire, Serialize};
use crate::Instructions;

verus! {

/// The operation payload that creates a collection: the one-byte
/// operation discriminant, the name and uri byte strings, and the
/// optional plugin list.
pub struct CreateCollectionV1InstructionData {
    pub name: Vec<u8>,
    pub uri: Vec<u8>,
    pub plugins: Option<Vec<PluginAuthorityPair>>,
}

/// The mathematical value of a [`CreateCollectionV1InstructionData`].
#[verifier::ext_equal]
pub ghost struct CreateCollectionV1View {
    pub name: Seq<u8>,
    pub uri: Seq<u8>,
    pub plugins: Option<Seq<PluginAuthorityPairView>>,
}

/// A create-collection payload on the wire.
pub open spec fn create_collection_wire(v: CreateCollectionV1View) -> Seq<u8> {
    seq![Instructions::CreateCollection.disc()] + seq_wire::<u8>(v.name) + seq_wire::<u8>(v.uri)
        + opt_wire::<Vec<PluginAuthorityPair>>(v.plugins)
}

/// Whether a create-collection payload can be carried.
pub open spec fn create_collection_encodable(v: CreateCollectionV1View) -> bool {
    v.name.len() < crate::serialize::count_limit() && v.uri.len()
        < crate::serialize::count_limit() && opt_encodable::<Vec<PluginAuthorityPair>>(v.plugins)
}

impl DeepView for CreateCollectionV1InstructionData {
    type V = CreateCollectionV1View;

    open spec fn deep_view(&self) -> CreateCollectionV1View {
        CreateCollectionV1View {
            name: self.name.deep_view(),
            uri: self.uri.deep_view(),
            plugins: self.plugins.deep_view(),
        }
    }
}

impl Serialize for CreateCollectionV1InstructionData {
    open spec fn vwire(v: CreateCollectionV1View) -> Seq<u8> {
        create_collection_wire(v)
    }

    open spec fn vencodable(v: CreateCollectionV1View) -> bool {
        create_collection_encodable(v)
    }

    #[verifier::rlimit(60)]
    #[verifier::spinoff_prover]
    fn serialize_to(&self, buffer: &mut Vec<u8>, pos: usize) -> (r: Result<
        usize,
        CodecError,
    >) {
        proof {
            assert(<CreateCollectionV1InstructionData as Serialize>::vwire(self.deep_view()) == create_collection_wire(self.deep_view()));
            assert(<CreateCollectionV1InstructionData as Serialize>::vencodable(self.deep_view()) == create_collection_encodable(self.deep_view()));
        }
        let blen = buffer.len();
        let ghost v = self.deep_view();
        if pos >= buffer.len() {
            return Err(CodecError::BufferTooSmall);
        }
        let tag = Instructions::CreateCollection.to_u8();
        buffer[pos] = tag;
        let n1 = match self.name.serialize_to(buffer, pos + 1) {
            Ok(n) => n,
            Err(e) => {
                return Err(e);
            },
        };
        let ghost b1 = buffer@;
        let n2 = match self.uri.serialize_to(buffer, pos + 1 + n1) {
            Ok(n) => n,
            Err(e) => {
                return Err(e);
            },
        };
        let ghost b2 = buffer@;
        let n3 = match self.plugins.serialize_to(buffer, pos + 1 + n1 + n2) {
            Ok(n) => n,
            Err(e) => {
                return Err(e);
            },
        };
        proof {
            assert(buffer@.subrange(pos as int, pos + 1 + n1) =~= b1.subrange(
                pos as int,
                pos + 1 + n1,
            ));
            assert(buffer@.subrange(pos + 1 + n1, pos + 1 + n1 + n2) =~= b2.subrange(
                pos + 1 + n1,
                pos + 1 + n1 + n2,
            ));
            assert(buffer@.subrange(pos as int, pos + 1 + n1 + n2 + n3)
                =~= create_collection_wire(v));
        }
        Ok(1 + n1 + n2 + n3)
    }
}

impl Decode for CreateCollectionV1InstructionData {
    open spec fn vdec(bytes: Seq<u8>) -> Result<(CreateCollectionV1View, int), CodecError> {
        if bytes.len() < 1 {
            Err(CodecError::TruncatedInput)
        } else if bytes[0] != Instructions::CreateCollection.disc() {
            Err(CodecError::StructuralMismatch)
        } else {
            match <Vec<u8> as Decode>::vdec(bytes.skip(1)) {
                Err(e) => Err(e),
                Ok((f1, n1)) => {
                    if !(0 <= n1 && 1 + n1 <= bytes.len()) {
                        Err(CodecError::TruncatedInput)
                    } else {
                            match <Vec<u8> as Decode>::vdec(bytes.skip(1 + n1)) {
                                Err(e) => Err(e),
                                Ok((f2, n2)) => {
                                    if !(0 <= n2 && 1 + n1 + n2 <= bytes.len()) {
                                        Err(CodecError::TruncatedInput)
                                    } else {
                                            match <Option<Vec<PluginAuthorityPair>> as Decode>::vdec(bytes.skip(1 + n1 + n2)) {
                                                Err(e) => Err(e),
                                                Ok((f3, n3)) => {
                                                    Ok((CreateCollectionV1View { name: f1, uri: f2, plugins: f3 }, 1 + n1 + n2 + n3))
                                                },
                                            }
                                    }
                                },
                            }
                    }
                },
            }
        }
    }

    #[verifier::rlimit(100)]
    #[verifier::spinoff_prover]
    proof fn lemma_round_trip(v: CreateCollectionV1View, rest: Seq<u8>) {
        let w1 = <Vec<u8> as Serialize>::vwire(v.name);
        let w2 = <Vec<u8> as Serialize>::vwire(v.uri);
        let w3 = <Option<Vec<PluginAuthorityPair>> as Serialize>::vwire(v.plugins);
        let r3 = rest;
        let r2 = w3 + r3;
        let r1 = w2 + r2;
        assert(<CreateCollectionV1InstructionData as Serialize>::vwire(v) == seq![Instructions::CreateCollection.disc()] + w1 + w2 + w3);
        let b = <CreateCollectionV1InstructionData as Serialize>::vwire(v) + rest;
        assert(b[0] == Instructions::CreateCollection.disc());
        assert(b.skip(1) =~= w1 + r1);
        <Vec<u8> as Decode>::lemma_round_trip(v.name, r1);
        assert(b.skip((1 + w1.len()) as int) =~= r1);
        <Vec<u8> as Decode>::lemma_round_trip(v.uri, r2);
        assert(b.skip((1 + w1.len() + w2.len()) as int) =~= r2);
        <Option<Vec<PluginAuthorityPair>> as Decode>::lemma_round_trip(v.plugins, r3);
        assert(CreateCollectionV1View { name: v.name, uri: v.uri, plugins: v.plugins } =~= v);
    }
}

} // verus!
