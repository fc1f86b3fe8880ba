//! The payload of a create-asset operation.

use vstd::prelude::*;
use crate::decode::Decode;
use crate::error::CodecError;
use crate::plugins::PluginAuthorityPair;
use crate::plugins::PluginAuthorityPairView;
use crate::serialize::{opt_encodable, opt_wire, seq_wire, Serialize};
use crate::Instructions;

verus! {

/// Where the new asset's state lives.
#[derive(Clone, Copy)]
pub enum DataState {
    AccountState,
    LedgerState,
}

impl DataState {
    /// The one-byte tag of this state kind.
    pub open spec fn disc(self) -> u8 {
        match self {
            DataState::AccountState => 0,
            DataState::LedgerState => 1,
        }
    }
}

impl DeepView for DataState {
    type V = DataState;

    open spec fn deep_view(&self) -> DataState {
        *self
    }
}

impl Serialize for DataState {
    open spec fn vwire(v: DataState) -> Seq<u8> {
        seq![v.disc()]
    }

    open spec fn vencodable(v: DataState) -> bool {
        true
    }

    fn serialize_to(&self, buffer: &mut Vec<u8>, pos: usize) -> (r: Result<
        usize,
        CodecError,
    >) {
        proof {
            assert(<DataState as Serialize>::vwire(self.deep_view()) == seq![self.deep_view().disc()]);
            assert(<DataState as Serialize>::vencodable(self.deep_view()) == true);
        }
        if pos < buffer.len() {
            let b: u8 = match self {
                DataState::AccountState => 0,
                DataState::LedgerState => 1,
            };
            buffer[pos] = b;
            assert(buffer@.subrange(pos as int, pos + 1int) =~= seq![self.disc()]);
            Ok(1)
        } else {
            Err(CodecError::BufferTooSmall)
        }
    }
}

/// The operation payload that creates an asset: the one-byte operation
/// discriminant, the data state, the name and uri byte strings, and the
/// optional plugin list.
pub struct CreateAssetV1InstructionData {
    pub data_state: DataState,
    pub name: Vec<u8>,
    pub uri: Vec<u8>,
    pub plugins: Option<Vec<PluginAuthorityPair>>,
}

/// The mathematical value of a [`CreateAssetV1InstructionData`].
#[verifier::ext_equal]
pub ghost struct CreateAssetV1View {
    pub data_state: DataState,
    pub name: Seq<u8>,
    pub uri: Seq<u8>,
    pub plugins: Option<Seq<PluginAuthorityPairView>>,
}

/// A create-asset payload on the wire.
pub open spec fn create_asset_wire(v: CreateAssetV1View) -> Seq<u8> {
    seq![Instructions::CreateAsset.disc()] + seq![v.data_state.disc()] + seq_wire::<u8>(v.name)
        + seq_wire::<u8>(v.uri) + opt_wire::<Vec<PluginAuthorityPair>>(v.plugins)
}

/// Whether a create-asset payload can be carried.
pub open spec fn create_asset_encodable(v: CreateAssetV1View) -> bool {
    v.name.len() < crate::serialize::count_limit() && v.uri.len()
        < crate::serialize::count_limit() && opt_encodable::<Vec<PluginAuthorityPair>>(v.plugins)
}

impl DeepView for CreateAssetV1InstructionData {
    type V = CreateAssetV1View;

    open spec fn deep_view(&self) -> CreateAssetV1View {
        CreateAssetV1View {
            data_state: self.data_state,
            name: self.name.deep_view(),
            uri: self.uri.deep_view(),
            plugins: self.plugins.deep_view(),
        }
    }
}

impl Serialize for CreateAssetV1InstructionData {
    open spec fn vwire(v: CreateAssetV1View) -> Seq<u8> {
        create_asset_wire(v)
    }

    open spec fn vencodable(v: CreateAssetV1View) -> bool {
        create_asset_encodable(v)
    }

    #[verifier::rlimit(60)]
    #[verifier::spinoff_prover]
    fn serialize_to(&self, buffer: &mut Vec<u8>, pos: usize) -> (r: Result<
        usize,
        CodecError,
    >) {
        proof {
            assert(<CreateAssetV1InstructionData as Serialize>::vwire(self.deep_view()) == create_asset_wire(self.deep_view()));
            assert(<CreateAssetV1InstructionData as Serialize>::vencodable(self.deep_view()) == create_asset_encodable(self.deep_view()));
        }
        let blen = buffer.len();
        let ghost v = self.deep_view();
        if pos >= buffer.len() {
            return Err(CodecError::BufferTooSmall);
        }
        let tag = Instructions::CreateAsset.to_u8();
        buffer[pos] = tag;
        let n1 = match self.data_state.serialize_to(buffer, pos + 1) {
            Ok(n) => n,
            Err(e) => {
                return Err(e);
            },
        };
        let ghost b1 = buffer@;
        let n2 = match self.name.serialize_to(buffer, pos + 1 + n1) {
            Ok(n) => n,
            Err(e) => {
                return Err(e);
            },
        };
        let ghost b2 = buffer@;
        let n3 = match self.uri.serialize_to(buffer, pos + 1 + n1 + n2) {
            Ok(n) => n,
            Err(e) => {
                return Err(e);
            },
        };
        let ghost b3 = buffer@;
        let n4 = match self.plugins.serialize_to(buffer, pos + 1 + n1 + n2 + n3) {
            Ok(n) => n,
            Err(e) => {
                return Err(e);
            },
        };
        proof {
            assert(buffer@.subrange(pos as int, pos + 1) =~= b1.subrange(pos as int, pos + 1));
            assert(buffer@.subrange(pos + 1, pos + 1 + n1) =~= b1.subrange(pos + 1, pos + 1 + n1));
            assert(buffer@.subrange(pos + 1 + n1, pos + 1 + n1 + n2) =~= b2.subrange(
                pos + 1 + n1,
                pos + 1 + n1 + n2,
            ));
            assert(buffer@.subrange(pos + 1 + n1 + n2, pos + 1 + n1 + n2 + n3) =~= b3.subrange(
                pos + 1 + n1 + n2,
                pos + 1 + n1 + n2 + n3,
            ));
            assert(buffer@.subrange(pos as int, pos + 1 + n1 + n2 + n3 + n4) =~= create_asset_wire(
                v,
            ));
        }
        Ok(1 + n1 + n2 + n3 + n4)
    }
}


impl Decode for DataState {
    open spec fn vdec(bytes: Seq<u8>) -> Result<(DataState, int), CodecError> {
        if bytes.len() < 1 {
            Err(CodecError::TruncatedInput)
        } else if bytes[0] == 0 {
            Ok((DataState::AccountState, 1))
        } else if bytes[0] == 1 {
            Ok((DataState::LedgerState, 1))
        } else {
            Err(CodecError::UnrecognizedTag)
        }
    }

    proof fn lemma_round_trip(v: DataState, rest: Seq<u8>) {
        assert((<DataState as Serialize>::vwire(v) + rest)[0] == v.disc());
    }
}
impl Decode for CreateAssetV1InstructionData {
    open spec fn vdec(bytes: Seq<u8>) -> Result<(CreateAssetV1View, int), CodecError> {
        if bytes.len() < 1 {
            Err(CodecError::TruncatedInput)
        } else if bytes[0] != Instructions::CreateAsset.disc() {
            Err(CodecError::StructuralMismatch)
        } else {
            match <DataState as Decode>::vdec(bytes.skip(1)) {
                Err(e) => Err(e),
                Ok((f1, n1)) => {
                    if !(0 <= n1 && 1 + n1 <= bytes.len()) {
                        Err(CodecError::TruncatedInput)
                    } else {
                            match <Vec<u8> as Decode>::vdec(bytes.skip(1 + n1)) {
                                Err(e) => Err(e),
                                Ok((f2, n2)) => {
                                    if !(0 <= n2 && 1 + n1 + n2 <= bytes.len()) {
                                        Err(CodecError::TruncatedInput)
                                    } else {
                                            match <Vec<u8> as Decode>::vdec(bytes.skip(1 + n1 + n2)) {
                                                Err(e) => Err(e),
                                                Ok((f3, n3)) => {
                                                    if !(0 <= n3 && 1 + n1 + n2 + n3 <= bytes.len()) {
                                                        Err(CodecError::TruncatedInput)
                                                    } else {
                                                            match <Option<Vec<PluginAuthorityPair>> as Decode>::vdec(bytes.skip(1 + n1 + n2 + n3)) {
                                                                Err(e) => Err(e),
                                                                Ok((f4, n4)) => {
                                                                    Ok((CreateAssetV1View { data_state: f1, name: f2, uri: f3, plugins: f4 }, 1 + n1 + n2 + n3 + n4))
                                                                },
                                                            }
                                                    }
                                                },
                                            }
                                    }
                                },
                            }
                    }
                },
            }
        }
    }

    #[verifier::rlimit(100)]
    #[verifier::spinoff_prover]
    proof fn lemma_round_trip(v: CreateAssetV1View, rest: Seq<u8>) {
        let w1 = <DataState as Serialize>::vwire(v.data_state);
        let w2 = <Vec<u8> as Serialize>::vwire(v.name);
        let w3 = <Vec<u8> as Serialize>::vwire(v.uri);
        let w4 = <Option<Vec<PluginAuthorityPair>> as Serialize>::vwire(v.plugins);
        let r4 = rest;
        let r3 = w4 + r4;
        let r2 = w3 + r3;
        let r1 = w2 + r2;
        assert(<CreateAssetV1InstructionData as Serialize>::vwire(v) == seq![Instructions::CreateAsset.disc()] + w1 + w2 + w3 + w4);
        let b = <CreateAssetV1InstructionData as Serialize>::vwire(v) + rest;
        assert(b[0] == Instructions::CreateAsset.disc());
        assert(b.skip(1) =~= w1 + r1);
        <DataState as Decode>::lemma_round_trip(v.data_state, r1);
        assert(b.skip((1 + w1.len()) as int) =~= r1);
        <Vec<u8> as Decode>::lemma_round_trip(v.name, r2);
        assert(b.skip((1 + w1.len() + w2.len()) as int) =~= r2);
        <Vec<u8> as Decode>::lemma_round_trip(v.uri, r3);
        assert(b.skip((1 + w1.len() + w2.len() + w3.len()) as int) =~= r3);
        <Option<Vec<PluginAuthorityPair>> as Decode>::lemma_round_trip(v.plugins, r4);
        assert(CreateAssetV1View { data_state: v.data_state, name: v.name, uri: v.uri, plugins: v.plugins } =~= v);
    }
}

} // verus!
