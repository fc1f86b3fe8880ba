//! The payload of an update-asset-plugin operation.

use vstd::prelude::*;
use crate::decode::Decode;
use crate::error::CodecError;
use crate::plugins::{Plugin, PluginView, plugin_wire, plugin_encodable};
use crate::serialize::Serialize;
use crate::Instructions;

verus! {

/// The operation payload: the one-byte operation discriminant followed by
/// plugin.
pub struct UpdateAssetPluginV1InstructionData {
    pub plugin: Plugin,
}

/// The mathematical value of a [`UpdateAssetPluginV1InstructionData`].
#[verifier::ext_equal]
pub ghost struct UpdateAssetPluginV1View {
    pub plugin: PluginView,
}

/// The payload on the wire.
pub open spec fn update_asset_plugin_wire(v: UpdateAssetPluginV1View) -> Seq<u8> {
    seq![Instructions::UpdateAssetPlugin.disc()] + plugin_wire(v.plugin)
}

/// Whether the payload can be carried.
pub open spec fn update_asset_plugin_encodable(v: UpdateAssetPluginV1View) -> bool {
    plugin_encodable(v.plugin)
}

impl DeepView for UpdateAssetPluginV1InstructionData {
    type V = UpdateAssetPluginV1View;

    open spec fn deep_view(&self) -> UpdateAssetPluginV1View {
        UpdateAssetPluginV1View { plugin: self.plugin.deep_view() }
    }
}

impl Serialize for UpdateAssetPluginV1InstructionData {
    open spec fn vwire(v: UpdateAssetPluginV1View) -> Seq<u8> {
        update_asset_plugin_wire(v)
    }

    open spec fn vencodable(v: UpdateAssetPluginV1View) -> bool {
        update_asset_plugin_encodable(v)
    }

    fn serialize_to(&self, buffer: &mut Vec<u8>, pos: usize) -> (r: Result<
        usize,
        CodecError,
    >) {
        proof {
            assert(<UpdateAssetPluginV1InstructionData as Serialize>::vwire(self.deep_view()) == update_asset_plugin_wire(self.deep_view()));
            assert(<UpdateAssetPluginV1InstructionData as Serialize>::vencodable(self.deep_view()) == update_asset_plugin_encodable(self.deep_view()));
        }
        let blen = buffer.len();
        let ghost v = self.deep_view();
        if pos >= buffer.len() {
            return Err(CodecError::BufferTooSmall);
        }
        let tag = Instructions::UpdateAssetPlugin.to_u8();
        buffer[pos] = tag;
        let n1 = match self.plugin.serialize_to(buffer, pos + 1) {
            Ok(n) => n,
            Err(e) => {
                return Err(e);
            },
        };
        proof {
            assert(buffer@.subrange(pos as int, pos + 1 + n1) =~= update_asset_plugin_wire(v));
        }
        Ok(1 + n1)
    }
}

impl Decode for UpdateAssetPluginV1InstructionData {
    open spec fn vdec(bytes: Seq<u8>) -> Result<(UpdateAssetPluginV1View, int), CodecError> {
        if bytes.len() < 1 {
            Err(CodecError::TruncatedInput)
        } else if bytes[0] != Instructions::UpdateAssetPlugin.disc() {
            Err(CodecError::StructuralMismatch)
        } else {
            match <Plugin as Decode>::vdec(bytes.skip(1)) {
                Err(e) => Err(e),
                Ok((f1, n1)) => {
                    Ok((UpdateAssetPluginV1View { plugin: f1 }, 1 + n1))
                },
            }
        }
    }

    proof fn lemma_round_trip(v: UpdateAssetPluginV1View, rest: Seq<u8>) {
        let w1 = <Plugin as Serialize>::vwire(v.plugin);
        let r1 = rest;
        assert(<UpdateAssetPluginV1InstructionData as Serialize>::vwire(v) == seq![Instructions::UpdateAssetPlugin.disc()] + w1);
        let b = <UpdateAssetPluginV1InstructionData as Serialize>::vwire(v) + rest;
        assert(b[0] == Instructions::UpdateAssetPlugin.disc());
        assert(b.skip(1) =~= w1 + r1);
        <Plugin as Decode>::lemma_round_trip(v.plugin, r1);
        assert(UpdateAssetPluginV1View { plugin: v.plugin } =~= v);
    }
}

} // verus!
