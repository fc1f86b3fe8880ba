//! The payload of an update-collection-plugin operation.

use vstd::prelude::*;
use crate::decode::Decode;
use crate::error::CodecError;
use crate::plugins::{Plugin, PluginView, plugin_wire, plugin_encodable};
use crate::serialize::Serialize;
use crate::Instructions;

verus! {

/// The operation payload: the one-byte operation discriminant followed by
/// plugin.
pub struct UpdateCollectionPluginV1InstructionData {
    pub plugin: Plugin,
}

/// The mathematical value of a [`UpdateCollectionPluginV1InstructionData`].
#[verifier::ext_equal]
pub ghost struct UpdateCollectionPluginV1View {
    pub plugin: PluginView,
}

/// The payload on the wire.
pub open spec fn update_collection_plugin_wire(v: UpdateCollectionPluginV1View) -> Seq<u8> {
    seq![Instructions::UpdateCollectionPlugin.disc()] + plugin_wire(v.plugin)
}

/// Whether the payload can be carried.
pub open spec fn update_collection_plugin_encodable(v: UpdateCollectionPluginV1View) -> bool {
    plugin_encodable(v.plugin)
}

impl DeepView for UpdateCollectionPluginV1InstructionData {
    type V = UpdateCollectionPluginV1View;

    open spec fn deep_view(&self) -> UpdateCollectionPluginV1View {
        UpdateCollectionPluginV1View { plugin: self.plugin.deep_view() }
    }
}

impl Serialize for UpdateCollectionPluginV1InstructionData {
    open spec fn vwire(v: UpdateCollectionPluginV1View) -> Seq<u8> {
        update_collection_plugin_wire(v)
    }

    open spec fn vencodable(v: UpdateCollectionPluginV1View) -> bool {
        update_collection_plugin_encodable(v)
    }

    fn serialize_to(&self, buffer: &mut Vec<u8>, pos: usize) -> (r: Result<
        usize,
        CodecError,
    >) {
        proof {
            assert(<UpdateCollectionPluginV1InstructionData as Serialize>::vwire(self.deep_view()) == update_collection_plugin_wire(self.deep_view()));
            assert(<UpdateCollectionPluginV1InstructionData as Serialize>::vencodable(self.deep_view()) == update_collection_plugin_encodable(self.deep_view()));
        }
        let blen = buffer.len();
        let ghost v = self.deep_view();
        if pos >= buffer.len() {
            return Err(CodecError::BufferTooSmall);
        }
        let tag = Instructions::UpdateCollectionPlugin.to_u8();
        buffer[pos] = tag;
        let n1 = match self.plugin.serialize_to(buffer, pos + 1) {
            Ok(n) => n,
            Err(e) => {
                return Err(e);
            },
        };
        proof {
            assert(buffer@.subrange(pos as int, pos + 1 + n1) =~= update_collection_plugin_wire(v));
        }
        Ok(1 + n1)
    }
}

impl Decode for UpdateCollectionPluginV1InstructionData {
    open spec fn vdec(bytes: Seq<u8>) -> Result<(UpdateCollectionPluginV1View, int), CodecError> {
        if bytes.len() < 1 {
            Err(CodecError::TruncatedInput)
        } else if bytes[0] != Instructions::UpdateCollectionPlugin.disc() {
            Err(CodecError::StructuralMismatch)
        } else {
            match <Plugin as Decode>::vdec(bytes.skip(1)) {
                Err(e) => Err(e),
                Ok((f1, n1)) => {
                    Ok((UpdateCollectionPluginV1View { plugin: f1 }, 1 + n1))
                },
            }
        }
    }

    proof fn lemma_round_trip(v: UpdateCollectionPluginV1View, rest: Seq<u8>) {
        let w1 = <Plugin as Serialize>::vwire(v.plugin);
        let r1 = rest;
        assert(<UpdateCollectionPluginV1InstructionData as Serialize>::vwire(v) == seq![Instructions::UpdateCollectionPlugin.disc()] + w1);
        let b = <UpdateCollectionPluginV1InstructionData as Serialize>::vwire(v) + rest;
        assert(b[0] == Instructions::UpdateCollectionPlugin.disc());
        assert(b.skip(1) =~= w1 + r1);
        <Plugin as Decode>::lemma_round_trip(v.plugin, r1);
        assert(UpdateCollectionPluginV1View { plugin: v.plugin } =~= v);
    }
}

} // verus!
