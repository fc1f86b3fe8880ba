//! The top-level records: base asset and collection records, the plugin
//! header with its forward-pointing registry offset, the registry records
//! themselves, and the registry layout engine that assembles them.

use vstd::prelude::*;
use crate::decode::{Decode, Deserialize, Skip};
use crate::error::CodecError;
use crate::key::Key;
use crate::plugins::{
    plugin_authority_encodable, plugin_authority_wire, plugin_disc, plugin_encodable, plugin_wire,
    sskip_update_authority, update_authority_encodable, update_authority_wire, Plugin,
    PluginAuthority, PluginAuthorityView, UpdateAuthority, UpdateAuthorityView,
};
use crate::serialize::{
    count_limit, opt_encodable, opt_wire, seq_encodable, seq_wire, Pubkey, Serialize,
    PUBKEY_LEN,
};

verus! {

/// The base record of an asset: kind tag, owner, update authority, name
/// and uri byte strings, and an optional sequence counter.
pub struct BaseAssetV1 {
    pub key: Key,
    pub owner: Pubkey,
    pub update_authority: UpdateAuthority,
    pub name: Vec<u8>,
    pub uri: Vec<u8>,
    pub seq: Option<u64>,
}

/// The mathematical value of a [`BaseAssetV1`].
#[verifier::ext_equal]
pub ghost struct BaseAssetV1View {
    pub key: Key,
    pub owner: Seq<u8>,
    pub update_authority: UpdateAuthorityView,
    pub name: Seq<u8>,
    pub uri: Seq<u8>,
    pub seq: Option<u64>,
}

/// A base asset record is its kind tag, the owner identity, the update
/// authority, the two byte strings, then the optional counter.
pub open spec fn base_asset_wire(v: BaseAssetV1View) -> Seq<u8> {
    seq![v.key.disc()] + v.owner + update_authority_wire(v.update_authority) + seq_wire::<u8>(
        v.name,
    ) + seq_wire::<u8>(v.uri) + opt_wire::<u64>(v.seq)
}

/// Whether a base asset record can be carried.
pub open spec fn base_asset_encodable(v: BaseAssetV1View) -> bool {
    v.owner.len() == PUBKEY_LEN && update_authority_encodable(v.update_authority) && v.name.len()
        < count_limit() && v.uri.len() < count_limit()
}

impl DeepView for BaseAssetV1 {
    type V = BaseAssetV1View;

    open spec fn deep_view(&self) -> BaseAssetV1View {
        BaseAssetV1View {
            key: self.key,
            owner: self.owner.deep_view(),
            update_authority: self.update_authority.deep_view(),
            name: self.name.deep_view(),
            uri: self.uri.deep_view(),
            seq: self.seq,
        }
    }
}

impl Serialize for BaseAssetV1 {
    open spec fn vwire(v: BaseAssetV1View) -> Seq<u8> {
        base_asset_wire(v)
    }

    open spec fn vencodable(v: BaseAssetV1View) -> bool {
        base_asset_encodable(v)
    }

    #[verifier::rlimit(60)]
    #[verifier::spinoff_prover]
    fn serialize_to(&self, buffer: &mut Vec<u8>, pos: usize) -> (r: Result<
        usize,
        CodecError,
    >) {
        proof {
            assert(<BaseAssetV1 as Serialize>::vwire(self.deep_view()) == base_asset_wire(self.deep_view()));
            assert(<BaseAssetV1 as Serialize>::vencodable(self.deep_view()) == base_asset_encodable(self.deep_view()));
        }
        let blen = buffer.len();
        let ghost v = self.deep_view();
        let n1 = match self.key.serialize_to(buffer, pos) {
            Ok(n) => n,
            Err(e) => {
                return Err(e);
            },
        };
        let ghost b1 = buffer@;
        let n2 = match self.owner.serialize_to(buffer, pos + n1) {
            Ok(n) => n,
            Err(e) => {
                return Err(e);
            },
        };
        let ghost b2 = buffer@;
        let n3 = match self.update_authority.serialize_to(buffer, pos + n1 + n2) {
            Ok(n) => n,
            Err(e) => {
                return Err(e);
            },
        };
        let ghost b3 = buffer@;
        let n4 = match self.name.serialize_to(buffer, pos + n1 + n2 + n3) {
            Ok(n) => n,
            Err(e) => {
                return Err(e);
            },
        };
        let ghost b4 = buffer@;
        let n5 = match self.uri.serialize_to(buffer, pos + n1 + n2 + n3 + n4) {
            Ok(n) => n,
            Err(e) => {
                return Err(e);
            },
        };
        let ghost b5 = buffer@;
        let n6 = match self.seq.serialize_to(buffer, pos + n1 + n2 + n3 + n4 + n5) {
            Ok(n) => n,
            Err(e) => {
                return Err(e);
            },
        };
        proof {
            assert(buffer@.subrange(pos as int, pos + n1) =~= b1.subrange(pos as int, pos + n1));
            assert(buffer@.subrange(pos + n1, pos + n1 + n2) =~= b2.subrange(
                pos + n1,
                pos + n1 + n2,
            ));
            assert(buffer@.subrange(pos + n1 + n2, pos + n1 + n2 + n3) =~= b3.subrange(
                pos + n1 + n2,
                pos + n1 + n2 + n3,
            ));
            assert(buffer@.subrange(pos + n1 + n2 + n3, pos + n1 + n2 + n3 + n4) =~= b4.subrange(
                pos + n1 + n2 + n3,
                pos + n1 + n2 + n3 + n4,
            ));
            assert(buffer@.subrange(pos + n1 + n2 + n3 + n4, pos + n1 + n2 + n3 + n4 + n5)
                =~= b5.subrange(pos + n1 + n2 + n3 + n4, pos + n1 + n2 + n3 + n4 + n5));
            assert(buffer@.subrange(pos as int, pos + n1 + n2 + n3 + n4 + n5 + n6)
                =~= base_asset_wire(v));
        }
        Ok(n1 + n2 + n3 + n4 + n5 + n6)
    }
}

/// The base record of a collection: kind tag, update authority identity,
/// name and uri byte strings, and the two counters.
pub struct BaseCollectionV1 {
    pub key: Key,
    pub update_authority: Pubkey,
    pub name: Vec<u8>,
    pub uri: Vec<u8>,
    pub num_minted: u32,
    pub current_size: u32,
}

/// The mathematical value of a [`BaseCollectionV1`].
#[verifier::ext_equal]
pub ghost struct BaseCollectionV1View {
    pub key: Key,
    pub update_authority: Seq<u8>,
    pub name: Seq<u8>,
    pub uri: Seq<u8>,
    pub num_minted: u32,
    pub current_size: u32,
}

/// A base collection record is its kind tag, the update-authority
/// identity, the two byte strings, then the two counters.
pub open spec fn base_collection_wire(v: BaseCollectionV1View) -> Seq<u8> {
    seq![v.key.disc()] + v.update_authority + seq_wire::<u8>(v.name) + seq_wire::<u8>(v.uri)
        + vstd::bytes::spec_u32_to_le_bytes(v.num_minted) + vstd::bytes::spec_u32_to_le_bytes(
        v.current_size,
    )
}

/// Whether a base collection record can be carried.
pub open spec fn base_collection_encodable(v: BaseCollectionV1View) -> bool {
    v.update_authority.len() == PUBKEY_LEN && v.name.len() < count_limit() && v.uri.len()
        < count_limit()
}

impl DeepView for BaseCollectionV1 {
    type V = BaseCollectionV1View;

    open spec fn deep_view(&self) -> BaseCollectionV1View {
        BaseCollectionV1View {
            key: self.key,
            update_authority: self.update_authority.deep_view(),
            name: self.name.deep_view(),
            uri: self.uri.deep_view(),
            num_minted: self.num_minted,
            current_size: self.current_size,
        }
    }
}

impl Serialize for BaseCollectionV1 {
    open spec fn vwire(v: BaseCollectionV1View) -> Seq<u8> {
        base_collection_wire(v)
    }

    open spec fn vencodable(v: BaseCollectionV1View) -> bool {
        base_collection_encodable(v)
    }

    #[verifier::rlimit(60)]
    #[verifier::spinoff_prover]
    fn serialize_to(&self, buffer: &mut Vec<u8>, pos: usize) -> (r: Result<
        usize,
        CodecError,
    >) {
        proof {
            assert(<BaseCollectionV1 as Serialize>::vwire(self.deep_view()) == base_collection_wire(self.deep_view()));
            assert(<BaseCollectionV1 as Serialize>::vencodable(self.deep_view()) == base_collection_encodable(self.deep_view()));
        }
        let blen = buffer.len();
        let ghost v = self.deep_view();
        let n1 = match self.key.serialize_to(buffer, pos) {
            Ok(n) => n,
            Err(e) => {
                return Err(e);
            },
        };
        let ghost b1 = buffer@;
        let n2 = match self.update_authority.serialize_to(buffer, pos + n1) {
            Ok(n) => n,
            Err(e) => {
                return Err(e);
            },
        };
        let ghost b2 = buffer@;
        let n3 = match self.name.serialize_to(buffer, pos + n1 + n2) {
            Ok(n) => n,
            Err(e) => {
                return Err(e);
            },
        };
        let ghost b3 = buffer@;
        let n4 = match self.uri.serialize_to(buffer, pos + n1 + n2 + n3) {
            Ok(n) => n,
            Err(e) => {
                return Err(e);
            },
        };
        let ghost b4 = buffer@;
        let n5 = match self.num_minted.serialize_to(buffer, pos + n1 + n2 + n3 + n4) {
            Ok(n) => n,
            Err(e) => {
                return Err(e);
            },
        };
        let ghost b5 = buffer@;
        let n6 = match self.current_size.serialize_to(buffer, pos + n1 + n2 + n3 + n4 + n5) {
            Ok(n) => n,
            Err(e) => {
                return Err(e);
            },
        };
        proof {
            assert(buffer@.subrange(pos as int, pos + n1) =~= b1.subrange(pos as int, pos + n1));
            assert(buffer@.subrange(pos + n1, pos + n1 + n2) =~= b2.subrange(
                pos + n1,
                pos + n1 + n2,
            ));
            assert(buffer@.subrange(pos + n1 + n2, pos + n1 + n2 + n3) =~= b3.subrange(
                pos + n1 + n2,
                pos + n1 + n2 + n3,
            ));
            assert(buffer@.subrange(pos + n1 + n2 + n3, pos + n1 + n2 + n3 + n4) =~= b4.subrange(
                pos + n1 + n2 + n3,
                pos + n1 + n2 + n3 + n4,
            ));
            assert(buffer@.subrange(pos + n1 + n2 + n3 + n4, pos + n1 + n2 + n3 + n4 + n5)
                =~= b5.subrange(pos + n1 + n2 + n3 + n4, pos + n1 + n2 + n3 + n4 + n5));
            assert(buffer@.subrange(pos as int, pos + n1 + n2 + n3 + n4 + n5 + n6)
                =~= base_collection_wire(v));
        }
        Ok(n1 + n2 + n3 + n4 + n5 + n6)
    }
}

/// The plugin header: its kind tag and the absolute offset of the plugin
/// registry within the buffer.
pub struct PluginHeaderV1 {
    pub key: Key,
    pub plugin_registry_offset: u64,
}

/// The mathematical value of a [`PluginHeaderV1`].
pub ghost struct PluginHeaderV1View {
    pub key: Key,
    pub plugin_registry_offset: u64,
}

/// The number of bytes a plugin header occupies: one tag byte and an
/// eight-byte offset.
pub const PLUGIN_HEADER_LEN: usize = 9;

/// A plugin header is its kind tag followed by the registry offset.
pub open spec fn plugin_header_wire(v: PluginHeaderV1View) -> Seq<u8> {
    seq![v.key.disc()] + vstd::bytes::spec_u64_to_le_bytes(v.plugin_registry_offset)
}

impl DeepView for PluginHeaderV1 {
    type V = PluginHeaderV1View;

    open spec fn deep_view(&self) -> PluginHeaderV1View {
        PluginHeaderV1View { key: self.key, plugin_registry_offset: self.plugin_registry_offset }
    }
}

impl Serialize for PluginHeaderV1 {
    open spec fn vwire(v: PluginHeaderV1View) -> Seq<u8> {
        plugin_header_wire(v)
    }

    open spec fn vencodable(v: PluginHeaderV1View) -> bool {
        true
    }

    fn serialize_to(&self, buffer: &mut Vec<u8>, pos: usize) -> (r: Result<
        usize,
        CodecError,
    >) {
        proof {
            assert(<PluginHeaderV1 as Serialize>::vwire(self.deep_view()) == plugin_header_wire(self.deep_view()));
            assert(<PluginHeaderV1 as Serialize>::vencodable(self.deep_view()) == true);
        }
        let blen = buffer.len();
        let ghost v = self.deep_view();
        let n1 = match self.key.serialize_to(buffer, pos) {
            Ok(n) => n,
            Err(e) => {
                return Err(e);
            },
        };
        let ghost b1 = buffer@;
        let n2 = match self.plugin_registry_offset.serialize_to(buffer, pos + n1) {
            Ok(n) => n,
            Err(e) => {
                return Err(e);
            },
        };
        proof {
            assert(buffer@.subrange(pos as int, pos + n1) =~= b1.subrange(pos as int, pos + n1));
            assert(buffer@.subrange(pos as int, pos + n1 + n2) =~= plugin_header_wire(v));
        }
        Ok(n1 + n2)
    }
}

/// One registry entry: the plugin's type number, its authority, and the
/// absolute offset of its payload within the buffer.
pub struct RegistryRecordSafe {
    pub plugin_type: u8,
    pub authority: PluginAuthority,
    pub offset: u64,
}

/// The mathematical value of a [`RegistryRecordSafe`].
#[verifier::ext_equal]
pub ghost struct RegistryRecordView {
    pub plugin_type: u8,
    pub authority: PluginAuthorityView,
    pub offset: u64,
}

/// A registry record is the plugin-type byte, the authority, then the
/// eight offset bytes.
pub open spec fn registry_record_wire(v: RegistryRecordView) -> Seq<u8> {
    seq![v.plugin_type] + plugin_authority_wire(v.authority) + vstd::bytes::spec_u64_to_le_bytes(
        v.offset,
    )
}

impl DeepView for RegistryRecordSafe {
    type V = RegistryRecordView;

    open spec fn deep_view(&self) -> RegistryRecordView {
        RegistryRecordView {
            plugin_type: self.plugin_type,
            authority: self.authority.deep_view(),
            offset: self.offset,
        }
    }
}

impl Serialize for RegistryRecordSafe {
    open spec fn vwire(v: RegistryRecordView) -> Seq<u8> {
        registry_record_wire(v)
    }

    open spec fn vencodable(v: RegistryRecordView) -> bool {
        plugin_authority_encodable(v.authority)
    }

    fn serialize_to(&self, buffer: &mut Vec<u8>, pos: usize) -> (r: Result<
        usize,
        CodecError,
    >) {
        proof {
            assert(<RegistryRecordSafe as Serialize>::vwire(self.deep_view()) == registry_record_wire(self.deep_view()));
            assert(<RegistryRecordSafe as Serialize>::vencodable(self.deep_view()) == plugin_authority_encodable(self.authority.deep_view()));
        }
        let blen = buffer.len();
        let ghost v = self.deep_view();
        let n1 = match self.plugin_type.serialize_to(buffer, pos) {
            Ok(n) => n,
            Err(e) => {
                return Err(e);
            },
        };
        let ghost b1 = buffer@;
        let n2 = match self.authority.serialize_to(buffer, pos + n1) {
            Ok(n) => n,
            Err(e) => {
                return Err(e);
            },
        };
        let ghost b2 = buffer@;
        let n3 = match self.offset.serialize_to(buffer, pos + n1 + n2) {
            Ok(n) => n,
            Err(e) => {
                return Err(e);
            },
        };
        proof {
            assert(buffer@.subrange(pos as int, pos + n1) =~= b1.subrange(pos as int, pos + n1));
            assert(buffer@.subrange(pos + n1, pos + n1 + n2) =~= b2.subrange(
                pos + n1,
                pos + n1 + n2,
            ));
            assert(buffer@.subrange(pos as int, pos + n1 + n2 + n3) =~= registry_record_wire(v));
        }
        Ok(n1 + n2 + n3)
    }
}

/// The flag set an external plugin reports for one lifecycle event.
pub struct ExternalCheckResult {
    pub flags: u32,
}

impl DeepView for ExternalCheckResult {
    type V = ExternalCheckResult;

    open spec fn deep_view(&self) -> ExternalCheckResult {
        *self
    }
}

impl Serialize for ExternalCheckResult {
    open spec fn vwire(v: ExternalCheckResult) -> Seq<u8> {
        vstd::bytes::spec_u32_to_le_bytes(v.flags)
    }

    open spec fn vencodable(v: ExternalCheckResult) -> bool {
        true
    }

    fn serialize_to(&self, buffer: &mut Vec<u8>, pos: usize) -> (r: Result<
        usize,
        CodecError,
    >) {
        proof {
            assert(<ExternalCheckResult as Serialize>::vwire(self.deep_view())
                == <u32 as Serialize>::vwire(self.flags.deep_view()));
            assert(<ExternalCheckResult as Serialize>::vencodable(self.deep_view())
                == <u32 as Serialize>::vencodable(self.flags.deep_view()));
        }
        self.flags.serialize_to(buffer, pos)
    }
}

impl Serialize for (u8, ExternalCheckResult) {
    open spec fn vwire(v: (u8, ExternalCheckResult)) -> Seq<u8> {
        seq![v.0] + vstd::bytes::spec_u32_to_le_bytes(v.1.flags)
    }

    open spec fn vencodable(v: (u8, ExternalCheckResult)) -> bool {
        true
    }

    fn serialize_to(&self, buffer: &mut Vec<u8>, pos: usize) -> (r: Result<
        usize,
        CodecError,
    >) {
        proof {
            assert(<(u8, ExternalCheckResult) as Serialize>::vwire(self.deep_view()) == <(u8, ExternalCheckResult) as Serialize>::vwire(self.deep_view()));
            assert(<(u8, ExternalCheckResult) as Serialize>::vencodable(self.deep_view()) == true);
        }
        let blen = buffer.len();
        let ghost v = self.deep_view();
        let n1 = match self.0.serialize_to(buffer, pos) {
            Ok(n) => n,
            Err(e) => {
                return Err(e);
            },
        };
        let ghost b1 = buffer@;
        let n2 = match self.1.serialize_to(buffer, pos + n1) {
            Ok(n) => n,
            Err(e) => {
                return Err(e);
            },
        };
        proof {
            assert(buffer@.subrange(pos as int, pos + n1) =~= b1.subrange(pos as int, pos + n1));
            assert(buffer@.subrange(pos as int, pos + n1 + n2) =~= <(
                u8,
                ExternalCheckResult,
            ) as Serialize>::vwire(v));
        }
        Ok(n1 + n2)
    }
}

/// One external-registry entry. External plugins are not supported here:
/// the engine only ever writes an empty run of these, but the record's own
/// encoding is part of the format.
pub struct ExternalRegistryRecordSafe {
    pub plugin_type: u8,
    pub authority: PluginAuthority,
    pub lifecycle_checks: Option<Vec<(u8, ExternalCheckResult)>>,
    pub offset: u64,
    pub data_offset: Option<u64>,
    pub data_len: Option<u64>,
}

/// The mathematical value of an [`ExternalRegistryRecordSafe`].
#[verifier::ext_equal]
pub ghost struct ExternalRegistryRecordView {
    pub plugin_type: u8,
    pub authority: PluginAuthorityView,
    pub lifecycle_checks: Option<Seq<(u8, ExternalCheckResult)>>,
    pub offset: u64,
    pub data_offset: Option<u64>,
    pub data_len: Option<u64>,
}

/// An external registry record is the plugin-type byte, the authority,
/// the optional lifecycle-check pairs, the offset, then the two optional
/// data fields.
pub open spec fn external_registry_record_wire(v: ExternalRegistryRecordView) -> Seq<u8> {
    seq![v.plugin_type] + plugin_authority_wire(v.authority) + opt_wire::<
        Vec<(u8, ExternalCheckResult)>,
    >(v.lifecycle_checks) + vstd::bytes::spec_u64_to_le_bytes(v.offset) + opt_wire::<u64>(
        v.data_offset,
    ) + opt_wire::<u64>(v.data_len)
}

/// Whether an external registry record can be carried.
pub open spec fn external_registry_record_encodable(v: ExternalRegistryRecordView) -> bool {
    plugin_authority_encodable(v.authority) && opt_encodable::<Vec<(u8, ExternalCheckResult)>>(
        v.lifecycle_checks,
    )
}

impl DeepView for ExternalRegistryRecordSafe {
    type V = ExternalRegistryRecordView;

    open spec fn deep_view(&self) -> ExternalRegistryRecordView {
        ExternalRegistryRecordView {
            plugin_type: self.plugin_type,
            authority: self.authority.deep_view(),
            lifecycle_checks: self.lifecycle_checks.deep_view(),
            offset: self.offset,
            data_offset: self.data_offset,
            data_len: self.data_len,
        }
    }
}

impl Serialize for ExternalRegistryRecordSafe {
    open spec fn vwire(v: ExternalRegistryRecordView) -> Seq<u8> {
        external_registry_record_wire(v)
    }

    open spec fn vencodable(v: ExternalRegistryRecordView) -> bool {
        external_registry_record_encodable(v)
    }

    #[verifier::rlimit(60)]
    #[verifier::spinoff_prover]
    fn serialize_to(&self, buffer: &mut Vec<u8>, pos: usize) -> (r: Result<
        usize,
        CodecError,
    >) {
        proof {
            assert(<ExternalRegistryRecordSafe as Serialize>::vwire(self.deep_view()) == external_registry_record_wire(self.deep_view()));
            assert(<ExternalRegistryRecordSafe as Serialize>::vencodable(self.deep_view()) == external_registry_record_encodable(self.deep_view()));
        }
        let blen = buffer.len();
        let ghost v = self.deep_view();
        let n1 = match self.plugin_type.serialize_to(buffer, pos) {
            Ok(n) => n,
            Err(e) => {
                return Err(e);
            },
        };
        let ghost b1 = buffer@;
        let n2 = match self.authority.serialize_to(buffer, pos + n1) {
            Ok(n) => n,
            Err(e) => {
                return Err(e);
            },
        };
        let ghost b2 = buffer@;
        let n3 = match self.lifecycle_checks.serialize_to(buffer, pos + n1 + n2) {
            Ok(n) => n,
            Err(e) => {
                return Err(e);
            },
        };
        let ghost b3 = buffer@;
        let n4 = match self.offset.serialize_to(buffer, pos + n1 + n2 + n3) {
            Ok(n) => n,
            Err(e) => {
                return Err(e);
            },
        };
        let ghost b4 = buffer@;
        let n5 = match self.data_offset.serialize_to(buffer, pos + n1 + n2 + n3 + n4) {
            Ok(n) => n,
            Err(e) => {
                return Err(e);
            },
        };
        let ghost b5 = buffer@;
        let n6 = match self.data_len.serialize_to(buffer, pos + n1 + n2 + n3 + n4 + n5) {
            Ok(n) => n,
            Err(e) => {
                return Err(e);
            },
        };
        proof {
            assert(buffer@.subrange(pos as int, pos + n1) =~= b1.subrange(pos as int, pos + n1));
            assert(buffer@.subrange(pos + n1, pos + n1 + n2) =~= b2.subrange(
                pos + n1,
                pos + n1 + n2,
            ));
            assert(buffer@.subrange(pos + n1 + n2, pos + n1 + n2 + n3) =~= b3.subrange(
                pos + n1 + n2,
                pos + n1 + n2 + n3,
            ));
            assert(buffer@.subrange(pos + n1 + n2 + n3, pos + n1 + n2 + n3 + n4) =~= b4.subrange(
                pos + n1 + n2 + n3,
                pos + n1 + n2 + n3 + n4,
            ));
            assert(buffer@.subrange(pos + n1 + n2 + n3 + n4, pos + n1 + n2 + n3 + n4 + n5)
                =~= b5.subrange(pos + n1 + n2 + n3 + n4, pos + n1 + n2 + n3 + n4 + n5));
            assert(buffer@.subrange(pos as int, pos + n1 + n2 + n3 + n4 + n5 + n6)
                =~= external_registry_record_wire(v));
        }
        Ok(n1 + n2 + n3 + n4 + n5 + n6)
    }
}

/// The plugin registry: its kind tag, the count-prefixed registry
/// records, then the count-prefixed external records (always empty here).
pub struct PluginRegistryV1Safe {
    pub key: Key,
    pub registry: Vec<RegistryRecordSafe>,
    pub external_registry: Vec<ExternalRegistryRecordSafe>,
}

/// The mathematical value of a [`PluginRegistryV1Safe`].
#[verifier::ext_equal]
pub ghost struct PluginRegistryV1View {
    pub key: Key,
    pub registry: Seq<RegistryRecordView>,
    pub external_registry: Seq<ExternalRegistryRecordView>,
}

/// A plugin registry is its kind tag, the registry records, then the
/// external records.
pub open spec fn plugin_registry_wire(v: PluginRegistryV1View) -> Seq<u8> {
    seq![v.key.disc()] + seq_wire::<RegistryRecordSafe>(v.registry) + seq_wire::<
        ExternalRegistryRecordSafe,
    >(v.external_registry)
}

/// Whether a plugin registry can be carried.
pub open spec fn plugin_registry_encodable(v: PluginRegistryV1View) -> bool {
    seq_encodable::<RegistryRecordSafe>(v.registry) && seq_encodable::<ExternalRegistryRecordSafe>(
        v.external_registry,
    )
}

impl DeepView for PluginRegistryV1Safe {
    type V = PluginRegistryV1View;

    open spec fn deep_view(&self) -> PluginRegistryV1View {
        PluginRegistryV1View {
            key: self.key,
            registry: self.registry.deep_view(),
            external_registry: self.external_registry.deep_view(),
        }
    }
}

impl Serialize for PluginRegistryV1Safe {
    open spec fn vwire(v: PluginRegistryV1View) -> Seq<u8> {
        plugin_registry_wire(v)
    }

    open spec fn vencodable(v: PluginRegistryV1View) -> bool {
        plugin_registry_encodable(v)
    }

    fn serialize_to(&self, buffer: &mut Vec<u8>, pos: usize) -> (r: Result<
        usize,
        CodecError,
    >) {
        proof {
            assert(<PluginRegistryV1Safe as Serialize>::vwire(self.deep_view()) == plugin_registry_wire(self.deep_view()));
            assert(<PluginRegistryV1Safe as Serialize>::vencodable(self.deep_view()) == plugin_registry_encodable(self.deep_view()));
        }
        let blen = buffer.len();
        let ghost v = self.deep_view();
        let n1 = match self.key.serialize_to(buffer, pos) {
            Ok(n) => n,
            Err(e) => {
                return Err(e);
            },
        };
        let ghost b1 = buffer@;
        let n2 = match self.registry.serialize_to(buffer, pos + n1) {
            Ok(n) => n,
            Err(e) => {
                return Err(e);
            },
        };
        let ghost b2 = buffer@;
        let n3 = match self.external_registry.serialize_to(buffer, pos + n1 + n2) {
            Ok(n) => n,
            Err(e) => {
                return Err(e);
            },
        };
        proof {
            assert(buffer@.subrange(pos as int, pos + n1) =~= b1.subrange(pos as int, pos + n1));
            assert(buffer@.subrange(pos + n1, pos + n1 + n2) =~= b2.subrange(
                pos + n1,
                pos + n1 + n2,
            ));
            assert(buffer@.subrange(pos as int, pos + n1 + n2 + n3) =~= plugin_registry_wire(v));
        }
        Ok(n1 + n2 + n3)
    }
}


/// A plugin and the authority that may act on it, as the registry layout
/// engine consumes them: the authority is always present.
pub struct PluginAuthorityPairWithoutOption {
    pub plugin: Plugin,
    pub authority: PluginAuthority,
}

/// The mathematical value of a [`PluginAuthorityPairWithoutOption`].
#[verifier::ext_equal]
pub ghost struct PluginPairView {
    pub plugin: crate::plugins::PluginView,
    pub authority: PluginAuthorityView,
}

impl DeepView for PluginAuthorityPairWithoutOption {
    type V = PluginPairView;

    open spec fn deep_view(&self) -> PluginPairView {
        PluginPairView {
            plugin: self.plugin.deep_view(),
            authority: self.authority.deep_view(),
        }
    }
}

/// The most plugins one asset can carry: the size of the engine's
/// fixed-capacity scratch list of registry records.
pub const MAX_PLUGINS: usize = 16;

/// The concatenated encodings of a run of plugin payloads, in order.
pub open spec fn plugin_bodies_wire(ps: Seq<PluginPairView>) -> Seq<u8>
    decreases ps.len(),
{
    if ps.len() == 0 {
        Seq::empty()
    } else {
        plugin_wire(ps[0].plugin) + plugin_bodies_wire(ps.drop_first())
    }
}

/// Splitting a run of plugins splits its payload encoding.
pub proof fn lemma_plugin_bodies_split(ps: Seq<PluginPairView>, i: int)
    requires
        0 <= i <= ps.len(),
    ensures
        plugin_bodies_wire(ps) == plugin_bodies_wire(ps.take(i)) + plugin_bodies_wire(ps.skip(i)),
    decreases i,
{
    if i == 0 {
        assert(ps.take(0) =~= Seq::<PluginPairView>::empty());
        assert(ps.skip(0) =~= ps);
        assert(plugin_bodies_wire(ps) =~= plugin_bodies_wire(ps.take(0)) + plugin_bodies_wire(
            ps.skip(0),
        ));
    } else {
        lemma_plugin_bodies_split(ps.drop_first(), i - 1);
        assert(ps.take(i).drop_first() =~= ps.drop_first().take(i - 1));
        assert(ps.skip(i) =~= ps.drop_first().skip(i - 1));
        assert(plugin_bodies_wire(ps.take(i)) == plugin_wire(ps[0].plugin) + plugin_bodies_wire(
            ps.drop_first().take(i - 1),
        ));
        assert(plugin_bodies_wire(ps) =~= plugin_bodies_wire(ps.take(i)) + plugin_bodies_wire(
            ps.skip(i),
        ));
    }
}

/// Extending a prefix of plugins by one appends that plugin's encoding.
pub proof fn lemma_plugin_bodies_take_succ(ps: Seq<PluginPairView>, i: int)
    requires
        0 <= i < ps.len(),
    ensures
        plugin_bodies_wire(ps.take(i + 1)) == plugin_bodies_wire(ps.take(i)) + plugin_wire(
            ps[i].plugin,
        ),
{
    lemma_plugin_bodies_split(ps.take(i + 1), i);
    assert(ps.take(i + 1).take(i) =~= ps.take(i));
    assert(ps.take(i + 1).skip(i) =~= seq![ps[i]]);
    assert(plugin_bodies_wire(seq![ps[i]]) == plugin_wire(ps[i].plugin) + plugin_bodies_wire(
        seq![ps[i]].drop_first(),
    ));
    assert(seq![ps[i]].drop_first() =~= Seq::<PluginPairView>::empty());
    assert(plugin_bodies_wire(seq![ps[i]]) =~= plugin_wire(ps[i].plugin));
}

/// The registry records the layout engine derives for a run of plugins
/// whose base record occupies `base_len` bytes: for each plugin its type
/// number, its authority, and the absolute offset of its payload.
pub open spec fn asset_registry_records(ps: Seq<PluginPairView>, base_len: int) -> Seq<
    RegistryRecordView,
> {
    Seq::new(
        ps.len(),
        |i: int|
            RegistryRecordView {
                plugin_type: plugin_disc(ps[i].plugin),
                authority: ps[i].authority,
                offset: (base_len + PLUGIN_HEADER_LEN + plugin_bodies_wire(ps.take(i)).len()) as u64,
            },
    )
}

/// The registry the layout engine writes: the registry-kind tag, the
/// derived records, and an always-empty external-record run.
pub open spec fn asset_registry_view(ps: Seq<PluginPairView>, base_len: int) -> PluginRegistryV1View {
    PluginRegistryV1View {
        key: Key::PluginRegistryV1,
        registry: asset_registry_records(ps, base_len),
        external_registry: Seq::empty(),
    }
}

/// A processed asset: its base record and the plugins to attach, in the
/// order their payloads will be laid out.
pub struct AssetInfo {
    pub base: BaseAssetV1,
    pub plugins: Vec<PluginAuthorityPairWithoutOption>,
}

/// The mathematical value of an [`AssetInfo`].
#[verifier::ext_equal]
pub ghost struct AssetInfoView {
    pub base: BaseAssetV1View,
    pub plugins: Seq<PluginPairView>,
}

/// The absolute offset at which an asset's plugin registry stands: right
/// after the base record, the reserved header, and every plugin payload.
pub open spec fn asset_registry_offset(v: AssetInfoView) -> int {
    base_asset_wire(v.base).len() + PLUGIN_HEADER_LEN + plugin_bodies_wire(v.plugins).len()
}

/// The full encoding of an asset. With no plugins it is the bare base
/// record; otherwise the base record is followed by the plugin header,
/// every plugin payload, and the registry the header points at.
pub open spec fn asset_wire(v: AssetInfoView) -> Seq<u8> {
    let bw = base_asset_wire(v.base);
    if v.plugins.len() == 0 {
        bw
    } else {
        bw + plugin_header_wire(
            PluginHeaderV1View {
                key: Key::PluginHeaderV1,
                plugin_registry_offset: asset_registry_offset(v) as u64,
            },
        ) + plugin_bodies_wire(v.plugins) + plugin_registry_wire(
            asset_registry_view(v.plugins, bw.len() as int),
        )
    }
}

/// Whether an asset can be carried: its base record can, the plugin count
/// is within the engine's capacity, every plugin and authority can be
/// carried, and the registry offset fits its eight-byte field.
pub open spec fn asset_encodable(v: AssetInfoView) -> bool {
    base_asset_encodable(v.base) && v.plugins.len() <= MAX_PLUGINS && (forall|i: int|
        0 <= i < v.plugins.len() ==> plugin_encodable(#[trigger] v.plugins[i].plugin)
            && plugin_authority_encodable(v.plugins[i].authority)) && (v.plugins.len() > 0
        ==> asset_registry_offset(v) <= u64::MAX)
}

impl DeepView for AssetInfo {
    type V = AssetInfoView;

    open spec fn deep_view(&self) -> AssetInfoView {
        AssetInfoView { base: self.base.deep_view(), plugins: self.plugins.deep_view() }
    }
}

impl Serialize for AssetInfo {
    open spec fn vwire(v: AssetInfoView) -> Seq<u8> {
        asset_wire(v)
    }

    open spec fn vencodable(v: AssetInfoView) -> bool {
        asset_encodable(v)
    }

    /// The registry layout engine. Two passes over one buffer: the header
    /// region is reserved right after the base record and skipped, every
    /// plugin payload is written while its registry record is accumulated
    /// in a fixed-capacity scratch list, the registry is written at the
    /// offset now known, and the reserved header is finally backfilled
    /// with that offset.
    #[verifier::rlimit(100)]
    #[verifier::spinoff_prover]
    fn serialize_to(&self, buffer: &mut Vec<u8>, pos: usize) -> (r: Result<
        usize,
        CodecError,
    >) {
        let blen = buffer.len();
        let ghost v = self.deep_view();
        let ghost total = asset_wire(v).len() as int;
        proof {
            assert(<AssetInfo as Serialize>::vwire(v) == asset_wire(v));
            assert(<AssetInfo as Serialize>::vencodable(v) == asset_encodable(v));
        }
        let base_len = match self.base.serialize_to(buffer, pos) {
            Ok(n) => n,
            Err(e) => {
                return Err(e);
            },
        };
        if self.plugins.is_empty() {
            proof {
                assert(v.plugins.len() == 0);
                assert(asset_wire(v) == base_asset_wire(v.base));
            }
            return Ok(base_len);
        }
        if self.plugins.len() > MAX_PLUGINS {
            proof {
                assert(!asset_encodable(v));
            }
            return Err(CodecError::CapacityExceeded);
        }
        let ghost bodies_total = plugin_bodies_wire(v.plugins).len() as int;
        let ghost reg_wire = plugin_registry_wire(
            asset_registry_view(v.plugins, base_len as int),
        );
        proof {
            vstd::bytes::lemma_auto_spec_u64_to_from_le_bytes();
            assert(total == base_len + PLUGIN_HEADER_LEN + bodies_total + reg_wire.len());
        }
        let header_pos = pos + base_len;
        if blen - header_pos < PLUGIN_HEADER_LEN {
            return Err(CodecError::BufferTooSmall);
        }
        let mut cur: usize = header_pos + PLUGIN_HEADER_LEN;
        let mut records: Vec<RegistryRecordSafe> = Vec::new();
        let mut i: usize = 0;
        while i < self.plugins.len()
            invariant
                i <= self.plugins@.len(),
                v == self.deep_view(),
                v.plugins.len() == self.plugins@.len(),
                0 < v.plugins.len() <= MAX_PLUGINS,
                forall|j: int|
                    0 <= j < v.plugins.len() ==> (#[trigger] v.plugins[j])
                        == self.plugins@[j].deep_view(),
                blen == buffer@.len(),
                buffer@.len() == old(buffer)@.len(),
                total == asset_wire(v).len() as int,
                bodies_total == plugin_bodies_wire(v.plugins).len() as int,
                total == base_len + PLUGIN_HEADER_LEN + bodies_total + reg_wire.len(),
                reg_wire == plugin_registry_wire(asset_registry_view(v.plugins, base_len as int)),
                pos + base_len == header_pos,
                header_pos + PLUGIN_HEADER_LEN <= blen,
                cur == header_pos + PLUGIN_HEADER_LEN + plugin_bodies_wire(
                    v.plugins.take(i as int),
                ).len(),
                cur <= blen,
                base_asset_encodable(v.base),
                base_len == base_asset_wire(v.base).len(),
                buffer@.subrange(pos as int, pos + base_len) == base_asset_wire(v.base),
                buffer@.subrange(header_pos + PLUGIN_HEADER_LEN, cur as int) == plugin_bodies_wire(
                    v.plugins.take(i as int),
                ),
                forall|j: int|
                    0 <= j < buffer@.len() && !(pos <= j < pos + total) ==> buffer@[j] == old(
                        buffer,
                    )@[j],
                forall|j: int|
                    0 <= j < i ==> plugin_encodable(#[trigger] v.plugins[j].plugin),
                records@.len() == i,
                forall|j: int|
                    0 <= j < i ==> (#[trigger] records@[j]).deep_view() == asset_registry_records(
                        v.plugins,
                        base_len as int,
                    )[j],
            decreases self.plugins@.len() - i,
        {
            proof {
                lemma_plugin_bodies_split(v.plugins, i as int);
                lemma_plugin_bodies_take_succ(v.plugins, i as int);
                assert(v.plugins.skip(i as int)[0] == v.plugins[i as int]);
                assert(plugin_bodies_wire(v.plugins.skip(i as int)) == plugin_wire(
                    v.plugins[i as int].plugin,
                ) + plugin_bodies_wire(v.plugins.skip(i as int).drop_first()));
            }
            let pair = &self.plugins[i];
            let start_offset = cur;
            let ghost bprev = buffer@;
            let n = match pair.plugin.serialize_to(buffer, cur) {
                Ok(n) => n,
                Err(e) => {
                    return Err(e);
                },
            };
            let rec = RegistryRecordSafe {
                plugin_type: pair.plugin.get_plugin_number(),
                authority: pair.authority,
                offset: (start_offset - pos) as u64,
            };
            records.push(rec);
            proof {
                assert(buffer@.subrange(pos as int, pos + base_len) =~= bprev.subrange(
                    pos as int,
                    pos + base_len,
                ));
                assert(buffer@.subrange(header_pos + PLUGIN_HEADER_LEN, cur as int)
                    =~= bprev.subrange(header_pos + PLUGIN_HEADER_LEN, cur as int));
                assert(buffer@.subrange(header_pos + PLUGIN_HEADER_LEN, cur + n as int)
                    =~= plugin_bodies_wire(v.plugins.take(i as int + 1)));
                assert(records@[i as int].deep_view() == asset_registry_records(
                    v.plugins,
                    base_len as int,
                )[i as int]);
            }
            cur = cur + n;
            i = i + 1;
        }
        proof {
            assert(v.plugins.take(v.plugins.len() as int) =~= v.plugins);
            assert(records.deep_view() =~= asset_registry_records(v.plugins, base_len as int));
        }
        let registry = PluginRegistryV1Safe {
            key: Key::PluginRegistryV1,
            registry: records,
            external_registry: Vec::new(),
        };
        proof {
            assert(registry.deep_view() =~= asset_registry_view(v.plugins, base_len as int));
        }
        let registry_offset = cur - pos;
        let ghost bodies_done = buffer@;
        let rn = match registry.serialize_to(buffer, cur) {
            Ok(n) => n,
            Err(e) => {
                proof {
                    if e == CodecError::CapacityExceeded {
                        assert(!plugin_registry_encodable(
                            asset_registry_view(v.plugins, base_len as int),
                        ));
                        let recs = asset_registry_records(v.plugins, base_len as int);
                        assert(recs.len() < crate::serialize::count_limit());
                        assert(seq_encodable::<ExternalRegistryRecordSafe>(
                            Seq::<ExternalRegistryRecordView>::empty(),
                        ));
                        assert(!seq_encodable::<RegistryRecordSafe>(recs));
                        let jj = choose|j: int|
                            0 <= j < recs.len() && !(#[trigger] plugin_authority_encodable(
                                recs[j].authority,
                            ));
                        assert(recs[jj].authority == v.plugins[jj].authority);
                        assert(!asset_encodable(v));
                    }
                }
                return Err(e);
            },
        };
        let header = PluginHeaderV1 {
            key: Key::PluginHeaderV1,
            plugin_registry_offset: registry_offset as u64,
        };
        let ghost reg_done = buffer@;
        match header.serialize_to(buffer, header_pos) {
            Ok(_) => {},
            Err(_) => {
                proof {
                    assert(false);
                }
                return Err(CodecError::BufferTooSmall);
            },
        }
        proof {
            assert(registry_offset as int == asset_registry_offset(v));
            assert(buffer@.subrange(pos as int, pos + base_len) =~= reg_done.subrange(
                pos as int,
                pos + base_len,
            ));
            assert(buffer@.subrange(header_pos + PLUGIN_HEADER_LEN, cur as int) =~= reg_done.subrange(
                header_pos + PLUGIN_HEADER_LEN,
                cur as int,
            ));
            assert(buffer@.subrange(cur as int, cur + rn) =~= reg_done.subrange(
                cur as int,
                cur + rn,
            ));
            assert(reg_done.subrange(pos as int, pos + base_len) =~= bodies_done.subrange(
                pos as int,
                pos + base_len,
            ));
            assert(reg_done.subrange(header_pos + PLUGIN_HEADER_LEN, cur as int)
                =~= bodies_done.subrange(header_pos + PLUGIN_HEADER_LEN, cur as int));
            assert(buffer@.subrange(pos as int, pos + total) =~= base_asset_wire(v.base)
                + plugin_header_wire(
                PluginHeaderV1View {
                    key: Key::PluginHeaderV1,
                    plugin_registry_offset: asset_registry_offset(v) as u64,
                },
            ) + plugin_bodies_wire(v.plugins) + reg_wire);
            assert(buffer@.subrange(pos as int, pos + total) == asset_wire(v));
            assert(asset_encodable(v));
        }
        Ok(cur + rn - pos)
    }
}


/// How many bytes the base asset record at the head of `bytes` occupies.
/// The kind tag is not assumed to have been consumed; the fixed-width
/// fields are skipped by size, the variable ones structurally.
pub open spec fn sskip_base_asset(bytes: Seq<u8>) -> Result<int, CodecError> {
    let o1 = 1 + PUBKEY_LEN as int;
    if bytes.len() < o1 {
        Err(CodecError::TruncatedInput)
    } else {
        match sskip_update_authority(bytes.skip(o1)) {
            Err(e) => Err(e),
            Ok(ua) => {
                let o2 = o1 + ua;
                if bytes.len() < o2 {
                    Err(CodecError::TruncatedInput)
                } else {
                    match crate::decode::sskip_byte_string(bytes.skip(o2)) {
                        Err(e) => Err(e),
                        Ok(nm) => {
                            let o3 = o2 + nm;
                            match crate::decode::sskip_byte_string(bytes.skip(o3)) {
                                Err(e) => Err(e),
                                Ok(ur) => {
                                    let o4 = o3 + ur;
                                    match crate::decode::sskip_opt_u64(bytes.skip(o4)) {
                                        Err(e) => Err(e),
                                        Ok(sq) => Ok(o4 + sq),
                                    }
                                },
                            }
                        },
                    }
                }
            },
        }
    }
}

impl Skip for BaseAssetV1 {
    open spec fn sskip(bytes: Seq<u8>) -> Result<int, CodecError> {
        sskip_base_asset(bytes)
    }

    fn skip_bytes(bytes: &[u8]) -> (r: Result<usize, CodecError>) {
        let o1 = 1 + PUBKEY_LEN;
        if bytes.len() < o1 {
            return Err(CodecError::TruncatedInput);
        }
        let ua = match UpdateAuthority::skip_bytes(
            vstd::slice::slice_subrange(bytes, o1, bytes.len()),
        ) {
            Ok(n) => n,
            Err(e) => {
                return Err(e);
            },
        };
        if bytes.len() - o1 < ua {
            return Err(CodecError::TruncatedInput);
        }
        let o2 = o1 + ua;
        let nm = match crate::decode::skip_byte_string(
            vstd::slice::slice_subrange(bytes, o2, bytes.len()),
        ) {
            Ok(n) => n,
            Err(e) => {
                return Err(e);
            },
        };
        let o3 = o2 + nm;
        let ur = match crate::decode::skip_byte_string(
            vstd::slice::slice_subrange(bytes, o3, bytes.len()),
        ) {
            Ok(n) => n,
            Err(e) => {
                return Err(e);
            },
        };
        let o4 = o3 + ur;
        let sq = match crate::decode::skip_opt_u64(
            vstd::slice::slice_subrange(bytes, o4, bytes.len()),
        ) {
            Ok(n) => n,
            Err(e) => {
                return Err(e);
            },
        };
        Ok(o4 + sq)
    }
}

/// Skipping an encoded base asset record reports exactly the encoding's
/// length.
pub proof fn lemma_base_asset_skip_agrees(v: BaseAssetV1View, rest: Seq<u8>)
    requires
        base_asset_encodable(v),
    ensures
        sskip_base_asset(base_asset_wire(v) + rest) == Ok::<int, CodecError>(
            base_asset_wire(v).len() as int,
        ),
{
    let w = base_asset_wire(v);
    let wua = update_authority_wire(v.update_authority);
    let wnm = seq_wire::<u8>(v.name);
    let wur = seq_wire::<u8>(v.uri);
    let wsq = opt_wire::<u64>(v.seq);
    let o1 = 1 + PUBKEY_LEN as int;
    assert((w + rest).skip(o1) =~= wua + (wnm + (wur + (wsq + rest))));
    crate::plugins::lemma_update_authority_skip_agrees(
        v.update_authority,
        wnm + (wur + (wsq + rest)),
    );
    let o2 = o1 + wua.len();
    assert((w + rest).skip(o2) =~= wnm + (wur + (wsq + rest)));
    crate::decode::lemma_byte_string_skip_agrees(v.name, wur + (wsq + rest));
    let o3 = o2 + wnm.len();
    assert((w + rest).skip(o3) =~= wur + (wsq + rest));
    crate::decode::lemma_byte_string_skip_agrees(v.uri, wsq + rest);
    let o4 = o3 + wur.len();
    assert((w + rest).skip(o4) =~= wsq + rest);
    crate::decode::lemma_opt_u64_skip_agrees(v.seq, rest);
}

/// How many bytes the base collection record at the head of `bytes`
/// occupies.
pub open spec fn sskip_base_collection(bytes: Seq<u8>) -> Result<int, CodecError> {
    let o1 = 1 + PUBKEY_LEN as int;
    if bytes.len() < o1 {
        Err(CodecError::TruncatedInput)
    } else {
        match crate::decode::sskip_byte_string(bytes.skip(o1)) {
            Err(e) => Err(e),
            Ok(nm) => {
                let o2 = o1 + nm;
                match crate::decode::sskip_byte_string(bytes.skip(o2)) {
                    Err(e) => Err(e),
                    Ok(ur) => {
                        let o3 = o2 + ur + 8;
                        if bytes.len() < o3 {
                            Err(CodecError::TruncatedInput)
                        } else {
                            Ok(o3)
                        }
                    },
                }
            },
        }
    }
}

impl Skip for BaseCollectionV1 {
    open spec fn sskip(bytes: Seq<u8>) -> Result<int, CodecError> {
        sskip_base_collection(bytes)
    }

    fn skip_bytes(bytes: &[u8]) -> (r: Result<usize, CodecError>) {
        let o1 = 1 + PUBKEY_LEN;
        if bytes.len() < o1 {
            return Err(CodecError::TruncatedInput);
        }
        let nm = match crate::decode::skip_byte_string(
            vstd::slice::slice_subrange(bytes, o1, bytes.len()),
        ) {
            Ok(n) => n,
            Err(e) => {
                return Err(e);
            },
        };
        let o2 = o1 + nm;
        let ur = match crate::decode::skip_byte_string(
            vstd::slice::slice_subrange(bytes, o2, bytes.len()),
        ) {
            Ok(n) => n,
            Err(e) => {
                return Err(e);
            },
        };
        if bytes.len() - o2 - ur < 8 {
            return Err(CodecError::TruncatedInput);
        }
        Ok(o2 + ur + 8)
    }
}

/// Skipping an encoded base collection record reports exactly the
/// encoding's length.
pub proof fn lemma_base_collection_skip_agrees(v: BaseCollectionV1View, rest: Seq<u8>)
    requires
        base_collection_encodable(v),
    ensures
        sskip_base_collection(base_collection_wire(v) + rest) == Ok::<int, CodecError>(
            base_collection_wire(v).len() as int,
        ),
{
    vstd::bytes::lemma_auto_spec_u32_to_from_le_bytes();
    let w = base_collection_wire(v);
    let wnm = seq_wire::<u8>(v.name);
    let wur = seq_wire::<u8>(v.uri);
    let wtail = vstd::bytes::spec_u32_to_le_bytes(v.num_minted)
        + vstd::bytes::spec_u32_to_le_bytes(v.current_size);
    let o1 = 1 + PUBKEY_LEN as int;
    assert((w + rest).skip(o1) =~= wnm + (wur + (wtail + rest)));
    crate::decode::lemma_byte_string_skip_agrees(v.name, wur + (wtail + rest));
    let o2 = o1 + wnm.len();
    assert((w + rest).skip(o2) =~= wur + (wtail + rest));
    crate::decode::lemma_byte_string_skip_agrees(v.uri, wtail + rest);
    assert(wtail.len() == 8);
}


/// What decoding a plugin header yields: its tag must be the
/// plugin-header kind, then the eight offset bytes follow.
pub open spec fn sdec_plugin_header(bytes: Seq<u8>) -> Result<(PluginHeaderV1View, int), CodecError> {
    match Key::sdec(bytes) {
        Err(e) => Err(e),
        Ok(k) => if k != Key::PluginHeaderV1 {
            Err(CodecError::StructuralMismatch)
        } else {
            match crate::decode::sdec_u64(bytes.skip(1)) {
                Err(e) => Err(e),
                Ok((o, _)) => Ok(
                    (PluginHeaderV1View { key: k, plugin_registry_offset: o }, 9int),
                ),
            }
        },
    }
}

impl PluginHeaderV1 {
    /// Read a plugin header off the head of `bytes`.
    pub fn deserialize(bytes: &[u8]) -> (r: Result<PluginHeaderV1, CodecError>)
        ensures
            match r {
                Ok(h) => sdec_plugin_header(bytes@) matches Ok(p) && p.0 == h.deep_view(),
                Err(e) => sdec_plugin_header(bytes@) == Err::<
                    (PluginHeaderV1View, int),
                    CodecError,
                >(e),
            },
    {
        let key = match Key::deserialize_from(bytes) {
            Ok(k) => k,
            Err(e) => {
                return Err(e);
            },
        };
        if !(matches!(key, Key::PluginHeaderV1)) {
            return Err(CodecError::StructuralMismatch);
        }
        let off = match u64::deserialize(vstd::slice::slice_subrange(bytes, 1, bytes.len())) {
            Ok(o) => o,
            Err(e) => {
                proof {
                    assert(bytes@.skip(1) =~= bytes@.subrange(1, bytes@.len() as int));
                }
                return Err(e);
            },
        };
        proof {
            assert(bytes@.skip(1) =~= bytes@.subrange(1, bytes@.len() as int));
        }
        Ok(PluginHeaderV1 { key, plugin_registry_offset: off })
    }
}

/// Reading an encoded plugin header yields the header back.
pub proof fn lemma_plugin_header_round_trip(v: PluginHeaderV1View, rest: Seq<u8>)
    requires
        v.key == Key::PluginHeaderV1,
    ensures
        sdec_plugin_header(plugin_header_wire(v) + rest) == Ok::<
            (PluginHeaderV1View, int),
            CodecError,
        >((v, plugin_header_wire(v).len() as int)),
{
    vstd::bytes::lemma_auto_spec_u64_to_from_le_bytes();
    let w = plugin_header_wire(v);
    assert((w + rest)[0] == 3);
    assert((w + rest).skip(1) =~= vstd::bytes::spec_u64_to_le_bytes(v.plugin_registry_offset)
        + rest);
    assert((vstd::bytes::spec_u64_to_le_bytes(v.plugin_registry_offset) + rest).take(8)
        =~= vstd::bytes::spec_u64_to_le_bytes(v.plugin_registry_offset));
}


/// Encoding an asset with no plugins yields exactly the base record:
/// no header and no registry bytes are appended.
pub proof fn lemma_empty_plugins_shortcut(v: AssetInfoView)
    requires
        v.plugins.len() == 0,
    ensures
        asset_wire(v) == base_asset_wire(v.base),
{
}


/// Capacity boundary. An asset with more plugins than the engine's fixed
/// maximum cannot be carried, so by the engine's contract it is never
/// encoded: success is impossible, and once the buffer holds the
/// encoding the only reportable error left is `CapacityExceeded` -- the
/// overflow is a recoverable error, never silent truncation. An asset at
/// exactly the maximum, whose base record, plugins and authorities can
/// all be carried and whose registry offset fits its eight-byte field,
/// can be carried, so with a large enough buffer the engine must encode
/// it.
pub proof fn lemma_capacity_boundary(v: AssetInfoView)
    ensures
        v.plugins.len() > MAX_PLUGINS ==> !asset_encodable(v),
        (base_asset_encodable(v.base) && v.plugins.len() == MAX_PLUGINS && (forall|i: int|
            0 <= i < v.plugins.len() ==> plugin_encodable(#[trigger] v.plugins[i].plugin)
                && plugin_authority_encodable(v.plugins[i].authority)) && asset_registry_offset(v)
            <= u64::MAX) ==> asset_encodable(v),
{
}

/// Registry offset correctness. In the encoding of an asset with at
/// least one plugin: the eight bytes after the reserved header's tag
/// hold the registry offset; the byte at that offset is the
/// plugin-registry tag; and the byte at each registry record's stored
/// offset is that plugin's own discriminant tag.
pub proof fn lemma_registry_offsets(v: AssetInfoView)
    requires
        asset_encodable(v),
        v.plugins.len() >= 1,
    ensures
        ({
            let w = asset_wire(v);
            let bl = base_asset_wire(v.base).len() as int;
            let ro = asset_registry_offset(v);
            let recs = asset_registry_records(v.plugins, bl);
            &&& w.len() > ro
            &&& w[bl] == Key::PluginHeaderV1.disc()
            &&& vstd::bytes::spec_u64_from_le_bytes(w.subrange(bl + 1, bl + 9)) == ro as u64
            &&& w[ro] == Key::PluginRegistryV1.disc()
            &&& forall|i: int|
                0 <= i < v.plugins.len() ==> w[(#[trigger] recs[i]).offset as int] == plugin_disc(
                    v.plugins[i].plugin,
                )
        }),
{
    vstd::bytes::lemma_auto_spec_u64_to_from_le_bytes();
    let w = asset_wire(v);
    let bw = base_asset_wire(v.base);
    let bl = bw.len() as int;
    let ro = asset_registry_offset(v);
    let hw = plugin_header_wire(
        PluginHeaderV1View {
            key: Key::PluginHeaderV1,
            plugin_registry_offset: ro as u64,
        },
    );
    let bodies = plugin_bodies_wire(v.plugins);
    let regw = plugin_registry_wire(asset_registry_view(v.plugins, bl));
    let recs = asset_registry_records(v.plugins, bl);
    assert(w == bw + hw + bodies + regw);
    assert(w[bl] == hw[0]);
    assert(w.subrange(bl + 1, bl + 9) =~= vstd::bytes::spec_u64_to_le_bytes(ro as u64));
    assert(w[ro] == regw[0]);
    assert(regw[0] == Key::PluginRegistryV1.disc());
    assert forall|i: int| 0 <= i < v.plugins.len() implies w[(#[trigger] recs[i]).offset as int]
        == plugin_disc(v.plugins[i].plugin) by {
        lemma_plugin_bodies_split(v.plugins, i);
        assert(v.plugins.skip(i)[0] == v.plugins[i]);
        assert(plugin_bodies_wire(v.plugins.skip(i)) == plugin_wire(v.plugins[i].plugin)
            + plugin_bodies_wire(v.plugins.skip(i).drop_first()));
        let pre = plugin_bodies_wire(v.plugins.take(i)).len() as int;
        assert(pre + plugin_wire(v.plugins[i].plugin).len() <= bodies.len());
        assert(bodies[pre] == plugin_wire(v.plugins[i].plugin)[0]);
        assert(recs[i].offset as int == bl + PLUGIN_HEADER_LEN + pre);
        assert(w[bl + PLUGIN_HEADER_LEN + pre] == bodies[pre]);
    };
}

impl Decode for BaseAssetV1 {
    open spec fn vdec(bytes: Seq<u8>) -> Result<(BaseAssetV1View, int), CodecError> {
        match <Key as Decode>::vdec(bytes) {
            Err(e) => Err(e),
            Ok((f1, n1)) => {
                if !(0 <= n1 && n1 <= bytes.len()) {
                    Err(CodecError::TruncatedInput)
                } else {
                        match <Pubkey as Decode>::vdec(bytes.skip(n1)) {
                            Err(e) => Err(e),
                            Ok((f2, n2)) => {
                                if !(0 <= n2 && n1 + n2 <= bytes.len()) {
                                    Err(CodecError::TruncatedInput)
                                } else {
                                        match <UpdateAuthority as Decode>::vdec(bytes.skip(n1 + n2)) {
                                            Err(e) => Err(e),
                                            Ok((f3, n3)) => {
                                                if !(0 <= n3 && n1 + n2 + n3 <= bytes.len()) {
                                                    Err(CodecError::TruncatedInput)
                                                } else {
                                                        match <Vec<u8> as Decode>::vdec(bytes.skip(n1 + n2 + n3)) {
                                                            Err(e) => Err(e),
                                                            Ok((f4, n4)) => {
                                                                if !(0 <= n4 && n1 + n2 + n3 + n4 <= bytes.len()) {
                                                                    Err(CodecError::TruncatedInput)
                                                                } else {
                                                                        match <Vec<u8> as Decode>::vdec(bytes.skip(n1 + n2 + n3 + n4)) {
                                                                            Err(e) => Err(e),
                                                                            Ok((f5, n5)) => {
                                                                                if !(0 <= n5 && n1 + n2 + n3 + n4 + n5 <= bytes.len()) {
                                                                                    Err(CodecError::TruncatedInput)
                                                                                } else {
                                                                                        match <Option<u64> as Decode>::vdec(bytes.skip(n1 + n2 + n3 + n4 + n5)) {
                                                                                            Err(e) => Err(e),
                                                                                            Ok((f6, n6)) => {
                                                                                                Ok((BaseAssetV1View { key: f1, owner: f2, update_authority: f3, name: f4, uri: f5, seq: f6 }, n1 + n2 + n3 + n4 + n5 + n6))
                                                                                            },
                                                                                        }
                                                                                }
                                                                            },
                                                                        }
                                                                }
                                                            },
                                                        }
                                                }
                                            },
                                        }
                                }
                            },
                        }
                }
            },
        }
    }

    #[verifier::rlimit(100)]
    #[verifier::spinoff_prover]
    proof fn lemma_round_trip(v: BaseAssetV1View, rest: Seq<u8>) {
        let w1 = <Key as Serialize>::vwire(v.key);
        let w2 = <Pubkey as Serialize>::vwire(v.owner);
        let w3 = <UpdateAuthority as Serialize>::vwire(v.update_authority);
        let w4 = <Vec<u8> as Serialize>::vwire(v.name);
        let w5 = <Vec<u8> as Serialize>::vwire(v.uri);
        let w6 = <Option<u64> as Serialize>::vwire(v.seq);
        let r6 = rest;
        let r5 = w6 + r6;
        let r4 = w5 + r5;
        let r3 = w4 + r4;
        let r2 = w3 + r3;
        let r1 = w2 + r2;
        assert(<BaseAssetV1 as Serialize>::vwire(v) == w1 + w2 + w3 + w4 + w5 + w6);
        let b = <BaseAssetV1 as Serialize>::vwire(v) + rest;
        assert(b =~= w1 + r1);
        <Key as Decode>::lemma_round_trip(v.key, r1);
        assert(b.skip((w1.len()) as int) =~= r1);
        <Pubkey as Decode>::lemma_round_trip(v.owner, r2);
        assert(b.skip((w1.len() + w2.len()) as int) =~= r2);
        <UpdateAuthority as Decode>::lemma_round_trip(v.update_authority, r3);
        assert(b.skip((w1.len() + w2.len() + w3.len()) as int) =~= r3);
        <Vec<u8> as Decode>::lemma_round_trip(v.name, r4);
        assert(b.skip((w1.len() + w2.len() + w3.len() + w4.len()) as int) =~= r4);
        <Vec<u8> as Decode>::lemma_round_trip(v.uri, r5);
        assert(b.skip((w1.len() + w2.len() + w3.len() + w4.len() + w5.len()) as int) =~= r5);
        <Option<u64> as Decode>::lemma_round_trip(v.seq, r6);
        assert(BaseAssetV1View { key: v.key, owner: v.owner, update_authority: v.update_authority, name: v.name, uri: v.uri, seq: v.seq } =~= v);
    }
}

impl Decode for BaseCollectionV1 {
    open spec fn vdec(bytes: Seq<u8>) -> Result<(BaseCollectionV1View, int), CodecError> {
        match <Key as Decode>::vdec(bytes) {
            Err(e) => Err(e),
            Ok((f1, n1)) => {
                if !(0 <= n1 && n1 <= bytes.len()) {
                    Err(CodecError::TruncatedInput)
                } else {
                        match <Pubkey as Decode>::vdec(bytes.skip(n1)) {
                            Err(e) => Err(e),
                            Ok((f2, n2)) => {
                                if !(0 <= n2 && n1 + n2 <= bytes.len()) {
                                    Err(CodecError::TruncatedInput)
                                } else {
                                        match <Vec<u8> as Decode>::vdec(bytes.skip(n1 + n2)) {
                                            Err(e) => Err(e),
                                            Ok((f3, n3)) => {
                                                if !(0 <= n3 && n1 + n2 + n3 <= bytes.len()) {
                                                    Err(CodecError::TruncatedInput)
                                                } else {
                                                        match <Vec<u8> as Decode>::vdec(bytes.skip(n1 + n2 + n3)) {
                                                            Err(e) => Err(e),
                                                            Ok((f4, n4)) => {
                                                                if !(0 <= n4 && n1 + n2 + n3 + n4 <= bytes.len()) {
                                                                    Err(CodecError::TruncatedInput)
                                                                } else {
                                                                        match <u32 as Decode>::vdec(bytes.skip(n1 + n2 + n3 + n4)) {
                                                                            Err(e) => Err(e),
                                                                            Ok((f5, n5)) => {
                                                                                if !(0 <= n5 && n1 + n2 + n3 + n4 + n5 <= bytes.len()) {
                                                                                    Err(CodecError::TruncatedInput)
                                                                                } else {
                                                                                        match <u32 as Decode>::vdec(bytes.skip(n1 + n2 + n3 + n4 + n5)) {
                                                                                            Err(e) => Err(e),
                                                                                            Ok((f6, n6)) => {
                                                                                                Ok((BaseCollectionV1View { key: f1, update_authority: f2, name: f3, uri: f4, num_minted: f5, current_size: f6 }, n1 + n2 + n3 + n4 + n5 + n6))
                                                                                            },
                                                                                        }
                                                                                }
                                                                            },
                                                                        }
                                                                }
                                                            },
                                                        }
                                                }
                                            },
                                        }
                                }
                            },
                        }
                }
            },
        }
    }

    #[verifier::rlimit(100)]
    #[verifier::spinoff_prover]
    proof fn lemma_round_trip(v: BaseCollectionV1View, rest: Seq<u8>) {
        let w1 = <Key as Serialize>::vwire(v.key);
        let w2 = <Pubkey as Serialize>::vwire(v.update_authority);
        let w3 = <Vec<u8> as Serialize>::vwire(v.name);
        let w4 = <Vec<u8> as Serialize>::vwire(v.uri);
        let w5 = <u32 as Serialize>::vwire(v.num_minted);
        let w6 = <u32 as Serialize>::vwire(v.current_size);
        let r6 = rest;
        let r5 = w6 + r6;
        let r4 = w5 + r5;
        let r3 = w4 + r4;
        let r2 = w3 + r3;
        let r1 = w2 + r2;
        assert(<BaseCollectionV1 as Serialize>::vwire(v) == w1 + w2 + w3 + w4 + w5 + w6);
        let b = <BaseCollectionV1 as Serialize>::vwire(v) + rest;
        assert(b =~= w1 + r1);
        <Key as Decode>::lemma_round_trip(v.key, r1);
        assert(b.skip((w1.len()) as int) =~= r1);
        <Pubkey as Decode>::lemma_round_trip(v.update_authority, r2);
        assert(b.skip((w1.len() + w2.len()) as int) =~= r2);
        <Vec<u8> as Decode>::lemma_round_trip(v.name, r3);
        assert(b.skip((w1.len() + w2.len() + w3.len()) as int) =~= r3);
        <Vec<u8> as Decode>::lemma_round_trip(v.uri, r4);
        assert(b.skip((w1.len() + w2.len() + w3.len() + w4.len()) as int) =~= r4);
        <u32 as Decode>::lemma_round_trip(v.num_minted, r5);
        assert(b.skip((w1.len() + w2.len() + w3.len() + w4.len() + w5.len()) as int) =~= r5);
        <u32 as Decode>::lemma_round_trip(v.current_size, r6);
        assert(BaseCollectionV1View { key: v.key, update_authority: v.update_authority, name: v.name, uri: v.uri, num_minted: v.num_minted, current_size: v.current_size } =~= v);
    }
}

impl Decode for RegistryRecordSafe {
    open spec fn vdec(bytes: Seq<u8>) -> Result<(RegistryRecordView, int), CodecError> {
        match <u8 as Decode>::vdec(bytes) {
            Err(e) => Err(e),
            Ok((f1, n1)) => {
                if !(0 <= n1 && n1 <= bytes.len()) {
                    Err(CodecError::TruncatedInput)
                } else {
                        match <PluginAuthority as Decode>::vdec(bytes.skip(n1)) {
                            Err(e) => Err(e),
                            Ok((f2, n2)) => {
                                if !(0 <= n2 && n1 + n2 <= bytes.len()) {
                                    Err(CodecError::TruncatedInput)
                                } else {
                                        match <u64 as Decode>::vdec(bytes.skip(n1 + n2)) {
                                            Err(e) => Err(e),
                                            Ok((f3, n3)) => {
                                                Ok((RegistryRecordView { plugin_type: f1, authority: f2, offset: f3 }, n1 + n2 + n3))
                                            },
                                        }
                                }
                            },
                        }
                }
            },
        }
    }

    #[verifier::rlimit(100)]
    #[verifier::spinoff_prover]
    proof fn lemma_round_trip(v: RegistryRecordView, rest: Seq<u8>) {
        let w1 = <u8 as Serialize>::vwire(v.plugin_type);
        let w2 = <PluginAuthority as Serialize>::vwire(v.authority);
        let w3 = <u64 as Serialize>::vwire(v.offset);
        let r3 = rest;
        let r2 = w3 + r3;
        let r1 = w2 + r2;
        assert(<RegistryRecordSafe as Serialize>::vwire(v) == w1 + w2 + w3);
        let b = <RegistryRecordSafe as Serialize>::vwire(v) + rest;
        assert(b =~= w1 + r1);
        <u8 as Decode>::lemma_round_trip(v.plugin_type, r1);
        assert(b.skip((w1.len()) as int) =~= r1);
        <PluginAuthority as Decode>::lemma_round_trip(v.authority, r2);
        assert(b.skip((w1.len() + w2.len()) as int) =~= r2);
        <u64 as Decode>::lemma_round_trip(v.offset, r3);
        assert(RegistryRecordView { plugin_type: v.plugin_type, authority: v.authority, offset: v.offset } =~= v);
    }
}

impl Decode for ExternalCheckResult {
    open spec fn vdec(bytes: Seq<u8>) -> Result<(ExternalCheckResult, int), CodecError> {
        match crate::decode::sdec_u32(bytes) {
            Err(e) => Err(e),
            Ok((x, n)) => Ok((ExternalCheckResult { flags: x }, n)),
        }
    }

    proof fn lemma_round_trip(v: ExternalCheckResult, rest: Seq<u8>) {
        <u32 as Decode>::lemma_round_trip(v.flags, rest);
    }
}

impl Decode for (u8, ExternalCheckResult) {
    open spec fn vdec(bytes: Seq<u8>) -> Result<((u8, ExternalCheckResult), int), CodecError> {
        match crate::decode::sdec_u8(bytes) {
            Err(e) => Err(e),
            Ok((t, n1)) => if !(0 <= n1 && n1 <= bytes.len()) {
                Err(CodecError::TruncatedInput)
            } else {
                match crate::decode::sdec_u32(bytes.skip(n1)) {
                    Err(e) => Err(e),
                    Ok((x, n2)) => Ok(((t, ExternalCheckResult { flags: x }), n1 + n2)),
                }
            },
        }
    }

    proof fn lemma_round_trip(v: (u8, ExternalCheckResult), rest: Seq<u8>) {
        let w1 = <u8 as Serialize>::vwire(v.0);
        let w2 = <u32 as Serialize>::vwire(v.1.flags);
        let r2 = rest;
        let r1 = w2 + r2;
        assert(<(u8, ExternalCheckResult) as Serialize>::vwire(v) == w1 + w2);
        let b = <(u8, ExternalCheckResult) as Serialize>::vwire(v) + rest;
        assert(b =~= w1 + r1);
        <u8 as Decode>::lemma_round_trip(v.0, r1);
        assert(b.skip((w1.len()) as int) =~= r1);
        <u32 as Decode>::lemma_round_trip(v.1.flags, r2);
    }
}

impl Decode for ExternalRegistryRecordSafe {
    open spec fn vdec(bytes: Seq<u8>) -> Result<(ExternalRegistryRecordView, int), CodecError> {
        match <u8 as Decode>::vdec(bytes) {
            Err(e) => Err(e),
            Ok((f1, n1)) => {
                if !(0 <= n1 && n1 <= bytes.len()) {
                    Err(CodecError::TruncatedInput)
                } else {
                        match <PluginAuthority as Decode>::vdec(bytes.skip(n1)) {
                            Err(e) => Err(e),
                            Ok((f2, n2)) => {
                                if !(0 <= n2 && n1 + n2 <= bytes.len()) {
                                    Err(CodecError::TruncatedInput)
                                } else {
                                        match <Option<Vec<(u8, ExternalCheckResult)>> as Decode>::vdec(bytes.skip(n1 + n2)) {
                                            Err(e) => Err(e),
                                            Ok((f3, n3)) => {
                                                if !(0 <= n3 && n1 + n2 + n3 <= bytes.len()) {
                                                    Err(CodecError::TruncatedInput)
                                                } else {
                                                        match <u64 as Decode>::vdec(bytes.skip(n1 + n2 + n3)) {
                                                            Err(e) => Err(e),
                                                            Ok((f4, n4)) => {
                                                                if !(0 <= n4 && n1 + n2 + n3 + n4 <= bytes.len()) {
                                                                    Err(CodecError::TruncatedInput)
                                                                } else {
                                                                        match <Option<u64> as Decode>::vdec(bytes.skip(n1 + n2 + n3 + n4)) {
                                                                            Err(e) => Err(e),
                                                                            Ok((f5, n5)) => {
                                                                                if !(0 <= n5 && n1 + n2 + n3 + n4 + n5 <= bytes.len()) {
                                                                                    Err(CodecError::TruncatedInput)
                                                                                } else {
                                                                                        match <Option<u64> as Decode>::vdec(bytes.skip(n1 + n2 + n3 + n4 + n5)) {
                                                                                            Err(e) => Err(e),
                                                                                            Ok((f6, n6)) => {
                                                                                                Ok((ExternalRegistryRecordView { plugin_type: f1, authority: f2, lifecycle_checks: f3, offset: f4, data_offset: f5, data_len: f6 }, n1 + n2 + n3 + n4 + n5 + n6))
                                                                                            },
                                                                                        }
                                                                                }
                                                                            },
                                                                        }
                                                                }
                                                            },
                                                        }
                                                }
                                            },
                                        }
                                }
                            },
                        }
                }
            },
        }
    }

    #[verifier::rlimit(100)]
    #[verifier::spinoff_prover]
    proof fn lemma_round_trip(v: ExternalRegistryRecordView, rest: Seq<u8>) {
        let w1 = <u8 as Serialize>::vwire(v.plugin_type);
        let w2 = <PluginAuthority as Serialize>::vwire(v.authority);
        let w3 = <Option<Vec<(u8, ExternalCheckResult)>> as Serialize>::vwire(v.lifecycle_checks);
        let w4 = <u64 as Serialize>::vwire(v.offset);
        let w5 = <Option<u64> as Serialize>::vwire(v.data_offset);
        let w6 = <Option<u64> as Serialize>::vwire(v.data_len);
        let r6 = rest;
        let r5 = w6 + r6;
        let r4 = w5 + r5;
        let r3 = w4 + r4;
        let r2 = w3 + r3;
        let r1 = w2 + r2;
        assert(<ExternalRegistryRecordSafe as Serialize>::vwire(v) == w1 + w2 + w3 + w4 + w5 + w6);
        let b = <ExternalRegistryRecordSafe as Serialize>::vwire(v) + rest;
        assert(b =~= w1 + r1);
        <u8 as Decode>::lemma_round_trip(v.plugin_type, r1);
        assert(b.skip((w1.len()) as int) =~= r1);
        <PluginAuthority as Decode>::lemma_round_trip(v.authority, r2);
        assert(b.skip((w1.len() + w2.len()) as int) =~= r2);
        <Option<Vec<(u8, ExternalCheckResult)>> as Decode>::lemma_round_trip(v.lifecycle_checks, r3);
        assert(b.skip((w1.len() + w2.len() + w3.len()) as int) =~= r3);
        <u64 as Decode>::lemma_round_trip(v.offset, r4);
        assert(b.skip((w1.len() + w2.len() + w3.len() + w4.len()) as int) =~= r4);
        <Option<u64> as Decode>::lemma_round_trip(v.data_offset, r5);
        assert(b.skip((w1.len() + w2.len() + w3.len() + w4.len() + w5.len()) as int) =~= r5);
        <Option<u64> as Decode>::lemma_round_trip(v.data_len, r6);
        assert(ExternalRegistryRecordView { plugin_type: v.plugin_type, authority: v.authority, lifecycle_checks: v.lifecycle_checks, offset: v.offset, data_offset: v.data_offset, data_len: v.data_len } =~= v);
    }
}


/// What decoding a plugin registry yields: its tag must be the
/// registry kind, then the two count-prefixed record runs follow.
pub open spec fn sdec_plugin_registry(bytes: Seq<u8>) -> Result<
    (PluginRegistryV1View, int),
    CodecError,
> {
    match Key::sdec(bytes) {
        Err(e) => Err(e),
        Ok(k) => if k != Key::PluginRegistryV1 {
            Err(CodecError::StructuralMismatch)
        } else {
            match crate::decode::sdec_seq::<RegistryRecordSafe>(bytes.skip(1)) {
                Err(e) => Err(e),
                Ok((recs, n1)) => if !(0 <= n1 && 1 + n1 <= bytes.len()) {
                    Err(CodecError::TruncatedInput)
                } else {
                    match crate::decode::sdec_seq::<ExternalRegistryRecordSafe>(
                        bytes.skip(1 + n1),
                    ) {
                        Err(e) => Err(e),
                        Ok((ext, n2)) => Ok(
                            (
                                PluginRegistryV1View {
                                    key: k,
                                    registry: recs,
                                    external_registry: ext,
                                },
                                1 + n1 + n2,
                            ),
                        ),
                    }
                },
            }
        },
    }
}

/// Reading an encoded plugin registry yields the registry back.
#[verifier::rlimit(100)]
#[verifier::spinoff_prover]
pub proof fn lemma_plugin_registry_round_trip(v: PluginRegistryV1View, rest: Seq<u8>)
    requires
        v.key == Key::PluginRegistryV1,
        plugin_registry_encodable(v),
    ensures
        sdec_plugin_registry(plugin_registry_wire(v) + rest) == Ok::<
            (PluginRegistryV1View, int),
            CodecError,
        >((v, plugin_registry_wire(v).len() as int)),
{
    let w1 = seq_wire::<RegistryRecordSafe>(v.registry);
    let w2 = seq_wire::<ExternalRegistryRecordSafe>(v.external_registry);
    let b = plugin_registry_wire(v) + rest;
    assert(b[0] == Key::PluginRegistryV1.disc());
    assert(b.skip(1) =~= w1 + (w2 + rest));
    crate::decode::lemma_seq_round_trip::<RegistryRecordSafe>(v.registry, w2 + rest);
    assert(b.skip((1 + w1.len()) as int) =~= w2 + rest);
    crate::decode::lemma_seq_round_trip::<ExternalRegistryRecordSafe>(v.external_registry, rest);
    assert(PluginRegistryV1View {
        key: v.key,
        registry: v.registry,
        external_registry: v.external_registry,
    } =~= v);
}

} // verus!
