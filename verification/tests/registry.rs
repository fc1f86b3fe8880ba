use mpl_core_codec::asset::{
    AssetInfo, BaseAssetV1, BaseCollectionV1, PluginAuthorityPairWithoutOption, PluginHeaderV1,
    MAX_PLUGINS,
};
use mpl_core_codec::decode::{Deserialize, Skip};
use mpl_core_codec::error::CodecError;
use mpl_core_codec::key::Key;
use mpl_core_codec::plugins::{
    Creator, FreezeDelegate, Plugin, PluginAuthority, Royalties, RuleSet, UpdateAuthority,
};
use mpl_core_codec::serialize::Serialize;

fn base_asset() -> BaseAssetV1 {
    BaseAssetV1 {
        key: Key::AssetV1,
        owner: [9u8; 32],
        update_authority: UpdateAuthority::Address([8u8; 32]),
        name: b"name".to_vec(),
        uri: b"uri://x".to_vec(),
        seq: None,
    }
}

fn base_asset_len() -> usize {
    // tag + owner + ua(1+32) + name(4+4) + uri(4+7) + seq(1)
    1 + 32 + 33 + 8 + 11 + 1
}

fn freeze_pair(frozen: bool) -> PluginAuthorityPairWithoutOption {
    PluginAuthorityPairWithoutOption {
        plugin: Plugin::FreezeDelegate(FreezeDelegate { frozen }),
        authority: PluginAuthority::Owner,
    }
}

#[test]
fn base_asset_skip_agrees_with_encode() {
    let a = base_asset();
    let mut b = vec![0u8; 256];
    let n = a.serialize_to(&mut b, 0).unwrap();
    assert_eq!(n, base_asset_len());
    assert_eq!(BaseAssetV1::skip_bytes(&b).unwrap(), n);
}

#[test]
fn base_collection_skip_agrees_with_encode() {
    let c = BaseCollectionV1 {
        key: Key::CollectionV1,
        update_authority: [2u8; 32],
        name: b"col".to_vec(),
        uri: b"u".to_vec(),
        num_minted: 5,
        current_size: 6,
    };
    let mut b = vec![0u8; 256];
    let n = c.serialize_to(&mut b, 0).unwrap();
    assert_eq!(n, 1 + 32 + 7 + 5 + 4 + 4);
    assert_eq!(BaseCollectionV1::skip_bytes(&b).unwrap(), n);
}

#[test]
fn empty_plugins_writes_base_record_only() {
    let info = AssetInfo {
        base: base_asset(),
        plugins: vec![],
    };
    let mut b = vec![0xEEu8; 256];
    let n = info.serialize_to(&mut b, 0).unwrap();
    assert_eq!(n, base_asset_len());
    // nothing after the base record was touched
    assert!(b[n..].iter().all(|&x| x == 0xEE));
}

#[test]
fn registry_offsets_are_correct() {
    let info = AssetInfo {
        base: base_asset(),
        plugins: vec![freeze_pair(true), freeze_pair(false)],
    };
    let mut b = vec![0u8; 512];
    let n = info.serialize_to(&mut b, 0).unwrap();
    let bl = base_asset_len();
    // reserved header right after the base record
    let header = PluginHeaderV1::deserialize(&b[bl..]).unwrap();
    assert!(matches!(header.key, Key::PluginHeaderV1));
    let ro = header.plugin_registry_offset as usize;
    // jumping to the stored offset lands on the registry tag
    assert_eq!(Key::deserialize_from(&b[ro..]).unwrap(), Key::PluginRegistryV1);
    // each plugin body: 2 bytes (tag + frozen flag), laid out after the header
    assert_eq!(ro, bl + 9 + 4);
    // registry: tag + count + 2 records (1 type + 1 authority + 8 offset) + empty external count
    assert_eq!(n, ro + 1 + 4 + 2 * 10 + 4);
    // walk the two registry records and follow their offsets
    let mut off = ro + 5;
    for i in 0..2u64 {
        let ptype = b[off];
        assert_eq!(ptype, 1); // freeze-delegate type number
        let askip = PluginAuthority::skip_bytes(&b[off + 1..]).unwrap();
        assert_eq!(askip, 1);
        let poff = u64::deserialize(&b[off + 2..]).unwrap();
        assert_eq!(poff, (bl + 9 + 2 * i as usize) as u64);
        // the stored offset lands on the plugin's own tag
        assert_eq!(b[poff as usize], 1);
        off += 10;
    }
}

#[test]
fn capacity_boundary() {
    let plugins: Vec<PluginAuthorityPairWithoutOption> =
        (0..MAX_PLUGINS).map(|i| freeze_pair(i % 2 == 0)).collect();
    let info = AssetInfo {
        base: base_asset(),
        plugins,
    };
    let mut b = vec![0u8; 2048];
    assert!(info.serialize_to(&mut b, 0).is_ok());

    let plugins: Vec<PluginAuthorityPairWithoutOption> =
        (0..MAX_PLUGINS + 1).map(|i| freeze_pair(i % 2 == 0)).collect();
    let info = AssetInfo {
        base: base_asset(),
        plugins,
    };
    let mut b = vec![0u8; 2048];
    assert_eq!(
        info.serialize_to(&mut b, 0),
        Err(CodecError::CapacityExceeded)
    );
}

#[test]
fn asset_buffer_too_small() {
    let info = AssetInfo {
        base: base_asset(),
        plugins: vec![freeze_pair(true)],
    };
    let mut b = vec![0u8; base_asset_len() + 5];
    assert_eq!(info.serialize_to(&mut b, 0), Err(CodecError::BufferTooSmall));
}

#[test]
fn plugin_header_round_trip() {
    let h = PluginHeaderV1 {
        key: Key::PluginHeaderV1,
        plugin_registry_offset: 1234,
    };
    let mut b = vec![0u8; 16];
    let n = h.serialize_to(&mut b, 0).unwrap();
    assert_eq!(n, 9);
    let back = PluginHeaderV1::deserialize(&b).unwrap();
    assert_eq!(back.plugin_registry_offset, 1234);
}

#[test]
fn plugin_header_wrong_tag() {
    let b = [4u8, 0, 0, 0, 0, 0, 0, 0, 0];
    assert!(matches!(
        PluginHeaderV1::deserialize(&b),
        Err(CodecError::StructuralMismatch)
    ));
}

#[test]
fn royalties_plugin_in_registry() {
    let royalties = Royalties {
        basis_points: 250,
        creators: vec![Creator {
            address: [1u8; 32],
            percentage: 100,
        }],
        rule_set: RuleSet::NoRule,
    };
    let info = AssetInfo {
        base: base_asset(),
        plugins: vec![PluginAuthorityPairWithoutOption {
            plugin: Plugin::Royalties(royalties),
            authority: PluginAuthority::UpdateAuthority,
        }],
    };
    let mut b = vec![0u8; 512];
    let n = info.serialize_to(&mut b, 0).unwrap();
    let bl = base_asset_len();
    // plugin body: tag + 2 bp + 4 count + 33 creator + 1 rule
    let body = 1 + 2 + 4 + 33 + 1;
    assert_eq!(n, bl + 9 + body + 1 + 4 + 10 + 4);
    assert_eq!(b[bl + 9], 0); // royalties tag at its recorded offset
}
