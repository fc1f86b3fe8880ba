use mpl_core_codec::asset::{AssetInfo, BaseAssetV1, BaseCollectionV1, PluginAuthorityPairWithoutOption};
use mpl_core_codec::error::CodecError;
use mpl_core_codec::key::Key;
use mpl_core_codec::plugins::{
    Creator, FreezeDelegate, Plugin, PluginAuthority, Royalties, RuleSet, UpdateAuthority,
};
use mpl_core_codec::royalty::{read_royalties, read_royalties_asset, read_royalties_collection};
use mpl_core_codec::serialize::Serialize;

fn base_asset() -> BaseAssetV1 {
    BaseAssetV1 {
        key: Key::AssetV1,
        owner: [9u8; 32],
        update_authority: UpdateAuthority::NoAuthority,
        name: b"a".to_vec(),
        uri: b"u".to_vec(),
        seq: Some(3),
    }
}

fn royalties_pair() -> PluginAuthorityPairWithoutOption {
    PluginAuthorityPairWithoutOption {
        plugin: Plugin::Royalties(Royalties {
            basis_points: 500,
            creators: vec![
                Creator {
                    address: [0xAA; 32],
                    percentage: 70,
                },
                Creator {
                    address: [0xBB; 32],
                    percentage: 30,
                },
            ],
            rule_set: RuleSet::NoRule,
        }),
        authority: PluginAuthority::UpdateAuthority,
    }
}

fn freeze_pair() -> PluginAuthorityPairWithoutOption {
    PluginAuthorityPairWithoutOption {
        plugin: Plugin::FreezeDelegate(FreezeDelegate { frozen: true }),
        authority: PluginAuthority::Owner,
    }
}

#[test]
fn extracts_royalties_from_asset() {
    let info = AssetInfo {
        base: base_asset(),
        plugins: vec![freeze_pair(), royalties_pair()],
    };
    let mut b = vec![0u8; 1024];
    let n = info.serialize_to(&mut b, 0).unwrap();
    let (bp, creators) = read_royalties_asset(&b[..n]).unwrap();
    assert_eq!(bp, 500);
    assert_eq!(creators.len(), 2);
    let c0 = creators.get(0);
    let c1 = creators.get(1);
    assert_eq!(c0.address, [0xAA; 32]);
    assert_eq!(c0.percentage, 70);
    assert_eq!(c1.address, [0xBB; 32]);
    assert_eq!(c1.percentage, 30);
}

#[test]
fn no_royalties_is_not_an_error() {
    let info = AssetInfo {
        base: base_asset(),
        plugins: vec![freeze_pair()],
    };
    let mut b = vec![0u8; 1024];
    let n = info.serialize_to(&mut b, 0).unwrap();
    let (bp, creators) = read_royalties_asset(&b[..n]).unwrap();
    assert_eq!(bp, 0);
    assert_eq!(creators.len(), 0);
}

#[test]
fn wrong_record_kind_is_rejected() {
    let info = AssetInfo {
        base: base_asset(),
        plugins: vec![royalties_pair()],
    };
    let mut b = vec![0u8; 1024];
    let n = info.serialize_to(&mut b, 0).unwrap();
    // a collection reader must refuse an asset buffer
    assert!(matches!(
        read_royalties_collection(&b[..n]),
        Err(CodecError::StructuralMismatch)
    ));
}

#[test]
fn unrecognized_record_kind() {
    let b = [255u8, 0, 0];
    assert!(matches!(
        read_royalties_asset(&b),
        Err(CodecError::UnrecognizedTag)
    ));
}

#[test]
fn truncated_buffer_is_rejected() {
    let info = AssetInfo {
        base: base_asset(),
        plugins: vec![royalties_pair()],
    };
    let mut b = vec![0u8; 1024];
    let n = info.serialize_to(&mut b, 0).unwrap();
    // cut the buffer in the middle of the registry
    let cut = &b[..n - 6];
    assert!(matches!(
        read_royalties_asset(cut),
        Err(CodecError::TruncatedInput)
    ));
}

#[test]
fn collection_royalties() {
    // a collection record followed by the same header/registry layout,
    // assembled by hand at known offsets
    let base = BaseCollectionV1 {
        key: Key::CollectionV1,
        update_authority: [1u8; 32],
        name: b"c".to_vec(),
        uri: b"u".to_vec(),
        num_minted: 0,
        current_size: 0,
    };
    let mut b = vec![0u8; 1024];
    let bl = base.serialize_to(&mut b, 0).unwrap();
    // plugin body for royalties with one creator
    let body_off = bl + 9;
    let royalties = Royalties {
        basis_points: 125,
        creators: vec![Creator {
            address: [0xCC; 32],
            percentage: 100,
        }],
        rule_set: RuleSet::NoRule,
    };
    let plugin = Plugin::Royalties(royalties);
    let body_len = plugin.serialize_to(&mut b, body_off).unwrap();
    let reg_off = body_off + body_len;
    // registry: tag, one record, empty external run
    let mut cur = reg_off;
    cur += Key::PluginRegistryV1.serialize_to(&mut b, cur).unwrap();
    cur += 1u32.serialize_to(&mut b, cur).unwrap();
    cur += 0u8.serialize_to(&mut b, cur).unwrap();
    cur += PluginAuthority::NoAuthority.serialize_to(&mut b, cur).unwrap();
    cur += (body_off as u64).serialize_to(&mut b, cur).unwrap();
    cur += 0u32.serialize_to(&mut b, cur).unwrap();
    // backfill the header
    let header = mpl_core_codec::asset::PluginHeaderV1 {
        key: Key::PluginHeaderV1,
        plugin_registry_offset: reg_off as u64,
    };
    header.serialize_to(&mut b, bl).unwrap();
    let (bp, creators) = read_royalties_collection(&b[..cur]).unwrap();
    assert_eq!(bp, 125);
    assert_eq!(creators.len(), 1);
    assert_eq!(creators.get(0).address, [0xCC; 32]);
}

#[test]
fn read_at_explicit_header_offset() {
    let info = AssetInfo {
        base: base_asset(),
        plugins: vec![royalties_pair()],
    };
    let mut b = vec![0u8; 1024];
    let n = info.serialize_to(&mut b, 0).unwrap();
    // the header stands right after the base record: tag + owner +
    // ua tag + name(4+1) + uri(4+1) + seq(1+8)
    let bl = 1 + 32 + 1 + 5 + 5 + 9;
    let (bp, creators) = read_royalties(&b[..n], bl).unwrap();
    assert_eq!(bp, 500);
    assert_eq!(creators.len(), 2);
}
