use mpl_core_codec::decode::{skip_byte_string, Deserialize, Skip};
use mpl_core_codec::error::CodecError;
use mpl_core_codec::key::Key;
use mpl_core_codec::plugins::{
    Attribute, Attributes, Creator, Edition, FreezeDelegate, MasterEdition, Plugin,
    PluginAuthority, Royalties, RuleSet, UpdateAuthority, UpdateDelegate,
};
use mpl_core_codec::serialize::Serialize;
use mpl_core_codec::Instructions;

fn buf(n: usize) -> Vec<u8> {
    vec![0u8; n]
}

#[test]
fn u16_little_endian() {
    let mut b = buf(8);
    let n = 0x1234u16.serialize_to(&mut b, 0).unwrap();
    assert_eq!(n, 2);
    assert_eq!(&b[..2], &[0x34, 0x12]);
}

#[test]
fn u32_little_endian() {
    let mut b = buf(8);
    let n = 0xAABBCCDDu32.serialize_to(&mut b, 1).unwrap();
    assert_eq!(n, 4);
    assert_eq!(&b[1..5], &[0xDD, 0xCC, 0xBB, 0xAA]);
    assert_eq!(b[0], 0);
}

#[test]
fn u64_little_endian() {
    let mut b = buf(8);
    let n = 0x0102030405060708u64.serialize_to(&mut b, 0).unwrap();
    assert_eq!(n, 8);
    assert_eq!(&b[..8], &[8, 7, 6, 5, 4, 3, 2, 1]);
}

#[test]
fn u64_round_trip() {
    let mut b = buf(8);
    0x1122334455667788u64.serialize_to(&mut b, 0).unwrap();
    assert_eq!(u64::deserialize(&b).unwrap(), 0x1122334455667788u64);
}

#[test]
fn u16_round_trip() {
    let mut b = buf(2);
    500u16.serialize_to(&mut b, 0).unwrap();
    assert_eq!(u16::deserialize(&b).unwrap(), 500);
}

#[test]
fn u32_truncated() {
    let b = [1u8, 2, 3];
    assert_eq!(u32::deserialize(&b), Err(CodecError::TruncatedInput));
}

#[test]
fn bool_encoding() {
    let mut b = buf(2);
    assert_eq!(true.serialize_to(&mut b, 0).unwrap(), 1);
    assert_eq!(false.serialize_to(&mut b, 1).unwrap(), 1);
    assert_eq!(&b[..2], &[1, 0]);
}

#[test]
fn byte_string_length_prefixed() {
    let v: Vec<u8> = vec![9, 8, 7];
    let mut b = buf(16);
    let n = v.serialize_to(&mut b, 0).unwrap();
    assert_eq!(n, 7);
    assert_eq!(&b[..7], &[3, 0, 0, 0, 9, 8, 7]);
}

#[test]
fn empty_byte_string() {
    let v: Vec<u8> = vec![];
    let mut b = buf(16);
    let n = v.serialize_to(&mut b, 0).unwrap();
    assert_eq!(n, 4);
    assert_eq!(&b[..4], &[0, 0, 0, 0]);
}

#[test]
fn option_encoding() {
    let mut b = buf(16);
    let none: Option<u64> = None;
    let some: Option<u64> = Some(2);
    assert_eq!(none.serialize_to(&mut b, 0).unwrap(), 1);
    assert_eq!(some.serialize_to(&mut b, 1).unwrap(), 9);
    assert_eq!(&b[..3], &[0, 1, 2]);
}

#[test]
fn buffer_too_small() {
    let mut b = buf(3);
    assert_eq!(
        0xAABBCCDDu32.serialize_to(&mut b, 0),
        Err(CodecError::BufferTooSmall)
    );
}

#[test]
fn key_tags() {
    let mut b = buf(1);
    assert_eq!(Key::PluginHeaderV1.serialize_to(&mut b, 0).unwrap(), 1);
    assert_eq!(b[0], 3);
    assert_eq!(Key::deserialize_from(&b).unwrap(), Key::PluginHeaderV1);
}

#[test]
fn key_unrecognized_tag() {
    let b = [255u8];
    assert_eq!(Key::deserialize_from(&b), Err(CodecError::UnrecognizedTag));
}

#[test]
fn key_truncated() {
    let b: [u8; 0] = [];
    assert_eq!(Key::deserialize_from(&b), Err(CodecError::TruncatedInput));
}

#[test]
fn byte_string_skip_truncated() {
    // declares 10 bytes but only 2 follow
    let b = [10u8, 0, 0, 0, 1, 2];
    assert_eq!(skip_byte_string(&b), Err(CodecError::TruncatedInput));
}

#[test]
fn byte_string_skip_agrees_with_encode() {
    let v: Vec<u8> = vec![1, 2, 3, 4, 5];
    let mut b = buf(32);
    let n = v.serialize_to(&mut b, 0).unwrap();
    assert_eq!(skip_byte_string(&b).unwrap(), n);
}

#[test]
fn plugin_authority_skip_agrees_with_encode() {
    let mut b = buf(64);
    let a = PluginAuthority::Address([5u8; 32]);
    let n = a.serialize_to(&mut b, 0).unwrap();
    assert_eq!(n, 33);
    assert_eq!(PluginAuthority::skip_bytes(&b).unwrap(), n);

    let mut b2 = buf(4);
    let n2 = PluginAuthority::Owner.serialize_to(&mut b2, 0).unwrap();
    assert_eq!(n2, 1);
    assert_eq!(PluginAuthority::skip_bytes(&b2).unwrap(), 1);
    assert_eq!(b2[0], 1);
}

#[test]
fn plugin_authority_skip_unrecognized() {
    let b = [9u8];
    assert_eq!(
        PluginAuthority::skip_bytes(&b),
        Err(CodecError::UnrecognizedTag)
    );
}

#[test]
fn update_authority_encoding_and_skip() {
    let mut b = buf(64);
    let ua = UpdateAuthority::Address([3u8; 32]);
    let n = ua.serialize_to(&mut b, 0).unwrap();
    assert_eq!(n, 33);
    assert_eq!(b[0], 1);
    assert_eq!(&b[1..33], &[3u8; 32]);
    assert_eq!(UpdateAuthority::skip_bytes(&b).unwrap(), 33);

    let mut b2 = buf(64);
    let n2 = UpdateAuthority::Collection([4u8; 32])
        .serialize_to(&mut b2, 0)
        .unwrap();
    assert_eq!(n2, 33);
    assert_eq!(b2[0], 2);
    assert_eq!(UpdateAuthority::skip_bytes(&b2).unwrap(), 33);

    let mut b3 = buf(4);
    assert_eq!(
        UpdateAuthority::NoAuthority.serialize_to(&mut b3, 0).unwrap(),
        1
    );
    assert_eq!(b3[0], 0);
}

#[test]
fn creator_packed_layout() {
    let c = Creator {
        address: [7u8; 32],
        percentage: 42,
    };
    let mut b = buf(64);
    let n = c.serialize_to(&mut b, 0).unwrap();
    assert_eq!(n, 33);
    assert_eq!(&b[..32], &[7u8; 32]);
    assert_eq!(b[32], 42);
}

#[test]
fn rule_set_encoding() {
    let mut b = buf(64);
    assert_eq!(RuleSet::NoRule.serialize_to(&mut b, 0).unwrap(), 1);
    assert_eq!(b[0], 0);
    let rs = RuleSet::ProgramAllowList(vec![[1u8; 32]]);
    let n = rs.serialize_to(&mut b, 1).unwrap();
    assert_eq!(n, 1 + 4 + 32);
    assert_eq!(b[1], 1);
    assert_eq!(&b[2..6], &[1, 0, 0, 0]);
}

#[test]
fn royalties_encoding() {
    let r = Royalties {
        basis_points: 500,
        creators: vec![Creator {
            address: [1u8; 32],
            percentage: 100,
        }],
        rule_set: RuleSet::NoRule,
    };
    let mut b = buf(128);
    let n = r.serialize_to(&mut b, 0).unwrap();
    // 2 bp + 4 count + 33 creator + 1 rule tag
    assert_eq!(n, 40);
    assert_eq!(&b[..2], &[0xF4, 0x01]);
    assert_eq!(&b[2..6], &[1, 0, 0, 0]);
    assert_eq!(b[39], 0);
}

#[test]
fn plugin_tags_match_type_numbers() {
    let plugins = vec![
        Plugin::Royalties(Royalties {
            basis_points: 1,
            creators: vec![],
            rule_set: RuleSet::NoRule,
        }),
        Plugin::FreezeDelegate(FreezeDelegate { frozen: false }),
        Plugin::BurnDelegate,
        Plugin::TransferDelegate,
        Plugin::UpdateDelegate(UpdateDelegate {
            additional_delegates: vec![],
        }),
        Plugin::Attributes(Attributes {
            attribute_list: vec![],
        }),
        Plugin::PermanentTransferDelegate,
        Plugin::PermanentBurnDelegate,
        Plugin::Edition(Edition { number: 1 }),
        Plugin::MasterEdition(MasterEdition {
            max_supply: None,
            name: None,
            uri: None,
        }),
        Plugin::AddBlocker,
        Plugin::ImmutableMetadata,
        Plugin::BubblegumV2,
    ];
    for p in plugins {
        let mut b = buf(256);
        p.serialize_to(&mut b, 0).unwrap();
        assert_eq!(b[0], p.get_plugin_number());
    }
}

#[test]
fn permanent_delegates_have_distinct_tags() {
    assert_eq!(Plugin::PermanentTransferDelegate.get_plugin_number(), 7);
    assert_eq!(Plugin::PermanentBurnDelegate.get_plugin_number(), 8);
}

#[test]
fn attribute_encoding() {
    let a = Attribute {
        key: b"k".to_vec(),
        value: b"val".to_vec(),
    };
    let mut b = buf(32);
    let n = a.serialize_to(&mut b, 0).unwrap();
    assert_eq!(n, 4 + 1 + 4 + 3);
    assert_eq!(&b[..n], &[1, 0, 0, 0, b'k', 3, 0, 0, 0, b'v', b'a', b'l']);
}

#[test]
fn master_edition_encoding() {
    let m = MasterEdition {
        max_supply: Some(7),
        name: None,
        uri: None,
    };
    let mut b = buf(32);
    let n = m.serialize_to(&mut b, 0).unwrap();
    assert_eq!(n, 7);
    assert_eq!(&b[..7], &[1, 7, 0, 0, 0, 0, 0]);
}

#[test]
fn instruction_discriminants() {
    assert_eq!(Instructions::CreateAsset.to_u8(), 0);
    assert_eq!(Instructions::CreateCollection.to_u8(), 1);
    assert_eq!(Instructions::UpdateAssetPlugin.to_u8(), 6);
    assert_eq!(Instructions::UpdateCollectionPlugin.to_u8(), 7);
    assert_eq!(Instructions::BurnAsset.to_u8(), 12);
    assert_eq!(Instructions::BurnCollection.to_u8(), 13);
    assert_eq!(Instructions::TransferAsset.to_u8(), 14);
}

#[test]
fn instruction_from_u8_inverts_to_u8() {
    assert!(matches!(
        Instructions::from_u8(14),
        Some(Instructions::TransferAsset)
    ));
    assert!(matches!(Instructions::from_u8(0), Some(Instructions::CreateAsset)));
    assert!(Instructions::from_u8(2).is_none());
    assert!(Instructions::from_u8(255).is_none());
}

#[test]
fn writes_only_inside_the_window() {
    let mut b = vec![0x5Au8; 12];
    let n = 0xBEEFu16.serialize_to(&mut b, 4).unwrap();
    assert_eq!(n, 2);
    assert!(b[..4].iter().all(|&x| x == 0x5A));
    assert!(b[6..].iter().all(|&x| x == 0x5A));
    assert_eq!(&b[4..6], &[0xEF, 0xBE]);
}
