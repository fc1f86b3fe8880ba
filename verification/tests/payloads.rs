use mpl_core_codec::create_asset::{CreateAssetV1InstructionData, DataState};
use mpl_core_codec::create_collection::CreateCollectionV1InstructionData;
use mpl_core_codec::plugins::{
    Autograph, AutographSignature, CompressionProof, FreezeExecute, HashablePluginSchema,
    MasterEdition, PermanentFreezeExecute, Plugin, PluginAuthority, PluginAuthorityPair,
    UpdateAuthority, VerifiedCreators, VerifiedCreatorsSignature,
};
use mpl_core_codec::serialize::Serialize;
use mpl_core_codec::transfer::TransferV1InstructionData;
use mpl_core_codec::update_asset_plugin::UpdateAssetPluginV1InstructionData;

#[test]
fn create_asset_payload() {
    let d = CreateAssetV1InstructionData {
        data_state: DataState::AccountState,
        name: b"n".to_vec(),
        uri: b"u".to_vec(),
        plugins: None,
    };
    let mut b = vec![0u8; 64];
    let n = d.serialize_to(&mut b, 0).unwrap();
    assert_eq!(n, 1 + 1 + 5 + 5 + 1);
    assert_eq!(
        &b[..n],
        &[0, 0, 1, 0, 0, 0, b'n', 1, 0, 0, 0, b'u', 0]
    );
}

#[test]
fn create_asset_payload_with_plugins() {
    let d = CreateAssetV1InstructionData {
        data_state: DataState::LedgerState,
        name: vec![],
        uri: vec![],
        plugins: Some(vec![PluginAuthorityPair {
            plugin: Plugin::BurnDelegate,
            authority: Some(PluginAuthority::Owner),
        }]),
    };
    let mut b = vec![0u8; 64];
    let n = d.serialize_to(&mut b, 0).unwrap();
    // disc + state + name + uri + present flag + count + (tag + auth flag + auth tag)
    assert_eq!(n, 1 + 1 + 4 + 4 + 1 + 4 + 3);
    assert_eq!(b[0], 0);
    assert_eq!(b[1], 1);
    assert_eq!(&b[10..n], &[1, 1, 0, 0, 0, 2, 1, 1]);
}

#[test]
fn create_collection_payload() {
    let d = CreateCollectionV1InstructionData {
        name: b"c".to_vec(),
        uri: vec![],
        plugins: None,
    };
    let mut b = vec![0u8; 64];
    let n = d.serialize_to(&mut b, 0).unwrap();
    assert_eq!(n, 1 + 5 + 4 + 1);
    assert_eq!(b[0], 1);
}

#[test]
fn transfer_payload_discriminant() {
    let d = TransferV1InstructionData {
        compression_proof: None,
    };
    let mut b = vec![0u8; 8];
    let n = d.serialize_to(&mut b, 0).unwrap();
    assert_eq!(n, 2);
    assert_eq!(&b[..2], &[14, 0]);
}

#[test]
fn transfer_payload_with_proof() {
    let d = TransferV1InstructionData {
        compression_proof: Some(CompressionProof {
            owner: [1u8; 32],
            update_authority: UpdateAuthority::NoAuthority,
            name: vec![],
            uri: vec![],
            seq: 9,
            plugins: vec![HashablePluginSchema {
                index: 0,
                authority: PluginAuthority::Owner,
                plugin: Plugin::BurnDelegate,
            }],
        }),
    };
    let mut b = vec![0u8; 256];
    let n = d.serialize_to(&mut b, 0).unwrap();
    // disc + flag + owner + ua + name + uri + seq + count + (index + auth + tag)
    assert_eq!(n, 1 + 1 + 32 + 1 + 4 + 4 + 8 + 4 + 10);
    assert_eq!(b[0], 14);
    assert_eq!(b[1], 1);
}

#[test]
fn update_asset_plugin_payload() {
    let d = UpdateAssetPluginV1InstructionData {
        plugin: Plugin::FreezeExecute(FreezeExecute { frozen: true }),
    };
    let mut b = vec![0u8; 16];
    let n = d.serialize_to(&mut b, 0).unwrap();
    assert_eq!(n, 3);
    assert_eq!(&b[..3], &[6, 16, 1]);
}

#[test]
fn late_plugin_tags() {
    let mut b = vec![0u8; 16];
    let p = Plugin::PermanentFreezeExecute(PermanentFreezeExecute { frozen: false });
    let n = p.serialize_to(&mut b, 0).unwrap();
    assert_eq!(n, 2);
    assert_eq!(&b[..2], &[17, 0]);
}

#[test]
fn verified_creators_encoding() {
    let p = Plugin::VerifiedCreators(VerifiedCreators {
        signatures: vec![VerifiedCreatorsSignature {
            address: [5u8; 32],
            verified: true,
        }],
    });
    let mut b = vec![0u8; 64];
    let n = p.serialize_to(&mut b, 0).unwrap();
    assert_eq!(n, 1 + 4 + 33);
    assert_eq!(b[0], 13);
    assert_eq!(b[37], 1); // the verification mark
}

#[test]
fn autograph_encoding() {
    let p = Plugin::Autograph(Autograph {
        signatures: vec![AutographSignature {
            address: [6u8; 32],
            message: b"hi".to_vec(),
        }],
    });
    let mut b = vec![0u8; 64];
    let n = p.serialize_to(&mut b, 0).unwrap();
    assert_eq!(n, 1 + 4 + 32 + 4 + 2);
    assert_eq!(b[0], 14);
    assert_eq!(&b[41..43], b"hi");
}

#[test]
fn master_edition_full() {
    let p = MasterEdition {
        max_supply: Some(1000),
        name: Some(b"me".to_vec()),
        uri: Some(b"u".to_vec()),
    };
    let mut b = vec![0u8; 64];
    let n = p.serialize_to(&mut b, 0).unwrap();
    assert_eq!(n, 5 + 7 + 6);
    assert_eq!(&b[..5], &[1, 0xE8, 3, 0, 0]);
}
