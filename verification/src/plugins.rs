//! The plugin families: every attachable capability record, the authority
//! descriptors that say who may act on one, and their byte-exact encodings.
//!
//! Each variant family carries its own independent tag numbering; the tags
//! are part of the external wire contract and may not be reassigned.

use vstd::prelude::*;
use crate::decode::{sdec_bool, sdec_u32, Decode, Skip};
use crate::error::CodecError;
use crate::serialize::{
    enc_bool, opt_encodable, opt_wire, seq_encodable, seq_wire, Pubkey, Serialize, PUBKEY_LEN,
};

verus! {

/// One royalty recipient: a 32-byte identity and its share in percent.
///
/// The layout is exactly 33 packed bytes, so a run of creators can be read
/// back out of a buffer without per-element framing.
#[derive(Clone, Copy)]
pub struct Creator {
    pub address: Pubkey,
    pub percentage: u8,
}

/// The mathematical value of a [`Creator`].
#[verifier::ext_equal]
pub ghost struct CreatorView {
    pub address: Seq<u8>,
    pub percentage: u8,
}

/// The number of bytes a creator occupies on the wire.
pub const CREATOR_LEN: usize = 33;

/// A creator is its identity bytes followed by its percentage byte.
pub open spec fn creator_wire(v: CreatorView) -> Seq<u8> {
    v.address + seq![v.percentage]
}

impl DeepView for Creator {
    type V = CreatorView;

    open spec fn deep_view(&self) -> CreatorView {
        CreatorView { address: self.address.deep_view(), percentage: self.percentage }
    }
}

impl Serialize for Creator {
    open spec fn vwire(v: CreatorView) -> Seq<u8> {
        creator_wire(v)
    }

    open spec fn vencodable(v: CreatorView) -> bool {
        v.address.len() == PUBKEY_LEN
    }

    fn serialize_to(&self, buffer: &mut Vec<u8>, pos: usize) -> (r: Result<
        usize,
        CodecError,
    >) {
        proof {
            assert(<Creator as Serialize>::vwire(self.deep_view()) == creator_wire(self.deep_view()));
            assert(<Creator as Serialize>::vencodable(self.deep_view()) == (self.address.deep_view().len() == PUBKEY_LEN));
        }
        let blen = buffer.len();
        let ghost v = self.deep_view();
        let n1 = match self.address.serialize_to(buffer, pos) {
            Ok(n) => n,
            Err(e) => {
                return Err(e);
            },
        };
        let ghost b1 = buffer@;
        let n2 = match self.percentage.serialize_to(buffer, pos + n1) {
            Ok(n) => n,
            Err(e) => {
                return Err(e);
            },
        };
        proof {
            assert(buffer@.subrange(pos as int, pos + n1) =~= b1.subrange(pos as int, pos + n1));
            assert(buffer@.subrange(pos as int, pos + n1 + n2) =~= creator_wire(v));
        }
        Ok(n1 + n2)
    }
}

/// The transfer rule attached to a royalties plugin.
pub enum RuleSet {
    NoRule,
    ProgramAllowList(Vec<Pubkey>),
    ProgramDenyList(Vec<Pubkey>),
}

/// The mathematical value of a [`RuleSet`].
#[verifier::ext_equal]
pub ghost enum RuleSetView {
    NoRule,
    ProgramAllowList(Seq<Seq<u8>>),
    ProgramDenyList(Seq<Seq<u8>>),
}

/// A rule set is a one-byte tag, then for the list variants the
/// count-prefixed identities.
pub open spec fn rule_set_wire(v: RuleSetView) -> Seq<u8> {
    match v {
        RuleSetView::NoRule => seq![0u8],
        RuleSetView::ProgramAllowList(ks) => seq![1u8] + seq_wire::<Pubkey>(ks),
        RuleSetView::ProgramDenyList(ks) => seq![2u8] + seq_wire::<Pubkey>(ks),
    }
}

/// Whether a rule set can be carried.
pub open spec fn rule_set_encodable(v: RuleSetView) -> bool {
    match v {
        RuleSetView::NoRule => true,
        RuleSetView::ProgramAllowList(ks) => seq_encodable::<Pubkey>(ks),
        RuleSetView::ProgramDenyList(ks) => seq_encodable::<Pubkey>(ks),
    }
}

impl DeepView for RuleSet {
    type V = RuleSetView;

    open spec fn deep_view(&self) -> RuleSetView {
        match self {
            RuleSet::NoRule => RuleSetView::NoRule,
            RuleSet::ProgramAllowList(ks) => RuleSetView::ProgramAllowList(ks.deep_view()),
            RuleSet::ProgramDenyList(ks) => RuleSetView::ProgramDenyList(ks.deep_view()),
        }
    }
}

impl Serialize for RuleSet {
    open spec fn vwire(v: RuleSetView) -> Seq<u8> {
        rule_set_wire(v)
    }

    open spec fn vencodable(v: RuleSetView) -> bool {
        rule_set_encodable(v)
    }

    fn serialize_to(&self, buffer: &mut Vec<u8>, pos: usize) -> (r: Result<
        usize,
        CodecError,
    >) {
        proof {
            assert(<RuleSet as Serialize>::vwire(self.deep_view()) == rule_set_wire(
                self.deep_view(),
            ));
            assert(<RuleSet as Serialize>::vencodable(self.deep_view()) == rule_set_encodable(
                self.deep_view(),
            ));
        }
        if pos >= buffer.len() {
            return Err(CodecError::BufferTooSmall);
        }
        match self {
            RuleSet::NoRule => {
                buffer[pos] = 0;
                assert(buffer@.subrange(pos as int, pos + 1int) =~= seq![0u8]);
                Ok(1)
            },
            RuleSet::ProgramAllowList(keys) => {
                buffer[pos] = 1;
                match keys.serialize_to(buffer, pos + 1) {
                    Ok(n) => {
                        assert(buffer@.subrange(pos as int, pos + 1 + n as int) =~= rule_set_wire(
                            self.deep_view(),
                        ));
                        Ok(1 + n)
                    },
                    Err(e) => Err(e),
                }
            },
            RuleSet::ProgramDenyList(keys) => {
                buffer[pos] = 2;
                match keys.serialize_to(buffer, pos + 1) {
                    Ok(n) => {
                        assert(buffer@.subrange(pos as int, pos + 1 + n as int) =~= rule_set_wire(
                            self.deep_view(),
                        ));
                        Ok(1 + n)
                    },
                    Err(e) => Err(e),
                }
            },
        }
    }
}

/// The royalty schedule: a fee rate in basis points, the ordered creator
/// list, and the transfer rule set.
pub struct Royalties {
    pub basis_points: u16,
    pub creators: Vec<Creator>,
    pub rule_set: RuleSet,
}

/// The mathematical value of a [`Royalties`].
#[verifier::ext_equal]
pub ghost struct RoyaltiesView {
    pub basis_points: u16,
    pub creators: Seq<CreatorView>,
    pub rule_set: RuleSetView,
}

/// A royalty schedule is the two basis-point bytes, the count-prefixed
/// creators, then the rule set.
pub open spec fn royalties_wire(v: RoyaltiesView) -> Seq<u8> {
    vstd::bytes::spec_u16_to_le_bytes(v.basis_points) + seq_wire::<Creator>(v.creators)
        + rule_set_wire(v.rule_set)
}

/// Whether a royalty schedule can be carried.
pub open spec fn royalties_encodable(v: RoyaltiesView) -> bool {
    seq_encodable::<Creator>(v.creators) && rule_set_encodable(v.rule_set)
}

impl DeepView for Royalties {
    type V = RoyaltiesView;

    open spec fn deep_view(&self) -> RoyaltiesView {
        RoyaltiesView {
            basis_points: self.basis_points,
            creators: self.creators.deep_view(),
            rule_set: self.rule_set.deep_view(),
        }
    }
}

impl Serialize for Royalties {
    open spec fn vwire(v: RoyaltiesView) -> Seq<u8> {
        royalties_wire(v)
    }

    open spec fn vencodable(v: RoyaltiesView) -> bool {
        royalties_encodable(v)
    }

    fn serialize_to(&self, buffer: &mut Vec<u8>, pos: usize) -> (r: Result<
        usize,
        CodecError,
    >) {
        proof {
            assert(<Royalties as Serialize>::vwire(self.deep_view()) == royalties_wire(self.deep_view()));
            assert(<Royalties as Serialize>::vencodable(self.deep_view()) == royalties_encodable(self.deep_view()));
        }
        let blen = buffer.len();
        let ghost v = self.deep_view();
        let n1 = match self.basis_points.serialize_to(buffer, pos) {
            Ok(n) => n,
            Err(e) => {
                return Err(e);
            },
        };
        let ghost b1 = buffer@;
        let n2 = match self.creators.serialize_to(buffer, pos + n1) {
            Ok(n) => n,
            Err(e) => {
                return Err(e);
            },
        };
        let ghost b2 = buffer@;
        let n3 = match self.rule_set.serialize_to(buffer, pos + n1 + n2) {
            Ok(n) => n,
            Err(e) => {
                return Err(e);
            },
        };
        proof {
            assert(buffer@.subrange(pos as int, pos + n1) =~= b1.subrange(pos as int, pos + n1));
            assert(buffer@.subrange(pos + n1, pos + n1 + n2) =~= b2.subrange(
                pos + n1,
                pos + n1 + n2,
            ));
            assert(buffer@.subrange(pos as int, pos + n1 + n2 + n3) =~= royalties_wire(v));
        }
        Ok(n1 + n2 + n3)
    }
}


/// A delegate that can freeze and thaw an asset.
pub struct FreezeDelegate {
    pub frozen: bool,
}

/// A delegate that can permanently freeze an asset.
pub struct PermanentFreezeDelegate {
    pub frozen: bool,
}

/// A delegate allowed to freeze execution.
pub struct FreezeExecute {
    pub frozen: bool,
}

/// A permanent delegate allowed to freeze execution.
pub struct PermanentFreezeExecute {
    pub frozen: bool,
}

/// Extra identities allowed to update the asset.
pub struct UpdateDelegate {
    pub additional_delegates: Vec<Pubkey>,
}

/// The mathematical value of an [`UpdateDelegate`].
#[verifier::ext_equal]
pub ghost struct UpdateDelegateView {
    pub additional_delegates: Seq<Seq<u8>>,
}

/// One key/value pair of an attributes plugin; both sides are byte strings.
pub struct Attribute {
    pub key: Vec<u8>,
    pub value: Vec<u8>,
}

/// The mathematical value of an [`Attribute`].
#[verifier::ext_equal]
pub ghost struct AttributeView {
    pub key: Seq<u8>,
    pub value: Seq<u8>,
}

/// The attributes plugin: an ordered list of key/value pairs.
pub struct Attributes {
    pub attribute_list: Vec<Attribute>,
}

/// The mathematical value of an [`Attributes`].
#[verifier::ext_equal]
pub ghost struct AttributesView {
    pub attribute_list: Seq<AttributeView>,
}

/// The edition plugin: a single edition number.
pub struct Edition {
    pub number: u32,
}

/// The master-edition plugin: an optional supply cap and optional name
/// and uri byte strings.
pub struct MasterEdition {
    pub max_supply: Option<u32>,
    pub name: Option<Vec<u8>>,
    pub uri: Option<Vec<u8>>,
}

/// The mathematical value of a [`MasterEdition`].
#[verifier::ext_equal]
pub ghost struct MasterEditionView {
    pub max_supply: Option<u32>,
    pub name: Option<Seq<u8>>,
    pub uri: Option<Seq<u8>>,
}

/// One creator's verification mark: an identity and whether it signed.
pub struct VerifiedCreatorsSignature {
    pub address: Pubkey,
    pub verified: bool,
}

/// The mathematical value of a [`VerifiedCreatorsSignature`].
#[verifier::ext_equal]
pub ghost struct VerifiedCreatorsSignatureView {
    pub address: Seq<u8>,
    pub verified: bool,
}

/// The verified-creators plugin: the list of verification marks.
pub struct VerifiedCreators {
    pub signatures: Vec<VerifiedCreatorsSignature>,
}

/// The mathematical value of a [`VerifiedCreators`].
#[verifier::ext_equal]
pub ghost struct VerifiedCreatorsView {
    pub signatures: Seq<VerifiedCreatorsSignatureView>,
}

/// One autograph: a signing identity and its message byte string.
pub struct AutographSignature {
    pub address: Pubkey,
    pub message: Vec<u8>,
}

/// The mathematical value of an [`AutographSignature`].
#[verifier::ext_equal]
pub ghost struct AutographSignatureView {
    pub address: Seq<u8>,
    pub message: Seq<u8>,
}

/// The autograph plugin: the list of autographs.
pub struct Autograph {
    pub signatures: Vec<AutographSignature>,
}

/// The mathematical value of an [`Autograph`].
#[verifier::ext_equal]
pub ghost struct AutographView {
    pub signatures: Seq<AutographSignatureView>,
}

impl DeepView for FreezeDelegate {
    type V = FreezeDelegate;

    open spec fn deep_view(&self) -> FreezeDelegate {
        *self
    }
}

impl Serialize for FreezeDelegate {
    open spec fn vwire(v: FreezeDelegate) -> Seq<u8> {
        enc_bool(v.frozen)
    }

    open spec fn vencodable(v: FreezeDelegate) -> bool {
        true
    }

    fn serialize_to(&self, buffer: &mut Vec<u8>, pos: usize) -> (r: Result<
        usize,
        CodecError,
    >) {
        proof {
            assert(<FreezeDelegate as Serialize>::vwire(self.deep_view()) == <bool as Serialize>::vwire(
                self.frozen.deep_view(),
            ));
            assert(<FreezeDelegate as Serialize>::vencodable(self.deep_view()) == <bool as Serialize>::vencodable(
                self.frozen.deep_view(),
            ));
        }
        self.frozen.serialize_to(buffer, pos)
    }
}

impl DeepView for PermanentFreezeDelegate {
    type V = PermanentFreezeDelegate;

    open spec fn deep_view(&self) -> PermanentFreezeDelegate {
        *self
    }
}

impl Serialize for PermanentFreezeDelegate {
    open spec fn vwire(v: PermanentFreezeDelegate) -> Seq<u8> {
        enc_bool(v.frozen)
    }

    open spec fn vencodable(v: PermanentFreezeDelegate) -> bool {
        true
    }

    fn serialize_to(&self, buffer: &mut Vec<u8>, pos: usize) -> (r: Result<
        usize,
        CodecError,
    >) {
        proof {
            assert(<PermanentFreezeDelegate as Serialize>::vwire(self.deep_view()) == <bool as Serialize>::vwire(
                self.frozen.deep_view(),
            ));
            assert(<PermanentFreezeDelegate as Serialize>::vencodable(self.deep_view()) == <bool as Serialize>::vencodable(
                self.frozen.deep_view(),
            ));
        }
        self.frozen.serialize_to(buffer, pos)
    }
}

impl DeepView for FreezeExecute {
    type V = FreezeExecute;

    open spec fn deep_view(&self) -> FreezeExecute {
        *self
    }
}

impl Serialize for FreezeExecute {
    open spec fn vwire(v: FreezeExecute) -> Seq<u8> {
        enc_bool(v.frozen)
    }

    open spec fn vencodable(v: FreezeExecute) -> bool {
        true
    }

    fn serialize_to(&self, buffer: &mut Vec<u8>, pos: usize) -> (r: Result<
        usize,
        CodecError,
    >) {
        proof {
            assert(<FreezeExecute as Serialize>::vwire(self.deep_view()) == <bool as Serialize>::vwire(
                self.frozen.deep_view(),
            ));
            assert(<FreezeExecute as Serialize>::vencodable(self.deep_view()) == <bool as Serialize>::vencodable(
                self.frozen.deep_view(),
            ));
        }
        self.frozen.serialize_to(buffer, pos)
    }
}

impl DeepView for PermanentFreezeExecute {
    type V = PermanentFreezeExecute;

    open spec fn deep_view(&self) -> PermanentFreezeExecute {
        *self
    }
}

impl Serialize for PermanentFreezeExecute {
    open spec fn vwire(v: PermanentFreezeExecute) -> Seq<u8> {
        enc_bool(v.frozen)
    }

    open spec fn vencodable(v: PermanentFreezeExecute) -> bool {
        true
    }

    fn serialize_to(&self, buffer: &mut Vec<u8>, pos: usize) -> (r: Result<
        usize,
        CodecError,
    >) {
        proof {
            assert(<PermanentFreezeExecute as Serialize>::vwire(self.deep_view()) == <bool as Serialize>::vwire(
                self.frozen.deep_view(),
            ));
            assert(<PermanentFreezeExecute as Serialize>::vencodable(self.deep_view()) == <bool as Serialize>::vencodable(
                self.frozen.deep_view(),
            ));
        }
        self.frozen.serialize_to(buffer, pos)
    }
}

impl DeepView for UpdateDelegate {
    type V = UpdateDelegateView;

    open spec fn deep_view(&self) -> UpdateDelegateView {
        UpdateDelegateView { additional_delegates: self.additional_delegates.deep_view() }
    }
}

impl Serialize for UpdateDelegate {
    open spec fn vwire(v: UpdateDelegateView) -> Seq<u8> {
        seq_wire::<Pubkey>(v.additional_delegates)
    }

    open spec fn vencodable(v: UpdateDelegateView) -> bool {
        seq_encodable::<Pubkey>(v.additional_delegates)
    }

    fn serialize_to(&self, buffer: &mut Vec<u8>, pos: usize) -> (r: Result<
        usize,
        CodecError,
    >) {
        proof {
            assert(<UpdateDelegate as Serialize>::vwire(self.deep_view()) == <Vec<Pubkey> as Serialize>::vwire(
                self.additional_delegates.deep_view(),
            ));
            assert(<UpdateDelegate as Serialize>::vencodable(self.deep_view()) == <Vec<Pubkey> as Serialize>::vencodable(
                self.additional_delegates.deep_view(),
            ));
        }
        self.additional_delegates.serialize_to(buffer, pos)
    }
}

impl DeepView for Attribute {
    type V = AttributeView;

    open spec fn deep_view(&self) -> AttributeView {
        AttributeView { key: self.key.deep_view(), value: self.value.deep_view() }
    }
}

impl Serialize for Attribute {
    open spec fn vwire(v: AttributeView) -> Seq<u8> {
        seq_wire::<u8>(v.key) + seq_wire::<u8>(v.value)
    }

    open spec fn vencodable(v: AttributeView) -> bool {
        v.key.len() < crate::serialize::count_limit() && v.value.len()
            < crate::serialize::count_limit()
    }

    fn serialize_to(&self, buffer: &mut Vec<u8>, pos: usize) -> (r: Result<
        usize,
        CodecError,
    >) {
        proof {
            assert(<Attribute as Serialize>::vwire(self.deep_view()) == seq_wire::<u8>(self.key.deep_view()) + seq_wire::<u8>(self.value.deep_view()));
            assert(<Attribute as Serialize>::vencodable(self.deep_view()) == <Attribute as Serialize>::vencodable(self.deep_view()));
        }
        let blen = buffer.len();
        let ghost v = self.deep_view();
        let n1 = match self.key.serialize_to(buffer, pos) {
            Ok(n) => n,
            Err(e) => {
                return Err(e);
            },
        };
        let ghost b1 = buffer@;
        let n2 = match self.value.serialize_to(buffer, pos + n1) {
            Ok(n) => n,
            Err(e) => {
                return Err(e);
            },
        };
        proof {
            assert(buffer@.subrange(pos as int, pos + n1) =~= b1.subrange(pos as int, pos + n1));
            assert(buffer@.subrange(pos as int, pos + n1 + n2) =~= <Attribute as Serialize>::vwire(
                v,
            ));
        }
        Ok(n1 + n2)
    }
}

impl DeepView for Attributes {
    type V = AttributesView;

    open spec fn deep_view(&self) -> AttributesView {
        AttributesView { attribute_list: self.attribute_list.deep_view() }
    }
}

impl Serialize for Attributes {
    open spec fn vwire(v: AttributesView) -> Seq<u8> {
        seq_wire::<Attribute>(v.attribute_list)
    }

    open spec fn vencodable(v: AttributesView) -> bool {
        seq_encodable::<Attribute>(v.attribute_list)
    }

    fn serialize_to(&self, buffer: &mut Vec<u8>, pos: usize) -> (r: Result<
        usize,
        CodecError,
    >) {
        proof {
            assert(<Attributes as Serialize>::vwire(self.deep_view()) == <Vec<Attribute> as Serialize>::vwire(
                self.attribute_list.deep_view(),
            ));
            assert(<Attributes as Serialize>::vencodable(self.deep_view()) == <Vec<Attribute> as Serialize>::vencodable(
                self.attribute_list.deep_view(),
            ));
        }
        self.attribute_list.serialize_to(buffer, pos)
    }
}

impl DeepView for Edition {
    type V = Edition;

    open spec fn deep_view(&self) -> Edition {
        *self
    }
}

impl Serialize for Edition {
    open spec fn vwire(v: Edition) -> Seq<u8> {
        vstd::bytes::spec_u32_to_le_bytes(v.number)
    }

    open spec fn vencodable(v: Edition) -> bool {
        true
    }

    fn serialize_to(&self, buffer: &mut Vec<u8>, pos: usize) -> (r: Result<
        usize,
        CodecError,
    >) {
        proof {
            assert(<Edition as Serialize>::vwire(self.deep_view()) == <u32 as Serialize>::vwire(
                self.number.deep_view(),
            ));
            assert(<Edition as Serialize>::vencodable(self.deep_view()) == <u32 as Serialize>::vencodable(
                self.number.deep_view(),
            ));
        }
        self.number.serialize_to(buffer, pos)
    }
}

impl DeepView for MasterEdition {
    type V = MasterEditionView;

    open spec fn deep_view(&self) -> MasterEditionView {
        MasterEditionView {
            max_supply: self.max_supply.deep_view(),
            name: self.name.deep_view(),
            uri: self.uri.deep_view(),
        }
    }
}

impl Serialize for MasterEdition {
    open spec fn vwire(v: MasterEditionView) -> Seq<u8> {
        opt_wire::<u32>(v.max_supply) + opt_wire::<Vec<u8>>(v.name) + opt_wire::<Vec<u8>>(v.uri)
    }

    open spec fn vencodable(v: MasterEditionView) -> bool {
        opt_encodable::<Vec<u8>>(v.name) && opt_encodable::<Vec<u8>>(v.uri)
    }

    fn serialize_to(&self, buffer: &mut Vec<u8>, pos: usize) -> (r: Result<
        usize,
        CodecError,
    >) {
        proof {
            assert(<MasterEdition as Serialize>::vwire(self.deep_view()) == <MasterEdition as Serialize>::vwire(self.deep_view()));
            assert(<MasterEdition as Serialize>::vencodable(self.deep_view()) == <MasterEdition as Serialize>::vencodable(self.deep_view()));
        }
        let blen = buffer.len();
        let ghost v = self.deep_view();
        let n1 = match self.max_supply.serialize_to(buffer, pos) {
            Ok(n) => n,
            Err(e) => {
                return Err(e);
            },
        };
        let ghost b1 = buffer@;
        let n2 = match self.name.serialize_to(buffer, pos + n1) {
            Ok(n) => n,
            Err(e) => {
                return Err(e);
            },
        };
        let ghost b2 = buffer@;
        let n3 = match self.uri.serialize_to(buffer, pos + n1 + n2) {
            Ok(n) => n,
            Err(e) => {
                return Err(e);
            },
        };
        proof {
            assert(buffer@.subrange(pos as int, pos + n1) =~= b1.subrange(pos as int, pos + n1));
            assert(buffer@.subrange(pos + n1, pos + n1 + n2) =~= b2.subrange(
                pos + n1,
                pos + n1 + n2,
            ));
            assert(buffer@.subrange(pos as int, pos + n1 + n2 + n3)
                =~= <MasterEdition as Serialize>::vwire(v));
        }
        Ok(n1 + n2 + n3)
    }
}

impl DeepView for VerifiedCreatorsSignature {
    type V = VerifiedCreatorsSignatureView;

    open spec fn deep_view(&self) -> VerifiedCreatorsSignatureView {
        VerifiedCreatorsSignatureView {
            address: self.address.deep_view(),
            verified: self.verified,
        }
    }
}

impl Serialize for VerifiedCreatorsSignature {
    open spec fn vwire(v: VerifiedCreatorsSignatureView) -> Seq<u8> {
        v.address + enc_bool(v.verified)
    }

    open spec fn vencodable(v: VerifiedCreatorsSignatureView) -> bool {
        v.address.len() == PUBKEY_LEN
    }

    fn serialize_to(&self, buffer: &mut Vec<u8>, pos: usize) -> (r: Result<
        usize,
        CodecError,
    >) {
        proof {
            assert(<VerifiedCreatorsSignature as Serialize>::vwire(self.deep_view()) == self.address.deep_view() + enc_bool(self.verified));
            assert(<VerifiedCreatorsSignature as Serialize>::vencodable(self.deep_view()) == <VerifiedCreatorsSignature as Serialize>::vencodable(self.deep_view()));
        }
        let blen = buffer.len();
        let ghost v = self.deep_view();
        let n1 = match self.address.serialize_to(buffer, pos) {
            Ok(n) => n,
            Err(e) => {
                return Err(e);
            },
        };
        let ghost b1 = buffer@;
        let n2 = match self.verified.serialize_to(buffer, pos + n1) {
            Ok(n) => n,
            Err(e) => {
                return Err(e);
            },
        };
        proof {
            assert(buffer@.subrange(pos as int, pos + n1) =~= b1.subrange(pos as int, pos + n1));
            assert(buffer@.subrange(pos as int, pos + n1 + n2)
                =~= <VerifiedCreatorsSignature as Serialize>::vwire(v));
        }
        Ok(n1 + n2)
    }
}

impl DeepView for VerifiedCreators {
    type V = VerifiedCreatorsView;

    open spec fn deep_view(&self) -> VerifiedCreatorsView {
        VerifiedCreatorsView { signatures: self.signatures.deep_view() }
    }
}

impl Serialize for VerifiedCreators {
    open spec fn vwire(v: VerifiedCreatorsView) -> Seq<u8> {
        seq_wire::<VerifiedCreatorsSignature>(v.signatures)
    }

    open spec fn vencodable(v: VerifiedCreatorsView) -> bool {
        seq_encodable::<VerifiedCreatorsSignature>(v.signatures)
    }

    fn serialize_to(&self, buffer: &mut Vec<u8>, pos: usize) -> (r: Result<
        usize,
        CodecError,
    >) {
        proof {
            assert(<VerifiedCreators as Serialize>::vwire(self.deep_view()) == <Vec<VerifiedCreatorsSignature> as Serialize>::vwire(
                self.signatures.deep_view(),
            ));
            assert(<VerifiedCreators as Serialize>::vencodable(self.deep_view()) == <Vec<VerifiedCreatorsSignature> as Serialize>::vencodable(
                self.signatures.deep_view(),
            ));
        }
        self.signatures.serialize_to(buffer, pos)
    }
}

impl DeepView for AutographSignature {
    type V = AutographSignatureView;

    open spec fn deep_view(&self) -> AutographSignatureView {
        AutographSignatureView {
            address: self.address.deep_view(),
            message: self.message.deep_view(),
        }
    }
}

impl Serialize for AutographSignature {
    open spec fn vwire(v: AutographSignatureView) -> Seq<u8> {
        v.address + seq_wire::<u8>(v.message)
    }

    open spec fn vencodable(v: AutographSignatureView) -> bool {
        v.address.len() == PUBKEY_LEN && v.message.len() < crate::serialize::count_limit()
    }

    fn serialize_to(&self, buffer: &mut Vec<u8>, pos: usize) -> (r: Result<
        usize,
        CodecError,
    >) {
        proof {
            assert(<AutographSignature as Serialize>::vwire(self.deep_view()) == self.address.deep_view() + seq_wire::<u8>(self.message.deep_view()));
            assert(<AutographSignature as Serialize>::vencodable(self.deep_view()) == <AutographSignature as Serialize>::vencodable(self.deep_view()));
        }
        let blen = buffer.len();
        let ghost v = self.deep_view();
        let n1 = match self.address.serialize_to(buffer, pos) {
            Ok(n) => n,
            Err(e) => {
                return Err(e);
            },
        };
        let ghost b1 = buffer@;
        let n2 = match self.message.serialize_to(buffer, pos + n1) {
            Ok(n) => n,
            Err(e) => {
                return Err(e);
            },
        };
        proof {
            assert(buffer@.subrange(pos as int, pos + n1) =~= b1.subrange(pos as int, pos + n1));
            assert(buffer@.subrange(pos as int, pos + n1 + n2)
                =~= <AutographSignature as Serialize>::vwire(v));
        }
        Ok(n1 + n2)
    }
}

impl DeepView for Autograph {
    type V = AutographView;

    open spec fn deep_view(&self) -> AutographView {
        AutographView { signatures: self.signatures.deep_view() }
    }
}

impl Serialize for Autograph {
    open spec fn vwire(v: AutographView) -> Seq<u8> {
        seq_wire::<AutographSignature>(v.signatures)
    }

    open spec fn vencodable(v: AutographView) -> bool {
        seq_encodable::<AutographSignature>(v.signatures)
    }

    fn serialize_to(&self, buffer: &mut Vec<u8>, pos: usize) -> (r: Result<
        usize,
        CodecError,
    >) {
        proof {
            assert(<Autograph as Serialize>::vwire(self.deep_view()) == <Vec<AutographSignature> as Serialize>::vwire(
                self.signatures.deep_view(),
            ));
            assert(<Autograph as Serialize>::vencodable(self.deep_view()) == <Vec<AutographSignature> as Serialize>::vencodable(
                self.signatures.deep_view(),
            ));
        }
        self.signatures.serialize_to(buffer, pos)
    }
}


/// Who may act on a plugin: nobody, the owner, the current update
/// authority, or one explicit identity.
#[derive(Clone, Copy)]
pub enum PluginAuthority {
    NoAuthority,
    Owner,
    UpdateAuthority,
    Address(Pubkey),
}

/// The mathematical value of a [`PluginAuthority`].
#[verifier::ext_equal]
pub ghost enum PluginAuthorityView {
    NoAuthority,
    Owner,
    UpdateAuthority,
    Address(Seq<u8>),
}

/// The tag byte of each plugin-authority variant.
pub open spec fn plugin_authority_disc(v: PluginAuthorityView) -> u8 {
    match v {
        PluginAuthorityView::NoAuthority => 0,
        PluginAuthorityView::Owner => 1,
        PluginAuthorityView::UpdateAuthority => 2,
        PluginAuthorityView::Address(_) => 3,
    }
}

/// A plugin authority is its tag byte, plus the identity for the
/// `Address` variant.
pub open spec fn plugin_authority_wire(v: PluginAuthorityView) -> Seq<u8> {
    match v {
        PluginAuthorityView::Address(a) => seq![3u8] + a,
        _ => seq![plugin_authority_disc(v)],
    }
}

/// Whether a plugin authority can be carried.
pub open spec fn plugin_authority_encodable(v: PluginAuthorityView) -> bool {
    match v {
        PluginAuthorityView::Address(a) => a.len() == PUBKEY_LEN,
        _ => true,
    }
}

impl DeepView for PluginAuthority {
    type V = PluginAuthorityView;

    open spec fn deep_view(&self) -> PluginAuthorityView {
        match self {
            PluginAuthority::NoAuthority => PluginAuthorityView::NoAuthority,
            PluginAuthority::Owner => PluginAuthorityView::Owner,
            PluginAuthority::UpdateAuthority => PluginAuthorityView::UpdateAuthority,
            PluginAuthority::Address(a) => PluginAuthorityView::Address(a.deep_view()),
        }
    }
}

impl Serialize for PluginAuthority {
    open spec fn vwire(v: PluginAuthorityView) -> Seq<u8> {
        plugin_authority_wire(v)
    }

    open spec fn vencodable(v: PluginAuthorityView) -> bool {
        plugin_authority_encodable(v)
    }

    fn serialize_to(&self, buffer: &mut Vec<u8>, pos: usize) -> (r: Result<
        usize,
        CodecError,
    >) {
        proof {
            assert(<PluginAuthority as Serialize>::vwire(self.deep_view())
                == plugin_authority_wire(self.deep_view()));
            assert(<PluginAuthority as Serialize>::vencodable(self.deep_view())
                == plugin_authority_encodable(self.deep_view()));
        }
        if pos >= buffer.len() {
            return Err(CodecError::BufferTooSmall);
        }
        match self {
            PluginAuthority::NoAuthority => {
                buffer[pos] = 0;
                assert(buffer@.subrange(pos as int, pos + 1int) =~= plugin_authority_wire(
                    self.deep_view(),
                ));
                Ok(1)
            },
            PluginAuthority::Owner => {
                buffer[pos] = 1;
                assert(buffer@.subrange(pos as int, pos + 1int) =~= plugin_authority_wire(
                    self.deep_view(),
                ));
                Ok(1)
            },
            PluginAuthority::UpdateAuthority => {
                buffer[pos] = 2;
                assert(buffer@.subrange(pos as int, pos + 1int) =~= plugin_authority_wire(
                    self.deep_view(),
                ));
                Ok(1)
            },
            PluginAuthority::Address(key) => {
                buffer[pos] = 3;
                match key.serialize_to(buffer, pos + 1) {
                    Ok(n) => {
                        assert(buffer@.subrange(pos as int, pos + 1 + n as int)
                            =~= plugin_authority_wire(self.deep_view()));
                        Ok(1 + n)
                    },
                    Err(e) => Err(e),
                }
            },
        }
    }
}

/// What one plugin-authority skip step yields: one byte for the three
/// empty variants, one plus an identity for `Address`.
pub open spec fn sskip_plugin_authority(bytes: Seq<u8>) -> Result<int, CodecError> {
    if bytes.len() < 1 {
        Err(CodecError::TruncatedInput)
    } else if bytes[0] == 0 || bytes[0] == 1 || bytes[0] == 2 {
        Ok(1)
    } else if bytes[0] == 3 {
        Ok(1 + PUBKEY_LEN as int)
    } else {
        Err(CodecError::UnrecognizedTag)
    }
}

impl Skip for PluginAuthority {
    open spec fn sskip(bytes: Seq<u8>) -> Result<int, CodecError> {
        sskip_plugin_authority(bytes)
    }

    fn skip_bytes(bytes: &[u8]) -> (r: Result<usize, CodecError>) {
        if bytes.len() < 1 {
            return Err(CodecError::TruncatedInput);
        }
        let disc = *vstd::slice::slice_index_get(bytes, 0);
        match disc {
            0 => Ok(1),
            1 => Ok(1),
            2 => Ok(1),
            3 => Ok(1 + PUBKEY_LEN),
            _ => Err(CodecError::UnrecognizedTag),
        }
    }
}

/// The skip table agrees with the encoder: skipping an encoded plugin
/// authority reports exactly the encoding's length.
pub proof fn lemma_plugin_authority_skip_agrees(v: PluginAuthorityView, rest: Seq<u8>)
    requires
        plugin_authority_encodable(v),
    ensures
        sskip_plugin_authority(plugin_authority_wire(v) + rest) == Ok::<int, CodecError>(
            plugin_authority_wire(v).len() as int,
        ),
{
    assert((plugin_authority_wire(v) + rest)[0] == plugin_authority_disc(v));
}

/// Who may update an asset: nobody, one explicit identity, or the
/// collection the asset belongs to.
pub enum UpdateAuthority {
    NoAuthority,
    Address(Pubkey),
    Collection(Pubkey),
}

/// The mathematical value of an [`UpdateAuthority`].
#[verifier::ext_equal]
pub ghost enum UpdateAuthorityView {
    NoAuthority,
    Address(Seq<u8>),
    Collection(Seq<u8>),
}

/// An update authority is its tag byte, plus the identity for the two
/// identity-carrying variants.
pub open spec fn update_authority_wire(v: UpdateAuthorityView) -> Seq<u8> {
    match v {
        UpdateAuthorityView::NoAuthority => seq![0u8],
        UpdateAuthorityView::Address(a) => seq![1u8] + a,
        UpdateAuthorityView::Collection(a) => seq![2u8] + a,
    }
}

/// Whether an update authority can be carried.
pub open spec fn update_authority_encodable(v: UpdateAuthorityView) -> bool {
    match v {
        UpdateAuthorityView::NoAuthority => true,
        UpdateAuthorityView::Address(a) => a.len() == PUBKEY_LEN,
        UpdateAuthorityView::Collection(a) => a.len() == PUBKEY_LEN,
    }
}

impl DeepView for UpdateAuthority {
    type V = UpdateAuthorityView;

    open spec fn deep_view(&self) -> UpdateAuthorityView {
        match self {
            UpdateAuthority::NoAuthority => UpdateAuthorityView::NoAuthority,
            UpdateAuthority::Address(a) => UpdateAuthorityView::Address(a.deep_view()),
            UpdateAuthority::Collection(a) => UpdateAuthorityView::Collection(a.deep_view()),
        }
    }
}

impl Serialize for UpdateAuthority {
    open spec fn vwire(v: UpdateAuthorityView) -> Seq<u8> {
        update_authority_wire(v)
    }

    open spec fn vencodable(v: UpdateAuthorityView) -> bool {
        update_authority_encodable(v)
    }

    fn serialize_to(&self, buffer: &mut Vec<u8>, pos: usize) -> (r: Result<
        usize,
        CodecError,
    >) {
        proof {
            assert(<UpdateAuthority as Serialize>::vwire(self.deep_view())
                == update_authority_wire(self.deep_view()));
            assert(<UpdateAuthority as Serialize>::vencodable(self.deep_view())
                == update_authority_encodable(self.deep_view()));
        }
        if pos >= buffer.len() {
            return Err(CodecError::BufferTooSmall);
        }
        match self {
            UpdateAuthority::NoAuthority => {
                buffer[pos] = 0;
                assert(buffer@.subrange(pos as int, pos + 1int) =~= update_authority_wire(
                    self.deep_view(),
                ));
                Ok(1)
            },
            UpdateAuthority::Address(address) => {
                buffer[pos] = 1;
                match address.serialize_to(buffer, pos + 1) {
                    Ok(n) => {
                        assert(buffer@.subrange(pos as int, pos + 1 + n as int)
                            =~= update_authority_wire(self.deep_view()));
                        Ok(1 + n)
                    },
                    Err(e) => Err(e),
                }
            },
            UpdateAuthority::Collection(collection) => {
                buffer[pos] = 2;
                match collection.serialize_to(buffer, pos + 1) {
                    Ok(n) => {
                        assert(buffer@.subrange(pos as int, pos + 1 + n as int)
                            =~= update_authority_wire(self.deep_view()));
                        Ok(1 + n)
                    },
                    Err(e) => Err(e),
                }
            },
        }
    }
}

/// What one update-authority skip step yields: one byte for the empty
/// variant, one plus an identity for the other two.
pub open spec fn sskip_update_authority(bytes: Seq<u8>) -> Result<int, CodecError> {
    if bytes.len() < 1 {
        Err(CodecError::TruncatedInput)
    } else if bytes[0] == 0 {
        Ok(1)
    } else if bytes[0] == 1 || bytes[0] == 2 {
        Ok(1 + PUBKEY_LEN as int)
    } else {
        Err(CodecError::UnrecognizedTag)
    }
}

impl Skip for UpdateAuthority {
    open spec fn sskip(bytes: Seq<u8>) -> Result<int, CodecError> {
        sskip_update_authority(bytes)
    }

    fn skip_bytes(bytes: &[u8]) -> (r: Result<usize, CodecError>) {
        if bytes.len() < 1 {
            return Err(CodecError::TruncatedInput);
        }
        let disc = *vstd::slice::slice_index_get(bytes, 0);
        match disc {
            0 => Ok(1),
            1 => Ok(1 + PUBKEY_LEN),
            2 => Ok(1 + PUBKEY_LEN),
            _ => Err(CodecError::UnrecognizedTag),
        }
    }
}

/// The skip table agrees with the encoder: skipping an encoded update
/// authority reports exactly the encoding's length.
pub proof fn lemma_update_authority_skip_agrees(v: UpdateAuthorityView, rest: Seq<u8>)
    requires
        update_authority_encodable(v),
    ensures
        sskip_update_authority(update_authority_wire(v) + rest) == Ok::<int, CodecError>(
            update_authority_wire(v).len() as int,
        ),
{
    match v {
        UpdateAuthorityView::NoAuthority => {
            assert((update_authority_wire(v) + rest)[0] == 0);
        },
        UpdateAuthorityView::Address(a) => {
            assert((update_authority_wire(v) + rest)[0] == 1);
        },
        UpdateAuthorityView::Collection(a) => {
            assert((update_authority_wire(v) + rest)[0] == 2);
        },
    }
}

/// An attachable capability record. Each variant either carries its own
/// payload or is a bare tag.
pub enum Plugin {
    Royalties(Royalties),
    FreezeDelegate(FreezeDelegate),
    BurnDelegate,
    TransferDelegate,
    UpdateDelegate(UpdateDelegate),
    PermanentFreezeDelegate(PermanentFreezeDelegate),
    Attributes(Attributes),
    PermanentTransferDelegate,
    PermanentBurnDelegate,
    Edition(Edition),
    MasterEdition(MasterEdition),
    AddBlocker,
    ImmutableMetadata,
    VerifiedCreators(VerifiedCreators),
    Autograph(Autograph),
    BubblegumV2,
    FreezeExecute(FreezeExecute),
    PermanentFreezeExecute(PermanentFreezeExecute),
}

/// The mathematical value of a [`Plugin`].
#[verifier::ext_equal]
pub ghost enum PluginView {
    Royalties(RoyaltiesView),
    FreezeDelegate(FreezeDelegate),
    BurnDelegate,
    TransferDelegate,
    UpdateDelegate(UpdateDelegateView),
    PermanentFreezeDelegate(PermanentFreezeDelegate),
    Attributes(AttributesView),
    PermanentTransferDelegate,
    PermanentBurnDelegate,
    Edition(Edition),
    MasterEdition(MasterEditionView),
    AddBlocker,
    ImmutableMetadata,
    VerifiedCreators(VerifiedCreatorsView),
    Autograph(AutographView),
    BubblegumV2,
    FreezeExecute(FreezeExecute),
    PermanentFreezeExecute(PermanentFreezeExecute),
}

/// The plugin-type number of each variant. It doubles as the tag byte of
/// the plugin's own encoding and as the type byte of its registry record.
pub open spec fn plugin_disc(v: PluginView) -> u8 {
    match v {
        PluginView::Royalties(_) => 0,
        PluginView::FreezeDelegate(_) => 1,
        PluginView::BurnDelegate => 2,
        PluginView::TransferDelegate => 3,
        PluginView::UpdateDelegate(_) => 4,
        PluginView::PermanentFreezeDelegate(_) => 5,
        PluginView::Attributes(_) => 6,
        PluginView::PermanentTransferDelegate => 7,
        PluginView::PermanentBurnDelegate => 8,
        PluginView::Edition(_) => 9,
        PluginView::MasterEdition(_) => 10,
        PluginView::AddBlocker => 11,
        PluginView::ImmutableMetadata => 12,
        PluginView::VerifiedCreators(_) => 13,
        PluginView::Autograph(_) => 14,
        PluginView::BubblegumV2 => 15,
        PluginView::FreezeExecute(_) => 16,
        PluginView::PermanentFreezeExecute(_) => 17,
    }
}

/// The bytes that follow a plugin's tag: the variant's payload, empty for
/// the bare-tag variants.
pub open spec fn plugin_payload_wire(v: PluginView) -> Seq<u8> {
    match v {
        PluginView::Royalties(p) => royalties_wire(p),
        PluginView::FreezeDelegate(p) => enc_bool(p.frozen),
        PluginView::BurnDelegate => Seq::empty(),
        PluginView::TransferDelegate => Seq::empty(),
        PluginView::UpdateDelegate(p) => seq_wire::<Pubkey>(p.additional_delegates),
        PluginView::PermanentFreezeDelegate(p) => enc_bool(p.frozen),
        PluginView::Attributes(p) => seq_wire::<Attribute>(p.attribute_list),
        PluginView::PermanentTransferDelegate => Seq::empty(),
        PluginView::PermanentBurnDelegate => Seq::empty(),
        PluginView::Edition(p) => vstd::bytes::spec_u32_to_le_bytes(p.number),
        PluginView::MasterEdition(p) => <MasterEdition as Serialize>::vwire(p),
        PluginView::AddBlocker => Seq::empty(),
        PluginView::ImmutableMetadata => Seq::empty(),
        PluginView::VerifiedCreators(p) => seq_wire::<VerifiedCreatorsSignature>(p.signatures),
        PluginView::Autograph(p) => seq_wire::<AutographSignature>(p.signatures),
        PluginView::BubblegumV2 => Seq::empty(),
        PluginView::FreezeExecute(p) => enc_bool(p.frozen),
        PluginView::PermanentFreezeExecute(p) => enc_bool(p.frozen),
    }
}

/// A plugin is its type byte followed by its payload.
pub open spec fn plugin_wire(v: PluginView) -> Seq<u8> {
    seq![plugin_disc(v)] + plugin_payload_wire(v)
}

/// Whether a plugin can be carried.
pub open spec fn plugin_encodable(v: PluginView) -> bool {
    match v {
        PluginView::Royalties(p) => royalties_encodable(p),
        PluginView::UpdateDelegate(p) => seq_encodable::<Pubkey>(p.additional_delegates),
        PluginView::Attributes(p) => seq_encodable::<Attribute>(p.attribute_list),
        PluginView::MasterEdition(p) => <MasterEdition as Serialize>::vencodable(p),
        PluginView::VerifiedCreators(p) => seq_encodable::<VerifiedCreatorsSignature>(
            p.signatures,
        ),
        PluginView::Autograph(p) => seq_encodable::<AutographSignature>(p.signatures),
        _ => true,
    }
}

impl DeepView for Plugin {
    type V = PluginView;

    open spec fn deep_view(&self) -> PluginView {
        match self {
            Plugin::Royalties(p) => PluginView::Royalties(p.deep_view()),
            Plugin::FreezeDelegate(p) => PluginView::FreezeDelegate(*p),
            Plugin::BurnDelegate => PluginView::BurnDelegate,
            Plugin::TransferDelegate => PluginView::TransferDelegate,
            Plugin::UpdateDelegate(p) => PluginView::UpdateDelegate(p.deep_view()),
            Plugin::PermanentFreezeDelegate(p) => PluginView::PermanentFreezeDelegate(*p),
            Plugin::Attributes(p) => PluginView::Attributes(p.deep_view()),
            Plugin::PermanentTransferDelegate => PluginView::PermanentTransferDelegate,
            Plugin::PermanentBurnDelegate => PluginView::PermanentBurnDelegate,
            Plugin::Edition(p) => PluginView::Edition(*p),
            Plugin::MasterEdition(p) => PluginView::MasterEdition(p.deep_view()),
            Plugin::AddBlocker => PluginView::AddBlocker,
            Plugin::ImmutableMetadata => PluginView::ImmutableMetadata,
            Plugin::VerifiedCreators(p) => PluginView::VerifiedCreators(p.deep_view()),
            Plugin::Autograph(p) => PluginView::Autograph(p.deep_view()),
            Plugin::BubblegumV2 => PluginView::BubblegumV2,
            Plugin::FreezeExecute(p) => PluginView::FreezeExecute(*p),
            Plugin::PermanentFreezeExecute(p) => PluginView::PermanentFreezeExecute(*p),
        }
    }
}

impl Plugin {
    /// The plugin-type number recorded in a registry record for this
    /// plugin: the same number that tags its own encoding.
    pub fn get_plugin_number(&self) -> (r: u8)
        ensures
            r == plugin_disc(self.deep_view()),
    {
        match self {
            Plugin::Royalties(_) => 0,
            Plugin::FreezeDelegate(_) => 1,
            Plugin::BurnDelegate => 2,
            Plugin::TransferDelegate => 3,
            Plugin::UpdateDelegate(_) => 4,
            Plugin::PermanentFreezeDelegate(_) => 5,
            Plugin::Attributes(_) => 6,
            Plugin::PermanentTransferDelegate => 7,
            Plugin::PermanentBurnDelegate => 8,
            Plugin::Edition(_) => 9,
            Plugin::MasterEdition(_) => 10,
            Plugin::AddBlocker => 11,
            Plugin::ImmutableMetadata => 12,
            Plugin::VerifiedCreators(_) => 13,
            Plugin::Autograph(_) => 14,
            Plugin::BubblegumV2 => 15,
            Plugin::FreezeExecute(_) => 16,
            Plugin::PermanentFreezeExecute(_) => 17,
        }
    }
}

impl Serialize for Plugin {
    open spec fn vwire(v: PluginView) -> Seq<u8> {
        plugin_wire(v)
    }

    open spec fn vencodable(v: PluginView) -> bool {
        plugin_encodable(v)
    }

    #[verifier::rlimit(100)]
    #[verifier::spinoff_prover]
    fn serialize_to(&self, buffer: &mut Vec<u8>, pos: usize) -> (r: Result<
        usize,
        CodecError,
    >) {
        proof {
            assert(<Plugin as Serialize>::vwire(self.deep_view()) == plugin_wire(
                self.deep_view(),
            ));
            assert(<Plugin as Serialize>::vencodable(self.deep_view()) == plugin_encodable(
                self.deep_view(),
            ));
        }
        if pos >= buffer.len() {
            return Err(CodecError::BufferTooSmall);
        }
        let tag = self.get_plugin_number();
        buffer[pos] = tag;
        let ghost v = self.deep_view();
        match self {
            Plugin::Royalties(p) => {
                match p.serialize_to(buffer, pos + 1) {
                    Ok(n) => {
                        assert(buffer@.subrange(pos as int, pos + 1 + n as int) =~= plugin_wire(v));
                        Ok(1 + n)
                    },
                    Err(e) => Err(e),
                }
            },
            Plugin::FreezeDelegate(p) => {
                match p.serialize_to(buffer, pos + 1) {
                    Ok(n) => {
                        assert(buffer@.subrange(pos as int, pos + 1 + n as int) =~= plugin_wire(v));
                        Ok(1 + n)
                    },
                    Err(e) => Err(e),
                }
            },
            Plugin::BurnDelegate => {
                assert(buffer@.subrange(pos as int, pos + 1int) =~= plugin_wire(v));
                Ok(1)
            },
            Plugin::TransferDelegate => {
                assert(buffer@.subrange(pos as int, pos + 1int) =~= plugin_wire(v));
                Ok(1)
            },
            Plugin::UpdateDelegate(p) => {
                match p.serialize_to(buffer, pos + 1) {
                    Ok(n) => {
                        assert(buffer@.subrange(pos as int, pos + 1 + n as int) =~= plugin_wire(v));
                        Ok(1 + n)
                    },
                    Err(e) => Err(e),
                }
            },
            Plugin::PermanentFreezeDelegate(p) => {
                match p.serialize_to(buffer, pos + 1) {
                    Ok(n) => {
                        assert(buffer@.subrange(pos as int, pos + 1 + n as int) =~= plugin_wire(v));
                        Ok(1 + n)
                    },
                    Err(e) => Err(e),
                }
            },
            Plugin::Attributes(p) => {
                match p.serialize_to(buffer, pos + 1) {
                    Ok(n) => {
                        assert(buffer@.subrange(pos as int, pos + 1 + n as int) =~= plugin_wire(v));
                        Ok(1 + n)
                    },
                    Err(e) => Err(e),
                }
            },
            Plugin::PermanentTransferDelegate => {
                assert(buffer@.subrange(pos as int, pos + 1int) =~= plugin_wire(v));
                Ok(1)
            },
            Plugin::PermanentBurnDelegate => {
                assert(buffer@.subrange(pos as int, pos + 1int) =~= plugin_wire(v));
                Ok(1)
            },
            Plugin::Edition(p) => {
                match p.serialize_to(buffer, pos + 1) {
                    Ok(n) => {
                        assert(buffer@.subrange(pos as int, pos + 1 + n as int) =~= plugin_wire(v));
                        Ok(1 + n)
                    },
                    Err(e) => Err(e),
                }
            },
            Plugin::MasterEdition(p) => {
                match p.serialize_to(buffer, pos + 1) {
                    Ok(n) => {
                        assert(buffer@.subrange(pos as int, pos + 1 + n as int) =~= plugin_wire(v));
                        Ok(1 + n)
                    },
                    Err(e) => Err(e),
                }
            },
            Plugin::AddBlocker => {
                assert(buffer@.subrange(pos as int, pos + 1int) =~= plugin_wire(v));
                Ok(1)
            },
            Plugin::ImmutableMetadata => {
                assert(buffer@.subrange(pos as int, pos + 1int) =~= plugin_wire(v));
                Ok(1)
            },
            Plugin::VerifiedCreators(p) => {
                match p.serialize_to(buffer, pos + 1) {
                    Ok(n) => {
                        assert(buffer@.subrange(pos as int, pos + 1 + n as int) =~= plugin_wire(v));
                        Ok(1 + n)
                    },
                    Err(e) => Err(e),
                }
            },
            Plugin::Autograph(p) => {
                match p.serialize_to(buffer, pos + 1) {
                    Ok(n) => {
                        assert(buffer@.subrange(pos as int, pos + 1 + n as int) =~= plugin_wire(v));
                        Ok(1 + n)
                    },
                    Err(e) => Err(e),
                }
            },
            Plugin::BubblegumV2 => {
                assert(buffer@.subrange(pos as int, pos + 1int) =~= plugin_wire(v));
                Ok(1)
            },
            Plugin::FreezeExecute(p) => {
                match p.serialize_to(buffer, pos + 1) {
                    Ok(n) => {
                        assert(buffer@.subrange(pos as int, pos + 1 + n as int) =~= plugin_wire(v));
                        Ok(1 + n)
                    },
                    Err(e) => Err(e),
                }
            },
            Plugin::PermanentFreezeExecute(p) => {
                match p.serialize_to(buffer, pos + 1) {
                    Ok(n) => {
                        assert(buffer@.subrange(pos as int, pos + 1 + n as int) =~= plugin_wire(v));
                        Ok(1 + n)
                    },
                    Err(e) => Err(e),
                }
            },
        }
    }
}

/// A plugin paired with the authority that may act on it; the authority
/// itself is optional on the wire.
pub struct PluginAuthorityPair {
    pub plugin: Plugin,
    pub authority: Option<PluginAuthority>,
}

/// The mathematical value of a [`PluginAuthorityPair`].
#[verifier::ext_equal]
pub ghost struct PluginAuthorityPairView {
    pub plugin: PluginView,
    pub authority: Option<PluginAuthorityView>,
}

impl DeepView for PluginAuthorityPair {
    type V = PluginAuthorityPairView;

    open spec fn deep_view(&self) -> PluginAuthorityPairView {
        PluginAuthorityPairView {
            plugin: self.plugin.deep_view(),
            authority: self.authority.deep_view(),
        }
    }
}

impl Serialize for PluginAuthorityPair {
    open spec fn vwire(v: PluginAuthorityPairView) -> Seq<u8> {
        plugin_wire(v.plugin) + opt_wire::<PluginAuthority>(v.authority)
    }

    open spec fn vencodable(v: PluginAuthorityPairView) -> bool {
        plugin_encodable(v.plugin) && opt_encodable::<PluginAuthority>(v.authority)
    }

    fn serialize_to(&self, buffer: &mut Vec<u8>, pos: usize) -> (r: Result<
        usize,
        CodecError,
    >) {
        proof {
            assert(<PluginAuthorityPair as Serialize>::vwire(self.deep_view()) == <PluginAuthorityPair as Serialize>::vwire(self.deep_view()));
            assert(<PluginAuthorityPair as Serialize>::vencodable(self.deep_view()) == <PluginAuthorityPair as Serialize>::vencodable(self.deep_view()));
        }
        let blen = buffer.len();
        let ghost v = self.deep_view();
        let n1 = match self.plugin.serialize_to(buffer, pos) {
            Ok(n) => n,
            Err(e) => {
                return Err(e);
            },
        };
        let ghost b1 = buffer@;
        let n2 = match self.authority.serialize_to(buffer, pos + n1) {
            Ok(n) => n,
            Err(e) => {
                return Err(e);
            },
        };
        proof {
            assert(buffer@.subrange(pos as int, pos + n1) =~= b1.subrange(pos as int, pos + n1));
            assert(buffer@.subrange(pos as int, pos + n1 + n2)
                =~= <PluginAuthorityPair as Serialize>::vwire(v));
        }
        Ok(n1 + n2)
    }
}

/// One plugin as it enters an asset hash: its position, its authority and
/// the plugin itself.
pub struct HashablePluginSchema {
    pub index: u64,
    pub authority: PluginAuthority,
    pub plugin: Plugin,
}

/// The mathematical value of a [`HashablePluginSchema`].
#[verifier::ext_equal]
pub ghost struct HashablePluginSchemaView {
    pub index: u64,
    pub authority: PluginAuthorityView,
    pub plugin: PluginView,
}

impl DeepView for HashablePluginSchema {
    type V = HashablePluginSchemaView;

    open spec fn deep_view(&self) -> HashablePluginSchemaView {
        HashablePluginSchemaView {
            index: self.index,
            authority: self.authority.deep_view(),
            plugin: self.plugin.deep_view(),
        }
    }
}

impl Serialize for HashablePluginSchema {
    open spec fn vwire(v: HashablePluginSchemaView) -> Seq<u8> {
        vstd::bytes::spec_u64_to_le_bytes(v.index) + plugin_authority_wire(v.authority)
            + plugin_wire(v.plugin)
    }

    open spec fn vencodable(v: HashablePluginSchemaView) -> bool {
        plugin_authority_encodable(v.authority) && plugin_encodable(v.plugin)
    }

    fn serialize_to(&self, buffer: &mut Vec<u8>, pos: usize) -> (r: Result<
        usize,
        CodecError,
    >) {
        proof {
            assert(<HashablePluginSchema as Serialize>::vwire(self.deep_view()) == <HashablePluginSchema as Serialize>::vwire(self.deep_view()));
            assert(<HashablePluginSchema as Serialize>::vencodable(self.deep_view()) == <HashablePluginSchema as Serialize>::vencodable(self.deep_view()));
        }
        let blen = buffer.len();
        let ghost v = self.deep_view();
        let n1 = match self.index.serialize_to(buffer, pos) {
            Ok(n) => n,
            Err(e) => {
                return Err(e);
            },
        };
        let ghost b1 = buffer@;
        let n2 = match self.authority.serialize_to(buffer, pos + n1) {
            Ok(n) => n,
            Err(e) => {
                return Err(e);
            },
        };
        let ghost b2 = buffer@;
        let n3 = match self.plugin.serialize_to(buffer, pos + n1 + n2) {
            Ok(n) => n,
            Err(e) => {
                return Err(e);
            },
        };
        proof {
            assert(buffer@.subrange(pos as int, pos + n1) =~= b1.subrange(pos as int, pos + n1));
            assert(buffer@.subrange(pos + n1, pos + n1 + n2) =~= b2.subrange(
                pos + n1,
                pos + n1 + n2,
            ));
            assert(buffer@.subrange(pos as int, pos + n1 + n2 + n3)
                =~= <HashablePluginSchema as Serialize>::vwire(v));
        }
        Ok(n1 + n2 + n3)
    }
}

/// Everything needed to re-derive a compressed asset's hash: the base
/// fields and the ordered plugin schemas.
pub struct CompressionProof {
    pub owner: Pubkey,
    pub update_authority: UpdateAuthority,
    pub name: Vec<u8>,
    pub uri: Vec<u8>,
    pub seq: u64,
    pub plugins: Vec<HashablePluginSchema>,
}

/// The mathematical value of a [`CompressionProof`].
#[verifier::ext_equal]
pub ghost struct CompressionProofView {
    pub owner: Seq<u8>,
    pub update_authority: UpdateAuthorityView,
    pub name: Seq<u8>,
    pub uri: Seq<u8>,
    pub seq: u64,
    pub plugins: Seq<HashablePluginSchemaView>,
}

impl DeepView for CompressionProof {
    type V = CompressionProofView;

    open spec fn deep_view(&self) -> CompressionProofView {
        CompressionProofView {
            owner: self.owner.deep_view(),
            update_authority: self.update_authority.deep_view(),
            name: self.name.deep_view(),
            uri: self.uri.deep_view(),
            seq: self.seq,
            plugins: self.plugins.deep_view(),
        }
    }
}

impl Serialize for CompressionProof {
    open spec fn vwire(v: CompressionProofView) -> Seq<u8> {
        v.owner + update_authority_wire(v.update_authority) + seq_wire::<u8>(v.name)
            + seq_wire::<u8>(v.uri) + vstd::bytes::spec_u64_to_le_bytes(v.seq) + seq_wire::<
            HashablePluginSchema,
        >(v.plugins)
    }

    open spec fn vencodable(v: CompressionProofView) -> bool {
        v.owner.len() == PUBKEY_LEN && update_authority_encodable(v.update_authority)
            && v.name.len() < crate::serialize::count_limit() && v.uri.len()
            < crate::serialize::count_limit() && seq_encodable::<HashablePluginSchema>(v.plugins)
    }

    #[verifier::rlimit(60)]
    #[verifier::spinoff_prover]
    fn serialize_to(&self, buffer: &mut Vec<u8>, pos: usize) -> (r: Result<
        usize,
        CodecError,
    >) {
        proof {
            assert(<CompressionProof as Serialize>::vwire(self.deep_view()) == <CompressionProof as Serialize>::vwire(self.deep_view()));
            assert(<CompressionProof as Serialize>::vencodable(self.deep_view()) == <CompressionProof as Serialize>::vencodable(self.deep_view()));
        }
        let blen = buffer.len();
        let ghost v = self.deep_view();
        let n1 = match self.owner.serialize_to(buffer, pos) {
            Ok(n) => n,
            Err(e) => {
                return Err(e);
            },
        };
        let ghost b1 = buffer@;
        let n2 = match self.update_authority.serialize_to(buffer, pos + n1) {
            Ok(n) => n,
            Err(e) => {
                return Err(e);
            },
        };
        let ghost b2 = buffer@;
        let n3 = match self.name.serialize_to(buffer, pos + n1 + n2) {
            Ok(n) => n,
            Err(e) => {
                return Err(e);
            },
        };
        let ghost b3 = buffer@;
        let n4 = match self.uri.serialize_to(buffer, pos + n1 + n2 + n3) {
            Ok(n) => n,
            Err(e) => {
                return Err(e);
            },
        };
        let ghost b4 = buffer@;
        let n5 = match self.seq.serialize_to(buffer, pos + n1 + n2 + n3 + n4) {
            Ok(n) => n,
            Err(e) => {
                return Err(e);
            },
        };
        let ghost b5 = buffer@;
        let n6 = match self.plugins.serialize_to(buffer, pos + n1 + n2 + n3 + n4 + n5) {
            Ok(n) => n,
            Err(e) => {
                return Err(e);
            },
        };
        proof {
            assert(buffer@.subrange(pos as int, pos + n1) =~= b1.subrange(pos as int, pos + n1));
            assert(buffer@.subrange(pos + n1, pos + n1 + n2) =~= b2.subrange(
                pos + n1,
                pos + n1 + n2,
            ));
            assert(buffer@.subrange(pos + n1 + n2, pos + n1 + n2 + n3) =~= b3.subrange(
                pos + n1 + n2,
                pos + n1 + n2 + n3,
            ));
            assert(buffer@.subrange(pos + n1 + n2 + n3, pos + n1 + n2 + n3 + n4) =~= b4.subrange(
                pos + n1 + n2 + n3,
                pos + n1 + n2 + n3 + n4,
            ));
            assert(buffer@.subrange(pos + n1 + n2 + n3 + n4, pos + n1 + n2 + n3 + n4 + n5)
                =~= b5.subrange(pos + n1 + n2 + n3 + n4, pos + n1 + n2 + n3 + n4 + n5));
            assert(buffer@.subrange(pos as int, pos + n1 + n2 + n3 + n4 + n5 + n6)
                =~= <CompressionProof as Serialize>::vwire(v));
        }
        Ok(n1 + n2 + n3 + n4 + n5 + n6)
    }
}

impl Decode for Creator {
    open spec fn vdec(bytes: Seq<u8>) -> Result<(CreatorView, int), CodecError> {
        match <Pubkey as Decode>::vdec(bytes) {
            Err(e) => Err(e),
            Ok((f1, n1)) => {
                if !(0 <= n1 && n1 <= bytes.len()) {
                    Err(CodecError::TruncatedInput)
                } else {
                        match <u8 as Decode>::vdec(bytes.skip(n1)) {
                            Err(e) => Err(e),
                            Ok((f2, n2)) => {
                                Ok((CreatorView { address: f1, percentage: f2 }, n1 + n2))
                            },
                        }
                }
            },
        }
    }

    proof fn lemma_round_trip(v: CreatorView, rest: Seq<u8>) {
        let w1 = <Pubkey as Serialize>::vwire(v.address);
        let w2 = <u8 as Serialize>::vwire(v.percentage);
        let r2 = rest;
        let r1 = w2 + r2;
        assert(<Creator as Serialize>::vwire(v) == w1 + w2);
        let b = <Creator as Serialize>::vwire(v) + rest;
        assert(b =~= w1 + r1);
        <Pubkey as Decode>::lemma_round_trip(v.address, r1);
        assert(b.skip((w1.len()) as int) =~= r1);
        <u8 as Decode>::lemma_round_trip(v.percentage, r2);
        assert(CreatorView { address: v.address, percentage: v.percentage } =~= v);
    }
}

impl Decode for Royalties {
    open spec fn vdec(bytes: Seq<u8>) -> Result<(RoyaltiesView, int), CodecError> {
        match <u16 as Decode>::vdec(bytes) {
            Err(e) => Err(e),
            Ok((f1, n1)) => {
                if !(0 <= n1 && n1 <= bytes.len()) {
                    Err(CodecError::TruncatedInput)
                } else {
                        match <Vec<Creator> as Decode>::vdec(bytes.skip(n1)) {
                            Err(e) => Err(e),
                            Ok((f2, n2)) => {
                                if !(0 <= n2 && n1 + n2 <= bytes.len()) {
                                    Err(CodecError::TruncatedInput)
                                } else {
                                        match <RuleSet as Decode>::vdec(bytes.skip(n1 + n2)) {
                                            Err(e) => Err(e),
                                            Ok((f3, n3)) => {
                                                Ok((RoyaltiesView { basis_points: f1, creators: f2, rule_set: f3 }, n1 + n2 + n3))
                                            },
                                        }
                                }
                            },
                        }
                }
            },
        }
    }

    #[verifier::rlimit(60)]
    #[verifier::spinoff_prover]
    proof fn lemma_round_trip(v: RoyaltiesView, rest: Seq<u8>) {
        let w1 = <u16 as Serialize>::vwire(v.basis_points);
        let w2 = <Vec<Creator> as Serialize>::vwire(v.creators);
        let w3 = <RuleSet as Serialize>::vwire(v.rule_set);
        let r3 = rest;
        let r2 = w3 + r3;
        let r1 = w2 + r2;
        assert(<Royalties as Serialize>::vwire(v) == w1 + w2 + w3);
        let b = <Royalties as Serialize>::vwire(v) + rest;
        assert(b =~= w1 + r1);
        <u16 as Decode>::lemma_round_trip(v.basis_points, r1);
        assert(b.skip((w1.len()) as int) =~= r1);
        <Vec<Creator> as Decode>::lemma_round_trip(v.creators, r2);
        assert(b.skip((w1.len() + w2.len()) as int) =~= r2);
        <RuleSet as Decode>::lemma_round_trip(v.rule_set, r3);
        assert(RoyaltiesView { basis_points: v.basis_points, creators: v.creators, rule_set: v.rule_set } =~= v);
    }
}

impl Decode for FreezeDelegate {
    open spec fn vdec(bytes: Seq<u8>) -> Result<(FreezeDelegate, int), CodecError> {
        match sdec_bool(bytes) {
            Err(e) => Err(e),
            Ok((b, n)) => Ok((FreezeDelegate { frozen: b }, n)),
        }
    }

    proof fn lemma_round_trip(v: FreezeDelegate, rest: Seq<u8>) {
        <bool as Decode>::lemma_round_trip(v.frozen, rest);
    }
}

impl Decode for PermanentFreezeDelegate {
    open spec fn vdec(bytes: Seq<u8>) -> Result<(PermanentFreezeDelegate, int), CodecError> {
        match sdec_bool(bytes) {
            Err(e) => Err(e),
            Ok((b, n)) => Ok((PermanentFreezeDelegate { frozen: b }, n)),
        }
    }

    proof fn lemma_round_trip(v: PermanentFreezeDelegate, rest: Seq<u8>) {
        <bool as Decode>::lemma_round_trip(v.frozen, rest);
    }
}

impl Decode for FreezeExecute {
    open spec fn vdec(bytes: Seq<u8>) -> Result<(FreezeExecute, int), CodecError> {
        match sdec_bool(bytes) {
            Err(e) => Err(e),
            Ok((b, n)) => Ok((FreezeExecute { frozen: b }, n)),
        }
    }

    proof fn lemma_round_trip(v: FreezeExecute, rest: Seq<u8>) {
        <bool as Decode>::lemma_round_trip(v.frozen, rest);
    }
}

impl Decode for PermanentFreezeExecute {
    open spec fn vdec(bytes: Seq<u8>) -> Result<(PermanentFreezeExecute, int), CodecError> {
        match sdec_bool(bytes) {
            Err(e) => Err(e),
            Ok((b, n)) => Ok((PermanentFreezeExecute { frozen: b }, n)),
        }
    }

    proof fn lemma_round_trip(v: PermanentFreezeExecute, rest: Seq<u8>) {
        <bool as Decode>::lemma_round_trip(v.frozen, rest);
    }
}

impl Decode for UpdateDelegate {
    open spec fn vdec(bytes: Seq<u8>) -> Result<(UpdateDelegateView, int), CodecError> {
        match <Vec<Pubkey> as Decode>::vdec(bytes) {
            Err(e) => Err(e),
            Ok((ks, n)) => Ok((UpdateDelegateView { additional_delegates: ks }, n)),
        }
    }

    proof fn lemma_round_trip(v: UpdateDelegateView, rest: Seq<u8>) {
        <Vec<Pubkey> as Decode>::lemma_round_trip(v.additional_delegates, rest);
        assert(UpdateDelegateView { additional_delegates: v.additional_delegates } =~= v);
    }
}

impl Decode for Attribute {
    open spec fn vdec(bytes: Seq<u8>) -> Result<(AttributeView, int), CodecError> {
        match <Vec<u8> as Decode>::vdec(bytes) {
            Err(e) => Err(e),
            Ok((f1, n1)) => {
                if !(0 <= n1 && n1 <= bytes.len()) {
                    Err(CodecError::TruncatedInput)
                } else {
                        match <Vec<u8> as Decode>::vdec(bytes.skip(n1)) {
                            Err(e) => Err(e),
                            Ok((f2, n2)) => {
                                Ok((AttributeView { key: f1, value: f2 }, n1 + n2))
                            },
                        }
                }
            },
        }
    }

    proof fn lemma_round_trip(v: AttributeView, rest: Seq<u8>) {
        let w1 = <Vec<u8> as Serialize>::vwire(v.key);
        let w2 = <Vec<u8> as Serialize>::vwire(v.value);
        let r2 = rest;
        let r1 = w2 + r2;
        assert(<Attribute as Serialize>::vwire(v) == w1 + w2);
        let b = <Attribute as Serialize>::vwire(v) + rest;
        assert(b =~= w1 + r1);
        <Vec<u8> as Decode>::lemma_round_trip(v.key, r1);
        assert(b.skip((w1.len()) as int) =~= r1);
        <Vec<u8> as Decode>::lemma_round_trip(v.value, r2);
        assert(AttributeView { key: v.key, value: v.value } =~= v);
    }
}

impl Decode for Attributes {
    open spec fn vdec(bytes: Seq<u8>) -> Result<(AttributesView, int), CodecError> {
        match <Vec<Attribute> as Decode>::vdec(bytes) {
            Err(e) => Err(e),
            Ok((al, n)) => Ok((AttributesView { attribute_list: al }, n)),
        }
    }

    proof fn lemma_round_trip(v: AttributesView, rest: Seq<u8>) {
        <Vec<Attribute> as Decode>::lemma_round_trip(v.attribute_list, rest);
        assert(AttributesView { attribute_list: v.attribute_list } =~= v);
    }
}

impl Decode for Edition {
    open spec fn vdec(bytes: Seq<u8>) -> Result<(Edition, int), CodecError> {
        match sdec_u32(bytes) {
            Err(e) => Err(e),
            Ok((x, n)) => Ok((Edition { number: x }, n)),
        }
    }

    proof fn lemma_round_trip(v: Edition, rest: Seq<u8>) {
        <u32 as Decode>::lemma_round_trip(v.number, rest);
    }
}

impl Decode for MasterEdition {
    open spec fn vdec(bytes: Seq<u8>) -> Result<(MasterEditionView, int), CodecError> {
        match <Option<u32> as Decode>::vdec(bytes) {
            Err(e) => Err(e),
            Ok((f1, n1)) => {
                if !(0 <= n1 && n1 <= bytes.len()) {
                    Err(CodecError::TruncatedInput)
                } else {
                        match <Option<Vec<u8>> as Decode>::vdec(bytes.skip(n1)) {
                            Err(e) => Err(e),
                            Ok((f2, n2)) => {
                                if !(0 <= n2 && n1 + n2 <= bytes.len()) {
                                    Err(CodecError::TruncatedInput)
                                } else {
                                        match <Option<Vec<u8>> as Decode>::vdec(bytes.skip(n1 + n2)) {
                                            Err(e) => Err(e),
                                            Ok((f3, n3)) => {
                                                Ok((MasterEditionView { max_supply: f1, name: f2, uri: f3 }, n1 + n2 + n3))
                                            },
                                        }
                                }
                            },
                        }
                }
            },
        }
    }

    #[verifier::rlimit(60)]
    #[verifier::spinoff_prover]
    proof fn lemma_round_trip(v: MasterEditionView, rest: Seq<u8>) {
        let w1 = <Option<u32> as Serialize>::vwire(v.max_supply);
        let w2 = <Option<Vec<u8>> as Serialize>::vwire(v.name);
        let w3 = <Option<Vec<u8>> as Serialize>::vwire(v.uri);
        let r3 = rest;
        let r2 = w3 + r3;
        let r1 = w2 + r2;
        assert(<MasterEdition as Serialize>::vwire(v) == w1 + w2 + w3);
        let b = <MasterEdition as Serialize>::vwire(v) + rest;
        assert(b =~= w1 + r1);
        <Option<u32> as Decode>::lemma_round_trip(v.max_supply, r1);
        assert(b.skip((w1.len()) as int) =~= r1);
        <Option<Vec<u8>> as Decode>::lemma_round_trip(v.name, r2);
        assert(b.skip((w1.len() + w2.len()) as int) =~= r2);
        <Option<Vec<u8>> as Decode>::lemma_round_trip(v.uri, r3);
        assert(MasterEditionView { max_supply: v.max_supply, name: v.name, uri: v.uri } =~= v);
    }
}

impl Decode for VerifiedCreatorsSignature {
    open spec fn vdec(bytes: Seq<u8>) -> Result<(VerifiedCreatorsSignatureView, int), CodecError> {
        match <Pubkey as Decode>::vdec(bytes) {
            Err(e) => Err(e),
            Ok((f1, n1)) => {
                if !(0 <= n1 && n1 <= bytes.len()) {
                    Err(CodecError::TruncatedInput)
                } else {
                        match <bool as Decode>::vdec(bytes.skip(n1)) {
                            Err(e) => Err(e),
                            Ok((f2, n2)) => {
                                Ok((VerifiedCreatorsSignatureView { address: f1, verified: f2 }, n1 + n2))
                            },
                        }
                }
            },
        }
    }

    proof fn lemma_round_trip(v: VerifiedCreatorsSignatureView, rest: Seq<u8>) {
        let w1 = <Pubkey as Serialize>::vwire(v.address);
        let w2 = <bool as Serialize>::vwire(v.verified);
        let r2 = rest;
        let r1 = w2 + r2;
        assert(<VerifiedCreatorsSignature as Serialize>::vwire(v) == w1 + w2);
        let b = <VerifiedCreatorsSignature as Serialize>::vwire(v) + rest;
        assert(b =~= w1 + r1);
        <Pubkey as Decode>::lemma_round_trip(v.address, r1);
        assert(b.skip((w1.len()) as int) =~= r1);
        <bool as Decode>::lemma_round_trip(v.verified, r2);
        assert(VerifiedCreatorsSignatureView { address: v.address, verified: v.verified } =~= v);
    }
}

impl Decode for VerifiedCreators {
    open spec fn vdec(bytes: Seq<u8>) -> Result<(VerifiedCreatorsView, int), CodecError> {
        match <Vec<VerifiedCreatorsSignature> as Decode>::vdec(bytes) {
            Err(e) => Err(e),
            Ok((sigs, n)) => Ok((VerifiedCreatorsView { signatures: sigs }, n)),
        }
    }

    proof fn lemma_round_trip(v: VerifiedCreatorsView, rest: Seq<u8>) {
        <Vec<VerifiedCreatorsSignature> as Decode>::lemma_round_trip(v.signatures, rest);
        assert(VerifiedCreatorsView { signatures: v.signatures } =~= v);
    }
}

impl Decode for AutographSignature {
    open spec fn vdec(bytes: Seq<u8>) -> Result<(AutographSignatureView, int), CodecError> {
        match <Pubkey as Decode>::vdec(bytes) {
            Err(e) => Err(e),
            Ok((f1, n1)) => {
                if !(0 <= n1 && n1 <= bytes.len()) {
                    Err(CodecError::TruncatedInput)
                } else {
                        match <Vec<u8> as Decode>::vdec(bytes.skip(n1)) {
                            Err(e) => Err(e),
                            Ok((f2, n2)) => {
                                Ok((AutographSignatureView { address: f1, message: f2 }, n1 + n2))
                            },
                        }
                }
            },
        }
    }

    proof fn lemma_round_trip(v: AutographSignatureView, rest: Seq<u8>) {
        let w1 = <Pubkey as Serialize>::vwire(v.address);
        let w2 = <Vec<u8> as Serialize>::vwire(v.message);
        let r2 = rest;
        let r1 = w2 + r2;
        assert(<AutographSignature as Serialize>::vwire(v) == w1 + w2);
        let b = <AutographSignature as Serialize>::vwire(v) + rest;
        assert(b =~= w1 + r1);
        <Pubkey as Decode>::lemma_round_trip(v.address, r1);
        assert(b.skip((w1.len()) as int) =~= r1);
        <Vec<u8> as Decode>::lemma_round_trip(v.message, r2);
        assert(AutographSignatureView { address: v.address, message: v.message } =~= v);
    }
}

impl Decode for Autograph {
    open spec fn vdec(bytes: Seq<u8>) -> Result<(AutographView, int), CodecError> {
        match <Vec<AutographSignature> as Decode>::vdec(bytes) {
            Err(e) => Err(e),
            Ok((sigs, n)) => Ok((AutographView { signatures: sigs }, n)),
        }
    }

    proof fn lemma_round_trip(v: AutographView, rest: Seq<u8>) {
        <Vec<AutographSignature> as Decode>::lemma_round_trip(v.signatures, rest);
        assert(AutographView { signatures: v.signatures } =~= v);
    }
}


impl Decode for RuleSet {
    open spec fn vdec(bytes: Seq<u8>) -> Result<(RuleSetView, int), CodecError> {
        if bytes.len() < 1 {
            Err(CodecError::TruncatedInput)
        } else if bytes[0] == 0 {
            Ok((RuleSetView::NoRule, 1))
        } else if bytes[0] == 1 {
            match <Vec<Pubkey> as Decode>::vdec(bytes.skip(1)) {
                Err(e) => Err(e),
                Ok((ks, n)) => Ok((RuleSetView::ProgramAllowList(ks), 1 + n)),
            }
        } else if bytes[0] == 2 {
            match <Vec<Pubkey> as Decode>::vdec(bytes.skip(1)) {
                Err(e) => Err(e),
                Ok((ks, n)) => Ok((RuleSetView::ProgramDenyList(ks), 1 + n)),
            }
        } else {
            Err(CodecError::UnrecognizedTag)
        }
    }

    proof fn lemma_round_trip(v: RuleSetView, rest: Seq<u8>) {
        let w = <RuleSet as Serialize>::vwire(v);
        match v {
            RuleSetView::NoRule => {
                assert((w + rest)[0] == 0);
            },
            RuleSetView::ProgramAllowList(ks) => {
                assert((w + rest)[0] == 1);
                assert((w + rest).skip(1) =~= seq_wire::<Pubkey>(ks) + rest);
                <Vec<Pubkey> as Decode>::lemma_round_trip(ks, rest);
            },
            RuleSetView::ProgramDenyList(ks) => {
                assert((w + rest)[0] == 2);
                assert((w + rest).skip(1) =~= seq_wire::<Pubkey>(ks) + rest);
                <Vec<Pubkey> as Decode>::lemma_round_trip(ks, rest);
            },
        }
    }
}

impl Decode for PluginAuthority {
    open spec fn vdec(bytes: Seq<u8>) -> Result<(PluginAuthorityView, int), CodecError> {
        if bytes.len() < 1 {
            Err(CodecError::TruncatedInput)
        } else if bytes[0] == 0 {
            Ok((PluginAuthorityView::NoAuthority, 1))
        } else if bytes[0] == 1 {
            Ok((PluginAuthorityView::Owner, 1))
        } else if bytes[0] == 2 {
            Ok((PluginAuthorityView::UpdateAuthority, 1))
        } else if bytes[0] == 3 {
            match <Pubkey as Decode>::vdec(bytes.skip(1)) {
                Err(e) => Err(e),
                Ok((a, n)) => Ok((PluginAuthorityView::Address(a), 1 + n)),
            }
        } else {
            Err(CodecError::UnrecognizedTag)
        }
    }

    proof fn lemma_round_trip(v: PluginAuthorityView, rest: Seq<u8>) {
        let w = <PluginAuthority as Serialize>::vwire(v);
        match v {
            PluginAuthorityView::NoAuthority => {
                assert((w + rest)[0] == 0);
            },
            PluginAuthorityView::Owner => {
                assert((w + rest)[0] == 1);
            },
            PluginAuthorityView::UpdateAuthority => {
                assert((w + rest)[0] == 2);
            },
            PluginAuthorityView::Address(a) => {
                assert((w + rest)[0] == 3);
                assert((w + rest).skip(1) =~= a + rest);
                <Pubkey as Decode>::lemma_round_trip(a, rest);
            },
        }
    }
}

impl Decode for UpdateAuthority {
    open spec fn vdec(bytes: Seq<u8>) -> Result<(UpdateAuthorityView, int), CodecError> {
        if bytes.len() < 1 {
            Err(CodecError::TruncatedInput)
        } else if bytes[0] == 0 {
            Ok((UpdateAuthorityView::NoAuthority, 1))
        } else if bytes[0] == 1 {
            match <Pubkey as Decode>::vdec(bytes.skip(1)) {
                Err(e) => Err(e),
                Ok((a, n)) => Ok((UpdateAuthorityView::Address(a), 1 + n)),
            }
        } else if bytes[0] == 2 {
            match <Pubkey as Decode>::vdec(bytes.skip(1)) {
                Err(e) => Err(e),
                Ok((a, n)) => Ok((UpdateAuthorityView::Collection(a), 1 + n)),
            }
        } else {
            Err(CodecError::UnrecognizedTag)
        }
    }

    proof fn lemma_round_trip(v: UpdateAuthorityView, rest: Seq<u8>) {
        let w = <UpdateAuthority as Serialize>::vwire(v);
        match v {
            UpdateAuthorityView::NoAuthority => {
                assert((w + rest)[0] == 0);
            },
            UpdateAuthorityView::Address(a) => {
                assert((w + rest)[0] == 1);
                assert((w + rest).skip(1) =~= a + rest);
                <Pubkey as Decode>::lemma_round_trip(a, rest);
            },
            UpdateAuthorityView::Collection(a) => {
                assert((w + rest)[0] == 2);
                assert((w + rest).skip(1) =~= a + rest);
                <Pubkey as Decode>::lemma_round_trip(a, rest);
            },
        }
    }
}

impl Decode for Plugin {
    open spec fn vdec(bytes: Seq<u8>) -> Result<(PluginView, int), CodecError> {
        if bytes.len() < 1 {
            Err(CodecError::TruncatedInput)
        } else if bytes[0] == 0 {
            match <Royalties as Decode>::vdec(bytes.skip(1)) {
                Err(e) => Err(e),
                Ok((p, n)) => Ok((PluginView::Royalties(p), 1 + n)),
            }
        } else if bytes[0] == 1 {
            match <FreezeDelegate as Decode>::vdec(bytes.skip(1)) {
                Err(e) => Err(e),
                Ok((p, n)) => Ok((PluginView::FreezeDelegate(p), 1 + n)),
            }
        } else if bytes[0] == 2 {
            Ok((PluginView::BurnDelegate, 1))
        } else if bytes[0] == 3 {
            Ok((PluginView::TransferDelegate, 1))
        } else if bytes[0] == 4 {
            match <UpdateDelegate as Decode>::vdec(bytes.skip(1)) {
                Err(e) => Err(e),
                Ok((p, n)) => Ok((PluginView::UpdateDelegate(p), 1 + n)),
            }
        } else if bytes[0] == 5 {
            match <PermanentFreezeDelegate as Decode>::vdec(bytes.skip(1)) {
                Err(e) => Err(e),
                Ok((p, n)) => Ok((PluginView::PermanentFreezeDelegate(p), 1 + n)),
            }
        } else if bytes[0] == 6 {
            match <Attributes as Decode>::vdec(bytes.skip(1)) {
                Err(e) => Err(e),
                Ok((p, n)) => Ok((PluginView::Attributes(p), 1 + n)),
            }
        } else if bytes[0] == 7 {
            Ok((PluginView::PermanentTransferDelegate, 1))
        } else if bytes[0] == 8 {
            Ok((PluginView::PermanentBurnDelegate, 1))
        } else if bytes[0] == 9 {
            match <Edition as Decode>::vdec(bytes.skip(1)) {
                Err(e) => Err(e),
                Ok((p, n)) => Ok((PluginView::Edition(p), 1 + n)),
            }
        } else if bytes[0] == 10 {
            match <MasterEdition as Decode>::vdec(bytes.skip(1)) {
                Err(e) => Err(e),
                Ok((p, n)) => Ok((PluginView::MasterEdition(p), 1 + n)),
            }
        } else if bytes[0] == 11 {
            Ok((PluginView::AddBlocker, 1))
        } else if bytes[0] == 12 {
            Ok((PluginView::ImmutableMetadata, 1))
        } else if bytes[0] == 13 {
            match <VerifiedCreators as Decode>::vdec(bytes.skip(1)) {
                Err(e) => Err(e),
                Ok((p, n)) => Ok((PluginView::VerifiedCreators(p), 1 + n)),
            }
        } else if bytes[0] == 14 {
            match <Autograph as Decode>::vdec(bytes.skip(1)) {
                Err(e) => Err(e),
                Ok((p, n)) => Ok((PluginView::Autograph(p), 1 + n)),
            }
        } else if bytes[0] == 15 {
            Ok((PluginView::BubblegumV2, 1))
        } else if bytes[0] == 16 {
            match <FreezeExecute as Decode>::vdec(bytes.skip(1)) {
                Err(e) => Err(e),
                Ok((p, n)) => Ok((PluginView::FreezeExecute(p), 1 + n)),
            }
        } else if bytes[0] == 17 {
            match <PermanentFreezeExecute as Decode>::vdec(bytes.skip(1)) {
                Err(e) => Err(e),
                Ok((p, n)) => Ok((PluginView::PermanentFreezeExecute(p), 1 + n)),
            }
        } else {
            Err(CodecError::UnrecognizedTag)
        }
    }

    #[verifier::rlimit(100)]
    #[verifier::spinoff_prover]
    proof fn lemma_round_trip(v: PluginView, rest: Seq<u8>) {
        let w = <Plugin as Serialize>::vwire(v);
        match v {
            PluginView::Royalties(p) => {
                assert((w + rest)[0] == 0);
                assert((w + rest).skip(1) =~= <Royalties as Serialize>::vwire(p) + rest);
                <Royalties as Decode>::lemma_round_trip(p, rest);
            },
            PluginView::FreezeDelegate(p) => {
                assert((w + rest)[0] == 1);
                assert((w + rest).skip(1) =~= <FreezeDelegate as Serialize>::vwire(p) + rest);
                <FreezeDelegate as Decode>::lemma_round_trip(p, rest);
            },
            PluginView::BurnDelegate => {
                assert((w + rest)[0] == 2);
            },
            PluginView::TransferDelegate => {
                assert((w + rest)[0] == 3);
            },
            PluginView::UpdateDelegate(p) => {
                assert((w + rest)[0] == 4);
                assert((w + rest).skip(1) =~= <UpdateDelegate as Serialize>::vwire(p) + rest);
                <UpdateDelegate as Decode>::lemma_round_trip(p, rest);
            },
            PluginView::PermanentFreezeDelegate(p) => {
                assert((w + rest)[0] == 5);
                assert((w + rest).skip(1) =~= <PermanentFreezeDelegate as Serialize>::vwire(p) + rest);
                <PermanentFreezeDelegate as Decode>::lemma_round_trip(p, rest);
            },
            PluginView::Attributes(p) => {
                assert((w + rest)[0] == 6);
                assert((w + rest).skip(1) =~= <Attributes as Serialize>::vwire(p) + rest);
                <Attributes as Decode>::lemma_round_trip(p, rest);
            },
            PluginView::PermanentTransferDelegate => {
                assert((w + rest)[0] == 7);
            },
            PluginView::PermanentBurnDelegate => {
                assert((w + rest)[0] == 8);
            },
            PluginView::Edition(p) => {
                assert((w + rest)[0] == 9);
                assert((w + rest).skip(1) =~= <Edition as Serialize>::vwire(p) + rest);
                <Edition as Decode>::lemma_round_trip(p, rest);
            },
            PluginView::MasterEdition(p) => {
                assert((w + rest)[0] == 10);
                assert((w + rest).skip(1) =~= <MasterEdition as Serialize>::vwire(p) + rest);
                <MasterEdition as Decode>::lemma_round_trip(p, rest);
            },
            PluginView::AddBlocker => {
                assert((w + rest)[0] == 11);
            },
            PluginView::ImmutableMetadata => {
                assert((w + rest)[0] == 12);
            },
            PluginView::VerifiedCreators(p) => {
                assert((w + rest)[0] == 13);
                assert((w + rest).skip(1) =~= <VerifiedCreators as Serialize>::vwire(p) + rest);
                <VerifiedCreators as Decode>::lemma_round_trip(p, rest);
            },
            PluginView::Autograph(p) => {
                assert((w + rest)[0] == 14);
                assert((w + rest).skip(1) =~= <Autograph as Serialize>::vwire(p) + rest);
                <Autograph as Decode>::lemma_round_trip(p, rest);
            },
            PluginView::BubblegumV2 => {
                assert((w + rest)[0] == 15);
            },
            PluginView::FreezeExecute(p) => {
                assert((w + rest)[0] == 16);
                assert((w + rest).skip(1) =~= <FreezeExecute as Serialize>::vwire(p) + rest);
                <FreezeExecute as Decode>::lemma_round_trip(p, rest);
            },
            PluginView::PermanentFreezeExecute(p) => {
                assert((w + rest)[0] == 17);
                assert((w + rest).skip(1) =~= <PermanentFreezeExecute as Serialize>::vwire(p) + rest);
                <PermanentFreezeExecute as Decode>::lemma_round_trip(p, rest);
            },
        }
    }
}

impl Decode for PluginAuthorityPair {
    open spec fn vdec(bytes: Seq<u8>) -> Result<(PluginAuthorityPairView, int), CodecError> {
        match <Plugin as Decode>::vdec(bytes) {
            Err(e) => Err(e),
            Ok((f1, n1)) => {
                if !(0 <= n1 && n1 <= bytes.len()) {
                    Err(CodecError::TruncatedInput)
                } else {
                        match <Option<PluginAuthority> as Decode>::vdec(bytes.skip(n1)) {
                            Err(e) => Err(e),
                            Ok((f2, n2)) => {
                                Ok((PluginAuthorityPairView { plugin: f1, authority: f2 }, n1 + n2))
                            },
                        }
                }
            },
        }
    }

    proof fn lemma_round_trip(v: PluginAuthorityPairView, rest: Seq<u8>) {
        let w1 = <Plugin as Serialize>::vwire(v.plugin);
        let w2 = <Option<PluginAuthority> as Serialize>::vwire(v.authority);
        let r2 = rest;
        let r1 = w2 + r2;
        assert(<PluginAuthorityPair as Serialize>::vwire(v) == w1 + w2);
        let b = <PluginAuthorityPair as Serialize>::vwire(v) + rest;
        assert(b =~= w1 + r1);
        <Plugin as Decode>::lemma_round_trip(v.plugin, r1);
        assert(b.skip((w1.len()) as int) =~= r1);
        <Option<PluginAuthority> as Decode>::lemma_round_trip(v.authority, r2);
        assert(PluginAuthorityPairView { plugin: v.plugin, authority: v.authority } =~= v);
    }
}

impl Decode for HashablePluginSchema {
    open spec fn vdec(bytes: Seq<u8>) -> Result<(HashablePluginSchemaView, int), CodecError> {
        match <u64 as Decode>::vdec(bytes) {
            Err(e) => Err(e),
            Ok((f1, n1)) => {
                if !(0 <= n1 && n1 <= bytes.len()) {
                    Err(CodecError::TruncatedInput)
                } else {
                        match <PluginAuthority as Decode>::vdec(bytes.skip(n1)) {
                            Err(e) => Err(e),
                            Ok((f2, n2)) => {
                                if !(0 <= n2 && n1 + n2 <= bytes.len()) {
                                    Err(CodecError::TruncatedInput)
                                } else {
                                        match <Plugin as Decode>::vdec(bytes.skip(n1 + n2)) {
                                            Err(e) => Err(e),
                                            Ok((f3, n3)) => {
                                                Ok((HashablePluginSchemaView { index: f1, authority: f2, plugin: f3 }, n1 + n2 + n3))
                                            },
                                        }
                                }
                            },
                        }
                }
            },
        }
    }

    #[verifier::rlimit(100)]
    #[verifier::spinoff_prover]
    proof fn lemma_round_trip(v: HashablePluginSchemaView, rest: Seq<u8>) {
        let w1 = <u64 as Serialize>::vwire(v.index);
        let w2 = <PluginAuthority as Serialize>::vwire(v.authority);
        let w3 = <Plugin as Serialize>::vwire(v.plugin);
        let r3 = rest;
        let r2 = w3 + r3;
        let r1 = w2 + r2;
        assert(<HashablePluginSchema as Serialize>::vwire(v) == w1 + w2 + w3);
        let b = <HashablePluginSchema as Serialize>::vwire(v) + rest;
        assert(b =~= w1 + r1);
        <u64 as Decode>::lemma_round_trip(v.index, r1);
        assert(b.skip((w1.len()) as int) =~= r1);
        <PluginAuthority as Decode>::lemma_round_trip(v.authority, r2);
        assert(b.skip((w1.len() + w2.len()) as int) =~= r2);
        <Plugin as Decode>::lemma_round_trip(v.plugin, r3);
        assert(HashablePluginSchemaView { index: v.index, authority: v.authority, plugin: v.plugin } =~= v);
    }
}

impl Decode for CompressionProof {
    open spec fn vdec(bytes: Seq<u8>) -> Result<(CompressionProofView, int), CodecError> {
        match <Pubkey as Decode>::vdec(bytes) {
            Err(e) => Err(e),
            Ok((f1, n1)) => {
                if !(0 <= n1 && n1 <= bytes.len()) {
                    Err(CodecError::TruncatedInput)
                } else {
                        match <UpdateAuthority as Decode>::vdec(bytes.skip(n1)) {
                            Err(e) => Err(e),
                            Ok((f2, n2)) => {
                                if !(0 <= n2 && n1 + n2 <= bytes.len()) {
                                    Err(CodecError::TruncatedInput)
                                } else {
                                        match <Vec<u8> as Decode>::vdec(bytes.skip(n1 + n2)) {
                                            Err(e) => Err(e),
                                            Ok((f3, n3)) => {
                                                if !(0 <= n3 && n1 + n2 + n3 <= bytes.len()) {
                                                    Err(CodecError::TruncatedInput)
                                                } else {
                                                        match <Vec<u8> as Decode>::vdec(bytes.skip(n1 + n2 + n3)) {
                                                            Err(e) => Err(e),
                                                            Ok((f4, n4)) => {
                                                                if !(0 <= n4 && n1 + n2 + n3 + n4 <= bytes.len()) {
                                                                    Err(CodecError::TruncatedInput)
                                                                } else {
                                                                        match <u64 as Decode>::vdec(bytes.skip(n1 + n2 + n3 + n4)) {
                                                                            Err(e) => Err(e),
                                                                            Ok((f5, n5)) => {
                                                                                if !(0 <= n5 && n1 + n2 + n3 + n4 + n5 <= bytes.len()) {
                                                                                    Err(CodecError::TruncatedInput)
                                                                                } else {
                                                                                        match <Vec<HashablePluginSchema> as Decode>::vdec(bytes.skip(n1 + n2 + n3 + n4 + n5)) {
                                                                                            Err(e) => Err(e),
                                                                                            Ok((f6, n6)) => {
                                                                                                Ok((CompressionProofView { owner: f1, update_authority: f2, name: f3, uri: f4, seq: f5, plugins: f6 }, n1 + n2 + n3 + n4 + n5 + n6))
                                                                                            },
                                                                                        }
                                                                                }
                                                                            },
                                                                        }
                                                                }
                                                            },
                                                        }
                                                }
                                            },
                                        }
                                }
                            },
                        }
                }
            },
        }
    }

    #[verifier::rlimit(100)]
    #[verifier::spinoff_prover]
    proof fn lemma_round_trip(v: CompressionProofView, rest: Seq<u8>) {
        let w1 = <Pubkey as Serialize>::vwire(v.owner);
        let w2 = <UpdateAuthority as Serialize>::vwire(v.update_authority);
        let w3 = <Vec<u8> as Serialize>::vwire(v.name);
        let w4 = <Vec<u8> as Serialize>::vwire(v.uri);
        let w5 = <u64 as Serialize>::vwire(v.seq);
        let w6 = <Vec<HashablePluginSchema> as Serialize>::vwire(v.plugins);
        let r6 = rest;
        let r5 = w6 + r6;
        let r4 = w5 + r5;
        let r3 = w4 + r4;
        let r2 = w3 + r3;
        let r1 = w2 + r2;
        assert(<CompressionProof as Serialize>::vwire(v) == w1 + w2 + w3 + w4 + w5 + w6);
        let b = <CompressionProof as Serialize>::vwire(v) + rest;
        assert(b =~= w1 + r1) by {
            assert(b == ((((((w1 + w2) + w3) + w4) + w5) + w6) + rest));
        };
        <Pubkey as Decode>::lemma_round_trip(v.owner, r1);
        let s1 = (w1.len()) as int;
        assert(b.skip(s1) =~= r1);
        <UpdateAuthority as Decode>::lemma_round_trip(v.update_authority, r2);
        let s2 = (w1.len() + w2.len()) as int;
        assert(b.skip(s2) =~= b.skip(s1).skip(w2.len() as int));
        assert(r1.skip(w2.len() as int) =~= r2);
        <Vec<u8> as Decode>::lemma_round_trip(v.name, r3);
        let s3 = (w1.len() + w2.len() + w3.len()) as int;
        assert(b.skip(s3) =~= b.skip(s2).skip(w3.len() as int));
        assert(r2.skip(w3.len() as int) =~= r3);
        <Vec<u8> as Decode>::lemma_round_trip(v.uri, r4);
        let s4 = (w1.len() + w2.len() + w3.len() + w4.len()) as int;
        assert(b.skip(s4) =~= b.skip(s3).skip(w4.len() as int));
        assert(r3.skip(w4.len() as int) =~= r4);
        <u64 as Decode>::lemma_round_trip(v.seq, r5);
        let s5 = (w1.len() + w2.len() + w3.len() + w4.len() + w5.len()) as int;
        assert(b.skip(s5) =~= b.skip(s4).skip(w5.len() as int));
        assert(r4.skip(w5.len() as int) =~= r5);
        <Vec<HashablePluginSchema> as Decode>::lemma_round_trip(v.plugins, r6);
        assert(CompressionProofView {
            owner: v.owner,
            update_authority: v.update_authority,
            name: v.name,
            uri: v.uri,
            seq: v.seq,
            plugins: v.plugins,
        } =~= v);
    }
}

} // verus!
