//! The selective decoder: locate the royalty schedule inside an encoded
//! record by walking the registry with size-only skips, and hand the
//! creator run back as a borrowed, zero-copy view.
//!
//! Nothing is materialized but what is returned: authorities are skipped
//! structurally, other plugins are never decoded, and the creator bytes
//! stay in the caller's buffer.

use vstd::prelude::*;
use crate::asset::{asset_encodable, asset_registry_offset, asset_registry_records, asset_wire,
    base_asset_wire, lemma_base_asset_skip_agrees, lemma_plugin_bodies_split,
    lemma_plugin_header_round_trip, plugin_bodies_wire, registry_record_wire, sdec_plugin_header,
    sskip_base_asset, sskip_base_collection, AssetInfoView, BaseAssetV1, BaseCollectionV1,
    PluginHeaderV1, PluginHeaderV1View, PluginPairView, RegistryRecordSafe};
use crate::decode::{sdec_u16, sdec_u32, sdec_u64, Deserialize, Skip};
use crate::error::CodecError;
use crate::key::Key;
use crate::plugins::{creator_wire, lemma_plugin_authority_skip_agrees, plugin_authority_encodable,
    plugin_authority_wire, plugin_disc, plugin_encodable, plugin_wire, royalties_encodable,
    royalties_wire, sskip_plugin_authority, Creator, CreatorView, PluginAuthority, PluginView,
    RoyaltiesView};
use crate::serialize::{enc_count, lemma_wire_elems_split, lemma_wire_elems_take_succ,
    wire_elems, Pubkey, PUBKEY_LEN};

verus! {

/// The creators packed into a byte range: one creator every 33 bytes, an
/// identity followed by a percentage.
pub open spec fn creators_of(bytes: Seq<u8>) -> Seq<CreatorView> {
    Seq::new(
        bytes.len() / 33,
        |i: int|
            CreatorView {
                address: bytes.subrange(33 * i, 33 * i + 32),
                percentage: bytes[33 * i + 32],
            },
    )
}

/// A borrowed view over a contiguous run of encoded creators. The bytes
/// stay in the caller's buffer; each creator is read out on demand.
pub struct CreatorsView<'a> {
    bytes: &'a [u8],
}

impl<'a> View for CreatorsView<'a> {
    type V = Seq<CreatorView>;

    closed spec fn view(&self) -> Seq<CreatorView> {
        creators_of(self.bytes@)
    }
}

impl<'a> CreatorsView<'a> {
    /// The view is only built over a range whose length is a whole number
    /// of creators.
    #[verifier::type_invariant]
    closed spec fn wf(self) -> bool {
        self.bytes@.len() % 33 == 0
    }

    /// Wrap a byte range that holds whole creators and nothing else.
    pub fn new(bytes: &'a [u8]) -> (r: CreatorsView<'a>)
        requires
            bytes@.len() % 33 == 0,
        ensures
            r@ == creators_of(bytes@),
    {
        CreatorsView { bytes }
    }

    /// A view over no creators at all.
    pub fn empty() -> (r: CreatorsView<'a>)
        ensures
            r@ == Seq::<CreatorView>::empty(),
    {
        let bytes: &[u8] = &[];
        proof {
            assert(creators_of(bytes@) =~= Seq::<CreatorView>::empty());
        }
        CreatorsView { bytes }
    }

    /// How many creators the view holds.
    pub fn len(&self) -> (r: usize)
        ensures
            r == self@.len(),
    {
        proof {
            use_type_invariant(self);
        }
        self.bytes.len() / 33
    }

    /// Read the `i`-th creator out of the underlying bytes.
    pub fn get(&self, i: usize) -> (r: Creator)
        requires
            i < self@.len(),
        ensures
            r.deep_view() == self@[i as int],
    {
        let sl = self.bytes.len();
        proof {
            use_type_invariant(self);
            assert(33 * (i as int) + 33 <= sl as int) by (nonlinear_arith)
                requires
                    sl == self.bytes@.len(),
                    sl as int % 33 == 0,
                    0 <= i < sl as int / 33,
            ;
        }
        let base = 33 * i;
        let mut address: Pubkey = [0u8; 32];
        let mut j: usize = 0;
        while j < PUBKEY_LEN
            invariant
                j <= PUBKEY_LEN,
                sl == self.bytes@.len(),
                33 * (i as int) + 33 <= sl,
                base == 33 * (i as int),
                forall|t: int| 0 <= t < j ==> address@[t] == self.bytes@[base + t],
            decreases PUBKEY_LEN - j,
        {
            address[j] = *vstd::slice::slice_index_get(self.bytes, base + j);
            j = j + 1;
        }
        let percentage = *vstd::slice::slice_index_get(self.bytes, base + 32);
        let r = Creator { address, percentage };
        proof {
            assert(r.deep_view().address =~= self@[i as int].address);
        }
        r
    }
}

/// What scanning the royalty payload at absolute offset `po` yields: the
/// plugin's own tag must indicate royalties, then the basis points and
/// the creator run follow.
pub open spec fn sroyalties_at(bytes: Seq<u8>, po: int) -> Result<
    (u16, Seq<CreatorView>),
    CodecError,
> {
    if !(0 <= po < bytes.len()) {
        Err(CodecError::TruncatedInput)
    } else if bytes[po] != 0 {
        Err(CodecError::StructuralMismatch)
    } else {
        match sdec_u16(bytes.skip(po + 1)) {
            Err(e) => Err(e),
            Ok((bp, _)) => match sdec_u32(bytes.skip(po + 3)) {
                Err(e) => Err(e),
                Ok((n, _)) => {
                    let cs = po + 7;
                    if bytes.len() < cs + 33 * n {
                        Err(CodecError::TruncatedInput)
                    } else {
                        Ok((bp, creators_of(bytes.subrange(cs, cs + 33 * n))))
                    }
                },
            },
        }
    }
}

/// What scanning `k` registry records starting at `off` yields: the first
/// record whose type is the royalties number is followed to its payload;
/// running out of records yields zero basis points and no creators.
pub open spec fn sroyalties_scan(bytes: Seq<u8>, off: int, k: nat) -> Result<
    (u16, Seq<CreatorView>),
    CodecError,
>
    decreases k,
{
    if k == 0 {
        Ok((0u16, Seq::empty()))
    } else if !(0 <= off < bytes.len()) {
        Err(CodecError::TruncatedInput)
    } else {
        let pt = bytes[off];
        match sskip_plugin_authority(bytes.skip(off + 1)) {
            Err(e) => Err(e),
            Ok(a) => {
                let oo = off + 1 + a;
                if bytes.len() < oo {
                    Err(CodecError::TruncatedInput)
                } else {
                    match sdec_u64(bytes.skip(oo)) {
                        Err(e) => Err(e),
                        Ok((po, _)) => if pt == 0 {
                            sroyalties_at(bytes, po as int)
                        } else {
                            sroyalties_scan(bytes, oo + 8, (k - 1) as nat)
                        },
                    }
                }
            },
        }
    }
}

/// What extracting the royalty schedule yields, given the absolute offset
/// `start` of the plugin header: the header is read, the registry it
/// points at is validated, and its records are scanned.
pub open spec fn sread_royalties(bytes: Seq<u8>, start: int) -> Result<
    (u16, Seq<CreatorView>),
    CodecError,
> {
    if !(0 <= start <= bytes.len()) {
        Err(CodecError::TruncatedInput)
    } else {
        match sdec_plugin_header(bytes.skip(start)) {
            Err(e) => Err(e),
            Ok((h, _)) => {
                let ro = h.plugin_registry_offset as int;
                if bytes.len() < ro {
                    Err(CodecError::TruncatedInput)
                } else {
                    match Key::sdec(bytes.skip(ro)) {
                        Err(e) => Err(e),
                        Ok(k) => if k != Key::PluginRegistryV1 {
                            Err(CodecError::StructuralMismatch)
                        } else {
                            match sdec_u32(bytes.skip(ro + 1)) {
                                Err(e) => Err(e),
                                Ok((n, _)) => sroyalties_scan(bytes, ro + 5, n as nat),
                            }
                        },
                    }
                }
            },
        }
    }
}

/// What extracting the royalty schedule from a whole encoded asset
/// yields: the buffer must begin with the asset kind tag; the base record
/// is skipped structurally and the plugin header follows it.
pub open spec fn sread_royalties_asset(bytes: Seq<u8>) -> Result<
    (u16, Seq<CreatorView>),
    CodecError,
> {
    match Key::sdec(bytes) {
        Err(e) => Err(e),
        Ok(k) => if k != Key::AssetV1 {
            Err(CodecError::StructuralMismatch)
        } else {
            match sskip_base_asset(bytes) {
                Err(e) => Err(e),
                Ok(o) => sread_royalties(bytes, o),
            }
        },
    }
}

/// What extracting the royalty schedule from a whole encoded collection
/// yields.
pub open spec fn sread_royalties_collection(bytes: Seq<u8>) -> Result<
    (u16, Seq<CreatorView>),
    CodecError,
> {
    match Key::sdec(bytes) {
        Err(e) => Err(e),
        Ok(k) => if k != Key::CollectionV1 {
            Err(CodecError::StructuralMismatch)
        } else {
            match sskip_base_collection(bytes) {
                Err(e) => Err(e),
                Ok(o) => sread_royalties(bytes, o),
            }
        },
    }
}

/// Extract the royalty schedule of the first royalties plugin recorded in
/// the registry, given the absolute offset `start` of the plugin header.
/// Registry offsets are absolute positions in `bytes`, whose first byte
/// is the start of the encoded record. If no royalties plugin is
/// recorded, the result is zero basis points and an empty creator view;
/// absence is not an error.
#[verifier::rlimit(100)]
#[verifier::spinoff_prover]
pub fn read_royalties<'a>(bytes: &'a [u8], start: usize) -> (r: Result<
    (u16, CreatorsView<'a>),
    CodecError,
>)
    ensures
        match r {
            Ok(p) => sread_royalties(bytes@, start as int) matches Ok(q) && q.0 == p.0 && p.1@
                == q.1,
            Err(e) => sread_royalties(bytes@, start as int) == Err::<
                (u16, Seq<CreatorView>),
                CodecError,
            >(e),
        },
{
    let blen = bytes.len();
    if start > blen {
        return Err(CodecError::TruncatedInput);
    }
    proof {
        assert(bytes@.skip(start as int) =~= bytes@.subrange(start as int, blen as int));
    }
    let header = match PluginHeaderV1::deserialize(
        vstd::slice::slice_subrange(bytes, start, blen),
    ) {
        Ok(h) => h,
        Err(e) => {
            return Err(e);
        },
    };
    let ro64 = header.plugin_registry_offset;
    if ro64 > blen as u64 {
        return Err(CodecError::TruncatedInput);
    }
    let ro = ro64 as usize;
    proof {
        assert(bytes@.skip(ro as int) =~= bytes@.subrange(ro as int, blen as int));
    }
    let key = match Key::deserialize_from(vstd::slice::slice_subrange(bytes, ro, blen)) {
        Ok(k) => k,
        Err(e) => {
            return Err(e);
        },
    };
    if !(matches!(key, Key::PluginRegistryV1)) {
        return Err(CodecError::StructuralMismatch);
    }
    proof {
        assert(bytes@.skip(ro + 1) =~= bytes@.subrange(ro + 1, blen as int));
    }
    let registry_len = match u32::deserialize(vstd::slice::slice_subrange(bytes, ro + 1, blen)) {
        Ok(n) => n,
        Err(e) => {
            return Err(e);
        },
    };
    let ghost scan0: int = ro + 5;
    proof {
        assert(sread_royalties(bytes@, start as int) == sroyalties_scan(
            bytes@,
            scan0,
            registry_len as nat,
        ));
    }
    let mut off: usize = ro + 5;
    let mut j: u32 = 0;
    while j < registry_len
        invariant
            blen == bytes@.len(),
            j <= registry_len,
            ro + 5 == scan0,
            off <= blen,
            sread_royalties(bytes@, start as int) == sroyalties_scan(
                bytes@,
                scan0,
                registry_len as nat,
            ),
            sroyalties_scan(bytes@, scan0, registry_len as nat) == sroyalties_scan(
                bytes@,
                off as int,
                (registry_len - j) as nat,
            ),
        decreases registry_len - j,
    {
        if off >= blen {
            return Err(CodecError::TruncatedInput);
        }
        let pt = *vstd::slice::slice_index_get(bytes, off);
        proof {
            assert(bytes@.skip(off + 1) =~= bytes@.subrange(off + 1, blen as int));
        }
        let a = match PluginAuthority::skip_bytes(
            vstd::slice::slice_subrange(bytes, off + 1, blen),
        ) {
            Ok(n) => n,
            Err(e) => {
                return Err(e);
            },
        };
        if blen - (off + 1) < a {
            return Err(CodecError::TruncatedInput);
        }
        let oo = off + 1 + a;
        proof {
            assert(bytes@.skip(oo as int) =~= bytes@.subrange(oo as int, blen as int));
        }
        let po64 = match u64::deserialize(vstd::slice::slice_subrange(bytes, oo, blen)) {
            Ok(v) => v,
            Err(e) => {
                return Err(e);
            },
        };
        if pt == 0 {
            if po64 >= blen as u64 {
                return Err(CodecError::TruncatedInput);
            }
            let po = po64 as usize;
            let disc = *vstd::slice::slice_index_get(bytes, po);
            if disc != 0 {
                return Err(CodecError::StructuralMismatch);
            }
            proof {
                assert(bytes@.skip(po + 1) =~= bytes@.subrange(po + 1, blen as int));
            }
            let bp = match u16::deserialize(vstd::slice::slice_subrange(bytes, po + 1, blen)) {
                Ok(v) => v,
                Err(e) => {
                    return Err(e);
                },
            };
            proof {
                assert(bytes@.skip(po + 3) =~= bytes@.subrange(po + 3, blen as int));
            }
            let nc = match u32::deserialize(vstd::slice::slice_subrange(bytes, po + 3, blen)) {
                Ok(v) => v,
                Err(e) => {
                    return Err(e);
                },
            };
            let cs = po + 7;
            let need: u64 = (nc as u64) * 33;
            if ((blen - cs) as u64) < need {
                return Err(CodecError::TruncatedInput);
            }
            let ce = cs + (need as usize);
            proof {
                assert((33 * (nc as int)) % 33 == 0) by (nonlinear_arith);
                assert(need as int == 33 * (nc as int));
            }
            let view = CreatorsView::new(vstd::slice::slice_subrange(bytes, cs, ce));
            return Ok((bp, view));
        }
        off = oo + 8;
        j = j + 1;
    }
    Ok((0, CreatorsView::empty()))
}

/// Extract the royalty schedule from a whole encoded asset record: the
/// kind tag is validated, the base record is skipped without decoding its
/// fields, and the registry behind the plugin header is scanned.
pub fn read_royalties_asset<'a>(bytes: &'a [u8]) -> (r: Result<
    (u16, CreatorsView<'a>),
    CodecError,
>)
    ensures
        match r {
            Ok(p) => sread_royalties_asset(bytes@) matches Ok(q) && q.0 == p.0 && p.1@ == q.1,
            Err(e) => sread_royalties_asset(bytes@) == Err::<
                (u16, Seq<CreatorView>),
                CodecError,
            >(e),
        },
{
    let key = match Key::deserialize_from(bytes) {
        Ok(k) => k,
        Err(e) => {
            return Err(e);
        },
    };
    if !(matches!(key, Key::AssetV1)) {
        return Err(CodecError::StructuralMismatch);
    }
    let offset = match BaseAssetV1::skip_bytes(bytes) {
        Ok(o) => o,
        Err(e) => {
            return Err(e);
        },
    };
    read_royalties(bytes, offset)
}

/// Extract the royalty schedule from a whole encoded collection record.
pub fn read_royalties_collection<'a>(bytes: &'a [u8]) -> (r: Result<
    (u16, CreatorsView<'a>),
    CodecError,
>)
    ensures
        match r {
            Ok(p) => sread_royalties_collection(bytes@) matches Ok(q) && q.0 == p.0 && p.1@
                == q.1,
            Err(e) => sread_royalties_collection(bytes@) == Err::<
                (u16, Seq<CreatorView>),
                CodecError,
            >(e),
        },
{
    let key = match Key::deserialize_from(bytes) {
        Ok(k) => k,
        Err(e) => {
            return Err(e);
        },
    };
    if !(matches!(key, Key::CollectionV1)) {
        return Err(CodecError::StructuralMismatch);
    }
    let offset = match BaseCollectionV1::skip_bytes(bytes) {
        Ok(o) => o,
        Err(e) => {
            return Err(e);
        },
    };
    read_royalties(bytes, offset)
}


/// A run of creators occupies exactly 33 bytes per creator.
pub proof fn lemma_creator_run_len(s: Seq<CreatorView>)
    requires
        forall|i: int| 0 <= i < s.len() ==> (#[trigger] s[i]).address.len() == PUBKEY_LEN,
    ensures
        wire_elems::<Creator>(s).len() == 33 * s.len(),
    decreases s.len(),
{
    if s.len() > 0 {
        lemma_creator_run_len(s.drop_first());
        assert(wire_elems::<Creator>(s) == creator_wire(s[0]) + wire_elems::<Creator>(
            s.drop_first(),
        ));
    }
}

/// Reading a run of encoded creators back out of its bytes yields the
/// creators again: the packed 33-byte layout is its own inverse.
pub proof fn lemma_creator_run_round_trip(s: Seq<CreatorView>)
    requires
        forall|i: int| 0 <= i < s.len() ==> (#[trigger] s[i]).address.len() == PUBKEY_LEN,
    ensures
        creators_of(wire_elems::<Creator>(s)) == s,
{
    let w = wire_elems::<Creator>(s);
    lemma_creator_run_len(s);
    assert(w.len() / 33 == s.len()) by (nonlinear_arith)
        requires
            w.len() == 33 * s.len(),
    ;
    assert forall|i: int| 0 <= i < s.len() implies creators_of(w)[i] == s[i] by {
        crate::serialize::lemma_wire_elems_split::<Creator>(s, i);
        lemma_creator_run_len(s.take(i));
        assert(s.take(i).len() == i);
        assert(s.skip(i)[0] == s[i]);
        assert(wire_elems::<Creator>(s.skip(i)) == creator_wire(s[i]) + wire_elems::<Creator>(
            s.skip(i).drop_first(),
        ));
        assert(w.subrange(33 * i, 33 * i + 32) =~= s[i].address);
        assert(w[33 * i + 32] == s[i].percentage);
        assert(creators_of(w)[i] =~= s[i]);
    };
    assert(creators_of(w) =~= s);
}


/// Scanning a royalty payload that stands encoded at `po` yields exactly
/// its basis points and creators.
pub proof fn lemma_royalties_at_encoded(w: Seq<u8>, po: int, r: RoyaltiesView)
    requires
        royalties_encodable(r),
        0 <= po,
        po + 1 + royalties_wire(r).len() <= w.len(),
        w.subrange(po, po + 1 + royalties_wire(r).len()) == seq![0u8] + royalties_wire(r),
    ensures
        sroyalties_at(w, po) == Ok::<(u16, Seq<CreatorView>), CodecError>(
            (r.basis_points, r.creators),
        ),
{
    vstd::bytes::lemma_auto_spec_u16_to_from_le_bytes();
    vstd::bytes::lemma_auto_spec_u32_to_from_le_bytes();
    let bp = vstd::bytes::spec_u16_to_le_bytes(r.basis_points);
    let cnt = crate::serialize::enc_count(r.creators.len());
    let elems = wire_elems::<Creator>(r.creators);
    let rw = royalties_wire(r);
    assert(rw == bp + crate::serialize::seq_wire::<Creator>(r.creators)
        + crate::plugins::rule_set_wire(r.rule_set));
    lemma_creator_run_len(r.creators);
    assert forall|t: int| po + 1 <= t < po + 1 + rw.len() implies #[trigger] w[t] == rw[t - po
        - 1] by {
        assert(w.subrange(po, po + 1 + rw.len())[t - po] == (seq![0u8] + rw)[t - po]);
    };
    assert(w[po] == (seq![0u8] + rw)[0]);
    assert(w[po] == 0);
    assert(w.skip(po + 1).take(2) =~= bp);
    assert(sdec_u16(w.skip(po + 1)) == Ok::<(u16, int), CodecError>((r.basis_points, 2)));
    assert(w.skip(po + 3).take(4) =~= cnt);
    assert(vstd::bytes::spec_u32_from_le_bytes(cnt) == r.creators.len() as u32);
    assert(sdec_u32(w.skip(po + 3)) == Ok::<(u32, int), CodecError>(
        (r.creators.len() as u32, 4),
    ));
    let cs = po + 7;
    let n = r.creators.len() as int;
    assert(cs + 33 * n <= w.len()) by {
        assert(crate::plugins::rule_set_wire(r.rule_set).len() >= 1);
    };
    assert(w.subrange(cs, cs + 33 * n) =~= elems);
    lemma_creator_run_round_trip(r.creators);
}


/// The position of the first royalties plugin at or after `j`, if any.
pub open spec fn find_royalties(ps: Seq<PluginPairView>, j: int) -> Option<int>
    decreases ps.len() - j,
    when 0 <= j <= ps.len()
{
    if j >= ps.len() {
        None
    } else if plugin_disc(ps[j].plugin) == 0 {
        Some(j)
    } else {
        find_royalties(ps, j + 1)
    }
}

/// The royalty schedule carried by the plugins at or after `j`: the first
/// royalties plugin's basis points and creators, or zero and none.
pub open spec fn royalties_among(ps: Seq<PluginPairView>, j: int) -> (u16, Seq<CreatorView>) {
    match find_royalties(ps, j) {
        None => (0u16, Seq::<CreatorView>::empty()),
        Some(i) => match ps[i].plugin {
            PluginView::Royalties(r) => (r.basis_points, r.creators),
            _ => (0u16, Seq::<CreatorView>::empty()),
        },
    }
}

/// The position of registry record `j` within an encoded asset.
spec fn record_pos(v: AssetInfoView, j: int) -> int {
    asset_registry_offset(v) + 5 + wire_elems::<RegistryRecordSafe>(
        asset_registry_records(v.plugins, base_asset_wire(v.base).len() as int).take(j),
    ).len()
}

/// Scanning the encoded registry records from `j` on finds exactly the
/// first royalties plugin at or after `j`.
#[verifier::rlimit(100)]
#[verifier::spinoff_prover]
proof fn lemma_scan_finds_royalties(v: AssetInfoView, j: int)
    requires
        asset_encodable(v),
        1 <= v.plugins.len(),
        0 <= j <= v.plugins.len(),
    ensures
        sroyalties_scan(asset_wire(v), record_pos(v, j), (v.plugins.len() - j) as nat) == Ok::<
            (u16, Seq<CreatorView>),
            CodecError,
        >(royalties_among(v.plugins, j)),
    decreases v.plugins.len() - j,
{
    vstd::bytes::lemma_auto_spec_u64_to_from_le_bytes();
    vstd::bytes::lemma_auto_spec_u32_to_from_le_bytes();
    let ps = v.plugins;
    let k = ps.len() as int;
    let w = asset_wire(v);
    let bw = base_asset_wire(v.base);
    let bl = bw.len() as int;
    let ro = asset_registry_offset(v);
    let bodies = plugin_bodies_wire(ps);
    let hw = crate::asset::plugin_header_wire(
        PluginHeaderV1View { key: Key::PluginHeaderV1, plugin_registry_offset: ro as u64 },
    );
    let recs = asset_registry_records(ps, bl);
    let rw = wire_elems::<RegistryRecordSafe>(recs);
    let regw = crate::asset::plugin_registry_wire(crate::asset::asset_registry_view(ps, bl));
    assert(w == bw + hw + bodies + regw);
    assert(wire_elems::<crate::asset::ExternalRegistryRecordSafe>(
        Seq::<crate::asset::ExternalRegistryRecordView>::empty(),
    ) =~= Seq::<u8>::empty());
    assert(regw =~= seq![4u8] + enc_count(ps.len()) + rw + enc_count(0));
    let prelen = wire_elems::<RegistryRecordSafe>(recs.take(j)).len() as int;
    lemma_wire_elems_split::<RegistryRecordSafe>(recs, j);
    assert(record_pos(v, j) == ro + 5 + prelen);
    assert(w.len() == bl + 9 + bodies.len() + regw.len());
    assert(ro == bl + 9 + bodies.len());
    if j == k {
        assert(recs.take(k) =~= recs);
        assert(find_royalties(ps, j) is None);
    } else {
        let rj = recs[j];
        let rrw = registry_record_wire(rj);
        let paw = plugin_authority_wire(rj.authority);
        assert(recs.skip(j)[0] == recs[j]);
        assert(wire_elems::<RegistryRecordSafe>(recs.skip(j)) == rrw + wire_elems::<
            RegistryRecordSafe,
        >(recs.skip(j).drop_first()));
        assert(recs.skip(j).drop_first() =~= recs.skip(j + 1));
        let tail = wire_elems::<RegistryRecordSafe>(recs.skip(j + 1)) + enc_count(0);
        let pos = record_pos(v, j);
        assert(w.len() == pos + rrw.len() + tail.len());
        assert forall|t: int| pos <= t < w.len() implies #[trigger] w[t] == (rrw + tail)[t
            - pos] by {
            assert(w[t] == regw[t - (bl + 9 + bodies.len())]);
            assert(regw[t - (bl + 9 + bodies.len())] == (rw + enc_count(0))[t - (ro + 5)]);
        };
        assert(rrw == seq![rj.plugin_type] + paw + vstd::bytes::spec_u64_to_le_bytes(rj.offset));
        assert(0 <= pos < w.len());
        assert(w[pos] == rj.plugin_type);
        assert(rj.plugin_type == plugin_disc(ps[j].plugin));
        assert(plugin_authority_encodable(rj.authority)) by {
            assert(rj.authority == ps[j].authority);
        };
        assert(w.skip(pos + 1) =~= paw + (vstd::bytes::spec_u64_to_le_bytes(rj.offset) + tail));
        lemma_plugin_authority_skip_agrees(
            rj.authority,
            vstd::bytes::spec_u64_to_le_bytes(rj.offset) + tail,
        );
        let oo = pos + 1 + paw.len() as int;
        assert(w.len() >= oo);
        assert(w.skip(oo) =~= vstd::bytes::spec_u64_to_le_bytes(rj.offset) + tail);
        assert(w.skip(oo).take(8) =~= vstd::bytes::spec_u64_to_le_bytes(rj.offset));
        assert(sdec_u64(w.skip(oo)) == Ok::<(u64, int), CodecError>((rj.offset, 8)));
        if plugin_disc(ps[j].plugin) == 0 {
            let r = ps[j].plugin->Royalties_0;
            assert(ps[j].plugin == PluginView::Royalties(r));
            lemma_plugin_bodies_split(ps, j);
            assert(ps.skip(j)[0] == ps[j]);
            assert(plugin_bodies_wire(ps.skip(j)) == plugin_wire(ps[j].plugin)
                + plugin_bodies_wire(ps.skip(j).drop_first()));
            let po = bl + 9 + plugin_bodies_wire(ps.take(j)).len() as int;
            assert(rj.offset as int == po);
            let pw = plugin_wire(ps[j].plugin);
            assert(pw == seq![0u8] + royalties_wire(r));
            assert(po + pw.len() <= ro);
            assert forall|t: int| po <= t < po + pw.len() implies #[trigger] w[t] == pw[t
                - po] by {
                assert(w[t] == bodies[t - (bl + 9)]);
                assert(bodies[t - (bl + 9)] == plugin_bodies_wire(ps.skip(j))[t - po]);
            };
            assert(w.subrange(po, po + 1 + royalties_wire(r).len()) =~= seq![0u8]
                + royalties_wire(r));
            assert(royalties_encodable(r)) by {
                assert(plugin_encodable(ps[j].plugin));
            };
            lemma_royalties_at_encoded(w, po, r);
            assert(find_royalties(ps, j) == Some(j));
        } else {
            lemma_wire_elems_take_succ::<RegistryRecordSafe>(recs, j);
            assert(record_pos(v, j + 1) == oo + 8);
            lemma_scan_finds_royalties(v, j + 1);
            assert(find_royalties(ps, j) == find_royalties(ps, j + 1));
        }
    }
}

/// Royalty extraction inverts the registry layout engine: reading the
/// royalty schedule out of an encoded asset yields exactly the first
/// royalties plugin's basis points and creators, and zero basis points
/// with no creators when no royalties plugin was attached.
pub proof fn lemma_royalty_extraction(v: AssetInfoView)
    requires
        asset_encodable(v),
        v.base.key == Key::AssetV1,
        1 <= v.plugins.len(),
    ensures
        sread_royalties_asset(asset_wire(v)) == Ok::<(u16, Seq<CreatorView>), CodecError>(
            royalties_among(v.plugins, 0),
        ),
{
    vstd::bytes::lemma_auto_spec_u64_to_from_le_bytes();
    vstd::bytes::lemma_auto_spec_u32_to_from_le_bytes();
    let ps = v.plugins;
    let w = asset_wire(v);
    let bw = base_asset_wire(v.base);
    let bl = bw.len() as int;
    let ro = asset_registry_offset(v);
    let bodies = plugin_bodies_wire(ps);
    let hw = crate::asset::plugin_header_wire(
        PluginHeaderV1View { key: Key::PluginHeaderV1, plugin_registry_offset: ro as u64 },
    );
    let recs = asset_registry_records(ps, bl);
    let rw = wire_elems::<RegistryRecordSafe>(recs);
    let regw = crate::asset::plugin_registry_wire(crate::asset::asset_registry_view(ps, bl));
    assert(w == bw + hw + bodies + regw);
    assert(wire_elems::<crate::asset::ExternalRegistryRecordSafe>(
        Seq::<crate::asset::ExternalRegistryRecordView>::empty(),
    ) =~= Seq::<u8>::empty());
    assert(regw =~= seq![4u8] + enc_count(ps.len()) + rw + enc_count(0));
    assert(w[0] == bw[0]);
    assert(bw[0] == 1);
    assert(Key::sdec(w) == Ok::<Key, CodecError>(Key::AssetV1));
    let rest = hw + (bodies + regw);
    assert(w == bw + rest);
    lemma_base_asset_skip_agrees(v.base, rest);
    assert(sskip_base_asset(w) == Ok::<int, CodecError>(bl));
    assert(w.skip(bl) =~= hw + (bodies + regw));
    lemma_plugin_header_round_trip(
        PluginHeaderV1View { key: Key::PluginHeaderV1, plugin_registry_offset: ro as u64 },
        bodies + regw,
    );
    assert(w.len() >= ro);
    assert(w.skip(ro) =~= regw);
    assert(w.skip(ro)[0] == 4);
    assert(Key::sdec(w.skip(ro)) == Ok::<Key, CodecError>(Key::PluginRegistryV1));
    assert(w.skip(ro + 1).take(4) =~= enc_count(ps.len()));
    assert(sdec_u32(w.skip(ro + 1)) == Ok::<(u32, int), CodecError>((ps.len() as u32, 4)));
    assert(recs.take(0) =~= Seq::<crate::asset::RegistryRecordView>::empty());
    assert(record_pos(v, 0) == ro + 5);
    lemma_scan_finds_royalties(v, 0);
}

} // verus!
