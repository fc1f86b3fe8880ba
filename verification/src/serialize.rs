//! The encoding contract: every wire type states its byte-exact encoding as
//! a sequence of bytes over its deep view, and `serialize_to` writes exactly
//! those bytes into a caller-owned buffer.
//!
//! All multi-byte integers are little-endian and nothing is padded or
//! aligned: the format is fully packed.

use vstd::prelude::*;
use vstd::bytes::*;
use crate::error::CodecError;

verus! {

/// A 32-byte identity. Identities are opaque to the codec: they are copied
/// into and out of the wire format unchanged.
pub type Pubkey = [u8; 32];

/// The number of bytes of an identity.
pub const PUBKEY_LEN: usize = 32;

/// The count prefix of a byte string or a homogeneous sequence:
/// four little-endian bytes.
pub open spec fn enc_count(n: nat) -> Seq<u8> {
    spec_u32_to_le_bytes(n as u32)
}

/// Sequence counts are carried in four bytes, so only this many elements
/// can be declared.
pub open spec fn count_limit() -> nat {
    0x1_0000_0000
}

/// The concatenated encodings of a run of elements, in order.
pub open spec fn wire_elems<T: Serialize>(s: Seq<T::V>) -> Seq<u8>
    decreases s.len(),
{
    if s.len() == 0 {
        Seq::empty()
    } else {
        T::vwire(s[0]) + wire_elems::<T>(s.drop_first())
    }
}

/// A count-prefixed homogeneous sequence: four little-endian count bytes,
/// then the elements' encodings back to back.
pub open spec fn seq_wire<T: Serialize>(s: Seq<T::V>) -> Seq<u8> {
    enc_count(s.len()) + wire_elems::<T>(s)
}

/// A sequence can be carried when its count fits the four-byte prefix and
/// every element can be carried.
pub open spec fn seq_encodable<T: Serialize>(s: Seq<T::V>) -> bool {
    s.len() < count_limit() && forall|i: int| 0 <= i < s.len() ==> T::vencodable(#[trigger] s[i])
}

/// An optional value: one presence byte, then the payload when present.
pub open spec fn opt_wire<T: Serialize>(v: Option<T::V>) -> Seq<u8> {
    match v {
        None => seq![0u8],
        Some(m) => seq![1u8] + T::vwire(m),
    }
}

/// An absent value is always carried; a present one when its payload is.
pub open spec fn opt_encodable<T: Serialize>(v: Option<T::V>) -> bool {
    match v {
        None => true,
        Some(m) => T::vencodable(m),
    }
}

/// A type with a byte-exact wire encoding.
///
/// `vwire` is the encoding itself, stated over the deep view so that the
/// contract speaks of mathematical values only. `vencodable` says which
/// values the format can carry at all (a sequence count must fit in its
/// four-byte prefix; the registry engine bounds its plugin count).
/// `serialize_to` writes `vwire` at `pos` of the caller's buffer and
/// touches nothing outside that window.
pub trait Serialize: DeepView {
    /// The exact bytes this value encodes to.
    spec fn vwire(v: Self::V) -> Seq<u8>;

    /// Whether the format can carry this value.
    spec fn vencodable(v: Self::V) -> bool;

    /// Write the encoding into `buffer` at `pos`; return the number of
    /// bytes written. Fails with `BufferTooSmall` when the window does not
    /// fit, and with `CapacityExceeded` when the value itself cannot be
    /// carried; it never writes outside `pos .. pos + vwire.len()`.
    fn serialize_to(&self, buffer: &mut Vec<u8>, pos: usize) -> (r: Result<
        usize,
        CodecError,
    >)
        ensures
            final(buffer)@.len() == old(buffer)@.len(),
            forall|i: int|
                0 <= i < final(buffer)@.len() && !(pos <= i < pos + Self::vwire(
                    self.deep_view(),
                ).len()) ==> final(buffer)@[i] == old(buffer)@[i],
            match r {
                Ok(n) => Self::vencodable(self.deep_view()) && n == Self::vwire(
                    self.deep_view(),
                ).len() && pos + n <= final(buffer)@.len() && final(buffer)@.subrange(
                    pos as int,
                    pos + n,
                ) == Self::vwire(self.deep_view()),
                Err(e) => match e {
                    CodecError::BufferTooSmall => pos + Self::vwire(self.deep_view()).len()
                        > final(buffer)@.len(),
                    CodecError::CapacityExceeded => !Self::vencodable(self.deep_view()),
                    _ => false,
                },
            },
    ;
}

/// Copy `src` into `buffer` starting at `pos`, leaving every other byte
/// unchanged.
pub fn copy_into(buffer: &mut Vec<u8>, pos: usize, src: &[u8])
    requires
        pos + src@.len() <= old(buffer)@.len(),
    ensures
        final(buffer)@.len() == old(buffer)@.len(),
        final(buffer)@.subrange(pos as int, pos + src@.len()) == src@,
        forall|i: int|
            0 <= i < final(buffer)@.len() && !(pos <= i < pos + src@.len())
                ==> final(buffer)@[i] == old(buffer)@[i],
{
    let n = src.len();
    let blen = buffer.len();
    let mut i: usize = 0;
    while i < n
        invariant
            n == src@.len(),
            i <= n,
            pos + n <= blen,
            blen == buffer@.len(),
            buffer@.len() == old(buffer)@.len(),
            buffer@.subrange(pos as int, pos + i) == src@.take(i as int),
            forall|j: int|
                0 <= j < buffer@.len() && !(pos <= j < pos + i) ==> buffer@[j] == old(
                    buffer,
                )@[j],
        decreases n - i,
    {
        let b = *vstd::slice::slice_index_get(src, i);
        buffer[pos + i] = b;
        assert(buffer@.subrange(pos as int, pos + i + 1) =~= src@.take(i as int + 1));
        i = i + 1;
    }
    assert(buffer@.subrange(pos as int, pos + n) =~= src@);
}

impl Serialize for u8 {
    open spec fn vwire(v: u8) -> Seq<u8> {
        seq![v]
    }

    open spec fn vencodable(v: u8) -> bool {
        true
    }

    fn serialize_to(&self, buffer: &mut Vec<u8>, pos: usize) -> (r: Result<
        usize,
        CodecError,
    >) {
        proof {
            assert(<u8 as Serialize>::vencodable(self.deep_view()));
            assert(<u8 as Serialize>::vwire(self.deep_view()) == seq![*self]);
        }
        if pos < buffer.len() {
            buffer[pos] = *self;
            assert(buffer@.subrange(pos as int, pos + 1int) =~= seq![*self]);
            Ok(1)
        } else {
            Err(CodecError::BufferTooSmall)
        }
    }
}

impl Serialize for u16 {
    open spec fn vwire(v: u16) -> Seq<u8> {
        spec_u16_to_le_bytes(v)
    }

    open spec fn vencodable(v: u16) -> bool {
        true
    }

    fn serialize_to(&self, buffer: &mut Vec<u8>, pos: usize) -> (r: Result<
        usize,
        CodecError,
    >) {
        proof {
            lemma_auto_spec_u16_to_from_le_bytes();
            assert(<u16 as Serialize>::vencodable(self.deep_view()));
            assert(<u16 as Serialize>::vwire(self.deep_view()) == spec_u16_to_le_bytes(*self));
        }
        if pos <= buffer.len() && buffer.len() - pos >= 2 {
            let bs = u16_to_le_bytes(*self);
            copy_into(buffer, pos, bs.as_slice());
            Ok(2)
        } else {
            Err(CodecError::BufferTooSmall)
        }
    }
}

impl Serialize for u32 {
    open spec fn vwire(v: u32) -> Seq<u8> {
        spec_u32_to_le_bytes(v)
    }

    open spec fn vencodable(v: u32) -> bool {
        true
    }

    fn serialize_to(&self, buffer: &mut Vec<u8>, pos: usize) -> (r: Result<
        usize,
        CodecError,
    >) {
        proof {
            lemma_auto_spec_u32_to_from_le_bytes();
            assert(<u32 as Serialize>::vencodable(self.deep_view()));
            assert(<u32 as Serialize>::vwire(self.deep_view()) == spec_u32_to_le_bytes(*self));
        }
        if pos <= buffer.len() && buffer.len() - pos >= 4 {
            let bs = u32_to_le_bytes(*self);
            copy_into(buffer, pos, bs.as_slice());
            Ok(4)
        } else {
            Err(CodecError::BufferTooSmall)
        }
    }
}

impl Serialize for u64 {
    open spec fn vwire(v: u64) -> Seq<u8> {
        spec_u64_to_le_bytes(v)
    }

    open spec fn vencodable(v: u64) -> bool {
        true
    }

    fn serialize_to(&self, buffer: &mut Vec<u8>, pos: usize) -> (r: Result<
        usize,
        CodecError,
    >) {
        proof {
            lemma_auto_spec_u64_to_from_le_bytes();
            assert(<u64 as Serialize>::vencodable(self.deep_view()));
            assert(<u64 as Serialize>::vwire(self.deep_view()) == spec_u64_to_le_bytes(*self));
        }
        if pos <= buffer.len() && buffer.len() - pos >= 8 {
            let bs = u64_to_le_bytes(*self);
            copy_into(buffer, pos, bs.as_slice());
            Ok(8)
        } else {
            Err(CodecError::BufferTooSmall)
        }
    }
}

/// A boolean is one byte: one when set, zero when cleared, the same
/// convention the optional-presence flag uses.
pub open spec fn enc_bool(b: bool) -> Seq<u8> {
    if b {
        seq![1u8]
    } else {
        seq![0u8]
    }
}

impl Serialize for bool {
    open spec fn vwire(v: bool) -> Seq<u8> {
        enc_bool(v)
    }

    open spec fn vencodable(v: bool) -> bool {
        true
    }

    fn serialize_to(&self, buffer: &mut Vec<u8>, pos: usize) -> (r: Result<
        usize,
        CodecError,
    >) {
        proof {
            assert(<bool as Serialize>::vencodable(self.deep_view()));
            assert(<bool as Serialize>::vwire(self.deep_view()) == enc_bool(*self));
        }
        if pos < buffer.len() {
            let b: u8 = if *self {
                1
            } else {
                0
            };
            buffer[pos] = b;
            assert(buffer@.subrange(pos as int, pos + 1int) =~= enc_bool(*self));
            Ok(1)
        } else {
            Err(CodecError::BufferTooSmall)
        }
    }
}

impl Serialize for Pubkey {
    open spec fn vwire(v: Seq<u8>) -> Seq<u8> {
        v
    }

    open spec fn vencodable(v: Seq<u8>) -> bool {
        v.len() == PUBKEY_LEN
    }

    fn serialize_to(&self, buffer: &mut Vec<u8>, pos: usize) -> (r: Result<
        usize,
        CodecError,
    >) {
        proof {
            assert(self.deep_view() =~= self@);
            assert(<Pubkey as Serialize>::vencodable(self.deep_view()));
            assert(<Pubkey as Serialize>::vwire(self.deep_view()) == self.deep_view());
        }
        if pos <= buffer.len() && buffer.len() - pos >= PUBKEY_LEN {
            copy_into(buffer, pos, self.as_slice());
            Ok(PUBKEY_LEN)
        } else {
            Err(CodecError::BufferTooSmall)
        }
    }
}

impl<T: Serialize> Serialize for Option<T> {
    open spec fn vwire(v: Option<T::V>) -> Seq<u8> {
        opt_wire::<T>(v)
    }

    open spec fn vencodable(v: Option<T::V>) -> bool {
        opt_encodable::<T>(v)
    }

    fn serialize_to(&self, buffer: &mut Vec<u8>, pos: usize) -> (r: Result<
        usize,
        CodecError,
    >) {
        proof {
            assert(<Option<T> as Serialize>::vwire(self.deep_view()) == opt_wire::<T>(
                self.deep_view(),
            ));
            assert(<Option<T> as Serialize>::vencodable(self.deep_view()) == opt_encodable::<T>(
                self.deep_view(),
            ));
        }
        match self {
            None => {
                if pos < buffer.len() {
                    buffer[pos] = 0;
                    assert(buffer@.subrange(pos as int, pos + 1int) =~= seq![0u8]);
                    Ok(1)
                } else {
                    Err(CodecError::BufferTooSmall)
                }
            },
            Some(data) => {
                if pos < buffer.len() {
                    buffer[pos] = 1;
                    match data.serialize_to(buffer, pos + 1) {
                        Ok(n) => {
                            assert(buffer@.subrange(pos as int, pos + 1 + n as int) =~= seq![1u8]
                                + T::vwire(data.deep_view()));
                            Ok(1 + n)
                        },
                        Err(e) => Err(e),
                    }
                } else {
                    Err(CodecError::BufferTooSmall)
                }
            },
        }
    }
}

/// Splitting a run of elements splits its encoding.
pub proof fn lemma_wire_elems_split<T: Serialize>(s: Seq<T::V>, i: int)
    requires
        0 <= i <= s.len(),
    ensures
        wire_elems::<T>(s) == wire_elems::<T>(s.take(i)) + wire_elems::<T>(s.skip(i)),
    decreases i,
{
    if i == 0 {
        assert(s.take(0) =~= Seq::<T::V>::empty());
        assert(s.skip(0) =~= s);
        assert(wire_elems::<T>(s) =~= wire_elems::<T>(s.take(0)) + wire_elems::<T>(s.skip(0)));
    } else {
        lemma_wire_elems_split::<T>(s.drop_first(), i - 1);
        assert(s.take(i).drop_first() =~= s.drop_first().take(i - 1));
        assert(s.skip(i) =~= s.drop_first().skip(i - 1));
        assert(wire_elems::<T>(s.take(i)) == T::vwire(s[0]) + wire_elems::<T>(
            s.drop_first().take(i - 1),
        ));
        assert(wire_elems::<T>(s) == T::vwire(s[0]) + wire_elems::<T>(s.drop_first()));
        assert(wire_elems::<T>(s) =~= wire_elems::<T>(s.take(i)) + wire_elems::<T>(s.skip(i)));
    }
}

/// Extending a prefix by one element appends that element's encoding.
pub proof fn lemma_wire_elems_take_succ<T: Serialize>(s: Seq<T::V>, i: int)
    requires
        0 <= i < s.len(),
    ensures
        wire_elems::<T>(s.take(i + 1)) == wire_elems::<T>(s.take(i)) + T::vwire(s[i]),
{
    lemma_wire_elems_split::<T>(s.take(i + 1), i);
    assert(s.take(i + 1).take(i) =~= s.take(i));
    assert(s.take(i + 1).skip(i) =~= seq![s[i]]);
    assert(wire_elems::<T>(seq![s[i]]) == T::vwire(s[i]) + wire_elems::<T>(
        seq![s[i]].drop_first(),
    ));
    assert(seq![s[i]].drop_first() =~= Seq::<T::V>::empty());
    assert(wire_elems::<T>(seq![s[i]]) =~= T::vwire(s[i]));
}

impl<T: Serialize> Serialize for Vec<T> {
    open spec fn vwire(v: Seq<T::V>) -> Seq<u8> {
        seq_wire::<T>(v)
    }

    open spec fn vencodable(v: Seq<T::V>) -> bool {
        seq_encodable::<T>(v)
    }

    fn serialize_to(&self, buffer: &mut Vec<u8>, pos: usize) -> (r: Result<
        usize,
        CodecError,
    >) {
        proof {
            lemma_auto_spec_u32_to_from_le_bytes();
            assert(<Vec<T> as Serialize>::vwire(self.deep_view()) == seq_wire::<T>(
                self.deep_view(),
            ));
            assert(<Vec<T> as Serialize>::vencodable(self.deep_view()) == seq_encodable::<T>(
                self.deep_view(),
            ));
        }
        if (self.len() as u64) >= 0x1_0000_0000u64 {
            return Err(CodecError::CapacityExceeded);
        }
        let count: u32 = self.len() as u32;
        let blen = buffer.len();
        let ghost dv: Seq<T::V> = self.deep_view();
        let ghost total: int = <Vec<T> as Serialize>::vwire(dv).len() as int;
        match count.serialize_to(buffer, pos) {
            Ok(_) => {},
            Err(e) => {
                return Err(CodecError::BufferTooSmall);
            },
        }
        let mut cur: usize = pos + 4;
        let mut i: usize = 0;
        while i < self.len()
            invariant
                i <= self.len(),
                dv == self.deep_view(),
                dv.len() == self@.len(),
                dv.len() < count_limit(),
                total == <Vec<T> as Serialize>::vwire(dv).len() as int,
                blen == buffer@.len(),
                buffer@.len() == old(buffer)@.len(),
                pos + 4 <= buffer@.len(),
                cur == pos + 4 + wire_elems::<T>(dv.take(i as int)).len(),
                cur <= buffer@.len(),
                buffer@.subrange(pos as int, pos + 4) == enc_count(dv.len()),
                buffer@.subrange(pos + 4, cur as int) == wire_elems::<T>(dv.take(i as int)),
                forall|j: int|
                    0 <= j < buffer@.len() && !(pos <= j < pos + total) ==> buffer@[j] == old(
                        buffer,
                    )@[j],
                forall|j: int| 0 <= j < dv.len() ==> (#[trigger] dv[j]) == self@[j].deep_view(),
                forall|j: int| 0 <= j < i ==> T::vencodable(#[trigger] dv[j]),
            decreases self@.len() - i,
        {
            proof {
                lemma_wire_elems_split::<T>(dv, i as int);
                lemma_wire_elems_take_succ::<T>(dv, i as int);
                assert(dv.skip(i as int)[0] == dv[i as int]);
                assert(wire_elems::<T>(dv.skip(i as int)) == T::vwire(dv[i as int])
                    + wire_elems::<T>(dv.skip(i as int).drop_first()));
            }
            let ghost prev: Seq<u8> = buffer@;
            match self[i].serialize_to(buffer, cur) {
                Ok(n) => {
                    proof {
                        assert(buffer@.subrange(pos as int, pos + 4) =~= prev.subrange(
                            pos as int,
                            pos + 4,
                        ));
                        assert(buffer@.subrange(pos + 4, cur as int) =~= prev.subrange(
                            pos + 4,
                            cur as int,
                        ));
                        assert(buffer@.subrange(pos + 4, cur + n as int) =~= wire_elems::<T>(
                            dv.take(i as int + 1),
                        ));
                    }
                    cur = cur + n;
                },
                Err(e) => {
                    proof {
                        if e == CodecError::BufferTooSmall {
                            assert(wire_elems::<T>(dv)
                                == wire_elems::<T>(dv.take(i as int)) + wire_elems::<T>(
                                dv.skip(i as int),
                            ));
                            assert(wire_elems::<T>(dv.skip(i as int)).len() >= T::vwire(
                                dv[i as int],
                            ).len());
                        }
                    }
                    return Err(e);
                },
            }
            i = i + 1;
        }
        proof {
            assert(dv.take(dv.len() as int) =~= dv);
            assert(buffer@.subrange(pos as int, pos + total) =~= enc_count(dv.len())
                + wire_elems::<T>(dv));
        }
        Ok(cur - pos)
    }
}

} // verus!
