//! The decoding contracts: size-only skipping and the spec-level decoders
//! that the executable readers are proved against.

use vstd::prelude::*;
use crate::error::CodecError;
use crate::serialize::Serialize;

verus! {

/// A size-only traversal: given a buffer positioned at a value's first
/// byte, report how many bytes the value occupies without constructing it.
///
/// `sskip` is the single source of truth; the executable `skip_bytes`
/// returns exactly what it says.
pub trait Skip {
    /// How many bytes the value at the head of `bytes` occupies, or why
    /// that cannot be told.
    spec fn sskip(bytes: Seq<u8>) -> Result<int, CodecError>;

    /// Report the byte length of the value at the head of `bytes`.
    fn skip_bytes(bytes: &[u8]) -> (r: Result<usize, CodecError>)
        ensures
            match r {
                Ok(n) => Self::sskip(bytes@) == Ok::<int, CodecError>(n as int),
                Err(e) => Self::sskip(bytes@) == Err::<int, CodecError>(e),
            },
    ;
}

/// A type whose wire encoding can be read back.
///
/// `vdec` is the spec-level decoder: a total function from a byte sequence
/// to the decoded value and the number of bytes consumed, or the error.
/// The round-trip law ties it to the encoder: decoding an encoding yields
/// the value back, whatever follows it in the buffer.
pub trait Decode: Serialize {
    /// What decoding the head of `bytes` yields.
    spec fn vdec(bytes: Seq<u8>) -> Result<(Self::V, int), CodecError>;

    /// Decoding is left-inverse to encoding: a buffer that begins with the
    /// encoding of a carriable value decodes to that value, consuming
    /// exactly the encoding.
    proof fn lemma_round_trip(v: Self::V, rest: Seq<u8>)
        requires
            Self::vencodable(v),
        ensures
            Self::vdec(Self::vwire(v) + rest) == Ok::<(Self::V, int), CodecError>(
                (v, Self::vwire(v).len() as int),
            ),
    ;
}


/// What decoding one byte yields.
pub open spec fn sdec_u8(bytes: Seq<u8>) -> Result<(u8, int), CodecError> {
    if bytes.len() < 1 {
        Err(CodecError::TruncatedInput)
    } else {
        Ok((bytes[0], 1))
    }
}

/// What decoding two little-endian bytes yields.
pub open spec fn sdec_u16(bytes: Seq<u8>) -> Result<(u16, int), CodecError> {
    if bytes.len() < 2 {
        Err(CodecError::TruncatedInput)
    } else {
        Ok((vstd::bytes::spec_u16_from_le_bytes(bytes.take(2)), 2))
    }
}

/// What decoding four little-endian bytes yields.
pub open spec fn sdec_u32(bytes: Seq<u8>) -> Result<(u32, int), CodecError> {
    if bytes.len() < 4 {
        Err(CodecError::TruncatedInput)
    } else {
        Ok((vstd::bytes::spec_u32_from_le_bytes(bytes.take(4)), 4))
    }
}

/// What decoding eight little-endian bytes yields.
pub open spec fn sdec_u64(bytes: Seq<u8>) -> Result<(u64, int), CodecError> {
    if bytes.len() < 8 {
        Err(CodecError::TruncatedInput)
    } else {
        Ok((vstd::bytes::spec_u64_from_le_bytes(bytes.take(8)), 8))
    }
}

/// What decoding one presence or truth byte yields: the byte written for
/// `true`, the byte written for `false`, or an unrecognized tag.
pub open spec fn sdec_bool(bytes: Seq<u8>) -> Result<(bool, int), CodecError> {
    if bytes.len() < 1 {
        Err(CodecError::TruncatedInput)
    } else if bytes[0] == 1 {
        Ok((true, 1))
    } else if bytes[0] == 0 {
        Ok((false, 1))
    } else {
        Err(CodecError::UnrecognizedTag)
    }
}

/// What decoding a 32-byte identity yields.
pub open spec fn sdec_pubkey(bytes: Seq<u8>) -> Result<(Seq<u8>, int), CodecError> {
    if bytes.len() < crate::serialize::PUBKEY_LEN {
        Err(CodecError::TruncatedInput)
    } else {
        Ok((bytes.take(crate::serialize::PUBKEY_LEN as int), crate::serialize::PUBKEY_LEN as int))
    }
}

/// A type whose value can be read back off the head of a buffer.
pub trait Deserialize: Sized {
    /// What decoding the head of `bytes` yields: the value and the bytes
    /// consumed, or the error.
    spec fn sdec(bytes: Seq<u8>) -> Result<(Self, int), CodecError>;

    /// Read one value off the head of `bytes`.
    fn deserialize(bytes: &[u8]) -> (r: Result<Self, CodecError>)
        ensures
            match r {
                Ok(v) => Self::sdec(bytes@) matches Ok(p) && p.0 == v,
                Err(e) => Self::sdec(bytes@) == Err::<(Self, int), CodecError>(e),
            },
    ;
}

impl Deserialize for u16 {
    open spec fn sdec(bytes: Seq<u8>) -> Result<(u16, int), CodecError> {
        sdec_u16(bytes)
    }

    fn deserialize(bytes: &[u8]) -> (r: Result<u16, CodecError>) {
        if bytes.len() < 2 {
            return Err(CodecError::TruncatedInput);
        }
        let s = vstd::slice::slice_subrange(bytes, 0, 2);
        Ok(vstd::bytes::u16_from_le_bytes(s))
    }
}

impl Deserialize for u32 {
    open spec fn sdec(bytes: Seq<u8>) -> Result<(u32, int), CodecError> {
        sdec_u32(bytes)
    }

    fn deserialize(bytes: &[u8]) -> (r: Result<u32, CodecError>) {
        if bytes.len() < 4 {
            return Err(CodecError::TruncatedInput);
        }
        let s = vstd::slice::slice_subrange(bytes, 0, 4);
        Ok(vstd::bytes::u32_from_le_bytes(s))
    }
}

impl Deserialize for u64 {
    open spec fn sdec(bytes: Seq<u8>) -> Result<(u64, int), CodecError> {
        sdec_u64(bytes)
    }

    fn deserialize(bytes: &[u8]) -> (r: Result<u64, CodecError>) {
        if bytes.len() < 8 {
            return Err(CodecError::TruncatedInput);
        }
        let s = vstd::slice::slice_subrange(bytes, 0, 8);
        Ok(vstd::bytes::u64_from_le_bytes(s))
    }
}

/// What decoding a count-prefixed run of elements yields, element by
/// element: `n` is how many elements remain to read.
pub open spec fn sdec_elems<T: Decode>(bytes: Seq<u8>, n: nat) -> Result<
    (Seq<T::V>, int),
    CodecError,
>
    decreases n,
{
    if n == 0 {
        Ok((Seq::empty(), 0))
    } else {
        match T::vdec(bytes) {
            Ok((v, k)) => if 0 <= k <= bytes.len() {
                match sdec_elems::<T>(bytes.skip(k), (n - 1) as nat) {
                    Ok((vs, m)) => Ok((seq![v] + vs, k + m)),
                    Err(e) => Err(e),
                }
            } else {
                Err(CodecError::TruncatedInput)
            },
            Err(e) => Err(e),
        }
    }
}

/// What decoding a whole count-prefixed sequence yields: the four count
/// bytes, then that many elements.
pub open spec fn sdec_seq<T: Decode>(bytes: Seq<u8>) -> Result<(Seq<T::V>, int), CodecError> {
    match sdec_u32(bytes) {
        Ok((n, _)) => match sdec_elems::<T>(bytes.skip(4), n as nat) {
            Ok((vs, m)) => Ok((vs, 4 + m)),
            Err(e) => Err(e),
        },
        Err(e) => Err(e),
    }
}

/// What decoding an optional value yields: a presence byte, then the
/// payload when the byte says present.
pub open spec fn sdec_opt<T: Decode>(bytes: Seq<u8>) -> Result<(Option<T::V>, int), CodecError> {
    if bytes.len() < 1 {
        Err(CodecError::TruncatedInput)
    } else if bytes[0] == 0 {
        Ok((Option::<T::V>::None, 1))
    } else if bytes[0] == 1 {
        match T::vdec(bytes.skip(1)) {
            Ok((v, k)) => Ok((Some(v), 1 + k)),
            Err(e) => Err(e),
        }
    } else {
        Err(CodecError::UnrecognizedTag)
    }
}

/// Reading a run of encoded elements yields the elements back.
pub proof fn lemma_elems_round_trip<T: Decode>(s: Seq<T::V>, rest: Seq<u8>)
    requires
        forall|i: int| 0 <= i < s.len() ==> T::vencodable(#[trigger] s[i]),
    ensures
        sdec_elems::<T>(crate::serialize::wire_elems::<T>(s) + rest, s.len()) == Ok::<
            (Seq<T::V>, int),
            CodecError,
        >((s, crate::serialize::wire_elems::<T>(s).len() as int)),
    decreases s.len(),
{
    if s.len() == 0 {
        assert(crate::serialize::wire_elems::<T>(s) + rest =~= rest);
        assert(s =~= Seq::<T::V>::empty());
    } else {
        let w0 = T::vwire(s[0]);
        let wr = crate::serialize::wire_elems::<T>(s.drop_first());
        assert(crate::serialize::wire_elems::<T>(s) == w0 + wr);
        assert((crate::serialize::wire_elems::<T>(s) + rest) =~= w0 + (wr + rest));
        T::lemma_round_trip(s[0], wr + rest);
        assert((w0 + (wr + rest)).skip(w0.len() as int) =~= wr + rest);
        lemma_elems_round_trip::<T>(s.drop_first(), rest);
        assert(seq![s[0]] + s.drop_first() =~= s);
    }
}

/// Reading an encoded sequence yields the sequence back.
pub proof fn lemma_seq_round_trip<T: Decode>(s: Seq<T::V>, rest: Seq<u8>)
    requires
        crate::serialize::seq_encodable::<T>(s),
    ensures
        sdec_seq::<T>(crate::serialize::seq_wire::<T>(s) + rest) == Ok::<
            (Seq<T::V>, int),
            CodecError,
        >((s, crate::serialize::seq_wire::<T>(s).len() as int)),
{
    vstd::bytes::lemma_auto_spec_u32_to_from_le_bytes();
    let w = crate::serialize::seq_wire::<T>(s);
    let cnt = crate::serialize::enc_count(s.len());
    let elems = crate::serialize::wire_elems::<T>(s);
    assert((w + rest).take(4) =~= cnt);
    assert(vstd::bytes::spec_u32_from_le_bytes(cnt) == s.len() as u32);
    assert((w + rest).skip(4) =~= elems + rest);
    lemma_elems_round_trip::<T>(s, rest);
}

/// Reading an encoded optional value yields the value back.
pub proof fn lemma_opt_round_trip<T: Decode>(v: Option<T::V>, rest: Seq<u8>)
    requires
        crate::serialize::opt_encodable::<T>(v),
    ensures
        sdec_opt::<T>(crate::serialize::opt_wire::<T>(v) + rest) == Ok::<
            (Option<T::V>, int),
            CodecError,
        >((v, crate::serialize::opt_wire::<T>(v).len() as int)),
{
    match v {
        None => {
            assert((crate::serialize::opt_wire::<T>(v) + rest)[0] == 0);
        },
        Some(m) => {
            let w = T::vwire(m);
            assert((crate::serialize::opt_wire::<T>(v) + rest)[0] == 1);
            assert((crate::serialize::opt_wire::<T>(v) + rest).skip(1) =~= w + rest);
            T::lemma_round_trip(m, rest);
        },
    }
}

impl Decode for u8 {
    open spec fn vdec(bytes: Seq<u8>) -> Result<(u8, int), CodecError> {
        sdec_u8(bytes)
    }

    proof fn lemma_round_trip(v: u8, rest: Seq<u8>) {
        assert((<u8 as Serialize>::vwire(v) + rest)[0] == v);
        assert((<u8 as Serialize>::vwire(v) + rest).len() >= 1);
    }
}

impl Decode for u16 {
    open spec fn vdec(bytes: Seq<u8>) -> Result<(u16, int), CodecError> {
        sdec_u16(bytes)
    }

    proof fn lemma_round_trip(v: u16, rest: Seq<u8>) {
        vstd::bytes::lemma_auto_spec_u16_to_from_le_bytes();
        let w = <u16 as Serialize>::vwire(v);
        assert((w + rest).take(2) =~= w);
    }
}

impl Decode for u32 {
    open spec fn vdec(bytes: Seq<u8>) -> Result<(u32, int), CodecError> {
        sdec_u32(bytes)
    }

    proof fn lemma_round_trip(v: u32, rest: Seq<u8>) {
        vstd::bytes::lemma_auto_spec_u32_to_from_le_bytes();
        let w = <u32 as Serialize>::vwire(v);
        assert((w + rest).take(4) =~= w);
    }
}

impl Decode for u64 {
    open spec fn vdec(bytes: Seq<u8>) -> Result<(u64, int), CodecError> {
        sdec_u64(bytes)
    }

    proof fn lemma_round_trip(v: u64, rest: Seq<u8>) {
        vstd::bytes::lemma_auto_spec_u64_to_from_le_bytes();
        let w = <u64 as Serialize>::vwire(v);
        assert((w + rest).take(8) =~= w);
    }
}

impl Decode for bool {
    open spec fn vdec(bytes: Seq<u8>) -> Result<(bool, int), CodecError> {
        sdec_bool(bytes)
    }

    proof fn lemma_round_trip(v: bool, rest: Seq<u8>) {
        assert((<bool as Serialize>::vwire(v) + rest)[0] == (if v {
            1u8
        } else {
            0u8
        }));
    }
}

impl Decode for crate::serialize::Pubkey {
    open spec fn vdec(bytes: Seq<u8>) -> Result<(Seq<u8>, int), CodecError> {
        sdec_pubkey(bytes)
    }

    proof fn lemma_round_trip(v: Seq<u8>, rest: Seq<u8>) {
        assert((v + rest).take(crate::serialize::PUBKEY_LEN as int) =~= v);
    }
}

impl<T: Decode> Decode for Vec<T> {
    open spec fn vdec(bytes: Seq<u8>) -> Result<(Seq<T::V>, int), CodecError> {
        sdec_seq::<T>(bytes)
    }

    proof fn lemma_round_trip(v: Seq<T::V>, rest: Seq<u8>) {
        lemma_seq_round_trip::<T>(v, rest);
    }
}

impl<T: Decode> Decode for Option<T> {
    open spec fn vdec(bytes: Seq<u8>) -> Result<(Option<T::V>, int), CodecError> {
        sdec_opt::<T>(bytes)
    }

    proof fn lemma_round_trip(v: Option<T::V>, rest: Seq<u8>) {
        lemma_opt_round_trip::<T>(v, rest);
    }
}


/// Every byte encodes itself: a run of single bytes is the bytes.
pub proof fn lemma_wire_elems_u8(s: Seq<u8>)
    ensures
        crate::serialize::wire_elems::<u8>(s) == s,
    decreases s.len(),
{
    if s.len() == 0 {
        assert(crate::serialize::wire_elems::<u8>(s) =~= s);
    } else {
        lemma_wire_elems_u8(s.drop_first());
        assert(crate::serialize::wire_elems::<u8>(s) =~= s);
    }
}

/// How many bytes the byte string at the head of `bytes` occupies: the
/// four count bytes plus the declared count, or `TruncatedInput` when
/// fewer bytes remain than the count declares.
pub open spec fn sskip_byte_string(bytes: Seq<u8>) -> Result<int, CodecError> {
    if bytes.len() < 4 {
        Err(CodecError::TruncatedInput)
    } else {
        let l = vstd::bytes::spec_u32_from_le_bytes(bytes.take(4)) as int;
        if bytes.len() < 4 + l {
            Err(CodecError::TruncatedInput)
        } else {
            Ok(4 + l)
        }
    }
}

/// Report the byte length of the byte string at the head of `bytes`.
pub fn skip_byte_string(bytes: &[u8]) -> (r: Result<usize, CodecError>)
    ensures
        match r {
            Ok(n) => sskip_byte_string(bytes@) == Ok::<int, CodecError>(n as int),
            Err(e) => sskip_byte_string(bytes@) == Err::<int, CodecError>(e),
        },
{
    if bytes.len() < 4 {
        return Err(CodecError::TruncatedInput);
    }
    let l = u32::deserialize(bytes);
    match l {
        Ok(l) => {
            let l = l as usize;
            if bytes.len() - 4 < l {
                Err(CodecError::TruncatedInput)
            } else {
                Ok(4 + l)
            }
        },
        Err(e) => Err(e),
    }
}

/// Skipping an encoded byte string reports exactly the encoding's length.
pub proof fn lemma_byte_string_skip_agrees(s: Seq<u8>, rest: Seq<u8>)
    requires
        s.len() < crate::serialize::count_limit(),
    ensures
        sskip_byte_string(crate::serialize::seq_wire::<u8>(s) + rest) == Ok::<int, CodecError>(
            crate::serialize::seq_wire::<u8>(s).len() as int,
        ),
{
    vstd::bytes::lemma_auto_spec_u32_to_from_le_bytes();
    lemma_wire_elems_u8(s);
    let w = crate::serialize::seq_wire::<u8>(s);
    assert((w + rest).take(4) =~= crate::serialize::enc_count(s.len()));
    assert(w.len() == 4 + s.len());
}

/// How many bytes the optional counter at the head of `bytes` occupies:
/// one presence byte, plus eight more when it says present.
pub open spec fn sskip_opt_u64(bytes: Seq<u8>) -> Result<int, CodecError> {
    if bytes.len() < 1 {
        Err(CodecError::TruncatedInput)
    } else if bytes[0] == 0 {
        Ok(1)
    } else if bytes[0] == 1 {
        if bytes.len() < 9 {
            Err(CodecError::TruncatedInput)
        } else {
            Ok(9)
        }
    } else {
        Err(CodecError::UnrecognizedTag)
    }
}

/// Report the byte length of the optional counter at the head of `bytes`.
pub fn skip_opt_u64(bytes: &[u8]) -> (r: Result<usize, CodecError>)
    ensures
        match r {
            Ok(n) => sskip_opt_u64(bytes@) == Ok::<int, CodecError>(n as int),
            Err(e) => sskip_opt_u64(bytes@) == Err::<int, CodecError>(e),
        },
{
    if bytes.len() < 1 {
        return Err(CodecError::TruncatedInput);
    }
    let b = *vstd::slice::slice_index_get(bytes, 0);
    if b == 0 {
        Ok(1)
    } else if b == 1 {
        if bytes.len() < 9 {
            Err(CodecError::TruncatedInput)
        } else {
            Ok(9)
        }
    } else {
        Err(CodecError::UnrecognizedTag)
    }
}

/// Skipping an encoded optional counter reports exactly the encoding's
/// length.
pub proof fn lemma_opt_u64_skip_agrees(v: Option<u64>, rest: Seq<u8>)
    ensures
        sskip_opt_u64(crate::serialize::opt_wire::<u64>(v) + rest) == Ok::<int, CodecError>(
            crate::serialize::opt_wire::<u64>(v).len() as int,
        ),
{
    vstd::bytes::lemma_auto_spec_u64_to_from_le_bytes();
    match v {
        None => {
            assert((crate::serialize::opt_wire::<u64>(v) + rest)[0] == 0);
        },
        Some(x) => {
            assert((crate::serialize::opt_wire::<u64>(v) + rest)[0] == 1);
        },
    }
}

} // verus!
