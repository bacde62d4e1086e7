//! Declaration of various on-chain data structures, and their SCALE decoders.
pub mod v4;

use crate::scale::{
    read_array, read_byte, read_byte_string, read_compact_u128, read_compact_u32, read_u16, read_u32,
    spec_byte_string, spec_compact_u128, spec_compact_u32, spec_read_byte, spec_read_bytes,
    spec_read_u16, spec_read_u32, DecodeError,
};
use vstd::prelude::*;

verus! {

/// A block header; only the number matters here.
pub struct Header {
    /// The block number as a hexadecimal string, such as `"0x1f"`.
    pub number: String,
}

/// A block as the node returns it.
pub struct SignedBlock {
    pub block: Block,
}

/// The body of a block.
pub struct Block {
    pub extrinsics: Vec<OpaqueExtrinsic>,
}

/// An extrinsic which is represented as an opaque blob.
#[derive(Debug, Clone, PartialEq, Eq)]
pub struct OpaqueExtrinsic(pub Vec<u8>);

pub type AccountId = [u8; 32];

pub type AccountIndex = u32;

#[derive(Debug, Clone, Copy, PartialEq, Eq)]
pub enum Address {
    Id(AccountId),
    Index(AccountIndex),
}

#[derive(Debug, Clone, Copy, PartialEq, Eq)]
pub enum MultiSignature {
    /// An Ed25519 signature.
    Ed25519([u8; 64]),
    /// An Sr25519 signature.
    Sr25519([u8; 64]),
    /// An ECDSA/SECP256k1 signature.
    Ecdsa([u8; 65]),
}

pub type Period = u64;

pub type Phase = u64;

#[derive(Debug, Clone, Copy, PartialEq, Eq, Structural)]
pub enum Era {
    Immortal,
    Mortal(Period, Phase),
}

#[derive(Debug, Clone, Copy, PartialEq, Eq, Structural)]
pub struct Nonce(pub u32);

pub type Balance = u128;

#[derive(Debug, Clone, Copy, PartialEq, Eq, Structural)]
pub struct TransactionFee(pub Balance);

#[derive(Debug, Clone, PartialEq, Eq)]
pub enum Call {
    SystemRemark(Vec<u8>),
    Other(Vec<u8>),
}

#[derive(Debug, Clone, PartialEq, Eq)]
pub enum UncheckedExtrinsic<C> {
    V4 { signature: Option<v4::Signature>, call: C },
}

/// An address with its bytes as a sequence.
pub enum AddressModel {
    Id(Seq<u8>),
    Index(u32),
}

/// A signature with its bytes as a sequence.
pub enum MultiSignatureModel {
    Ed25519(Seq<u8>),
    Sr25519(Seq<u8>),
    Ecdsa(Seq<u8>),
}

/// A call with its bytes as a sequence.
pub enum CallModel {
    SystemRemark(Seq<u8>),
    Other(Seq<u8>),
}

impl View for Address {
    type V = AddressModel;

    open spec fn view(&self) -> AddressModel {
        match self {
            Address::Id(a) => AddressModel::Id(a@),
            Address::Index(i) => AddressModel::Index(*i),
        }
    }
}

impl View for MultiSignature {
    type V = MultiSignatureModel;

    open spec fn view(&self) -> MultiSignatureModel {
        match self {
            MultiSignature::Ed25519(a) => MultiSignatureModel::Ed25519(a@),
            MultiSignature::Sr25519(a) => MultiSignatureModel::Sr25519(a@),
            MultiSignature::Ecdsa(a) => MultiSignatureModel::Ecdsa(a@),
        }
    }
}

impl View for Call {
    type V = CallModel;

    open spec fn view(&self) -> CallModel {
        match self {
            Call::SystemRemark(v) => CallModel::SystemRemark(v@),
            Call::Other(v) => CallModel::Other(v@),
        }
    }
}

impl View for OpaqueExtrinsic {
    type V = Seq<u8>;

    open spec fn view(&self) -> Seq<u8> {
        self.0@
    }
}

/// The SCALE encoding of an address: one byte below 0xf0 is the index itself; 0xfc, 0xfd and
/// 0xfe announce a little-endian index of 2, 4 and 4 bytes that must exceed the largest index
/// the narrower form can hold (0xef, 0xffff and 0xffffffff); 0xff announces a 32-byte account id.
pub open spec fn spec_address(s: Seq<u8>) -> Result<(AddressModel, Seq<u8>), DecodeError> {
    match spec_read_byte(s) {
        Err(e) => Err(e),
        Ok((b, r)) => if b <= 0xef {
            Ok((AddressModel::Index(b as u32), r))
        } else if b == 0xfc {
            match spec_read_u16(r) {
                Err(e) => Err(e),
                Ok((v, r2)) => if 0xef < v {
                    Ok((AddressModel::Index(v as u32), r2))
                } else {
                    Err(DecodeError::InvalidRange)
                },
            }
        } else if b == 0xfd {
            match spec_read_u32(r) {
                Err(e) => Err(e),
                Ok((v, r2)) => if 0xffff < v {
                    Ok((AddressModel::Index(v), r2))
                } else {
                    Err(DecodeError::InvalidRange)
                },
            }
        } else if b == 0xfe {
            match spec_read_u32(r) {
                Err(e) => Err(e),
                Ok((v, r2)) => if 0xffffffff < v {
                    Ok((AddressModel::Index(v), r2))
                } else {
                    Err(DecodeError::InvalidRange)
                },
            }
        } else if b == 0xff {
            match spec_read_bytes(r, 32) {
                Err(e) => Err(e),
                Ok((a, r2)) => Ok((AddressModel::Id(a), r2)),
            }
        } else {
            Err(DecodeError::InvalidAddressVariant)
        },
    }
}

/// The SCALE encoding of a signature: a variant byte 0, 1 or 2, then 64, 64 or 65 bytes.
pub open spec fn spec_multi_signature(s: Seq<u8>) -> Result<(MultiSignatureModel, Seq<u8>), DecodeError> {
    match spec_read_byte(s) {
        Err(e) => Err(e),
        Ok((b, r)) => if b == 0 {
            match spec_read_bytes(r, 64) {
                Err(e) => Err(e),
                Ok((a, r2)) => Ok((MultiSignatureModel::Ed25519(a), r2)),
            }
        } else if b == 1 {
            match spec_read_bytes(r, 64) {
                Err(e) => Err(e),
                Ok((a, r2)) => Ok((MultiSignatureModel::Sr25519(a), r2)),
            }
        } else if b == 2 {
            match spec_read_bytes(r, 65) {
                Err(e) => Err(e),
                Ok((a, r2)) => Ok((MultiSignatureModel::Ecdsa(a), r2)),
            }
        } else {
            Err(DecodeError::InvalidSignatureVariant)
        },
    }
}

/// The period that a mortal era encodes: two to the power of one more than the low four bits.
pub open spec fn era_period(encoded: nat) -> nat {
    2 * vstd::arithmetic::power2::pow2(encoded % 16)
}

/// The phase that a mortal era encodes: the upper twelve bits, scaled by the quantize factor,
/// which is the period divided by 4096, but at least one.
pub open spec fn era_phase(encoded: nat) -> nat {
    let quantize = if era_period(encoded) / 4096 > 1 {
        era_period(encoded) / 4096
    } else {
        1
    };
    (encoded / 16) * quantize
}

/// The SCALE encoding of an era: a zero byte for an immortal era, otherwise two little-endian
/// bytes that encode a period and a phase, valid where the period is at least 4 and the phase
/// below it.
pub open spec fn spec_era(s: Seq<u8>) -> Result<(Era, Seq<u8>), DecodeError> {
    match spec_read_byte(s) {
        Err(e) => Err(e),
        Ok((first, r)) => if first == 0 {
            Ok((Era::Immortal, r))
        } else {
            match spec_read_byte(r) {
                Err(e) => Err(e),
                Ok((second, r2)) => {
                    let encoded = first as nat + 256 * second as nat;
                    if era_period(encoded) >= 4 && era_phase(encoded) < era_period(encoded) {
                        Ok((Era::Mortal(era_period(encoded) as u64, era_phase(encoded) as u64), r2))
                    } else {
                        Err(DecodeError::InvalidEra)
                    }
                },
            }
        },
    }
}

/// A nonce is a compact `u32`.
pub open spec fn spec_nonce(s: Seq<u8>) -> Result<(Nonce, Seq<u8>), DecodeError> {
    match spec_compact_u32(s) {
        Err(e) => Err(e),
        Ok((v, r)) => Ok((Nonce(v), r)),
    }
}

/// A fee is a compact `u128`.
pub open spec fn spec_transaction_fee(s: Seq<u8>) -> Result<(TransactionFee, Seq<u8>), DecodeError> {
    match spec_compact_u128(s) {
        Err(e) => Err(e),
        Ok((v, r)) => Ok((TransactionFee(v), r)),
    }
}

/// A call: a module byte and a call byte; module 0 call 1 is a remark, a length-prefixed byte
/// string; any other call keeps all the remaining bytes.
pub open spec fn spec_call(s: Seq<u8>) -> Result<(CallModel, Seq<u8>), DecodeError> {
    match spec_read_byte(s) {
        Err(e) => Err(e),
        Ok((module, r)) => match spec_read_byte(r) {
            Err(e) => Err(e),
            Ok((index, r2)) => if module == 0 && index == 1 {
                match spec_byte_string(r2) {
                    Err(e) => Err(e),
                    Ok((remark, r3)) => Ok((CallModel::SystemRemark(remark), r3)),
                }
            } else {
                Ok((CallModel::Other(r2), Seq::<u8>::empty()))
            },
        },
    }
}

impl OpaqueExtrinsic {
    /// Decodes an extrinsic blob: a length-prefixed byte string.
    pub fn decode(input: &[u8]) -> (r: Result<(OpaqueExtrinsic, &[u8]), DecodeError>)
        ensures
            match r {
                Ok((v, rest)) => spec_byte_string(input@) == Ok::<(Seq<u8>, Seq<u8>), DecodeError>((v@, rest@)),
                Err(e) => spec_byte_string(input@) == Err::<(Seq<u8>, Seq<u8>), DecodeError>(e),
            },
    {
        match read_byte_string(input) {
            Ok((v, rest)) => Ok((OpaqueExtrinsic(v), rest)),
            Err(e) => Err(e),
        }
    }
}

impl Address {
    /// Decodes an address.
    pub fn decode(input: &[u8]) -> (r: Result<(Address, &[u8]), DecodeError>)
        ensures
            match r {
                Ok((v, rest)) => spec_address(input@) == Ok::<(AddressModel, Seq<u8>), DecodeError>((v@, rest@)),
                Err(e) => spec_address(input@) == Err::<(AddressModel, Seq<u8>), DecodeError>(e),
            },
    {
        let (b, r) = match read_byte(input) {
            Ok(p) => p,
            Err(e) => return Err(e),
        };
        if b <= 0xef {
            Ok((Address::Index(b as u32), r))
        } else if b == 0xfc {
            match read_u16(r) {
                Err(e) => Err(e),
                Ok((v, r2)) => if 0xef < v {
                    Ok((Address::Index(v as u32), r2))
                } else {
                    Err(DecodeError::InvalidRange)
                },
            }
        } else if b == 0xfd {
            match read_u32(r) {
                Err(e) => Err(e),
                Ok((v, r2)) => if 0xffff < v {
                    Ok((Address::Index(v), r2))
                } else {
                    Err(DecodeError::InvalidRange)
                },
            }
        } else if b == 0xfe {
            match read_u32(r) {
                Err(e) => Err(e),
                Ok((v, r2)) => {
                    assert(!(0xffffffff < v));
                    Err(DecodeError::InvalidRange)
                },
            }
        } else if b == 0xff {
            match read_array::<32>(r) {
                Err(e) => Err(e),
                Ok((a, r2)) => Ok((Address::Id(a), r2)),
            }
        } else {
            Err(DecodeError::InvalidAddressVariant)
        }
    }
}

impl MultiSignature {
    /// Decodes a signature.
    pub fn decode(input: &[u8]) -> (r: Result<(MultiSignature, &[u8]), DecodeError>)
        ensures
            match r {
                Ok((v, rest)) => spec_multi_signature(input@) == Ok::<(MultiSignatureModel, Seq<u8>), DecodeError>((v@, rest@)),
                Err(e) => spec_multi_signature(input@) == Err::<(MultiSignatureModel, Seq<u8>), DecodeError>(e),
            },
    {
        let (b, r) = match read_byte(input) {
            Ok(p) => p,
            Err(e) => return Err(e),
        };
        if b == 0 {
            match read_array::<64>(r) {
                Err(e) => Err(e),
                Ok((a, r2)) => Ok((MultiSignature::Ed25519(a), r2)),
            }
        } else if b == 1 {
            match read_array::<64>(r) {
                Err(e) => Err(e),
                Ok((a, r2)) => Ok((MultiSignature::Sr25519(a), r2)),
            }
        } else if b == 2 {
            match read_array::<65>(r) {
                Err(e) => Err(e),
                Ok((a, r2)) => Ok((MultiSignature::Ecdsa(a), r2)),
            }
        } else {
            Err(DecodeError::InvalidSignatureVariant)
        }
    }
}

impl Era {
    /// Decodes an era.
    pub fn decode(input: &[u8]) -> (r: Result<(Era, &[u8]), DecodeError>)
        ensures
            match r {
                Ok((v, rest)) => spec_era(input@) == Ok::<(Era, Seq<u8>), DecodeError>((v, rest@)),
                Err(e) => spec_era(input@) == Err::<(Era, Seq<u8>), DecodeError>(e),
            },
    {
        let (first, r) = match read_byte(input) {
            Ok(p) => p,
            Err(e) => return Err(e),
        };
        if first == 0 {
            return Ok((Era::Immortal, r));
        }
        let (second, r2) = match read_byte(r) {
            Ok(p) => p,
            Err(e) => return Err(e),
        };
        let encoded: u64 = first as u64 + second as u64 * 256;
        let k: u64 = encoded % 16;
        proof {
            vstd::arithmetic::power2::lemma2_to64();
            vstd::arithmetic::power2::lemma_pow2_strictly_increases(k as nat, 16);
            vstd::bits::lemma_u64_shl_is_mul(2, k);
        }
        let period: u64 = 2u64 << k;
        assert(period == era_period(encoded as nat));
        assert(period <= 65536);
        let quantize: u64 = if period / 4096 > 1 {
            period / 4096
        } else {
            1
        };
        let high: u64 = encoded / 16;
        assert(high * quantize <= 4096 * 16) by (nonlinear_arith)
            requires
                high < 4096,
                quantize <= 16,
        ;
        let phase: u64 = high * quantize;
        assert(phase == era_phase(encoded as nat));
        if period >= 4 && phase < period {
            Ok((Era::Mortal(period, phase), r2))
        } else {
            Err(DecodeError::InvalidEra)
        }
    }
}

impl Nonce {
    /// Decodes a nonce.
    pub fn decode(input: &[u8]) -> (r: Result<(Nonce, &[u8]), DecodeError>)
        ensures
            match r {
                Ok((v, rest)) => spec_nonce(input@) == Ok::<(Nonce, Seq<u8>), DecodeError>((v, rest@)),
                Err(e) => spec_nonce(input@) == Err::<(Nonce, Seq<u8>), DecodeError>(e),
            },
    {
        match read_compact_u32(input) {
            Ok((v, rest)) => Ok((Nonce(v), rest)),
            Err(e) => Err(e),
        }
    }
}

impl TransactionFee {
    /// Decodes a fee.
    pub fn decode(input: &[u8]) -> (r: Result<(TransactionFee, &[u8]), DecodeError>)
        ensures
            match r {
                Ok((v, rest)) => spec_transaction_fee(input@) == Ok::<(TransactionFee, Seq<u8>), DecodeError>((v, rest@)),
                Err(e) => spec_transaction_fee(input@) == Err::<(TransactionFee, Seq<u8>), DecodeError>(e),
            },
    {
        match read_compact_u128(input) {
            Ok((v, rest)) => Ok((TransactionFee(v), rest)),
            Err(e) => Err(e),
        }
    }
}

/// Takes all the remaining input.
pub fn consume_remaining(input: &[u8]) -> (r: (Vec<u8>, &[u8]))
    ensures
        r.0@ == input@,
        r.1@ == Seq::<u8>::empty(),
{
    let v = vstd::slice::slice_to_vec(input);
    let (_, rest) = input.split_at(input.len());
    assert(rest@ =~= Seq::<u8>::empty());
    (v, rest)
}

impl Call {
    /// Decodes a call.
    pub fn decode(input: &[u8]) -> (r: Result<(Call, &[u8]), DecodeError>)
        ensures
            match r {
                Ok((v, rest)) => spec_call(input@) == Ok::<(CallModel, Seq<u8>), DecodeError>((v@, rest@)),
                Err(e) => spec_call(input@) == Err::<(CallModel, Seq<u8>), DecodeError>(e),
            },
    {
        let (module, r) = match read_byte(input) {
            Ok(p) => p,
            Err(e) => return Err(e),
        };
        let (index, r2) = match read_byte(r) {
            Ok(p) => p,
            Err(e) => return Err(e),
        };
        if module == 0 && index == 1 {
            match read_byte_string(r2) {
                Ok((remark, r3)) => Ok((Call::SystemRemark(remark), r3)),
                Err(e) => Err(e),
            }
        } else {
            let (all, r3) = consume_remaining(r2);
            Ok((Call::Other(all), r3))
        }
    }
}

/// A version 4 extrinsic with its bytes as sequences.
pub enum ExtrinsicModel {
    V4 { signature: Option<v4::SignatureModel>, call: CallModel },
}

impl View for UncheckedExtrinsic<Call> {
    type V = ExtrinsicModel;

    open spec fn view(&self) -> ExtrinsicModel {
        match self {
            UncheckedExtrinsic::V4 { signature, call } => ExtrinsicModel::V4 {
                signature: match signature {
                    Some(sig) => Some(sig@),
                    None => None,
                },
                call: call@,
            },
        }
    }
}

/// An extrinsic: a version byte whose high bit says whether a signature block follows and
/// whose low seven bits must be 4, then the signature block if any, then the call.
pub open spec fn spec_unchecked_extrinsic(s: Seq<u8>) -> Result<(ExtrinsicModel, Seq<u8>), DecodeError> {
    match spec_read_byte(s) {
        Err(e) => Err(e),
        Ok((version, r)) => if version % 128 != 4 {
            Err(DecodeError::UnknownVersion)
        } else if version >= 128 {
            match v4::spec_signature(r) {
                Err(e) => Err(e),
                Ok((sig, r2)) => match spec_call(r2) {
                    Err(e) => Err(e),
                    Ok((call, r3)) => Ok((ExtrinsicModel::V4 { signature: Some(sig), call }, r3)),
                },
            }
        } else {
            match spec_call(r) {
                Err(e) => Err(e),
                Ok((call, r2)) => Ok((ExtrinsicModel::V4 { signature: None, call }, r2)),
            }
        },
    }
}

impl UncheckedExtrinsic<Call> {
    /// Decodes an extrinsic.
    pub fn decode(input: &[u8]) -> (r: Result<(UncheckedExtrinsic<Call>, &[u8]), DecodeError>)
        ensures
            match r {
                Ok((v, rest)) => spec_unchecked_extrinsic(input@) == Ok::<(ExtrinsicModel, Seq<u8>), DecodeError>((v@, rest@)),
                Err(e) => spec_unchecked_extrinsic(input@) == Err::<(ExtrinsicModel, Seq<u8>), DecodeError>(e),
            },
    {
        let (version, r) = match read_byte(input) {
            Ok(p) => p,
            Err(e) => return Err(e),
        };
        if version % 128 != 4 {
            return Err(DecodeError::UnknownVersion);
        }
        if version >= 128 {
            let (sig, r2) = match v4::Signature::decode(r) {
                Ok(p) => p,
                Err(e) => return Err(e),
            };
            match Call::decode(r2) {
                Ok((call, r3)) => Ok((UncheckedExtrinsic::V4 { signature: Some(sig), call }, r3)),
                Err(e) => Err(e),
            }
        } else {
            match Call::decode(r) {
                Ok((call, r2)) => Ok((UncheckedExtrinsic::V4 { signature: None, call }, r2)),
                Err(e) => Err(e),
            }
        }
    }
}

/// The two bytes that encode a mortal era: the little-endian 16-bit value whose low four bits
/// are `k` (the period is 2^(k+1)) and whose upper twelve bits are `j` (the phase divided by the
/// quantize factor).
pub open spec fn era_bytes(k: nat, j: nat) -> Seq<u8> {
    seq![((k + 16 * j) % 256) as u8, ((k + 16 * j) / 256) as u8]
}

/// Every mortal era decodes from its two-byte encoding: for a period 2^(k+1) with k from 1 to
/// 15, a quantize factor q of max(period / 4096, 1), and a phase j * q below the period, the
/// bytes of the 16-bit value k + 16 * j, low byte first, decode to that period and phase and
/// consume both bytes.
pub proof fn lemma_era_bytes_decode(k: nat, j: nat)
    requires
        1 <= k <= 15,
        j < 4096,
    ensures
        ({
            let period = vstd::arithmetic::power2::pow2(k + 1);
            let q = if period / 4096 > 1 {
                period / 4096
            } else {
                1
            };
            j * q < period ==> spec_era(era_bytes(k, j)) == Ok::<(Era, Seq<u8>), DecodeError>(
                (Era::Mortal(period as u64, (j * q) as u64), Seq::<u8>::empty()),
            )
        }),
{
    let period = vstd::arithmetic::power2::pow2(k + 1);
    let e = k + 16 * j;
    let b = era_bytes(k, j);
    assert(b[0] + 256 * b[1] == e && e % 16 == k && e / 16 == j && b[0] != 0) by (nonlinear_arith)
        requires
            b[0] == e % 256,
            b[1] == e / 256,
            e == k + 16 * j,
            1 <= k <= 15,
            j < 4096,
    ;
    vstd::arithmetic::power2::lemma_pow2_unfold(k + 1);
    vstd::arithmetic::power2::lemma2_to64();
    vstd::arithmetic::power2::lemma_pow2_strictly_increases(k + 1, 17);
    if k > 1 {
        vstd::arithmetic::power2::lemma_pow2_strictly_increases(2, k + 1);
    }
    assert(era_period(e) == period);
    assert(period >= 4 && period <= 65536);
    assert(b.drop_first().drop_first() =~= Seq::<u8>::empty());
}

/// The SCALE encoding of an account index: one byte below 0xf0; 0xfc and two little-endian
/// bytes up to 0xffff; 0xfd and four little-endian bytes above that.
pub open spec fn index_bytes(i: u32) -> Seq<u8> {
    if i <= 0xef {
        seq![i as u8]
    } else if i <= 0xffff {
        seq![0xfcu8, (i % 256) as u8, (i / 256) as u8]
    } else {
        seq![
            0xfdu8,
            (i % 256) as u8,
            ((i / 256) % 256) as u8,
            ((i / 65536) % 256) as u8,
            (i / 16777216) as u8,
        ]
    }
}

/// Every account index decodes from its encoding, whatever follows it, and so does every
/// account id after the byte 0xff.
pub proof fn lemma_address_bytes_decode(i: u32, id: Seq<u8>, rest: Seq<u8>)
    requires
        id.len() == 32,
    ensures
        spec_address(index_bytes(i) + rest) == Ok::<(AddressModel, Seq<u8>), DecodeError>(
            (AddressModel::Index(i), rest),
        ),
        spec_address(seq![0xffu8] + id + rest) == Ok::<(AddressModel, Seq<u8>), DecodeError>(
            (AddressModel::Id(id), rest),
        ),
{
    let s = index_bytes(i) + rest;
    if i <= 0xef {
        assert(s.drop_first() =~= rest);
    } else if i <= 0xffff {
        assert(s[1] + 256 * s[2] == i) by (nonlinear_arith)
            requires
                s[1] == i % 256,
                s[2] == i / 256,
        ;
        assert(s.drop_first().skip(2) =~= rest);
    } else {
        assert(s[1] + 256 * s[2] + 65536 * s[3] + 16777216 * s[4] == i) by (nonlinear_arith)
            requires
                s[1] == i % 256,
                s[2] == (i / 256) % 256,
                s[3] == (i / 65536) % 256,
                s[4] == i / 16777216,
                i <= 0xffff_ffff,
        ;
        assert(s.drop_first().skip(4) =~= rest);
    }
    let t = seq![0xffu8] + id + rest;
    assert(t.drop_first().take(32) =~= id);
    assert(t.drop_first().skip(32) =~= rest);
}

/// The remark call with a payload shorter than 64 bytes is the module byte 0, the call byte 1,
/// the payload's length times four, and the payload; it decodes back to the payload, whatever
/// follows. Any other pair of module and call bytes is an other call that keeps all the bytes
/// after them.
pub proof fn lemma_call_bytes_decode(remark: Seq<u8>, rest: Seq<u8>, module: u8, index: u8)
    requires
        remark.len() < 64,
    ensures
        spec_call(seq![0x00u8, 0x01u8, (4 * remark.len()) as u8] + remark + rest) == Ok::<
            (CallModel, Seq<u8>),
            DecodeError,
        >((CallModel::SystemRemark(remark), rest)),
        !(module == 0 && index == 1) ==> spec_call(seq![module, index] + rest) == Ok::<
            (CallModel, Seq<u8>),
            DecodeError,
        >((CallModel::Other(rest), Seq::<u8>::empty())),
{
    let s = seq![0x00u8, 0x01u8, (4 * remark.len()) as u8] + remark + rest;
    let r2 = s.drop_first().drop_first();
    assert(r2 =~= seq![(4 * remark.len()) as u8] + remark + rest);
    assert(r2.drop_first() =~= remark + rest);
    assert((4 * remark.len()) as u8 % 4 == 0 && (4 * remark.len()) as u8 / 4 == remark.len());
    assert((remark + rest).take(remark.len() as int) =~= remark);
    assert((remark + rest).skip(remark.len() as int) =~= rest);
    let t = seq![module, index] + rest;
    assert(t.drop_first().drop_first() =~= rest);
}

} // verus!
