//! Primitive readers for the SCALE binary format, as used by the on-chain data structures.
//!
//! Every reader takes the unread part of the input and hands back the decoded value together
//! with what is left of the input. The model of each reader is a spec function on `Seq<u8>`
//! that returns the decoded value (or the error) and the remaining bytes.
use parity_scale_codec::{Compact, Decode};
use vstd::prelude::*;

verus! {

/// Why a value could not be decoded.
#[derive(Debug, Clone, Copy, PartialEq, Eq, Structural)]
pub enum DecodeError {
    /// The input ended before the value was complete.
    NotEnoughData,
    /// The codec library refused a compact integer or a length-prefixed byte string.
    Codec,
    /// An account index is encoded with a wider form than its value needs.
    InvalidRange,
    /// The first byte of an address names no address form.
    InvalidAddressVariant,
    /// The variant byte of a signature names no signature scheme.
    InvalidSignatureVariant,
    /// A mortal era whose period and phase are inconsistent.
    InvalidEra,
    /// The extrinsic format version is not 4.
    UnknownVersion,
}

/// The value of a little-endian byte string.
pub open spec fn le_value(s: Seq<u8>) -> nat
    decreases s.len(),
{
    if s.len() == 0 {
        0
    } else {
        s[0] as nat + 256 * le_value(s.drop_first())
    }
}

/// Reading one byte.
pub open spec fn spec_read_byte(s: Seq<u8>) -> Result<(u8, Seq<u8>), DecodeError> {
    if s.len() == 0 {
        Err(DecodeError::NotEnoughData)
    } else {
        Ok((s[0], s.drop_first()))
    }
}

/// Reading a fixed number of bytes.
pub open spec fn spec_read_bytes(s: Seq<u8>, n: nat) -> Result<(Seq<u8>, Seq<u8>), DecodeError> {
    if s.len() < n {
        Err(DecodeError::NotEnoughData)
    } else {
        Ok((s.take(n as int), s.skip(n as int)))
    }
}

/// Reading a little-endian `u16`.
pub open spec fn spec_read_u16(s: Seq<u8>) -> Result<(u16, Seq<u8>), DecodeError> {
    if s.len() < 2 {
        Err(DecodeError::NotEnoughData)
    } else {
        Ok(((s[0] + 256 * s[1]) as u16, s.skip(2)))
    }
}

/// Reading a little-endian `u32`.
pub open spec fn spec_read_u32(s: Seq<u8>) -> Result<(u32, Seq<u8>), DecodeError> {
    if s.len() < 4 {
        Err(DecodeError::NotEnoughData)
    } else {
        Ok(((s[0] + 256 * s[1] + 65536 * s[2] + 16777216 * s[3]) as u32, s.skip(4)))
    }
}

/// A `u32` in SCALE's compact form, with the rest of the input; `None` where the form is
/// invalid. The low two bits of the first byte pick the form: 0, the value is the byte's upper
/// six bits; 1, two little-endian bytes shifted right by two, holding 64 to 2^14 - 1; 2, four
/// little-endian bytes shifted right by two, holding 2^14 to 2^30 - 1; 3 with the upper six bits
/// 0, four more little-endian bytes holding at least 2^30. Any other first byte is invalid.
pub open spec fn scale_compact_u32(input: Seq<u8>) -> Option<(u32, Seq<u8>)> {
    if input.len() == 0 {
        None
    } else {
        let p = input[0];
        if p % 4 == 0 {
            Some(((p / 4) as u32, input.drop_first()))
        } else if p % 4 == 1 {
            if input.len() < 2 {
                None
            } else {
                let x = (input[0] + 256 * input[1]) / 4;
                if 63 < x <= 16383 {
                    Some((x as u32, input.skip(2)))
                } else {
                    None
                }
            }
        } else if p % 4 == 2 {
            if input.len() < 4 {
                None
            } else {
                let x = (input[0] + 256 * input[1] + 65536 * input[2] + 16777216 * input[3]) / 4;
                if 16383 < x <= 0x3fff_ffff {
                    Some((x as u32, input.skip(4)))
                } else {
                    None
                }
            }
        } else if p / 4 == 0 && input.len() >= 5 {
            let x = input[1] + 256 * input[2] + 65536 * input[3] + 16777216 * input[4];
            if x > 0x3fff_ffff {
                Some((x as u32, input.skip(5)))
            } else {
                None
            }
        } else {
            None
        }
    }
}

/// A `u128` in SCALE's compact form, with the rest of the input; `None` where the form is
/// invalid. Forms 0, 1 and 2 (the low two bits of the first byte) are as for a `u32`. In form 3
/// the first byte's upper six bits plus 4 give the number `n` of little-endian bytes that
/// follow, at most 16; the value must need all of them: above 2^30 - 1 for 4 bytes, at least
/// 2^(8(n - 1)) for more.
pub open spec fn scale_compact_u128(input: Seq<u8>) -> Option<(u128, Seq<u8>)> {
    if input.len() == 0 {
        None
    } else if input[0] % 4 != 3 {
        match scale_compact_u32(input) {
            Some((v, rest)) => Some((v as u128, rest)),
            None => None,
        }
    } else {
        let n = input[0] / 4 + 4;
        if n > 16 || input.len() < 1 + n {
            None
        } else {
            let x = le_value(input.subrange(1, 1 + n));
            if (n == 4 && x > 0x3fff_ffff) || (n > 4 && x >= vstd::arithmetic::power2::pow2(
                8 * (n - 1) as nat,
            )) {
                Some((x as u128, input.skip(1 + n)))
            } else {
                None
            }
        }
    }
}

/// A compact `u32`, with the codec's error mapped to `DecodeError::Codec`.
pub open spec fn spec_compact_u32(s: Seq<u8>) -> Result<(u32, Seq<u8>), DecodeError> {
    match scale_compact_u32(s) {
        Some((v, rest)) => Ok((v, rest)),
        None => Err(DecodeError::Codec),
    }
}

/// A compact `u128`, with the codec's error mapped to `DecodeError::Codec`.
pub open spec fn spec_compact_u128(s: Seq<u8>) -> Result<(u128, Seq<u8>), DecodeError> {
    match scale_compact_u128(s) {
        Some((v, rest)) => Ok((v, rest)),
        None => Err(DecodeError::Codec),
    }
}

/// A byte string prefixed by its length as a compact `u32`.
pub open spec fn spec_byte_string(s: Seq<u8>) -> Result<(Seq<u8>, Seq<u8>), DecodeError> {
    match scale_compact_u32(s) {
        Some((len, rest)) => if len <= rest.len() {
            Ok((rest.take(len as int), rest.skip(len as int)))
        } else {
            Err(DecodeError::Codec)
        },
        None => Err(DecodeError::Codec),
    }
}

/// Calls `<Compact<u32> as parity_scale_codec::Decode>::decode` on the input. As the codec's
/// source shows, it decodes the compact form that `scale_compact_u32` states; the codec's error
/// is reported as `None`.
#[verifier::external_body]
fn codec_compact_u32<'a>(input: &'a [u8]) -> (r: Option<(u32, &'a [u8])>)
    ensures
        match r {
            Some((v, rest)) => scale_compact_u32(input@) == Some((v, rest@)),
            None => scale_compact_u32(input@) is None,
        },
{
    let mut rest = input;
    match <Compact<u32>>::decode(&mut rest) {
        Ok(c) => Some((c.0, rest)),
        Err(_) => None,
    }
}

/// Calls `<Compact<u128> as parity_scale_codec::Decode>::decode` on the input. As the codec's
/// source shows, it decodes the compact form that `scale_compact_u128` states; the codec's error
/// is reported as `None`.
#[verifier::external_body]
fn codec_compact_u128<'a>(input: &'a [u8]) -> (r: Option<(u128, &'a [u8])>)
    ensures
        match r {
            Some((v, rest)) => scale_compact_u128(input@) == Some((v, rest@)),
            None => scale_compact_u128(input@) is None,
        },
{
    let mut rest = input;
    match <Compact<u128>>::decode(&mut rest) {
        Ok(c) => Some((c.0, rest)),
        Err(_) => None,
    }
}

/// Calls `<Vec<u8> as parity_scale_codec::Decode>::decode` on the input. As the codec's source
/// shows, it decodes a `Compact<u32>` length and then takes that many bytes, failing where fewer
/// are left; the contract states exactly that over `scale_compact_u32`.
#[verifier::external_body]
fn codec_byte_string<'a>(input: &'a [u8]) -> (r: Option<(Vec<u8>, &'a [u8])>)
    ensures
        match r {
            Some((v, rest)) => spec_byte_string(input@) == Ok::<(Seq<u8>, Seq<u8>), DecodeError>((v@, rest@)),
            None => spec_byte_string(input@) is Err,
        },
{
    let mut rest = input;
    match <Vec<u8>>::decode(&mut rest) {
        Ok(v) => Some((v, rest)),
        Err(_) => None,
    }
}

/// Reads one byte.
pub fn read_byte(input: &[u8]) -> (r: Result<(u8, &[u8]), DecodeError>)
    ensures
        match r {
            Ok((v, rest)) => spec_read_byte(input@) == Ok::<(u8, Seq<u8>), DecodeError>((v, rest@)),
            Err(e) => spec_read_byte(input@) == Err::<(u8, Seq<u8>), DecodeError>(e),
        },
{
    if input.len() == 0 {
        Err(DecodeError::NotEnoughData)
    } else {
        let (_, rest) = input.split_at(1);
        assert(rest@ =~= input@.drop_first());
        Ok((input[0], rest))
    }
}

/// Reads `N` bytes into an array.
pub fn read_array<const N: usize>(input: &[u8]) -> (r: Result<([u8; N], &[u8]), DecodeError>)
    ensures
        match r {
            Ok((v, rest)) => spec_read_bytes(input@, N as nat) == Ok::<(Seq<u8>, Seq<u8>), DecodeError>((v@, rest@)),
            Err(e) => spec_read_bytes(input@, N as nat) == Err::<(Seq<u8>, Seq<u8>), DecodeError>(e),
        },
{
    if input.len() < N {
        return Err(DecodeError::NotEnoughData);
    }
    let mut a: [u8; N] = [0u8; N];
    let mut i: usize = 0;
    while i < N
        invariant
            i <= N,
            N <= input@.len(),
            a@.len() == N,
            forall|j: int| 0 <= j < i ==> a@[j] == input@[j],
        decreases N - i,
    {
        a[i] = input[i];
        i = i + 1;
    }
    let (_, rest) = input.split_at(N);
    assert(a@ =~= input@.take(N as int));
    assert(rest@ =~= input@.skip(N as int));
    Ok((a, rest))
}

/// Reads a little-endian `u16`.
pub fn read_u16(input: &[u8]) -> (r: Result<(u16, &[u8]), DecodeError>)
    ensures
        match r {
            Ok((v, rest)) => spec_read_u16(input@) == Ok::<(u16, Seq<u8>), DecodeError>((v, rest@)),
            Err(e) => spec_read_u16(input@) == Err::<(u16, Seq<u8>), DecodeError>(e),
        },
{
    if input.len() < 2 {
        return Err(DecodeError::NotEnoughData);
    }
    let v: u16 = input[0] as u16 + input[1] as u16 * 256;
    let (_, rest) = input.split_at(2);
    assert(rest@ =~= input@.skip(2));
    Ok((v, rest))
}

/// Reads a little-endian `u32`.
pub fn read_u32(input: &[u8]) -> (r: Result<(u32, &[u8]), DecodeError>)
    ensures
        match r {
            Ok((v, rest)) => spec_read_u32(input@) == Ok::<(u32, Seq<u8>), DecodeError>((v, rest@)),
            Err(e) => spec_read_u32(input@) == Err::<(u32, Seq<u8>), DecodeError>(e),
        },
{
    if input.len() < 4 {
        return Err(DecodeError::NotEnoughData);
    }
    let v: u32 = input[0] as u32 + input[1] as u32 * 256 + input[2] as u32 * 65536 + input[3] as u32
        * 16777216;
    let (_, rest) = input.split_at(4);
    assert(rest@ =~= input@.skip(4));
    Ok((v, rest))
}

/// Reads a compact `u32`.
pub fn read_compact_u32(input: &[u8]) -> (r: Result<(u32, &[u8]), DecodeError>)
    ensures
        match r {
            Ok((v, rest)) => spec_compact_u32(input@) == Ok::<(u32, Seq<u8>), DecodeError>((v, rest@)),
            Err(e) => spec_compact_u32(input@) == Err::<(u32, Seq<u8>), DecodeError>(e),
        },
{
    match codec_compact_u32(input) {
        Some((v, rest)) => Ok((v, rest)),
        None => Err(DecodeError::Codec),
    }
}

/// Reads a compact `u128`.
pub fn read_compact_u128(input: &[u8]) -> (r: Result<(u128, &[u8]), DecodeError>)
    ensures
        match r {
            Ok((v, rest)) => spec_compact_u128(input@) == Ok::<(u128, Seq<u8>), DecodeError>((v, rest@)),
            Err(e) => spec_compact_u128(input@) == Err::<(u128, Seq<u8>), DecodeError>(e),
        },
{
    match codec_compact_u128(input) {
        Some((v, rest)) => Ok((v, rest)),
        None => Err(DecodeError::Codec),
    }
}

/// Reads a byte string prefixed by its compact length.
pub fn read_byte_string(input: &[u8]) -> (r: Result<(Vec<u8>, &[u8]), DecodeError>)
    ensures
        match r {
            Ok((v, rest)) => spec_byte_string(input@) == Ok::<(Seq<u8>, Seq<u8>), DecodeError>((v@, rest@)),
            Err(e) => spec_byte_string(input@) == Err::<(Seq<u8>, Seq<u8>), DecodeError>(e),
        },
{
    match codec_byte_string(input) {
        Some((v, rest)) => Ok((v, rest)),
        None => Err(DecodeError::Codec),
    }
}

} // verus!
