use remarkable_oxide::chain_data::v4::{Extra, Signature};
use remarkable_oxide::chain_data::{
    consume_remaining, Address, Call, Era, MultiSignature, Nonce, OpaqueExtrinsic,
    TransactionFee, UncheckedExtrinsic,
};
use remarkable_oxide::scale::{
    read_array, read_byte, read_byte_string, read_compact_u128, read_compact_u32, read_u16,
    read_u32, DecodeError,
};

#[test]
fn reads_primitives() {
    assert_eq!(read_byte(&[7, 8]), Ok((7, &[8u8][..])));
    assert_eq!(read_byte(&[]), Err(DecodeError::NotEnoughData));
    assert_eq!(read_u16(&[0x34, 0x12, 9]), Ok((0x1234, &[9u8][..])));
    assert_eq!(read_u16(&[0x34]), Err(DecodeError::NotEnoughData));
    assert_eq!(read_u32(&[0x78, 0x56, 0x34, 0x12]), Ok((0x12345678, &[][..])));
    assert_eq!(read_u32(&[1, 2, 3]), Err(DecodeError::NotEnoughData));
    assert_eq!(read_array::<3>(&[1, 2, 3, 4]), Ok(([1, 2, 3], &[4u8][..])));
    assert_eq!(read_array::<3>(&[1, 2]), Err(DecodeError::NotEnoughData));
}

#[test]
fn reads_compact_integers_through_the_codec() {
    assert_eq!(read_compact_u32(&[0x04, 0xff]), Ok((1, &[0xffu8][..])));
    assert_eq!(read_compact_u32(&[0x01, 0x01]), Ok((64, &[][..])));
    assert_eq!(read_compact_u32(&[0x02, 0x00, 0x01, 0x00]), Ok((16384, &[][..])));
    // A two-byte form for a value that fits in one byte is refused.
    assert_eq!(read_compact_u32(&[0x05, 0x00]), Err(DecodeError::Codec));
    assert_eq!(read_compact_u32(&[]), Err(DecodeError::Codec));
    assert_eq!(read_compact_u32(&[0x03, 0, 0, 0, 0x40, 5]), Ok((1 << 30, &[5u8][..])));
    assert_eq!(read_compact_u32(&[0x03, 0xff, 0xff, 0xff, 0x3f]), Err(DecodeError::Codec));
    assert_eq!(read_compact_u32(&[0x07, 0, 0, 0, 0x40]), Err(DecodeError::Codec));
    assert_eq!(read_compact_u32(&[0x03, 0, 0, 0x40]), Err(DecodeError::Codec));
    assert_eq!(read_compact_u32(&[0xfe, 0xff, 0xff, 0xff]), Ok((0x3fff_ffff, &[][..])));
    assert_eq!(read_compact_u32(&[0xfe, 0xff, 0x00, 0x00]), Err(DecodeError::Codec));
    assert_eq!(read_compact_u128(&[0xfc, 7]), Ok((63, &[7u8][..])));
    assert_eq!(read_compact_u128(&[0x07, 0, 0, 0, 0, 1]), Ok((1u128 << 32, &[][..])));
    assert_eq!(read_compact_u128(&[0x07, 0xff, 0xff, 0xff, 0xff, 0]), Err(DecodeError::Codec));
    assert_eq!(read_compact_u128(&[0x03, 0, 0, 0, 0x40]), Ok((1u128 << 30, &[][..])));
    assert_eq!(read_compact_u128(&[0x03, 0xff, 0xff, 0xff, 0x3f]), Err(DecodeError::Codec));
    assert_eq!(read_compact_u128(&[0x13, 0, 0, 0, 0, 0, 0, 0, 1]), Ok((1u128 << 56, &[][..])));
    let mut sixteen = vec![0x33u8];
    sixteen.extend([0u8; 15]);
    sixteen.push(1);
    assert_eq!(read_compact_u128(&sixteen), Ok((1u128 << 120, &[][..])));
    assert_eq!(read_compact_u128(&sixteen[..16]), Err(DecodeError::Codec));
    let mut seventeen = vec![0x37u8];
    seventeen.extend([1u8; 17]);
    assert_eq!(read_compact_u128(&seventeen), Err(DecodeError::Codec));
    assert_eq!(read_compact_u128(&[0x01, 0x01]), Ok((64, &[][..])));
}

#[test]
fn reads_byte_strings_through_the_codec() {
    assert_eq!(read_byte_string(&[0x08, 0xaa, 0xbb, 0xcc]), Ok((vec![0xaa, 0xbb], &[0xccu8][..])));
    assert_eq!(read_byte_string(&[0x0c, 0xaa, 0xbb]), Err(DecodeError::Codec));
    assert_eq!(read_byte_string(&[0x00]), Ok((vec![], &[][..])));
    assert_eq!(
        OpaqueExtrinsic::decode(&[0x08, 1, 2, 3]),
        Ok((OpaqueExtrinsic(vec![1, 2]), &[3u8][..]))
    );
}

#[test]
fn decodes_addresses() {
    assert_eq!(Address::decode(&[0x00]), Ok((Address::Index(0), &[][..])));
    assert_eq!(Address::decode(&[0xef, 1]), Ok((Address::Index(0xef), &[1u8][..])));
    assert_eq!(Address::decode(&[0xfc, 0xf0, 0x00]), Ok((Address::Index(0xf0), &[][..])));
    assert_eq!(Address::decode(&[0xfc, 0xef, 0x00]), Err(DecodeError::InvalidRange));
    assert_eq!(Address::decode(&[0xfc, 0xf0]), Err(DecodeError::NotEnoughData));
    assert_eq!(
        Address::decode(&[0xfd, 0x00, 0x00, 0x01, 0x00]),
        Ok((Address::Index(0x10000), &[][..]))
    );
    assert_eq!(Address::decode(&[0xfd, 0xff, 0xff, 0x00, 0x00]), Err(DecodeError::InvalidRange));
    assert_eq!(Address::decode(&[0xfe, 0xff, 0xff, 0xff, 0xff]), Err(DecodeError::InvalidRange));
    assert_eq!(Address::decode(&[0xfe, 0xff]), Err(DecodeError::NotEnoughData));
    let mut id = vec![0xff];
    id.extend(1..=32u8);
    let mut expected = [0u8; 32];
    for (i, b) in expected.iter_mut().enumerate() {
        *b = i as u8 + 1;
    }
    assert_eq!(Address::decode(&id), Ok((Address::Id(expected), &[][..])));
    assert_eq!(Address::decode(&id[..20]), Err(DecodeError::NotEnoughData));
    assert_eq!(Address::decode(&[0xf0]), Err(DecodeError::InvalidAddressVariant));
    assert_eq!(Address::decode(&[0xfb]), Err(DecodeError::InvalidAddressVariant));
    assert_eq!(Address::decode(&[]), Err(DecodeError::NotEnoughData));
}

#[test]
fn decodes_signatures() {
    let mut ed = vec![0u8];
    ed.extend([7u8; 64]);
    assert_eq!(MultiSignature::decode(&ed), Ok((MultiSignature::Ed25519([7; 64]), &[][..])));
    let mut sr = vec![1u8];
    sr.extend([8u8; 65]);
    assert_eq!(MultiSignature::decode(&sr), Ok((MultiSignature::Sr25519([8; 64]), &[8u8][..])));
    let mut ec = vec![2u8];
    ec.extend([9u8; 65]);
    assert_eq!(MultiSignature::decode(&ec), Ok((MultiSignature::Ecdsa([9; 65]), &[][..])));
    assert_eq!(MultiSignature::decode(&ec[..65]), Err(DecodeError::NotEnoughData));
    assert_eq!(MultiSignature::decode(&[3u8]), Err(DecodeError::InvalidSignatureVariant));
    assert_eq!(MultiSignature::decode(&[]), Err(DecodeError::NotEnoughData));
}

#[test]
fn decodes_eras() {
    assert_eq!(Era::decode(&[0x00, 5]), Ok((Era::Immortal, &[5u8][..])));
    // Period 64 (low bits 5), phase 10.
    assert_eq!(Era::decode(&[0xa5, 0x00]), Ok((Era::Mortal(64, 10), &[][..])));
    assert_eq!(Era::decode(&[0x01, 0x00]), Ok((Era::Mortal(4, 0), &[][..])));
    // Period 65536 has a quantize factor of 16: the upper bits 1 give phase 16.
    assert_eq!(Era::decode(&[0x1f, 0x00]), Ok((Era::Mortal(65536, 16), &[][..])));
    // Period 2 is too short.
    assert_eq!(Era::decode(&[0x10, 0x00]), Err(DecodeError::InvalidEra));
    // Phase 5 is not below period 4.
    assert_eq!(Era::decode(&[0x51, 0x00]), Err(DecodeError::InvalidEra));
    assert_eq!(Era::decode(&[0x51]), Err(DecodeError::NotEnoughData));
    assert_eq!(Era::decode(&[]), Err(DecodeError::NotEnoughData));
}

#[test]
fn decodes_nonce_fee_and_extra() {
    assert_eq!(Nonce::decode(&[0x08]), Ok((Nonce(2), &[][..])));
    assert_eq!(TransactionFee::decode(&[0x0c]), Ok((TransactionFee(3), &[][..])));
    assert_eq!(Nonce::decode(&[0x03]), Err(DecodeError::Codec));
    assert_eq!(
        Extra::decode(&[0x00, 0x04, 0x08, 0x09]),
        Ok((Extra { era: Era::Immortal, nonce: Nonce(1), fee: TransactionFee(2) }, &[9u8][..]))
    );
    assert_eq!(Extra::decode(&[0x00, 0x04]), Err(DecodeError::Codec));
}

#[test]
fn decodes_calls() {
    assert_eq!(
        Call::decode(&[0x00, 0x01, 0x08, 0xaa, 0xbb, 0xcc]),
        Ok((Call::SystemRemark(vec![0xaa, 0xbb]), &[0xccu8][..]))
    );
    assert_eq!(Call::decode(&[0x00, 0x02, 0xaa, 0xbb]), Ok((Call::Other(vec![0xaa, 0xbb]), &[][..])));
    assert_eq!(Call::decode(&[0x01, 0x01]), Ok((Call::Other(vec![]), &[][..])));
    assert_eq!(Call::decode(&[0x00]), Err(DecodeError::NotEnoughData));
    assert_eq!(Call::decode(&[0x00, 0x01, 0x08, 0xaa]), Err(DecodeError::Codec));
    assert_eq!(consume_remaining(&[1, 2, 3]), (vec![1, 2, 3], &[][..]));
}

fn remark_call(remark: &[u8]) -> Vec<u8> {
    let mut v = vec![0x00, 0x01, (remark.len() as u8) << 2];
    v.extend_from_slice(remark);
    v
}

#[test]
fn decodes_extrinsics() {
    let remark = [0x13, 0x37, 0x12, 0x34, 0x56, 0xff, 0x00, 0x00];
    let mut unsigned = vec![0x04];
    unsigned.extend(remark_call(&remark));
    assert_eq!(
        UncheckedExtrinsic::<Call>::decode(&unsigned),
        Ok((UncheckedExtrinsic::V4 { signature: None, call: Call::SystemRemark(remark.to_vec()) }, &[][..]))
    );

    let mut signed = vec![0x84, 0x05, 0x01];
    signed.extend([0x11u8; 64]);
    signed.extend([0x00, 0x00, 0x00]);
    signed.extend(remark_call(&remark));
    let signature = Signature {
        address: Address::Index(5),
        signature: MultiSignature::Sr25519([0x11; 64]),
        extra: Extra { era: Era::Immortal, nonce: Nonce(0), fee: TransactionFee(0) },
    };
    assert_eq!(
        UncheckedExtrinsic::<Call>::decode(&signed),
        Ok((
            UncheckedExtrinsic::V4 { signature: Some(signature), call: Call::SystemRemark(remark.to_vec()) },
            &[][..]
        ))
    );
    assert_eq!(Signature::decode(&signed[1..]).map(|(s, _)| s), Ok(signature));

    assert_eq!(UncheckedExtrinsic::<Call>::decode(&[0x03, 0x00, 0x01]), Err(DecodeError::UnknownVersion));
    assert_eq!(UncheckedExtrinsic::<Call>::decode(&[0x85, 0x00, 0x01]), Err(DecodeError::UnknownVersion));
    assert_eq!(UncheckedExtrinsic::<Call>::decode(&[]), Err(DecodeError::NotEnoughData));
    assert_eq!(UncheckedExtrinsic::<Call>::decode(&[0x84, 0xf5]), Err(DecodeError::InvalidAddressVariant));
}
