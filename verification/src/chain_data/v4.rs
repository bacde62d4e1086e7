//! The signed part of a version 4 extrinsic.
use crate::chain_data::{
    spec_address, spec_era, spec_multi_signature, spec_nonce, spec_transaction_fee, Address,
    AddressModel, Era, MultiSignature, MultiSignatureModel, Nonce, TransactionFee,
};
use crate::scale::DecodeError;
use vstd::prelude::*;

verus! {

#[derive(Debug, Clone, Copy, PartialEq, Eq)]
pub struct Extra {
    pub era: Era,
    pub nonce: Nonce,
    pub fee: TransactionFee,
}

#[derive(Debug, Clone, Copy, PartialEq, Eq)]
pub struct Signature {
    pub address: Address,
    pub signature: MultiSignature,
    pub extra: Extra,
}

/// A signature block with its bytes as sequences.
pub struct SignatureModel {
    pub address: AddressModel,
    pub signature: MultiSignatureModel,
    pub extra: Extra,
}

impl View for Signature {
    type V = SignatureModel;

    open spec fn view(&self) -> SignatureModel {
        SignatureModel { address: self.address@, signature: self.signature@, extra: self.extra }
    }
}

/// The extra data of a signed extrinsic: era, nonce and fee, in that order.
pub open spec fn spec_extra(s: Seq<u8>) -> Result<(Extra, Seq<u8>), DecodeError> {
    match spec_era(s) {
        Err(e) => Err(e),
        Ok((era, r)) => match spec_nonce(r) {
            Err(e) => Err(e),
            Ok((nonce, r2)) => match spec_transaction_fee(r2) {
                Err(e) => Err(e),
                Ok((fee, r3)) => Ok((Extra { era, nonce, fee }, r3)),
            },
        },
    }
}

/// The signature block: address, signature and extra data, in that order.
#[verifier::opaque]
pub open spec fn spec_signature(s: Seq<u8>) -> Result<(SignatureModel, Seq<u8>), DecodeError> {
    match spec_address(s) {
        Err(e) => Err(e),
        Ok((address, r)) => match spec_multi_signature(r) {
            Err(e) => Err(e),
            Ok((signature, r2)) => match spec_extra(r2) {
                Err(e) => Err(e),
                Ok((extra, r3)) => Ok((SignatureModel { address, signature, extra }, r3)),
            },
        },
    }
}

impl Extra {
    /// Decodes the extra data.
    pub fn decode(input: &[u8]) -> (r: Result<(Extra, &[u8]), DecodeError>)
        ensures
            match r {
                Ok((v, rest)) => spec_extra(input@) == Ok::<(Extra, Seq<u8>), DecodeError>((v, rest@)),
                Err(e) => spec_extra(input@) == Err::<(Extra, Seq<u8>), DecodeError>(e),
            },
    {
        let (era, r) = match Era::decode(input) {
            Ok(p) => p,
            Err(e) => return Err(e),
        };
        let (nonce, r2) = match Nonce::decode(r) {
            Ok(p) => p,
            Err(e) => return Err(e),
        };
        let (fee, r3) = match TransactionFee::decode(r2) {
            Ok(p) => p,
            Err(e) => return Err(e),
        };
        Ok((Extra { era, nonce, fee }, r3))
    }
}

impl Signature {
    /// Decodes the signature block.
    pub fn decode(input: &[u8]) -> (r: Result<(Signature, &[u8]), DecodeError>)
        ensures
            match r {
                Ok((v, rest)) => spec_signature(input@) == Ok::<(SignatureModel, Seq<u8>), DecodeError>((v@, rest@)),
                Err(e) => spec_signature(input@) == Err::<(SignatureModel, Seq<u8>), DecodeError>(e),
            },
    {
        reveal(spec_signature);
        let (address, r) = match Address::decode(input) {
            Ok(p) => p,
            Err(e) => return Err(e),
        };
        let (signature, r2) = match MultiSignature::decode(r) {
            Ok(p) => p,
            Err(e) => return Err(e),
        };
        let (extra, r3) = match Extra::decode(r2) {
            Ok(p) => p,
            Err(e) => return Err(e),
        };
        Ok((Signature { address, signature, extra }, r3))
    }
}

} // verus!
