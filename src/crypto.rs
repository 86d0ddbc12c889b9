//! EVM-style signer recovery: the Keccak-256 digest, the prefixed
//! personal-message hash, and the recovery of a signer identity from a
//! 65-byte secp256k1 signature with the low-s rule.

use vstd::prelude::*;
use crate::bytes::{be_at, push_all, Key};

verus! {

/// The Keccak-256 digest of `data`.
pub uninterp spec fn keccak256_of(data: Seq<u8>) -> Seq<u8>;

/// The 64-byte uncompressed public key (x and y, without the tag byte)
/// that secp256k1 recovery finds for a 32-byte digest, a recovery id and
/// the 64-byte `r || s`, or `None` where recovery fails.
pub uninterp spec fn secp256k1_recovered(digest: Seq<u8>, recovery_id: u8, rs: Seq<u8>) -> Option<
    Seq<u8>,
>;

/// Relies on the Keccak-256 `hash` that anchor_lang re-exports from the
/// Solana program library: the 32-byte digest of `data`, which depends on
/// the bytes alone.
#[verifier::external_body]
#[allow(deprecated)]
pub(crate) fn keccak256(data: &[u8]) -> (r: [u8; 32])
    ensures
        r@ == keccak256_of(data@),
{
    anchor_lang::solana_program::keccak::hash(data).0
}

/// Relies on `secp256k1_recover` as anchor_lang re-exports it from the
/// Solana program library: `Ok` with the 64-byte public key where
/// recovery succeeds, an error otherwise (a recovery id above 3, an
/// `r || s` that does not recover); it depends on its arguments alone. The
/// on-chain syscall does not check lengths, so only a 32-byte digest and a
/// 64-byte `r || s` are passed.
#[verifier::external_body]
fn secp256k1_recover_key(digest: &[u8], recovery_id: u8, rs: &[u8]) -> (r: Option<[u8; 64]>)
    requires
        digest@.len() == 32,
        rs@.len() == 64,
    ensures
        match secp256k1_recovered(digest@, recovery_id, rs@) {
            Some(k) => r matches Some(x) && x@ == k,
            None => r is None,
        },
{
    match anchor_lang::solana_program::secp256k1_recover::secp256k1_recover(
        digest,
        recovery_id,
        rs,
    ) {
        Ok(key) => Some(key.0),
        Err(_) => None,
    }
}

/// `2^128`.
pub open spec fn two_pow_128() -> nat {
    0x1_0000_0000_0000_0000nat * 0x1_0000_0000_0000_0000nat
}

/// The order of the secp256k1 group.
pub open spec fn secp256k1_order() -> nat {
    0xFFFFFFFFFFFFFFFFFFFFFFFFFFFFFFFEnat * two_pow_128() + 0xBAAEDCE6AF48A03BBFD25E8CD0364141nat
}

/// `(n - 1) / 2` for the group order `n`: an `s` at or above it counts as
/// high.
pub open spec fn secp256k1_half_order() -> nat {
    0x7FFFFFFFFFFFFFFFFFFFFFFFFFFFFFFFnat * two_pow_128() + 0x5D576E7357A4501DDFE92F46681B20A0nat
}

/// Relies on libsecp256k1's `Signature::parse_standard_slice`, which
/// accepts exactly the 64-byte `r || s` whose `r` and `s` both lie below
/// the group order, and on `Scalar::is_high` of the parsed `s`, which holds
/// when `s >= (n - 1) / 2`.
#[verifier::external_body]
fn signature_s_is_high(rs: &[u8]) -> (r: Option<bool>)
    ensures
        r is Some <==> (rs@.len() == 64 && be_at(rs@, 0, 32) < secp256k1_order() && be_at(
            rs@,
            32,
            32,
        ) < secp256k1_order()),
        r matches Some(h) ==> h == (be_at(rs@, 32, 32) >= secp256k1_half_order()),
{
    match libsecp256k1::Signature::parse_standard_slice(rs) {
        Ok(sig) => Some(sig.s.is_high()),
        Err(_) => None,
    }
}

/// Why a signature yields no signer.
#[derive(Debug, Clone, Copy, PartialEq, Eq, Structural)]
pub enum EvmSignatureError {
    InvalidMessageHash,
    InvalidSignatureLength,
    InvalidRecoveryId,
    InvalidSignature,
    InvalidSignatureSValue,
}

/// The fixed prefix of a personal-message digest:
/// `"\x19Ethereum Signed Message:\n32"`.
pub open spec fn eth_message_prefix() -> Seq<u8> {
    seq![
        0x19u8, 0x45, 0x74, 0x68, 0x65, 0x72, 0x65, 0x75, 0x6d, 0x20, 0x53, 0x69, 0x67, 0x6e,
        0x65, 0x64, 0x20, 0x4d, 0x65, 0x73, 0x73, 0x61, 0x67, 0x65, 0x3a, 0x0a, 0x33, 0x32,
    ]
}

/// The personal-message digest of a 32-byte hash.
pub open spec fn eth_signed_hash_of(input: Seq<u8>) -> Seq<u8> {
    keccak256_of(eth_message_prefix() + input)
}

/// The identity of a public key: the low 20 bytes of its Keccak-256 digest,
/// left-padded with 12 zero bytes.
pub open spec fn evm_address_of(pubkey: Seq<u8>) -> Seq<u8> {
    Seq::new(12, |i: int| 0u8) + keccak256_of(pubkey).subrange(12, 32)
}

/// The signer that a digest and a 65-byte `r || s || v` signature give, or
/// why there is none.
pub open spec fn evm_signer_of(digest: Seq<u8>, signature: Seq<u8>) -> Result<
    Seq<u8>,
    EvmSignatureError,
> {
    let rs = signature.subrange(0, 64);
    if digest.len() != 32 {
        Err(EvmSignatureError::InvalidMessageHash)
    } else if signature.len() != 65 {
        Err(EvmSignatureError::InvalidSignatureLength)
    } else if signature[64] != 27u8 && signature[64] != 28u8 {
        Err(EvmSignatureError::InvalidRecoveryId)
    } else if !(be_at(rs, 0, 32) < secp256k1_order() && be_at(rs, 32, 32) < secp256k1_order()) {
        Err(EvmSignatureError::InvalidSignature)
    } else if be_at(rs, 32, 32) >= secp256k1_half_order() {
        Err(EvmSignatureError::InvalidSignatureSValue)
    } else {
        match secp256k1_recovered(digest, (signature[64] - 27) as u8, rs) {
            None => Err(EvmSignatureError::InvalidSignature),
            Some(k) => Ok(evm_address_of(k)),
        }
    }
}

/// Keccak-256 of the prefix `"\x19Ethereum Signed Message:\n32"` followed by
/// `input_hash`.
pub fn ethereum_signed_message_hash(input_hash: &[u8; 32]) -> (r: [u8; 32])
    ensures
        r@ == eth_signed_hash_of(input_hash@),
{
    let prefix: [u8; 28] = [
        0x19, 0x45, 0x74, 0x68, 0x65, 0x72, 0x65, 0x75, 0x6d, 0x20, 0x53, 0x69, 0x67, 0x6e, 0x65,
        0x64, 0x20, 0x4d, 0x65, 0x73, 0x73, 0x61, 0x67, 0x65, 0x3a, 0x0a, 0x33, 0x32,
    ];
    let mut message: Vec<u8> = Vec::new();
    push_all(&mut message, &prefix);
    push_all(&mut message, input_hash);
    proof {
        assert(prefix@ =~= eth_message_prefix());
    }
    keccak256(message.as_slice())
}

/// Recovers the signer identity of `signature` over `message_hash`.
pub fn recover_evm_signer(message_hash: &[u8], signature: &[u8]) -> (r: Result<
    Key,
    EvmSignatureError,
>)
    ensures
        match evm_signer_of(message_hash@, signature@) {
            Ok(a) => r matches Ok(k) && k@ == a,
            Err(e) => r == Err::<Key, EvmSignatureError>(e),
        },
{
    if message_hash.len() != 32 {
        return Err(EvmSignatureError::InvalidMessageHash);
    }
    if signature.len() != 65 {
        return Err(EvmSignatureError::InvalidSignatureLength);
    }
    let recovery_id = signature[64];
    if recovery_id != 27 && recovery_id != 28 {
        return Err(EvmSignatureError::InvalidRecoveryId);
    }
    let rs = &signature[0..64];
    match signature_s_is_high(rs) {
        None => {
            return Err(EvmSignatureError::InvalidSignature);
        },
        Some(true) => {
            return Err(EvmSignatureError::InvalidSignatureSValue);
        },
        Some(false) => {},
    }
    let pubkey = match secp256k1_recover_key(message_hash, recovery_id - 27, rs) {
        Some(k) => k,
        None => {
            return Err(EvmSignatureError::InvalidSignature);
        },
    };
    let digest = keccak256(&pubkey);
    let mut address: [u8; 32] = [0u8; 32];
    let mut i: usize = 12;
    while i < 32
        invariant
            12 <= i <= 32,
            forall|j: int| 0 <= j < 12 ==> address@[j] == 0u8,
            forall|j: int| 12 <= j < i ==> address@[j] == digest@[j],
        decreases 32 - i,
    {
        address[i] = digest[i];
        i = i + 1;
    }
    proof {
        assert(address@ =~= evm_address_of(pubkey@));
    }
    Ok(address)
}

/// A signature that is not 65 bytes, whose recovery byte is neither 27 nor
/// 28, or whose `s` is high yields no signer, whatever the digest.
pub proof fn lemma_malformed_signature_rejected(digest: Seq<u8>, signature: Seq<u8>)
    requires
        digest.len() == 32,
    ensures
        signature.len() != 65 ==> evm_signer_of(digest, signature) == Err::<
            Seq<u8>,
            EvmSignatureError,
        >(EvmSignatureError::InvalidSignatureLength),
        signature.len() == 65 && signature[64] != 27u8 && signature[64] != 28u8 ==> evm_signer_of(
            digest,
            signature,
        ) == Err::<Seq<u8>, EvmSignatureError>(EvmSignatureError::InvalidRecoveryId),
        signature.len() == 65 && (signature[64] == 27u8 || signature[64] == 28u8) && be_at(
            signature,
            32,
            32,
        ) >= secp256k1_half_order() ==> evm_signer_of(digest, signature) is Err,
{
    if signature.len() == 65 {
        assert(signature.subrange(0, 64).subrange(32, 64) =~= signature.subrange(32, 64));
    }
}

} // verus!
