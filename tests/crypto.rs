use gateway::crypto::{ethereum_signed_message_hash, recover_evm_signer, EvmSignatureError};

const HELLO_HASH: &str = "1c8aff950685c2ed4bc3174f3472287b56d9517b9c948127319a09a7a36deac8";
const HELLO_ETH_HASH: &str = "456e9aea5e197a1f1af7a3e85a3212fa4049a3ba34c2289b4c860fc0b0c64ef3";
const HELLO_SIG: &str = "d47644539acec3da5e3ecf5fe8863c628a9c97e8b71e9ea9167a6f4f83c03c3267fb5bc463a62a5b556b8ce7d6fa4711742ac56b2ee5d26444d87ef7a3ee408a1c";
const SIGNER_ONE: &str = "0000000000000000000000007e5f4552091a69125d5dfcb7b8c2659029395bdf";
const HELLO_SIG_HIGH_S: &str = "d47644539acec3da5e3ecf5fe8863c628a9c97e8b71e9ea9167a6f4f83c03c329804a43b9c59d5a4aa9473182905b8ed4684177b8062cdd77af9df952c4800b71b";

fn hex(s: &str) -> Vec<u8> {
    (0..s.len()).step_by(2).map(|i| u8::from_str_radix(&s[i..i + 2], 16).unwrap()).collect()
}

fn arr32(v: &[u8]) -> [u8; 32] {
    let mut a = [0u8; 32];
    a.copy_from_slice(v);
    a
}

#[test]
fn personal_message_hash_matches_reference() {
    let h = arr32(&hex(HELLO_HASH));
    assert_eq!(ethereum_signed_message_hash(&h).to_vec(), hex(HELLO_ETH_HASH));
    assert_ne!(ethereum_signed_message_hash(&h).to_vec(), hex(HELLO_HASH));
}

#[test]
fn known_vector_recovers_fixed_identity() {
    let r = recover_evm_signer(&hex(HELLO_ETH_HASH), &hex(HELLO_SIG));
    assert_eq!(r.map(|k| k.to_vec()), Ok(hex(SIGNER_ONE)));
}

#[test]
fn other_digest_recovers_other_identity() {
    let r = recover_evm_signer(&hex(HELLO_HASH), &hex(HELLO_SIG));
    assert!(r.is_ok());
    assert_ne!(r.unwrap().to_vec(), hex(SIGNER_ONE));
}

#[test]
fn recovery_id_outside_27_28_is_rejected() {
    for v in [0u8, 1, 26, 29, 255] {
        let mut sig = hex(HELLO_SIG);
        sig[64] = v;
        assert_eq!(recover_evm_signer(&hex(HELLO_ETH_HASH), &sig), Err(EvmSignatureError::InvalidRecoveryId));
    }
}

#[test]
fn signature_length_other_than_65_is_rejected() {
    let sig = hex(HELLO_SIG);
    assert_eq!(recover_evm_signer(&hex(HELLO_ETH_HASH), &sig[..64]), Err(EvmSignatureError::InvalidSignatureLength));
    let mut long = sig.clone();
    long.push(0);
    assert_eq!(recover_evm_signer(&hex(HELLO_ETH_HASH), &long), Err(EvmSignatureError::InvalidSignatureLength));
    assert_eq!(recover_evm_signer(&hex(HELLO_ETH_HASH), &[]), Err(EvmSignatureError::InvalidSignatureLength));
}

#[test]
fn digest_length_other_than_32_is_rejected() {
    assert_eq!(recover_evm_signer(&hex(HELLO_ETH_HASH)[..31], &hex(HELLO_SIG)), Err(EvmSignatureError::InvalidMessageHash));
}

#[test]
fn high_s_is_rejected() {
    assert_eq!(recover_evm_signer(&hex(HELLO_ETH_HASH), &hex(HELLO_SIG_HIGH_S)), Err(EvmSignatureError::InvalidSignatureSValue));
}

#[test]
fn r_not_below_order_is_rejected() {
    let mut sig = hex(HELLO_SIG);
    for b in sig[..32].iter_mut() {
        *b = 0xff;
    }
    assert_eq!(recover_evm_signer(&hex(HELLO_ETH_HASH), &sig), Err(EvmSignatureError::InvalidSignature));
}
