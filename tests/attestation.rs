use gateway::attestation::{
    decode_attestation_set, MintAttestation, MintAttestationElementStruct, MintAttestationStruct,
};
use gateway::error::GatewayMinterError;

fn key(b: u8) -> [u8; 32] {
    let mut k = [0u8; 32];
    k[0] = b;
    k[31] = b;
    k
}

fn sample<'a>(hooks: &'a [Vec<u8>]) -> MintAttestationStruct<'a> {
    MintAttestationStruct {
        version: 1,
        destination_domain: 7,
        destination_contract: key(60),
        destination_caller: [0u8; 32],
        max_block_height: 9000,
        elements: hooks
            .iter()
            .enumerate()
            .map(|(i, h)| MintAttestationElementStruct {
                destination_token: key(9),
                destination_recipient: key(20 + i as u8),
                value: 100 * (i as u64 + 1),
                transfer_spec_hash: key(30 + i as u8),
                hook_data: h.as_slice(),
            })
            .collect(),
    }
}

fn same(a: &MintAttestationStruct, b: &MintAttestationStruct) -> bool {
    a.version == b.version
        && a.destination_domain == b.destination_domain
        && a.destination_contract == b.destination_contract
        && a.destination_caller == b.destination_caller
        && a.max_block_height == b.max_block_height
        && a.elements.len() == b.elements.len()
        && a.elements.iter().zip(b.elements.iter()).all(|(x, y)| {
            x.destination_token == y.destination_token
                && x.destination_recipient == y.destination_recipient
                && x.value == y.value
                && x.transfer_spec_hash == y.transfer_spec_hash
                && x.hook_data == y.hook_data
        })
}

#[test]
fn encoding_has_the_documented_layout() {
    let hooks = vec![vec![0xaa, 0xbb]];
    let bytes = sample(&hooks).encode_attestation();
    assert_eq!(bytes.len(), 88 + 108 + 2);
    assert_eq!(&bytes[0..4], &[0x10, 0xcb, 0xb1, 0xec]);
    assert_eq!(&bytes[4..8], &[0, 0, 0, 1]);
    assert_eq!(&bytes[8..12], &[0, 0, 0, 7]);
    assert_eq!(&bytes[76..84], &9000u64.to_be_bytes());
    assert_eq!(&bytes[84..88], &[0, 0, 0, 1]);
    assert_eq!(&bytes[88 + 64..88 + 72], &100u64.to_be_bytes());
    assert_eq!(&bytes[88 + 104..88 + 108], &[0, 0, 0, 2]);
    assert_eq!(&bytes[196..198], &[0xaa, 0xbb]);
}

#[test]
fn round_trip_one_to_many_elements() {
    let cases: Vec<Vec<Vec<u8>>> = vec![
        vec![vec![]],
        vec![vec![1, 2, 3]],
        vec![vec![], vec![9; 40], vec![7]],
        vec![vec![5; 300], vec![], vec![], vec![1]],
    ];
    for hooks in cases.iter() {
        let x = sample(hooks);
        let bytes = x.encode_attestation();
        let decoded = decode_attestation_set(&bytes).unwrap();
        assert!(same(&x, &decoded));
    }
}

#[test]
fn truncation_anywhere_is_too_short() {
    let hooks = vec![vec![1, 2, 3], vec![4; 10]];
    let bytes = sample(&hooks).encode_attestation();
    for k in 0..bytes.len() {
        assert_eq!(
            decode_attestation_set(&bytes[..k]).err(),
            Some(GatewayMinterError::AttestationTooShort)
        );
    }
}

#[test]
fn trailing_byte_is_too_long() {
    let hooks = vec![vec![1, 2, 3], vec![]];
    let mut bytes = sample(&hooks).encode_attestation();
    for extra in [0u8, 1, 0xff] {
        bytes.push(extra);
        assert_eq!(decode_attestation_set(&bytes).err(), Some(GatewayMinterError::AttestationTooLong));
        bytes.pop();
    }
    let mut cursor = MintAttestation::new(&bytes).unwrap();
    assert_eq!(cursor.next(), Ok(true));
    assert_eq!(cursor.next(), Ok(true));
    assert_eq!(cursor.next(), Ok(false));
}

#[test]
fn declared_count_above_present_elements() {
    let hooks = vec![vec![1, 2]];
    let mut bytes = sample(&hooks).encode_attestation();
    bytes[87] = 2;
    let mut cursor = MintAttestation::new(&bytes).unwrap();
    assert_eq!(cursor.num_attestations(), Ok(2));
    assert_eq!(cursor.next(), Ok(true));
    assert_eq!(cursor.value(), Ok(100));
    assert_eq!(cursor.hook_data(), Ok(&[1u8, 2][..]));
    assert_eq!(cursor.next(), Err(GatewayMinterError::AttestationTooShort));
    assert_eq!(cursor.value(), Ok(100));
}

#[test]
fn cursor_reads_each_element_and_stops() {
    let hooks = vec![vec![1], vec![2, 2]];
    let bytes = sample(&hooks).encode_attestation();
    let mut cursor = MintAttestation::new(&bytes).unwrap();
    assert_eq!(cursor.version(), Ok(1));
    assert_eq!(cursor.destination_domain(), Ok(7));
    assert_eq!(cursor.destination_contract(), Ok(key(60)));
    assert_eq!(cursor.destination_caller(), Ok([0u8; 32]));
    assert_eq!(cursor.max_block_height(), Ok(9000));
    assert_eq!(cursor.magic(), Ok(0x10cbb1ec));
    assert_eq!(cursor.next(), Ok(true));
    assert_eq!(cursor.destination_recipient(), Ok(key(20)));
    assert_eq!(cursor.transfer_spec_hash(), Ok(key(30)));
    assert_eq!(cursor.hook_data_length(), Ok(1));
    assert_eq!(cursor.next(), Ok(true));
    assert_eq!(cursor.destination_token(), Ok(key(9)));
    assert_eq!(cursor.destination_recipient(), Ok(key(21)));
    assert_eq!(cursor.value(), Ok(200));
    assert_eq!(cursor.hook_data(), Ok(&[2u8, 2][..]));
    assert_eq!(cursor.next(), Ok(false));
    assert_eq!(cursor.next(), Ok(false));
}

#[test]
fn header_errors() {
    let hooks = vec![vec![]];
    let bytes = sample(&hooks).encode_attestation();
    let mut bad_magic = bytes.clone();
    bad_magic[0] = 0;
    assert_eq!(MintAttestation::new(&bad_magic).err(), Some(GatewayMinterError::AttestationMagicMismatch));
    let mut empty = bytes.clone();
    empty[87] = 0;
    assert_eq!(MintAttestation::new(&empty).err(), Some(GatewayMinterError::EmptyAttestationSet));
    assert_eq!(MintAttestation::new(&bytes[..195]).err(), Some(GatewayMinterError::AttestationTooShort));
}

#[test]
fn hook_length_past_buffer_is_too_short() {
    let hooks = vec![vec![1, 2]];
    let mut bytes = sample(&hooks).encode_attestation();
    bytes[88 + 104] = 0xff;
    let mut cursor = MintAttestation::new(&bytes).unwrap();
    assert_eq!(cursor.hook_data(), Err(GatewayMinterError::MalformedMintAttestation));
    assert_eq!(cursor.next(), Err(GatewayMinterError::AttestationTooShort));
}
