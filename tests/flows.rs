use gateway::burn_data::BurnData;
use gateway::ed25519::verify_user_signature;
use gateway::error::{GatewayMinterError, GatewayWalletError};
use gateway::minter::GatewayMinter;
use gateway::minter_flow::{
    burn_token_custody, gateway_mint, gateway_mint_with_params, process_mint, GatewayMintParams,
    GatewayMintReconstructParams, MintAttestationParams, MintElementAccounts,
};
use gateway::replay::{ClaimResult, ReplayRegistry};
use gateway::wallet::{GatewayDeposit, GatewayWallet};
use gateway::wallet_flow::{gateway_burn, process_burn, GatewayBurnParams, UserSignatureProof};

const BURN_DATA: &str = "000000000000000a000102030405060708090a0b0c0d0e0f101112131415161718191a1b1c1d1e1f202122232425262728292a2b2c2d2e2f303132333435363738393a3b3c3d3e3fff000000000000000000000000000000070afbc20000000000000000000000000000000000000000000000000000000000001388000000000000000000000000000000000000000000000000000000000000000a00000157ca85def70000000100000005000000073200000000000000000000000000000000000000000000000000000000000032330000000000000000000000000000000000000000000000000000000000003309000000000000000000000000000000000000000000000000000000000000090a0000000000000000000000000000000000000000000000000000000000000a03000000000000000000000000000000000000000000000000000000000000030b0000000000000000000000000000000000000000000000000000000000000b03000000000000000000000000000000000000000000000000000000000000030000000000000000000000000000000000000000000000000000000000000000000000000000000000000000000000000000000000000000000000000000003c0c0000000000000000000000000000000000000000000000000000000000000c00000003616263";
const BURN_TS_HASH: &str = "2ada38cf500326404a89b4a930497e8990a16a0cb8c4be1b2486004257db9ccf";
const BURN_SIG: &str = "50e8aa2a0538a8527928792008a8b0c47674a3e3ac88ed8aa002c645e84e540439643c14a0b63f0fd3c73d03c47e328855f67336d0cfab7761d8224b0b9c48aa1b";
const BURN_SIGNER: &str = "0000000000000000000000002b5ad5c4795c026514f8317c7a215e218dccd6cf";
const ATTESTATION: &str = "10cbb1ec00000001000000073c0000000000000000000000000000000000000000000000000000000000003c00000000000000000000000000000000000000000000000000000000000000000000000000002328000000020900000000000000000000000000000000000000000000000000000000000009140000000000000000000000000000000000000000000000000000000000001400000000000000641e0000000000000000000000000000000000000000000000000000000000001e0000000278790900000000000000000000000000000000000000000000000000000000000009150000000000000000000000000000000000000000000000000000000000001500000000000000c81f0000000000000000000000000000000000000000000000000000000000001f00000000";
const ATTESTATION_SIG: &str = "1cc67206eae6b37493a80c52c3167689a63fad2baeb28173fafd56adcca9564818784657e26013c979b90bab217a1ddff1ef25eed757e1149a4c2670a23a7e7f1b";
const ATTESTER: &str = "0000000000000000000000006813eb9362372eef6200f3b1dbc3f819671cba69";

fn hex(s: &str) -> Vec<u8> {
    (0..s.len()).step_by(2).map(|i| u8::from_str_radix(&s[i..i + 2], 16).unwrap()).collect()
}

fn arr32(v: &[u8]) -> [u8; 32] {
    let mut a = [0u8; 32];
    a.copy_from_slice(v);
    a
}

fn key(b: u8) -> [u8; 32] {
    let mut k = [0u8; 32];
    k[0] = b;
    k[31] = b;
    k
}

const ED25519: u8 = 77;

fn companion_header(index: u16, message_length: u16) -> Vec<u8> {
    let mut h = vec![1u8, 0];
    for v in [14u16, index, 374, index, 78, message_length, index] {
        h.extend_from_slice(&v.to_le_bytes());
    }
    h
}

fn wallet(signer: [u8; 32]) -> GatewayWallet {
    GatewayWallet {
        bump: 1,
        owner: key(1),
        pending_owner: [0u8; 32],
        pauser: key(1),
        denylister: key(1),
        token_controller: key(1),
        fee_recipient: key(2),
        local_domain: 5,
        version: 1,
        withdrawal_delay: 10,
        paused: false,
        supported_tokens: vec![key(9)],
        custody_token_account_bumps: vec![254],
        burn_signers: vec![signer],
    }
}

fn deposit(available: u64, withdrawing: u64) -> GatewayDeposit {
    GatewayDeposit {
        bump: 7,
        depositor: key(3),
        token_mint: key(9),
        available_amount: available,
        withdrawing_amount: withdrawing,
        withdrawal_block: 0,
    }
}

#[test]
fn burn_data_fields() {
    let data = hex(BURN_DATA);
    let b = BurnData::new(&data).unwrap();
    assert_eq!(b.fee(), Ok(10));
    assert_eq!(b.max_block_height(), Ok(5000));
    assert_eq!(b.max_fee(), Ok(10));
    assert_eq!(b.value(), Ok(60));
    assert_eq!(b.source_domain(), Ok(5));
    assert_eq!(b.destination_domain(), Ok(7));
    assert_eq!(b.source_signer(), Ok(key(3)));
    assert_eq!(b.hook_data(), Ok(&b"abc"[..]));
    assert_eq!(b.transfer_spec_length(), Ok(343));
    assert_eq!(b.burn_intent_message_length(), Ok(data.len() - 72));
    assert_eq!(b.transfer_spec_hash().map(|h| h.to_vec()), Ok(hex(BURN_TS_HASH)));
    assert_eq!(b.user_signature().map(|s| s[63]), Ok(63));
}

#[test]
fn burn_data_errors() {
    let data = hex(BURN_DATA);
    let mut bad = data.clone();
    bad[73] = 1;
    assert_eq!(BurnData::new(&bad).err(), Some(GatewayWalletError::InvalidBurnIntentMessagePrefix));
    let mut bad = data.clone();
    bad[88] = 0;
    assert_eq!(BurnData::new(&bad).err(), Some(GatewayWalletError::BurnIntentMagicMismatch));
    let mut bad = data.clone();
    bad[160] = 0;
    assert_eq!(BurnData::new(&bad).err(), Some(GatewayWalletError::TransferSpecMagicMismatch));
    let mut bad = data.clone();
    bad.push(0);
    assert_eq!(BurnData::new(&bad).err(), Some(GatewayWalletError::BurnIntentLengthMismatch));
    let mut bad = data.clone();
    bad[159] += 1;
    assert_eq!(BurnData::new(&bad).err(), Some(GatewayWalletError::BurnIntentLengthMismatch));
    let mut bad = data.clone();
    bad[432] = 1;
    assert_eq!(BurnData::new(&bad).err(), Some(GatewayWalletError::InvalidU64HighBytes));
    let mut bad = data.clone();
    bad[463] = 0;
    assert_eq!(BurnData::new(&bad).err(), Some(GatewayWalletError::InvalidBurnIntentValue));
    assert_eq!(BurnData::new(&data[..499]).err(), Some(GatewayWalletError::BurnIntentLengthMismatch));
    let mut bad = data.clone();
    bad[92] = 1;
    assert_eq!(BurnData::new(&bad).unwrap().max_block_height(), Err(GatewayWalletError::InvalidU64HighBytes));
}

#[test]
fn companion_proof_checks_every_field() {
    let len = (hex(BURN_DATA).len() - 72) as u16;
    let good = companion_header(1, len);
    assert_eq!(verify_user_signature(1, &key(ED25519), &good, &key(ED25519), len as usize), Ok(()));
    assert_eq!(
        verify_user_signature(0, &key(ED25519), &good, &key(ED25519), len as usize),
        Err(GatewayWalletError::PreviousInstructionNotEd25519Program)
    );
    assert_eq!(
        verify_user_signature(1, &key(78), &good, &key(ED25519), len as usize),
        Err(GatewayWalletError::PreviousInstructionNotEd25519Program)
    );
    assert_eq!(
        verify_user_signature(1, &key(ED25519), &good, &key(ED25519), 70000),
        Err(GatewayWalletError::MalformedBurnData)
    );
    assert_eq!(
        verify_user_signature(1, &key(ED25519), &good[..15], &key(ED25519), len as usize),
        Err(GatewayWalletError::InvalidEd25519InstructionData)
    );
    for i in 0..16 {
        let mut bad = good.clone();
        bad[i] ^= 0x40;
        assert_eq!(
            verify_user_signature(1, &key(ED25519), &bad, &key(ED25519), len as usize),
            Err(GatewayWalletError::InvalidEd25519InstructionData)
        );
    }
}

fn proof_for(header: &[u8]) -> UserSignatureProof<'_> {
    UserSignatureProof {
        current_instruction_index: 1,
        previous_program_id: key(ED25519),
        previous_data: header,
        ed25519_program_id: key(ED25519),
    }
}

#[test]
fn burn_charges_fee_and_value_then_refuses_replay() {
    let data = hex(BURN_DATA);
    let header = companion_header(1, (data.len() - 72) as u16);
    let proof = proof_for(&header);
    let w = wallet(arr32(&hex(BURN_SIGNER)));
    let mut d = deposit(50, 30);
    let mut reg = ReplayRegistry::new();
    let params = GatewayBurnParams { encoded_burn_data: data.clone(), burn_signature: hex(BURN_SIG) };
    let out = gateway_burn(&w, &key(50), &key(9), 1000, &mut d, None, &mut reg, &proof, 4000, &params).unwrap();
    assert_eq!(out.transfer_spec_hash.to_vec(), hex(BURN_TS_HASH));
    assert_eq!((out.requested, out.value, out.fee), (70, 60, 10));
    assert_eq!((out.from_available, out.from_withdrawing), (50, 20));
    assert_eq!(out.destination_domain, 7);
    assert_eq!(out.destination_recipient, key(11));
    assert_eq!((d.available_amount, d.withdrawing_amount), (0, 10));
    assert!(reg.is_used(&out.transfer_spec_hash));
    let again = gateway_burn(&w, &key(50), &key(9), 1000, &mut d, None, &mut reg, &proof, 4000, &params);
    assert_eq!(again.err(), Some(GatewayWalletError::TransferSpecHashAlreadyUsed));
    assert_eq!((d.available_amount, d.withdrawing_amount), (0, 10));
}

#[test]
fn burn_short_balance_burns_what_there_is() {
    let data = hex(BURN_DATA);
    let header = companion_header(1, (data.len() - 72) as u16);
    let proof = proof_for(&header);
    let w = wallet(key(99));
    let mut d = deposit(20, 10);
    let mut reg = ReplayRegistry::new();
    let out = process_burn(&w, &key(50), &key(9), 1000, &mut d, None, &mut reg, &proof, 4000, &data).unwrap();
    assert_eq!((out.requested, out.value, out.fee), (70, 30, 0));
    assert_eq!((d.available_amount, d.withdrawing_amount), (0, 0));
}

#[test]
fn burn_signer_errors() {
    let data = hex(BURN_DATA);
    let header = companion_header(1, (data.len() - 72) as u16);
    let proof = proof_for(&header);
    let mut d = deposit(50, 30);
    let mut reg = ReplayRegistry::new();
    let w = wallet(key(99));
    let params = GatewayBurnParams { encoded_burn_data: data.clone(), burn_signature: hex(BURN_SIG) };
    assert_eq!(
        gateway_burn(&w, &key(50), &key(9), 1000, &mut d, None, &mut reg, &proof, 4000, &params).err(),
        Some(GatewayWalletError::BurnSignerNotAuthorized)
    );
    let short = GatewayBurnParams { encoded_burn_data: data.clone(), burn_signature: hex(BURN_SIG)[..64].to_vec() };
    assert_eq!(
        gateway_burn(&w, &key(50), &key(9), 1000, &mut d, None, &mut reg, &proof, 4000, &short).err(),
        Some(GatewayWalletError::InvalidBurnSignerSignature)
    );
    let mut tampered = data.clone();
    tampered[0] = 9;
    let w = wallet(arr32(&hex(BURN_SIGNER)));
    let params = GatewayBurnParams { encoded_burn_data: tampered, burn_signature: hex(BURN_SIG) };
    assert_eq!(
        gateway_burn(&w, &key(50), &key(9), 1000, &mut d, None, &mut reg, &proof, 4000, &params).err(),
        Some(GatewayWalletError::BurnSignerNotAuthorized)
    );
    assert_eq!((d.available_amount, d.withdrawing_amount), (50, 30));
}

#[test]
fn burn_binding_errors() {
    let data = hex(BURN_DATA);
    let header = companion_header(1, (data.len() - 72) as u16);
    let proof = proof_for(&header);
    let w = wallet(key(99));
    let mut reg = ReplayRegistry::new();
    let mut d = deposit(50, 30);
    let run = |w: &GatewayWallet, program: u8, token: u8, custody: u64, slot: u64, d: &mut GatewayDeposit, reg: &mut ReplayRegistry| {
        process_burn(w, &key(program), &key(token), custody, d, None, reg, &proof, slot, &data).err()
    };
    assert_eq!(run(&w, 50, 9, 1000, 5001, &mut d, &mut reg), Some(GatewayWalletError::BurnIntentExpired));
    assert_eq!(run(&w, 51, 9, 1000, 1, &mut d, &mut reg), Some(GatewayWalletError::SourceContractMismatch));
    assert_eq!(run(&w, 50, 8, 1000, 1, &mut d, &mut reg), Some(GatewayWalletError::SourceTokenMismatch));
    assert_eq!(run(&w, 50, 9, 69, 1, &mut d, &mut reg), Some(GatewayWalletError::InsufficientCustodyBalance));
    let mut other = wallet(key(99));
    other.local_domain = 6;
    assert_eq!(run(&other, 50, 9, 1000, 1, &mut d, &mut reg), Some(GatewayWalletError::SourceDomainMismatch));
    other = wallet(key(99));
    other.version = 2;
    assert_eq!(run(&other, 50, 9, 1000, 1, &mut d, &mut reg), Some(GatewayWalletError::VersionMismatch));
    other = wallet(key(99));
    other.paused = true;
    assert_eq!(run(&other, 50, 9, 1000, 1, &mut d, &mut reg), Some(GatewayWalletError::ProgramPaused));
    let mut stranger = deposit(50, 30);
    stranger.depositor = key(4);
    assert_eq!(run(&w, 50, 9, 1000, 1, &mut stranger, &mut reg), Some(GatewayWalletError::SourceDepositorMismatch));
    let mut h = reg.copy();
    assert_eq!(h.claim(&arr32(&hex(BURN_TS_HASH))), ClaimResult::FirstUse);
    assert_eq!(run(&w, 50, 9, 1000, 1, &mut d, &mut h), Some(GatewayWalletError::TransferSpecHashAlreadyUsed));
    assert_eq!((d.available_amount, d.withdrawing_amount), (50, 30));
    assert!(!reg.is_used(&arr32(&hex(BURN_TS_HASH))));
}

#[test]
fn fee_above_max_fee_is_refused() {
    let mut data = hex(BURN_DATA);
    data[7] = 11;
    let header = companion_header(1, (data.len() - 72) as u16);
    let proof = proof_for(&header);
    let w = wallet(key(99));
    let mut reg = ReplayRegistry::new();
    let mut d = deposit(50, 30);
    assert_eq!(
        process_burn(&w, &key(50), &key(9), 1000, &mut d, None, &mut reg, &proof, 1, &data).err(),
        Some(GatewayWalletError::BurnFeeExceedsMaxFee)
    );
}

#[test]
fn replay_claim_once_then_always_used() {
    let mut reg = ReplayRegistry::new();
    assert_eq!(reg.claim(&key(1)), ClaimResult::FirstUse);
    for _ in 0..3 {
        assert_eq!(reg.claim(&key(1)), ClaimResult::AlreadyUsed);
    }
    assert_eq!(reg.claim(&key(2)), ClaimResult::FirstUse);
    assert_eq!(reg.claim(&key(1)), ClaimResult::AlreadyUsed);
    assert!(reg.is_used(&key(2)));
    assert!(!reg.is_used(&key(3)));
}

fn minter(attester: [u8; 32]) -> GatewayMinter {
    GatewayMinter {
        bump: 1,
        owner: key(1),
        pending_owner: [0u8; 32],
        pauser: key(1),
        token_controller: key(1),
        paused: false,
        enabled_attesters: vec![attester],
        local_domain: 7,
        version: 1,
        supported_tokens: vec![key(9)],
        custody_token_account_bumps: vec![250],
    }
}

fn mint_accounts() -> Vec<MintElementAccounts> {
    vec![
        MintElementAccounts { custody_mint: key(9), destination_mint: key(9), destination_account: key(20) },
        MintElementAccounts { custody_mint: key(9), destination_mint: key(9), destination_account: key(21) },
    ]
}

#[test]
fn mint_reports_transfers_then_refuses_replay() {
    let m = minter(arr32(&hex(ATTESTER)));
    let mut reg = ReplayRegistry::new();
    let params = GatewayMintParams { attestation: hex(ATTESTATION), signature: hex(ATTESTATION_SIG) };
    let out = gateway_mint(&m, &key(60), &key(5), 100, &mint_accounts(), &mut reg, &params).unwrap();
    assert_eq!(out.len(), 2);
    assert_eq!((out[0].recipient, out[0].value, out[0].transfer_spec_hash), (key(20), 100, key(30)));
    assert_eq!((out[1].recipient, out[1].value, out[1].token), (key(21), 200, key(9)));
    assert!(reg.is_used(&key(30)) && reg.is_used(&key(31)));
    let again = gateway_mint(&m, &key(60), &key(5), 100, &mint_accounts(), &mut reg, &params);
    assert_eq!(again.err(), Some(GatewayMinterError::TransferSpecHashAlreadyUsed));
}

#[test]
fn mint_signature_errors() {
    let mut reg = ReplayRegistry::new();
    let params = GatewayMintParams { attestation: hex(ATTESTATION), signature: hex(ATTESTATION_SIG) };
    let m = minter(key(99));
    assert_eq!(
        gateway_mint(&m, &key(60), &key(5), 100, &mint_accounts(), &mut reg, &params).err(),
        Some(GatewayMinterError::AttesterNotAuthorized)
    );
    let mut sig = hex(ATTESTATION_SIG);
    sig[64] = 30;
    let m = minter(arr32(&hex(ATTESTER)));
    let params = GatewayMintParams { attestation: hex(ATTESTATION), signature: sig };
    assert_eq!(
        gateway_mint(&m, &key(60), &key(5), 100, &mint_accounts(), &mut reg, &params).err(),
        Some(GatewayMinterError::InvalidAttesterSignature)
    );
    assert!(!reg.is_used(&key(30)));
}

#[test]
fn mint_binding_errors_change_nothing() {
    let m = minter(key(99));
    let data = hex(ATTESTATION);
    let mut reg = ReplayRegistry::new();
    assert_eq!(process_mint(&m, &key(60), &key(5), 9001, &data, &mint_accounts(), &mut reg).err(), Some(GatewayMinterError::AttestationExpired));
    assert_eq!(process_mint(&m, &key(61), &key(5), 1, &data, &mint_accounts(), &mut reg).err(), Some(GatewayMinterError::DestinationContractMismatch));
    assert_eq!(process_mint(&m, &key(60), &key(5), 1, &data, &mint_accounts()[..1].to_vec(), &mut reg).err(), Some(GatewayMinterError::RemainingAccountsLengthMismatch));
    let mut accts = mint_accounts();
    accts[1].destination_account = key(22);
    assert_eq!(process_mint(&m, &key(60), &key(5), 1, &data, &accts, &mut reg).err(), Some(GatewayMinterError::DestinationRecipientMismatch));
    assert!(!reg.is_used(&key(30)));
    let mut accts = mint_accounts();
    accts[0].destination_mint = key(8);
    assert_eq!(process_mint(&m, &key(60), &key(5), 1, &data, &accts, &mut reg).err(), Some(GatewayMinterError::DestinationTokenMismatch));
    let mut accts = mint_accounts();
    accts[0].custody_mint = key(8);
    assert_eq!(process_mint(&m, &key(60), &key(5), 1, &data, &accts, &mut reg).err(), Some(GatewayMinterError::TokenNotSupported));
    let mut caller_bound = data.clone();
    caller_bound[44] = 1;
    assert_eq!(process_mint(&m, &key(60), &key(5), 1, &caller_bound, &mint_accounts(), &mut reg).err(), Some(GatewayMinterError::DestinationCallerMismatch));
    let mut zero_value = data.clone();
    zero_value[88 + 71] = 0;
    assert_eq!(process_mint(&m, &key(60), &key(5), 1, &zero_value, &mint_accounts(), &mut reg).err(), Some(GatewayMinterError::InvalidAttestationValue));
    let mut dup = data.clone();
    let second = 88 + 108 + 2;
    dup[second + 72] = 30;
    dup[second + 103] = 30;
    assert_eq!(process_mint(&m, &key(60), &key(5), 1, &dup, &mint_accounts(), &mut reg).err(), Some(GatewayMinterError::TransferSpecHashAlreadyUsed));
    assert!(!reg.is_used(&key(30)));
    let mut paused = minter(key(99));
    paused.paused = true;
    assert_eq!(process_mint(&paused, &key(60), &key(5), 1, &data, &mint_accounts(), &mut reg).err(), Some(GatewayMinterError::ProgramPaused));
}

#[test]
fn mint_from_parameters_rebuilds_the_signed_set() {
    let m = minter(arr32(&hex(ATTESTER)));
    let mut reg = ReplayRegistry::new();
    let params = GatewayMintReconstructParams {
        is_default_destination_caller: true,
        max_block_height: 9000,
        elements: vec![
            MintAttestationParams { value: 100, transfer_spec_hash: key(30), hook_data: b"xy".to_vec() },
            MintAttestationParams { value: 200, transfer_spec_hash: key(31), hook_data: vec![] },
        ],
        signature: hex(ATTESTATION_SIG),
    };
    let out = gateway_mint_with_params(&m, &key(60), &key(5), 100, &mint_accounts(), &mut reg, params).unwrap();
    assert_eq!(out.len(), 2);
    let empty = GatewayMintReconstructParams {
        is_default_destination_caller: true,
        max_block_height: 9000,
        elements: vec![],
        signature: hex(ATTESTATION_SIG),
    };
    assert_eq!(
        gateway_mint_with_params(&m, &key(60), &key(5), 100, &vec![], &mut reg, empty).err(),
        Some(GatewayMinterError::EmptyAttestationSet)
    );
}

#[test]
fn custody_burn_is_capped() {
    let m = minter(key(99));
    assert_eq!(burn_token_custody(&m, &key(1), &key(9), 50, 80), Ok(50));
    assert_eq!(burn_token_custody(&m, &key(1), &key(9), 500, 80), Ok(80));
    assert_eq!(burn_token_custody(&m, &key(1), &key(9), 500, 0), Err(GatewayMinterError::InvalidBurnAmount));
    assert_eq!(burn_token_custody(&m, &key(2), &key(9), 500, 1), Err(GatewayMinterError::InvalidAuthority));
    assert_eq!(burn_token_custody(&m, &key(1), &key(8), 500, 1), Err(GatewayMinterError::TokenNotSupported));
}
