use gateway::error::{GatewayMinterError, GatewayWalletError};
use gateway::{minter_admin, wallet_admin};

fn key(b: u8) -> [u8; 32] {
    let mut k = [0u8; 32];
    k[0] = b;
    k[31] = b;
    k
}

#[test]
fn wallet_initialize_and_roles() {
    assert_eq!(wallet_admin::initialize(1, key(1), 5, 0).err(), Some(GatewayWalletError::InvalidWithdrawalDelay));
    let mut w = wallet_admin::initialize(1, key(1), 5, 10).unwrap();
    assert_eq!(w.owner, key(1));
    assert_eq!(w.version, 1);
    assert_eq!(wallet_admin::update_pauser(&mut w, &key(2), key(3)), Err(GatewayWalletError::InvalidAuthority));
    assert_eq!(wallet_admin::update_pauser(&mut w, &key(1), [0u8; 32]), Err(GatewayWalletError::InvalidPauser));
    assert_eq!(wallet_admin::update_pauser(&mut w, &key(1), key(3)), Ok(()));
    assert_eq!(w.pauser, key(3));
    assert_eq!(wallet_admin::update_denylister(&mut w, &key(1), [0u8; 32]), Err(GatewayWalletError::InvalidDenylister));
    assert_eq!(wallet_admin::update_token_controller(&mut w, &key(1), [0u8; 32]), Err(GatewayWalletError::InvalidTokenController));
    assert_eq!(wallet_admin::update_fee_recipient(&mut w, &key(1), [0u8; 32]), Err(GatewayWalletError::InvalidAuthority));
    assert_eq!(wallet_admin::update_fee_recipient(&mut w, &key(1), key(4)), Ok(()));
    assert_eq!(w.fee_recipient, key(4));
    assert_eq!(wallet_admin::pause(&mut w, &key(1)), Err(GatewayWalletError::InvalidAuthority));
    assert_eq!(wallet_admin::pause(&mut w, &key(3)), Ok(()));
    assert!(w.paused);
    assert_eq!(wallet_admin::unpause(&mut w, &key(3)), Ok(()));
    assert!(!w.paused);
    assert_eq!(wallet_admin::update_withdrawal_delay(&mut w, &key(1), 0), Err(GatewayWalletError::InvalidWithdrawalDelay));
    assert_eq!(wallet_admin::update_withdrawal_delay(&mut w, &key(1), 20), Ok(()));
    assert_eq!(w.withdrawal_delay, 20);
}

#[test]
fn wallet_two_step_ownership() {
    let mut w = wallet_admin::initialize(1, key(1), 5, 10).unwrap();
    assert_eq!(wallet_admin::transfer_ownership(&mut w, &key(2), key(5)), Err(GatewayWalletError::InvalidAuthority));
    assert_eq!(wallet_admin::transfer_ownership(&mut w, &key(1), key(5)), Ok(()));
    assert_eq!(w.owner, key(1));
    assert_eq!(wallet_admin::accept_ownership(&mut w, &key(1)), Err(GatewayWalletError::InvalidAuthority));
    assert_eq!(wallet_admin::accept_ownership(&mut w, &key(5)), Ok(()));
    assert_eq!(w.owner, key(5));
    assert_eq!(w.pending_owner, [0u8; 32]);
}

#[test]
fn wallet_signers_and_tokens_need_their_role() {
    let mut w = wallet_admin::initialize(1, key(1), 5, 10).unwrap();
    assert_eq!(wallet_admin::add_burn_signer(&mut w, &key(2), key(7)), Err(GatewayWalletError::InvalidAuthority));
    assert_eq!(wallet_admin::add_burn_signer(&mut w, &key(1), [0u8; 32]), Err(GatewayWalletError::InvalidBurnSigner));
    assert_eq!(wallet_admin::add_burn_signer(&mut w, &key(1), key(7)), Ok(()));
    assert!(w.is_burn_signer(key(7)));
    assert_eq!(wallet_admin::remove_burn_signer(&mut w, &key(1), key(7)), Ok(()));
    assert!(!w.is_burn_signer(key(7)));
    assert_eq!(wallet_admin::add_token(&mut w, &key(2), key(9), 3), Err(GatewayWalletError::InvalidAuthority));
    assert_eq!(wallet_admin::add_token(&mut w, &key(1), key(9), 3), Ok(()));
    assert!(w.is_token_supported(key(9)));
}

#[test]
fn minter_roles_and_attesters() {
    let mut m = minter_admin::initialize(2, key(1), 7);
    assert_eq!(m.local_domain, 7);
    assert_eq!(minter_admin::add_attester(&mut m, &key(2), key(8)), Err(GatewayMinterError::InvalidAuthority));
    assert_eq!(minter_admin::add_attester(&mut m, &key(1), [0u8; 32]), Err(GatewayMinterError::InvalidAttester));
    for i in 10..20u8 {
        assert_eq!(minter_admin::add_attester(&mut m, &key(1), key(i)), Ok(()));
    }
    assert_eq!(minter_admin::add_attester(&mut m, &key(1), key(30)), Err(GatewayMinterError::AttesterLimitExceeded));
    assert_eq!(minter_admin::add_attester(&mut m, &key(1), key(12)), Ok(()));
    assert_eq!(minter_admin::remove_attester(&mut m, &key(1), key(12)), Ok(()));
    assert!(!m.is_attester_enabled(key(12)));
    assert_eq!(minter_admin::update_token_controller(&mut m, &key(1), key(4)), Ok(()));
    assert_eq!(minter_admin::add_token(&mut m, &key(1), key(9), 2), Err(GatewayMinterError::InvalidAuthority));
    assert_eq!(minter_admin::add_token(&mut m, &key(4), key(9), 2), Ok(()));
    assert_eq!(m.get_custody_token_account_bump(key(9)), Ok(2));
    assert_eq!(minter_admin::update_pauser(&mut m, &key(1), [0u8; 32]), Err(GatewayMinterError::InvalidPauser));
    assert_eq!(minter_admin::pause(&mut m, &key(1)), Ok(()));
    assert!(m.paused);
    assert_eq!(minter_admin::transfer_ownership(&mut m, &key(1), key(6)), Ok(()));
    assert_eq!(minter_admin::accept_ownership(&mut m, &key(6)), Ok(()));
    assert_eq!(m.owner, key(6));
}
