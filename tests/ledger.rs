use gateway::replay::{is_transfer_spec_hash_used, used_hash_account_plan, UsedHashAccountPlan};
use gateway::error::GatewayWalletError;
use gateway::wallet::{DelegateStatus, GatewayDelegate, GatewayDeposit, GatewayWallet};
use gateway::wallet::validate_signer_authorization;
use gateway::wallet_flow::{add_delegate, deposit_for, initiate_withdrawal, remove_delegate, withdraw};

fn key(b: u8) -> [u8; 32] {
    let mut k = [0u8; 32];
    k[31] = b;
    k[0] = b;
    k
}

fn wallet() -> GatewayWallet {
    GatewayWallet {
        bump: 1,
        owner: key(1),
        pending_owner: [0u8; 32],
        pauser: key(1),
        denylister: key(1),
        token_controller: key(1),
        fee_recipient: key(2),
        local_domain: 5,
        version: 1,
        withdrawal_delay: 10,
        paused: false,
        supported_tokens: vec![key(9)],
        custody_token_account_bumps: vec![254],
        burn_signers: vec![],
    }
}

fn deposit(available: u64, withdrawing: u64) -> GatewayDeposit {
    GatewayDeposit {
        bump: 7,
        depositor: key(3),
        token_mint: key(9),
        available_amount: available,
        withdrawing_amount: withdrawing,
        withdrawal_block: 0,
    }
}

#[test]
fn reduce_balance_splits_across_balances() {
    let mut d = deposit(100, 80);
    assert_eq!(d.reduce_balance(150), Ok((100, 50)));
    assert_eq!(d.available_amount, 0);
    assert_eq!(d.withdrawing_amount, 30);
}

#[test]
fn reduce_balance_from_available_only() {
    let mut d = deposit(100, 80);
    assert_eq!(d.reduce_balance(40), Ok((40, 0)));
    assert_eq!(d.available_amount, 60);
    assert_eq!(d.withdrawing_amount, 80);
}

#[test]
fn reduce_balance_short_returns_partial() {
    let mut d = deposit(10, 20);
    assert_eq!(d.reduce_balance(100), Ok((10, 20)));
    assert_eq!(d.available_amount, 0);
    assert_eq!(d.withdrawing_amount, 0);
}

#[test]
fn reduce_balance_zero_is_refused() {
    let mut d = deposit(10, 20);
    assert_eq!(d.reduce_balance(0), Err(GatewayWalletError::InvalidBalanceReductionAmount));
    assert_eq!(d.available_amount, 10);
}

#[test]
fn withdrawal_waits_for_its_block() {
    let w = wallet();
    let mut d = deposit(100, 0);
    assert_eq!(initiate_withdrawal(&mut d, &w, 50, 1000), Ok((50, 50, 1010)));
    assert_eq!(d.withdrawal_block, 1010);
    assert_eq!(withdraw(&mut d, &w, 1009), Err(GatewayWalletError::WithdrawalDelayNotElapsed));
    assert_eq!(d.withdrawing_amount, 50);
    assert_eq!(withdraw(&mut d, &w, 1010), Ok(50));
    assert_eq!(d.withdrawing_amount, 0);
    assert_eq!(d.withdrawal_block, 0);
    assert_eq!(d.available_amount, 50);
}

#[test]
fn second_withdrawal_merges_and_restarts_timer() {
    let w = wallet();
    let mut d = deposit(100, 0);
    assert_eq!(initiate_withdrawal(&mut d, &w, 30, 1000), Ok((70, 30, 1010)));
    assert_eq!(initiate_withdrawal(&mut d, &w, 20, 1005), Ok((50, 50, 1015)));
}

#[test]
fn withdrawal_errors() {
    let w = wallet();
    let mut d = deposit(100, 0);
    assert_eq!(initiate_withdrawal(&mut d, &w, 0, 1), Err(GatewayWalletError::InvalidWithdrawalAmount));
    assert_eq!(initiate_withdrawal(&mut d, &w, 101, 1), Err(GatewayWalletError::InsufficientDepositBalance));
    assert_eq!(withdraw(&mut d, &w, 5), Err(GatewayWalletError::NoWithdrawalInProgress));
    d.token_mint = key(8);
    assert_eq!(initiate_withdrawal(&mut d, &w, 1, 1), Err(GatewayWalletError::TokenNotSupported));
    let mut paused = wallet();
    paused.paused = true;
    assert_eq!(withdraw(&mut d, &paused, 5), Err(GatewayWalletError::ProgramPaused));
}

#[test]
fn deposit_for_credits_and_initializes() {
    let w = wallet();
    let mut d = GatewayDeposit {
        bump: 0,
        depositor: [0u8; 32],
        token_mint: [0u8; 32],
        available_amount: 0,
        withdrawing_amount: 0,
        withdrawal_block: 0,
    };
    assert_eq!(deposit_for(&mut d, &w, 200, key(9), key(3), false, false, 75), Ok(()));
    assert_eq!(d.bump, 200);
    assert_eq!(d.depositor, key(3));
    assert_eq!(d.available_amount, 75);
    assert_eq!(deposit_for(&mut d, &w, 100, key(9), key(3), false, false, 5), Ok(()));
    assert_eq!(d.bump, 200);
    assert_eq!(d.available_amount, 80);
}

#[test]
fn deposit_for_errors() {
    let w = wallet();
    let mut d = deposit(0, 0);
    assert_eq!(deposit_for(&mut d, &w, 1, key(9), [0u8; 32], false, false, 5), Err(GatewayWalletError::InvalidDepositor));
    assert_eq!(deposit_for(&mut d, &w, 1, key(9), key(3), true, false, 5), Err(GatewayWalletError::AccountDenylisted));
    assert_eq!(deposit_for(&mut d, &w, 1, key(9), key(3), false, true, 5), Err(GatewayWalletError::AccountDenylisted));
    assert_eq!(deposit_for(&mut d, &w, 1, key(9), key(3), false, false, 0), Err(GatewayWalletError::InvalidDepositAmount));
    assert_eq!(d.available_amount, 0);
}

fn unauthorized_delegate() -> GatewayDelegate {
    GatewayDelegate {
        bump: 0,
        status: DelegateStatus::Unauthorized,
        closeable_at_block: 0,
        token: [0u8; 32],
        depositor: [0u8; 32],
        delegate: [0u8; 32],
    }
}

#[test]
fn revoked_delegate_still_authorized() {
    let w = wallet();
    let mut rec = unauthorized_delegate();
    assert_eq!(add_delegate(&mut rec, &w, 3, key(9), key(3), key(4), false, false), Ok(()));
    assert_eq!(rec.status, DelegateStatus::Authorized);
    assert_eq!(validate_signer_authorization(&key(4), &key(3), Some(&rec)), Ok(()));
    assert_eq!(remove_delegate(&mut rec, &w, key(9), key(4), false), Ok(true));
    assert_eq!(rec.status, DelegateStatus::Revoked);
    assert_eq!(validate_signer_authorization(&key(4), &key(3), Some(&rec)), Ok(()));
    assert_eq!(remove_delegate(&mut rec, &w, key(9), key(4), false), Ok(false));
}

#[test]
fn revoked_delegate_is_not_reauthorized() {
    let w = wallet();
    let mut rec = unauthorized_delegate();
    assert_eq!(add_delegate(&mut rec, &w, 3, key(9), key(3), key(4), false, false), Ok(()));
    assert_eq!(remove_delegate(&mut rec, &w, key(9), key(4), false), Ok(true));
    assert_eq!(add_delegate(&mut rec, &w, 3, key(9), key(3), key(4), false, false), Ok(()));
    assert_eq!(rec.status, DelegateStatus::Revoked);
}

#[test]
fn signer_authorization_errors() {
    let mut rec = unauthorized_delegate();
    rec.depositor = key(3);
    rec.delegate = key(4);
    assert_eq!(validate_signer_authorization(&key(3), &key(3), None), Ok(()));
    assert_eq!(validate_signer_authorization(&key(4), &key(3), None), Err(GatewayWalletError::InvalidDelegateAccount));
    assert_eq!(validate_signer_authorization(&key(4), &key(3), Some(&rec)), Err(GatewayWalletError::DelegateSignerNotAuthorized));
    assert_eq!(validate_signer_authorization(&key(5), &key(3), Some(&rec)), Err(GatewayWalletError::DelegateSignerMismatch));
    assert_eq!(validate_signer_authorization(&key(4), &key(6), Some(&rec)), Err(GatewayWalletError::DelegateDepositorMismatch));
}

#[test]
fn add_delegate_errors() {
    let w = wallet();
    let mut rec = unauthorized_delegate();
    assert_eq!(add_delegate(&mut rec, &w, 3, key(9), key(3), [0u8; 32], false, false), Err(GatewayWalletError::InvalidDelegate));
    assert_eq!(add_delegate(&mut rec, &w, 3, key(9), key(3), key(3), false, false), Err(GatewayWalletError::CannotDelegateToSelf));
    assert_eq!(add_delegate(&mut rec, &w, 3, key(9), key(3), key(4), true, false), Err(GatewayWalletError::AccountDenylisted));
    assert_eq!(add_delegate(&mut rec, &w, 3, key(8), key(3), key(4), false, false), Err(GatewayWalletError::TokenNotSupported));
    assert_eq!(rec.status, DelegateStatus::Unauthorized);
}

#[test]
fn token_and_signer_registries_are_bounded() {
    let mut w = wallet();
    assert_eq!(w.add_token(key(9), 1), Ok(()));
    assert_eq!(w.supported_tokens.len(), 1);
    for i in 10..19u8 {
        assert_eq!(w.add_token(key(i), i), Ok(()));
    }
    assert_eq!(w.add_token(key(30), 30), Err(GatewayWalletError::MaxTokensSupported));
    assert_eq!(w.get_custody_token_account_bump(key(12)), Ok(12));
    assert_eq!(w.get_custody_token_account_bump(key(31)), Err(GatewayWalletError::TokenNotSupported));
    for i in 40..50u8 {
        assert_eq!(w.add_burn_signer(key(i)), Ok(()));
    }
    assert_eq!(w.add_burn_signer(key(60)), Err(GatewayWalletError::BurnSignerLimitExceeded));
    assert_eq!(w.remove_burn_signer(key(41)), Ok(()));
    assert!(!w.is_burn_signer(key(41)));
    assert_eq!(w.burn_signers.len(), 9);
    assert_eq!(w.add_burn_signer(key(60)), Ok(()));
}

#[test]
fn used_hash_record_tag_and_plan() {
    assert!(is_transfer_spec_hash_used(&[11, 1, 0], &[11, 1]));
    assert!(!is_transfer_spec_hash_used(&[11], &[11, 1]));
    assert!(!is_transfer_spec_hash_used(&[11, 2], &[11, 1]));
    assert!(!is_transfer_spec_hash_used(&[], &[11, 1]));
    assert!(!is_transfer_spec_hash_used(&[11, 1, 0], &[11]));
    assert!(!is_transfer_spec_hash_used(&[11, 1, 0], &[11, 1, 0]));
    assert_eq!(used_hash_account_plan(0, 900), UsedHashAccountPlan::Create { lamports: 900 });
    assert_eq!(used_hash_account_plan(100, 900), UsedHashAccountPlan::AllocateAndAssign { top_up: 800 });
    assert_eq!(used_hash_account_plan(1000, 900), UsedHashAccountPlan::AllocateAndAssign { top_up: 0 });
}

#[test]
fn deposit_errors_leave_record_untouched() {
    let w = wallet();
    let mut d = GatewayDeposit {
        bump: 0,
        depositor: [0u8; 32],
        token_mint: [0u8; 32],
        available_amount: 0,
        withdrawing_amount: 0,
        withdrawal_block: 0,
    };
    assert_eq!(deposit_for(&mut d, &w, 200, key(9), key(3), false, false, 0), Err(GatewayWalletError::InvalidDepositAmount));
    assert_eq!(d.bump, 0);
    assert_eq!(d.depositor, [0u8; 32]);
    let mut paused = wallet();
    paused.paused = true;
    assert_eq!(deposit_for(&mut d, &paused, 200, key(9), key(3), false, false, 5), Err(GatewayWalletError::ProgramPaused));
}
