//! Administration of the wallet's configuration: ownership, roles, pause,
//! burn signers and supported tokens, each limited to its role holder.

use vstd::prelude::*;
use crate::bytes::{all_zero, is_zero_key, keys_equal, zero_key, Key};
use crate::error::GatewayWalletError;
use crate::wallet::{GatewayWallet, MAX_BURN_SIGNERS, MAX_SUPPORTED_TOKENS};

verus! {

/// A fresh configuration whose every role is the upgrade authority; the
/// withdrawal delay must be positive.
pub fn initialize(bump: u8, upgrade_authority: Key, local_domain: u32, withdrawal_delay: u64) -> (r: Result<GatewayWallet, GatewayWalletError>)
    ensures
        withdrawal_delay == 0 ==> r is Err && r->Err_0 == GatewayWalletError::InvalidWithdrawalDelay,
        withdrawal_delay > 0 ==> (r matches Ok(w) && w.bump == bump && w.owner == upgrade_authority
            && all_zero(w.pending_owner@) && w.pauser == upgrade_authority && w.denylister == upgrade_authority
            && w.token_controller == upgrade_authority && w.fee_recipient == upgrade_authority
            && w.local_domain == local_domain && w.version == 1 && w.withdrawal_delay == withdrawal_delay
            && !w.paused && w.supported_tokens@.len() == 0 && w.custody_token_account_bumps@.len() == 0
            && w.burn_signers@.len() == 0 && w.wf()),
{
    if withdrawal_delay == 0 {
        return Err(GatewayWalletError::InvalidWithdrawalDelay);
    }
    Ok(GatewayWallet {
        bump,
        owner: upgrade_authority,
        pending_owner: zero_key(),
        pauser: upgrade_authority,
        denylister: upgrade_authority,
        token_controller: upgrade_authority,
        fee_recipient: upgrade_authority,
        local_domain,
        version: 1,
        withdrawal_delay,
        paused: false,
        supported_tokens: Vec::new(),
        custody_token_account_bumps: Vec::new(),
        burn_signers: Vec::new(),
    })
}

/// Starts handing the configuration to `new_owner`, who must accept.
pub fn transfer_ownership(state: &mut GatewayWallet, caller: &Key, new_owner: Key) -> (r: Result<(), GatewayWalletError>)
    ensures
        r == (if *caller != old(state).owner {
            Err(GatewayWalletError::InvalidAuthority)
        } else {
            Ok(())
        }),
        r is Err ==> *final(state) == *old(state),
        r is Ok ==> *final(state) == (GatewayWallet { pending_owner: new_owner, ..*old(state) }),
{
    if !keys_equal(caller, &state.owner) {
        return Err(GatewayWalletError::InvalidAuthority);
    }
    state.pending_owner = new_owner;
    Ok(())
}

/// The pending owner takes over; no owner is pending afterwards.
pub fn accept_ownership(state: &mut GatewayWallet, caller: &Key) -> (r: Result<(), GatewayWalletError>)
    ensures
        r == (if *caller != old(state).pending_owner {
            Err(GatewayWalletError::InvalidAuthority)
        } else {
            Ok(())
        }),
        r is Err ==> *final(state) == *old(state),
        r is Ok ==> final(state).owner == old(state).pending_owner && all_zero(final(state).pending_owner@)
            && *final(state) == (GatewayWallet { owner: final(state).owner, pending_owner: final(state).pending_owner, ..*old(state) }),
{
    if !keys_equal(caller, &state.pending_owner) {
        return Err(GatewayWalletError::InvalidAuthority);
    }
    state.owner = state.pending_owner;
    state.pending_owner = zero_key();
    Ok(())
}

/// The owner names a new pauser.
pub fn update_pauser(state: &mut GatewayWallet, caller: &Key, new_pauser: Key) -> (r: Result<(), GatewayWalletError>)
    ensures
        r == (if *caller != old(state).owner {
            Err(GatewayWalletError::InvalidAuthority)
        } else if all_zero(new_pauser@) {
            Err(GatewayWalletError::InvalidPauser)
        } else {
            Ok(())
        }),
        r is Err ==> *final(state) == *old(state),
        r is Ok ==> *final(state) == (GatewayWallet { pauser: new_pauser, ..*old(state) }),
{
    if !keys_equal(caller, &state.owner) {
        return Err(GatewayWalletError::InvalidAuthority);
    }
    if is_zero_key(&new_pauser) {
        return Err(GatewayWalletError::InvalidPauser);
    }
    state.pauser = new_pauser;
    Ok(())
}

/// The owner names a new denylister.
pub fn update_denylister(state: &mut GatewayWallet, caller: &Key, new_denylister: Key) -> (r: Result<(), GatewayWalletError>)
    ensures
        r == (if *caller != old(state).owner {
            Err(GatewayWalletError::InvalidAuthority)
        } else if all_zero(new_denylister@) {
            Err(GatewayWalletError::InvalidDenylister)
        } else {
            Ok(())
        }),
        r is Err ==> *final(state) == *old(state),
        r is Ok ==> *final(state) == (GatewayWallet { denylister: new_denylister, ..*old(state) }),
{
    if !keys_equal(caller, &state.owner) {
        return Err(GatewayWalletError::InvalidAuthority);
    }
    if is_zero_key(&new_denylister) {
        return Err(GatewayWalletError::InvalidDenylister);
    }
    state.denylister = new_denylister;
    Ok(())
}

/// The owner names a new token controller.
pub fn update_token_controller(state: &mut GatewayWallet, caller: &Key, new_token_controller: Key) -> (r: Result<(), GatewayWalletError>)
    ensures
        r == (if *caller != old(state).owner {
            Err(GatewayWalletError::InvalidAuthority)
        } else if all_zero(new_token_controller@) {
            Err(GatewayWalletError::InvalidTokenController)
        } else {
            Ok(())
        }),
        r is Err ==> *final(state) == *old(state),
        r is Ok ==> *final(state) == (GatewayWallet { token_controller: new_token_controller, ..*old(state) }),
{
    if !keys_equal(caller, &state.owner) {
        return Err(GatewayWalletError::InvalidAuthority);
    }
    if is_zero_key(&new_token_controller) {
        return Err(GatewayWalletError::InvalidTokenController);
    }
    state.token_controller = new_token_controller;
    Ok(())
}

/// The owner names a new fee recipient.
pub fn update_fee_recipient(state: &mut GatewayWallet, caller: &Key, new_fee_recipient: Key) -> (r: Result<(), GatewayWalletError>)
    ensures
        r == (if *caller != old(state).owner {
            Err(GatewayWalletError::InvalidAuthority)
        } else if all_zero(new_fee_recipient@) {
            Err(GatewayWalletError::InvalidAuthority)
        } else {
            Ok(())
        }),
        r is Err ==> *final(state) == *old(state),
        r is Ok ==> *final(state) == (GatewayWallet { fee_recipient: new_fee_recipient, ..*old(state) }),
{
    if !keys_equal(caller, &state.owner) {
        return Err(GatewayWalletError::InvalidAuthority);
    }
    if is_zero_key(&new_fee_recipient) {
        return Err(GatewayWalletError::InvalidAuthority);
    }
    state.fee_recipient = new_fee_recipient;
    Ok(())
}

/// The pauser stops the wallet.
pub fn pause(state: &mut GatewayWallet, caller: &Key) -> (r: Result<(), GatewayWalletError>)
    ensures
        r == (if *caller != old(state).pauser {
            Err(GatewayWalletError::InvalidAuthority)
        } else {
            Ok(())
        }),
        r is Err ==> *final(state) == *old(state),
        r is Ok ==> *final(state) == (GatewayWallet { paused: true, ..*old(state) }),
{
    if !keys_equal(caller, &state.pauser) {
        return Err(GatewayWalletError::InvalidAuthority);
    }
    state.paused = true;
    Ok(())
}

/// The pauser restarts the wallet.
pub fn unpause(state: &mut GatewayWallet, caller: &Key) -> (r: Result<(), GatewayWalletError>)
    ensures
        r == (if *caller != old(state).pauser {
            Err(GatewayWalletError::InvalidAuthority)
        } else {
            Ok(())
        }),
        r is Err ==> *final(state) == *old(state),
        r is Ok ==> *final(state) == (GatewayWallet { paused: false, ..*old(state) }),
{
    if !keys_equal(caller, &state.pauser) {
        return Err(GatewayWalletError::InvalidAuthority);
    }
    state.paused = false;
    Ok(())
}

/// The owner sets a new, positive withdrawal delay.
pub fn update_withdrawal_delay(state: &mut GatewayWallet, caller: &Key, new_delay: u64) -> (r: Result<(), GatewayWalletError>)
    ensures
        r == (if *caller != old(state).owner {
            Err(GatewayWalletError::InvalidAuthority)
        } else if new_delay == 0 {
            Err(GatewayWalletError::InvalidWithdrawalDelay)
        } else {
            Ok(())
        }),
        r is Err ==> *final(state) == *old(state),
        r is Ok ==> *final(state) == (GatewayWallet { withdrawal_delay: new_delay, ..*old(state) }),
{
    if !keys_equal(caller, &state.owner) {
        return Err(GatewayWalletError::InvalidAuthority);
    }
    if new_delay == 0 {
        return Err(GatewayWalletError::InvalidWithdrawalDelay);
    }
    state.withdrawal_delay = new_delay;
    Ok(())
}

/// The owner enrolls a burn signer.
pub fn add_burn_signer(state: &mut GatewayWallet, caller: &Key, signer: Key) -> (r: Result<(), GatewayWalletError>)
    ensures
        *caller != old(state).owner ==> r == Err::<(), GatewayWalletError>(GatewayWalletError::InvalidAuthority),
        *caller == old(state).owner && all_zero(signer@) ==> r == Err::<(), GatewayWalletError>(GatewayWalletError::InvalidBurnSigner),
        *caller == old(state).owner && !all_zero(signer@) && !old(state).burn_signers@.contains(signer)
            && old(state).burn_signers@.len() >= MAX_BURN_SIGNERS ==> r == Err::<(), GatewayWalletError>(GatewayWalletError::BurnSignerLimitExceeded),
        *caller == old(state).owner && !all_zero(signer@) && old(state).burn_signers@.contains(signer)
            ==> r is Ok && *final(state) == *old(state),
        *caller == old(state).owner && !all_zero(signer@) && !old(state).burn_signers@.contains(signer)
            && old(state).burn_signers@.len() < MAX_BURN_SIGNERS ==> r is Ok
            && final(state).burn_signers@ == old(state).burn_signers@.push(signer)
            && final(state).supported_tokens == old(state).supported_tokens
            && final(state).custody_token_account_bumps == old(state).custody_token_account_bumps
            && final(state).same_settings(old(state)),
        r is Err ==> *final(state) == *old(state),
        old(state).wf() ==> final(state).wf(),
{
    if !keys_equal(caller, &state.owner) {
        return Err(GatewayWalletError::InvalidAuthority);
    }
    if is_zero_key(&signer) {
        return Err(GatewayWalletError::InvalidBurnSigner);
    }
    let r = state.add_burn_signer(signer);
    proof {
        if r is Ok && !old(state).burn_signers@.contains(signer) {
            assert(final(state).burn_signers@[final(state).burn_signers@.len() - 1] == signer);
        }
    }
    r
}

/// The owner removes a burn signer.
pub fn remove_burn_signer(state: &mut GatewayWallet, caller: &Key, signer: Key) -> (r: Result<(), GatewayWalletError>)
    ensures
        *caller != old(state).owner ==> r == Err::<(), GatewayWalletError>(GatewayWalletError::InvalidAuthority) && *final(state) == *old(state),
        *caller == old(state).owner ==> r is Ok && (old(state).wf() ==> !final(state).burn_signers@.contains(signer)),
        *caller == old(state).owner && !old(state).burn_signers@.contains(signer) ==> *final(state) == *old(state),
        *caller == old(state).owner && old(state).burn_signers@.contains(signer) ==> exists|i: int|
            0 <= i < old(state).burn_signers@.len() && old(state).burn_signers@[i] == signer
                && final(state).burn_signers@ == old(state).burn_signers@.remove(i),
        final(state).supported_tokens == old(state).supported_tokens,
        final(state).custody_token_account_bumps == old(state).custody_token_account_bumps,
        final(state).same_settings(old(state)),
        old(state).wf() ==> final(state).wf(),
{
    if !keys_equal(caller, &state.owner) {
        return Err(GatewayWalletError::InvalidAuthority);
    }
    state.remove_burn_signer(signer)
}

/// The token controller adds a supported token with its custody bump.
pub fn add_token(state: &mut GatewayWallet, caller: &Key, token_mint: Key, bump: u8) -> (r: Result<(), GatewayWalletError>)
    ensures
        *caller != old(state).token_controller ==> r == Err::<(), GatewayWalletError>(GatewayWalletError::InvalidAuthority) && *final(state) == *old(state),
        *caller == old(state).token_controller && !old(state).supported_tokens@.contains(token_mint)
            && old(state).supported_tokens@.len() >= MAX_SUPPORTED_TOKENS ==> r == Err::<(), GatewayWalletError>(GatewayWalletError::MaxTokensSupported),
        *caller == old(state).token_controller && old(state).supported_tokens@.contains(token_mint)
            ==> r is Ok && *final(state) == *old(state),
        *caller == old(state).token_controller && !old(state).supported_tokens@.contains(token_mint)
            && old(state).supported_tokens@.len() < MAX_SUPPORTED_TOKENS ==> r is Ok
            && final(state).supported_tokens@ == old(state).supported_tokens@.push(token_mint)
            && final(state).custody_token_account_bumps@ == old(state).custody_token_account_bumps@.push(bump)
            && final(state).burn_signers == old(state).burn_signers
            && final(state).same_settings(old(state)),
        r is Err ==> *final(state) == *old(state),
        old(state).wf() ==> final(state).wf(),
{
    if !keys_equal(caller, &state.token_controller) {
        return Err(GatewayWalletError::InvalidAuthority);
    }
    let r = state.add_token(token_mint, bump);
    proof {
        if r is Ok && !old(state).supported_tokens@.contains(token_mint) {
            assert(final(state).supported_tokens@[final(state).supported_tokens@.len() - 1] == token_mint);
        }
    }
    r
}

} // verus!
