//! Administration of the minter's configuration: ownership, roles, pause,
//! attesters and supported tokens, each limited to its role holder.

use vstd::prelude::*;
use crate::bytes::{all_zero, is_zero_key, keys_equal, zero_key, Key};
use crate::error::GatewayMinterError;
use crate::minter::{GatewayMinter, MAX_ATTESTERS, MAX_SUPPORTED_TOKENS};

verus! {

/// A fresh configuration whose every role is the upgrade authority.
pub fn initialize(bump: u8, upgrade_authority: Key, local_domain: u32) -> (r: GatewayMinter)
    ensures
        r.bump == bump && r.owner == upgrade_authority && all_zero(r.pending_owner@)
            && r.pauser == upgrade_authority && r.token_controller == upgrade_authority
            && r.local_domain == local_domain && r.version == 1 && !r.paused
            && r.enabled_attesters@.len() == 0 && r.supported_tokens@.len() == 0
            && r.custody_token_account_bumps@.len() == 0 && r.wf(),
{
    GatewayMinter {
        bump,
        owner: upgrade_authority,
        pending_owner: zero_key(),
        pauser: upgrade_authority,
        token_controller: upgrade_authority,
        paused: false,
        enabled_attesters: Vec::new(),
        local_domain,
        version: 1,
        supported_tokens: Vec::new(),
        custody_token_account_bumps: Vec::new(),
    }
}

/// Starts handing the configuration to `new_owner`, who must accept.
pub fn transfer_ownership(state: &mut GatewayMinter, caller: &Key, new_owner: Key) -> (r: Result<(), GatewayMinterError>)
    ensures
        r == (if *caller != old(state).owner {
            Err(GatewayMinterError::InvalidAuthority)
        } else {
            Ok(())
        }),
        r is Err ==> *final(state) == *old(state),
        r is Ok ==> *final(state) == (GatewayMinter { pending_owner: new_owner, ..*old(state) }),
{
    if !keys_equal(caller, &state.owner) {
        return Err(GatewayMinterError::InvalidAuthority);
    }
    state.pending_owner = new_owner;
    Ok(())
}

/// The pending owner takes over; no owner is pending afterwards.
pub fn accept_ownership(state: &mut GatewayMinter, caller: &Key) -> (r: Result<(), GatewayMinterError>)
    ensures
        r == (if *caller != old(state).pending_owner {
            Err(GatewayMinterError::InvalidAuthority)
        } else {
            Ok(())
        }),
        r is Err ==> *final(state) == *old(state),
        r is Ok ==> final(state).owner == old(state).pending_owner && all_zero(final(state).pending_owner@)
            && *final(state) == (GatewayMinter { owner: final(state).owner, pending_owner: final(state).pending_owner, ..*old(state) }),
{
    if !keys_equal(caller, &state.pending_owner) {
        return Err(GatewayMinterError::InvalidAuthority);
    }
    state.owner = state.pending_owner;
    state.pending_owner = zero_key();
    Ok(())
}

/// The owner names a new pauser.
pub fn update_pauser(state: &mut GatewayMinter, caller: &Key, new_pauser: Key) -> (r: Result<(), GatewayMinterError>)
    ensures
        r == (if *caller != old(state).owner {
            Err(GatewayMinterError::InvalidAuthority)
        } else if all_zero(new_pauser@) {
            Err(GatewayMinterError::InvalidPauser)
        } else {
            Ok(())
        }),
        r is Err ==> *final(state) == *old(state),
        r is Ok ==> *final(state) == (GatewayMinter { pauser: new_pauser, ..*old(state) }),
{
    if !keys_equal(caller, &state.owner) {
        return Err(GatewayMinterError::InvalidAuthority);
    }
    if is_zero_key(&new_pauser) {
        return Err(GatewayMinterError::InvalidPauser);
    }
    state.pauser = new_pauser;
    Ok(())
}

/// The owner names a new token controller.
pub fn update_token_controller(state: &mut GatewayMinter, caller: &Key, new_token_controller: Key) -> (r: Result<(), GatewayMinterError>)
    ensures
        r == (if *caller != old(state).owner {
            Err(GatewayMinterError::InvalidAuthority)
        } else if all_zero(new_token_controller@) {
            Err(GatewayMinterError::InvalidTokenController)
        } else {
            Ok(())
        }),
        r is Err ==> *final(state) == *old(state),
        r is Ok ==> *final(state) == (GatewayMinter { token_controller: new_token_controller, ..*old(state) }),
{
    if !keys_equal(caller, &state.owner) {
        return Err(GatewayMinterError::InvalidAuthority);
    }
    if is_zero_key(&new_token_controller) {
        return Err(GatewayMinterError::InvalidTokenController);
    }
    state.token_controller = new_token_controller;
    Ok(())
}

/// The pauser stops the minter.
pub fn pause(state: &mut GatewayMinter, caller: &Key) -> (r: Result<(), GatewayMinterError>)
    ensures
        r == (if *caller != old(state).pauser {
            Err(GatewayMinterError::InvalidAuthority)
        } else {
            Ok(())
        }),
        r is Err ==> *final(state) == *old(state),
        r is Ok ==> *final(state) == (GatewayMinter { paused: true, ..*old(state) }),
{
    if !keys_equal(caller, &state.pauser) {
        return Err(GatewayMinterError::InvalidAuthority);
    }
    state.paused = true;
    Ok(())
}

/// The pauser restarts the minter.
pub fn unpause(state: &mut GatewayMinter, caller: &Key) -> (r: Result<(), GatewayMinterError>)
    ensures
        r == (if *caller != old(state).pauser {
            Err(GatewayMinterError::InvalidAuthority)
        } else {
            Ok(())
        }),
        r is Err ==> *final(state) == *old(state),
        r is Ok ==> *final(state) == (GatewayMinter { paused: false, ..*old(state) }),
{
    if !keys_equal(caller, &state.pauser) {
        return Err(GatewayMinterError::InvalidAuthority);
    }
    state.paused = false;
    Ok(())
}

/// The owner enables an attester.
pub fn add_attester(state: &mut GatewayMinter, caller: &Key, attester: Key) -> (r: Result<(), GatewayMinterError>)
    ensures
        *caller != old(state).owner ==> r == Err::<(), GatewayMinterError>(GatewayMinterError::InvalidAuthority),
        *caller == old(state).owner && all_zero(attester@) ==> r == Err::<(), GatewayMinterError>(GatewayMinterError::InvalidAttester),
        *caller == old(state).owner && !all_zero(attester@) && !old(state).enabled_attesters@.contains(attester)
            && old(state).enabled_attesters@.len() >= MAX_ATTESTERS ==> r == Err::<(), GatewayMinterError>(GatewayMinterError::AttesterLimitExceeded),
        *caller == old(state).owner && !all_zero(attester@) && old(state).enabled_attesters@.contains(attester)
            ==> r is Ok && *final(state) == *old(state),
        *caller == old(state).owner && !all_zero(attester@) && !old(state).enabled_attesters@.contains(attester)
            && old(state).enabled_attesters@.len() < MAX_ATTESTERS ==> r is Ok
            && final(state).enabled_attesters@ == old(state).enabled_attesters@.push(attester)
            && final(state).supported_tokens == old(state).supported_tokens
            && final(state).custody_token_account_bumps == old(state).custody_token_account_bumps
            && final(state).same_settings(old(state)),
        r is Err ==> *final(state) == *old(state),
        old(state).wf() ==> final(state).wf(),
{
    if !keys_equal(caller, &state.owner) {
        return Err(GatewayMinterError::InvalidAuthority);
    }
    if is_zero_key(&attester) {
        return Err(GatewayMinterError::InvalidAttester);
    }
    let r = state.add_attester(attester);
    proof {
        if r is Ok && !old(state).enabled_attesters@.contains(attester) {
            assert(final(state).enabled_attesters@[final(state).enabled_attesters@.len() - 1] == attester);
        }
    }
    r
}

/// The owner disables an attester.
pub fn remove_attester(state: &mut GatewayMinter, caller: &Key, attester: Key) -> (r: Result<(), GatewayMinterError>)
    ensures
        *caller != old(state).owner ==> r == Err::<(), GatewayMinterError>(GatewayMinterError::InvalidAuthority) && *final(state) == *old(state),
        *caller == old(state).owner ==> r is Ok && (old(state).wf() ==> !final(state).enabled_attesters@.contains(attester)),
        *caller == old(state).owner && !old(state).enabled_attesters@.contains(attester) ==> *final(state) == *old(state),
        *caller == old(state).owner && old(state).enabled_attesters@.contains(attester) ==> exists|i: int|
            0 <= i < old(state).enabled_attesters@.len() && old(state).enabled_attesters@[i] == attester
                && final(state).enabled_attesters@ == old(state).enabled_attesters@.remove(i),
        final(state).supported_tokens == old(state).supported_tokens,
        final(state).custody_token_account_bumps == old(state).custody_token_account_bumps,
        final(state).same_settings(old(state)),
        old(state).wf() ==> final(state).wf(),
{
    if !keys_equal(caller, &state.owner) {
        return Err(GatewayMinterError::InvalidAuthority);
    }
    state.remove_attester(attester)
}

/// The token controller adds a supported token with its custody bump.
pub fn add_token(state: &mut GatewayMinter, caller: &Key, token_mint: Key, bump: u8) -> (r: Result<(), GatewayMinterError>)
    ensures
        *caller != old(state).token_controller ==> r == Err::<(), GatewayMinterError>(GatewayMinterError::InvalidAuthority) && *final(state) == *old(state),
        *caller == old(state).token_controller && !old(state).supported_tokens@.contains(token_mint)
            && old(state).supported_tokens@.len() >= MAX_SUPPORTED_TOKENS ==> r == Err::<(), GatewayMinterError>(GatewayMinterError::MaxTokensSupported),
        *caller == old(state).token_controller && old(state).supported_tokens@.contains(token_mint)
            ==> r is Ok && *final(state) == *old(state),
        *caller == old(state).token_controller && !old(state).supported_tokens@.contains(token_mint)
            && old(state).supported_tokens@.len() < MAX_SUPPORTED_TOKENS ==> r is Ok
            && final(state).supported_tokens@ == old(state).supported_tokens@.push(token_mint)
            && final(state).custody_token_account_bumps@ == old(state).custody_token_account_bumps@.push(bump)
            && final(state).enabled_attesters == old(state).enabled_attesters
            && final(state).same_settings(old(state)),
        r is Err ==> *final(state) == *old(state),
        old(state).wf() ==> final(state).wf(),
{
    if !keys_equal(caller, &state.token_controller) {
        return Err(GatewayMinterError::InvalidAuthority);
    }
    let r = state.add_token(token_mint, bump);
    proof {
        if r is Ok && !old(state).supported_tokens@.contains(token_mint) {
            assert(final(state).supported_tokens@[final(state).supported_tokens@.len() - 1] == token_mint);
        }
    }
    r
}

} // verus!
