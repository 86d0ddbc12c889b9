//! The wallet side: its configuration with bounded token and burn signer
//! registries, the per-depositor balance ledger, delegates, and the checks
//! that authorize a burn.

use vstd::prelude::*;
use crate::bytes::{contains_key, keys_equal, position_of, Key};
use crate::crypto::{evm_signer_of, recover_evm_signer, EvmSignatureError};
use crate::error::GatewayWalletError;

verus! {

pub const MAX_SUPPORTED_TOKENS: usize = 10;

pub const MAX_BURN_SIGNERS: usize = 10;

/// Length of a burn signer signature: 64 bytes and a recovery byte.
pub const BURN_SIGNATURE_LENGTH: usize = 65;

/// Whether some key of `keys` has the bytes `a`.
pub open spec fn key_in(keys: Seq<Key>, a: Seq<u8>) -> bool {
    exists|i: int| 0 <= i < keys.len() && keys[i]@ == a
}

/// A key is in a list exactly when its bytes are.
pub proof fn lemma_key_in(keys: Seq<Key>, k: Key)
    ensures
        key_in(keys, k@) == keys.contains(k),
{
    if key_in(keys, k@) {
        let i = choose|i: int| 0 <= i < keys.len() && keys[i]@ == k@;
        assert(keys[i] =~= k);
    }
}

/// The index of the first occurrence of `k` in `keys`, if any.
pub open spec fn first_index(keys: Seq<Key>, k: Key) -> Option<int> {
    if keys.contains(k) {
        Some(choose|i: int| 0 <= i < keys.len() && keys[i] == k && forall|j: int| 0 <= j < i ==> keys[j] != k)
    } else {
        None
    }
}

/// The outcome of the burn signer check, given the signature length and
/// what recovery gave.
pub open spec fn burn_signer_check(
    burn_signers: Seq<Key>,
    signature_length: nat,
    recovered: Result<Seq<u8>, EvmSignatureError>,
) -> Result<(), GatewayWalletError> {
    if signature_length != BURN_SIGNATURE_LENGTH {
        Err(GatewayWalletError::InvalidBurnSignerSignature)
    } else {
        match recovered {
            Err(_) => Err(GatewayWalletError::InvalidBurnSignerSignature),
            Ok(a) => if key_in(burn_signers, a) {
                Ok(())
            } else {
                Err(GatewayWalletError::BurnSignerNotAuthorized)
            },
        }
    }
}

/// Where a delegate stands. It only moves forward:
/// `Unauthorized`, then `Authorized`, then `Revoked`.
#[derive(Debug, Clone, Copy, PartialEq, Eq, Structural)]
pub enum DelegateStatus {
    Unauthorized,
    Authorized,
    Revoked,
}

/// The wallet's configuration.
pub struct GatewayWallet {
    pub bump: u8,
    pub owner: Key,
    pub pending_owner: Key,
    pub pauser: Key,
    pub denylister: Key,
    pub token_controller: Key,
    pub fee_recipient: Key,
    pub local_domain: u32,
    pub version: u32,
    pub withdrawal_delay: u64,
    pub paused: bool,
    pub supported_tokens: Vec<Key>,
    pub custody_token_account_bumps: Vec<u8>,
    pub burn_signers: Vec<Key>,
}

impl GatewayWallet {
    /// Every setting but the three registries is the same in `other`.
    pub open spec fn same_settings(&self, other: &GatewayWallet) -> bool {
        &&& self.bump == other.bump
        &&& self.owner == other.owner
        &&& self.pending_owner == other.pending_owner
        &&& self.pauser == other.pauser
        &&& self.denylister == other.denylister
        &&& self.token_controller == other.token_controller
        &&& self.fee_recipient == other.fee_recipient
        &&& self.local_domain == other.local_domain
        &&& self.version == other.version
        &&& self.withdrawal_delay == other.withdrawal_delay
        &&& self.paused == other.paused
    }

    /// The registries stay within capacity, without repeats, with one bump
    /// per supported token.
    pub open spec fn wf(&self) -> bool {
        &&& self.supported_tokens@.len() == self.custody_token_account_bumps@.len()
        &&& self.supported_tokens@.len() <= MAX_SUPPORTED_TOKENS
        &&& self.supported_tokens@.no_duplicates()
        &&& self.burn_signers@.len() <= MAX_BURN_SIGNERS
        &&& self.burn_signers@.no_duplicates()
    }

    pub fn is_token_supported(&self, token_mint: Key) -> (r: bool)
        ensures
            r == self.supported_tokens@.contains(token_mint),
    {
        contains_key(&self.supported_tokens, &token_mint)
    }

    pub fn get_token_index(&self, token_mint: Key) -> (r: Option<usize>)
        ensures
            match r {
                Some(i) => i < self.supported_tokens@.len() && self.supported_tokens@[i as int]
                    == token_mint && forall|j: int|
                    0 <= j < i ==> self.supported_tokens@[j] != token_mint,
                None => !self.supported_tokens@.contains(token_mint),
            },
    {
        position_of(&self.supported_tokens, &token_mint)
    }

    /// Adds a token with its custody bump; adding a supported token again
    /// changes nothing.
    pub fn add_token(&mut self, token_mint: Key, bump: u8) -> (r: Result<(), GatewayWalletError>)
        ensures
            old(self).supported_tokens@.contains(token_mint) ==> r is Ok && *final(self)
                == *old(self),
            !old(self).supported_tokens@.contains(token_mint) && old(self).supported_tokens@.len()
                >= MAX_SUPPORTED_TOKENS ==> r == Err::<(), GatewayWalletError>(
                GatewayWalletError::MaxTokensSupported,
            ) && *final(self) == *old(self),
            !old(self).supported_tokens@.contains(token_mint) && old(self).supported_tokens@.len()
                < MAX_SUPPORTED_TOKENS ==> r is Ok && final(self).supported_tokens@ == old(self).supported_tokens@.push(token_mint) && final(self).custody_token_account_bumps@
                == old(self).custody_token_account_bumps@.push(bump) && final(self).burn_signers
                == old(self).burn_signers && final(self).same_settings(old(self)),
            old(self).wf() ==> final(self).wf(),
    {
        if self.is_token_supported(token_mint) {
            return Ok(());
        }
        if self.supported_tokens.len() >= MAX_SUPPORTED_TOKENS {
            return Err(GatewayWalletError::MaxTokensSupported);
        }
        self.supported_tokens.push(token_mint);
        self.custody_token_account_bumps.push(bump);
        Ok(())
    }

    /// The custody bump of a supported token.
    pub fn get_custody_token_account_bump(&self, token_mint: Key) -> (r: Result<
        u8,
        GatewayWalletError,
    >)
        requires
            self.supported_tokens@.len() == self.custody_token_account_bumps@.len(),
        ensures
            !self.supported_tokens@.contains(token_mint) ==> r == Err::<u8, GatewayWalletError>(
                GatewayWalletError::TokenNotSupported,
            ),
            self.supported_tokens@.contains(token_mint) ==> (r matches Ok(b) && exists|i: int|
                0 <= i < self.supported_tokens@.len() && self.supported_tokens@[i] == token_mint
                    && self.custody_token_account_bumps@[i] == b && forall|j: int|
                    0 <= j < i ==> self.supported_tokens@[j] != token_mint),
    {
        match self.get_token_index(token_mint) {
            None => Err(GatewayWalletError::TokenNotSupported),
            Some(i) => Ok(self.custody_token_account_bumps[i]),
        }
    }

    pub fn is_burn_signer(&self, signer: Key) -> (r: bool)
        ensures
            r == self.burn_signers@.contains(signer),
    {
        contains_key(&self.burn_signers, &signer)
    }

    /// Enrolls a burn signer; enrolling one again changes nothing.
    pub fn add_burn_signer(&mut self, signer: Key) -> (r: Result<(), GatewayWalletError>)
        ensures
            old(self).burn_signers@.contains(signer) ==> r is Ok && *final(self) == *old(self),
            !old(self).burn_signers@.contains(signer) && old(self).burn_signers@.len()
                >= MAX_BURN_SIGNERS ==> r == Err::<(), GatewayWalletError>(
                GatewayWalletError::BurnSignerLimitExceeded,
            ) && *final(self) == *old(self),
            !old(self).burn_signers@.contains(signer) && old(self).burn_signers@.len()
                < MAX_BURN_SIGNERS ==> r is Ok && final(self).burn_signers@ == old(self).burn_signers@.push(signer) && final(self).supported_tokens == old(self).supported_tokens && final(self).custody_token_account_bumps == old(self).custody_token_account_bumps && final(self).same_settings(old(self)),
            old(self).wf() ==> final(self).wf(),
    {
        if self.is_burn_signer(signer) {
            return Ok(());
        }
        if self.burn_signers.len() >= MAX_BURN_SIGNERS {
            return Err(GatewayWalletError::BurnSignerLimitExceeded);
        }
        self.burn_signers.push(signer);
        Ok(())
    }

    /// Removes a burn signer; removing an absent one changes nothing.
    pub fn remove_burn_signer(&mut self, signer: Key) -> (r: Result<(), GatewayWalletError>)
        ensures
            r is Ok,
            !old(self).burn_signers@.contains(signer) ==> *final(self) == *old(self),
            old(self).burn_signers@.contains(signer) ==> exists|i: int|
                0 <= i < old(self).burn_signers@.len() && old(self).burn_signers@[i] == signer
                    && final(self).burn_signers@ == old(self).burn_signers@.remove(i),
            final(self).supported_tokens == old(self).supported_tokens,
            final(self).custody_token_account_bumps == old(self).custody_token_account_bumps,
            final(self).same_settings(old(self)),
            !final(self).burn_signers@.contains(signer) || !old(self).burn_signers@.no_duplicates(),
            old(self).wf() ==> final(self).wf(),
    {
        match position_of(&self.burn_signers, &signer) {
            None => Ok(()),
            Some(i) => {
                let ghost before = self.burn_signers@;
                self.burn_signers.remove(i);
                proof {
                    if before.no_duplicates() {
                        assert forall|a: int, b: int|
                            0 <= a < b < self.burn_signers@.len() implies self.burn_signers@[a]
                            != self.burn_signers@[b] by {
                            let a0 = if a < i { a } else { a + 1 };
                            let b0 = if b < i { b } else { b + 1 };
                            assert(self.burn_signers@[a] == before[a0]);
                            assert(self.burn_signers@[b] == before[b0]);
                        }
                        if self.burn_signers@.contains(signer) {
                            let j = choose|j: int| 0 <= j < self.burn_signers@.len() && self.burn_signers@[j] == signer;
                            let j0 = if j < i { j } else { j + 1 };
                            assert(before[j0] == signer);
                            assert(before[i as int] == signer);
                        }
                    }
                }
                Ok(())
            },
        }
    }

    /// Decides the burn signer check from the signature length and the
    /// recovered signer.
    pub fn check_burn_signer(
        &self,
        signature_length: usize,
        recovered: Result<Key, EvmSignatureError>,
    ) -> (r: Result<(), GatewayWalletError>)
        ensures
            r == burn_signer_check(
                self.burn_signers@,
                signature_length as nat,
                match recovered {
                    Ok(k) => Ok(k@),
                    Err(e) => Err(e),
                },
            ),
    {
        if signature_length != BURN_SIGNATURE_LENGTH {
            return Err(GatewayWalletError::InvalidBurnSignerSignature);
        }
        match recovered {
            Err(_) => Err(GatewayWalletError::InvalidBurnSignerSignature),
            Ok(signer) => {
                proof {
                    lemma_key_in(self.burn_signers@, signer);
                }
                if self.is_burn_signer(signer) {
                    Ok(())
                } else {
                    Err(GatewayWalletError::BurnSignerNotAuthorized)
                }
            },
        }
    }

    /// Checks that `signature` over `message_hash` comes from an enrolled
    /// burn signer.
    pub fn verify_burn_signature(&self, message_hash: &[u8], signature: &[u8]) -> (r: Result<
        (),
        GatewayWalletError,
    >)
        ensures
            r == burn_signer_check(
                self.burn_signers@,
                signature@.len(),
                evm_signer_of(message_hash@, signature@),
            ),
    {
        if signature.len() != BURN_SIGNATURE_LENGTH {
            return Err(GatewayWalletError::InvalidBurnSignerSignature);
        }
        let recovered = recover_evm_signer(message_hash, signature);
        self.check_burn_signer(signature.len(), recovered)
    }
}

/// A depositor's balances for one token.
#[derive(Debug, Clone, Copy)]
pub struct GatewayDeposit {
    pub bump: u8,
    pub depositor: Key,
    pub token_mint: Key,
    pub available_amount: u64,
    pub withdrawing_amount: u64,
    pub withdrawal_block: u64,
}

/// How much of a reduction comes from each balance.
pub open spec fn reduce_split(available: nat, withdrawing: nat, value: nat) -> (nat, nat) {
    if available >= value {
        (value, 0)
    } else if withdrawing >= value - available {
        (available, (value - available) as nat)
    } else {
        (available, withdrawing)
    }
}

impl GatewayDeposit {
    /// Sets the identity of a record the first time it is used (bump 0).
    pub fn initialize_if_needed(&mut self, bump: u8, depositor: Key, token_mint: Key)
        ensures
            old(self).bump == 0 ==> *final(self) == (GatewayDeposit {
                bump,
                depositor,
                token_mint,
                ..*old(self)
            }),
            old(self).bump != 0 ==> *final(self) == *old(self),
    {
        if self.bump == 0 {
            self.bump = bump;
            self.depositor = depositor;
            self.token_mint = token_mint;
        }
    }

    /// Adds a positive amount to the available balance.
    pub fn deposit(&mut self, amount: u64) -> (r: Result<(), GatewayWalletError>)
        requires
            old(self).available_amount + amount <= u64::MAX,
        ensures
            amount == 0 ==> r == Err::<(), GatewayWalletError>(
                GatewayWalletError::InvalidDepositAmount,
            ) && *final(self) == *old(self),
            amount > 0 ==> r == Ok::<(), GatewayWalletError>(()) && *final(self) == (GatewayDeposit {
                available_amount: (old(self).available_amount + amount) as u64,
                ..*old(self)
            }),
    {
        if amount == 0 {
            return Err(GatewayWalletError::InvalidDepositAmount);
        }
        self.available_amount = self.available_amount + amount;
        Ok(())
    }

    /// Moves `amount` from available to withdrawing and restarts the single
    /// timer of the whole withdrawing total at `current_slot + delay`.
    /// Returns the new available and withdrawing totals and the block.
    pub fn initiate_withdrawal(
        &mut self,
        amount: u64,
        withdrawal_delay: u64,
        gateway_wallet: &GatewayWallet,
        token_mint: Key,
        current_slot: u64,
    ) -> (r: Result<(u64, u64, u64), GatewayWalletError>)
        requires
            old(self).withdrawing_amount + amount <= u64::MAX,
            current_slot + withdrawal_delay <= u64::MAX,
        ensures
            amount == 0 ==> r == Err::<(u64, u64, u64), GatewayWalletError>(
                GatewayWalletError::InvalidWithdrawalAmount,
            ),
            amount > 0 && !gateway_wallet.supported_tokens@.contains(token_mint) ==> r == Err::<
                (u64, u64, u64),
                GatewayWalletError,
            >(GatewayWalletError::TokenNotSupported),
            amount > 0 && gateway_wallet.supported_tokens@.contains(token_mint) && amount
                > old(self).available_amount ==> r == Err::<(u64, u64, u64), GatewayWalletError>(
                GatewayWalletError::InsufficientDepositBalance,
            ),
            r is Err ==> *final(self) == *old(self),
            amount > 0 && gateway_wallet.supported_tokens@.contains(token_mint) && amount
                <= old(self).available_amount ==> {
                &&& *final(self) == (GatewayDeposit {
                    available_amount: (old(self).available_amount - amount) as u64,
                    withdrawing_amount: (old(self).withdrawing_amount + amount) as u64,
                    withdrawal_block: (current_slot + withdrawal_delay) as u64,
                    ..*old(self)
                })
                &&& r == Ok::<(u64, u64, u64), GatewayWalletError>(
                    (
                        final(self).available_amount,
                        final(self).withdrawing_amount,
                        final(self).withdrawal_block,
                    ),
                )
            },
    {
        if amount == 0 {
            return Err(GatewayWalletError::InvalidWithdrawalAmount);
        }
        if !gateway_wallet.is_token_supported(token_mint) {
            return Err(GatewayWalletError::TokenNotSupported);
        }
        if amount > self.available_amount {
            return Err(GatewayWalletError::InsufficientDepositBalance);
        }
        self.available_amount = self.available_amount - amount;
        self.withdrawing_amount = self.withdrawing_amount + amount;
        self.withdrawal_block = current_slot + withdrawal_delay;
        Ok((self.available_amount, self.withdrawing_amount, self.withdrawal_block))
    }

    /// Completes a pending withdrawal once its block is reached: the whole
    /// withdrawing total leaves, and the record returns to idle. Returns the
    /// amount that leaves.
    pub fn complete_withdrawal(&mut self, current_slot: u64) -> (r: Result<
        u64,
        GatewayWalletError,
    >)
        ensures
            old(self).withdrawing_amount == 0 ==> r == Err::<u64, GatewayWalletError>(
                GatewayWalletError::NoWithdrawalInProgress,
            ),
            old(self).withdrawing_amount > 0 && current_slot < old(self).withdrawal_block ==> r
                == Err::<u64, GatewayWalletError>(GatewayWalletError::WithdrawalDelayNotElapsed),
            r is Err ==> *final(self) == *old(self),
            old(self).withdrawing_amount > 0 && current_slot >= old(self).withdrawal_block ==> r
                == Ok::<u64, GatewayWalletError>(old(self).withdrawing_amount) && *final(self) == (
            GatewayDeposit { withdrawing_amount: 0, withdrawal_block: 0, ..*old(self) }),
    {
        if self.withdrawing_amount == 0 {
            return Err(GatewayWalletError::NoWithdrawalInProgress);
        }
        if current_slot < self.withdrawal_block {
            return Err(GatewayWalletError::WithdrawalDelayNotElapsed);
        }
        let withdrawal_amount = self.withdrawing_amount;
        self.withdrawing_amount = 0;
        self.withdrawal_block = 0;
        Ok(withdrawal_amount)
    }

    /// Deducts `value`, from the available balance first and then from the
    /// withdrawing balance. Where both together fall short, both are
    /// drained and the smaller total is returned: the caller compares.
    pub fn reduce_balance(&mut self, value: u64) -> (r: Result<(u64, u64), GatewayWalletError>)
        ensures
            value == 0 ==> r == Err::<(u64, u64), GatewayWalletError>(
                GatewayWalletError::InvalidBalanceReductionAmount,
            ) && *final(self) == *old(self),
            value > 0 ==> {
                let (a, w) = reduce_split(
                    old(self).available_amount as nat,
                    old(self).withdrawing_amount as nat,
                    value as nat,
                );
                &&& r matches Ok((ra, rw)) && ra as nat == a && rw as nat == w
                &&& *final(self) == (GatewayDeposit {
                    available_amount: (old(self).available_amount - a) as u64,
                    withdrawing_amount: (old(self).withdrawing_amount - w) as u64,
                    ..*old(self)
                })
            },
    {
        if value == 0 {
            return Err(GatewayWalletError::InvalidBalanceReductionAmount);
        }
        let available = self.available_amount;
        let mut needed = value;
        if available >= needed {
            self.available_amount = self.available_amount - needed;
            return Ok((needed, 0));
        }
        self.available_amount = 0;
        needed = needed - available;
        let withdrawing = self.withdrawing_amount;
        if withdrawing >= needed {
            self.withdrawing_amount = self.withdrawing_amount - needed;
            return Ok((available, needed));
        }
        self.withdrawing_amount = 0;
        Ok((available, withdrawing))
    }
}

/// The place of a status in the order `Unauthorized`, `Authorized`,
/// `Revoked`.
pub open spec fn status_rank(s: DelegateStatus) -> nat {
    match s {
        DelegateStatus::Unauthorized => 0,
        DelegateStatus::Authorized => 1,
        DelegateStatus::Revoked => 2,
    }
}

/// A delegation of a depositor's balance of one token to another key.
#[derive(Debug, Clone, Copy)]
pub struct GatewayDelegate {
    pub bump: u8,
    pub status: DelegateStatus,
    /// Not used yet.
    pub closeable_at_block: u64,
    pub token: Key,
    pub depositor: Key,
    pub delegate: Key,
}

impl GatewayDelegate {
    /// Whether `addr` was ever authorized for `depositor`'s balance: the
    /// depositor always is; anyone else when the record is `Authorized` or
    /// `Revoked`.
    pub fn was_ever_authorized_for_balance(&self, depositor: Key, addr: Key) -> (r: bool)
        ensures
            r == (addr == depositor || self.status != DelegateStatus::Unauthorized),
    {
        if keys_equal(&addr, &depositor) {
            return true;
        }
        self.status != DelegateStatus::Unauthorized
    }
}

/// The outcome of the signer authorization check.
pub open spec fn signer_authorization(
    source_signer: Seq<u8>,
    source_depositor: Seq<u8>,
    delegate_account: Option<GatewayDelegate>,
) -> Result<(), GatewayWalletError> {
    if source_signer == source_depositor {
        Ok(())
    } else {
        match delegate_account {
            None => Err(GatewayWalletError::InvalidDelegateAccount),
            Some(d) => if d.depositor@ != source_depositor {
                Err(GatewayWalletError::DelegateDepositorMismatch)
            } else if d.delegate@ != source_signer {
                Err(GatewayWalletError::DelegateSignerMismatch)
            } else if d.status == DelegateStatus::Unauthorized {
                Err(GatewayWalletError::DelegateSignerNotAuthorized)
            } else {
                Ok(())
            },
        }
    }
}

/// Checks that `source_signer` may spend `source_depositor`'s balance:
/// itself, or through a matching delegate record that was ever authorized.
pub fn validate_signer_authorization(
    source_signer: &Key,
    source_depositor: &Key,
    delegate_account: Option<&GatewayDelegate>,
) -> (r: Result<(), GatewayWalletError>)
    ensures
        r == signer_authorization(
            source_signer@,
            source_depositor@,
            match delegate_account {
                Some(d) => Some(*d),
                None => None,
            },
        ),
{
    if keys_equal(source_signer, source_depositor) {
        return Ok(());
    }
    let delegate_account = match delegate_account {
        Some(d) => d,
        None => {
            return Err(GatewayWalletError::InvalidDelegateAccount);
        },
    };
    if !keys_equal(&delegate_account.depositor, source_depositor) {
        return Err(GatewayWalletError::DelegateDepositorMismatch);
    }
    if !keys_equal(&delegate_account.delegate, source_signer) {
        return Err(GatewayWalletError::DelegateSignerMismatch);
    }
    if !delegate_account.was_ever_authorized_for_balance(*source_depositor, *source_signer) {
        return Err(GatewayWalletError::DelegateSignerNotAuthorized);
    }
    Ok(())
}

} // verus!
