//! The minter's configuration: bounded registries of supported tokens and
//! enabled attesters, and the attester signature check.

use vstd::prelude::*;
use crate::bytes::{contains_key, position_of, Key};
use crate::crypto::{evm_signer_of, recover_evm_signer, EvmSignatureError};
use crate::error::GatewayMinterError;
use crate::wallet::{key_in, lemma_key_in};

verus! {

pub const MAX_SUPPORTED_TOKENS: usize = 10;

pub const MAX_ATTESTERS: usize = 10;

/// Length of an attester signature: 64 bytes and a recovery byte.
pub const ATTESTATION_SIGNATURE_LENGTH: usize = 65;

/// The outcome of the attester check, given the signature length and what
/// recovery gave: a malformed or unrecoverable signature, or a signer that
/// is not an enabled attester.
pub open spec fn attester_check(
    attesters: Seq<Key>,
    signature_length: nat,
    recovered: Result<Seq<u8>, EvmSignatureError>,
) -> Result<(), GatewayMinterError> {
    if signature_length != ATTESTATION_SIGNATURE_LENGTH {
        Err(GatewayMinterError::InvalidAttesterSignature)
    } else {
        match recovered {
            Err(_) => Err(GatewayMinterError::InvalidAttesterSignature),
            Ok(a) => if key_in(attesters, a) {
                Ok(())
            } else {
                Err(GatewayMinterError::AttesterNotAuthorized)
            },
        }
    }
}

/// The minter's configuration.
pub struct GatewayMinter {
    pub bump: u8,
    pub owner: Key,
    pub pending_owner: Key,
    pub pauser: Key,
    pub token_controller: Key,
    pub paused: bool,
    pub enabled_attesters: Vec<Key>,
    pub local_domain: u32,
    pub version: u32,
    pub supported_tokens: Vec<Key>,
    pub custody_token_account_bumps: Vec<u8>,
}

impl GatewayMinter {
    /// Every setting but the three registries is the same in `other`.
    pub open spec fn same_settings(&self, other: &GatewayMinter) -> bool {
        &&& self.bump == other.bump
        &&& self.owner == other.owner
        &&& self.pending_owner == other.pending_owner
        &&& self.pauser == other.pauser
        &&& self.token_controller == other.token_controller
        &&& self.paused == other.paused
        &&& self.local_domain == other.local_domain
        &&& self.version == other.version
    }

    /// The registries stay within capacity, without repeats, with one bump
    /// per supported token.
    pub open spec fn wf(&self) -> bool {
        &&& self.supported_tokens@.len() == self.custody_token_account_bumps@.len()
        &&& self.supported_tokens@.len() <= MAX_SUPPORTED_TOKENS
        &&& self.supported_tokens@.no_duplicates()
        &&& self.enabled_attesters@.len() <= MAX_ATTESTERS
        &&& self.enabled_attesters@.no_duplicates()
    }

    pub fn is_token_supported(&self, token_mint: Key) -> (r: bool)
        ensures
            r == self.supported_tokens@.contains(token_mint),
    {
        contains_key(&self.supported_tokens, &token_mint)
    }

    pub fn get_token_index(&self, token_mint: Key) -> (r: Option<usize>)
        ensures
            match r {
                Some(i) => i < self.supported_tokens@.len() && self.supported_tokens@[i as int]
                    == token_mint && forall|j: int|
                    0 <= j < i ==> self.supported_tokens@[j] != token_mint,
                None => !self.supported_tokens@.contains(token_mint),
            },
    {
        position_of(&self.supported_tokens, &token_mint)
    }

    /// Adds a token with its custody bump; adding a supported token again
    /// changes nothing.
    pub fn add_token(&mut self, token_mint: Key, bump: u8) -> (r: Result<(), GatewayMinterError>)
        ensures
            old(self).supported_tokens@.contains(token_mint) ==> r is Ok && *final(self)
                == *old(self),
            !old(self).supported_tokens@.contains(token_mint) && old(self).supported_tokens@.len()
                >= MAX_SUPPORTED_TOKENS ==> r == Err::<(), GatewayMinterError>(
                GatewayMinterError::MaxTokensSupported,
            ) && *final(self) == *old(self),
            !old(self).supported_tokens@.contains(token_mint) && old(self).supported_tokens@.len()
                < MAX_SUPPORTED_TOKENS ==> r is Ok && final(self).supported_tokens@ == old(self).supported_tokens@.push(token_mint) && final(self).custody_token_account_bumps@
                == old(self).custody_token_account_bumps@.push(bump) && final(self).enabled_attesters == old(self).enabled_attesters && final(self).same_settings(old(self)),
            old(self).wf() ==> final(self).wf(),
    {
        if self.is_token_supported(token_mint) {
            return Ok(());
        }
        if self.supported_tokens.len() >= MAX_SUPPORTED_TOKENS {
            return Err(GatewayMinterError::MaxTokensSupported);
        }
        self.supported_tokens.push(token_mint);
        self.custody_token_account_bumps.push(bump);
        Ok(())
    }

    /// The custody bump of a supported token.
    pub fn get_custody_token_account_bump(&self, token_mint: Key) -> (r: Result<
        u8,
        GatewayMinterError,
    >)
        requires
            self.supported_tokens@.len() == self.custody_token_account_bumps@.len(),
        ensures
            !self.supported_tokens@.contains(token_mint) ==> r == Err::<u8, GatewayMinterError>(
                GatewayMinterError::TokenNotSupported,
            ),
            self.supported_tokens@.contains(token_mint) ==> (r matches Ok(b) && exists|i: int|
                0 <= i < self.supported_tokens@.len() && self.supported_tokens@[i] == token_mint
                    && self.custody_token_account_bumps@[i] == b && forall|j: int|
                    0 <= j < i ==> self.supported_tokens@[j] != token_mint),
    {
        match self.get_token_index(token_mint) {
            None => Err(GatewayMinterError::TokenNotSupported),
            Some(i) => Ok(self.custody_token_account_bumps[i]),
        }
    }

    pub fn is_attester_enabled(&self, attester: Key) -> (r: bool)
        ensures
            r == self.enabled_attesters@.contains(attester),
    {
        contains_key(&self.enabled_attesters, &attester)
    }

    /// Enables an attester; enabling one again changes nothing.
    pub fn add_attester(&mut self, attester: Key) -> (r: Result<(), GatewayMinterError>)
        ensures
            old(self).enabled_attesters@.contains(attester) ==> r is Ok && *final(self) == *old(self),
            !old(self).enabled_attesters@.contains(attester) && old(self).enabled_attesters@.len()
                >= MAX_ATTESTERS ==> r == Err::<(), GatewayMinterError>(
                GatewayMinterError::AttesterLimitExceeded,
            ) && *final(self) == *old(self),
            !old(self).enabled_attesters@.contains(attester) && old(self).enabled_attesters@.len()
                < MAX_ATTESTERS ==> r is Ok && final(self).enabled_attesters@ == old(self).enabled_attesters@.push(attester) && final(self).supported_tokens == old(self).supported_tokens && final(self).custody_token_account_bumps == old(self).custody_token_account_bumps && final(self).same_settings(old(self)),
            old(self).wf() ==> final(self).wf(),
    {
        if self.is_attester_enabled(attester) {
            return Ok(());
        }
        if self.enabled_attesters.len() >= MAX_ATTESTERS {
            return Err(GatewayMinterError::AttesterLimitExceeded);
        }
        self.enabled_attesters.push(attester);
        Ok(())
    }

    /// Disables an attester; disabling an absent one changes nothing.
    pub fn remove_attester(&mut self, attester: Key) -> (r: Result<(), GatewayMinterError>)
        ensures
            r is Ok,
            !old(self).enabled_attesters@.contains(attester) ==> *final(self) == *old(self),
            old(self).enabled_attesters@.contains(attester) ==> exists|i: int|
                0 <= i < old(self).enabled_attesters@.len() && old(self).enabled_attesters@[i]
                    == attester && final(self).enabled_attesters@ == old(self).enabled_attesters@.remove(i),
            final(self).supported_tokens == old(self).supported_tokens,
            final(self).custody_token_account_bumps == old(self).custody_token_account_bumps,
            final(self).same_settings(old(self)),
            old(self).wf() ==> final(self).wf() && !final(self).enabled_attesters@.contains(
                attester,
            ),
    {
        match position_of(&self.enabled_attesters, &attester) {
            None => Ok(()),
            Some(i) => {
                let ghost before = self.enabled_attesters@;
                self.enabled_attesters.remove(i);
                proof {
                    if before.no_duplicates() {
                        assert forall|a: int, b: int|
                            0 <= a < b < self.enabled_attesters@.len() implies self.enabled_attesters@[a]
                            != self.enabled_attesters@[b] by {
                            let a0 = if a < i { a } else { a + 1 };
                            let b0 = if b < i { b } else { b + 1 };
                            assert(self.enabled_attesters@[a] == before[a0]);
                            assert(self.enabled_attesters@[b] == before[b0]);
                        }
                        if self.enabled_attesters@.contains(attester) {
                            let j = choose|j: int| 0 <= j < self.enabled_attesters@.len() && self.enabled_attesters@[j] == attester;
                            let j0 = if j < i { j } else { j + 1 };
                            assert(before[j0] == attester);
                            assert(before[i as int] == attester);
                        }
                    }
                }
                Ok(())
            },
        }
    }

    /// Decides the attester check from the signature length and the
    /// recovered signer.
    pub fn check_attester(
        &self,
        signature_length: usize,
        recovered: Result<Key, EvmSignatureError>,
    ) -> (r: Result<(), GatewayMinterError>)
        ensures
            r == attester_check(
                self.enabled_attesters@,
                signature_length as nat,
                match recovered {
                    Ok(k) => Ok(k@),
                    Err(e) => Err(e),
                },
            ),
    {
        if signature_length != ATTESTATION_SIGNATURE_LENGTH {
            return Err(GatewayMinterError::InvalidAttesterSignature);
        }
        match recovered {
            Err(_) => Err(GatewayMinterError::InvalidAttesterSignature),
            Ok(signer) => {
                proof {
                    lemma_key_in(self.enabled_attesters@, signer);
                }
                if self.is_attester_enabled(signer) {
                    Ok(())
                } else {
                    Err(GatewayMinterError::AttesterNotAuthorized)
                }
            },
        }
    }

    /// Checks that `signature` over `message_hash` comes from an enabled
    /// attester.
    pub fn verify_attestation_signature(&self, message_hash: &[u8], signature: &[u8]) -> (r:
        Result<(), GatewayMinterError>)
        ensures
            r == attester_check(
                self.enabled_attesters@,
                signature@.len(),
                evm_signer_of(message_hash@, signature@),
            ),
    {
        if signature.len() != ATTESTATION_SIGNATURE_LENGTH {
            return Err(GatewayMinterError::InvalidAttesterSignature);
        }
        let recovered = recover_evm_signer(message_hash, signature);
        self.check_attester(signature.len(), recovered)
    }
}

} // verus!
