//! The wallet's operations on plain values: deposits, withdrawals,
//! delegation, and the burn flow that authenticates a burn intent, checks
//! its bindings, claims its content hash and charges the depositor.

use vstd::prelude::*;
use crate::bytes::{all_zero, is_zero_key, keys_equal, Key};
use crate::error::GatewayWalletError;
use crate::burn_data::{
    check_burn_data, encoded_transfer_spec_of, narrowed_u64_at, BurnData,
    BURN_INTENT_MESSAGE_PREFIX_OFFSET,
};
use crate::bytes::be_at;
use crate::crypto::{
    eth_signed_hash_of, ethereum_signed_message_hash, evm_signer_of, keccak256, keccak256_of,
};
use crate::ed25519::{user_signature_check, verify_user_signature};
use crate::replay::ReplayRegistry;
use crate::wallet::{
    burn_signer_check, reduce_split, signer_authorization, status_rank, validate_signer_authorization,
    DelegateStatus, GatewayDelegate, GatewayDeposit, GatewayWallet,
};

verus! {

/// Authorizes `delegate` to sign burns over `depositor`'s balance of
/// `token_mint`. A record that was revoked stays revoked: a status never
/// moves back.
pub fn add_delegate(
    delegate_account: &mut GatewayDelegate,
    gateway_wallet: &GatewayWallet,
    bump: u8,
    token_mint: Key,
    depositor: Key,
    delegate: Key,
    depositor_denylisted: bool,
    delegate_denylisted: bool,
) -> (r: Result<(), GatewayWalletError>)
    ensures
        r == (if gateway_wallet.paused {
            Err(GatewayWalletError::ProgramPaused)
        } else if all_zero(delegate@) {
            Err(GatewayWalletError::InvalidDelegate)
        } else if delegate == depositor {
            Err(GatewayWalletError::CannotDelegateToSelf)
        } else if depositor_denylisted || delegate_denylisted {
            Err(GatewayWalletError::AccountDenylisted)
        } else if !gateway_wallet.supported_tokens@.contains(token_mint) {
            Err(GatewayWalletError::TokenNotSupported)
        } else {
            Ok(())
        }),
        r is Err ==> *final(delegate_account) == *old(delegate_account),
        status_rank(final(delegate_account).status) >= status_rank(old(delegate_account).status),
        r is Ok ==> *final(delegate_account) == (GatewayDelegate {
            bump,
            status: if old(delegate_account).status == DelegateStatus::Revoked {
                DelegateStatus::Revoked
            } else {
                DelegateStatus::Authorized
            },
            closeable_at_block: 0,
            token: token_mint,
            depositor,
            delegate,
        }),
{
    if gateway_wallet.paused {
        return Err(GatewayWalletError::ProgramPaused);
    }
    if is_zero_key(&delegate) {
        return Err(GatewayWalletError::InvalidDelegate);
    }
    if keys_equal(&delegate, &depositor) {
        return Err(GatewayWalletError::CannotDelegateToSelf);
    }
    if depositor_denylisted {
        return Err(GatewayWalletError::AccountDenylisted);
    }
    if delegate_denylisted {
        return Err(GatewayWalletError::AccountDenylisted);
    }
    if !gateway_wallet.is_token_supported(token_mint) {
        return Err(GatewayWalletError::TokenNotSupported);
    }
    let status = match delegate_account.status {
        DelegateStatus::Revoked => DelegateStatus::Revoked,
        _ => DelegateStatus::Authorized,
    };
    delegate_account.bump = bump;
    delegate_account.status = status;
    delegate_account.closeable_at_block = 0;
    delegate_account.token = token_mint;
    delegate_account.depositor = depositor;
    delegate_account.delegate = delegate;
    Ok(())
}

/// Revokes an authorized delegate. Returns whether the status changed: a
/// record that was never authorized, or is already revoked, stays as it is.
pub fn remove_delegate(
    delegate_account: &mut GatewayDelegate,
    gateway_wallet: &GatewayWallet,
    token_mint: Key,
    delegate: Key,
    depositor_denylisted: bool,
) -> (r: Result<bool, GatewayWalletError>)
    ensures
        gateway_wallet.paused ==> r == Err::<bool, GatewayWalletError>(
            GatewayWalletError::ProgramPaused,
        ),
        !gateway_wallet.paused && all_zero(delegate@) ==> r == Err::<bool, GatewayWalletError>(
            GatewayWalletError::InvalidDelegate,
        ),
        !gateway_wallet.paused && !all_zero(delegate@) && depositor_denylisted ==> r == Err::<
            bool,
            GatewayWalletError,
        >(GatewayWalletError::AccountDenylisted),
        !gateway_wallet.paused && !all_zero(delegate@) && !depositor_denylisted
            && !gateway_wallet.supported_tokens@.contains(token_mint) ==> r == Err::<
            bool,
            GatewayWalletError,
        >(GatewayWalletError::TokenNotSupported),
        !gateway_wallet.paused && !all_zero(delegate@) && !depositor_denylisted
            && gateway_wallet.supported_tokens@.contains(token_mint) ==> r == Ok::<
            bool,
            GatewayWalletError,
        >(old(delegate_account).status == DelegateStatus::Authorized),
        r == Ok::<bool, GatewayWalletError>(true) ==> *final(delegate_account) == (
        GatewayDelegate { status: DelegateStatus::Revoked, ..*old(delegate_account) }),
        r != Ok::<bool, GatewayWalletError>(true) ==> *final(delegate_account) == *old(delegate_account),
        status_rank(final(delegate_account).status) >= status_rank(old(delegate_account).status),
{
    if gateway_wallet.paused {
        return Err(GatewayWalletError::ProgramPaused);
    }
    if is_zero_key(&delegate) {
        return Err(GatewayWalletError::InvalidDelegate);
    }
    if depositor_denylisted {
        return Err(GatewayWalletError::AccountDenylisted);
    }
    if !gateway_wallet.is_token_supported(token_mint) {
        return Err(GatewayWalletError::TokenNotSupported);
    }
    match delegate_account.status {
        DelegateStatus::Authorized => {
            delegate_account.status = DelegateStatus::Revoked;
            Ok(true)
        },
        _ => Ok(false),
    }
}

/// Credits `amount` of `token_mint` to `depositor`, paid by `sender`,
/// setting up the record on first use.
pub fn deposit_for(
    deposit: &mut GatewayDeposit,
    gateway_wallet: &GatewayWallet,
    bump: u8,
    token_mint: Key,
    depositor: Key,
    sender_denylisted: bool,
    depositor_denylisted: bool,
    amount: u64,
) -> (r: Result<(), GatewayWalletError>)
    requires
        old(deposit).available_amount + amount <= u64::MAX,
    ensures
        r == (if gateway_wallet.paused {
            Err(GatewayWalletError::ProgramPaused)
        } else if all_zero(depositor@) {
            Err(GatewayWalletError::InvalidDepositor)
        } else if sender_denylisted || depositor_denylisted {
            Err(GatewayWalletError::AccountDenylisted)
        } else if amount == 0 {
            Err(GatewayWalletError::InvalidDepositAmount)
        } else {
            Ok(())
        }),
        r is Err ==> *final(deposit) == *old(deposit),
        r is Ok ==> final(deposit).available_amount == old(deposit).available_amount + amount
            && final(deposit).withdrawing_amount == old(deposit).withdrawing_amount
            && final(deposit).withdrawal_block == old(deposit).withdrawal_block,
        r is Ok && old(deposit).bump == 0 ==> final(deposit).bump == bump && final(deposit).depositor
            == depositor && final(deposit).token_mint == token_mint,
        r is Ok && old(deposit).bump != 0 ==> final(deposit).bump == old(deposit).bump && final(deposit).depositor == old(deposit).depositor && final(deposit).token_mint == old(deposit).token_mint,
{
    if gateway_wallet.paused {
        return Err(GatewayWalletError::ProgramPaused);
    }
    if is_zero_key(&depositor) {
        return Err(GatewayWalletError::InvalidDepositor);
    }
    if sender_denylisted {
        return Err(GatewayWalletError::AccountDenylisted);
    }
    if depositor_denylisted {
        return Err(GatewayWalletError::AccountDenylisted);
    }
    if amount == 0 {
        return Err(GatewayWalletError::InvalidDepositAmount);
    }
    deposit.initialize_if_needed(bump, depositor, token_mint);
    deposit.deposit(amount)
}

/// Starts (or extends) a withdrawal of `amount` at height `current_slot`.
pub fn initiate_withdrawal(
    deposit: &mut GatewayDeposit,
    gateway_wallet: &GatewayWallet,
    amount: u64,
    current_slot: u64,
) -> (r: Result<(u64, u64, u64), GatewayWalletError>)
    requires
        old(deposit).withdrawing_amount + amount <= u64::MAX,
        current_slot + gateway_wallet.withdrawal_delay <= u64::MAX,
    ensures
        gateway_wallet.paused ==> r == Err::<(u64, u64, u64), GatewayWalletError>(
            GatewayWalletError::ProgramPaused,
        ) && *final(deposit) == *old(deposit),
        !gateway_wallet.paused ==> {
            ||| amount == 0 && r == Err::<(u64, u64, u64), GatewayWalletError>(
                GatewayWalletError::InvalidWithdrawalAmount,
            ) && *final(deposit) == *old(deposit)
            ||| amount > 0 && !gateway_wallet.supported_tokens@.contains(old(deposit).token_mint)
                && r == Err::<(u64, u64, u64), GatewayWalletError>(
                GatewayWalletError::TokenNotSupported,
            ) && *final(deposit) == *old(deposit)
            ||| amount > 0 && gateway_wallet.supported_tokens@.contains(old(deposit).token_mint)
                && amount > old(deposit).available_amount && r == Err::<
                (u64, u64, u64),
                GatewayWalletError,
            >(GatewayWalletError::InsufficientDepositBalance) && *final(deposit) == *old(deposit)
            ||| amount > 0 && gateway_wallet.supported_tokens@.contains(old(deposit).token_mint)
                && amount <= old(deposit).available_amount && *final(deposit) == (GatewayDeposit {
                available_amount: (old(deposit).available_amount - amount) as u64,
                withdrawing_amount: (old(deposit).withdrawing_amount + amount) as u64,
                withdrawal_block: (current_slot + gateway_wallet.withdrawal_delay) as u64,
                ..*old(deposit)
            }) && r == Ok::<(u64, u64, u64), GatewayWalletError>(
                (
                    final(deposit).available_amount,
                    final(deposit).withdrawing_amount,
                    final(deposit).withdrawal_block,
                ),
            )
        },
{
    if gateway_wallet.paused {
        return Err(GatewayWalletError::ProgramPaused);
    }
    let token_mint = deposit.token_mint;
    deposit.initiate_withdrawal(
        amount,
        gateway_wallet.withdrawal_delay,
        gateway_wallet,
        token_mint,
        current_slot,
    )
}

/// Completes the pending withdrawal at height `current_slot`, returning the
/// amount to pay out.
pub fn withdraw(deposit: &mut GatewayDeposit, gateway_wallet: &GatewayWallet, current_slot: u64) -> (r:
    Result<u64, GatewayWalletError>)
    ensures
        gateway_wallet.paused ==> r == Err::<u64, GatewayWalletError>(
            GatewayWalletError::ProgramPaused,
        ),
        !gateway_wallet.paused && old(deposit).withdrawing_amount == 0 ==> r == Err::<
            u64,
            GatewayWalletError,
        >(GatewayWalletError::NoWithdrawalInProgress),
        !gateway_wallet.paused && old(deposit).withdrawing_amount > 0 && current_slot < old(deposit).withdrawal_block ==> r == Err::<u64, GatewayWalletError>(
            GatewayWalletError::WithdrawalDelayNotElapsed,
        ),
        r is Err ==> *final(deposit) == *old(deposit),
        !gateway_wallet.paused && old(deposit).withdrawing_amount > 0 && current_slot >= old(deposit).withdrawal_block ==> r == Ok::<u64, GatewayWalletError>(old(deposit).withdrawing_amount)
            && *final(deposit) == (GatewayDeposit {
            withdrawing_amount: 0,
            withdrawal_block: 0,
            ..*old(deposit)
        }),
{
    if gateway_wallet.paused {
        return Err(GatewayWalletError::ProgramPaused);
    }
    deposit.complete_withdrawal(current_slot)
}

/// The companion verification step as the ledger shows it: the index of
/// the burn step, the program and input of the step just before it, and
/// the Ed25519 verification program's address.
pub struct UserSignatureProof<'a> {
    pub current_instruction_index: u16,
    pub previous_program_id: Key,
    pub previous_data: &'a [u8],
    pub ed25519_program_id: Key,
}

/// The burn data and the burn signer's signature over it.
pub struct GatewayBurnParams {
    pub encoded_burn_data: Vec<u8>,
    pub burn_signature: Vec<u8>,
}

/// What an accepted burn does: the hash it consumed, where the value goes,
/// and how the deducted amount splits into the burned value and the fee.
#[derive(Debug, Clone, Copy)]
pub struct BurnOutcome {
    pub transfer_spec_hash: [u8; 32],
    pub destination_domain: u32,
    pub destination_recipient: Key,
    pub signer: Key,
    /// The value plus the fee, which the depositor owes.
    pub requested: u64,
    /// What is burned.
    pub value: u64,
    /// What goes to the fee recipient.
    pub fee: u64,
    pub from_available: u64,
    pub from_withdrawing: u64,
}

/// The checks of a burn, in order, after its burn signer was verified.
pub open spec fn burn_check(
    wallet: GatewayWallet,
    program_id: Seq<u8>,
    token_mint: Seq<u8>,
    custody_balance: nat,
    deposit: GatewayDeposit,
    delegate_account: Option<GatewayDelegate>,
    used: Set<Seq<u8>>,
    index: nat,
    previous_program_id: Seq<u8>,
    previous_data: Seq<u8>,
    ed25519_program_id: Seq<u8>,
    current_slot: nat,
    d: Seq<u8>,
) -> Result<(), GatewayWalletError> {
    let value = narrowed_u64_at(d, 432)->Ok_0;
    let fee = be_at(d, 0, 8);
    if wallet.paused {
        Err(GatewayWalletError::ProgramPaused)
    } else if check_burn_data(d) is Err {
        check_burn_data(d)
    } else if user_signature_check(
        index,
        previous_program_id,
        previous_data,
        ed25519_program_id,
        (d.len() - BURN_INTENT_MESSAGE_PREFIX_OFFSET) as nat,
    ) is Err {
        user_signature_check(
            index,
            previous_program_id,
            previous_data,
            ed25519_program_id,
            (d.len() - BURN_INTENT_MESSAGE_PREFIX_OFFSET) as nat,
        )
    } else if be_at(d, 164, 4) != wallet.version {
        Err(GatewayWalletError::VersionMismatch)
    } else if narrowed_u64_at(d, 92) is Err {
        Err(GatewayWalletError::InvalidU64HighBytes)
    } else if narrowed_u64_at(d, 92)->Ok_0 < current_slot {
        Err(GatewayWalletError::BurnIntentExpired)
    } else if be_at(d, 168, 4) != wallet.local_domain {
        Err(GatewayWalletError::SourceDomainMismatch)
    } else if d.subrange(176, 208) != program_id {
        Err(GatewayWalletError::SourceContractMismatch)
    } else if d.subrange(240, 272) != token_mint {
        Err(GatewayWalletError::SourceTokenMismatch)
    } else if d.subrange(304, 336) != deposit.depositor@ {
        Err(GatewayWalletError::SourceDepositorMismatch)
    } else if signer_authorization(d.subrange(368, 400), d.subrange(304, 336), delegate_account) is Err {
        signer_authorization(d.subrange(368, 400), d.subrange(304, 336), delegate_account)
    } else if narrowed_u64_at(d, 124) is Err {
        Err(GatewayWalletError::InvalidU64HighBytes)
    } else if narrowed_u64_at(d, 124)->Ok_0 < fee {
        Err(GatewayWalletError::BurnFeeExceedsMaxFee)
    } else if custody_balance < value + fee {
        Err(GatewayWalletError::InsufficientCustodyBalance)
    } else if used.contains(keccak256_of(encoded_transfer_spec_of(d))) {
        Err(GatewayWalletError::TransferSpecHashAlreadyUsed)
    } else {
        Ok(())
    }
}

/// What an accepted burn does to the depositor's record and what it
/// reports.
pub open spec fn burn_effect(deposit: GatewayDeposit, d: Seq<u8>, o: BurnOutcome, after: GatewayDeposit) -> bool {
    let value = narrowed_u64_at(d, 432)->Ok_0;
    let fee = be_at(d, 0, 8);
    let (a, w) = reduce_split(
        deposit.available_amount as nat,
        deposit.withdrawing_amount as nat,
        value + fee,
    );
    let charged = if a + w > value { (a + w - value) as nat } else { 0nat };
    &&& o.transfer_spec_hash@ == keccak256_of(encoded_transfer_spec_of(d))
    &&& o.destination_domain as nat == be_at(d, 172, 4)
    &&& o.destination_recipient@ == d.subrange(336, 368)
    &&& o.signer@ == d.subrange(368, 400)
    &&& o.requested as nat == value + fee
    &&& o.from_available as nat == a
    &&& o.from_withdrawing as nat == w
    &&& o.fee as nat == charged
    &&& o.value as nat == a + w - charged
    &&& after == (GatewayDeposit {
        available_amount: (deposit.available_amount - a) as u64,
        withdrawing_amount: (deposit.withdrawing_amount - w) as u64,
        ..deposit
    })
}

/// Runs a burn whose burn signer is already verified: parses the burn
/// data, checks the companion proof, the version, expiry, domain, program,
/// token, depositor, signer authorization, fee cap and custody balance,
/// claims the transfer spec hash, and charges the depositor. Nothing
/// changes unless every check passes.
pub fn process_burn(
    gateway_wallet: &GatewayWallet,
    program_id: &Key,
    token_mint: &Key,
    custody_balance: u64,
    deposit: &mut GatewayDeposit,
    delegate_account: Option<&GatewayDelegate>,
    registry: &mut ReplayRegistry,
    proof: &UserSignatureProof,
    current_slot: u64,
    encoded_burn_data: &[u8],
) -> (r: Result<BurnOutcome, GatewayWalletError>)
    ensures
        ({
            let check = burn_check(
                *gateway_wallet,
                program_id@,
                token_mint@,
                custody_balance as nat,
                *old(deposit),
                match delegate_account {
                    Some(x) => Some(*x),
                    None => None,
                },
                old(registry)@,
                proof.current_instruction_index as nat,
                proof.previous_program_id@,
                proof.previous_data@,
                proof.ed25519_program_id@,
                current_slot as nat,
                encoded_burn_data@,
            );
            &&& check is Err ==> (r matches Err(e) && check == Err::<(), GatewayWalletError>(e))
                && *final(deposit) == *old(deposit) && final(registry)@ == old(registry)@
            &&& check is Ok ==> (r matches Ok(o) && burn_effect(
                *old(deposit),
                encoded_burn_data@,
                o,
                *final(deposit),
            ) && final(registry)@ == old(registry)@.insert(o.transfer_spec_hash@))
        }),
{
    if gateway_wallet.paused {
        return Err(GatewayWalletError::ProgramPaused);
    }
    let burn_data = BurnData::new(encoded_burn_data)?;
    let burn_intent_message_length = burn_data.burn_intent_message_length()?;
    verify_user_signature(
        proof.current_instruction_index,
        &proof.previous_program_id,
        proof.previous_data,
        &proof.ed25519_program_id,
        burn_intent_message_length,
    )?;
    if burn_data.version()? != gateway_wallet.version {
        return Err(GatewayWalletError::VersionMismatch);
    }
    let max_block_height = burn_data.max_block_height()?;
    if max_block_height < current_slot {
        return Err(GatewayWalletError::BurnIntentExpired);
    }
    if burn_data.source_domain()? != gateway_wallet.local_domain {
        return Err(GatewayWalletError::SourceDomainMismatch);
    }
    if !keys_equal(&burn_data.source_contract()?, program_id) {
        return Err(GatewayWalletError::SourceContractMismatch);
    }
    if !keys_equal(&burn_data.source_token()?, token_mint) {
        return Err(GatewayWalletError::SourceTokenMismatch);
    }
    let source_depositor = burn_data.source_depositor()?;
    if !keys_equal(&source_depositor, &deposit.depositor) {
        return Err(GatewayWalletError::SourceDepositorMismatch);
    }
    let source_signer = burn_data.source_signer()?;
    validate_signer_authorization(&source_signer, &source_depositor, delegate_account)?;
    let max_fee = burn_data.max_fee()?;
    let fee = burn_data.fee()?;
    if max_fee < fee {
        return Err(GatewayWalletError::BurnFeeExceedsMaxFee);
    }
    let value = burn_data.value()?;
    if custody_balance < fee || custody_balance - fee < value {
        return Err(GatewayWalletError::InsufficientCustodyBalance);
    }
    let requested = value + fee;
    let transfer_spec_hash = burn_data.transfer_spec_hash()?;
    if registry.is_used(&transfer_spec_hash) {
        return Err(GatewayWalletError::TransferSpecHashAlreadyUsed);
    }
    registry.claim(&transfer_spec_hash);
    let (from_available, from_withdrawing) = match deposit.reduce_balance(requested) {
        Ok(split) => split,
        Err(e) => {
            return Err(e);
        },
    };
    let deducted = from_available + from_withdrawing;
    let fee_charged = if deducted > value {
        deducted - value
    } else {
        0
    };
    Ok(
        BurnOutcome {
            transfer_spec_hash,
            destination_domain: burn_data.destination_domain()?,
            destination_recipient: burn_data.destination_recipient()?,
            signer: source_signer,
            requested,
            value: deducted - fee_charged,
            fee: fee_charged,
            from_available,
            from_withdrawing,
        },
    )
}

/// The whole burn: the burn signer must have signed the personal-message
/// digest of the Keccak-256 hash of the burn data; then `process_burn`.
pub fn gateway_burn(
    gateway_wallet: &GatewayWallet,
    program_id: &Key,
    token_mint: &Key,
    custody_balance: u64,
    deposit: &mut GatewayDeposit,
    delegate_account: Option<&GatewayDelegate>,
    registry: &mut ReplayRegistry,
    proof: &UserSignatureProof,
    current_slot: u64,
    params: &GatewayBurnParams,
) -> (r: Result<BurnOutcome, GatewayWalletError>)
    ensures
        ({
            let signer_check = burn_signer_check(
                gateway_wallet.burn_signers@,
                params.burn_signature@.len(),
                evm_signer_of(
                    eth_signed_hash_of(keccak256_of(params.encoded_burn_data@)),
                    params.burn_signature@,
                ),
            );
            let check = burn_check(
                *gateway_wallet,
                program_id@,
                token_mint@,
                custody_balance as nat,
                *old(deposit),
                match delegate_account {
                    Some(x) => Some(*x),
                    None => None,
                },
                old(registry)@,
                proof.current_instruction_index as nat,
                proof.previous_program_id@,
                proof.previous_data@,
                proof.ed25519_program_id@,
                current_slot as nat,
                params.encoded_burn_data@,
            );
            &&& gateway_wallet.paused ==> r == Err::<BurnOutcome, GatewayWalletError>(
                GatewayWalletError::ProgramPaused,
            )
            &&& !gateway_wallet.paused && signer_check is Err ==> (r matches Err(e)
                && signer_check == Err::<(), GatewayWalletError>(e))
            &&& !gateway_wallet.paused && signer_check is Ok && check is Err ==> (r matches Err(e)
                && check == Err::<(), GatewayWalletError>(e))
            &&& r is Err ==> *final(deposit) == *old(deposit) && final(registry)@ == old(
                registry,
            )@
            &&& !gateway_wallet.paused && signer_check is Ok && check is Ok ==> (r matches Ok(o)
                && burn_effect(*old(deposit), params.encoded_burn_data@, o, *final(deposit))
                && final(registry)@ == old(registry)@.insert(o.transfer_spec_hash@))
        }),
{
    if gateway_wallet.paused {
        return Err(GatewayWalletError::ProgramPaused);
    }
    let encoded_data_hash = keccak256(params.encoded_burn_data.as_slice());
    let eth_signed_hash = ethereum_signed_message_hash(&encoded_data_hash);
    gateway_wallet.verify_burn_signature(&eth_signed_hash, params.burn_signature.as_slice())?;
    process_burn(
        gateway_wallet,
        program_id,
        token_mint,
        custody_balance,
        deposit,
        delegate_account,
        registry,
        proof,
        current_slot,
        params.encoded_burn_data.as_slice(),
    )
}

} // verus!
