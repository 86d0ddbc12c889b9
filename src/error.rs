//! Error types of the two gateway programs.

use vstd::prelude::*;

verus! {

/// Failures of the minting side: attestation parsing, signature checks,
/// binding checks, replay protection and registry administration.
#[derive(Debug, Clone, Copy, PartialEq, Eq, Structural)]
pub enum GatewayMinterError {
    InvalidAuthority,
    InvalidPauser,
    InvalidTokenController,
    ProgramPaused,
    InvalidAttester,
    AttesterLimitExceeded,
    MaxTokensSupported,
    TokenNotSupported,
    InvalidBurnAmount,
    MalformedMintAttestation,
    AttestationMagicMismatch,
    AttestationTooShort,
    AttestationTooLong,
    EmptyAttestationSet,
    InvalidAttesterSignature,
    VersionMismatch,
    AttestationExpired,
    InvalidAttestationValue,
    DestinationDomainMismatch,
    DestinationContractMismatch,
    DestinationTokenMismatch,
    DestinationCallerMismatch,
    DestinationRecipientMismatch,
    RemainingAccountsLengthMismatch,
    InvalidTransferSpecHashAccount,
    TransferSpecHashAlreadyUsed,
    InvalidCustodyTokenAccount,
    InvalidDestinationTokenAccount,
    /// A well-formed signature whose signer is not an enabled attester.
    AttesterNotAuthorized,
}

/// Failures of the wallet side: burn intent parsing, signature and
/// companion proof checks, balance and delegate rules, administration.
#[derive(Debug, Clone, Copy, PartialEq, Eq, Structural)]
pub enum GatewayWalletError {
    InvalidAuthority,
    InvalidPauser,
    InvalidDenylister,
    InvalidTokenController,
    ProgramPaused,
    AccountDenylisted,
    InvalidBurnSigner,
    BurnSignerLimitExceeded,
    MaxTokensSupported,
    TokenNotSupported,
    InvalidDepositor,
    InvalidDepositAmount,
    InvalidWithdrawalAmount,
    InsufficientDepositBalance,
    NoWithdrawalInProgress,
    WithdrawalDelayNotElapsed,
    InvalidWithdrawalDelay,
    InvalidDelegate,
    CannotDelegateToSelf,
    MalformedBurnData,
    InvalidBurnIntentMessagePrefix,
    InvalidBurnIntentValue,
    BurnIntentMagicMismatch,
    BurnIntentLengthMismatch,
    TransferSpecMagicMismatch,
    InvalidU64HighBytes,
    InvalidBurnSignerSignature,
    BurnSignerNotAuthorized,
    VersionMismatch,
    BurnIntentExpired,
    BurnFeeExceedsMaxFee,
    SourceDomainMismatch,
    SourceContractMismatch,
    SourceTokenMismatch,
    SourceDepositorMismatch,
    InvalidBalanceReductionAmount,
    InsufficientCustodyBalance,
    PreviousInstructionNotEd25519Program,
    InvalidEd25519InstructionData,
    InvalidDelegateAccount,
    DelegateDepositorMismatch,
    DelegateSignerMismatch,
    DelegateSignerNotAuthorized,
    RemainingAccountsLengthMismatch,
    InvalidTransferSpecHashAccount,
    TransferSpecHashAlreadyUsed,
}

} // verus!
