//! The mint flow: authenticate an attestation set, check its bindings,
//! walk its elements, claim each transfer spec hash once, and report what
//! to mint. Also the rebuilding of a set from its parameters.

use vstd::prelude::*;
use crate::attestation::{
    check_element, check_header, element_at, next_offset, AttestationElementView, MintAttestation,
    MintAttestationElementStruct, MintAttestationStruct, ATTESTATIONS_OFFSET,
};
use crate::bytes::{all_zero, be_at, is_zero_key, keys_equal, pow256, zero_key, Key};
use crate::crypto::{
    eth_signed_hash_of, ethereum_signed_message_hash, evm_signer_of, keccak256, keccak256_of,
};
use crate::error::GatewayMinterError;
use crate::minter::{attester_check, GatewayMinter};
use crate::replay::ReplayRegistry;

verus! {

/// The accounts that come with one element: the custody account's token,
/// and the destination account with its token.
#[derive(Debug, Clone, Copy)]
pub struct MintElementAccounts {
    pub custody_mint: Key,
    pub destination_mint: Key,
    pub destination_account: Key,
}

/// One transfer to carry out: `value` of `token` from custody to
/// `recipient`.
#[derive(Debug, Clone, Copy)]
pub struct MintedTransfer {
    pub token: Key,
    pub recipient: Key,
    pub transfer_spec_hash: [u8; 32],
    pub value: u64,
}

/// What a transfer says.
pub struct MintedTransferView {
    pub token: Seq<u8>,
    pub recipient: Seq<u8>,
    pub transfer_spec_hash: Seq<u8>,
    pub value: nat,
}

impl View for MintedTransfer {
    type V = MintedTransferView;

    open spec fn view(&self) -> MintedTransferView {
        MintedTransferView {
            token: self.token@,
            recipient: self.recipient@,
            transfer_spec_hash: self.transfer_spec_hash@,
            value: self.value as nat,
        }
    }
}

/// The transfer an element asks for.
pub open spec fn minted_of(e: AttestationElementView) -> MintedTransferView {
    MintedTransferView {
        token: e.destination_token,
        recipient: e.destination_recipient,
        transfer_spec_hash: e.transfer_spec_hash,
        value: e.value,
    }
}

/// The checks of one element against its accounts and the used hashes.
pub open spec fn element_binding(
    e: AttestationElementView,
    a: MintElementAccounts,
    used: Set<Seq<u8>>,
    supported_tokens: Seq<Key>,
) -> Result<(), GatewayMinterError> {
    if !supported_tokens.contains(a.custody_mint) {
        Err(GatewayMinterError::TokenNotSupported)
    } else if used.contains(e.transfer_spec_hash) {
        Err(GatewayMinterError::TransferSpecHashAlreadyUsed)
    } else if a.custody_mint@ != e.destination_token {
        Err(GatewayMinterError::DestinationTokenMismatch)
    } else if a.destination_mint@ != e.destination_token {
        Err(GatewayMinterError::DestinationTokenMismatch)
    } else if a.destination_account@ != e.destination_recipient {
        Err(GatewayMinterError::DestinationRecipientMismatch)
    } else if e.value == 0 {
        Err(GatewayMinterError::InvalidAttestationValue)
    } else {
        Ok(())
    }
}

/// Walks elements `i .. n` (the `i`-th at offset `o`), checking each and
/// claiming its hash: the transfers and the used hashes afterwards, or the
/// first refusal.
pub open spec fn mint_elements(
    d: Seq<u8>,
    n: nat,
    i: nat,
    o: int,
    accounts: Seq<MintElementAccounts>,
    used: Set<Seq<u8>>,
    supported_tokens: Seq<Key>,
) -> Result<(Seq<MintedTransferView>, Set<Seq<u8>>), GatewayMinterError>
    decreases n - i,
{
    if i >= n {
        Ok((Seq::empty(), used))
    } else {
        match check_element(d, o, i + 1 == n) {
            Err(e) => Err(e),
            Ok(len) => {
                let e = element_at(d, o);
                match element_binding(e, accounts[i as int], used, supported_tokens) {
                    Err(x) => Err(x),
                    Ok(_) => match mint_elements(
                        d,
                        n,
                        i + 1,
                        o + len,
                        accounts,
                        used.insert(e.transfer_spec_hash),
                        supported_tokens,
                    ) {
                        Err(x) => Err(x),
                        Ok((rest, u)) => Ok((seq![minted_of(e)] + rest, u)),
                    },
                }
            },
        }
    }
}

/// `front` followed by the transfers of `r`, or the refusal of `r`.
pub open spec fn prepend_minted(
    front: Seq<MintedTransferView>,
    r: Result<(Seq<MintedTransferView>, Set<Seq<u8>>), GatewayMinterError>,
) -> Result<(Seq<MintedTransferView>, Set<Seq<u8>>), GatewayMinterError> {
    match r {
        Ok((rest, u)) => Ok((front + rest, u)),
        Err(e) => Err(e),
    }
}

/// The outcome of minting from attestation bytes `d` whose signature was
/// already verified.
pub open spec fn mint_outcome(
    minter: GatewayMinter,
    program_id: Seq<u8>,
    destination_caller: Seq<u8>,
    current_slot: nat,
    d: Seq<u8>,
    accounts: Seq<MintElementAccounts>,
    used: Set<Seq<u8>>,
) -> Result<(Seq<MintedTransferView>, Set<Seq<u8>>), GatewayMinterError> {
    if minter.paused {
        Err(GatewayMinterError::ProgramPaused)
    } else {
        match check_header(d) {
            Err(e) => Err(e),
            Ok(n) => if be_at(d, 4, 4) != minter.version {
                Err(GatewayMinterError::VersionMismatch)
            } else if be_at(d, 76, 8) < current_slot {
                Err(GatewayMinterError::AttestationExpired)
            } else if !all_zero(d.subrange(44, 76)) && d.subrange(44, 76) != destination_caller {
                Err(GatewayMinterError::DestinationCallerMismatch)
            } else if be_at(d, 8, 4) != minter.local_domain {
                Err(GatewayMinterError::DestinationDomainMismatch)
            } else if d.subrange(12, 44) != program_id {
                Err(GatewayMinterError::DestinationContractMismatch)
            } else if accounts.len() != n {
                Err(GatewayMinterError::RemainingAccountsLengthMismatch)
            } else {
                mint_elements(
                    d,
                    n,
                    0,
                    ATTESTATIONS_OFFSET as int,
                    accounts,
                    used,
                    minter.supported_tokens@,
                )
            },
        }
    }
}

/// Runs a mint whose attester signature is already verified: checks the
/// set's version, expiry, caller, domain and program, then each element
/// against its accounts, claiming each transfer spec hash. Returns the
/// transfers to carry out; the registry changes only when all pass.
pub fn process_mint(
    gateway_minter: &GatewayMinter,
    program_id: &Key,
    destination_caller: &Key,
    current_slot: u64,
    attestation: &[u8],
    accounts: &Vec<MintElementAccounts>,
    registry: &mut ReplayRegistry,
) -> (r: Result<Vec<MintedTransfer>, GatewayMinterError>)
    ensures
        match mint_outcome(
            *gateway_minter,
            program_id@,
            destination_caller@,
            current_slot as nat,
            attestation@,
            accounts@,
            old(registry)@,
        ) {
            Ok((minted, u)) => r matches Ok(v) && v@.map_values(|t: MintedTransfer| t@) == minted
                && final(registry)@ == u,
            Err(e) => r matches Err(f) && f == e && final(registry)@ == old(registry)@,
        },
{
    if gateway_minter.paused {
        return Err(GatewayMinterError::ProgramPaused);
    }
    let mut attestation_set = MintAttestation::new(attestation)?;
    let ghost d = attestation@;
    let ghost n = attestation_set@.num_elements;
    if attestation_set.version()? != gateway_minter.version {
        return Err(GatewayMinterError::VersionMismatch);
    }
    if attestation_set.max_block_height()? < current_slot {
        return Err(GatewayMinterError::AttestationExpired);
    }
    let caller = attestation_set.destination_caller()?;
    if !is_zero_key(&caller) && !keys_equal(&caller, destination_caller) {
        return Err(GatewayMinterError::DestinationCallerMismatch);
    }
    if attestation_set.destination_domain()? != gateway_minter.local_domain {
        return Err(GatewayMinterError::DestinationDomainMismatch);
    }
    if !keys_equal(&attestation_set.destination_contract()?, program_id) {
        return Err(GatewayMinterError::DestinationContractMismatch);
    }
    let num_attestations = attestation_set.num_attestations()?;
    if accounts.len() as u64 != num_attestations as u64 {
        return Err(GatewayMinterError::RemainingAccountsLengthMismatch);
    }
    let mut staged = registry.copy();
    let mut minted: Vec<MintedTransfer> = Vec::new();
    let ghost used0 = registry@;
    let ghost tokens = gateway_minter.supported_tokens@;
    proof {
        assert(minted@.map_values(|t: MintedTransfer| t@) =~= Seq::<MintedTransferView>::empty());
        match mint_elements(d, n, 0, ATTESTATIONS_OFFSET as int, accounts@, used0, tokens) {
            Ok((rest, u)) => {
                assert(Seq::<MintedTransferView>::empty() + rest =~= rest);
            },
            Err(_) => {},
        }
    }
    loop
        invariant
            crate::attestation::cursor_wf(attestation_set@),
            attestation_set@.data == d,
            attestation_set@.num_elements == n,
            accounts@.len() == n,
            tokens == gateway_minter.supported_tokens@,
            registry@ == used0,
            used0 == old(registry)@,
            d == attestation@,
            mint_outcome(
                *gateway_minter,
                program_id@,
                destination_caller@,
                current_slot as nat,
                d,
                accounts@,
                used0,
            ) == mint_elements(d, n, 0, ATTESTATIONS_OFFSET as int, accounts@, used0, tokens),
            mint_elements(d, n, 0, ATTESTATIONS_OFFSET as int, accounts@, used0, tokens)
                == prepend_minted(
                minted@.map_values(|t: MintedTransfer| t@),
                mint_elements(
                    d,
                    n,
                    attestation_set@.index,
                    next_offset(attestation_set@),
                    accounts@,
                    staged@,
                    tokens,
                ),
            ),
        ensures
            attestation_set@.index >= n,
            mint_elements(d, n, 0, ATTESTATIONS_OFFSET as int, accounts@, used0, tokens)
                == prepend_minted(
                minted@.map_values(|t: MintedTransfer| t@),
                mint_elements(
                    d,
                    n,
                    attestation_set@.index,
                    next_offset(attestation_set@),
                    accounts@,
                    staged@,
                    tokens,
                ),
            ),
        decreases n - attestation_set@.index,
    {
        let ghost before = attestation_set@;
        let more = match attestation_set.next() {
            Ok(m) => m,
            Err(e) => {
                proof {
                    assert(mint_elements(d, n, before.index, next_offset(before), accounts@, staged@, tokens)
                        == Err::<(Seq<MintedTransferView>, Set<Seq<u8>>), GatewayMinterError>(e));
                }
                return Err(e);
            },
        };
        if !more {
            break;
        }
        let index = (attestation_set.index_of_current() - 1) as usize;
        let account = &accounts[index];
        let token = attestation_set.destination_token()?;
        let recipient = attestation_set.destination_recipient()?;
        let transfer_spec_hash = attestation_set.transfer_spec_hash()?;
        let value = attestation_set.value()?;
        let ghost step = mint_elements(d, n, before.index, next_offset(before), accounts@, staged@, tokens);
        let ghost binding = element_binding(element_at(d, attestation_set@.offset), accounts@[index as int], staged@, tokens);
        proof {
            assert(before.index == index);
            assert(next_offset(before) == attestation_set@.offset);
            assert(binding is Err ==> step == Err::<(Seq<MintedTransferView>, Set<Seq<u8>>), GatewayMinterError>(binding->Err_0));
        }
        if !gateway_minter.is_token_supported(account.custody_mint) {
            return Err(GatewayMinterError::TokenNotSupported);
        }
        if staged.is_used(&transfer_spec_hash) {
            return Err(GatewayMinterError::TransferSpecHashAlreadyUsed);
        }
        if !keys_equal(&account.custody_mint, &token) {
            return Err(GatewayMinterError::DestinationTokenMismatch);
        }
        if !keys_equal(&account.destination_mint, &token) {
            return Err(GatewayMinterError::DestinationTokenMismatch);
        }
        if !keys_equal(&account.destination_account, &recipient) {
            return Err(GatewayMinterError::DestinationRecipientMismatch);
        }
        if value == 0 {
            return Err(GatewayMinterError::InvalidAttestationValue);
        }
        staged.claim(&transfer_spec_hash);
        let transfer = MintedTransfer { token, recipient, transfer_spec_hash, value };
        let ghost old_views = minted@.map_values(|t: MintedTransfer| t@);
        minted.push(transfer);
        proof {
            let views = minted@.map_values(|t: MintedTransfer| t@);
            assert(views =~= old_views.push(
                minted_of(element_at(d, attestation_set@.offset)),
            ));
            let tail = mint_elements(
                d,
                n,
                attestation_set@.index,
                next_offset(attestation_set@),
                accounts@,
                staged@,
                tokens,
            );
            match tail {
                Ok((rest, u)) => {
                    assert(old_views + (seq![minted_of(element_at(d, attestation_set@.offset))]
                        + rest) =~= views + rest);
                },
                Err(_) => {},
            }
        }
    }
    proof {
        let views = minted@.map_values(|t: MintedTransfer| t@);
        assert(views + Seq::<MintedTransferView>::empty() =~= views);
    }
    *registry = staged;
    Ok(minted)
}

/// A full attestation set and the attester's signature over it.
pub struct GatewayMintParams {
    pub attestation: Vec<u8>,
    pub signature: Vec<u8>,
}

/// The whole mint: an enabled attester must have signed the
/// personal-message digest of the Keccak-256 hash of the attestation
/// bytes; then `process_mint`.
pub fn gateway_mint(
    gateway_minter: &GatewayMinter,
    program_id: &Key,
    destination_caller: &Key,
    current_slot: u64,
    accounts: &Vec<MintElementAccounts>,
    registry: &mut ReplayRegistry,
    params: &GatewayMintParams,
) -> (r: Result<Vec<MintedTransfer>, GatewayMinterError>)
    ensures
        ({
            let signer_check = attester_check(
                gateway_minter.enabled_attesters@,
                params.signature@.len(),
                evm_signer_of(
                    eth_signed_hash_of(keccak256_of(params.attestation@)),
                    params.signature@,
                ),
            );
            let outcome = mint_outcome(
                *gateway_minter,
                program_id@,
                destination_caller@,
                current_slot as nat,
                params.attestation@,
                accounts@,
                old(registry)@,
            );
            &&& gateway_minter.paused ==> (r matches Err(e) && e
                == GatewayMinterError::ProgramPaused)
            &&& !gateway_minter.paused && signer_check is Err ==> (r matches Err(e)
                && signer_check == Err::<(), GatewayMinterError>(e))
            &&& r is Err ==> final(registry)@ == old(registry)@
            &&& !gateway_minter.paused && signer_check is Ok ==> match outcome {
                Ok((minted, u)) => r matches Ok(v) && v@.map_values(|t: MintedTransfer| t@)
                    == minted && final(registry)@ == u,
                Err(e) => r matches Err(f) && f == e,
            }
        }),
{
    if gateway_minter.paused {
        return Err(GatewayMinterError::ProgramPaused);
    }
    let attestation_hash = keccak256(params.attestation.as_slice());
    let eth_signed_hash = ethereum_signed_message_hash(&attestation_hash);
    gateway_minter.verify_attestation_signature(&eth_signed_hash, params.signature.as_slice())?;
    process_mint(
        gateway_minter,
        program_id,
        destination_caller,
        current_slot,
        params.attestation.as_slice(),
        accounts,
        registry,
    )
}

/// The per-element part of a set sent as parameters: the token and the
/// recipient come from the element's destination account.
pub struct MintAttestationParams {
    pub value: u64,
    pub transfer_spec_hash: [u8; 32],
    pub hook_data: Vec<u8>,
}

/// A set sent as parameters, to be rebuilt before it is checked.
pub struct GatewayMintReconstructParams {
    pub is_default_destination_caller: bool,
    pub max_block_height: u64,
    pub elements: Vec<MintAttestationParams>,
    pub signature: Vec<u8>,
}

/// The set that parameters and accounts describe.
pub open spec fn reconstructed_set(
    gateway_minter: GatewayMinter,
    program_id: Seq<u8>,
    destination_caller: Seq<u8>,
    accounts: Seq<MintElementAccounts>,
    params: GatewayMintReconstructParams,
) -> crate::attestation::AttestationSetView {
    crate::attestation::AttestationSetView {
        version: gateway_minter.version as nat,
        destination_domain: gateway_minter.local_domain as nat,
        destination_contract: program_id,
        destination_caller: if params.is_default_destination_caller {
            Seq::new(32, |i: int| 0u8)
        } else {
            destination_caller
        },
        max_block_height: params.max_block_height as nat,
        elements: Seq::new(
            params.elements@.len(),
            |i: int|
                AttestationElementView {
                    destination_token: accounts[i].destination_mint@,
                    destination_recipient: accounts[i].destination_account@,
                    value: params.elements@[i].value as nat,
                    transfer_spec_hash: params.elements@[i].transfer_spec_hash@,
                    hook_data: params.elements@[i].hook_data@,
                },
        ),
    }
}

/// Rebuilds the attestation bytes from parameters: the version, domain and
/// program come from the minter, each element's token and recipient from
/// its destination account, and the caller is all zero or the given one.
/// A set whose element count or a hook data length does not fit the
/// format's 32-bit fields is refused as malformed.
pub fn reconstruct_attestation_bytes(
    gateway_minter: &GatewayMinter,
    program_id: &Key,
    destination_caller: &Key,
    accounts: &Vec<MintElementAccounts>,
    params: &GatewayMintReconstructParams,
) -> (r: Result<Vec<u8>, GatewayMinterError>)
    ensures
        accounts@.len() != params.elements@.len() ==> r == Err::<Vec<u8>, GatewayMinterError>(
            GatewayMinterError::RemainingAccountsLengthMismatch,
        ),
        accounts@.len() == params.elements@.len() ==> {
            let fits = params.elements@.len() < pow256(4) && forall|i: int|
                0 <= i < params.elements@.len() ==> (#[trigger] params.elements@[i]).hook_data@.len()
                    < pow256(4);
            &&& fits ==> (r matches Ok(bytes) && bytes@ == crate::attestation::encode_set(
                reconstructed_set(
                    *gateway_minter,
                    program_id@,
                    destination_caller@,
                    accounts@,
                    *params,
                ),
            ))
            &&& !fits ==> r == Err::<Vec<u8>, GatewayMinterError>(
                GatewayMinterError::MalformedMintAttestation,
            )
        },
{
    proof {
        crate::bytes::lemma_pow256_values();
    }
    if accounts.len() != params.elements.len() {
        return Err(GatewayMinterError::RemainingAccountsLengthMismatch);
    }
    if params.elements.len() > 0xffff_ffff {
        return Err(GatewayMinterError::MalformedMintAttestation);
    }
    let mut elements: Vec<MintAttestationElementStruct> = Vec::new();
    let mut i: usize = 0;
    while i < params.elements.len()
        invariant
            i <= params.elements@.len(),
            accounts@.len() == params.elements@.len(),
            pow256(4) == 0x1_0000_0000,
            elements@.len() == i,
            forall|j: int|
                0 <= j < i ==> (#[trigger] elements@[j])@ == (AttestationElementView {
                    destination_token: accounts@[j].destination_mint@,
                    destination_recipient: accounts@[j].destination_account@,
                    value: params.elements@[j].value as nat,
                    transfer_spec_hash: params.elements@[j].transfer_spec_hash@,
                    hook_data: params.elements@[j].hook_data@,
                }),
            forall|j: int| 0 <= j < i ==> (#[trigger] params.elements@[j]).hook_data@.len() < pow256(4),
        decreases params.elements@.len() - i,
    {
        let element = &params.elements[i];
        if element.hook_data.len() > 0xffff_ffff {
            return Err(GatewayMinterError::MalformedMintAttestation);
        }
        elements.push(
            MintAttestationElementStruct {
                destination_token: accounts[i].destination_mint,
                destination_recipient: accounts[i].destination_account,
                value: element.value,
                transfer_spec_hash: element.transfer_spec_hash,
                hook_data: element.hook_data.as_slice(),
            },
        );
        i = i + 1;
    }
    let caller = if params.is_default_destination_caller {
        zero_key()
    } else {
        *destination_caller
    };
    let attestation_struct = MintAttestationStruct {
        version: gateway_minter.version,
        destination_domain: gateway_minter.local_domain,
        destination_contract: *program_id,
        destination_caller: caller,
        max_block_height: params.max_block_height,
        elements,
    };
    proof {
        let x = reconstructed_set(
            *gateway_minter,
            program_id@,
            destination_caller@,
            accounts@,
            *params,
        );
        assert(attestation_struct@.elements =~= x.elements);
        if params.is_default_destination_caller {
            assert(caller@ =~= Seq::new(32, |i: int| 0u8));
        }
        assert(attestation_struct@ == x);
    }
    Ok(attestation_struct.encode_attestation())
}

/// Mints from a set sent as parameters: refuses an empty one, rebuilds
/// the bytes, then runs `gateway_mint` on them.
pub fn gateway_mint_with_params(
    gateway_minter: &GatewayMinter,
    program_id: &Key,
    destination_caller: &Key,
    current_slot: u64,
    accounts: &Vec<MintElementAccounts>,
    registry: &mut ReplayRegistry,
    params: GatewayMintReconstructParams,
) -> (r: Result<Vec<MintedTransfer>, GatewayMinterError>)
    ensures
        gateway_minter.paused ==> (r matches Err(e) && e == GatewayMinterError::ProgramPaused),
        !gateway_minter.paused && params.elements@.len() == 0 ==> (r matches Err(e) && e
            == GatewayMinterError::EmptyAttestationSet),
        !gateway_minter.paused && params.elements@.len() > 0 && accounts@.len()
            != params.elements@.len() ==> (r matches Err(e) && e
            == GatewayMinterError::RemainingAccountsLengthMismatch),
        r is Err ==> final(registry)@ == old(registry)@,
        !gateway_minter.paused && params.elements@.len() > 0 && accounts@.len()
            == params.elements@.len() ==> {
            let fits = params.elements@.len() < pow256(4) && forall|i: int|
                0 <= i < params.elements@.len() ==> (#[trigger] params.elements@[i]).hook_data@.len()
                    < pow256(4);
            let bytes = crate::attestation::encode_set(
                reconstructed_set(
                    *gateway_minter,
                    program_id@,
                    destination_caller@,
                    accounts@,
                    params,
                ),
            );
            let signer_check = attester_check(
                gateway_minter.enabled_attesters@,
                params.signature@.len(),
                evm_signer_of(eth_signed_hash_of(keccak256_of(bytes)), params.signature@),
            );
            &&& !fits ==> (r matches Err(e) && e == GatewayMinterError::MalformedMintAttestation)
            &&& fits && signer_check is Err ==> (r matches Err(e) && signer_check == Err::<
                (),
                GatewayMinterError,
            >(e))
            &&& fits && signer_check is Ok ==> match mint_outcome(
                *gateway_minter,
                program_id@,
                destination_caller@,
                current_slot as nat,
                bytes,
                accounts@,
                old(registry)@,
            ) {
                Ok((minted, u)) => r matches Ok(v) && v@.map_values(|t: MintedTransfer| t@)
                    == minted && final(registry)@ == u,
                Err(e) => r matches Err(f) && f == e,
            }
        },
{
    if gateway_minter.paused {
        return Err(GatewayMinterError::ProgramPaused);
    }
    if params.elements.len() == 0 {
        return Err(GatewayMinterError::EmptyAttestationSet);
    }
    let attestation = reconstruct_attestation_bytes(
        gateway_minter,
        program_id,
        destination_caller,
        accounts,
        &params,
    )?;
    let mint_params = GatewayMintParams { attestation, signature: params.signature };
    gateway_mint(
        gateway_minter,
        program_id,
        destination_caller,
        current_slot,
        accounts,
        registry,
        &mint_params,
    )
}

/// How much the token controller may burn from custody: the requested
/// amount, capped at the custody balance.
pub fn burn_token_custody(
    gateway_minter: &GatewayMinter,
    caller: &Key,
    token_mint: &Key,
    custody_balance: u64,
    amount: u64,
) -> (r: Result<u64, GatewayMinterError>)
    ensures
        r == (if *caller != gateway_minter.token_controller {
            Err(GatewayMinterError::InvalidAuthority)
        } else if !gateway_minter.supported_tokens@.contains(*token_mint) {
            Err(GatewayMinterError::TokenNotSupported)
        } else if amount == 0 {
            Err(GatewayMinterError::InvalidBurnAmount)
        } else if custody_balance > amount {
            Ok(amount)
        } else {
            Ok(custody_balance)
        }),
{
    if !keys_equal(caller, &gateway_minter.token_controller) {
        return Err(GatewayMinterError::InvalidAuthority);
    }
    if !gateway_minter.is_token_supported(*token_mint) {
        return Err(GatewayMinterError::TokenNotSupported);
    }
    if amount == 0 {
        return Err(GatewayMinterError::InvalidBurnAmount);
    }
    if custody_balance > amount {
        Ok(amount)
    } else {
        Ok(custody_balance)
    }
}

} // verus!
