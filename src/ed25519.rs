//! The companion signature proof: the header of an Ed25519 verification
//! step that ran just before the burn in the same transaction, and the
//! check that it verified exactly the user's signature, key and message of
//! the current burn data. Multi-byte fields are little-endian.
//!
//! Header: signature count (1), padding (1), then seven 2-byte fields:
//! signature offset, signature step index, public key offset, public key
//! step index, message offset, message size, message step index.

use vstd::prelude::*;
use crate::burn_data::{
    BURN_DATA_USER_SIGNATURE_OFFSET, BURN_INTENT_MESSAGE_PREFIX_OFFSET, TS_SOURCE_SIGNER_OFFSET,
};
use crate::bytes::{keys_equal, Key};
use crate::error::GatewayWalletError;

verus! {

/// Size of the header.
pub const HEADER_SIZE: usize = 16;

/// Where the burn data starts in the burn step's input: after the 2-byte
/// discriminator and a 4-byte length.
pub const BURN_DATA_OFFSET: u16 = 6;

/// The one signature the companion step must verify.
pub const ED25519_NUM_SIGNATURES: u8 = 1;

pub const ED25519_PADDING: u8 = 0;

/// The little-endian 16-bit number at `d[i .. i + 2]`.
pub open spec fn le_u16_at(d: Seq<u8>, i: int) -> nat {
    d[i] as nat + 256 * d[i + 1] as nat
}

/// Whether a header describes exactly the expected verification: one
/// signature, no padding, the user signature, the source signer key and
/// the signed message of the burn data in step `index`, with a message of
/// `message_length` bytes.
pub open spec fn companion_matches(d: Seq<u8>, index: nat, message_length: nat) -> bool {
    &&& d.len() == HEADER_SIZE
    &&& d[0] == ED25519_NUM_SIGNATURES
    &&& d[1] == ED25519_PADDING
    &&& le_u16_at(d, 2) == BURN_DATA_OFFSET + BURN_DATA_USER_SIGNATURE_OFFSET
    &&& le_u16_at(d, 4) == index
    &&& le_u16_at(d, 6) == BURN_DATA_OFFSET + TS_SOURCE_SIGNER_OFFSET
    &&& le_u16_at(d, 8) == index
    &&& le_u16_at(d, 10) == BURN_DATA_OFFSET + BURN_INTENT_MESSAGE_PREFIX_OFFSET
    &&& le_u16_at(d, 12) == message_length
    &&& le_u16_at(d, 14) == index
}

/// The header of an Ed25519 verification step, exactly 16 bytes.
#[derive(Clone, Debug)]
pub struct Ed25519InstructionData<'a> {
    data: &'a [u8],
}

impl<'a> View for Ed25519InstructionData<'a> {
    type V = Seq<u8>;

    closed spec fn view(&self) -> Seq<u8> {
        self.data@
    }
}

impl<'a> Ed25519InstructionData<'a> {
    /// Accepts exactly 16 bytes.
    pub fn new(data: &'a [u8]) -> (r: Result<Self, GatewayWalletError>)
        ensures
            data@.len() == HEADER_SIZE ==> (r matches Ok(h) && h@ == data@),
            data@.len() != HEADER_SIZE ==> r == Err::<Self, GatewayWalletError>(
                GatewayWalletError::InvalidEd25519InstructionData,
            ),
    {
        if data.len() != HEADER_SIZE {
            return Err(GatewayWalletError::InvalidEd25519InstructionData);
        }
        Ok(Ed25519InstructionData { data })
    }

    fn read_u8(&self, index: usize) -> (r: Result<u8, GatewayWalletError>)
        requires
            self@.len() == HEADER_SIZE,
            index < HEADER_SIZE,
        ensures
            r matches Ok(v) && v == self@[index as int],
    {
        Ok(self.data[index])
    }

    fn read_u16(&self, index: usize) -> (r: Result<u16, GatewayWalletError>)
        requires
            self@.len() == HEADER_SIZE,
            index + 2 <= HEADER_SIZE,
        ensures
            r matches Ok(v) && v as nat == le_u16_at(self@, index as int),
    {
        Ok(self.data[index] as u16 + 256 * (self.data[index + 1] as u16))
    }

    pub fn num_signatures(&self) -> (r: Result<u8, GatewayWalletError>)
        requires
            self@.len() == HEADER_SIZE,
        ensures
            r matches Ok(v) && v == self@[0],
    {
        self.read_u8(0)
    }

    pub fn padding(&self) -> (r: Result<u8, GatewayWalletError>)
        requires
            self@.len() == HEADER_SIZE,
        ensures
            r matches Ok(v) && v == self@[1],
    {
        self.read_u8(1)
    }

    pub fn signature_offset(&self) -> (r: Result<u16, GatewayWalletError>)
        requires
            self@.len() == HEADER_SIZE,
        ensures
            r matches Ok(v) && v as nat == le_u16_at(self@, 2),
    {
        self.read_u16(2)
    }

    pub fn signature_instruction_index(&self) -> (r: Result<u16, GatewayWalletError>)
        requires
            self@.len() == HEADER_SIZE,
        ensures
            r matches Ok(v) && v as nat == le_u16_at(self@, 4),
    {
        self.read_u16(4)
    }

    pub fn public_key_offset(&self) -> (r: Result<u16, GatewayWalletError>)
        requires
            self@.len() == HEADER_SIZE,
        ensures
            r matches Ok(v) && v as nat == le_u16_at(self@, 6),
    {
        self.read_u16(6)
    }

    pub fn public_key_instruction_index(&self) -> (r: Result<u16, GatewayWalletError>)
        requires
            self@.len() == HEADER_SIZE,
        ensures
            r matches Ok(v) && v as nat == le_u16_at(self@, 8),
    {
        self.read_u16(8)
    }

    pub fn message_data_offset(&self) -> (r: Result<u16, GatewayWalletError>)
        requires
            self@.len() == HEADER_SIZE,
        ensures
            r matches Ok(v) && v as nat == le_u16_at(self@, 10),
    {
        self.read_u16(10)
    }

    pub fn message_data_size(&self) -> (r: Result<u16, GatewayWalletError>)
        requires
            self@.len() == HEADER_SIZE,
        ensures
            r matches Ok(v) && v as nat == le_u16_at(self@, 12),
    {
        self.read_u16(12)
    }

    pub fn message_instruction_index(&self) -> (r: Result<u16, GatewayWalletError>)
        requires
            self@.len() == HEADER_SIZE,
        ensures
            r matches Ok(v) && v as nat == le_u16_at(self@, 14),
    {
        self.read_u16(14)
    }

    /// The raw header bytes.
    pub fn data(&self) -> (r: &'a [u8])
        ensures
            r@ == self@,
    {
        self.data
    }
}

/// The outcome of the companion proof check.
pub open spec fn user_signature_check(
    current_instruction_index: nat,
    previous_program_id: Seq<u8>,
    previous_data: Seq<u8>,
    ed25519_program_id: Seq<u8>,
    burn_intent_message_length: nat,
) -> Result<(), GatewayWalletError> {
    if burn_intent_message_length > u16::MAX {
        Err(GatewayWalletError::MalformedBurnData)
    } else if current_instruction_index == 0 {
        Err(GatewayWalletError::PreviousInstructionNotEd25519Program)
    } else if previous_program_id != ed25519_program_id {
        Err(GatewayWalletError::PreviousInstructionNotEd25519Program)
    } else if !companion_matches(
        previous_data,
        current_instruction_index,
        burn_intent_message_length,
    ) {
        Err(GatewayWalletError::InvalidEd25519InstructionData)
    } else {
        Ok(())
    }
}

/// Checks that the step just before the burn (step
/// `current_instruction_index`) was the Ed25519 verification program
/// and that its header names exactly the user signature, the source signer
/// and the signed message of this burn data; the signature itself is not
/// checked again here.
pub fn verify_user_signature(
    current_instruction_index: u16,
    previous_program_id: &Key,
    previous_data: &[u8],
    ed25519_program_id: &Key,
    burn_intent_message_length: usize,
) -> (r: Result<(), GatewayWalletError>)
    ensures
        r == user_signature_check(
            current_instruction_index as nat,
            previous_program_id@,
            previous_data@,
            ed25519_program_id@,
            burn_intent_message_length as nat,
        ),
{
    if burn_intent_message_length > 0xffff {
        return Err(GatewayWalletError::MalformedBurnData);
    }
    if current_instruction_index == 0 {
        return Err(GatewayWalletError::PreviousInstructionNotEd25519Program);
    }
    if !keys_equal(previous_program_id, ed25519_program_id) {
        return Err(GatewayWalletError::PreviousInstructionNotEd25519Program);
    }
    let data = Ed25519InstructionData::new(previous_data)?;
    let signature_offset: u16 = BURN_DATA_OFFSET + BURN_DATA_USER_SIGNATURE_OFFSET as u16;
    let source_signer_offset: u16 = BURN_DATA_OFFSET + TS_SOURCE_SIGNER_OFFSET as u16;
    let burn_intent_message_offset: u16 = BURN_DATA_OFFSET
        + BURN_INTENT_MESSAGE_PREFIX_OFFSET as u16;
    let valid_signature = data.num_signatures()? == ED25519_NUM_SIGNATURES && data.padding()?
        == ED25519_PADDING && data.signature_offset()? == signature_offset
        && data.signature_instruction_index()? == current_instruction_index
        && data.public_key_offset()? == source_signer_offset
        && data.public_key_instruction_index()? == current_instruction_index
        && data.message_data_offset()? == burn_intent_message_offset
        && data.message_data_size()? == burn_intent_message_length as u16
        && data.message_instruction_index()? == current_instruction_index;
    if !valid_signature {
        return Err(GatewayWalletError::InvalidEd25519InstructionData);
    }
    Ok(())
}

} // verus!
