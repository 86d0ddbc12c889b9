//! Burn data: the fee, the user's signature and the signed burn intent
//! message, which holds the transfer spec. All integers are big-endian.
//!
//! Burn data: fee (8), user signature (64), message prefix (16) = `0xff`
//! and fifteen zero bytes, then the burn intent.
//!
//! Burn intent (from 88): magic (4) = `0x070afbc2`, max block height (32),
//! max fee (32), transfer spec length (4), then the transfer spec.
//!
//! Transfer spec (from 160): magic (4) = `0xca85def7`, version (4), source
//! domain (4), destination domain (4), source contract, destination
//! contract, source token, destination token, source depositor, destination
//! recipient, source signer, destination caller (32 each), value (32), salt
//! (32), hook data length (4), hook data.
//!
//! The 32-byte numbers carry a `u64` in their last 8 bytes; the first 24
//! must be zero.

use vstd::prelude::*;
use crate::bytes::{all_zero, be_at, range_is_zero, read_key, read_u32_be, read_u64_be, Key};
use crate::crypto::{keccak256, keccak256_of};
use crate::error::GatewayWalletError;

verus! {

pub const TRANSFER_SPEC_MAGIC: u32 = 0xca85def7;

pub const BURN_INTENT_MAGIC: u32 = 0x070afbc2;

pub const BURN_DATA_FEE_OFFSET: usize = 0;

pub const BURN_DATA_USER_SIGNATURE_OFFSET: usize = 8;

pub const BURN_INTENT_MESSAGE_PREFIX_OFFSET: usize = 72;

pub const BURN_INTENT_OFFSET: usize = 88;

pub const TRANSFER_SPEC_OFFSET: usize = 160;

pub const TS_SOURCE_SIGNER_OFFSET: usize = 368;

pub const TS_HOOK_DATA_OFFSET: usize = 500;

/// Bytes of a 32-byte number that must be zero before its `u64`.
pub const U256_TO_U64_OFFSET: usize = 24;

/// The 16-byte prefix of the message that the user signs.
pub open spec fn burn_intent_message_prefix_bytes() -> Seq<u8> {
    seq![0xffu8, 0, 0, 0, 0, 0, 0, 0, 0, 0, 0, 0, 0, 0, 0, 0]
}

/// The `u64` carried by the 32-byte number at `index`, refused when one of
/// its first 24 bytes is not zero.
pub open spec fn narrowed_u64_at(d: Seq<u8>, index: int) -> Result<nat, GatewayWalletError> {
    if !all_zero(d.subrange(index, index + 24)) {
        Err(GatewayWalletError::InvalidU64HighBytes)
    } else {
        Ok(be_at(d, index + 24, 8))
    }
}

/// The declared hook data length of the transfer spec.
pub open spec fn burn_hook_len(d: Seq<u8>) -> nat {
    be_at(d, 496, 4)
}

/// Checks a burn data buffer, in the order the checks are made.
pub open spec fn check_burn_data(d: Seq<u8>) -> Result<(), GatewayWalletError> {
    if d.len() < TS_HOOK_DATA_OFFSET {
        Err(GatewayWalletError::BurnIntentLengthMismatch)
    } else if d.subrange(72, 88) != burn_intent_message_prefix_bytes() {
        Err(GatewayWalletError::InvalidBurnIntentMessagePrefix)
    } else if be_at(d, 88, 4) != BURN_INTENT_MAGIC {
        Err(GatewayWalletError::BurnIntentMagicMismatch)
    } else if be_at(d, 160, 4) != TRANSFER_SPEC_MAGIC {
        Err(GatewayWalletError::TransferSpecMagicMismatch)
    } else if TS_HOOK_DATA_OFFSET + burn_hook_len(d) > usize::MAX {
        Err(GatewayWalletError::MalformedBurnData)
    } else if d.len() != TS_HOOK_DATA_OFFSET + burn_hook_len(d) {
        Err(GatewayWalletError::BurnIntentLengthMismatch)
    } else if be_at(d, 156, 4) != 340 + burn_hook_len(d) {
        Err(GatewayWalletError::BurnIntentLengthMismatch)
    } else {
        match narrowed_u64_at(d, 432) {
            Err(e) => Err(e),
            Ok(v) => if v == 0 {
                Err(GatewayWalletError::InvalidBurnIntentValue)
            } else {
                Ok(())
            },
        }
    }
}

/// The encoded transfer spec inside a checked buffer.
pub open spec fn encoded_transfer_spec_of(d: Seq<u8>) -> Seq<u8> {
    d.subrange(160, d.len() as int)
}

/// A checked burn data buffer, read field by field.
#[derive(Clone, Debug)]
pub struct BurnData<'a> {
    data: &'a [u8],
}

impl<'a> View for BurnData<'a> {
    type V = Seq<u8>;

    closed spec fn view(&self) -> Seq<u8> {
        self.data@
    }
}

impl<'a> BurnData<'a> {
    /// Checks the prefix, both magic numbers, the lengths and the value.
    pub fn new(message_bytes: &'a [u8]) -> (r: Result<Self, GatewayWalletError>)
        ensures
            match check_burn_data(message_bytes@) {
                Ok(_) => r matches Ok(b) && b@ == message_bytes@,
                Err(e) => r == Err::<Self, GatewayWalletError>(e),
            },
    {
        let _n: usize = message_bytes.len();
        if message_bytes.len() < TS_HOOK_DATA_OFFSET {
            return Err(GatewayWalletError::BurnIntentLengthMismatch);
        }
        let burn_data = BurnData { data: message_bytes };
        let mut i: usize = 0;
        while i < 16
            invariant
                0 <= i <= 16,
                message_bytes@.len() >= TS_HOOK_DATA_OFFSET,
                forall|j: int|
                    0 <= j < i ==> message_bytes@[72 + j] == burn_intent_message_prefix_bytes()[j],
            decreases 16 - i,
        {
            let expected: u8 = if i == 0 {
                0xff
            } else {
                0
            };
            if message_bytes[72 + i] != expected {
                assert(message_bytes@.subrange(72, 88)[i as int] != burn_intent_message_prefix_bytes()[i as int]);
                return Err(GatewayWalletError::InvalidBurnIntentMessagePrefix);
            }
            i = i + 1;
        }
        assert(message_bytes@.subrange(72, 88) =~= burn_intent_message_prefix_bytes());
        if read_u32_be(message_bytes, 88) != BURN_INTENT_MAGIC {
            return Err(GatewayWalletError::BurnIntentMagicMismatch);
        }
        if read_u32_be(message_bytes, 160) != TRANSFER_SPEC_MAGIC {
            return Err(GatewayWalletError::TransferSpecMagicMismatch);
        }
        let hook_data_length = read_u32_be(message_bytes, 496) as usize;
        let burn_data_length = match TS_HOOK_DATA_OFFSET.checked_add(hook_data_length) {
            Some(l) => l,
            None => {
                return Err(GatewayWalletError::MalformedBurnData);
            },
        };
        if message_bytes.len() != burn_data_length {
            return Err(GatewayWalletError::BurnIntentLengthMismatch);
        }
        let transfer_spec_length = read_u32_be(message_bytes, 156) as usize;
        if transfer_spec_length != 340 + hook_data_length {
            return Err(GatewayWalletError::BurnIntentLengthMismatch);
        }
        let value = match burn_data.read_u64_with_data_offset(432, U256_TO_U64_OFFSET) {
            Ok(v) => v,
            Err(e) => {
                return Err(e);
            },
        };
        if value == 0 {
            return Err(GatewayWalletError::InvalidBurnIntentValue);
        }
        Ok(burn_data)
    }

    /// Reads the `u64` carried by the 32-byte number at `index`, refusing
    /// it when one of the `data_offset` leading bytes is not zero.
    fn read_u64_with_data_offset(&self, index: usize, data_offset: usize) -> (r: Result<
        u64,
        GatewayWalletError,
    >)
        requires
            data_offset == U256_TO_U64_OFFSET,
            index + 32 <= self@.len(),
        ensures
            match narrowed_u64_at(self@, index as int) {
                Ok(v) => r matches Ok(x) && x as nat == v,
                Err(e) => r == Err::<u64, GatewayWalletError>(e),
            },
    {
        let _n: usize = self.data.len();
        let start = index + data_offset;
        if !range_is_zero(self.data, index, start) {
            return Err(GatewayWalletError::InvalidU64HighBytes);
        }
        Ok(read_u64_be(self.data, start))
    }

    /// The fee that the burn signer granted.
    pub fn fee(&self) -> (r: Result<u64, GatewayWalletError>)
        requires
            check_burn_data(self@) is Ok,
        ensures
            r matches Ok(v) && v as nat == be_at(self@, 0, 8),
    {
        Ok(read_u64_be(self.data, BURN_DATA_FEE_OFFSET))
    }

    /// The user's 64-byte signature over the burn intent message.
    pub fn user_signature(&self) -> (r: Result<[u8; 64], GatewayWalletError>)
        requires
            check_burn_data(self@) is Ok,
        ensures
            r matches Ok(s) && s@ == self@.subrange(8, 72),
    {
        let mut out: [u8; 64] = [0u8; 64];
        let mut i: usize = 0;
        while i < 64
            invariant
                0 <= i <= 64,
                self@.len() >= TS_HOOK_DATA_OFFSET,
                self@ == self.data@,
                forall|j: int| 0 <= j < i ==> out@[j] == self@[8 + j],
            decreases 64 - i,
        {
            out[i] = self.data[8 + i];
            i = i + 1;
        }
        assert(out@ =~= self@.subrange(8, 72));
        Ok(out)
    }

    /// The 16-byte prefix of the signed message.
    pub fn burn_intent_message_prefix(&self) -> (r: Result<[u8; 16], GatewayWalletError>)
        requires
            check_burn_data(self@) is Ok,
        ensures
            r matches Ok(s) && s@ == self@.subrange(72, 88),
    {
        let mut out: [u8; 16] = [0u8; 16];
        let mut i: usize = 0;
        while i < 16
            invariant
                0 <= i <= 16,
                self@.len() >= TS_HOOK_DATA_OFFSET,
                self@ == self.data@,
                forall|j: int| 0 <= j < i ==> out@[j] == self@[72 + j],
            decreases 16 - i,
        {
            out[i] = self.data[72 + i];
            i = i + 1;
        }
        assert(out@ =~= self@.subrange(72, 88));
        Ok(out)
    }

    /// The burn intent magic number.
    pub fn magic(&self) -> (r: Result<u32, GatewayWalletError>)
        requires
            check_burn_data(self@) is Ok,
        ensures
            r matches Ok(v) && v as nat == be_at(self@, 88, 4),
    {
        Ok(read_u32_be(self.data, 88))
    }

    /// The last height at which the intent may be used.
    pub fn max_block_height(&self) -> (r: Result<u64, GatewayWalletError>)
        requires
            check_burn_data(self@) is Ok,
        ensures
            match narrowed_u64_at(self@, 92) {
                Ok(v) => r matches Ok(x) && x as nat == v,
                Err(e) => r == Err::<u64, GatewayWalletError>(e),
            },
    {
        self.read_u64_with_data_offset(92, U256_TO_U64_OFFSET)
    }

    /// The largest fee the user accepts.
    pub fn max_fee(&self) -> (r: Result<u64, GatewayWalletError>)
        requires
            check_burn_data(self@) is Ok,
        ensures
            match narrowed_u64_at(self@, 124) {
                Ok(v) => r matches Ok(x) && x as nat == v,
                Err(e) => r == Err::<u64, GatewayWalletError>(e),
            },
    {
        self.read_u64_with_data_offset(124, U256_TO_U64_OFFSET)
    }

    /// The declared transfer spec length.
    pub fn transfer_spec_length(&self) -> (r: Result<u32, GatewayWalletError>)
        requires
            check_burn_data(self@) is Ok,
        ensures
            r matches Ok(v) && v as nat == be_at(self@, 156, 4),
    {
        Ok(read_u32_be(self.data, 156))
    }

    /// The transfer spec magic number.
    pub fn transfer_spec_magic(&self) -> (r: Result<u32, GatewayWalletError>)
        requires
            check_burn_data(self@) is Ok,
        ensures
            r matches Ok(v) && v as nat == be_at(self@, 160, 4),
    {
        Ok(read_u32_be(self.data, 160))
    }

    /// The encoded transfer spec: everything from offset 160 on.
    pub fn encoded_transfer_spec(&self) -> (r: Result<&'a [u8], GatewayWalletError>)
        requires
            check_burn_data(self@) is Ok,
        ensures
            r matches Ok(s) && s@ == encoded_transfer_spec_of(self@),
    {
        let transfer_spec_length = read_u32_be(self.data, 156) as usize;
        Ok(&self.data[TRANSFER_SPEC_OFFSET..TRANSFER_SPEC_OFFSET + transfer_spec_length])
    }

    /// The content hash of the transfer: Keccak-256 of the encoded spec.
    pub fn transfer_spec_hash(&self) -> (r: Result<[u8; 32], GatewayWalletError>)
        requires
            check_burn_data(self@) is Ok,
        ensures
            r matches Ok(h) && h@ == keccak256_of(encoded_transfer_spec_of(self@)),
    {
        let spec = self.encoded_transfer_spec()?;
        Ok(keccak256(spec))
    }

    /// The transfer spec version.
    pub fn version(&self) -> (r: Result<u32, GatewayWalletError>)
        requires
            check_burn_data(self@) is Ok,
        ensures
            r matches Ok(v) && v as nat == be_at(self@, 164, 4),
    {
        Ok(read_u32_be(self.data, 164))
    }

    /// The domain the value leaves.
    pub fn source_domain(&self) -> (r: Result<u32, GatewayWalletError>)
        requires
            check_burn_data(self@) is Ok,
        ensures
            r matches Ok(v) && v as nat == be_at(self@, 168, 4),
    {
        Ok(read_u32_be(self.data, 168))
    }

    /// The domain the value goes to.
    pub fn destination_domain(&self) -> (r: Result<u32, GatewayWalletError>)
        requires
            check_burn_data(self@) is Ok,
        ensures
            r matches Ok(v) && v as nat == be_at(self@, 172, 4),
    {
        Ok(read_u32_be(self.data, 172))
    }

    /// The program on the source side.
    pub fn source_contract(&self) -> (r: Result<Key, GatewayWalletError>)
        requires
            check_burn_data(self@) is Ok,
        ensures
            r matches Ok(k) && k@ == self@.subrange(176, 208),
    {
        Ok(read_key(self.data, 176))
    }

    /// The program on the destination side.
    pub fn destination_contract(&self) -> (r: Result<Key, GatewayWalletError>)
        requires
            check_burn_data(self@) is Ok,
        ensures
            r matches Ok(k) && k@ == self@.subrange(208, 240),
    {
        Ok(read_key(self.data, 208))
    }

    /// The token burned on the source side.
    pub fn source_token(&self) -> (r: Result<Key, GatewayWalletError>)
        requires
            check_burn_data(self@) is Ok,
        ensures
            r matches Ok(k) && k@ == self@.subrange(240, 272),
    {
        Ok(read_key(self.data, 240))
    }

    /// The token minted on the destination side.
    pub fn destination_token(&self) -> (r: Result<Key, GatewayWalletError>)
        requires
            check_burn_data(self@) is Ok,
        ensures
            r matches Ok(k) && k@ == self@.subrange(272, 304),
    {
        Ok(read_key(self.data, 272))
    }

    /// The depositor whose balance pays.
    pub fn source_depositor(&self) -> (r: Result<Key, GatewayWalletError>)
        requires
            check_burn_data(self@) is Ok,
        ensures
            r matches Ok(k) && k@ == self@.subrange(304, 336),
    {
        Ok(read_key(self.data, 304))
    }

    /// The recipient on the destination side.
    pub fn destination_recipient(&self) -> (r: Result<Key, GatewayWalletError>)
        requires
            check_burn_data(self@) is Ok,
        ensures
            r matches Ok(k) && k@ == self@.subrange(336, 368),
    {
        Ok(read_key(self.data, 336))
    }

    /// The key that signed the burn intent.
    pub fn source_signer(&self) -> (r: Result<Key, GatewayWalletError>)
        requires
            check_burn_data(self@) is Ok,
        ensures
            r matches Ok(k) && k@ == self@.subrange(368, 400),
    {
        Ok(read_key(self.data, TS_SOURCE_SIGNER_OFFSET))
    }

    /// The caller allowed on the destination side.
    pub fn destination_caller(&self) -> (r: Result<Key, GatewayWalletError>)
        requires
            check_burn_data(self@) is Ok,
        ensures
            r matches Ok(k) && k@ == self@.subrange(400, 432),
    {
        Ok(read_key(self.data, 400))
    }

    /// The value transferred; a checked buffer carries a nonzero one.
    pub fn value(&self) -> (r: Result<u64, GatewayWalletError>)
        requires
            check_burn_data(self@) is Ok,
        ensures
            narrowed_u64_at(self@, 432) is Ok,
            r matches Ok(x) && x as nat == narrowed_u64_at(self@, 432)->Ok_0 && x > 0,
    {
        self.read_u64_with_data_offset(432, U256_TO_U64_OFFSET)
    }

    /// The salt that makes equal transfers distinct.
    pub fn salt(&self) -> (r: Result<[u8; 32], GatewayWalletError>)
        requires
            check_burn_data(self@) is Ok,
        ensures
            r matches Ok(k) && k@ == self@.subrange(464, 496),
    {
        Ok(read_key(self.data, 464))
    }

    /// The declared hook data length.
    pub fn hook_data_length(&self) -> (r: Result<u32, GatewayWalletError>)
        requires
            check_burn_data(self@) is Ok,
        ensures
            r matches Ok(v) && v as nat == burn_hook_len(self@),
    {
        Ok(read_u32_be(self.data, 496))
    }

    /// The hook data: everything from offset 500 on.
    pub fn hook_data(&self) -> (r: Result<&'a [u8], GatewayWalletError>)
        requires
            check_burn_data(self@) is Ok,
        ensures
            r matches Ok(s) && s@ == self@.subrange(500, self@.len() as int),
    {
        let hook_data_length = read_u32_be(self.data, 496) as usize;
        Ok(&self.data[TS_HOOK_DATA_OFFSET..TS_HOOK_DATA_OFFSET + hook_data_length])
    }

    /// The length of the message the user signs: the prefix and the whole
    /// burn intent.
    pub fn burn_intent_message_length(&self) -> (r: Result<usize, GatewayWalletError>)
        requires
            check_burn_data(self@) is Ok,
        ensures
            r matches Ok(v) && v == self@.len() - BURN_INTENT_MESSAGE_PREFIX_OFFSET,
    {
        Ok(self.data.len() - BURN_INTENT_MESSAGE_PREFIX_OFFSET)
    }
}

} // verus!
