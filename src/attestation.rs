//! The mint attestation set: a big-endian header followed by a counted run
//! of variable-length elements, read through a lazy, bounds-checked cursor,
//! and its encoder.
//!
//! Set header: magic (4) = `0x10cbb1ec`, version (4), destination domain (4),
//! destination contract (32), destination caller (32), max block height (8),
//! element count (4), then the elements.
//!
//! Element: destination token (32), destination recipient (32), value (8),
//! transfer spec hash (32), hook data length (4), hook data.

use vstd::prelude::*;
use crate::bytes::{
    be_at, lemma_pow256_values, nat_to_be, pow256, push_all, push_be,
    read_key, read_u32_be, read_u64_be, Key,
};
use crate::error::GatewayMinterError;

verus! {

/// Magic number that opens every attestation set.
pub const ATTESTATION_SET_MAGIC: u32 = 0x10cbb1ec;

/// Offset of the first element, which is also the size of the set header.
pub const ATTESTATIONS_OFFSET: usize = 88;

/// Size of an element without its hook data (the hook data offset).
pub const ELEMENT_HEADER_SIZE: usize = 108;

/// The smallest well-formed set: a header and one element without hook data.
pub const MIN_ATTESTATION_SET_SIZE: usize = 196;

/// What one attestation element says.
pub struct AttestationElementView {
    pub destination_token: Seq<u8>,
    pub destination_recipient: Seq<u8>,
    pub value: nat,
    pub transfer_spec_hash: Seq<u8>,
    pub hook_data: Seq<u8>,
}

/// What a whole attestation set says.
pub struct AttestationSetView {
    pub version: nat,
    pub destination_domain: nat,
    pub destination_contract: Seq<u8>,
    pub destination_caller: Seq<u8>,
    pub max_block_height: nat,
    pub elements: Seq<AttestationElementView>,
}

/// The declared hook data length of the element at offset `o`.
pub open spec fn hook_len_at(d: Seq<u8>, o: int) -> nat {
    be_at(d, o + 104, 4)
}

/// Checks the element at offset `o` (the last one when `last`), giving its
/// full length or the reason it is refused.
pub open spec fn check_element(d: Seq<u8>, o: int, last: bool) -> Result<nat, GatewayMinterError> {
    if d.len() - o < ELEMENT_HEADER_SIZE {
        Err(GatewayMinterError::AttestationTooShort)
    } else if ELEMENT_HEADER_SIZE + hook_len_at(d, o) > usize::MAX {
        Err(GatewayMinterError::MalformedMintAttestation)
    } else if d.len() - o < ELEMENT_HEADER_SIZE + hook_len_at(d, o) {
        Err(GatewayMinterError::AttestationTooShort)
    } else if last && o + ELEMENT_HEADER_SIZE + hook_len_at(d, o) != d.len() {
        Err(GatewayMinterError::AttestationTooLong)
    } else {
        Ok((ELEMENT_HEADER_SIZE + hook_len_at(d, o)) as nat)
    }
}

/// The fields of the element at offset `o`.
pub open spec fn element_at(d: Seq<u8>, o: int) -> AttestationElementView {
    AttestationElementView {
        destination_token: d.subrange(o, o + 32),
        destination_recipient: d.subrange(o + 32, o + 64),
        value: be_at(d, o + 64, 8),
        transfer_spec_hash: d.subrange(o + 72, o + 104),
        hook_data: d.subrange(o + 108, o + 108 + hook_len_at(d, o)),
    }
}

/// Reads elements `i .. n` of the set, the `i`-th starting at offset `o`:
/// the elements in order, or the first refusal.
pub open spec fn scan_elements(d: Seq<u8>, n: nat, i: nat, o: int) -> Result<
    Seq<AttestationElementView>,
    GatewayMinterError,
>
    decreases n - i,
{
    if i >= n {
        Ok(Seq::empty())
    } else {
        match check_element(d, o, i + 1 == n) {
            Err(e) => Err(e),
            Ok(len) => match scan_elements(d, n, i + 1, o + len) {
                Err(e) => Err(e),
                Ok(rest) => Ok(seq![element_at(d, o)] + rest),
            },
        }
    }
}

/// Checks the set header, giving the declared element count.
pub open spec fn check_header(d: Seq<u8>) -> Result<nat, GatewayMinterError> {
    if d.len() < MIN_ATTESTATION_SET_SIZE {
        Err(GatewayMinterError::AttestationTooShort)
    } else if be_at(d, 0, 4) != ATTESTATION_SET_MAGIC {
        Err(GatewayMinterError::AttestationMagicMismatch)
    } else if be_at(d, 84, 4) == 0 {
        Err(GatewayMinterError::EmptyAttestationSet)
    } else {
        Ok(be_at(d, 84, 4))
    }
}

/// What a byte buffer decodes to as an attestation set.
pub open spec fn parse_attestation_set(d: Seq<u8>) -> Result<AttestationSetView, GatewayMinterError> {
    match check_header(d) {
        Err(e) => Err(e),
        Ok(n) => match scan_elements(d, n, 0, ATTESTATIONS_OFFSET as int) {
            Err(e) => Err(e),
            Ok(elements) => Ok(
                AttestationSetView {
                    version: be_at(d, 4, 4),
                    destination_domain: be_at(d, 8, 4),
                    destination_contract: d.subrange(12, 44),
                    destination_caller: d.subrange(44, 76),
                    max_block_height: be_at(d, 76, 8),
                    elements,
                },
            ),
        },
    }
}

/// The bytes of one element.
pub open spec fn encode_element(e: AttestationElementView) -> Seq<u8> {
    e.destination_token + e.destination_recipient + nat_to_be(e.value, 8) + e.transfer_spec_hash
        + nat_to_be(e.hook_data.len(), 4) + e.hook_data
}

/// The bytes of a run of elements, in order.
pub open spec fn encode_elements(es: Seq<AttestationElementView>) -> Seq<u8>
    decreases es.len(),
{
    if es.len() == 0 {
        Seq::empty()
    } else {
        encode_element(es[0]) + encode_elements(es.skip(1))
    }
}

/// The set header bytes.
pub open spec fn encode_header(x: AttestationSetView) -> Seq<u8> {
    nat_to_be(ATTESTATION_SET_MAGIC as nat, 4) + nat_to_be(x.version, 4) + nat_to_be(
        x.destination_domain,
        4,
    ) + x.destination_contract + x.destination_caller + nat_to_be(x.max_block_height, 8)
        + nat_to_be(x.elements.len(), 4)
}

/// The bytes of a whole set.
pub open spec fn encode_set(x: AttestationSetView) -> Seq<u8> {
    encode_header(x) + encode_elements(x.elements)
}

/// An element that the format can carry.
pub open spec fn element_valid(e: AttestationElementView) -> bool {
    &&& e.destination_token.len() == 32
    &&& e.destination_recipient.len() == 32
    &&& e.transfer_spec_hash.len() == 32
    &&& e.value < pow256(8)
    &&& e.hook_data.len() < pow256(4)
}

/// A set that the format can carry, with at least one element.
pub open spec fn set_valid(x: AttestationSetView) -> bool {
    &&& x.version < pow256(4)
    &&& x.destination_domain < pow256(4)
    &&& x.destination_contract.len() == 32
    &&& x.destination_caller.len() == 32
    &&& x.max_block_height < pow256(8)
    &&& 0 < x.elements.len() < pow256(4)
    &&& forall|i: int| 0 <= i < x.elements.len() ==> element_valid(#[trigger] x.elements[i])
}

/// Where the cursor stands in a buffer.
pub struct AttestationCursor {
    pub data: Seq<u8>,
    pub offset: int,
    pub index: nat,
    pub num_elements: nat,
}

/// A cursor that `new` and `next` can produce: the header is sound and,
/// once an element is exposed, that element passed its checks.
pub open spec fn cursor_wf(c: AttestationCursor) -> bool {
    &&& c.data.len() <= usize::MAX
    &&& check_header(c.data) == Ok::<nat, GatewayMinterError>(c.num_elements)
    &&& c.index <= c.num_elements
    &&& ATTESTATIONS_OFFSET <= c.offset <= c.data.len()
    &&& c.index == 0 ==> c.offset == ATTESTATIONS_OFFSET
    &&& c.index > 0 ==> check_element(c.data, c.offset, c.index == c.num_elements) is Ok
}

/// Where the element that `next` examines starts.
pub open spec fn next_offset(c: AttestationCursor) -> int {
    if c.index == 0 {
        c.offset
    } else {
        c.offset + ELEMENT_HEADER_SIZE + hook_len_at(c.data, c.offset)
    }
}

/// A lazy, non-restartable cursor over the elements of an attestation set.
/// `next` exposes one element at a time; the element accessors read the
/// element exposed last.
#[derive(Clone, Debug)]
pub struct MintAttestation<'a> {
    data: &'a [u8],
    offset: usize,
    index: u32,
    num_elements: u32,
}

impl<'a> View for MintAttestation<'a> {
    type V = AttestationCursor;

    closed spec fn view(&self) -> AttestationCursor {
        AttestationCursor {
            data: self.data@,
            offset: self.offset as int,
            index: self.index as nat,
            num_elements: self.num_elements as nat,
        }
    }
}

impl<'a> MintAttestation<'a> {
    /// Checks the set header; the cursor then stands before the first element.
    pub fn new(message_bytes: &'a [u8]) -> (r: Result<Self, GatewayMinterError>)
        ensures
            match check_header(message_bytes@) {
                Ok(n) => r matches Ok(c) && c@ == (AttestationCursor {
                    data: message_bytes@,
                    offset: ATTESTATIONS_OFFSET as int,
                    index: 0,
                    num_elements: n,
                }),
                Err(e) => r == Err::<Self, GatewayMinterError>(e),
            },
            r matches Ok(c) ==> cursor_wf(c@),
    {
        let _n: usize = message_bytes.len();
        if message_bytes.len() < MIN_ATTESTATION_SET_SIZE {
            return Err(GatewayMinterError::AttestationTooShort);
        }
        if read_u32_be(message_bytes, 0) != ATTESTATION_SET_MAGIC {
            return Err(GatewayMinterError::AttestationMagicMismatch);
        }
        let num_elements = read_u32_be(message_bytes, 84);
        if num_elements == 0 {
            return Err(GatewayMinterError::EmptyAttestationSet);
        }
        Ok(MintAttestation { data: message_bytes, offset: ATTESTATIONS_OFFSET, index: 0, num_elements })
    }

    /// Exposes the next element, checking that its fixed part and hook data
    /// lie inside the buffer and, for the last element, that nothing follows
    /// it. Past the last element it returns `false` and changes nothing; a
    /// refused element leaves the cursor where it was.
    pub fn next(&mut self) -> (r: Result<bool, GatewayMinterError>)
        requires
            cursor_wf(old(self)@),
        ensures
            cursor_wf(final(self)@),
            final(self)@.data == old(self)@.data,
            final(self)@.num_elements == old(self)@.num_elements,
            old(self)@.index >= old(self)@.num_elements ==> r == Ok::<bool, GatewayMinterError>(
                false,
            ) && final(self)@ == old(self)@,
            old(self)@.index < old(self)@.num_elements ==> match check_element(
                old(self)@.data,
                next_offset(old(self)@),
                old(self)@.index + 1 == old(self)@.num_elements,
            ) {
                Ok(_) => r == Ok::<bool, GatewayMinterError>(true) && final(self)@ == (
                AttestationCursor {
                    offset: next_offset(old(self)@),
                    index: old(self)@.index + 1,
                    ..old(self)@
                }),
                Err(e) => r == Err::<bool, GatewayMinterError>(e) && final(self)@ == old(self)@,
            },
    {
        if self.index >= self.num_elements {
            return Ok(false);
        }
        let _n: usize = self.data.len();
        let mut offset = self.offset;
        if self.index > 0 {
            let previous = read_u32_be(self.data, self.offset + 104) as usize;
            offset = self.offset + ELEMENT_HEADER_SIZE + previous;
        }
        let remaining = self.data.len() - offset;
        if remaining < ELEMENT_HEADER_SIZE {
            return Err(GatewayMinterError::AttestationTooShort);
        }
        let hook_data_length = read_u32_be(self.data, offset + 104) as usize;
        let attestation_length = match ELEMENT_HEADER_SIZE.checked_add(hook_data_length) {
            Some(l) => l,
            None => return Err(GatewayMinterError::MalformedMintAttestation),
        };
        if remaining < attestation_length {
            return Err(GatewayMinterError::AttestationTooShort);
        }
        if self.index + 1 == self.num_elements && offset + attestation_length != self.data.len() {
            return Err(GatewayMinterError::AttestationTooLong);
        }
        self.offset = offset;
        self.index = self.index + 1;
        Ok(true)
    }

    /// How many elements have been exposed so far.
    pub fn index_of_current(&self) -> (r: u32)
        ensures
            r as nat == self@.index,
    {
        self.index
    }

    /// The set's magic number.
    pub fn magic(&self) -> (r: Result<u32, GatewayMinterError>)
        requires
            cursor_wf(self@),
        ensures
            r matches Ok(v) && v as nat == be_at(self@.data, 0, 4),
    {
        Ok(read_u32_be(self.data, 0))
    }

    /// The declared element count.
    pub fn num_attestations(&self) -> (r: Result<u32, GatewayMinterError>)
        requires
            cursor_wf(self@),
        ensures
            r matches Ok(v) && v as nat == be_at(self@.data, 84, 4) && v as nat
                == self@.num_elements,
    {
        Ok(read_u32_be(self.data, 84))
    }

    /// The set's version.
    pub fn version(&self) -> (r: Result<u32, GatewayMinterError>)
        requires
            cursor_wf(self@),
        ensures
            r matches Ok(v) && v as nat == be_at(self@.data, 4, 4),
    {
        Ok(read_u32_be(self.data, 4))
    }

    /// The domain the set is meant for.
    pub fn destination_domain(&self) -> (r: Result<u32, GatewayMinterError>)
        requires
            cursor_wf(self@),
        ensures
            r matches Ok(v) && v as nat == be_at(self@.data, 8, 4),
    {
        Ok(read_u32_be(self.data, 8))
    }

    /// The program the set is meant for.
    pub fn destination_contract(&self) -> (r: Result<Key, GatewayMinterError>)
        requires
            cursor_wf(self@),
        ensures
            r matches Ok(k) && k@ == self@.data.subrange(12, 44),
    {
        Ok(read_key(self.data, 12))
    }

    /// The caller the set is meant for; all zero admits any caller.
    pub fn destination_caller(&self) -> (r: Result<Key, GatewayMinterError>)
        requires
            cursor_wf(self@),
        ensures
            r matches Ok(k) && k@ == self@.data.subrange(44, 76),
    {
        Ok(read_key(self.data, 44))
    }

    /// The last height at which the set may be used.
    pub fn max_block_height(&self) -> (r: Result<u64, GatewayMinterError>)
        requires
            cursor_wf(self@),
        ensures
            r matches Ok(v) && v as nat == be_at(self@.data, 76, 8),
    {
        Ok(read_u64_be(self.data, 76))
    }

    /// The current element's token.
    pub fn destination_token(&self) -> (r: Result<Key, GatewayMinterError>)
        requires
            cursor_wf(self@),
        ensures
            r matches Ok(k) && k@ == element_at(self@.data, self@.offset).destination_token,
    {
        Ok(read_key(self.data, self.offset))
    }

    /// The current element's recipient.
    pub fn destination_recipient(&self) -> (r: Result<Key, GatewayMinterError>)
        requires
            cursor_wf(self@),
        ensures
            r matches Ok(k) && k@ == element_at(self@.data, self@.offset).destination_recipient,
    {
        Ok(read_key(self.data, self.offset + 32))
    }

    /// The current element's value.
    pub fn value(&self) -> (r: Result<u64, GatewayMinterError>)
        requires
            cursor_wf(self@),
        ensures
            r matches Ok(v) && v as nat == element_at(self@.data, self@.offset).value,
    {
        Ok(read_u64_be(self.data, self.offset + 64))
    }

    /// The current element's transfer spec hash.
    pub fn transfer_spec_hash(&self) -> (r: Result<[u8; 32], GatewayMinterError>)
        requires
            cursor_wf(self@),
        ensures
            r matches Ok(k) && k@ == element_at(self@.data, self@.offset).transfer_spec_hash,
    {
        Ok(read_key(self.data, self.offset + 72))
    }

    /// The current element's declared hook data length.
    pub fn hook_data_length(&self) -> (r: Result<u32, GatewayMinterError>)
        requires
            cursor_wf(self@),
        ensures
            r matches Ok(v) && v as nat == hook_len_at(self@.data, self@.offset),
    {
        Ok(read_u32_be(self.data, self.offset + 104))
    }

    /// The current element's hook data; refused when the declared length
    /// runs past the buffer (possible only before the first `next`).
    pub fn hook_data(&self) -> (r: Result<&'a [u8], GatewayMinterError>)
        requires
            cursor_wf(self@),
        ensures
            self@.offset + ELEMENT_HEADER_SIZE + hook_len_at(self@.data, self@.offset)
                <= self@.data.len() ==> (r matches Ok(h) && h@ == element_at(
                self@.data,
                self@.offset,
            ).hook_data),
            self@.offset + ELEMENT_HEADER_SIZE + hook_len_at(self@.data, self@.offset)
                > self@.data.len() ==> r == Err::<&'a [u8], GatewayMinterError>(
                GatewayMinterError::MalformedMintAttestation,
            ),
    {
        let _n: usize = self.data.len();
        let start = self.offset + ELEMENT_HEADER_SIZE;
        let len = read_u32_be(self.data, self.offset + 104) as usize;
        if len > self.data.len() - start {
            return Err(GatewayMinterError::MalformedMintAttestation);
        }
        Ok(&self.data[start..start + len])
    }
}

/// One element of an attestation set, as plain fields.
#[derive(Clone, Debug)]
pub struct MintAttestationElementStruct<'a> {
    pub destination_token: [u8; 32],
    pub destination_recipient: [u8; 32],
    pub value: u64,
    pub transfer_spec_hash: [u8; 32],
    pub hook_data: &'a [u8],
}

impl<'a> View for MintAttestationElementStruct<'a> {
    type V = AttestationElementView;

    open spec fn view(&self) -> AttestationElementView {
        AttestationElementView {
            destination_token: self.destination_token@,
            destination_recipient: self.destination_recipient@,
            value: self.value as nat,
            transfer_spec_hash: self.transfer_spec_hash@,
            hook_data: self.hook_data@,
        }
    }
}

/// An attestation set as plain fields; the magic and the element count are
/// implied.
#[derive(Clone, Debug)]
pub struct MintAttestationStruct<'a> {
    pub version: u32,
    pub destination_domain: u32,
    pub destination_contract: [u8; 32],
    pub destination_caller: [u8; 32],
    pub max_block_height: u64,
    pub elements: Vec<MintAttestationElementStruct<'a>>,
}

impl<'a> View for MintAttestationStruct<'a> {
    type V = AttestationSetView;

    open spec fn view(&self) -> AttestationSetView {
        AttestationSetView {
            version: self.version as nat,
            destination_domain: self.destination_domain as nat,
            destination_contract: self.destination_contract@,
            destination_caller: self.destination_caller@,
            max_block_height: self.max_block_height as nat,
            elements: self.elements@.map_values(|e: MintAttestationElementStruct<'a>| e@),
        }
    }
}

/// `encode_elements` of a run grown by one element at its end.
pub proof fn lemma_encode_elements_push(es: Seq<AttestationElementView>, e: AttestationElementView)
    ensures
        encode_elements(es.push(e)) == encode_elements(es) + encode_element(e),
    decreases es.len(),
{
    if es.len() == 0 {
        assert(es.push(e).skip(1) =~= Seq::<AttestationElementView>::empty());
        assert(encode_elements(Seq::<AttestationElementView>::empty()) == Seq::<u8>::empty());
        assert(encode_element(e) + Seq::<u8>::empty() =~= encode_element(e));
        assert(Seq::<u8>::empty() + encode_element(e) =~= encode_element(e));
    } else {
        assert(es.push(e).skip(1) =~= es.skip(1).push(e));
        lemma_encode_elements_push(es.skip(1), e);
        assert(es.push(e)[0] == es[0]);
        assert(encode_element(es[0]) + (encode_elements(es.skip(1)) + encode_element(e))
            =~= (encode_element(es[0]) + encode_elements(es.skip(1))) + encode_element(e));
    }
}

impl<'a> MintAttestationStruct<'a> {
    /// Encodes the set, the exact inverse of decoding.
    pub fn encode_attestation(&self) -> (r: Vec<u8>)
        requires
            self.elements@.len() < pow256(4),
            forall|i: int|
                0 <= i < self.elements@.len() ==> (#[trigger] self.elements@[i]).hook_data@.len()
                    < pow256(4),
        ensures
            r@ == encode_set(self@),
    {
        proof {
            lemma_pow256_values();
        }
        let num_elements = self.elements.len() as u32;
        let mut buffer: Vec<u8> = Vec::new();
        push_be(&mut buffer, ATTESTATION_SET_MAGIC as u64, 4);
        push_be(&mut buffer, self.version as u64, 4);
        push_be(&mut buffer, self.destination_domain as u64, 4);
        push_all(&mut buffer, &self.destination_contract);
        push_all(&mut buffer, &self.destination_caller);
        push_be(&mut buffer, self.max_block_height, 8);
        push_be(&mut buffer, num_elements as u64, 4);
        let ghost views = self.elements@.map_values(|e: MintAttestationElementStruct<'a>| e@);
        proof {
            assert(buffer@ =~= encode_header(self@));
            assert(views.take(0) =~= Seq::<AttestationElementView>::empty());
        }
        let mut i: usize = 0;
        while i < self.elements.len()
            invariant
                i <= self.elements@.len(),
                views == self.elements@.map_values(|e: MintAttestationElementStruct<'a>| e@),
                forall|j: int|
                    0 <= j < self.elements@.len() ==> (#[trigger] self.elements@[j]).hook_data@.len()
                        < pow256(4),
                pow256(4) == 0x1_0000_0000,
                buffer@ == encode_header(self@) + encode_elements(views.take(i as int)),
            decreases self.elements@.len() - i,
        {
            let element = &self.elements[i];
            let ghost before = buffer@;
            let hook_data_length = element.hook_data.len() as u32;
            push_all(&mut buffer, &element.destination_token);
            push_all(&mut buffer, &element.destination_recipient);
            push_be(&mut buffer, element.value, 8);
            push_all(&mut buffer, &element.transfer_spec_hash);
            push_be(&mut buffer, hook_data_length as u64, 4);
            push_all(&mut buffer, element.hook_data);
            proof {
                assert(views[i as int] == element@);
                assert(buffer@ =~= before + encode_element(element@));
                assert(views.take(i + 1) =~= views.take(i as int).push(views[i as int]));
                lemma_encode_elements_push(views.take(i as int), views[i as int]);
                assert(buffer@ =~= encode_header(self@) + encode_elements(views.take(i + 1)));
            }
            i = i + 1;
        }
        proof {
            assert(views.take(i as int) =~= views);
        }
        buffer
    }
}

/// `front` followed by the elements of `r`, or the refusal of `r`.
pub open spec fn prepend_elements(
    front: Seq<AttestationElementView>,
    r: Result<Seq<AttestationElementView>, GatewayMinterError>,
) -> Result<Seq<AttestationElementView>, GatewayMinterError> {
    match r {
        Ok(rest) => Ok(front + rest),
        Err(e) => Err(e),
    }
}

/// Decodes a whole attestation set by walking it with the cursor; succeeds
/// exactly when every element passes its checks.
pub fn decode_attestation_set<'a>(message_bytes: &'a [u8]) -> (r: Result<
    MintAttestationStruct<'a>,
    GatewayMinterError,
>)
    ensures
        match parse_attestation_set(message_bytes@) {
            Ok(x) => r matches Ok(s) && s@ == x,
            Err(e) => r matches Err(f) && f == e,
        },
{
    let mut cursor = match MintAttestation::new(message_bytes) {
        Ok(c) => c,
        Err(e) => return Err(e),
    };
    let ghost d = message_bytes@;
    let ghost n = cursor@.num_elements;
    let version = cursor.version()?;
    let destination_domain = cursor.destination_domain()?;
    let destination_contract = cursor.destination_contract()?;
    let destination_caller = cursor.destination_caller()?;
    let max_block_height = cursor.max_block_height()?;
    let mut elements: Vec<MintAttestationElementStruct<'a>> = Vec::new();
    proof {
        assert(elements@.map_values(|e: MintAttestationElementStruct<'a>| e@) =~= Seq::<
            AttestationElementView,
        >::empty());
        assert(Seq::<AttestationElementView>::empty() + Seq::<AttestationElementView>::empty()
            =~= Seq::<AttestationElementView>::empty());
        match scan_elements(d, n, 0, ATTESTATIONS_OFFSET as int) {
            Ok(rest) => {
                assert(Seq::<AttestationElementView>::empty() + rest =~= rest);
            },
            Err(_) => {},
        }
    }
    loop
        invariant
            cursor_wf(cursor@),
            cursor@.data == d,
            cursor@.num_elements == n,
            d == message_bytes@,
            check_header(d) == Ok::<nat, GatewayMinterError>(n),
            version as nat == be_at(d, 4, 4),
            destination_domain as nat == be_at(d, 8, 4),
            destination_contract@ == d.subrange(12, 44),
            destination_caller@ == d.subrange(44, 76),
            max_block_height as nat == be_at(d, 76, 8),
            scan_elements(d, n, 0, ATTESTATIONS_OFFSET as int) == prepend_elements(
                elements@.map_values(|e: MintAttestationElementStruct<'a>| e@),
                scan_elements(d, n, cursor@.index, next_offset(cursor@)),
            ),
        ensures
            cursor_wf(cursor@),
            cursor@.data == d,
            cursor@.index >= n,
            scan_elements(d, n, 0, ATTESTATIONS_OFFSET as int) == prepend_elements(
                elements@.map_values(|e: MintAttestationElementStruct<'a>| e@),
                scan_elements(d, n, cursor@.index, next_offset(cursor@)),
            ),
        decreases n - cursor@.index,
    {
        let ghost before = cursor@;
        let more = match cursor.next() {
            Ok(m) => m,
            Err(e) => {
                return Err(e);
            },
        };
        if !more {
            break;
        }
        let element = MintAttestationElementStruct {
            destination_token: cursor.destination_token()?,
            destination_recipient: cursor.destination_recipient()?,
            value: cursor.value()?,
            transfer_spec_hash: cursor.transfer_spec_hash()?,
            hook_data: cursor.hook_data()?,
        };
        let ghost old_views = elements@.map_values(|e: MintAttestationElementStruct<'a>| e@);
        elements.push(element);
        proof {
            let views = elements@.map_values(|e: MintAttestationElementStruct<'a>| e@);
            assert(views =~= old_views.push(element_at(d, cursor@.offset)));
            let tail = scan_elements(d, n, cursor@.index, next_offset(cursor@));
            match tail {
                Ok(rest) => {
                    assert(old_views + (seq![element_at(d, cursor@.offset)] + rest) =~= views
                        + rest);
                },
                Err(_) => {},
            }
        }
    }
    proof {
        assert(scan_elements(d, n, cursor@.index, next_offset(cursor@)) == Ok::<
            Seq<AttestationElementView>,
            GatewayMinterError,
        >(Seq::empty()));
        let views = elements@.map_values(|e: MintAttestationElementStruct<'a>| e@);
        assert(views + Seq::<AttestationElementView>::empty() =~= views);
    }
    Ok(
        MintAttestationStruct {
            version,
            destination_domain,
            destination_contract,
            destination_caller,
            max_block_height,
            elements,
        },
    )
}

/// Cutting the buffer short inside elements `i .. n` of a set that scans
/// cleanly makes the scan fail as too short.
proof fn lemma_scan_truncated(d: Seq<u8>, k: int, n: nat, i: nat, o: int)
    requires
        i < n,
        scan_elements(d, n, i, o) is Ok,
        0 <= o <= k < d.len(),
    ensures
        scan_elements(d.subrange(0, k), n, i, o) == Err::<
            Seq<AttestationElementView>,
            GatewayMinterError,
        >(GatewayMinterError::AttestationTooShort),
    decreases n - i,
{
    let t = d.subrange(0, k);
    let len = check_element(d, o, i + 1 == n)->Ok_0;
    if k - o >= ELEMENT_HEADER_SIZE {
        assert(t.subrange(o + 104, o + 108) =~= d.subrange(o + 104, o + 108));
        if k - o >= len {
            lemma_scan_truncated(d, k, n, i + 1, o + len);
        }
    }
}

/// Cutting a well-formed set short anywhere makes decoding fail as too
/// short; no cut passes and none is read past its end.
pub proof fn lemma_truncation_rejected(d: Seq<u8>, k: int)
    requires
        parse_attestation_set(d) is Ok,
        0 <= k < d.len(),
    ensures
        parse_attestation_set(d.subrange(0, k)) == Err::<AttestationSetView, GatewayMinterError>(
            GatewayMinterError::AttestationTooShort,
        ),
{
    let t = d.subrange(0, k);
    if k >= MIN_ATTESTATION_SET_SIZE {
        assert(t.subrange(0, 4) =~= d.subrange(0, 4));
        assert(t.subrange(84, 88) =~= d.subrange(84, 88));
        let n = check_header(d)->Ok_0;
        lemma_scan_truncated(d, k, n, 0, ATTESTATIONS_OFFSET as int);
    }
}

/// Bytes after a set that scans cleanly make the last element fail as too
/// long.
proof fn lemma_scan_extended(d: Seq<u8>, x: Seq<u8>, n: nat, i: nat, o: int)
    requires
        i < n,
        x.len() > 0,
        scan_elements(d, n, i, o) is Ok,
        0 <= o <= d.len(),
    ensures
        scan_elements(d + x, n, i, o) == Err::<Seq<AttestationElementView>, GatewayMinterError>(
            GatewayMinterError::AttestationTooLong,
        ),
    decreases n - i,
{
    let e = d + x;
    let len = check_element(d, o, i + 1 == n)->Ok_0;
    assert(e.subrange(o + 104, o + 108) =~= d.subrange(o + 104, o + 108));
    if i + 1 < n {
        lemma_scan_extended(d, x, n, i + 1, o + len);
    }
}

/// Appending any bytes to a well-formed set makes decoding fail on its last
/// element as too long.
pub proof fn lemma_trailing_bytes_rejected(d: Seq<u8>, x: Seq<u8>)
    requires
        parse_attestation_set(d) is Ok,
        x.len() > 0,
    ensures
        parse_attestation_set(d + x) == Err::<AttestationSetView, GatewayMinterError>(
            GatewayMinterError::AttestationTooLong,
        ),
{
    let e = d + x;
    assert(e.subrange(0, 4) =~= d.subrange(0, 4));
    assert(e.subrange(84, 88) =~= d.subrange(84, 88));
    let n = check_header(d)->Ok_0;
    lemma_scan_extended(d, x, n, 0, ATTESTATIONS_OFFSET as int);
}

/// The length of an element's bytes.
proof fn lemma_encode_element_len(e: AttestationElementView)
    requires
        element_valid(e),
    ensures
        encode_element(e).len() == ELEMENT_HEADER_SIZE + e.hook_data.len(),
{
    crate::bytes::lemma_be_nat_of_nat_to_be(e.value, 8);
    crate::bytes::lemma_be_nat_of_nat_to_be(e.hook_data.len(), 4);
}

/// A run of valid elements is at least as long as its first fixed part.
proof fn lemma_encode_elements_len(es: Seq<AttestationElementView>)
    requires
        forall|i: int| 0 <= i < es.len() ==> element_valid(#[trigger] es[i]),
    ensures
        es.len() > 0 ==> encode_elements(es).len() >= ELEMENT_HEADER_SIZE,
{
    if es.len() > 0 {
        assert(element_valid(es[0]));
        lemma_encode_element_len(es[0]);
    }
}

/// The `i`-th element of an encoded run starting at offset `o`: it passes
/// its checks, reads back as itself, and the rest of the run follows it.
proof fn lemma_encoded_at(d: Seq<u8>, es: Seq<AttestationElementView>, i: nat, o: int)
    requires
        i < es.len(),
        0 <= o <= d.len(),
        d.len() <= usize::MAX,
        forall|j: int| 0 <= j < es.len() ==> element_valid(#[trigger] es[j]),
        d.subrange(o, d.len() as int) == encode_elements(es.subrange(i as int, es.len() as int)),
    ensures
        check_element(d, o, i + 1 == es.len()) == Ok::<nat, GatewayMinterError>(
            (ELEMENT_HEADER_SIZE + es[i as int].hook_data.len()) as nat,
        ),
        hook_len_at(d, o) == es[i as int].hook_data.len(),
        element_at(d, o) == es[i as int],
        d.subrange(o + ELEMENT_HEADER_SIZE + es[i as int].hook_data.len(), d.len() as int)
            == encode_elements(es.subrange(i + 1 as int, es.len() as int)),
{
    let n = es.len();
        let e = es[i as int];
        assert(element_valid(e));
        let ee = encode_element(e);
        let tail = es.subrange(i + 1 as int, n as int);
        assert(es.subrange(i as int, n as int)[0] == e);
        assert(es.subrange(i as int, n as int).skip(1) =~= tail);
        let rest = encode_elements(tail);
        let s = d.subrange(o, d.len() as int);
        assert(s == ee + rest);
        lemma_encode_element_len(e);
        crate::bytes::lemma_be_nat_of_nat_to_be(e.value, 8);
        crate::bytes::lemma_be_nat_of_nat_to_be(e.hook_data.len(), 4);
        let h = e.hook_data.len() as int;
        let len = ELEMENT_HEADER_SIZE + h;
        assert(d.subrange(o + 104, o + 108) =~= s.subrange(104, 108));
        assert(s.subrange(104, 108) =~= ee.subrange(104, 108));
        assert(ee.subrange(104, 108) =~= nat_to_be(e.hook_data.len(), 4));
        assert(hook_len_at(d, o) == h);
        assert(d.subrange(o, o + 32) =~= s.subrange(0, 32));
        assert(s.subrange(0, 32) =~= ee.subrange(0, 32));
        assert(ee.subrange(0, 32) =~= e.destination_token);
        assert(d.subrange(o + 32, o + 64) =~= s.subrange(32, 64));
        assert(s.subrange(32, 64) =~= ee.subrange(32, 64));
        assert(ee.subrange(32, 64) =~= e.destination_recipient);
        assert(d.subrange(o + 64, o + 72) =~= s.subrange(64, 72));
        assert(s.subrange(64, 72) =~= ee.subrange(64, 72));
        assert(ee.subrange(64, 72) =~= nat_to_be(e.value, 8));
        assert(d.subrange(o + 72, o + 104) =~= s.subrange(72, 104));
        assert(s.subrange(72, 104) =~= ee.subrange(72, 104));
        assert(ee.subrange(72, 104) =~= e.transfer_spec_hash);
        assert(d.subrange(o + 108, o + 108 + h) =~= s.subrange(108, 108 + h));
        assert(s.subrange(108, 108 + h) =~= ee.subrange(108, 108 + h));
        assert(ee.subrange(108, 108 + h) =~= e.hook_data);
        assert(element_at(d, o) == e);
        assert(d.subrange(o + len, d.len() as int) =~= s.subrange(len, s.len() as int));
        assert(s.subrange(len, s.len() as int) =~= rest);
        if i + 1 == n {
            assert(tail.len() == 0);
            assert(rest.len() == 0);
        }
        assert(check_element(d, o, i + 1 == n) == Ok::<nat, GatewayMinterError>(len as nat));
}

/// Scanning the encoding of elements `i .. n` gives those elements back.
proof fn lemma_scan_encoded(d: Seq<u8>, es: Seq<AttestationElementView>, i: nat, o: int)
    requires
        i <= es.len(),
        0 <= o <= d.len(),
        d.len() <= usize::MAX,
        forall|j: int| 0 <= j < es.len() ==> element_valid(#[trigger] es[j]),
        d.subrange(o, d.len() as int) == encode_elements(es.subrange(i as int, es.len() as int)),
    ensures
        scan_elements(d, es.len(), i, o) == Ok::<Seq<AttestationElementView>, GatewayMinterError>(
            es.subrange(i as int, es.len() as int),
        ),
    decreases es.len() - i,
{
    let n = es.len();
    if i < n {
        let e = es[i as int];
        lemma_encoded_at(d, es, i, o);
        let len = ELEMENT_HEADER_SIZE + e.hook_data.len();
        let tail = es.subrange(i + 1 as int, n as int);
        lemma_scan_encoded(d, es, i + 1, o + len);
        assert(seq![e] + tail =~= es.subrange(i as int, n as int));
    } else {
        assert(es.subrange(i as int, n as int) =~= Seq::<AttestationElementView>::empty());
    }
}

/// The header of an encoded valid set reads back as the set's header, with
/// the element count, and the elements follow it.
pub proof fn lemma_encoded_header(x: AttestationSetView)
    requires
        set_valid(x),
    ensures
        ({
            let d = encode_set(x);
            &&& check_header(d) == Ok::<nat, GatewayMinterError>(x.elements.len())
            &&& be_at(d, 4, 4) == x.version
            &&& be_at(d, 8, 4) == x.destination_domain
            &&& d.subrange(12, 44) == x.destination_contract
            &&& d.subrange(44, 76) == x.destination_caller
            &&& be_at(d, 76, 8) == x.max_block_height
            &&& d.subrange(88, d.len() as int) == encode_elements(
                x.elements.subrange(0, x.elements.len() as int),
            )
        }),
{
    let d = encode_set(x);
    let h = encode_header(x);
    let es = x.elements;
    crate::bytes::lemma_pow256_values();
    crate::bytes::lemma_be_nat_of_nat_to_be(ATTESTATION_SET_MAGIC as nat, 4);
    crate::bytes::lemma_be_nat_of_nat_to_be(x.version, 4);
    crate::bytes::lemma_be_nat_of_nat_to_be(x.destination_domain, 4);
    crate::bytes::lemma_be_nat_of_nat_to_be(x.max_block_height, 8);
    crate::bytes::lemma_be_nat_of_nat_to_be(es.len(), 4);
    assert(h.len() == 88);
    lemma_encode_elements_len(es);
    assert(d.subrange(0, 4) =~= nat_to_be(ATTESTATION_SET_MAGIC as nat, 4));
    assert(d.subrange(4, 8) =~= nat_to_be(x.version, 4));
    assert(d.subrange(8, 12) =~= nat_to_be(x.destination_domain, 4));
    assert(d.subrange(12, 44) =~= x.destination_contract);
    assert(d.subrange(44, 76) =~= x.destination_caller);
    assert(d.subrange(76, 84) =~= nat_to_be(x.max_block_height, 8));
    assert(d.subrange(84, 88) =~= nat_to_be(es.len(), 4));
    assert(es.subrange(0, es.len() as int) =~= es);
    assert(d.subrange(88, d.len() as int) =~= encode_elements(es));
}

/// Decoding the encoding of a valid set with at least one element gives
/// the set back.
pub proof fn lemma_round_trip(x: AttestationSetView)
    requires
        set_valid(x),
        encode_set(x).len() <= usize::MAX,
    ensures
        parse_attestation_set(encode_set(x)) == Ok::<AttestationSetView, GatewayMinterError>(x),
{
    let d = encode_set(x);
    lemma_encoded_header(x);
    lemma_scan_encoded(d, x.elements, 0, ATTESTATIONS_OFFSET as int);
    assert(x.elements.subrange(0, x.elements.len() as int) =~= x.elements);
}

/// Where the `k`-th element of an encoded run of elements starts.
pub open spec fn element_offset(es: Seq<AttestationElementView>, k: nat) -> int
    decreases k,
{
    if k == 0 {
        ATTESTATIONS_OFFSET as int
    } else {
        element_offset(es, (k - 1) as nat) + ELEMENT_HEADER_SIZE + es[k - 1].hook_data.len()
    }
}

/// From the `k`-th element on, an encoded set holds the encoding of the
/// remaining elements.
proof fn lemma_suffix_at(x: AttestationSetView, k: nat)
    requires
        set_valid(x),
        encode_set(x).len() <= usize::MAX,
        k <= x.elements.len(),
    ensures
        0 <= element_offset(x.elements, k) <= encode_set(x).len(),
        encode_set(x).subrange(element_offset(x.elements, k), encode_set(x).len() as int)
            == encode_elements(x.elements.subrange(k as int, x.elements.len() as int)),
    decreases k,
{
    let d = encode_set(x);
    lemma_encoded_header(x);
    if k > 0 {
        lemma_suffix_at(x, (k - 1) as nat);
        lemma_encoded_at(d, x.elements, (k - 1) as nat, element_offset(x.elements, (k - 1) as nat));
    }
}

/// Walking the encoding of a valid set with the cursor, `next` by `next`:
/// while `k` elements have been exposed (the last at its own offset), the
/// following `next` exposes element `k` of the set, which passes its checks
/// and reads back field by field as itself; once all are exposed, `next`
/// returns `false`.
pub proof fn lemma_cursor_walks_encoding(x: AttestationSetView, c: AttestationCursor)
    requires
        set_valid(x),
        encode_set(x).len() <= usize::MAX,
        cursor_wf(c),
        c.data == encode_set(x),
        c.index > 0 ==> c.offset == element_offset(x.elements, (c.index - 1) as nat),
    ensures
        c.num_elements == x.elements.len(),
        c.index < c.num_elements ==> {
            &&& next_offset(c) == element_offset(x.elements, c.index)
            &&& check_element(c.data, next_offset(c), c.index + 1 == c.num_elements) is Ok
            &&& element_at(c.data, next_offset(c)) == x.elements[c.index as int]
        },
{
    let d = encode_set(x);
    let es = x.elements;
    lemma_encoded_header(x);
    if c.index < c.num_elements {
        if c.index > 0 {
            let k = (c.index - 1) as nat;
            lemma_suffix_at(x, k);
            lemma_encoded_at(d, es, k, element_offset(es, k));
        }
        lemma_suffix_at(x, c.index);
        lemma_encoded_at(d, es, c.index, element_offset(es, c.index));
    }
}

/// Two buffers that agree on an element's bytes read the same element there.
proof fn lemma_element_same_bytes(d: Seq<u8>, e: Seq<u8>, o: int)
    requires
        0 <= o,
        o + ELEMENT_HEADER_SIZE <= d.len(),
        o + ELEMENT_HEADER_SIZE + hook_len_at(d, o) <= d.len(),
        o + ELEMENT_HEADER_SIZE + hook_len_at(d, o) <= e.len(),
        forall|j: int|
            o <= j < o + ELEMENT_HEADER_SIZE + hook_len_at(d, o) ==> #[trigger] e[j] == d[j],
    ensures
        hook_len_at(e, o) == hook_len_at(d, o),
        element_at(e, o) == element_at(d, o),
{
    assert(e.subrange(o + 104, o + 108) =~= d.subrange(o + 104, o + 108));
    let end = o + ELEMENT_HEADER_SIZE + hook_len_at(d, o);
    assert(e.subrange(o, o + 32) =~= d.subrange(o, o + 32));
    assert(e.subrange(o + 32, o + 64) =~= d.subrange(o + 32, o + 64));
    assert(e.subrange(o + 64, o + 72) =~= d.subrange(o + 64, o + 72));
    assert(e.subrange(o + 72, o + 104) =~= d.subrange(o + 72, o + 104));
    assert(e.subrange(o + 108, end) =~= d.subrange(o + 108, end));
}

/// Walking, `next` by `next`, a valid set's encoding followed by extra
/// bytes: every element but the last is exposed as itself, and the call
/// that reaches the last element fails as too long.
pub proof fn lemma_cursor_walks_extended(x: AttestationSetView, extra: Seq<u8>, c: AttestationCursor)
    requires
        set_valid(x),
        extra.len() > 0,
        cursor_wf(c),
        c.data == encode_set(x) + extra,
        c.index > 0 ==> c.offset == element_offset(x.elements, (c.index - 1) as nat),
    ensures
        c.num_elements == x.elements.len(),
        c.index + 1 < c.num_elements ==> {
            &&& next_offset(c) == element_offset(x.elements, c.index)
            &&& check_element(c.data, next_offset(c), false) is Ok
            &&& element_at(c.data, next_offset(c)) == x.elements[c.index as int]
        },
        c.index + 1 == c.num_elements ==> check_element(c.data, next_offset(c), true) == Err::<
            nat,
            GatewayMinterError,
        >(GatewayMinterError::AttestationTooLong),
{
    let d = encode_set(x);
    let big = c.data;
    let es = x.elements;
    lemma_encoded_header(x);
    assert(big.subrange(0, 4) =~= d.subrange(0, 4));
    assert(big.subrange(84, 88) =~= d.subrange(84, 88));
    assert(d.len() <= usize::MAX);
    if c.index < es.len() {
        if c.index > 0 {
            let k = (c.index - 1) as nat;
            lemma_suffix_at(x, k);
            lemma_encoded_at(d, es, k, element_offset(es, k));
            lemma_element_same_bytes(d, big, element_offset(es, k));
        }
        lemma_suffix_at(x, c.index);
        let o = element_offset(es, c.index);
        lemma_encoded_at(d, es, c.index, o);
        lemma_element_same_bytes(d, big, o);
    }
}

/// Walking, `next` by `next`, a valid set's encoding cut short at `t`:
/// every element that lies wholly before the cut is exposed as itself, and
/// the call that reaches the element holding the cut fails as too short.
pub proof fn lemma_cursor_walks_truncated(x: AttestationSetView, t: int, c: AttestationCursor)
    requires
        set_valid(x),
        encode_set(x).len() <= usize::MAX,
        0 <= t < encode_set(x).len(),
        cursor_wf(c),
        c.data == encode_set(x).subrange(0, t),
        c.index > 0 ==> c.offset == element_offset(x.elements, (c.index - 1) as nat),
    ensures
        c.num_elements == x.elements.len(),
        c.index < c.num_elements ==> {
            let o = element_offset(x.elements, c.index);
            let end = o + ELEMENT_HEADER_SIZE + x.elements[c.index as int].hook_data.len();
            &&& next_offset(c) == o
            &&& end <= t ==> check_element(c.data, o, c.index + 1 == c.num_elements) is Ok
                && element_at(c.data, o) == x.elements[c.index as int]
            &&& o <= t < end ==> check_element(c.data, o, c.index + 1 == c.num_elements) == Err::<
                nat,
                GatewayMinterError,
            >(GatewayMinterError::AttestationTooShort)
        },
{
    let d = encode_set(x);
    let small = c.data;
    let es = x.elements;
    lemma_encoded_header(x);
    assert(small.subrange(0, 4) =~= d.subrange(0, 4));
    assert(small.subrange(84, 88) =~= d.subrange(84, 88));
    if c.index < es.len() {
        if c.index > 0 {
            let k = (c.index - 1) as nat;
            lemma_suffix_at(x, k);
            lemma_encoded_at(d, es, k, element_offset(es, k));
            let p = element_offset(es, k);
            assert(small.subrange(p + 104, p + 108) =~= d.subrange(p + 104, p + 108));
            lemma_element_same_bytes(d, small, p);
        }
        lemma_suffix_at(x, c.index);
        let o = element_offset(es, c.index);
        lemma_encoded_at(d, es, c.index, o);
        let end = o + ELEMENT_HEADER_SIZE + es[c.index as int].hook_data.len();
        if end <= t {
            lemma_element_same_bytes(d, small, o);
            if c.index + 1 == es.len() {
                lemma_encode_element_len(es[c.index as int]);
                assert(es.subrange(c.index + 1 as int, es.len() as int).len() == 0);
            }
        } else if o <= t && t - o >= ELEMENT_HEADER_SIZE {
            assert(small.subrange(o + 104, o + 108) =~= d.subrange(o + 104, o + 108));
        }
    }
}

} // verus!
