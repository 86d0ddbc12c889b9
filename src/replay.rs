//! Replay protection: an append-only set of used 32-byte content hashes,
//! and the rules for the ledger record that marks one hash as used.

use vstd::prelude::*;
use crate::bytes::{keys_equal, Key};

verus! {

/// Size of the tag that marks a stored record.
pub const DISCRIMINATOR_SIZE: usize = 2;

/// Space of a used-hash record: the tag alone.
pub const USED_TRANSFER_SPEC_HASH_ACCOUNT_SPACE: usize = DISCRIMINATOR_SIZE;

/// Whether a record's data starts with the given tag: it holds at least two
/// bytes and its first two bytes are exactly `discriminator` (so a tag of
/// another length never matches).
pub fn is_transfer_spec_hash_used(account_data: &[u8], discriminator: &[u8]) -> (r: bool)
    ensures
        r == (account_data@.len() >= DISCRIMINATOR_SIZE && account_data@.subrange(0, 2)
            == discriminator@),
{
    if account_data.len() < DISCRIMINATOR_SIZE || discriminator.len() != DISCRIMINATOR_SIZE {
        return false;
    }
    let r = account_data[0] == discriminator[0] && account_data[1] == discriminator[1];
    proof {
        if r {
            assert(account_data@.subrange(0, 2) =~= discriminator@);
        } else {
            if account_data@.subrange(0, 2) == discriminator@ {
                assert(account_data@.subrange(0, 2)[0] == account_data@[0]);
                assert(account_data@.subrange(0, 2)[1] == account_data@[1]);
            }
        }
    }
    r
}

/// Whether a hash has been seen before.
#[derive(Debug, Clone, Copy, PartialEq, Eq, Structural)]
pub enum ClaimResult {
    FirstUse,
    AlreadyUsed,
}

/// The outcome of claiming `h` in a registry holding `used`, and what the
/// registry holds afterwards.
pub open spec fn claim_spec(used: Set<Seq<u8>>, h: Seq<u8>) -> (ClaimResult, Set<Seq<u8>>) {
    if used.contains(h) {
        (ClaimResult::AlreadyUsed, used)
    } else {
        (ClaimResult::FirstUse, used.insert(h))
    }
}

/// What a registry holds after claiming each hash of `hs` in turn.
pub open spec fn claim_all(used: Set<Seq<u8>>, hs: Seq<Seq<u8>>) -> Set<Seq<u8>>
    decreases hs.len(),
{
    if hs.len() == 0 {
        used
    } else {
        claim_all(claim_spec(used, hs[0]).1, hs.skip(1))
    }
}

/// An append-only set of used content hashes. A hash, once claimed, stays
/// used forever.
pub struct ReplayRegistry {
    used: Vec<Key>,
}

impl View for ReplayRegistry {
    type V = Set<Seq<u8>>;

    closed spec fn view(&self) -> Set<Seq<u8>> {
        Set::new(|h: Seq<u8>| exists|i: int| 0 <= i < self.used@.len() && self.used@[i]@ == h)
    }
}

impl ReplayRegistry {
    /// An empty registry.
    pub fn new() -> (r: Self)
        ensures
            r@ == Set::<Seq<u8>>::empty(),
    {
        let r = ReplayRegistry { used: Vec::new() };
        assert(r@ =~= Set::<Seq<u8>>::empty());
        r
    }

    /// Whether `h` has been claimed.
    pub fn is_used(&self, h: &Key) -> (r: bool)
        ensures
            r == self@.contains(h@),
    {
        let mut i: usize = 0;
        while i < self.used.len()
            invariant
                i <= self.used@.len(),
                forall|j: int| 0 <= j < i ==> self.used@[j]@ != h@,
            decreases self.used@.len() - i,
        {
            if keys_equal(&self.used[i], h) {
                assert(self@.contains(h@));
                return true;
            }
            i = i + 1;
        }
        false
    }

    /// Marks `h` as used: `FirstUse` if it was not, `AlreadyUsed` (and no
    /// change) if it was.
    pub fn claim(&mut self, h: &Key) -> (r: ClaimResult)
        ensures
            (r, final(self)@) == claim_spec(old(self)@, h@),
    {
        if self.is_used(h) {
            return ClaimResult::AlreadyUsed;
        }
        let ghost before = self.used@;
        self.used.push(*h);
        proof {
            assert forall|x: Seq<u8>| self@.contains(x) <==> old(self)@.insert(h@).contains(x) by {
                if self@.contains(x) {
                    let i = choose|i: int| 0 <= i < self.used@.len() && self.used@[i]@ == x;
                    if i < before.len() {
                        assert(before[i] == self.used@[i]);
                    }
                }
                if old(self)@.contains(x) {
                    let i = choose|i: int| 0 <= i < before.len() && before[i]@ == x;
                    assert(self.used@[i] == before[i]);
                }
                if x == h@ {
                    assert(self.used@[before.len() as int] == *h);
                }
            }
            assert(self@ =~= old(self)@.insert(h@));
        }
        ClaimResult::FirstUse
    }

    /// A copy holding the same hashes.
    pub fn copy(&self) -> (r: Self)
        ensures
            r@ == self@,
    {
        let mut used: Vec<Key> = Vec::new();
        let mut i: usize = 0;
        while i < self.used.len()
            invariant
                i <= self.used@.len(),
                used@ == self.used@.subrange(0, i as int),
            decreases self.used@.len() - i,
        {
            used.push(self.used[i]);
            proof {
                assert(self.used@.subrange(0, i + 1) =~= self.used@.subrange(0, i as int).push(
                    self.used@[i as int],
                ));
            }
            i = i + 1;
        }
        assert(used@ =~= self.used@);
        ReplayRegistry { used }
    }
}

/// Claiming a hash succeeds exactly when it is new, and every later claim
/// of the same hash, whatever was claimed in between, finds it used.
pub proof fn lemma_claim_once(used: Set<Seq<u8>>, h: Seq<u8>, between: Seq<Seq<u8>>)
    ensures
        (claim_spec(used, h).0 == ClaimResult::FirstUse) == !used.contains(h),
        claim_spec(claim_all(claim_spec(used, h).1, between), h).0 == ClaimResult::AlreadyUsed,
        claim_spec(claim_all(claim_spec(used, h).1, between), h).1 == claim_all(
            claim_spec(used, h).1,
            between,
        ),
{
    lemma_claim_all_keeps(claim_spec(used, h).1, between, h);
}

/// Claims never remove a hash.
pub proof fn lemma_claim_all_keeps(used: Set<Seq<u8>>, hs: Seq<Seq<u8>>, h: Seq<u8>)
    requires
        used.contains(h),
    ensures
        claim_all(used, hs).contains(h),
    decreases hs.len(),
{
    if hs.len() > 0 {
        lemma_claim_all_keeps(claim_spec(used, hs[0]).1, hs.skip(1), h);
    }
}

/// What the ledger must do to turn the record of a new hash into a used
/// marker, given the record's current balance and the rent it needs.
#[derive(Debug, Clone, Copy, PartialEq, Eq, Structural)]
pub enum UsedHashAccountPlan {
    /// The record does not exist: create it funded with `lamports`.
    Create { lamports: u64 },
    /// The record holds a balance: add `top_up` (possibly zero), then
    /// allocate its space and assign it to the program.
    AllocateAndAssign { top_up: u64 },
}

/// Decides how the record of a new hash is brought into being.
pub fn used_hash_account_plan(current_lamports: u64, required_rent: u64) -> (r: UsedHashAccountPlan)
    ensures
        current_lamports == 0 ==> r == (UsedHashAccountPlan::Create { lamports: required_rent }),
        current_lamports > 0 && current_lamports < required_rent ==> r == (
        UsedHashAccountPlan::AllocateAndAssign { top_up: (required_rent - current_lamports) as u64 }),
        current_lamports > 0 && current_lamports >= required_rent ==> r == (
        UsedHashAccountPlan::AllocateAndAssign { top_up: 0 }),
{
    if current_lamports == 0 {
        UsedHashAccountPlan::Create { lamports: required_rent }
    } else if current_lamports < required_rent {
        UsedHashAccountPlan::AllocateAndAssign { top_up: required_rent - current_lamports }
    } else {
        UsedHashAccountPlan::AllocateAndAssign { top_up: 0 }
    }
}

} // verus!
