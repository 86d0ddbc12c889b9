//! Big-endian integers over byte sequences, and 32-byte keys.

use vstd::prelude::*;

verus! {

/// The width in bytes of a key (an account address or an identity).
pub const KEY_SIZE: usize = 32;

/// A 32-byte key: an account address, a token, or an EVM identity padded
/// on the left with zero bytes.
pub type Key = [u8; 32];

/// `256` raised to `k`.
pub open spec fn pow256(k: nat) -> nat
    decreases k,
{
    if k == 0 {
        1
    } else {
        256 * pow256((k - 1) as nat)
    }
}

/// The unsigned number that `s` spells in big-endian order.
pub open spec fn be_nat(s: Seq<u8>) -> nat
    decreases s.len(),
{
    if s.len() == 0 {
        0
    } else {
        be_nat(s.drop_last()) * 256 + s.last() as nat
    }
}

/// The `k` big-endian bytes of `v`, keeping its low `k` bytes.
pub open spec fn nat_to_be(v: nat, k: nat) -> Seq<u8>
    decreases k,
{
    if k == 0 {
        Seq::empty()
    } else {
        nat_to_be(v / 256, (k - 1) as nat).push((v % 256) as u8)
    }
}

/// The big-endian number held by `d[start .. start + k]`.
pub open spec fn be_at(d: Seq<u8>, start: int, k: int) -> nat {
    be_nat(d.subrange(start, start + k))
}

/// Whether every byte of `s` is zero.
pub open spec fn all_zero(s: Seq<u8>) -> bool {
    forall|i: int| 0 <= i < s.len() ==> s[i] == 0u8
}

pub proof fn lemma_pow256_positive(k: nat)
    ensures
        pow256(k) >= 1,
    decreases k,
{
    if k > 0 {
        lemma_pow256_positive((k - 1) as nat);
    }
}

pub proof fn lemma_pow256_values()
    ensures
        pow256(1) == 0x100,
        pow256(2) == 0x1_0000,
        pow256(4) == 0x1_0000_0000,
        pow256(8) == 0x1_0000_0000_0000_0000,
{
    reveal_with_fuel(pow256, 9);
}

/// A big-endian number of `k` bytes is below `256^k`.
pub proof fn lemma_be_nat_bound(s: Seq<u8>)
    ensures
        be_nat(s) < pow256(s.len()),
    decreases s.len(),
{
    if s.len() > 0 {
        lemma_be_nat_bound(s.drop_last());
        let p = pow256((s.len() - 1) as nat);
        assert(be_nat(s.drop_last()) + 1 <= p);
        assert((be_nat(s.drop_last()) + 1) * 256 <= p * 256) by (nonlinear_arith)
            requires
                be_nat(s.drop_last()) + 1 <= p,
        ;
    }
}

/// Appending a byte shifts the number up by one byte.
pub proof fn lemma_be_nat_push(s: Seq<u8>, b: u8)
    ensures
        be_nat(s.push(b)) == be_nat(s) * 256 + b as nat,
{
    assert(s.push(b).drop_last() =~= s);
}

/// Reading back the bytes of a number that fits gives the number.
pub proof fn lemma_be_nat_of_nat_to_be(v: nat, k: nat)
    requires
        v < pow256(k),
    ensures
        nat_to_be(v, k).len() == k,
        be_nat(nat_to_be(v, k)) == v,
    decreases k,
{
    if k > 0 {
        let q = v / 256;
        assert(q < pow256((k - 1) as nat)) by {
            assert(pow256(k) == 256 * pow256((k - 1) as nat));
        }
        lemma_be_nat_of_nat_to_be(q, (k - 1) as nat);
        lemma_be_nat_push(nat_to_be(q, (k - 1) as nat), (v % 256) as u8);
        assert(q * 256 + v % 256 == v);
    }
}

/// Reads the big-endian number held by `data[start .. start + k]`.
pub fn read_be(data: &[u8], start: usize, k: usize) -> (r: u64)
    requires
        k <= 8,
        start + k <= data@.len(),
    ensures
        r as nat == be_at(data@, start as int, k as int),
{
    let _n: usize = data.len();
    let end: usize = start + k;
    let mut acc: u64 = 0;
    let mut j: usize = start;
    proof {
        assert(data@.subrange(start as int, start as int) =~= Seq::<u8>::empty());
        lemma_pow256_values();
    }
    while j < end
        invariant
            k <= 8,
            end == start + k,
            start <= j <= start + k,
            start + k <= data@.len(),
            acc as nat == be_nat(data@.subrange(start as int, j as int)),
            pow256(8) == 0x1_0000_0000_0000_0000,
        decreases end - j,
    {
        proof {
            let s = data@.subrange(start as int, j as int);
            lemma_be_nat_bound(s);
            assert(data@.subrange(start as int, j + 1) =~= s.push(data@[j as int]));
            lemma_be_nat_push(s, data@[j as int]);
            lemma_pow_mono((j - start) as nat, 7);
        }
        acc = acc * 256 + data[j] as u64;
        j = j + 1;
    }
    acc
}

/// `256^a <= 256^b` when `a <= b`.
pub proof fn lemma_pow_mono(a: nat, b: nat)
    requires
        a <= b,
    ensures
        pow256(a) <= pow256(b),
    decreases b,
{
    if a < b {
        lemma_pow_mono(a, (b - 1) as nat);
        lemma_pow256_positive((b - 1) as nat);
    }
}

/// Reads the big-endian `u32` at `data[start .. start + 4]`.
pub fn read_u32_be(data: &[u8], start: usize) -> (r: u32)
    requires
        start + 4 <= data@.len(),
    ensures
        r as nat == be_at(data@, start as int, 4),
{
    proof {
        lemma_be_nat_bound(data@.subrange(start as int, start + 4));
        lemma_pow256_values();
    }
    read_be(data, start, 4) as u32
}

/// Reads the big-endian `u64` at `data[start .. start + 8]`.
pub fn read_u64_be(data: &[u8], start: usize) -> (r: u64)
    requires
        start + 8 <= data@.len(),
    ensures
        r as nat == be_at(data@, start as int, 8),
{
    read_be(data, start, 8)
}

/// Copies the 32 bytes at `data[start .. start + 32]`.
pub fn read_key(data: &[u8], start: usize) -> (r: Key)
    requires
        start + 32 <= data@.len(),
    ensures
        r@ == data@.subrange(start as int, start + 32),
{
    let _n: usize = data.len();
    let mut out: [u8; 32] = [0u8; 32];
    let mut i: usize = 0;
    while i < 32
        invariant
            0 <= i <= 32,
            start + 32 <= data@.len(),
            data@.len() == _n,
            forall|j: int| 0 <= j < i ==> out@[j] == data@[start + j],
        decreases 32 - i,
    {
        out[i] = data[start + i];
        i = i + 1;
    }
    assert(out@ =~= data@.subrange(start as int, start + 32));
    out
}

/// Whether two keys hold the same bytes.
pub fn keys_equal(a: &Key, b: &Key) -> (r: bool)
    ensures
        r == (a@ == b@),
        r == (*a == *b),
{
    let mut i: usize = 0;
    while i < 32
        invariant
            0 <= i <= 32,
            forall|j: int| 0 <= j < i ==> a@[j] == b@[j],
        decreases 32 - i,
    {
        if a[i] != b[i] {
            return false;
        }
        i = i + 1;
    }
    assert(a@ =~= b@);
    assert(*a =~= *b);
    true
}

/// The position of the first occurrence of `k` in `keys`.
pub fn position_of(keys: &Vec<Key>, k: &Key) -> (r: Option<usize>)
    ensures
        match r {
            Some(i) => i < keys@.len() && keys@[i as int] == *k && forall|j: int|
                0 <= j < i ==> keys@[j] != *k,
            None => !keys@.contains(*k),
        },
{
    let mut i: usize = 0;
    while i < keys.len()
        invariant
            i <= keys@.len(),
            forall|j: int| 0 <= j < i ==> keys@[j] != *k,
        decreases keys@.len() - i,
    {
        if keys_equal(&keys[i], k) {
            return Some(i);
        }
        i = i + 1;
    }
    None
}

/// Whether `k` occurs in `keys`.
pub fn contains_key(keys: &Vec<Key>, k: &Key) -> (r: bool)
    ensures
        r == keys@.contains(*k),
{
    match position_of(keys, k) {
        Some(i) => {
            assert(keys@[i as int] == *k);
            true
        },
        None => false,
    }
}

/// Whether a key is the all-zero key.
pub fn is_zero_key(k: &Key) -> (r: bool)
    ensures
        r == all_zero(k@),
{
    let r = range_is_zero(k, 0, 32);
    assert(k@.subrange(0, 32) =~= k@);
    r
}

/// Whether every byte of `data[start .. end]` is zero.
pub fn range_is_zero(data: &[u8], start: usize, end: usize) -> (r: bool)
    requires
        start <= end <= data@.len(),
    ensures
        r == all_zero(data@.subrange(start as int, end as int)),
{
    let mut i: usize = start;
    while i < end
        invariant
            start <= i <= end <= data@.len(),
            forall|j: int| start <= j < i ==> data@[j] == 0u8,
        decreases end - i,
    {
        if data[i] != 0 {
            assert(data@.subrange(start as int, end as int)[i - start] != 0u8);
            return false;
        }
        i = i + 1;
    }
    true
}

/// The all-zero key, which stands for "no address".
pub fn zero_key() -> (r: Key)
    ensures
        all_zero(r@),
        r@.len() == 32,
{
    [0u8; 32]
}

/// Appends the `k` big-endian bytes of `v` to `buf`.
pub fn push_be(buf: &mut Vec<u8>, v: u64, k: usize)
    requires
        k <= 8,
    ensures
        final(buf)@ == old(buf)@ + nat_to_be(v as nat, k as nat),
{
    let mut tmp: Vec<u8> = Vec::new();
    let mut i: usize = 0;
    while i < k
        invariant
            i <= k,
            tmp@.len() == i,
        decreases k - i,
    {
        tmp.push(0u8);
        i = i + 1;
    }
    let mut x: u64 = v;
    let mut i: usize = 0;
    proof {
        assert(tmp@.subrange(k as int, k as int) =~= Seq::<u8>::empty());
        assert(nat_to_be(v as nat, k as nat) =~= nat_to_be(x as nat, k as nat) + tmp@.subrange(k as int, k as int));
    }
    while i < k
        invariant
            i <= k,
            tmp@.len() == k,
            nat_to_be(v as nat, k as nat) == nat_to_be(x as nat, (k - i) as nat) + tmp@.subrange(
                (k - i) as int,
                k as int,
            ),
        decreases k - i,
    {
        let pos: usize = k - 1 - i;
        let b: u8 = (x % 256) as u8;
        let ghost old_tail = tmp@.subrange((k - i) as int, k as int);
        tmp.set(pos, b);
        proof {
            assert(tmp@.subrange(pos as int, k as int) =~= seq![b] + old_tail);
            let rest = nat_to_be(x as nat / 256, (k - i - 1) as nat);
            assert(nat_to_be(x as nat, (k - i) as nat) == rest.push(b));
            assert(rest.push(b) + old_tail =~= rest + (seq![b] + old_tail));
        }
        x = x / 256;
        i = i + 1;
    }
    proof {
        assert(tmp@.subrange(0, k as int) =~= tmp@);
        assert(nat_to_be(v as nat, k as nat) =~= tmp@);
    }
    let mut j: usize = 0;
    let ghost start = buf@;
    while j < k
        invariant
            j <= k,
            tmp@.len() == k,
            buf@ == start + tmp@.subrange(0, j as int),
        decreases k - j,
    {
        buf.push(tmp[j]);
        proof {
            assert(tmp@.subrange(0, j + 1) =~= tmp@.subrange(0, j as int).push(tmp@[j as int]));
        }
        j = j + 1;
    }
    proof {
        assert(tmp@.subrange(0, k as int) =~= tmp@);
    }
}

/// Appends every byte of `src` to `buf`.
pub fn push_all(buf: &mut Vec<u8>, src: &[u8])
    ensures
        final(buf)@ == old(buf)@ + src@,
{
    let mut j: usize = 0;
    let ghost start = buf@;
    while j < src.len()
        invariant
            j <= src@.len(),
            buf@ == start + src@.subrange(0, j as int),
        decreases src@.len() - j,
    {
        buf.push(src[j]);
        proof {
            assert(src@.subrange(0, j + 1) =~= src@.subrange(0, j as int).push(src@[j as int]));
        }
        j = j + 1;
    }
    proof {
        assert(src@.subrange(0, src@.len() as int) =~= src@);
    }
}

} // verus!
