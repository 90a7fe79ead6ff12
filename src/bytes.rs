//! Little-endian integers as they are laid out in the memory of the target.
use vstd::prelude::*;

verus! {

/// The unsigned value of `b`, read least significant byte first.
pub open spec fn le_value(b: Seq<u8>) -> nat
    decreases b.len(),
{
    if b.len() == 0 {
        0
    } else {
        b[0] as nat + 256 * le_value(b.subrange(1, b.len() as int))
    }
}

/// The value of a four-byte two's-complement integer, least significant byte first.
pub open spec fn le_i32_value(b: Seq<u8>) -> int {
    if le_value(b) < 0x8000_0000 {
        le_value(b) as int
    } else {
        le_value(b) as int - 0x1_0000_0000
    }
}

pub proof fn lemma_le_value_bound(b: Seq<u8>)
    ensures
        le_value(b) < pow256(b.len()),
    decreases b.len(),
{
    if b.len() > 0 {
        lemma_le_value_bound(b.subrange(1, b.len() as int));
    }
}

/// `256` raised to `n`.
pub open spec fn pow256(n: nat) -> nat
    decreases n,
{
    if n == 0 {
        1
    } else {
        256 * pow256((n - 1) as nat)
    }
}

/// Reads an unsigned little-endian integer from the first `n` bytes of `b`.
pub fn read_le(b: &[u8], n: usize) -> (r: u64)
    requires
        n <= 8,
        n <= b@.len(),
    ensures
        r as nat == le_value(b@.subrange(0, n as int)),
{
    let mut acc: u64 = 0;
    let mut i: usize = n;
    proof {
        lemma_le_value_bound(b@.subrange(0, n as int));
    }
    while i > 0
        invariant
            i <= n,
            n <= 8,
            n <= b@.len(),
            acc as nat == le_value(b@.subrange(i as int, n as int)),
            acc < pow256((n - i) as nat),
        decreases i,
    {
        i = i - 1;
        proof {
            let s = b@.subrange(i as int, n as int);
            assert(s.subrange(1, s.len() as int) =~= b@.subrange(i + 1, n as int));
            assert(pow256((n - i) as nat) == 256 * pow256((n - i - 1) as nat));
            assert(pow256((n - i) as nat) <= pow256(8)) by {
                lemma_pow256_mono((n - i) as nat, 8);
            }
            lemma_pow256_8();
            assert(acc * 256 + b@[i as int] < 256 * pow256((n - i - 1) as nat)) by (nonlinear_arith)
                requires
                    acc < pow256((n - i - 1) as nat),
                    b@[i as int] < 256,
            ;
        }
        acc = acc * 256 + b[i] as u64;
    }
    acc
}

/// The powers that bound the integers of four and of eight bytes.
pub proof fn lemma_pow256_4_8()
    ensures
        pow256(4) == 0x1_0000_0000,
        pow256(8) == 0x1_0000_0000_0000_0000,
{
    reveal_with_fuel(pow256, 9);
}

proof fn lemma_pow256_8()
    ensures
        pow256(8) == 0x1_0000_0000_0000_0000,
{
    reveal_with_fuel(pow256, 9);
}

proof fn lemma_pow256_mono(a: nat, b: nat)
    requires
        a <= b,
    ensures
        pow256(a) <= pow256(b),
    decreases b,
{
    if a < b {
        lemma_pow256_mono(a, (b - 1) as nat);
    }
}

} // verus!

verus! {

/// Reads the four-byte two's-complement integer that starts at `at`.
pub fn read_i32_le(b: &[u8], at: usize) -> (r: i32)
    requires
        at + 4 <= b@.len(),
    ensures
        r as int == le_i32_value(b@.subrange(at as int, at + 4)),
{
    let mut four: Vec<u8> = Vec::new();
    let n = b.len();
    let mut j: usize = at;
    while j < at + 4
        invariant
            at <= j <= at + 4,
            at + 4 <= b@.len(),
            n == b@.len(),
            four@ =~= b@.subrange(at as int, j as int),
        decreases at + 4 - j,
    {
        four.push(b[j]);
        j = j + 1;
    }
    let u = read_le(four.as_slice(), 4);
    proof {
        assert(four@.subrange(0, 4) =~= four@);
        lemma_le_value_bound(four@);
        lemma_pow256_4_8();
    }
    if u < 0x8000_0000 {
        u as i32
    } else {
        (u as i64 - 0x1_0000_0000i64) as i32
    }
}

} // verus!

verus! {

/// A four-byte two's-complement value lies in the range of `i32`.
pub proof fn lemma_i32_range(b: Seq<u8>)
    requires
        b.len() == 4,
    ensures
        i32::MIN <= le_i32_value(b) <= i32::MAX,
{
    lemma_le_value_bound(b);
    lemma_pow256_4_8();
}

} // verus!
