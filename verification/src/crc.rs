//! CRC-32 over the standard IEEE polynomial (reflected form, constant
//! `0xEDB88320`), defined bit by bit as a specification and computed by a
//! verified loop.

use vstd::prelude::*;

verus! {

/// One bit step of the reflected CRC-32: shift right, xor the polynomial in
/// when the low bit was set.
pub open spec fn crc_step_bit(c: u32) -> u32 {
    if c & 1 == 1 {
        (c >> 1u32) ^ 0xEDB88320u32
    } else {
        c >> 1u32
    }
}

/// `n` bit steps applied to `c`.
pub open spec fn crc_bits(c: u32, n: nat) -> u32
    decreases n,
{
    if n == 0 {
        c
    } else {
        crc_step_bit(crc_bits(c, (n - 1) as nat))
    }
}

/// Folding one byte into the running register: xor it in, then 8 bit steps.
pub open spec fn crc_step_byte(c: u32, b: u8) -> u32 {
    crc_bits(c ^ (b as u32), 8)
}

/// Folding a whole byte sequence into the running register.
pub open spec fn crc_fold(c: u32, s: Seq<u8>) -> u32
    decreases s.len(),
{
    if s.len() == 0 {
        c
    } else {
        crc_fold(crc_step_byte(c, s[0]), s.drop_first())
    }
}

/// The CRC-32 of a byte sequence: fold from the all-ones register, then
/// complement.
pub open spec fn spec_crc32(s: Seq<u8>) -> u32 {
    crc_fold(0xFFFFFFFFu32, s) ^ 0xFFFFFFFFu32
}

/// Folding distributes over concatenation.
pub proof fn lemma_crc_fold_append(c: u32, a: Seq<u8>, b: Seq<u8>)
    ensures
        crc_fold(c, a + b) == crc_fold(crc_fold(c, a), b),
    decreases a.len(),
{
    if a.len() == 0 {
        assert(a + b =~= b);
    } else {
        assert((a + b).drop_first() =~= a.drop_first() + b);
        lemma_crc_fold_append(crc_step_byte(c, a[0]), a.drop_first(), b);
    }
}

/// Folding one more byte at the end.
pub proof fn lemma_crc_fold_push(c: u32, s: Seq<u8>, b: u8)
    ensures
        crc_fold(c, s.push(b)) == crc_step_byte(crc_fold(c, s), b),
    decreases s.len(),
{
    assert(crc_fold(c, s.push(b)) == crc_fold(crc_step_byte(c, s.push(b)[0]), s.push(b).drop_first()));
    if s.len() == 0 {
        assert(s.push(b)[0] == b);
        assert(s.push(b).drop_first() =~= Seq::<u8>::empty());
        assert(crc_fold(crc_step_byte(c, b), Seq::<u8>::empty()) == crc_step_byte(c, b));
    } else {
        assert(s.push(b)[0] == s[0]);
        assert(s.push(b).drop_first() =~= s.drop_first().push(b));
        lemma_crc_fold_push(crc_step_byte(c, s[0]), s.drop_first(), b);
        assert(crc_fold(c, s) == crc_fold(crc_step_byte(c, s[0]), s.drop_first()));
    }
}

/// One bit step is a bijection on the register: the polynomial's top bit
/// is set, so the step loses no information.
pub proof fn lemma_crc_step_bit_injective(c1: u32, c2: u32)
    requires
        crc_step_bit(c1) == crc_step_bit(c2),
    ensures
        c1 == c2,
{
    assert(c1 == c2) by (bit_vector)
        requires
            (if c1 & 1 == 1 {
                (c1 >> 1u32) ^ 0xEDB88320u32
            } else {
                c1 >> 1u32
            }) == (if c2 & 1 == 1 {
                (c2 >> 1u32) ^ 0xEDB88320u32
            } else {
                c2 >> 1u32
            }),
    ;
}

/// Any number of bit steps is a bijection on the register.
pub proof fn lemma_crc_bits_injective(c1: u32, c2: u32, n: nat)
    requires
        crc_bits(c1, n) == crc_bits(c2, n),
    ensures
        c1 == c2,
    decreases n,
{
    if n != 0 {
        lemma_crc_step_bit_injective(crc_bits(c1, (n - 1) as nat), crc_bits(c2, (n - 1) as nat));
        lemma_crc_bits_injective(c1, c2, (n - 1) as nat);
    }
}

/// The byte step separates inputs whose xor-ed registers differ.
pub proof fn lemma_crc_step_byte_diff(c1: u32, b1: u8, c2: u32, b2: u8)
    requires
        c1 ^ (b1 as u32) != c2 ^ (b2 as u32),
    ensures
        crc_step_byte(c1, b1) != crc_step_byte(c2, b2),
{
    if crc_step_byte(c1, b1) == crc_step_byte(c2, b2) {
        lemma_crc_bits_injective(c1 ^ (b1 as u32), c2 ^ (b2 as u32), 8);
    }
}

/// Folding the same bytes into different registers keeps them different.
pub proof fn lemma_crc_fold_diff_reg(c1: u32, c2: u32, s: Seq<u8>)
    requires
        c1 != c2,
    ensures
        crc_fold(c1, s) != crc_fold(c2, s),
    decreases s.len(),
{
    if s.len() != 0 {
        let x = s[0] as u32;
        assert(c1 ^ x != c2 ^ x) by (bit_vector)
            requires
                c1 != c2,
        ;
        lemma_crc_step_byte_diff(c1, s[0], c2, s[0]);
        lemma_crc_fold_diff_reg(crc_step_byte(c1, s[0]), crc_step_byte(c2, s[0]), s.drop_first());
    }
}

/// Two equal-length byte sequences that differ in exactly one position
/// fold to different registers: the discipline behind error detection.
pub proof fn lemma_crc_fold_one_diff(c: u32, s1: Seq<u8>, s2: Seq<u8>, p: int)
    requires
        s1.len() == s2.len(),
        0 <= p < s1.len(),
        s1[p] != s2[p],
        forall|j: int| 0 <= j < s1.len() && j != p ==> s1[j] == s2[j],
    ensures
        crc_fold(c, s1) != crc_fold(c, s2),
    decreases s1.len(),
{
    if p == 0 {
        let b1 = s1[0];
        let b2 = s2[0];
        assert(c ^ (b1 as u32) != c ^ (b2 as u32)) by (bit_vector)
            requires
                b1 != b2,
        ;
        lemma_crc_step_byte_diff(c, s1[0], c, s2[0]);
        assert(s1.drop_first() =~= s2.drop_first());
        lemma_crc_fold_diff_reg(crc_step_byte(c, s1[0]), crc_step_byte(c, s2[0]), s1.drop_first());
    } else {
        assert(s1[0] == s2[0]);
        assert(forall|j: int|
            0 <= j < s1.drop_first().len() && j != p - 1 ==> #[trigger] s1.drop_first()[j]
                == s2.drop_first()[j]);
        assert(s1.drop_first()[p - 1] != s2.drop_first()[p - 1]);
        lemma_crc_fold_one_diff(crc_step_byte(c, s1[0]), s1.drop_first(), s2.drop_first(), p - 1);
    }
}

/// The CRC-32 of two sequences differing in exactly one position differs.
pub proof fn lemma_crc32_one_diff(s1: Seq<u8>, s2: Seq<u8>, p: int)
    requires
        s1.len() == s2.len(),
        0 <= p < s1.len(),
        s1[p] != s2[p],
        forall|j: int| 0 <= j < s1.len() && j != p ==> s1[j] == s2[j],
    ensures
        spec_crc32(s1) != spec_crc32(s2),
{
    lemma_crc_fold_one_diff(0xFFFFFFFFu32, s1, s2, p);
    let a = crc_fold(0xFFFFFFFFu32, s1);
    let b = crc_fold(0xFFFFFFFFu32, s2);
    assert(a ^ 0xFFFFFFFFu32 != b ^ 0xFFFFFFFFu32) by (bit_vector)
        requires
            a != b,
    ;
}

/// Folds every byte of `bytes` into the register `c`.
pub fn crc_update(c: u32, bytes: &[u8]) -> (r: u32)
    ensures
        r == crc_fold(c, bytes@),
{
    let mut cur: u32 = c;
    let mut i: usize = 0;
    while i < bytes.len()
        invariant
            i <= bytes@.len(),
            cur == crc_fold(c, bytes@.take(i as int)),
        decreases bytes@.len() - i,
    {
        let b = bytes[i];
        let start: u32 = cur ^ (b as u32);
        let mut acc: u32 = start;
        let mut k: usize = 0;
        while k < 8
            invariant
                k <= 8,
                acc == crc_bits(start, k as nat),
            decreases 8 - k,
        {
            acc = if acc & 1 == 1 {
                (acc >> 1u32) ^ 0xEDB88320u32
            } else {
                acc >> 1u32
            };
            k += 1;
        }
        proof {
            assert(acc == crc_step_byte(cur, b));
            lemma_crc_fold_push(c, bytes@.take(i as int), b);
            assert(bytes@.take(i as int).push(b) =~= bytes@.take(i as int + 1));
        }
        cur = acc;
        i += 1;
    }
    proof {
        assert(bytes@.take(bytes@.len() as int) =~= bytes@);
    }
    cur
}

/// The CRC-32 of `first ++ second`, as a chunk needs it over type and data.
pub fn crc32_pair(first: &[u8], second: &[u8]) -> (r: u32)
    ensures
        r == spec_crc32(first@ + second@),
{
    let c1 = crc_update(0xFFFFFFFFu32, first);
    let c2 = crc_update(c1, second);
    proof {
        lemma_crc_fold_append(0xFFFFFFFFu32, first@, second@);
    }
    c2 ^ 0xFFFFFFFFu32
}

} // verus!
