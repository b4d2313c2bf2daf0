//! The 32-bit checksum that closes a program-association section
//! (CRC-32/MPEG-2: polynomial 0x04C11DB7, initial value all-ones, no
//! reflection, no final xor).

use vstd::prelude::*;

verus! {

/// Generator polynomial of the checksum.
pub const CRC32_POLYNOMIAL: u32 = 0x04C1_1DB7;
/// Initial value of the accumulator.
pub const CRC32_INIT: u32 = 0xFFFF_FFFF;

/// One shift step: shift left, folding the polynomial in when the top bit
/// was set.
pub open spec fn crc32_shift(c: u32) -> u32 {
    if c & 0x8000_0000 != 0 {
        (c << 1) ^ CRC32_POLYNOMIAL
    } else {
        c << 1
    }
}

/// `n` shift steps in a row.
pub open spec fn crc32_shifts(c: u32, n: nat) -> u32
    decreases n,
{
    if n == 0 {
        c
    } else {
        crc32_shifts(crc32_shift(c), (n - 1) as nat)
    }
}

/// Folds one byte into the accumulator: xor into the top byte, then eight
/// shift steps.
pub open spec fn crc32_byte(c: u32, b: u8) -> u32 {
    crc32_shifts(c ^ ((b as u32) << 24), 8)
}

/// Folds a byte sequence into the accumulator, front to back.
pub open spec fn crc32_fold(c: u32, s: Seq<u8>) -> u32
    decreases s.len(),
{
    if s.len() == 0 {
        c
    } else {
        crc32_fold(crc32_byte(c, s[0]), s.skip(1))
    }
}

/// The checksum of a byte sequence.
pub open spec fn crc32_of(s: Seq<u8>) -> u32 {
    crc32_fold(CRC32_INIT, s)
}

proof fn lemma_crc32_shifts_snoc(c: u32, n: nat)
    ensures
        crc32_shifts(c, n + 1) == crc32_shift(crc32_shifts(c, n)),
    decreases n,
{
    reveal_with_fuel(crc32_shifts, 2);
    if n > 0 {
        lemma_crc32_shifts_snoc(crc32_shift(c), (n - 1) as nat);
    }
}

proof fn lemma_crc32_fold_push(c: u32, s: Seq<u8>, b: u8)
    ensures
        crc32_fold(c, s.push(b)) == crc32_byte(crc32_fold(c, s), b),
    decreases s.len(),
{
    reveal_with_fuel(crc32_fold, 2);
    if s.len() == 0 {
        assert(s.push(b).skip(1) =~= Seq::<u8>::empty());
    } else {
        assert(s.push(b).skip(1) =~= s.skip(1).push(b));
        lemma_crc32_fold_push(crc32_byte(c, s[0]), s.skip(1), b);
    }
}

/// Computes the checksum of `data[from..to]`.
pub fn crc32_range(data: &Vec<u8>, from: usize, to: usize) -> (r: u32)
    requires
        from <= to,
        to <= data@.len(),
    ensures
        r == crc32_of(data@.subrange(from as int, to as int)),
{
    let mut c: u32 = CRC32_INIT;
    let mut i: usize = from;
    assert(data@.subrange(from as int, from as int) =~= Seq::<u8>::empty());
    while i < to
        invariant
            from <= i <= to,
            to <= data@.len(),
            c == crc32_fold(CRC32_INIT, data@.subrange(from as int, i as int)),
        decreases to - i,
    {
        let b = data[i];
        let start: u32 = c ^ ((b as u32) << 24u32);
        let mut x: u32 = start;
        let mut j: usize = 0;
        while j < 8
            invariant
                j <= 8,
                x == crc32_shifts(start, j as nat),
            decreases 8 - j,
        {
            if x & 0x8000_0000u32 != 0 {
                x = (x << 1u32) ^ CRC32_POLYNOMIAL;
            } else {
                x = x << 1u32;
            }
            proof {
                lemma_crc32_shifts_snoc(start, j as nat);
            }
            j = j + 1;
        }
        proof {
            assert(x == crc32_byte(c, b));
            assert(data@.subrange(from as int, i + 1) =~= data@.subrange(
                from as int,
                i as int,
            ).push(data@[i as int]));
            lemma_crc32_fold_push(CRC32_INIT, data@.subrange(from as int, i as int), b);
        }
        c = x;
        i = i + 1;
    }
    c
}

} // verus!
