//! CRC-8 (polynomial 0x39, initial value 0, no final XOR) over HID reports.

use vstd::prelude::*;

verus! {

/// The CRC register after one shift of the bitwise CRC-8 division with polynomial 0x39.
pub open spec fn crc8_shift(c: u8) -> u8 {
    if c & 0x80u8 != 0 {
        ((c << 1u8) ^ 0x39u8) as u8
    } else {
        (c << 1u8) as u8
    }
}

/// The CRC register after `k` shifts.
pub open spec fn crc8_shifts(c: u8, k: nat) -> u8
    decreases k,
{
    if k == 0 {
        c
    } else {
        crc8_shifts(crc8_shift(c), (k - 1) as nat)
    }
}

/// The CRC register after feeding one byte into register `crc`.
pub open spec fn crc8_byte(crc: u8, b: u8) -> u8 {
    crc8_shifts(crc ^ b, 8)
}

/// CRC-8 of a byte sequence, starting from register 0 with no final XOR.
pub open spec fn crc8(s: Seq<u8>) -> u8
    decreases s.len(),
{
    if s.len() == 0 {
        0
    } else {
        crc8_byte(crc8(s.drop_last()), s.last())
    }
}

fn shift_once(c: u8) -> (r: u8)
    ensures
        r == crc8_shift(c),
{
    if c & 0x80 != 0 {
        (c << 1u8) ^ 0x39
    } else {
        c << 1u8
    }
}

/// Computes the checksum of a HID report: the CRC-8 of its first 63 bytes.
/// The bootloader expects this value in byte 63.
pub fn calculate_checksum(data: &[u8]) -> (crc: u8)
    requires
        data@.len() >= 63,
    ensures
        crc == crc8(data@.subrange(0, 63)),
{
    let mut crc: u8 = 0;
    let mut i: usize = 0;
    while i < 63
        invariant
            i <= 63,
            data@.len() >= 63,
            crc == crc8(data@.subrange(0, i as int)),
        decreases 63 - i,
    {
        let ghost prefix = data@.subrange(0, i as int);
        assert(data@.subrange(0, i + 1).drop_last() =~= prefix);
        let mut c: u8 = crc ^ data[i];
        let mut k: u8 = 0;
        while k < 8
            invariant
                k <= 8,
                crc8_shifts(c, (8 - k) as nat) == crc8_byte(crc8(prefix), data@[i as int]),
            decreases 8 - k,
        {
            c = shift_once(c);
            k = k + 1;
        }
        crc = c;
        i = i + 1;
    }
    crc
}

proof fn lemma_shifts_of_zero(k: nat)
    ensures
        crc8_shifts(0, k) == 0,
    decreases k,
{
    if k > 0 {
        let z: u8 = 0;
        assert((if z & 0x80u8 != 0 { ((z << 1u8) ^ 0x39u8) as u8 } else { (z << 1u8) as u8 }) == 0u8) by (bit_vector)
            requires
                z == 0u8,
        ;
        lemma_shifts_of_zero((k - 1) as nat);
    }
}

/// Appending the CRC-8 of a message to the message gives a sequence whose
/// CRC-8 is zero: a receiver can check a whole report in one pass.
pub proof fn law_crc8_residue_zero(s: Seq<u8>)
    ensures
        crc8(s.push(crc8(s))) == 0,
{
    assert(s.push(crc8(s)).drop_last() =~= s);
    let c = crc8(s);
    assert(c ^ c == 0u8) by (bit_vector);
    lemma_shifts_of_zero(8);
}

} // verus!
