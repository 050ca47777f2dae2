//! The 64-byte HID reports of the bootloader protocol.
//!
//! Every report the host sends carries in byte 63 the CRC-8 of bytes 0..63.
//! Firmware travels in write reports of at most 58 bytes each: byte 0 holds the
//! command, byte 1 the number of firmware bytes in the report (0x3a = 58, or
//! fewer for the last one), bytes 2..5 the packet sequence number, and bytes
//! 5.. the firmware bytes, zero-padded.

use vstd::prelude::*;
use crate::checksum::{calculate_checksum, crc8, law_crc8_residue_zero};

verus! {

/// Size of every HID report, in bytes.
pub const REPORT_SIZE: usize = 64;

/// Firmware bytes carried by one write report.
pub const PAYLOAD_SIZE: usize = 58;

/// Query device information.
pub const CMD_DEVICE_INFO: u8 = 0x26;

/// Erase the flash memory.
pub const CMD_ERASE: u8 = 0x28;

/// Write one chunk of firmware.
pub const CMD_WRITE_DATA: u8 = 0x2b;

/// Finish flashing and prepare the reboot.
pub const CMD_FINALIZE: u8 = 0x31;

/// Poll the device status.
pub const CMD_STATUS_POLL: u8 = 0xaa;

/// Response code that acknowledges a device information request.
pub const RSP_DEVICE_INFO: u8 = 0x27;

/// Response code that acknowledges an erase.
pub const RSP_ERASE: u8 = 0x29;

/// Response code that acknowledges (echoes) a write report.
pub const RSP_WRITE_DATA: u8 = 0x2c;

/// A report of 64 zero bytes.
pub open spec fn blank_report() -> Seq<u8> {
    Seq::new(64, |i: int| 0u8)
}

/// The report `s` with its checksum byte set: byte 63 becomes the CRC-8 of bytes 0..63.
pub open spec fn sealed(s: Seq<u8>) -> Seq<u8> {
    s.update(63, crc8(s.subrange(0, 63)))
}

/// A sequence of 64 bytes whose last byte is the CRC-8 of the other 63.
pub open spec fn is_sealed_report(r: Seq<u8>) -> bool {
    r.len() == 64 && r[63] == crc8(r.subrange(0, 63))
}

/// Device information request: `26 00 45`, then zeros, then the checksum.
pub open spec fn spec_device_info_request() -> Seq<u8> {
    sealed(blank_report().update(0, CMD_DEVICE_INFO).update(2, 0x45u8))
}

/// Erase command: `28 06 00 00 00 6f 00 f0 f0 05`, then zeros, then the checksum.
pub open spec fn spec_erase_command() -> Seq<u8> {
    sealed(
        blank_report().update(0, CMD_ERASE).update(1, 0x06u8).update(5, 0x6fu8).update(
            7,
            0xf0u8,
        ).update(8, 0xf0u8).update(9, 0x05u8),
    )
}

/// Status poll with the given sub-command: `aa <sub>`, then zeros, then the checksum.
pub open spec fn spec_status_poll(sub: u8) -> Seq<u8> {
    sealed(blank_report().update(0, CMD_STATUS_POLL).update(1, sub))
}

/// Number of write reports needed for `len` firmware bytes: `len / 58` rounded up.
pub open spec fn spec_chunk_count(len: nat) -> nat {
    ((len + 57) / 58) as nat
}

/// Number of firmware bytes in chunk `i` of a firmware image of `len` bytes.
pub open spec fn spec_chunk_len(len: nat, i: int) -> int {
    if len - 58 * i < 58 {
        len - 58 * i
    } else {
        58
    }
}

/// Chunk `i` of the firmware: the bytes from `58 * i` on, at most 58 of them.
pub open spec fn spec_chunk(fw: Seq<u8>, i: int) -> Seq<u8> {
    fw.subrange(58 * i, 58 * i + spec_chunk_len(fw.len(), i))
}

/// Sequence number of chunk `i`: `i + 1`, as a 32-bit counter.
pub open spec fn spec_sequence(i: int) -> u32 {
    (i + 1) as u32
}

/// Write report for chunk `i`, before its checksum is set:
/// `2b <chunk length> <seq mod 50> <seq high byte> <seq low byte> <chunk bytes> <zeros>`.
pub open spec fn unsealed_write_report(fw: Seq<u8>, i: int) -> Seq<u8> {
    let seq = spec_sequence(i);
    let n = spec_chunk_len(fw.len(), i);
    Seq::new(
        64,
        |k: int|
            if k == 0 {
                CMD_WRITE_DATA
            } else if k == 1 {
                n as u8
            } else if k == 2 {
                (seq % 50) as u8
            } else if k == 3 {
                (seq / 256 % 256) as u8
            } else if k == 4 {
                (seq % 256) as u8
            } else if 5 <= k < 5 + n {
                fw[58 * i + k - 5]
            } else {
                0u8
            },
    )
}

/// Write report for chunk `i` of the firmware.
pub open spec fn spec_write_report(fw: Seq<u8>, i: int) -> Seq<u8> {
    sealed(unsealed_write_report(fw, i))
}

/// The last write report of the firmware, or a blank report when there is none.
pub open spec fn spec_last_write_report(fw: Seq<u8>) -> Seq<u8> {
    if spec_chunk_count(fw.len()) == 0 {
        blank_report()
    } else {
        spec_write_report(fw, spec_chunk_count(fw.len()) - 1)
    }
}

/// Finalize report: the last write report with command byte 0x31 and a fresh checksum.
pub open spec fn spec_finalize_report(fw: Seq<u8>) -> Seq<u8> {
    sealed(spec_last_write_report(fw).update(0, CMD_FINALIZE))
}

/// The firmware bytes that a write report carries, when it carries `n` of them.
pub open spec fn report_payload(report: Seq<u8>, n: int) -> Seq<u8> {
    report.subrange(5, 5 + n)
}

fn blank() -> (r: Vec<u8>)
    ensures
        r@ == blank_report(),
{
    let mut r: Vec<u8> = Vec::new();
    let mut i: usize = 0;
    while i < REPORT_SIZE
        invariant
            i <= 64,
            r@ =~= Seq::new(i as nat, |k: int| 0u8),
        decreases 64 - i,
    {
        r.push(0);
        i = i + 1;
    }
    r
}

fn seal(r: &mut Vec<u8>)
    requires
        old(r)@.len() == 64,
    ensures
        final(r)@ == sealed(old(r)@),
{
    let c = calculate_checksum(r.as_slice());
    r[63] = c;
}

/// Builds the device information request.
pub fn device_info_request() -> (r: Vec<u8>)
    ensures
        r@ == spec_device_info_request(),
{
    let mut r = blank();
    r[0] = CMD_DEVICE_INFO;
    r[2] = 0x45;
    seal(&mut r);
    r
}

/// Builds the erase command.
pub fn erase_command() -> (r: Vec<u8>)
    ensures
        r@ == spec_erase_command(),
{
    let mut r = blank();
    r[0] = CMD_ERASE;
    r[1] = 0x06;
    r[5] = 0x6f;
    r[7] = 0xf0;
    r[8] = 0xf0;
    r[9] = 0x05;
    seal(&mut r);
    r
}

/// Builds a status poll with sub-command `sub`.
pub fn status_poll(sub: u8) -> (r: Vec<u8>)
    ensures
        r@ == spec_status_poll(sub),
{
    let mut r = blank();
    r[0] = CMD_STATUS_POLL;
    r[1] = sub;
    seal(&mut r);
    r
}

/// Number of write reports needed for `len` firmware bytes.
pub fn chunk_count(len: usize) -> (n: usize)
    ensures
        n == spec_chunk_count(len as nat),
{
    let q = len / PAYLOAD_SIZE;
    if len % PAYLOAD_SIZE == 0 {
        q
    } else {
        q + 1
    }
}

/// Builds the write report for chunk `chunk` (counted from 0) of `firmware`.
pub fn write_report(firmware: &[u8], chunk: usize) -> (r: Vec<u8>)
    requires
        chunk < spec_chunk_count(firmware@.len()),
    ensures
        r@ == spec_write_report(firmware@, chunk as int),
{
    let ghost fw = firmware@;
    let flen = firmware.len();
    assert(chunk * 58 < fw.len()) by (nonlinear_arith)
        requires
            chunk < (fw.len() + 57) / 58,
    ;
    let start = chunk * 58;
    let rest = flen - start;
    let n = if rest < PAYLOAD_SIZE { rest } else { PAYLOAD_SIZE };
    let seq: u32 = #[verifier::truncate] ((chunk + 1) as u32);
    let mut r = blank();
    r[0] = CMD_WRITE_DATA;
    r[1] = n as u8;
    r[2] = (seq % 50) as u8;
    assert((seq >> 8u32) & 0xffu32 == seq / 256 % 256) by (bit_vector);
    assert(seq & 0xffu32 == seq % 256) by (bit_vector);
    r[3] = ((seq >> 8u32) & 0xff) as u8;
    r[4] = (seq & 0xff) as u8;
    let mut k: usize = 0;
    while k < n
        invariant
            k <= n,
            n == spec_chunk_len(fw.len(), chunk as int),
            start == 58 * chunk,
            start + n <= fw.len(),
            fw.len() == flen,
            firmware@ == fw,
            r@.len() == 64,
            forall|j: int| 0 <= j < 5 + k ==> r@[j] == unsealed_write_report(fw, chunk as int)[j],
            forall|j: int| 5 + k <= j < 64 ==> r@[j] == 0u8,
        decreases n - k,
    {
        r[5 + k] = firmware[start + k];
        k = k + 1;
    }
    assert(r@ =~= unsealed_write_report(fw, chunk as int));
    seal(&mut r);
    r
}

/// Builds the finalize report: the last write report of `firmware` with its
/// command byte replaced by 0x31 and its checksum recomputed.
pub fn finalize_report(firmware: &[u8]) -> (r: Vec<u8>)
    ensures
        r@ == spec_finalize_report(firmware@),
{
    let n = chunk_count(firmware.len());
    let mut r = if n == 0 {
        blank()
    } else {
        write_report(firmware, n - 1)
    };
    r[0] = CMD_FINALIZE;
    seal(&mut r);
    r
}

/// The firmware bytes carried by the first `k` write reports, in order.
pub open spec fn reassembled(fw: Seq<u8>, k: nat) -> Seq<u8>
    decreases k,
{
    if k == 0 {
        Seq::empty()
    } else {
        reassembled(fw, (k - 1) as nat) + report_payload(
            spec_write_report(fw, k - 1),
            spec_chunk_len(fw.len(), k - 1),
        )
    }
}

/// Sealing a 64-byte report makes it a sealed report, and the CRC-8 of all
/// 64 bytes of a sealed report is zero.
pub proof fn law_sealed_report(s: Seq<u8>)
    requires
        s.len() == 64,
    ensures
        is_sealed_report(sealed(s)),
        crc8(sealed(s)) == 0,
        sealed(s).subrange(0, 63) == s.subrange(0, 63),
{
    let r = sealed(s);
    assert(r.subrange(0, 63) =~= s.subrange(0, 63));
    assert(r =~= s.subrange(0, 63).push(crc8(s.subrange(0, 63))));
    law_crc8_residue_zero(s.subrange(0, 63));
}

/// Every report the protocol builds is a sealed 64-byte report.
pub proof fn law_all_reports_sealed(fw: Seq<u8>, i: int, sub: u8)
    ensures
        is_sealed_report(spec_device_info_request()),
        is_sealed_report(spec_erase_command()),
        is_sealed_report(spec_status_poll(sub)),
        is_sealed_report(spec_write_report(fw, i)),
        is_sealed_report(spec_finalize_report(fw)),
{
    law_sealed_report(blank_report().update(0, CMD_DEVICE_INFO).update(2, 0x45u8));
    law_sealed_report(
        blank_report().update(0, CMD_ERASE).update(1, 0x06u8).update(5, 0x6fu8).update(
            7,
            0xf0u8,
        ).update(8, 0xf0u8).update(9, 0x05u8),
    );
    law_sealed_report(blank_report().update(0, CMD_STATUS_POLL).update(1, sub));
    law_sealed_report(unsealed_write_report(fw, i));
    if spec_chunk_count(fw.len()) > 0 {
        law_sealed_report(unsealed_write_report(fw, spec_chunk_count(fw.len()) - 1));
    }
    law_sealed_report(spec_last_write_report(fw).update(0, CMD_FINALIZE));
}

proof fn lemma_chunk_bounds(len: nat, i: int)
    requires
        0 <= i < spec_chunk_count(len),
    ensures
        58 * i < len,
        0 < spec_chunk_len(len, i) <= 58,
        58 * i + spec_chunk_len(len, i) <= len,
        i + 1 == spec_chunk_count(len) ==> 58 * i + spec_chunk_len(len, i) == len,
        i + 1 < spec_chunk_count(len) ==> spec_chunk_len(len, i) == 58,
{
    assert(58 * i < len) by (nonlinear_arith)
        requires
            0 <= i < (len + 57) / 58,
    ;
    if i + 1 == spec_chunk_count(len) {
        assert(len <= 58 * i + 58) by (nonlinear_arith)
            requires
                i + 1 == (len + 57) / 58,
        ;
    }
    if i + 1 < spec_chunk_count(len) {
        assert(58 * i + 58 < len) by (nonlinear_arith)
            requires
                i + 1 < (len + 57) / 58,
        ;
    }
}

/// The write report of chunk `i` carries exactly the bytes of chunk `i`.
pub proof fn law_write_report_carries_chunk(fw: Seq<u8>, i: int)
    requires
        0 <= i < spec_chunk_count(fw.len()),
    ensures
        report_payload(spec_write_report(fw, i), spec_chunk_len(fw.len(), i)) == spec_chunk(
            fw,
            i,
        ),
{
    lemma_chunk_bounds(fw.len(), i);
    assert(report_payload(spec_write_report(fw, i), spec_chunk_len(fw.len(), i)) =~= spec_chunk(
        fw,
        i,
    ));
}

proof fn lemma_reassembled_prefix(fw: Seq<u8>, k: nat)
    requires
        k <= spec_chunk_count(fw.len()),
    ensures
        k < spec_chunk_count(fw.len()) ==> reassembled(fw, k) == fw.subrange(0, 58 * (k as int)),
        k == spec_chunk_count(fw.len()) ==> reassembled(fw, k) == fw,
    decreases k,
{
    if k == 0 {
        if spec_chunk_count(fw.len()) == 0 {
            assert(fw.len() == 0);
            assert(fw =~= Seq::<u8>::empty());
        }
        assert(fw.subrange(0, 0) =~= Seq::<u8>::empty());
    } else {
        let j = k - 1;
        lemma_reassembled_prefix(fw, j as nat);
        lemma_chunk_bounds(fw.len(), j);
        law_write_report_carries_chunk(fw, j);
        if k < spec_chunk_count(fw.len()) {
            assert(fw.subrange(0, 58 * j) + spec_chunk(fw, j) =~= fw.subrange(0, 58 * (k as int)));
        } else {
            assert(fw.subrange(0, 58 * j) + spec_chunk(fw, j) =~= fw);
        }
    }
}

/// Concatenating the firmware bytes of all write reports, in order, gives back
/// the whole firmware image: no byte is lost, repeated or reordered.
pub proof fn law_write_reports_reassemble_firmware(fw: Seq<u8>)
    ensures
        reassembled(fw, spec_chunk_count(fw.len())) == fw,
{
    lemma_reassembled_prefix(fw, spec_chunk_count(fw.len()));
}

/// The number of write reports is the least count of 58-byte chunks that covers the firmware.
pub proof fn law_chunk_count_is_minimal(len: nat)
    ensures
        58 * spec_chunk_count(len) >= len,
        spec_chunk_count(len) > 0 ==> 58 * (spec_chunk_count(len) - 1) < len,
{
    let n = spec_chunk_count(len);
    assert(58 * n >= len) by (nonlinear_arith)
        requires
            n == (len + 57) / 58,
    ;
    if n > 0 {
        lemma_chunk_bounds(len, n - 1);
    }
}

/// The header of the write report of chunk `i`: command 0x2b; in byte 1 the
/// number of firmware bytes it carries (58, or what is left for the last
/// chunk); in byte 2 the sequence number `i + 1` (as a 32-bit counter) modulo
/// 50; in bytes 3 and 4 the sequence number's low 16 bits, high byte first.
/// Bytes 5.. carry firmware bytes `58 * i ..`, then zeros up to byte 63.
pub proof fn law_write_report_header(fw: Seq<u8>, i: int)
    requires
        0 <= i < spec_chunk_count(fw.len()),
        fw.len() <= usize::MAX,
    ensures
        ({
            let r = spec_write_report(fw, i);
            let n = if fw.len() - 58 * i < 58 {
                fw.len() - 58 * i
            } else {
                58
            };
            &&& r.len() == 64
            &&& r[0] == 0x2b
            &&& r[1] as int == n
            &&& r[2] as int == ((i + 1) % 0x1_0000_0000) % 50
            &&& r[3] as int == ((i + 1) / 256) % 256
            &&& r[4] as int == (i + 1) % 256
            &&& r[3] as int * 256 + r[4] as int == (i + 1) % 0x1_0000
            &&& r.subrange(5, 5 + n) == fw.subrange(58 * i, 58 * i + n)
            &&& forall|k: int| 5 + n <= k < 63 ==> r[k] == 0
        }),
{
    lemma_chunk_bounds(fw.len(), i);
    let r = spec_write_report(fw, i);
    let n = spec_chunk_len(fw.len(), i);
    let x: u64 = (i + 1) as u64;
    assert(x == i + 1);
    let seq: u32 = x as u32;
    assert(spec_sequence(i) == seq);
    assert((seq % 50) as int == (x % 0x1_0000_0000) % 50) by (bit_vector)
        requires
            seq == x as u32,
    ;
    assert(seq / 256 % 256 == x / 256 % 256) by (bit_vector)
        requires
            seq == x as u32,
    ;
    assert(seq % 256 == x % 256) by (bit_vector)
        requires
            seq == x as u32,
    ;
    assert((x / 256 % 256) * 256 + x % 256 == x % 0x1_0000) by (bit_vector);
    assert(r[1] == n as u8);
    assert(r.subrange(5, 5 + n) =~= fw.subrange(58 * i, 58 * i + n));
}

/// The finalize report of a non-empty firmware is its last write report with
/// command 0x31 and a fresh checksum: bytes 1..63 are those of the write report
/// of chunk `(len - 1) / 58`, so byte 1 holds the length `n` of the last chunk
/// (1 to 58) and bytes 5.. the last `n` firmware bytes. For an empty firmware
/// it is a blank report with command 0x31.
pub proof fn law_finalize_is_last_write_report(fw: Seq<u8>)
    ensures
        ({
            let f = spec_finalize_report(fw);
            let last = (fw.len() - 1) / 58;
            let n = fw.len() - 58 * last;
            &&& is_sealed_report(f)
            &&& f[0] == 0x31
            &&& fw.len() > 0 ==> {
                &&& f.subrange(1, 63) == spec_write_report(fw, last).subrange(1, 63)
                &&& 1 <= n <= 58
                &&& f[1] as int == n
                &&& f.subrange(5, 5 + n) == fw.subrange(fw.len() - n, fw.len() as int)
            }
            &&& fw.len() == 0 ==> forall|k: int| 1 <= k < 63 ==> f[k] == 0
        }),
{
    law_all_reports_sealed(fw, 0, 0);
    let f = spec_finalize_report(fw);
    if fw.len() > 0 {
        let c = spec_chunk_count(fw.len());
        let last = (fw.len() - 1) / 58;
        assert(last == c - 1) by (nonlinear_arith)
            requires
                c == (fw.len() + 57) / 58,
                last == (fw.len() - 1) / 58,
                fw.len() > 0,
        ;
        lemma_chunk_bounds(fw.len(), last);
        let w = spec_write_report(fw, last);
        assert(f.subrange(1, 63) =~= w.subrange(1, 63));
        let n = fw.len() - 58 * last;
        assert(spec_chunk_len(fw.len(), last) == n);
        assert(f.subrange(5, 5 + n) =~= fw.subrange(fw.len() - n, fw.len() as int));
    }
}

} // verus!
