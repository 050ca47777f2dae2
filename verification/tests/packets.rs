use fnirsi_usbtester_flasher::checksum::calculate_checksum;
use fnirsi_usbtester_flasher::packets::{
    chunk_count, device_info_request, erase_command, finalize_report,
    status_poll, write_report, PAYLOAD_SIZE, REPORT_SIZE,
};

fn report_is_sealed(r: &[u8]) -> bool {
    r.len() == 64 && crc8_reference(&r[..63]) == r[63]
}

fn crc8_reference(data: &[u8]) -> u8 {
    let mut crc: u8 = 0;
    for &b in data {
        crc ^= b;
        for _ in 0..8 {
            crc = if crc & 0x80 != 0 { (crc << 1) ^ 0x39 } else { crc << 1 };
        }
    }
    crc
}

#[test]
fn checksum_of_zeros_is_zero() {
    assert_eq!(calculate_checksum(&[0u8; 64]), 0);
}

#[test]
fn checksum_ignores_byte_63() {
    let mut a = [0u8; 64];
    a[0] = 0x26;
    let c = calculate_checksum(&a);
    a[63] = 0xff;
    assert_eq!(calculate_checksum(&a), c);
}

#[test]
fn checksum_of_single_one_is_polynomial_power() {
    // 0x01 shifted eight times through the register: 0x80 after 7 shifts, then 0x39.
    let mut a = [0u8; 63];
    a[62] = 0x01;
    assert_eq!(calculate_checksum(&a), 0x39);
}

#[test]
fn checksum_matches_reference_bitwise_crc() {
    let data: Vec<u8> = (0..63u32).map(|i| (i * 37 + 11) as u8).collect();
    assert_eq!(calculate_checksum(&data), crc8_reference(&data));
}

#[test]
fn device_info_request_matches_capture() {
    let r = device_info_request();
    assert_eq!(r.len(), REPORT_SIZE);
    assert_eq!(&r[..3], &[0x26, 0x00, 0x45]);
    assert!(r[3..63].iter().all(|&b| b == 0));
    assert_eq!(r[63], 0x36);
}

#[test]
fn erase_command_matches_capture() {
    let r = erase_command();
    assert_eq!(&r[..10], &[0x28, 0x06, 0x00, 0x00, 0x00, 0x6f, 0x00, 0xf0, 0xf0, 0x05]);
    assert!(r[10..63].iter().all(|&b| b == 0));
    assert_eq!(r[63], 0xc8);
}

#[test]
fn status_polls_are_sealed() {
    for sub in [0x81u8, 0x82] {
        let r = status_poll(sub);
        assert_eq!(r[0], 0xaa);
        assert_eq!(r[1], sub);
        assert!(r[2..63].iter().all(|&b| b == 0));
        assert_eq!(r[63], crc8_reference(&r[..63]));
        assert!(report_is_sealed(&r));
    }
}

#[test]
fn chunk_count_rounds_up() {
    assert_eq!(chunk_count(0), 0);
    assert_eq!(chunk_count(1), 1);
    assert_eq!(chunk_count(58), 1);
    assert_eq!(chunk_count(59), 2);
    assert_eq!(chunk_count(116), 2);
    assert_eq!(chunk_count(117), 3);
}

#[test]
fn firmware_of_389360_bytes_takes_6714_packets() {
    assert_eq!(chunk_count(389_360), 6714);
}

#[test]
fn first_write_report_layout() {
    let fw: Vec<u8> = (0..200u32).map(|i| i as u8).collect();
    let r = write_report(&fw, 0);
    assert_eq!(&r[..5], &[0x2b, 0x3a, 0x01, 0x00, 0x01]);
    assert_eq!(r[1] as usize, 58);
    assert_eq!(&r[5..63], &fw[..58]);
    assert_eq!(r[63], crc8_reference(&r[..63]));
}

#[test]
fn short_last_chunk_is_zero_padded() {
    let fw: Vec<u8> = (0..200u32).map(|i| (i + 1) as u8).collect();
    // 200 = 3 * 58 + 26
    let r = write_report(&fw, 3);
    assert_eq!(&r[..5], &[0x2b, 26, 0x04, 0x00, 0x04]);
    assert_eq!(&r[5..31], &fw[174..200]);
    assert!(r[31..63].iter().all(|&b| b == 0));
    assert!(report_is_sealed(&r));
}

#[test]
fn sequence_bytes_of_last_packet_of_capture() {
    let fw = vec![0x5au8; 389_360];
    let r = write_report(&fw, 6713);
    // sequence 6714 = 0x1a3a; 6714 mod 50 = 14
    assert_eq!(&r[..5], &[0x2b, 0x06, 0x0e, 0x1a, 0x3a]);
    // 389360 - 6713 * 58 = 6 bytes in the last chunk
    assert_eq!(&r[5..11], &[0x5a; 6]);
    assert!(r[11..63].iter().all(|&b| b == 0));
}

#[test]
fn sequence_mod_50_wraps_to_zero() {
    let fw = vec![1u8; 58 * 60];
    let r = write_report(&fw, 49);
    assert_eq!(r[2], 0);
    assert_eq!(r[4], 50);
    let r = write_report(&fw, 50);
    assert_eq!(r[2], 1);
}

#[test]
fn sequence_high_byte_after_255() {
    let fw = vec![1u8; 58 * 300];
    let r = write_report(&fw, 255);
    // sequence 256
    assert_eq!(&r[2..5], &[256u32 % 50, 1, 0].map(|x| x as u8));
}

#[test]
fn write_reports_reassemble_firmware() {
    for len in [1usize, 57, 58, 59, 116, 200, 1000] {
        let fw: Vec<u8> = (0..len).map(|i| (i * 7 + 3) as u8).collect();
        let n = chunk_count(fw.len());
        let mut out = Vec::new();
        for i in 0..n {
            let r = write_report(&fw, i);
            assert!(report_is_sealed(&r));
            let take = (fw.len() - i * PAYLOAD_SIZE).min(PAYLOAD_SIZE);
            out.extend_from_slice(&r[5..5 + take]);
        }
        assert_eq!(out, fw);
    }
}

#[test]
fn finalize_repeats_last_write_with_command_31() {
    let fw: Vec<u8> = (0..130u32).map(|i| (i * 3) as u8).collect();
    let last = write_report(&fw, chunk_count(fw.len()) - 1);
    let f = finalize_report(&fw);
    assert_eq!(f[0], 0x31);
    assert_eq!(&f[1..63], &last[1..63]);
    assert_eq!(f[63], crc8_reference(&f[..63]));
    assert_ne!(f[63], last[63]);
}

#[test]
fn one_byte_firmware_report_carries_length_one() {
    let r = write_report(&[0x42], 0);
    assert_eq!(&r[..6], &[0x2b, 0x01, 0x01, 0x00, 0x01, 0x42]);
    assert!(r[6..63].iter().all(|&b| b == 0));
}

#[test]
fn finalize_matches_captured_report() {
    let mut fw = vec![0x11u8; 389_360];
    fw[389_354..].copy_from_slice(&[0x28, 0xdd, 0x59, 0xb6, 0x2c, 0x45]);
    assert_eq!(chunk_count(fw.len()), 6714);
    let f = finalize_report(&fw);
    assert_eq!(
        &f[..11],
        &[0x31, 0x06, 0x0e, 0x1a, 0x3a, 0x28, 0xdd, 0x59, 0xb6, 0x2c, 0x45]
    );
    assert!(f[11..63].iter().all(|&b| b == 0));
    assert_eq!(f[63], calculate_checksum(&f));
}

#[test]
fn finalize_of_empty_firmware_is_blank_report() {
    let f = finalize_report(&[]);
    assert_eq!(f[0], 0x31);
    assert!(f[1..63].iter().all(|&b| b == 0));
    assert!(report_is_sealed(&f));
}

#[test]
fn corrupted_report_is_not_sealed() {
    let mut r = device_info_request();
    assert!(report_is_sealed(&r));
    r[10] ^= 0x01;
    assert!(!report_is_sealed(&r));
    assert!(!report_is_sealed(&r[..63]));
}

#[test]
fn sealed_report_has_zero_crc_residue() {
    let fw = vec![0xa5u8; 90];
    for r in [device_info_request(), erase_command(), write_report(&fw, 1), finalize_report(&fw)] {
        assert_eq!(crc8_reference(&r), 0);
    }
}
