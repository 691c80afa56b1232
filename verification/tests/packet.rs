use wol_server::packet::{magic_packet, MAGIC_PACKET_LEN, REPETITIONS, SYNC_LEN};
use wol_server::MacAddr;

#[test]
fn packet_has_102_bytes() {
    assert_eq!(MAGIC_PACKET_LEN, 102);
    assert_eq!(SYNC_LEN + 6 * REPETITIONS, MAGIC_PACKET_LEN);
    assert_eq!(magic_packet(MacAddr([1, 2, 3, 4, 5, 6])).len(), 102);
    assert_eq!(magic_packet(MacAddr::default()).len(), 102);
}

#[test]
fn packet_opens_with_six_ff() {
    let packet = magic_packet(MacAddr([0x00, 0x0a, 0x0b, 0x0c, 0x0d, 0x0e]));
    assert_eq!(&packet[0..6], &[0xff, 0xff, 0xff, 0xff, 0xff, 0xff]);
}

#[test]
fn packet_repeats_the_address_sixteen_times() {
    let octets = [0x00, 0x0a, 0x0b, 0x0c, 0x0d, 0x0e];
    let packet = magic_packet(MacAddr(octets));
    for i in 0..16 {
        assert_eq!(&packet[6 + 6 * i..6 + 6 * i + 6], &octets);
    }
}

#[test]
fn packet_is_exactly_prefix_then_repetitions() {
    let octets = [0xde, 0xad, 0xbe, 0xef, 0x12, 0x34];
    let mut expected: Vec<u8> = vec![0xff; 6];
    for _ in 0..16 {
        expected.extend_from_slice(&octets);
    }
    assert_eq!(magic_packet(MacAddr(octets)), expected);
}

#[test]
fn packet_for_broadcast_address_is_all_ff() {
    assert_eq!(magic_packet(MacAddr([0xff; 6])), vec![0xff; 102]);
}

#[test]
fn packet_for_zero_address_is_zero_after_the_prefix() {
    let packet = magic_packet(MacAddr([0; 6]));
    assert_eq!(&packet[..6], &[0xff; 6]);
    assert_eq!(&packet[6..], &[0u8; 96][..]);
}
