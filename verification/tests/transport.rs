use wol_server::packet::magic_packet;
use wol_server::transport::{wol_datagram, IpAddress, BIND_PORT, WOL_PORT};
use wol_server::MacAddr;

#[test]
fn datagram_defaults() {
    let mac = MacAddr([0x00, 0x0a, 0x0b, 0x0c, 0x0d, 0x0e]);
    let datagram = wol_datagram(mac, None, None);
    assert_eq!(datagram.destination, IpAddress::V4([255, 255, 255, 255]));
    assert_eq!(datagram.destination_port, 9);
    assert_eq!(datagram.source, IpAddress::V4([0, 0, 0, 0]));
    assert_eq!(datagram.source_port, 0);
    assert_eq!(datagram.payload, magic_packet(mac));
    assert_eq!(datagram.payload.len(), 102);
}

#[test]
fn datagram_with_given_addresses() {
    let mac = MacAddr([1, 2, 3, 4, 5, 6]);
    let bcast = IpAddress::V4([192, 168, 1, 255]);
    let bind = IpAddress::V4([192, 168, 1, 10]);
    let datagram = wol_datagram(mac, Some(bcast), Some(bind));
    assert_eq!(datagram.destination, bcast);
    assert_eq!(datagram.source, bind);
    assert_eq!(datagram.destination_port, 9);
    assert_eq!(datagram.source_port, 0);
    assert_eq!(datagram.payload, magic_packet(mac));
}

#[test]
fn datagram_with_one_given_address() {
    let mac = MacAddr([1, 2, 3, 4, 5, 6]);
    let v6 = IpAddress::V6([0xff, 0x02, 0, 0, 0, 0, 0, 0, 0, 0, 0, 0, 0, 0, 0, 1]);
    let to_v6 = wol_datagram(mac, Some(v6), None);
    assert_eq!(to_v6.destination, v6);
    assert_eq!(to_v6.source, IpAddress::V4([0, 0, 0, 0]));
    let from_given = wol_datagram(mac, None, Some(IpAddress::V4([10, 0, 0, 1])));
    assert_eq!(from_given.destination, IpAddress::V4([255, 255, 255, 255]));
    assert_eq!(from_given.source, IpAddress::V4([10, 0, 0, 1]));
}

#[test]
fn ports_are_fixed() {
    assert_eq!(WOL_PORT, 9);
    assert_eq!(BIND_PORT, 0);
}
