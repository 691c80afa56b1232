//! What to put on the wire: one UDP datagram per attempt, from where and to
//! where.

use crate::mac::MacAddr;
use crate::packet::{magic_packet, magic_packet_bytes};
use vstd::prelude::*;

verus! {

/// The port to bind to: none in particular, the system picks a free one.
pub const BIND_PORT: u16 = 0;

/// The port that magic packets are sent to, by convention that of the
/// discard service.
pub const WOL_PORT: u16 = 9;

/// An internet address by its octets, in network order.
#[derive(Debug, Clone, Copy, PartialEq, Eq)]
pub enum IpAddress {
    V4([u8; 4]),
    V6([u8; 16]),
}

/// An internet address as the contracts see it.
pub enum IpAddressView {
    V4(Seq<u8>),
    V6(Seq<u8>),
}

impl View for IpAddress {
    type V = IpAddressView;

    open spec fn view(&self) -> IpAddressView {
        match *self {
            IpAddress::V4(octets) => IpAddressView::V4(octets@),
            IpAddress::V6(octets) => IpAddressView::V6(octets@),
        }
    }
}

/// One datagram to send: bind a socket to `source` and `source_port`, allow
/// it to broadcast, and send `payload` to `destination` and
/// `destination_port`.
#[derive(Debug, Clone, PartialEq, Eq)]
pub struct Datagram {
    pub source: IpAddress,
    pub source_port: u16,
    pub destination: IpAddress,
    pub destination_port: u16,
    pub payload: Vec<u8>,
}

/// Where magic packets go unless the caller says otherwise: to every host on
/// the local network, `255.255.255.255`.
pub open spec fn default_destination() -> IpAddressView {
    IpAddressView::V4(seq![255u8, 255u8, 255u8, 255u8])
}

/// Where magic packets come from unless the caller says otherwise: from any
/// local address, `0.0.0.0`.
pub open spec fn default_source() -> IpAddressView {
    IpAddressView::V4(seq![0u8, 0u8, 0u8, 0u8])
}

/// The address to use: the one that was asked for, else the one that is
/// usual.
pub open spec fn address_or(asked: Option<IpAddress>, usual: IpAddressView) -> IpAddressView {
    match asked {
        Some(address) => address@,
        None => usual,
    }
}

impl Datagram {
    /// Whether this is the datagram that wakes the machine with the octets
    /// `mac` as its address: its payload is the magic packet for `mac`, and
    /// it goes to `bcast_addr`, or else to `255.255.255.255`, on port 9, from
    /// `bind_addr`, or else from `0.0.0.0`, on a port that the system picks.
    pub open spec fn wakes(
        self,
        mac: Seq<u8>,
        bcast_addr: Option<IpAddress>,
        bind_addr: Option<IpAddress>,
    ) -> bool {
        &&& self.payload@ == magic_packet_bytes(mac)
        &&& self.destination@ == address_or(bcast_addr, default_destination())
        &&& self.destination_port == 9
        &&& self.source@ == address_or(bind_addr, default_source())
        &&& self.source_port == 0
    }
}

/// The datagram that wakes the machine with the address `mac_addr`, sent to
/// `bcast_addr` and from `bind_addr` where they are given.
pub fn wol_datagram(
    mac_addr: MacAddr,
    bcast_addr: Option<IpAddress>,
    bind_addr: Option<IpAddress>,
) -> (datagram: Datagram)
    ensures
        datagram.wakes(mac_addr@, bcast_addr, bind_addr),
{
    let destination = match bcast_addr {
        Some(address) => address,
        None => {
            let everyone: [u8; 4] = [255, 255, 255, 255];
            assert(everyone@ =~= seq![255u8, 255u8, 255u8, 255u8]);
            IpAddress::V4(everyone)
        },
    };
    let source = match bind_addr {
        Some(address) => address,
        None => {
            let any: [u8; 4] = [0, 0, 0, 0];
            assert(any@ =~= seq![0u8, 0u8, 0u8, 0u8]);
            IpAddress::V4(any)
        },
    };
    Datagram {
        source,
        source_port: BIND_PORT,
        destination,
        destination_port: WOL_PORT,
        payload: magic_packet(mac_addr),
    }
}

} // verus!
