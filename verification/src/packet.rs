//! The magic packet: the payload that wakes the machine whose address it
//! repeats.

use crate::mac::MacAddr;
use vstd::prelude::*;

verus! {

/// Number of bytes that open a magic packet, each of them `0xff`.
pub const SYNC_LEN: usize = 6;

/// Number of times that a magic packet repeats the address.
pub const REPETITIONS: usize = 16;

/// Number of bytes in a magic packet.
pub const MAGIC_PACKET_LEN: usize = 102;

/// The bytes of the magic packet for the address `mac`: six bytes `0xff`,
/// then the six octets of the address sixteen times over.
pub open spec fn magic_packet_bytes(mac: Seq<u8>) -> Seq<u8> {
    Seq::new(6, |i: int| 0xffu8) + Seq::new(96, |i: int| mac[i % 6])
}

/// Builds the magic packet for `mac`.
pub fn magic_packet(mac: MacAddr) -> (packet: Vec<u8>)
    ensures
        packet@ == magic_packet_bytes(mac@),
        packet@.len() == 102,
        forall|i: int| 0 <= i < 6 ==> packet@[i] == 0xff,
        forall|i: int, j: int|
            0 <= i < 16 && 0 <= j < 6 ==> #[trigger] packet@[6 + 6 * i + j] == mac@[j],
        forall|i: int| 0 <= i < 16 ==> #[trigger] packet@.subrange(6 + 6 * i, 12 + 6 * i) == mac@,
{
    let mut packet: Vec<u8> = Vec::with_capacity(MAGIC_PACKET_LEN);
    let mut i: usize = 0;
    while i < SYNC_LEN
        invariant
            i <= 6,
            packet@.len() == i,
            forall|p: int| 0 <= p < i ==> packet@[p] == 0xff,
        decreases 6 - i,
    {
        packet.push(0xff);
        i += 1;
    }
    let mut round: usize = 0;
    while round < REPETITIONS
        invariant
            round <= 16,
            mac@.len() == 6,
            packet@.len() == 6 + 6 * round,
            forall|p: int| 0 <= p < 6 ==> packet@[p] == 0xff,
            forall|p: int| 6 <= p < 6 + 6 * round ==> packet@[p] == mac@[(p - 6) % 6],
        decreases 16 - round,
    {
        let mut j: usize = 0;
        while j < 6
            invariant
                j <= 6,
                round < 16,
                mac@.len() == 6,
                packet@.len() == 6 + 6 * round + j,
                forall|p: int| 0 <= p < 6 ==> packet@[p] == 0xff,
                forall|p: int| 6 <= p < 6 + 6 * round + j ==> packet@[p] == mac@[(p - 6) % 6],
            decreases 6 - j,
        {
            packet.push(mac.0[j]);
            j += 1;
        }
        round += 1;
    }
    proof {
        assert(packet@ =~= magic_packet_bytes(mac@));
        assert forall|i: int, j: int| 0 <= i < 16 && 0 <= j < 6 implies #[trigger] packet@[6 + 6
            * i + j] == mac@[j] by {
            assert((6 * i + j) % 6 == j) by (nonlinear_arith)
                requires
                    0 <= j < 6,
                    0 <= i,
            ;
        }
        assert forall|i: int| 0 <= i < 16 implies #[trigger] packet@.subrange(
            6 + 6 * i,
            12 + 6 * i,
        ) == mac@ by {
            let part = packet@.subrange(6 + 6 * i, 12 + 6 * i);
            assert forall|j: int| 0 <= j < 6 implies part[j] == mac@[j] by {
                assert(part[j] == packet@[6 + 6 * i + j]);
            }
            assert(part =~= mac@);
        }
    }
    packet
}

} // verus!
