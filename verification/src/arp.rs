//! The ARP address-resolution exchange: build one broadcast request frame
//! for a target IPv4 address, then examine captured frames one at a time
//! for a matching reply. The socket work — sending the frame and blocking
//! for the next capture — is the caller's; the decisions here are pure and
//! verified. A frame that is not a matching reply is a recoverable
//! no-match, distinct from a genuine read failure.

use vstd::prelude::*;

use crate::head::ether::ether_code;
use crate::head::EtherHdr;
use crate::head::EtherKind;
use crate::head::Header;

verus! {

/// The phases of one address-resolution exchange.
#[derive(Debug, Clone, Copy, PartialEq, Eq)]
pub enum ArpState {
    /// No request built yet.
    Idle,
    /// The request frame was handed out; replies are being examined.
    AwaitingReply,
    /// A matching reply supplied this hardware address.
    Resolved([u8; 6]),
    /// The socket read itself failed.
    Failed,
}

/// The 42 bytes of an ARP request frame: an Ethernet header to the
/// broadcast address with ethertype ARP, then the 28-byte ARP body —
/// hardware type Ethernet, protocol type IPv4, address lengths 6 and 4,
/// operation 1 — carrying the sender's addresses, the broadcast target
/// hardware address, and the target protocol address.
pub open spec fn arp_request_bytes(local_mac: [u8; 6], local_ip: [u8; 4], target: [u8; 4]) -> Seq<
    u8,
> {
    seq![0xffu8, 0xffu8, 0xffu8, 0xffu8, 0xffu8, 0xffu8] + local_mac@ + seq![0x08u8, 0x06u8]
        + seq![0x00u8, 0x01u8, 0x08u8, 0x00u8, 0x06u8, 0x04u8, 0x00u8, 0x01u8] + local_mac@
        + local_ip@ + seq![0xffu8, 0xffu8, 0xffu8, 0xffu8, 0xffu8, 0xffu8] + target@
}

/// Whether a captured frame is a matching ARP reply: at least 42 bytes,
/// operation field (bytes 20..22) equal to 2. The resolved hardware address
/// is then bytes 22..28. The replying sender's protocol address is not
/// checked, a deliberate trait of the exchange.
pub open spec fn arp_reply_mac(frame: Seq<u8>) -> Option<Seq<u8>> {
    if frame.len() >= 42 && frame[20] == 0 && frame[21] == 2 {
        Some(frame.subrange(22, 28))
    } else {
        None
    }
}

/// One ARP exchange, from idle through awaiting a reply to resolved or
/// failed. The exchange applies no timeout and no retry: the caller blocks
/// on its socket until a frame arrives or the read fails.
pub struct ARPResolver {
    pub state: ArpState,
    pub target: [u8; 4],
    pub local_ip: [u8; 4],
    pub local_mac: [u8; 6],
}

impl ARPResolver {
    /// An idle exchange for the given target and local addresses.
    pub fn new(target: [u8; 4], local_ip: [u8; 4], local_mac: [u8; 6]) -> (r: Self)
        ensures
            r == (ARPResolver { state: ArpState::Idle, target, local_ip, local_mac }),
    {
        ARPResolver { state: ArpState::Idle, target, local_ip, local_mac }
    }

    /// Build the 42-byte request frame to broadcast; the exchange then
    /// awaits replies.
    pub fn request_frame(&mut self) -> (r: Vec<u8>)
        requires
            old(self).state == ArpState::Idle,
        ensures
            r@ == arp_request_bytes(old(self).local_mac, old(self).local_ip, old(self).target),
            r@.len() == 42,
            *final(self) == (ARPResolver { state: ArpState::AwaitingReply, ..*old(self) }),
    {
        let eth = EtherHdr {
            dhost: [0xff, 0xff, 0xff, 0xff, 0xff, 0xff],
            shost: self.local_mac,
            etype: EtherKind::ARP,
        };
        let mut v = eth.to_bytes();
        v.push(0x00);
        v.push(0x01);
        v.push(0x08);
        v.push(0x00);
        v.push(0x06);
        v.push(0x04);
        v.push(0x00);
        v.push(0x01);
        v.extend_from_slice(self.local_mac.as_slice());
        v.extend_from_slice(self.local_ip.as_slice());
        v.push(0xff);
        v.push(0xff);
        v.push(0xff);
        v.push(0xff);
        v.push(0xff);
        v.push(0xff);
        v.extend_from_slice(self.target.as_slice());
        self.state = ArpState::AwaitingReply;
        proof {
            assert(ether_code(EtherKind::ARP) == 0x0806);
            assert(v@ =~= arp_request_bytes(self.local_mac, self.local_ip, self.target));
        }
        v
    }

    /// Examine one captured frame. A reply with operation 2 resolves the
    /// exchange to the hardware address in bytes 22..28; any other frame is
    /// a no-match and the exchange keeps waiting.
    pub fn handle_frame(&mut self, frame: &[u8]) -> (r: Option<[u8; 6]>)
        requires
            old(self).state == ArpState::AwaitingReply,
        ensures
            match r {
                Some(mac) => arp_reply_mac(frame@) == Some(mac@) && *final(self) == (ARPResolver {
                    state: ArpState::Resolved(mac),
                    ..*old(self)
                }),
                None => arp_reply_mac(frame@) is None && *final(self) == *old(self),
            },
    {
        if frame.len() >= 42 && frame[20] == 0x00 && frame[21] == 0x02 {
            let mac: [u8; 6] = [frame[22], frame[23], frame[24], frame[25], frame[26], frame[27]];
            proof {
                assert(mac@ =~= frame@.subrange(22, 28));
            }
            self.state = ArpState::Resolved(mac);
            Some(mac)
        } else {
            None
        }
    }

    /// Record that the socket read itself failed; the exchange is over.
    pub fn fail(&mut self)
        ensures
            *final(self) == (ARPResolver { state: ArpState::Failed, ..*old(self) }),
    {
        self.state = ArpState::Failed;
    }
}

} // verus!
