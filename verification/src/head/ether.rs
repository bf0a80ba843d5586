//! The 14-byte Ethernet link-layer header: destination and source hardware
//! addresses and a big-endian ethertype, decoded to a kind (IP, ARP or the
//! raw code) and re-encoded big-endian on both paths.

use vstd::prelude::*;

use super::be16;
use super::word16;
use super::DecodeError;
use super::Header;
use vstd::slice::slice_subrange;

verus! {

/// Build a 6-byte array from the first six bytes of a sequence.
pub open spec fn arr6(s: Seq<u8>) -> [u8; 6] {
    [s[0], s[1], s[2], s[3], s[4], s[5]]
}

/// The protocol that an Ethernet frame encapsulates, as named kinds for the
/// two codes this crate acts on and the raw 16-bit code otherwise.
#[derive(Clone, Copy, Debug, PartialEq, Eq, Structural)]
pub enum EtherKind {
    IP,
    ARP,
    Other(u16),
}

/// The 16-bit wire code of an ethertype kind.
pub open spec fn ether_code(k: EtherKind) -> u16 {
    match k {
        EtherKind::IP => 0x0800,
        EtherKind::ARP => 0x0806,
        EtherKind::Other(x) => x,
    }
}

/// The kind that a raw 16-bit ethertype code decodes to.
pub open spec fn ether_kind_of(x: u16) -> EtherKind {
    if x == 0x0800 {
        EtherKind::IP
    } else if x == 0x0806 {
        EtherKind::ARP
    } else {
        EtherKind::Other(x)
    }
}

impl EtherKind {
    /// Map a raw 16-bit ethertype code to its kind.
    pub fn new(org: u16) -> (r: Self)
        ensures
            r == ether_kind_of(org),
    {
        match org {
            0x0800 => EtherKind::IP,
            0x0806 => EtherKind::ARP,
            org => EtherKind::Other(org),
        }
    }
}

impl View for EtherKind {
    type V = EtherKind;

    open spec fn view(&self) -> EtherKind {
        *self
    }
}

impl Header for EtherKind {
    /// An `Other` kind never carries one of the two named codes, so a kind
    /// encodes to the bytes it was decoded from.
    open spec fn wf_model(m: EtherKind) -> bool {
        m matches EtherKind::Other(x) ==> x != 0x0800 && x != 0x0806
    }

    open spec fn enc_model(m: EtherKind) -> Seq<u8> {
        be16(ether_code(m))
    }

    open spec fn dec_model(b: Seq<u8>) -> Result<(EtherKind, int), DecodeError> {
        if b.len() < 2 {
            Err(DecodeError::Truncated)
        } else {
            Ok((ether_kind_of(word16(b[0], b[1])), 2))
        }
    }

    fn from_bytes(bytes: &[u8]) -> (r: Result<(Self, &[u8]), DecodeError>) {
        if bytes.len() < 2 {
            Err(DecodeError::Truncated)
        } else {
            let org: u16 = (bytes[0] as u16) * 256 + (bytes[1] as u16);
            let rest = slice_subrange(bytes, 2, bytes.len());
            Ok((EtherKind::new(org), rest))
        }
    }

    fn to_bytes(self) -> (r: Vec<u8>) {
        let code: u16 = match self {
            EtherKind::IP => 0x0800,
            EtherKind::ARP => 0x0806,
            EtherKind::Other(x) => x,
        };
        let mut v: Vec<u8> = Vec::new();
        v.push((code / 256) as u8);
        v.push((code % 256) as u8);
        proof {
            assert(v@ =~= be16(ether_code(self@)));
        }
        v
    }

    proof fn lemma_round_trip(m: EtherKind, tail: Seq<u8>) {
        let c = ether_code(m);
        let b = Self::enc_model(m) + tail;
        assert(b[0] == (c / 256) as u8 && b[1] == (c % 256) as u8);
        assert(word16((c / 256) as u8, (c % 256) as u8) == c);
    }
}

/// The 14-byte Ethernet header: destination address, source address,
/// ethertype.
#[derive(Clone, Copy, Debug, PartialEq, Eq)]
pub struct EtherHdr {
    pub dhost: [u8; 6],
    pub shost: [u8; 6],
    pub etype: EtherKind,
}

impl View for EtherHdr {
    type V = EtherHdr;

    open spec fn view(&self) -> EtherHdr {
        *self
    }
}

impl Header for EtherHdr {
    open spec fn wf_model(m: EtherHdr) -> bool {
        EtherKind::wf_model(m.etype)
    }

    open spec fn enc_model(m: EtherHdr) -> Seq<u8> {
        m.dhost@ + m.shost@ + be16(ether_code(m.etype))
    }

    open spec fn dec_model(b: Seq<u8>) -> Result<(EtherHdr, int), DecodeError> {
        if b.len() < 14 {
            Err(DecodeError::Truncated)
        } else {
            Ok(
                (
                    EtherHdr {
                        dhost: arr6(b.subrange(0, 6)),
                        shost: arr6(b.subrange(6, 12)),
                        etype: ether_kind_of(word16(b[12], b[13])),
                    },
                    14,
                ),
            )
        }
    }

    fn from_bytes(bytes: &[u8]) -> (r: Result<(Self, &[u8]), DecodeError>) {
        if bytes.len() < 14 {
            return Err(DecodeError::Truncated);
        }
        let dhost: [u8; 6] = [bytes[0], bytes[1], bytes[2], bytes[3], bytes[4], bytes[5]];
        let shost: [u8; 6] = [bytes[6], bytes[7], bytes[8], bytes[9], bytes[10], bytes[11]];
        let etype = EtherKind::new((bytes[12] as u16) * 256 + (bytes[13] as u16));
        let rest = slice_subrange(bytes, 14, bytes.len());
        proof {
            assert(dhost@ =~= bytes@.subrange(0, 6));
            assert(shost@ =~= bytes@.subrange(6, 12));
            assert(dhost@ =~= arr6(bytes@.subrange(0, 6))@);
            assert(shost@ =~= arr6(bytes@.subrange(6, 12))@);
        }
        Ok((EtherHdr { dhost, shost, etype }, rest))
    }

    fn to_bytes(self) -> (r: Vec<u8>) {
        let mut v: Vec<u8> = Vec::new();
        v.extend_from_slice(self.dhost.as_slice());
        v.extend_from_slice(self.shost.as_slice());
        let mut e = self.etype.to_bytes();
        v.append(&mut e);
        proof {
            assert(v@ =~= EtherHdr::enc_model(self@));
        }
        v
    }

    proof fn lemma_round_trip(m: EtherHdr, tail: Seq<u8>) {
        let b = Self::enc_model(m) + tail;
        let c = ether_code(m.etype);
        assert(b.subrange(0, 6) =~= m.dhost@);
        assert(b.subrange(6, 12) =~= m.shost@);
        assert(b[12] == (c / 256) as u8 && b[13] == (c % 256) as u8);
        assert(word16((c / 256) as u8, (c % 256) as u8) == c);
        assert(arr6(b.subrange(0, 6))@ =~= m.dhost@);
        assert(arr6(b.subrange(6, 12))@ =~= m.shost@);
        assert(arr6(b.subrange(0, 6)) == m.dhost);
        assert(arr6(b.subrange(6, 12)) == m.shost);
    }
}

} // verus!
