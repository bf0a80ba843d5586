//! The two passive consumption loops over captured frames: the analyzer
//! tallies how many frames of each IP protocol were seen, and the filter
//! keeps the frames that match a conjunction of optional address
//! predicates. The socket work — blocking for the next frame — is the
//! caller's; a truncated or malformed frame surfaces as a typed decode
//! error to report and skip, never as a crash of the loop.
//!
//! Neither loop validates an inbound header's checksum: checksums are
//! computed when building outgoing headers only, a deliberate decision
//! this crate keeps. The decoded checksum field is reported as read.

use vstd::prelude::*;

use crate::head::DecodeError;
use crate::head::EtherHdr;
use crate::head::Header;
use crate::head::IPHdr;
use crate::head::ip::IPHdrV;
use crate::head::ip::protocol_code;

verus! {

broadcast use vstd::array::group_array_axioms;

/// How many frames of each protocol were seen, indexed by the protocol's
/// 8-bit wire code. Owned by one analyze loop and grown in place; a count
/// sticks at its maximum rather than wrapping.
pub struct ProtocolTally {
    counts: Vec<u64>,
}

impl View for ProtocolTally {
    type V = Seq<u64>;

    closed spec fn view(&self) -> Seq<u64> {
        self.counts@
    }
}

impl ProtocolTally {
    #[verifier::type_invariant]
    spec fn inv(self) -> bool {
        self.counts@.len() == 256
    }

    /// A tally with every count zero.
    pub fn new() -> (r: Self)
        ensures
            r@ == Seq::new(256, |i: int| 0u64),
    {
        let mut counts: Vec<u64> = Vec::new();
        let mut k: usize = 0;
        while k < 256
            invariant
                k <= 256,
                counts@ =~= Seq::new(k as nat, |i: int| 0u64),
            decreases 256 - k,
        {
            counts.push(0);
            k = k + 1;
        }
        proof {
            assert(counts@ =~= Seq::new(256, |i: int| 0u64));
        }
        ProtocolTally { counts }
    }

    /// The count recorded for a protocol code.
    pub fn get(&self, code: u8) -> (r: u64)
        ensures
            r == self@[code as int],
    {
        proof {
            use_type_invariant(self);
        }
        self.counts[code as usize]
    }

    /// Count one more frame of the given protocol code; a count already at
    /// the maximum stays there.
    pub fn record(&mut self, code: u8)
        ensures
            final(self)@ == old(self)@.update(
                code as int,
                if old(self)@[code as int] < u64::MAX {
                    (old(self)@[code as int] + 1) as u64
                } else {
                    old(self)@[code as int]
                },
            ),
    {
        proof {
            use_type_invariant(&*self);
        }
        let idx = code as usize;
        let c = self.counts[idx];
        if c < u64::MAX {
            self.counts[idx] = c + 1;
        } else {
            proof {
                assert(old(self)@.update(code as int, c) =~= old(self)@);
            }
        }
    }
}

/// The analyzer loop's state: a protocol tally fed one captured frame at a
/// time.
pub struct FrameAnalyzer {
    pub tally: ProtocolTally,
}

impl FrameAnalyzer {
    /// An analyzer with an all-zero tally.
    pub fn new() -> (r: Self)
        ensures
            r.tally@ == Seq::new(256, |i: int| 0u64),
    {
        FrameAnalyzer { tally: ProtocolTally::new() }
    }

    /// Consume one captured frame: decode an Ethernet header then an IPv4
    /// header, and count the decoded protocol. A frame that does not decode
    /// leaves the tally unchanged and reports why, so the loop can skip it.
    pub fn ingest(&mut self, frame: &[u8]) -> (r: Result<(EtherHdr, IPHdr), DecodeError>)
        ensures
            match r {
                Ok((eth, ip)) => <(EtherHdr, IPHdr) as Header>::dec_model(frame@) matches Ok(
                    (m, n),
                ) && {
                    &&& m == (eth, ip)@
                    &&& final(self).tally@ == old(self).tally@.update(
                        protocol_code(ip@.protocol) as int,
                        if old(self).tally@[protocol_code(ip@.protocol) as int] < u64::MAX {
                            (old(self).tally@[protocol_code(ip@.protocol) as int] + 1) as u64
                        } else {
                            old(self).tally@[protocol_code(ip@.protocol) as int]
                        },
                    )
                },
                Err(e) => <(EtherHdr, IPHdr) as Header>::dec_model(frame@) matches Err(e2) && e2
                    == e && final(self).tally@ == old(self).tally@,
            },
    {
        match <(EtherHdr, IPHdr)>::from_bytes(frame) {
            Ok(((eth, ip), _rest)) => {
                let code = ip.protocol.code();
                self.tally.record(code);
                Ok((eth, ip))
            },
            Err(e) => Err(e),
        }
    }
}

/// The conjunctive frame predicate: each set field must equal the
/// corresponding decoded value; an unset field always matches.
#[derive(Debug, Clone, Copy, PartialEq, Eq)]
pub struct FrameFilter {
    pub src_mac: Option<[u8; 6]>,
    pub dst_mac: Option<[u8; 6]>,
    pub shost: Option<[u8; 4]>,
    pub dhost: Option<[u8; 4]>,
}

/// Whether a decoded frame passes the filter.
pub open spec fn filter_matches(f: FrameFilter, eth: EtherHdr, ip: IPHdrV) -> bool {
    &&& (f.src_mac matches Some(m) ==> m == eth.shost)
    &&& (f.dst_mac matches Some(m) ==> m == eth.dhost)
    &&& (f.shost matches Some(a) ==> a == ip.source)
    &&& (f.dhost matches Some(a) ==> a == ip.destinaiton)
}

/// Law: a filter with all four fields unset matches every decoded frame.
pub proof fn lemma_unset_filter_matches_all(eth: EtherHdr, ip: IPHdrV)
    ensures
        filter_matches(
            FrameFilter { src_mac: None, dst_mac: None, shost: None, dhost: None },
            eth,
            ip,
        ),
{
}

fn eq_mac(a: &[u8; 6], b: &[u8; 6]) -> (r: bool)
    ensures
        r == (*a == *b),
{
    let r = a[0] == b[0] && a[1] == b[1] && a[2] == b[2] && a[3] == b[3] && a[4] == b[4] && a[5]
        == b[5];
    proof {
        if r {
            assert(*a =~= *b);
        }
        if *a == *b {
            assert(*a =~= *b);
        }
    }
    r
}

fn eq_ip(a: &[u8; 4], b: &[u8; 4]) -> (r: bool)
    ensures
        r == (*a == *b),
{
    let r = a[0] == b[0] && a[1] == b[1] && a[2] == b[2] && a[3] == b[3];
    proof {
        if r {
            assert(*a =~= *b);
        }
        if *a == *b {
            assert(*a =~= *b);
        }
    }
    r
}

impl FrameFilter {
    /// A filter with all four fields unset, which matches every frame.
    pub fn new() -> (r: Self)
        ensures
            r == (FrameFilter { src_mac: None, dst_mac: None, shost: None, dhost: None }),
    {
        FrameFilter { src_mac: None, dst_mac: None, shost: None, dhost: None }
    }

    /// Whether decoded headers pass the filter.
    pub fn matches(&self, eth: &EtherHdr, ip: &IPHdr) -> (r: bool)
        ensures
            r == filter_matches(*self, *eth, ip@),
    {
        let smac_flag = match &self.src_mac {
            Some(m) => eq_mac(m, &eth.shost),
            None => true,
        };
        let dmac_flag = match &self.dst_mac {
            Some(m) => eq_mac(m, &eth.dhost),
            None => true,
        };
        let sip_flag = match &self.shost {
            Some(a) => eq_ip(a, &ip.source),
            None => true,
        };
        let dip_flag = match &self.dhost {
            Some(a) => eq_ip(a, &ip.destinaiton),
            None => true,
        };
        smac_flag && dmac_flag && sip_flag && dip_flag
    }

    /// Consume one captured frame: decode an Ethernet header then an IPv4
    /// header and apply the predicate. `Ok(Some(..))` hands back the decoded
    /// headers of a matching frame; `Ok(None)` is a frame that decoded but
    /// did not match; a frame that does not decode reports why, so the loop
    /// can skip it.
    pub fn check_frame(&self, frame: &[u8]) -> (r: Result<Option<(EtherHdr, IPHdr)>, DecodeError>)
        ensures
            match r {
                Ok(Some((eth, ip))) => <(EtherHdr, IPHdr) as Header>::dec_model(frame@) matches Ok(
                    (m, n),
                ) && m == (eth, ip)@ && filter_matches(*self, eth, ip@),
                Ok(None) => <(EtherHdr, IPHdr) as Header>::dec_model(frame@) matches Ok((m, n))
                    && !filter_matches(*self, m.0, m.1),
                Err(e) => <(EtherHdr, IPHdr) as Header>::dec_model(frame@) matches Err(e2) && e2
                    == e,
            },
    {
        match <(EtherHdr, IPHdr)>::from_bytes(frame) {
            Ok(((eth, ip), _rest)) => {
                if self.matches(&eth, &ip) {
                    Ok(Some((eth, ip)))
                } else {
                    Ok(None)
                }
            },
            Err(e) => Err(e),
        }
    }
}

} // verus!
