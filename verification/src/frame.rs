//! The send path's pure work: derive payload bytes from text, each
//! character read as one digit in a chosen radix, and build the complete
//! frame — Ethernet header, checksummed IPv4 header, payload — that a raw
//! socket transmits as it stands.

use vstd::prelude::*;

use crate::head::ether::EtherHdr;
use crate::head::ether::EtherKind;
use crate::head::ip::ip_checksummed;
use crate::head::ip::IPFlag;
use crate::head::ip::IPHdr;
use crate::head::ip::IPHdrV;
use crate::head::ip::Protocol;
use crate::head::Header;
use vstd::string::StrSliceExecFns;

verus! {

/// The value of one character as a digit in the given radix: decimal
/// digits, then letters of either case from 10 upward; nothing when the
/// character is no digit or its value reaches the radix. Meaningful for
/// radixes up to 36, the largest with digit characters.
pub open spec fn digit_of(c: char, radix: u32) -> Option<u8> {
    let n = c as u32;
    let v: u32 = if 48 <= n && n <= 57 {
        (n - 48) as u32
    } else if 97 <= n && n <= 122 {
        (n - 87) as u32
    } else if 65 <= n && n <= 90 {
        (n - 55) as u32
    } else {
        36u32
    };
    if v < radix && v < 36 {
        Some(v as u8)
    } else {
        None
    }
}

/// The payload that a text yields in the given radix: one byte per
/// character, or nothing as soon as any character is no digit below the
/// radix.
pub open spec fn payload_of(s: Seq<char>, radix: u32) -> Option<Seq<u8>>
    decreases s.len(),
{
    if s.len() == 0 {
        Some(Seq::<u8>::empty())
    } else {
        match digit_of(s[0], radix) {
            Some(d) => match payload_of(s.skip(1), radix) {
                Some(t) => Some(seq![d] + t),
                None => None,
            },
            None => None,
        }
    }
}

/// The payload exists exactly when every character is a digit below the
/// radix, and then holds each character's digit value in order.
pub proof fn lemma_payload_of_pointwise(s: Seq<char>, radix: u32)
    ensures
        payload_of(s, radix) is Some <==> (forall|j: int|
            0 <= j < s.len() ==> digit_of(s[j], radix) is Some),
        payload_of(s, radix) matches Some(p) ==> p.len() == s.len() && (forall|j: int|
            0 <= j < s.len() ==> Some(p[j]) == digit_of(s[j], radix)),
    decreases s.len(),
{
    if s.len() > 0 {
        let tail = s.skip(1);
        lemma_payload_of_pointwise(tail, radix);
        assert(forall|j: int| 0 <= j < tail.len() ==> tail[j] == s[j + 1]);
        match digit_of(s[0], radix) {
            Some(d) => {
                match payload_of(tail, radix) {
                    Some(t) => {
                        let p = (seq![d] + t);
                        assert forall|j: int| 0 <= j < s.len() implies Some(p[j]) == digit_of(
                            s[j],
                            radix,
                        ) by {
                            if j > 0 {
                                assert(p[j] == t[j - 1]);
                                assert(tail[j - 1] == s[j]);
                            }
                        }
                    },
                    None => {
                        assert(exists|j: int|
                            0 <= j < tail.len() && digit_of(tail[j], radix) is None);
                        let j0 = choose|j: int|
                            0 <= j < tail.len() && digit_of(tail[j], radix) is None;
                        assert(digit_of(s[j0 + 1], radix) is None);
                    },
                }
            },
            None => {},
        }
    }
}

fn digit(c: char, radix: u32) -> (r: Option<u8>)
    ensures
        r == digit_of(c, radix),
{
    let n = c as u32;
    let v: u32 = if 48 <= n && n <= 57 {
        n - 48
    } else if 97 <= n && n <= 122 {
        n - 87
    } else if 65 <= n && n <= 90 {
        n - 55
    } else {
        36
    };
    if v < radix && v < 36 {
        Some(v as u8)
    } else {
        None
    }
}

/// Read each character of `text` as one digit in `radix` and collect the
/// digit values as payload bytes; nothing as soon as a character is no
/// digit below the radix. The radix range is the one the digit characters
/// cover.
pub fn payload_from_text(text: &str, radix: u32) -> (r: Option<Vec<u8>>)
    requires
        2 <= radix && radix <= 36,
    ensures
        match r {
            Some(v) => payload_of(text@, radix) == Some(v@),
            None => payload_of(text@, radix) is None,
        },
{
    let n = text.unicode_len();
    let mut out: Vec<u8> = Vec::new();
    let mut i: usize = 0;
    while i < n
        invariant
            i <= n,
            n == text@.len(),
            out@.len() == i,
            forall|j: int| 0 <= j < i ==> digit_of(text@[j], radix) == Some(out@[j]),
        decreases n - i,
    {
        let c = text.get_char(i);
        match digit(c, radix) {
            Some(d) => {
                out.push(d);
                i = i + 1;
            },
            None => {
                proof {
                    lemma_payload_of_pointwise(text@, radix);
                }
                return None;
            },
        }
    }
    proof {
        lemma_payload_of_pointwise(text@, radix);
        let p = payload_of(text@, radix)->Some_0;
        assert(out@ =~= p);
    }
    Some(out)
}

/// The IPv4 header model the send path builds before checksumming: a fresh
/// header with the chosen identification, destination and protocol.
pub open spec fn send_header_model(ident: u16, dstip: [u8; 4], protocol: Protocol) -> IPHdrV {
    IPHdrV {
        version: 4,
        ihl: 20,
        tos: 0,
        totlen: 20,
        ident,
        flag: IPFlag { df: true, mf: false },
        offset: 0,
        ttl: 64,
        protocol,
        chksum: 0,
        source: [0u8, 0u8, 0u8, 0u8],
        destinaiton: dstip,
        opt_section: Seq::<u8>::empty(),
    }
}

/// The complete frame the send path transmits: Ethernet header, checksummed
/// IPv4 header, payload bytes.
pub open spec fn send_frame_bytes(
    ident: u16,
    dhost: [u8; 6],
    smac: [u8; 6],
    dstip: [u8; 4],
    protocol: Protocol,
    payload: Seq<u8>,
) -> Seq<u8> {
    EtherHdr::enc_model(EtherHdr { dhost, shost: smac, etype: EtherKind::IP }) + IPHdr::enc_model(
        ip_checksummed(send_header_model(ident, dstip, protocol)),
    ) + payload
}

/// Build a complete IP frame ready for a raw socket: an Ethernet header to
/// `dhost` from `smac`, a fresh IPv4 header with the given identification,
/// destination and protocol, checksummed, and the payload after it.
pub fn build_frame(
    ident: u16,
    dhost: [u8; 6],
    smac: [u8; 6],
    dstip: [u8; 4],
    protocol: Protocol,
    payload: &[u8],
) -> (r: Vec<u8>)
    ensures
        r@ == send_frame_bytes(ident, dhost, smac, dstip, protocol, payload@),
{
    let eth = EtherHdr { dhost, shost: smac, etype: EtherKind::IP };
    let ip = IPHdr::new(ident).destination(dstip).protocol(protocol).checksum();
    proof {
        assert(ip@ =~= ip_checksummed(send_header_model(ident, dstip, protocol)));
    }
    let mut out = eth.to_bytes();
    let mut ipb = ip.serialize();
    out.append(&mut ipb);
    out.extend_from_slice(payload);
    proof {
        assert(out@ =~= send_frame_bytes(ident, dhost, smac, dstip, protocol, payload@));
    }
    out
}

/// Derive the payload from `text` — each character one digit in `radix` —
/// and build the complete frame; nothing is built when a character is no
/// digit below the radix.
pub fn build_text_frame(
    ident: u16,
    dhost: [u8; 6],
    smac: [u8; 6],
    dstip: [u8; 4],
    protocol: Protocol,
    text: &str,
    radix: u32,
) -> (r: Option<Vec<u8>>)
    requires
        2 <= radix && radix <= 36,
    ensures
        match r {
            Some(v) => payload_of(text@, radix) matches Some(p) && v@ == send_frame_bytes(
                ident,
                dhost,
                smac,
                dstip,
                protocol,
                p,
            ),
            None => payload_of(text@, radix) is None,
        },
{
    match payload_from_text(text, radix) {
        Some(payload) => Some(build_frame(ident, dhost, smac, dstip, protocol, payload.as_slice())),
        None => None,
    }
}

} // verus!
