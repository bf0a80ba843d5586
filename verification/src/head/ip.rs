//! The IPv4 header: a 20-byte fixed prefix with bit-packed version/IHL and
//! flags/fragment-offset fields, followed by an options section whose length
//! the IHL field states in 4-byte words. Values are built through chained
//! setters; `checksum` stores the one's-complement checksum of the header
//! bytes (options included, payload excluded).

use vstd::prelude::*;

use super::be16;
use super::word16;
use super::DecodeError;
use super::Header;
use crate::checksum::checksum;
use crate::checksum::checksum_spec;
use crate::checksum::fold_carries;
use crate::checksum::lemma_complement_folds;
use crate::checksum::lemma_fold_carries_value;
use crate::checksum::lemma_sum_words_append;
use crate::checksum::lemma_sum_words_nonneg;
use crate::checksum::sum_words;
use vstd::slice::slice_subrange;
use vstd::slice::slice_to_vec;

verus! {

/// Build a 4-byte array from the first four bytes of a sequence.
pub open spec fn arr4(s: Seq<u8>) -> [u8; 4] {
    [s[0], s[1], s[2], s[3]]
}

/// The two fragmentation flag bits of an IPv4 header.
#[derive(Debug, Clone, Copy, PartialEq, Eq, Structural)]
pub struct IPFlag {
    /// Don't-fragment: bit 6 of the sixth header byte.
    pub df: bool,
    /// More-fragments: bit 5 of the sixth header byte.
    pub mf: bool,
}

/// The protocol carried in an IPv4 packet, as named kinds for the three
/// codes this crate acts on and the raw code otherwise.
#[derive(Debug, Clone, Copy, PartialEq, Eq, Hash, Structural)]
pub enum Protocol {
    TCP,
    UDP,
    ICMP,
    Other(u8),
}

/// The wire code of a protocol kind.
pub open spec fn protocol_code(p: Protocol) -> u8 {
    match p {
        Protocol::ICMP => 1,
        Protocol::TCP => 6,
        Protocol::UDP => 17,
        Protocol::Other(n) => n,
    }
}

/// The kind that a raw protocol code decodes to.
pub open spec fn protocol_of(n: u8) -> Protocol {
    if n == 1 {
        Protocol::ICMP
    } else if n == 6 {
        Protocol::TCP
    } else if n == 17 {
        Protocol::UDP
    } else {
        Protocol::Other(n)
    }
}

/// An `Other` kind never carries one of the three named codes.
pub open spec fn protocol_wf(p: Protocol) -> bool {
    p matches Protocol::Other(n) ==> n != 1 && n != 6 && n != 17
}

impl Protocol {
    /// The wire code of this protocol kind.
    pub fn code(self) -> (r: u8)
        ensures
            r == protocol_code(self),
    {
        match self {
            Protocol::ICMP => 1,
            Protocol::TCP => 6,
            Protocol::UDP => 17,
            Protocol::Other(n) => n,
        }
    }
}

impl Default for Protocol {
    /// The default protocol is ICMP.
    fn default() -> (r: Self)
        ensures
            r == Protocol::ICMP,
    {
        Protocol::ICMP
    }
}

/// An IPv4 header. `ihl` holds the header length in bytes (the wire field
/// stores it in 4-byte words); `opt_section` holds the options bytes, whose
/// length `ihl` exceeds 20 by.
#[derive(Debug, Clone, PartialEq, Eq)]
pub struct IPHdr {
    pub version: u8,
    pub ihl: u8,
    pub tos: u8,
    pub totlen: u16,
    pub ident: u16,
    pub flag: IPFlag,
    pub offset: u16,
    pub ttl: u8,
    pub protocol: Protocol,
    pub chksum: u16,
    pub source: [u8; 4],
    pub destinaiton: [u8; 4],
    pub opt_section: Vec<u8>,
}

/// The mathematical model of an IPv4 header: every field a plain value, the
/// options as a byte sequence.
#[verifier::ext_equal]
pub ghost struct IPHdrV {
    pub version: u8,
    pub ihl: u8,
    pub tos: u8,
    pub totlen: u16,
    pub ident: u16,
    pub flag: IPFlag,
    pub offset: u16,
    pub ttl: u8,
    pub protocol: Protocol,
    pub chksum: u16,
    pub source: [u8; 4],
    pub destinaiton: [u8; 4],
    pub opt_section: Seq<u8>,
}

impl View for IPHdr {
    type V = IPHdrV;

    open spec fn view(&self) -> IPHdrV {
        IPHdrV {
            version: self.version,
            ihl: self.ihl,
            tos: self.tos,
            totlen: self.totlen,
            ident: self.ident,
            flag: self.flag,
            offset: self.offset,
            ttl: self.ttl,
            protocol: self.protocol,
            chksum: self.chksum,
            source: self.source,
            destinaiton: self.destinaiton,
            opt_section: self.opt_section@,
        }
    }
}

/// The sixth header byte: the two flag bits packed above the top 5 bits of
/// the 13-bit fragment offset.
pub open spec fn flag_bits(f: IPFlag, offset: u16) -> u8 {
    ((if f.df {
        0x40int
    } else {
        0int
    }) + (if f.mf {
        0x20int
    } else {
        0int
    }) + offset as int / 256) as u8
}

/// The header bytes before the checksum field: version/IHL, type of
/// service, total length, identification, flags/fragment offset, TTL and
/// protocol code.
pub open spec fn ip_enc_pre(m: IPHdrV) -> Seq<u8> {
    seq![(m.version * 16 + m.ihl / 4) as u8, m.tos] + be16(m.totlen) + be16(m.ident) + seq![
        flag_bits(m.flag, m.offset),
        (m.offset % 256) as u8,
    ] + seq![m.ttl, protocol_code(m.protocol)]
}

/// The header bytes after the checksum field: the two addresses and the
/// options section.
pub open spec fn ip_enc_post(m: IPHdrV) -> Seq<u8> {
    m.source@ + m.destinaiton@ + m.opt_section
}

impl Header for IPHdr {
    /// Version and header length fit their 4-bit wire fields, the header
    /// length states exactly 20 bytes plus the options length (itself a
    /// multiple of 4), the fragment offset fits its 13 bits, and the
    /// protocol kind is canonical.
    open spec fn wf_model(m: IPHdrV) -> bool {
        &&& m.version < 16
        &&& m.ihl == 20 + m.opt_section.len()
        &&& m.ihl <= 60
        &&& m.opt_section.len() % 4 == 0
        &&& m.offset < 0x2000
        &&& protocol_wf(m.protocol)
    }

    open spec fn enc_model(m: IPHdrV) -> Seq<u8> {
        ip_enc_pre(m) + be16(m.chksum) + ip_enc_post(m)
    }

    open spec fn dec_model(b: Seq<u8>) -> Result<(IPHdrV, int), DecodeError> {
        if b.len() < 20 {
            Err(DecodeError::Truncated)
        } else {
            let ihl = (b[0] % 16) * 4;
            if ihl < 20 {
                Err(DecodeError::BadLength)
            } else if b.len() < ihl {
                Err(DecodeError::Truncated)
            } else {
                Ok(
                    (
                        IPHdrV {
                            version: (b[0] / 16) as u8,
                            ihl: ihl as u8,
                            tos: b[1],
                            totlen: word16(b[2], b[3]),
                            ident: word16(b[4], b[5]),
                            flag: IPFlag {
                                df: (b[6] / 64) % 2 == 1,
                                mf: (b[6] / 32) % 2 == 1,
                            },
                            offset: ((b[6] % 32) * 256 + b[7]) as u16,
                            ttl: b[8],
                            protocol: protocol_of(b[9]),
                            chksum: word16(b[10], b[11]),
                            source: arr4(b.subrange(12, 16)),
                            destinaiton: arr4(b.subrange(16, 20)),
                            opt_section: b.subrange(20, ihl as int),
                        },
                        ihl as int,
                    ),
                )
            }
        }
    }

    fn from_bytes(bytes: &[u8]) -> (r: Result<(Self, &[u8]), DecodeError>) {
        if bytes.len() < 20 {
            return Err(DecodeError::Truncated);
        }
        let b0 = bytes[0];
        let version = b0 / 16;
        let ihl: u8 = (b0 % 16) * 4;
        if ihl < 20 {
            return Err(DecodeError::BadLength);
        }
        if bytes.len() < ihl as usize {
            return Err(DecodeError::Truncated);
        }
        let tos = bytes[1];
        let totlen: u16 = (bytes[2] as u16) * 256 + (bytes[3] as u16);
        let ident: u16 = (bytes[4] as u16) * 256 + (bytes[5] as u16);
        let b6 = bytes[6];
        let flag = IPFlag { df: (b6 / 64) % 2 == 1, mf: (b6 / 32) % 2 == 1 };
        let offset: u16 = ((b6 % 32) as u16) * 256 + (bytes[7] as u16);
        let ttl = bytes[8];
        let pcode = bytes[9];
        let protocol = if pcode == 1 {
            Protocol::ICMP
        } else if pcode == 6 {
            Protocol::TCP
        } else if pcode == 17 {
            Protocol::UDP
        } else {
            Protocol::Other(pcode)
        };
        let chksum: u16 = (bytes[10] as u16) * 256 + (bytes[11] as u16);
        let source: [u8; 4] = [bytes[12], bytes[13], bytes[14], bytes[15]];
        let destinaiton: [u8; 4] = [bytes[16], bytes[17], bytes[18], bytes[19]];
        let opt_section = slice_to_vec(slice_subrange(bytes, 20, ihl as usize));
        let rest = slice_subrange(bytes, ihl as usize, bytes.len());
        let h = IPHdr {
            version,
            ihl,
            tos,
            totlen,
            ident,
            flag,
            offset,
            ttl,
            protocol,
            chksum,
            source,
            destinaiton,
            opt_section,
        };
        proof {
            assert(source@ =~= bytes@.subrange(12, 16));
            assert(destinaiton@ =~= bytes@.subrange(16, 20));
            assert(source@ =~= arr4(bytes@.subrange(12, 16))@);
            assert(destinaiton@ =~= arr4(bytes@.subrange(16, 20))@);
            assert(h@ =~= IPHdr::dec_model(bytes@)->Ok_0.0);
        }
        Ok((h, rest))
    }

    fn to_bytes(self) -> (r: Vec<u8>) {
        self.serialize()
    }

    /// Every field comes back bit for bit, the stored checksum field
    /// included, and exactly the header-length bytes are consumed.
    proof fn lemma_round_trip(m: IPHdrV, tail: Seq<u8>) {
        let b = Self::enc_model(m) + tail;
        assert(b.len() >= 20);
        assert(b[0] == (m.version * 16 + m.ihl / 4) as u8);
        assert(m.ihl / 4 < 16 && m.ihl % 4 == 0);
        assert(b[0] / 16 == m.version && (b[0] % 16) * 4 == m.ihl);
        let b6 = flag_bits(m.flag, m.offset);
        assert(b[6] == b6 && b[7] == (m.offset % 256) as u8);
        assert((b6 / 64) % 2 == 1 <==> m.flag.df);
        assert((b6 / 32) % 2 == 1 <==> m.flag.mf);
        assert(b6 % 32 == m.offset / 256);
        assert((b6 % 32) * 256 + b[7] == m.offset);
        assert(word16(b[2], b[3]) == m.totlen && word16(b[4], b[5]) == m.ident);
        assert(word16(b[10], b[11]) == m.chksum);
        assert(b[8] == m.ttl && b[9] == protocol_code(m.protocol));
        assert(protocol_of(protocol_code(m.protocol)) == m.protocol);
        assert(b.subrange(12, 16) =~= m.source@);
        assert(b.subrange(16, 20) =~= m.destinaiton@);
        assert(arr4(b.subrange(12, 16))@ =~= m.source@);
        assert(arr4(b.subrange(16, 20))@ =~= m.destinaiton@);
        assert(arr4(b.subrange(12, 16)) == m.source);
        assert(arr4(b.subrange(16, 20)) == m.destinaiton);
        assert(b.subrange(20, m.ihl as int) =~= m.opt_section);
        assert(Self::dec_model(b)->Ok_0.0 =~= m);
        assert(Self::enc_model(m).len() == m.ihl as int);
    }
}

/// What serialization alone needs of a model: version and header length
/// fit their 4-bit wire fields and the fragment offset fits its 13 bits.
/// Well-formedness implies this; a header built for sending satisfies it
/// whatever protocol kind it carries.
pub open spec fn ip_encodable(m: IPHdrV) -> bool {
    m.version < 16 && m.ihl <= 60 && m.offset < 0x2000
}

/// The model after `checksum()`: the checksum field holds the
/// one's-complement checksum of the header serialized with a zeroed
/// checksum field.
pub open spec fn ip_checksummed(m: IPHdrV) -> IPHdrV {
    IPHdrV { chksum: checksum_spec(IPHdr::enc_model(IPHdrV { chksum: 0, ..m })), ..m }
}

/// A sequence of `n` zero bytes.
pub open spec fn zero_bytes(n: nat) -> Seq<u8> {
    Seq::new(n, |i: int| 0u8)
}

/// A byte sequence zero-padded up to the next multiple of 4.
pub open spec fn pad4(opts: Seq<u8>) -> Seq<u8> {
    if opts.len() % 4 == 0 {
        opts
    } else {
        opts + zero_bytes((4 - opts.len() % 4) as nat)
    }
}

/// The model after `append_opt`: the padded bytes become the options
/// section and the header and total lengths grow by the padded length.
pub open spec fn ip_appended(m: IPHdrV, opts: Seq<u8>) -> IPHdrV {
    IPHdrV {
        ihl: (m.ihl + pad4(opts).len()) as u8,
        totlen: (m.totlen + pad4(opts).len()) as u16,
        opt_section: pad4(opts),
        ..m
    }
}

impl IPHdr {
    /// A fresh header carrying the given identification: version 4, header
    /// length 20 with no options, don't-fragment set, TTL 64, total length
    /// 20, protocol ICMP, everything else zero.
    pub fn new(ident: u16) -> (r: Self)
        ensures
            r@ == (IPHdrV {
                version: 4,
                ihl: 20,
                tos: 0,
                totlen: 20,
                ident,
                flag: IPFlag { df: true, mf: false },
                offset: 0,
                ttl: 64,
                protocol: Protocol::ICMP,
                chksum: 0,
                source: [0u8, 0u8, 0u8, 0u8],
                destinaiton: [0u8, 0u8, 0u8, 0u8],
                opt_section: Seq::<u8>::empty(),
            }),
            Self::wf_model(r@),
    {
        let r = IPHdr {
            version: 4,
            ihl: 20,
            tos: 0,
            totlen: 20,
            ident,
            flag: IPFlag { df: true, mf: false },
            offset: 0,
            ttl: 64,
            protocol: Protocol::ICMP,
            chksum: 0,
            source: [0, 0, 0, 0],
            destinaiton: [0, 0, 0, 0],
            opt_section: Vec::new(),
        };
        proof {
            assert(r.opt_section@ =~= Seq::<u8>::empty());
        }
        r
    }

    /// Replace the time-to-live.
    pub fn ttl(self, ttl: u8) -> (r: Self)
        ensures
            r@ == (IPHdrV { ttl, ..self@ }),
    {
        IPHdr { ttl, ..self }
    }

    /// Replace the protocol.
    pub fn protocol(self, protocol: Protocol) -> (r: Self)
        ensures
            r@ == (IPHdrV { protocol, ..self@ }),
    {
        IPHdr { protocol, ..self }
    }

    /// Replace the destination address.
    pub fn destination(self, addr: [u8; 4]) -> (r: Self)
        ensures
            r@ == (IPHdrV { destinaiton: addr, ..self@ }),
    {
        IPHdr { destinaiton: addr, ..self }
    }

    /// The checksum field as stored; valid only right after `checksum()`.
    pub fn get_chksum(&self) -> (r: u16)
        ensures
            r == self.chksum,
    {
        self.chksum
    }

    /// Serialize the header without consuming it.
    pub fn serialize(&self) -> (r: Vec<u8>)
        requires
            ip_encodable(self@),
        ensures
            r@ == Self::enc_model(self@),
    {
        let mut v: Vec<u8> = Vec::new();
        v.push(self.version * 16 + self.ihl / 4);
        v.push(self.tos);
        v.push((self.totlen / 256) as u8);
        v.push((self.totlen % 256) as u8);
        v.push((self.ident / 256) as u8);
        v.push((self.ident % 256) as u8);
        let mut b6: u8 = (self.offset / 256) as u8;
        if self.flag.df {
            b6 = b6 + 0x40;
        }
        if self.flag.mf {
            b6 = b6 + 0x20;
        }
        v.push(b6);
        v.push((self.offset % 256) as u8);
        v.push(self.ttl);
        v.push(self.protocol.code());
        v.push((self.chksum / 256) as u8);
        v.push((self.chksum % 256) as u8);
        v.extend_from_slice(self.source.as_slice());
        v.extend_from_slice(self.destinaiton.as_slice());
        v.extend_from_slice(self.opt_section.as_slice());
        proof {
            assert(b6 == flag_bits(self.flag, self.offset));
            assert(v@ =~= Self::enc_model(self@));
        }
        v
    }

    /// Zero the checksum field, serialize the header (options included,
    /// payload excluded), and store the one's-complement checksum of those
    /// bytes. Any later field change invalidates the stored value.
    pub fn checksum(self) -> (r: Self)
        requires
            ip_encodable(self@),
        ensures
            r@ == ip_checksummed(self@),
    {
        let zeroed = IPHdr { chksum: 0, ..self };
        let bytes = zeroed.serialize();
        let sum = checksum(bytes.as_slice());
        IPHdr { chksum: sum, ..zeroed }
    }

    /// Zero-pad the given bytes up to the next multiple of 4, store them as
    /// the options section, and grow the header length and total length by
    /// the padded byte count.
    pub fn append_opt(self, opt_section: Vec<u8>) -> (r: Self)
        requires
            self.ihl + pad4(opt_section@).len() <= 0xff,
            self.totlen + pad4(opt_section@).len() <= 0xffff,
        ensures
            r@ == ip_appended(self@, opt_section@),
    {
        let ghost given = opt_section@;
        let mut opts = opt_section;
        let rem = opts.len() % 4;
        if rem > 0 {
            let pad: usize = 4 - rem;
            let mut k: usize = 0;
            while k < pad
                invariant
                    k <= pad,
                    pad == 4 - given.len() % 4,
                    given.len() % 4 != 0,
                    opts@ =~= given + zero_bytes(k as nat),
                decreases pad - k,
            {
                opts.push(0);
                k = k + 1;
            }
        }
        proof {
            assert(opts@ =~= pad4(given));
        }
        let padded = opts.len();
        let r = IPHdr {
            ihl: self.ihl + (padded as u8),
            totlen: self.totlen + (padded as u16),
            opt_section: opts,
            ..self
        };
        proof {
            assert(r@ =~= ip_appended(self@, given));
        }
        r
    }
}

/// The word sum of an encoded header is the checksum field plus the word
/// sums of the bytes before and after it.
proof fn lemma_ip_enc_sum(m: IPHdrV)
    ensures
        sum_words(IPHdr::enc_model(m)) == sum_words(ip_enc_pre(m)) + m.chksum + sum_words(
            ip_enc_post(m),
        ),
{
    assert(IPHdr::enc_model(m) =~= ip_enc_pre(m) + (be16(m.chksum) + ip_enc_post(m)));
    assert(ip_enc_pre(m).len() == 10);
    lemma_sum_words_append(ip_enc_pre(m), be16(m.chksum) + ip_enc_post(m));
    lemma_sum_words_append(be16(m.chksum), ip_enc_post(m));
    assert(be16(m.chksum).skip(2) =~= Seq::<u8>::empty());
    assert(sum_words(Seq::<u8>::empty()) == 0);
    assert(be16(m.chksum)[0] == (m.chksum / 256) as u8);
    assert(be16(m.chksum)[1] == (m.chksum % 256) as u8);
    assert(sum_words(be16(m.chksum)) == m.chksum);
}

/// Law: checksum self-consistency. After `checksum()`, summing all 16-bit
/// words of the serialized header (checksum field included) and folding the
/// carries yields exactly 0xffff.
pub proof fn lemma_ip_checksum_folds(m: IPHdrV)
    ensures
        fold_carries(sum_words(IPHdr::enc_model(ip_checksummed(m))) as nat) == 0xffff,
{
    let m0 = IPHdrV { chksum: 0, ..m };
    let mc = ip_checksummed(m);
    lemma_ip_enc_sum(m0);
    lemma_ip_enc_sum(mc);
    assert(ip_enc_pre(mc) =~= ip_enc_pre(m0));
    assert(ip_enc_post(mc) =~= ip_enc_post(m0));
    let s0 = sum_words(IPHdr::enc_model(m0));
    lemma_sum_words_nonneg(IPHdr::enc_model(m0));
    lemma_fold_carries_value(s0 as nat);
    let f = fold_carries(s0 as nat);
    assert(mc.chksum == (0xffff - f) as u16);
    assert(sum_words(IPHdr::enc_model(mc)) == s0 + 0xffff - f);
    lemma_complement_folds(s0);
}

} // verus!
