//! The ICMP header: type, code and checksum in 4 bytes, followed by an
//! identifier/sequence pair exactly when the type belongs to the
//! echo/timestamp/info/mask/router-advertisement family. The checksum covers
//! the header bytes and the trailing payload, unlike IPv4's header-only
//! scope.

use vstd::prelude::*;

use super::be16;
use super::word16;
use super::DecodeError;
use super::Header;
use crate::checksum::checksum;
use crate::checksum::checksum_spec;
use crate::checksum::fold_carries;
use crate::checksum::lemma_complement_folds;
use crate::checksum::lemma_fold_carries_value;
use crate::checksum::lemma_sum_words_append;
use crate::checksum::lemma_sum_words_nonneg;
use crate::checksum::sum_words;
use vstd::slice::slice_subrange;

verus! {

/// The identifier/sequence pair that the echo-style ICMP types carry.
#[derive(Debug, Clone, Copy, PartialEq, Eq, Structural)]
pub struct Ping {
    pub ident: u16,
    pub seqnum: u16,
}

/// An ICMP header; `msg` holds the identifier/sequence pair for the types
/// that have one.
#[derive(Debug, Clone, Copy, PartialEq, Eq, Structural)]
pub struct ICMP {
    pub typ: u8,
    pub code: u8,
    pub chksum: u16,
    pub msg: Option<Ping>,
}

/// Whether an ICMP type carries an identifier/sequence pair: the
/// echo/timestamp/info/mask/router-advertisement family.
pub open spec fn has_ident_pair(typ: u8) -> bool {
    typ == 0 || typ == 8 || typ == 9 || typ == 10 || (13 <= typ && typ <= 18)
}

impl View for ICMP {
    type V = ICMP;

    open spec fn view(&self) -> ICMP {
        *self
    }
}

impl Header for ICMP {
    /// The pair is present exactly when the type implies one, so the
    /// encoded length matches what a decode of the same bytes reads back.
    open spec fn wf_model(m: ICMP) -> bool {
        m.msg is Some <==> has_ident_pair(m.typ)
    }

    open spec fn enc_model(m: ICMP) -> Seq<u8> {
        match m.msg {
            Some(p) => seq![m.typ, m.code] + be16(m.chksum) + be16(p.ident) + be16(p.seqnum),
            None => seq![m.typ, m.code] + be16(m.chksum),
        }
    }

    open spec fn dec_model(b: Seq<u8>) -> Result<(ICMP, int), DecodeError> {
        if b.len() < 4 {
            Err(DecodeError::Truncated)
        } else if has_ident_pair(b[0]) {
            if b.len() < 8 {
                Err(DecodeError::Truncated)
            } else {
                Ok(
                    (
                        ICMP {
                            typ: b[0],
                            code: b[1],
                            chksum: word16(b[2], b[3]),
                            msg: Some(Ping { ident: word16(b[4], b[5]), seqnum: word16(b[6], b[7]) }),
                        },
                        8,
                    ),
                )
            }
        } else {
            Ok((ICMP { typ: b[0], code: b[1], chksum: word16(b[2], b[3]), msg: None }, 4))
        }
    }

    fn from_bytes(bytes: &[u8]) -> (r: Result<(Self, &[u8]), DecodeError>) {
        if bytes.len() < 4 {
            return Err(DecodeError::Truncated);
        }
        let typ = bytes[0];
        let code = bytes[1];
        let chksum: u16 = (bytes[2] as u16) * 256 + (bytes[3] as u16);
        if typ == 0 || typ == 8 || typ == 9 || typ == 10 || (13 <= typ && typ <= 18) {
            if bytes.len() < 8 {
                return Err(DecodeError::Truncated);
            }
            let ident: u16 = (bytes[4] as u16) * 256 + (bytes[5] as u16);
            let seqnum: u16 = (bytes[6] as u16) * 256 + (bytes[7] as u16);
            let rest = slice_subrange(bytes, 8, bytes.len());
            Ok((ICMP { typ, code, chksum, msg: Some(Ping { ident, seqnum }) }, rest))
        } else {
            let rest = slice_subrange(bytes, 4, bytes.len());
            Ok((ICMP { typ, code, chksum, msg: None }, rest))
        }
    }

    fn to_bytes(self) -> (r: Vec<u8>) {
        let mut v: Vec<u8> = Vec::new();
        v.push(self.typ);
        v.push(self.code);
        v.push((self.chksum / 256) as u8);
        v.push((self.chksum % 256) as u8);
        if let Some(msg) = self.msg {
            v.push((msg.ident / 256) as u8);
            v.push((msg.ident % 256) as u8);
            v.push((msg.seqnum / 256) as u8);
            v.push((msg.seqnum % 256) as u8);
            proof {
                assert(v@ =~= ICMP::enc_model(self@));
            }
        } else {
            proof {
                assert(v@ =~= ICMP::enc_model(self@));
            }
        }
        v
    }

    /// The same header comes back whether the type implies an
    /// identifier/sequence pair or not, and exactly the encoded bytes are
    /// consumed.
    proof fn lemma_round_trip(m: ICMP, tail: Seq<u8>) {
        let b = Self::enc_model(m) + tail;
        let c = m.chksum;
        assert(b[0] == m.typ && b[1] == m.code);
        assert(b[2] == (c / 256) as u8 && b[3] == (c % 256) as u8);
        assert(word16((c / 256) as u8, (c % 256) as u8) == c);
        match m.msg {
            Some(p) => {
                assert(b[4] == (p.ident / 256) as u8 && b[5] == (p.ident % 256) as u8);
                assert(b[6] == (p.seqnum / 256) as u8 && b[7] == (p.seqnum % 256) as u8);
                assert(word16(b[4], b[5]) == p.ident && word16(b[6], b[7]) == p.seqnum);
            },
            None => {},
        }
    }
}

/// The model of an ICMP header after `checksum(data)`: the checksum field
/// holds the one's-complement sum of the header (checksum zeroed) followed
/// by the payload.
pub open spec fn icmp_checksummed(m: ICMP, data: Seq<u8>) -> ICMP {
    ICMP { chksum: checksum_spec(ICMP::enc_model(ICMP { chksum: 0, ..m }) + data), ..m }
}

impl ICMP {
    /// A header of the given type and code, checksum zero, no
    /// identifier/sequence pair yet.
    pub fn new(typ: u8, code: u8) -> (r: Self)
        ensures
            r == (ICMP { typ, code, chksum: 0, msg: None }),
    {
        ICMP { typ, code, chksum: 0, msg: None }
    }

    /// Set the identifier, keeping a sequence number already present and
    /// starting from zero otherwise.
    pub fn with_ident(self, ident: u16) -> (r: Self)
        ensures
            r == (ICMP {
                msg: Some(
                    Ping { ident, seqnum: if self.msg is Some { self.msg->0.seqnum } else { 0 } },
                ),
                ..self
            }),
    {
        let seqnum = match self.msg {
            Some(msg) => msg.seqnum,
            None => 0,
        };
        ICMP { msg: Some(Ping { ident, seqnum }), ..self }
    }

    /// Set the sequence number, keeping an identifier already present and
    /// starting from zero otherwise.
    pub fn with_seqnum(self, seqnum: u16) -> (r: Self)
        ensures
            r == (ICMP {
                msg: Some(
                    Ping { ident: if self.msg is Some { self.msg->0.ident } else { 0 }, seqnum },
                ),
                ..self
            }),
    {
        let ident = match self.msg {
            Some(msg) => msg.ident,
            None => 0,
        };
        ICMP { msg: Some(Ping { ident, seqnum }), ..self }
    }

    /// Zero the checksum field, serialize the header, append the payload,
    /// and store the one's-complement checksum of the whole.
    pub fn checksum(self, data: &[u8]) -> (r: Self)
        requires
            Self::wf_model(self@),
        ensures
            r == icmp_checksummed(self, data@),
    {
        let zeroed = ICMP { chksum: 0, ..self };
        let mut bytes = zeroed.to_bytes();
        bytes.extend_from_slice(data);
        proof {
            assert(bytes@ =~= ICMP::enc_model(ICMP { chksum: 0, ..self }) + data@);
        }
        let sum = checksum(bytes.as_slice());
        ICMP { chksum: sum, ..self }
    }
}

/// The human-readable description of an ICMP type/code pair.
pub open spec fn typ_dsc_spec(typ: u8, code: u8) -> Seq<char> {
    match (typ, code) {
        (0u8, 0u8) => "回显应答（ping应答）"@,
        (8u8, 0u8) => "请求回显（ping请求）"@,
        (9u8, 0u8) => "路由器通告"@,
        (10u8, 0u8) => "路由器请求"@,
        (13u8, 0u8) => "时间戳请求（目前已不使用）"@,
        (14u8, 0u8) => "时间戳应答（目前已不使用）"@,
        (15u8, 0u8) => "信息请求（目前已不使用）"@,
        (16u8, 0u8) => "信息应答（目前已不使用）"@,
        (17u8, 0u8) => "地址掩码请求"@,
        (18u8, 0u8) => "地址掩码应答"@,
        (3u8, 0u8) => "网络不可达"@,
        (3u8, 1u8) => "主机不可达"@,
        (3u8, 2u8) => "协议不可达"@,
        (3u8, 3u8) => "端口不可达"@,
        (3u8, 6u8) => "目的网络不认识"@,
        (3u8, 7u8) => "目的主机不认识"@,
        (3u8, 9u8) => "目的网络被强制禁止"@,
        (3u8, 10u8) => "目的主机被强制隔离"@,
        (3u8, 11u8) => "由于TOS,网络不可达"@,
        (3u8, 12u8) => "由于TOS,主机不可达"@,
        (3u8, 13u8) => "由于过滤，通信被强制禁止"@,
        (4u8, 0u8) => "源端被关闭"@,
        (5u8, 0u8) => "对网络重定向"@,
        (5u8, 1u8) => "对主机重定向"@,
        (5u8, 2u8) => "对服务类型和网络重定向"@,
        (5u8, 3u8) => "对服务类型和主机重定向"@,
        (11u8, 0u8) => "传输期间生存时间为0"@,
        (11u8, 1u8) => "在数据报组装期间生存时间为0"@,
        (12u8, 0u8) => "坏的IP首部"@,
        (12u8, 1u8) => "缺少必须的选项"@,
        _ => "未定义"@,
    }
}

impl ICMP {
    /// The human-readable description of this header's type and code.
    pub fn typ_dsc(&self) -> (r: String)
        ensures
            r@ == typ_dsc_spec(self.typ, self.code),
    {
        let s: &str = match (self.typ, self.code) {
            (0, 0) => "回显应答（ping应答）",
            (8, 0) => "请求回显（ping请求）",
            (9, 0) => "路由器通告",
            (10, 0) => "路由器请求",
            (13, 0) => "时间戳请求（目前已不使用）",
            (14, 0) => "时间戳应答（目前已不使用）",
            (15, 0) => "信息请求（目前已不使用）",
            (16, 0) => "信息应答（目前已不使用）",
            (17, 0) => "地址掩码请求",
            (18, 0) => "地址掩码应答",
            (3, 0) => "网络不可达",
            (3, 1) => "主机不可达",
            (3, 2) => "协议不可达",
            (3, 3) => "端口不可达",
            (3, 6) => "目的网络不认识",
            (3, 7) => "目的主机不认识",
            (3, 9) => "目的网络被强制禁止",
            (3, 10) => "目的主机被强制隔离",
            (3, 11) => "由于TOS,网络不可达",
            (3, 12) => "由于TOS,主机不可达",
            (3, 13) => "由于过滤，通信被强制禁止",
            (4, 0) => "源端被关闭",
            (5, 0) => "对网络重定向",
            (5, 1) => "对主机重定向",
            (5, 2) => "对服务类型和网络重定向",
            (5, 3) => "对服务类型和主机重定向",
            (11, 0) => "传输期间生存时间为0",
            (11, 1) => "在数据报组装期间生存时间为0",
            (12, 0) => "坏的IP首部",
            (12, 1) => "缺少必须的选项",
            _ => "未定义",
        };
        s.to_owned()
    }
}

/// The encoded bytes after the checksum field: the identifier/sequence pair
/// when present, nothing otherwise.
pub open spec fn icmp_tail(m: ICMP) -> Seq<u8> {
    match m.msg {
        Some(p) => be16(p.ident) + be16(p.seqnum),
        None => Seq::<u8>::empty(),
    }
}

/// The word sum of an encoded header plus payload is the checksum field
/// plus the word sums of everything around it.
proof fn lemma_icmp_enc_sum(m: ICMP, data: Seq<u8>)
    ensures
        sum_words(ICMP::enc_model(m) + data) == m.typ * 256 + m.code + m.chksum + sum_words(
            icmp_tail(m) + data,
        ),
{
    assert(ICMP::enc_model(m) + data =~= (seq![m.typ, m.code] + be16(m.chksum)) + (icmp_tail(m)
        + data));
    let h4 = seq![m.typ, m.code] + be16(m.chksum);
    assert(h4.len() == 4);
    lemma_sum_words_append(h4, icmp_tail(m) + data);
    assert(h4.skip(2) =~= be16(m.chksum));
    assert(be16(m.chksum).skip(2) =~= Seq::<u8>::empty());
    assert(sum_words(Seq::<u8>::empty()) == 0);
    assert(sum_words(be16(m.chksum)) == m.chksum);
    assert(sum_words(h4) == m.typ * 256 + m.code + m.chksum);
}

/// Law: checksum self-consistency. After `checksum(data)`, summing all
/// 16-bit words of the serialized header followed by that payload
/// (checksum field included) and folding the carries yields exactly 0xffff.
pub proof fn lemma_icmp_checksum_folds(m: ICMP, data: Seq<u8>)
    ensures
        fold_carries(sum_words(ICMP::enc_model(icmp_checksummed(m, data)) + data) as nat)
            == 0xffff,
{
    let m0 = ICMP { chksum: 0, ..m };
    let mc = icmp_checksummed(m, data);
    lemma_icmp_enc_sum(m0, data);
    lemma_icmp_enc_sum(mc, data);
    assert(icmp_tail(mc) =~= icmp_tail(m0));
    let s0 = sum_words(ICMP::enc_model(m0) + data);
    lemma_sum_words_nonneg(ICMP::enc_model(m0) + data);
    lemma_fold_carries_value(s0 as nat);
    let f = fold_carries(s0 as nat);
    assert(mc.chksum == (0xffff - f) as u16);
    assert(sum_words(ICMP::enc_model(mc) + data) == s0 + 0xffff - f);
    lemma_complement_folds(s0);
}

} // verus!
