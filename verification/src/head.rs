//! The header codec abstraction: a typed value can be decoded from a prefix
//! of a byte buffer (returning the remaining bytes) and encoded back to
//! exactly the bytes a decode would consume. Two codecs in sequence form a
//! codec again, so a frame is decoded layer by layer.

use vstd::prelude::*;

pub mod ether;
pub mod icmp;
pub mod ip;

pub use ether::EtherHdr;
pub use ether::EtherKind;
pub use icmp::Ping;
pub use icmp::ICMP;
pub use ip::IPFlag;
pub use ip::IPHdr;
pub use ip::Protocol;

verus! {

/// Why a decode failed: fewer bytes remain than the codec's minimum, or a
/// length field that contradicts the fixed layout.
#[derive(Clone, Copy, Debug, PartialEq, Eq, Structural)]
pub enum DecodeError {
    Truncated,
    BadLength,
}

/// The two big-endian bytes of a 16-bit value.
pub open spec fn be16(x: u16) -> Seq<u8> {
    seq![(x / 256) as u8, (x % 256) as u8]
}

/// The 16-bit value read big-endian from two bytes.
pub open spec fn word16(hi: u8, lo: u8) -> u16 {
    (hi * 256 + lo) as u16
}

/// A fixed or self-describing-length binary record.
///
/// Each implementor gives a mathematical model of its values (its `View`),
/// says which models are well formed, what bytes a well-formed model
/// serializes to, and what decoding an arbitrary byte sequence yields: the
/// decoded model plus the number of bytes consumed, or a typed error instead
/// of an out-of-bounds read.
pub trait Header: Sized + View {
    /// The models on which the codec is defined.
    spec fn wf_model(m: Self::V) -> bool;

    /// The bytes that `to_bytes` produces for a value with model `m`.
    spec fn enc_model(m: Self::V) -> Seq<u8>;

    /// What decoding yields: the decoded model and the count of consumed
    /// bytes, or the error.
    spec fn dec_model(b: Seq<u8>) -> Result<(Self::V, int), DecodeError>;

    /// Decode a prefix of `bytes`; on success return the value and the
    /// remaining, unconsumed bytes.
    fn from_bytes(bytes: &[u8]) -> (r: Result<(Self, &[u8]), DecodeError>)
        ensures
            match r {
                Ok((h, rest)) => Self::dec_model(bytes@) matches Ok((m, n)) && {
                    &&& m == h@
                    &&& Self::wf_model(h@)
                    &&& 0 <= n <= bytes@.len()
                    &&& rest@ == bytes@.subrange(n, bytes@.len() as int)
                },
                Err(e) => Self::dec_model(bytes@) matches Err(e2) && e2 == e,
            },
    ;

    /// Serialize the value to exactly the bytes a decode would consume.
    fn to_bytes(self) -> (r: Vec<u8>)
        requires
            Self::wf_model(self@),
        ensures
            r@ == Self::enc_model(self@),
    ;

    /// Law: decoding what a well-formed value encodes gives back exactly
    /// that value and consumes exactly its bytes, whatever bytes follow.
    proof fn lemma_round_trip(m: Self::V, tail: Seq<u8>)
        requires
            Self::wf_model(m),
        ensures
            Self::dec_model(Self::enc_model(m) + tail) == Ok::<(Self::V, int), DecodeError>(
                (m, Self::enc_model(m).len() as int),
            ),
    ;
}

impl<H0: Header, H1: Header> Header for (H0, H1) {
    open spec fn wf_model(m: Self::V) -> bool {
        H0::wf_model(m.0) && H1::wf_model(m.1)
    }

    open spec fn enc_model(m: Self::V) -> Seq<u8> {
        H0::enc_model(m.0) + H1::enc_model(m.1)
    }

    open spec fn dec_model(b: Seq<u8>) -> Result<(Self::V, int), DecodeError> {
        match H0::dec_model(b) {
            Ok((m0, n0)) => match H1::dec_model(b.subrange(n0, b.len() as int)) {
                Ok((m1, n1)) => Ok(((m0, m1), n0 + n1)),
                Err(e) => Err(e),
            },
            Err(e) => Err(e),
        }
    }

    fn from_bytes(bytes: &[u8]) -> (r: Result<(Self, &[u8]), DecodeError>) {
        match H0::from_bytes(bytes) {
            Ok((h0, rest0)) => match H1::from_bytes(rest0) {
                Ok((h1, rest1)) => {
                    proof {
                        let n0 = H0::dec_model(bytes@)->Ok_0.1;
                        let mid = bytes@.subrange(n0, bytes@.len() as int);
                        let n1 = H1::dec_model(mid)->Ok_0.1;
                        assert(mid.subrange(n1, mid.len() as int) =~= bytes@.subrange(
                            n0 + n1,
                            bytes@.len() as int,
                        ));
                    }
                    Ok(((h0, h1), rest1))
                },
                Err(e) => Err(e),
            },
            Err(e) => Err(e),
        }
    }

    fn to_bytes(self) -> (r: Vec<u8>) {
        let (h0, h1) = self;
        let mut v = h0.to_bytes();
        let mut v1 = h1.to_bytes();
        v.append(&mut v1);
        v
    }

    /// Two codecs in sequence behave as one: the stacked round trip follows
    /// from each layer's own.
    proof fn lemma_round_trip(m: Self::V, tail: Seq<u8>) {
        let e0 = H0::enc_model(m.0);
        let e1 = H1::enc_model(m.1);
        let b = Self::enc_model(m) + tail;
        assert(b =~= e0 + (e1 + tail));
        H0::lemma_round_trip(m.0, e1 + tail);
        assert(b.subrange(e0.len() as int, b.len() as int) =~= e1 + tail);
        H1::lemma_round_trip(m.1, tail);
    }
}

} // verus!
