use rawpacket::head::DecodeError;
use rawpacket::head::EtherHdr;
use rawpacket::head::EtherKind;
use rawpacket::head::Header;
use rawpacket::head::ICMP;
use rawpacket::head::IPHdr;
use rawpacket::head::Ping;
use rawpacket::head::Protocol;

/// Word-sum all 16-bit big-endian words (odd tail zero-padded) and fold the
/// carries, as a receiver verifying a checksum would.
fn fold_sum(bytes: &[u8]) -> u16 {
    let mut sum: u64 = 0;
    let mut i = 0;
    while i < bytes.len() {
        let hi = bytes[i] as u64;
        let lo = if i + 1 < bytes.len() { bytes[i + 1] as u64 } else { 0 };
        sum += (hi << 8) | lo;
        i += 2;
    }
    while sum >> 16 != 0 {
        sum = (sum >> 16) + (sum & 0xffff);
    }
    sum as u16
}

#[test]
fn ether_encode_known_bytes() {
    let h = EtherHdr {
        dhost: [0xAA, 0xBB, 0xCC, 0xDD, 0xEE, 0xFF],
        shost: [0x11, 0x22, 0x33, 0x44, 0x55, 0x66],
        etype: EtherKind::IP,
    };
    assert_eq!(
        h.to_bytes(),
        vec![0xAA, 0xBB, 0xCC, 0xDD, 0xEE, 0xFF, 0x11, 0x22, 0x33, 0x44, 0x55, 0x66, 0x08, 0x00]
    );
}

#[test]
fn ether_round_trip() {
    let h = EtherHdr {
        dhost: [1, 2, 3, 4, 5, 6],
        shost: [7, 8, 9, 10, 11, 12],
        etype: EtherKind::ARP,
    };
    let bytes = h.to_bytes();
    let (back, rest) = EtherHdr::from_bytes(&bytes).unwrap();
    assert_eq!(back, h);
    assert!(rest.is_empty());
}

#[test]
fn ether_other_kind_keeps_its_bytes() {
    let bytes = [0u8, 0, 0, 0, 0, 0, 0, 0, 0, 0, 0, 0, 0x12, 0x34];
    let (h, _) = EtherHdr::from_bytes(&bytes).unwrap();
    assert_eq!(h.etype, EtherKind::Other(0x1234));
    assert_eq!(h.to_bytes(), bytes.to_vec());
}

#[test]
fn ether_kind_new_maps_codes() {
    assert_eq!(EtherKind::new(0x0800), EtherKind::IP);
    assert_eq!(EtherKind::new(0x0806), EtherKind::ARP);
    assert_eq!(EtherKind::new(0x9999), EtherKind::Other(0x9999));
}

#[test]
fn ether_truncated() {
    let bytes = [0u8; 13];
    assert_eq!(EtherHdr::from_bytes(&bytes).unwrap_err(), DecodeError::Truncated);
}

#[test]
fn ipv4_round_trip_with_options() {
    let h = IPHdr::new(0x1234)
        .ttl(32)
        .protocol(Protocol::UDP)
        .destination([10, 0, 0, 7])
        .append_opt(vec![1, 2, 3])
        .checksum();
    let bytes = h.serialize();
    assert_eq!(bytes.len(), 24);
    let (back, rest) = IPHdr::from_bytes(&bytes).unwrap();
    assert_eq!(back, h);
    assert!(rest.is_empty());
}

#[test]
fn ipv4_round_trip_keeps_payload_apart() {
    let h = IPHdr::new(7).protocol(Protocol::TCP).checksum();
    let mut bytes = h.serialize();
    bytes.extend_from_slice(&[0xDE, 0xAD, 0xBE, 0xEF]);
    let (back, rest) = IPHdr::from_bytes(&bytes).unwrap();
    assert_eq!(back, h);
    assert_eq!(rest, &[0xDE, 0xAD, 0xBE, 0xEF]);
}

#[test]
fn ipv4_options_read_from_remainder() {
    // A raw header of 6 words: the 4 option bytes follow the fixed 20.
    let mut bytes = vec![
        0x46, 0x00, 0x00, 0x18, 0x00, 0x01, 0x40, 0x00, 0x40, 0x11, 0x00, 0x00, 0x0A, 0x00, 0x00,
        0x01, 0x0A, 0x00, 0x00, 0x02,
    ];
    bytes.extend_from_slice(&[0x83, 0x03, 0x10, 0x00]);
    bytes.extend_from_slice(&[0x55, 0x66]);
    let (h, rest) = IPHdr::from_bytes(&bytes).unwrap();
    assert_eq!(h.ihl, 24);
    assert_eq!(h.opt_section, vec![0x83, 0x03, 0x10, 0x00]);
    assert_eq!(h.protocol, Protocol::UDP);
    assert_eq!(rest, &[0x55, 0x66]);
}

#[test]
fn ipv4_bad_header_length_rejected() {
    // IHL of 4 words (16 bytes) is below the fixed 20-byte prefix.
    let mut bytes = vec![0x44u8];
    bytes.extend_from_slice(&[0u8; 19]);
    assert_eq!(IPHdr::from_bytes(&bytes).unwrap_err(), DecodeError::BadLength);
}

#[test]
fn ipv4_truncated() {
    let bytes = [0u8; 19];
    assert_eq!(IPHdr::from_bytes(&bytes).unwrap_err(), DecodeError::Truncated);
    // 20 bytes present but the IHL field asks for 24.
    let mut longer = vec![0x46u8];
    longer.extend_from_slice(&[0u8; 19]);
    assert_eq!(IPHdr::from_bytes(&longer).unwrap_err(), DecodeError::Truncated);
}

#[test]
fn ipv4_flags_and_offset_round_trip() {
    let mut h = IPHdr::new(1);
    h.flag.df = false;
    h.flag.mf = true;
    h.offset = 0x1FFF;
    let h = h.checksum();
    let bytes = h.serialize();
    let (back, _) = IPHdr::from_bytes(&bytes).unwrap();
    assert!(!back.flag.df);
    assert!(back.flag.mf);
    assert_eq!(back.offset, 0x1FFF);
}

#[test]
fn ipv4_builder_defaults() {
    let h = IPHdr::new(42);
    assert_eq!(h.version, 4);
    assert_eq!(h.ihl, 20);
    assert_eq!(h.totlen, 20);
    assert_eq!(h.ident, 42);
    assert!(h.flag.df);
    assert!(!h.flag.mf);
    assert_eq!(h.ttl, 64);
    assert_eq!(h.protocol, Protocol::ICMP);
    assert_eq!(h.source, [0, 0, 0, 0]);
    assert_eq!(h.get_chksum(), 0);
    assert!(h.opt_section.is_empty());
}

#[test]
fn ipv4_checksum_folds_to_all_ones() {
    let h = IPHdr::new(1).destination([192, 168, 1, 1]).protocol(Protocol::TCP).checksum();
    let bytes = h.serialize();
    assert_eq!(bytes.len(), 20);
    assert_eq!(fold_sum(&bytes), 0xFFFF);
    assert_ne!(h.get_chksum(), 0);
}

#[test]
fn ipv4_checksum_with_options_folds_to_all_ones() {
    let h = IPHdr::new(9).append_opt(vec![7, 7, 7, 7, 1]).checksum();
    let bytes = h.serialize();
    assert_eq!(bytes.len(), 28);
    assert_eq!(fold_sum(&bytes), 0xFFFF);
}

#[test]
fn append_opt_pads_and_grows_lengths() {
    let h = IPHdr::new(0).append_opt(vec![1, 2, 3]);
    assert_eq!(h.opt_section, vec![1, 2, 3, 0]);
    assert_eq!(h.ihl, 24);
    assert_eq!(h.totlen, 24);
}

#[test]
fn append_opt_exact_multiple_unpadded() {
    let h = IPHdr::new(0).append_opt(vec![9, 8, 7, 6]);
    assert_eq!(h.opt_section, vec![9, 8, 7, 6]);
    assert_eq!(h.ihl, 24);
    assert_eq!(h.totlen, 24);
}

#[test]
fn icmp_round_trip_with_pair() {
    let h = ICMP::new(8, 0).with_ident(0x0102).with_seqnum(0x0304);
    let bytes = h.clone().to_bytes();
    assert_eq!(bytes.len(), 8);
    let (back, rest) = ICMP::from_bytes(&bytes).unwrap();
    assert_eq!(back, h);
    assert!(rest.is_empty());
    assert_eq!(back.msg, Some(Ping { ident: 0x0102, seqnum: 0x0304 }));
}

#[test]
fn icmp_round_trip_without_pair() {
    let h = ICMP::new(3, 1);
    let bytes = h.clone().to_bytes();
    assert_eq!(bytes.len(), 4);
    let (back, rest) = ICMP::from_bytes(&bytes).unwrap();
    assert_eq!(back, h);
    assert!(rest.is_empty());
    assert_eq!(back.msg, None);
}

#[test]
fn icmp_truncated() {
    assert_eq!(ICMP::from_bytes(&[8u8, 0, 0]).unwrap_err(), DecodeError::Truncated);
    // An echo type needs 8 bytes, not 4.
    assert_eq!(ICMP::from_bytes(&[8u8, 0, 0, 0, 0, 0]).unwrap_err(), DecodeError::Truncated);
}

#[test]
fn icmp_checksum_covers_payload() {
    let h = ICMP::new(8, 0).with_ident(0x0102).with_seqnum(0x0304).checksum(&[0xFF]);
    assert_eq!(h.chksum, !0x0B07u16);
    let mut all = h.clone().to_bytes();
    all.push(0xFF);
    assert_eq!(fold_sum(&all), 0xFFFF);
}

#[test]
fn icmp_builders_keep_counterpart() {
    let h = ICMP::new(8, 0).with_seqnum(5);
    assert_eq!(h.msg, Some(Ping { ident: 0, seqnum: 5 }));
    let h = h.with_ident(9);
    assert_eq!(h.msg, Some(Ping { ident: 9, seqnum: 5 }));
}

#[test]
fn icmp_type_descriptions() {
    assert_eq!(ICMP::new(8, 0).typ_dsc(), "请求回显（ping请求）");
    assert_eq!(ICMP::new(3, 3).typ_dsc(), "端口不可达");
    assert_eq!(ICMP::new(200, 200).typ_dsc(), "未定义");
}

#[test]
fn stacked_codec_decodes_both_layers() {
    let eth = EtherHdr {
        dhost: [1, 1, 1, 1, 1, 1],
        shost: [2, 2, 2, 2, 2, 2],
        etype: EtherKind::IP,
    };
    let ip = IPHdr::new(5).protocol(Protocol::TCP).checksum();
    let mut bytes = (eth.clone(), ip.clone()).to_bytes();
    bytes.extend_from_slice(&[0xAB]);
    let ((e, i), rest) = <(EtherHdr, IPHdr)>::from_bytes(&bytes).unwrap();
    assert_eq!(e, eth);
    assert_eq!(i, ip);
    assert_eq!(rest, &[0xAB]);
}

#[test]
fn protocol_default_is_icmp() {
    assert_eq!(Protocol::default(), Protocol::ICMP);
}
