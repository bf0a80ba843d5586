use rawpacket::arp::ARPResolver;
use rawpacket::arp::ArpState;
use rawpacket::capture::FrameAnalyzer;
use rawpacket::capture::FrameFilter;
use rawpacket::capture::ProtocolTally;
use rawpacket::checksum::checksum;
use rawpacket::frame::build_frame;
use rawpacket::frame::build_text_frame;
use rawpacket::frame::payload_from_text;
use rawpacket::head::DecodeError;
use rawpacket::head::EtherHdr;
use rawpacket::head::EtherKind;
use rawpacket::head::Header;
use rawpacket::head::IPHdr;
use rawpacket::head::Protocol;

#[test]
fn checksum_of_known_words() {
    // 0x0001 + 0x0002 = 0x0003; complement 0xFFFC.
    assert_eq!(checksum(&[0x00, 0x01, 0x00, 0x02]), 0xFFFC);
    assert_eq!(checksum(&[]), 0xFFFF);
}

#[test]
fn checksum_folds_carries() {
    // 0xFFFF + 0x0001 = 0x10000, folded to 0x0001; complement 0xFFFE.
    assert_eq!(checksum(&[0xFF, 0xFF, 0x00, 0x01]), 0xFFFE);
}

#[test]
fn checksum_zero_pads_odd_tail() {
    let odd = [0x00u8, 0x01, 0x00, 0x02, 0xFF];
    let even = [0x00u8, 0x01, 0x00, 0x02, 0xFF, 0x00];
    assert_eq!(checksum(&odd), checksum(&even));
}

#[test]
fn arp_request_frame_layout() {
    let mut r = ARPResolver::new([10, 0, 0, 5], [10, 0, 0, 1], [0x98, 0x8D, 0x46, 0x5C, 0x63, 0x3B]);
    assert_eq!(r.state, ArpState::Idle);
    let frame = r.request_frame();
    assert_eq!(r.state, ArpState::AwaitingReply);
    assert_eq!(frame.len(), 42);
    // Ethernet: broadcast destination, our source, ethertype ARP.
    assert_eq!(&frame[0..6], &[0xFF; 6]);
    assert_eq!(&frame[6..12], &[0x98, 0x8D, 0x46, 0x5C, 0x63, 0x3B]);
    assert_eq!(&frame[12..14], &[0x08, 0x06]);
    // ARP body: Ethernet/IPv4, lengths 6 and 4, operation 1.
    assert_eq!(&frame[14..22], &[0x00, 0x01, 0x08, 0x00, 0x06, 0x04, 0x00, 0x01]);
    assert_eq!(&frame[22..28], &[0x98, 0x8D, 0x46, 0x5C, 0x63, 0x3B]);
    assert_eq!(&frame[28..32], &[10, 0, 0, 1]);
    assert_eq!(&frame[32..38], &[0xFF; 6]);
    assert_eq!(&frame[38..42], &[10, 0, 0, 5]);
}

#[test]
fn arp_reply_resolves_to_its_address() {
    let mut r = ARPResolver::new([10, 0, 0, 5], [10, 0, 0, 1], [1, 2, 3, 4, 5, 6]);
    let _ = r.request_frame();
    let mut reply = vec![0u8; 42];
    reply[20] = 0x00;
    reply[21] = 0x02;
    reply[22..28].copy_from_slice(&[0x02, 0x03, 0x04, 0x05, 0x06, 0x07]);
    assert_eq!(r.handle_frame(&reply), Some([0x02, 0x03, 0x04, 0x05, 0x06, 0x07]));
    assert_eq!(r.state, ArpState::Resolved([0x02, 0x03, 0x04, 0x05, 0x06, 0x07]));
}

#[test]
fn arp_non_reply_is_a_recoverable_no_match() {
    let mut r = ARPResolver::new([10, 0, 0, 5], [10, 0, 0, 1], [1, 2, 3, 4, 5, 6]);
    let _ = r.request_frame();
    // Operation 1 (a request), not a reply.
    let mut other = vec![0u8; 42];
    other[21] = 0x01;
    assert_eq!(r.handle_frame(&other), None);
    assert_eq!(r.state, ArpState::AwaitingReply);
    // Too short to be an ARP frame at all.
    let short = vec![0u8; 41];
    assert_eq!(r.handle_frame(&short), None);
    assert_eq!(r.state, ArpState::AwaitingReply);
}

#[test]
fn tally_counts_per_protocol() {
    let mut t = ProtocolTally::new();
    assert_eq!(t.get(6), 0);
    t.record(6);
    t.record(6);
    t.record(17);
    assert_eq!(t.get(6), 2);
    assert_eq!(t.get(17), 1);
    assert_eq!(t.get(1), 0);
}

#[test]
fn analyzer_tallies_decoded_frames_and_skips_bad_ones() {
    let mut a = FrameAnalyzer::new();
    let frame = build_frame(1, [1; 6], [2; 6], [10, 0, 0, 9], Protocol::TCP, &[]);
    let (_, ip) = a.ingest(&frame).unwrap();
    assert_eq!(ip.protocol, Protocol::TCP);
    assert_eq!(a.tally.get(6), 1);
    assert_eq!(a.ingest(&frame[0..20]).unwrap_err(), DecodeError::Truncated);
    assert_eq!(a.tally.get(6), 1);
}

#[test]
fn unset_filter_matches_everything() {
    let f = FrameFilter::new();
    let frame = build_frame(1, [1; 6], [2; 6], [10, 0, 0, 5], Protocol::UDP, &[7]);
    let hit = f.check_frame(&frame).unwrap();
    assert!(hit.is_some());
}

#[test]
fn destination_filter_keeps_only_its_address() {
    let f = FrameFilter { src_mac: None, dst_mac: None, shost: None, dhost: Some([10, 0, 0, 5]) };
    let matching = build_frame(1, [1; 6], [2; 6], [10, 0, 0, 5], Protocol::UDP, &[]);
    let other = build_frame(1, [1; 6], [2; 6], [10, 0, 0, 6], Protocol::UDP, &[]);
    assert!(f.check_frame(&matching).unwrap().is_some());
    assert!(f.check_frame(&other).unwrap().is_none());
}

#[test]
fn mac_filters_compare_decoded_addresses() {
    let frame = build_frame(1, [9, 9, 9, 9, 9, 9], [3, 3, 3, 3, 3, 3], [10, 0, 0, 5], Protocol::TCP, &[]);
    let (eth, ip) = {
        let ((e, i), _) = <(EtherHdr, IPHdr)>::from_bytes(&frame).unwrap();
        (e, i)
    };
    let hit = FrameFilter { src_mac: Some([3; 6]), dst_mac: Some([9; 6]), shost: None, dhost: None };
    let miss = FrameFilter { src_mac: Some([4; 6]), dst_mac: Some([9; 6]), shost: None, dhost: None };
    assert!(hit.matches(&eth, &ip));
    assert!(!miss.matches(&eth, &ip));
}

#[test]
fn built_frame_stacks_ether_ip_payload() {
    let frame = build_frame(0x0102, [0xAA; 6], [0xBB; 6], [192, 168, 1, 1], Protocol::ICMP, &[1, 2, 3]);
    assert_eq!(frame.len(), 14 + 20 + 3);
    assert_eq!(&frame[12..14], &[0x08, 0x00]);
    let ((eth, ip), rest) = <(EtherHdr, IPHdr)>::from_bytes(&frame).unwrap();
    assert_eq!(eth.etype, EtherKind::IP);
    assert_eq!(eth.dhost, [0xAA; 6]);
    assert_eq!(ip.ident, 0x0102);
    assert_eq!(ip.destinaiton, [192, 168, 1, 1]);
    assert_eq!(ip.protocol, Protocol::ICMP);
    assert_eq!(rest, &[1, 2, 3]);
    // The embedded header checksums to all ones, checksum field included.
    let mut sum: u64 = 0;
    let hdr = &frame[14..34];
    for i in (0..hdr.len()).step_by(2) {
        sum += ((hdr[i] as u64) << 8) | hdr[i + 1] as u64;
    }
    while sum >> 16 != 0 {
        sum = (sum >> 16) + (sum & 0xffff);
    }
    assert_eq!(sum, 0xFFFF);
}

#[test]
fn payload_text_is_read_digit_by_digit() {
    assert_eq!(payload_from_text("129", 10), Some(vec![1, 2, 9]));
    assert_eq!(payload_from_text("ff", 16), Some(vec![15, 15]));
    assert_eq!(payload_from_text("FF", 16), Some(vec![15, 15]));
    assert_eq!(payload_from_text("", 10), Some(vec![]));
    // '2' is no digit in radix 2, and punctuation never is.
    assert_eq!(payload_from_text("2", 2), None);
    assert_eq!(payload_from_text("1.2", 10), None);
}

#[test]
fn text_frame_carries_the_digits() {
    let frame = build_text_frame(1, [1; 6], [2; 6], [10, 0, 0, 1], Protocol::UDP, "0a", 16).unwrap();
    assert_eq!(&frame[34..], &[0, 10]);
    assert_eq!(build_text_frame(1, [1; 6], [2; 6], [10, 0, 0, 1], Protocol::UDP, "xyz", 10), None);
}
