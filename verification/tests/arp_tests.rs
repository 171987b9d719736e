use demikernel_core::arp::{build_arp_query, ArpHeader, ArpOperation, ARP_MESSAGE_SIZE};
use demikernel_core::buffer::{DemiBuffer, MAX_HEADER_SIZE};
use demikernel_core::ethernet::{EtherType2, Ethernet2Header, MacAddress};
use demikernel_core::ipv4::Ipv4Addr;

fn alice_mac() -> MacAddress {
    MacAddress::new([0x12, 0x23, 0x45, 0x67, 0x89, 0xab])
}

#[test]
fn arp_query_frame_bytes() {
    let local_ipv4 = Ipv4Addr::new(192, 168, 1, 1);
    let remote_ipv4 = Ipv4Addr::new(192, 168, 1, 2);
    let mut pkt = build_arp_query(&alice_mac(), &local_ipv4, &remote_ipv4);
    let expected: Vec<u8> = vec![
        0xff, 0xff, 0xff, 0xff, 0xff, 0xff, 0x12, 0x23, 0x45, 0x67, 0x89, 0xab, 0x08, 0x06, // Ethernet
        0x00, 0x01, 0x08, 0x00, 6, 4, 0x00, 0x01, // ARP request
        0x12, 0x23, 0x45, 0x67, 0x89, 0xab, 192, 168, 1, 1, // sender
        0xff, 0xff, 0xff, 0xff, 0xff, 0xff, 192, 168, 1, 2, // target
    ];
    assert_eq!(pkt.as_slice(), expected.as_slice());

    let eth = Ethernet2Header::parse_and_strip(&mut pkt).unwrap();
    assert_eq!(eth.dst_addr(), MacAddress::broadcast());
    assert_eq!(eth.src_addr(), alice_mac());
    assert_eq!(eth.ether_type(), EtherType2::Arp);
    assert_eq!(pkt.len(), ARP_MESSAGE_SIZE);
}

#[test]
fn arp_reply_serialization_and_ethernet_attach() {
    let h = ArpHeader::new(
        ArpOperation::Reply,
        alice_mac(),
        Ipv4Addr::new(10, 0, 0, 1),
        MacAddress::new([1, 2, 3, 4, 5, 6]),
        Ipv4Addr::new(10, 0, 0, 2),
    );
    let mut pkt = h.create_and_serialize();
    assert_eq!(pkt.len(), ARP_MESSAGE_SIZE);
    assert_eq!(&pkt.as_slice()[..8], &[0, 1, 8, 0, 6, 4, 0, 2]);
    let eth = Ethernet2Header::new(MacAddress::new([1, 2, 3, 4, 5, 6]), alice_mac(), EtherType2::Ipv4);
    eth.serialize_and_attach(&mut pkt);
    assert_eq!(&pkt.as_slice()[..14], &[1, 2, 3, 4, 5, 6, 0x12, 0x23, 0x45, 0x67, 0x89, 0xab, 0x08, 0x00]);
    assert_eq!(EtherType2::Ipv6.as_u16(), 0x86dd);
    assert_eq!(EtherType2::try_from(0x0800).unwrap(), EtherType2::Ipv4);
}

#[test]
fn buffer_prepend_set_write() {
    let mut b = DemiBuffer::new_with_headroom(4, 2);
    assert_eq!(b.prepend(3).unwrap_err().errno, demikernel_core::fail::EINVAL);
    b.prepend(2).unwrap();
    assert_eq!(b.len(), 6);
    b.set(0, 7);
    b.write_at(2, &[1, 2, 3]);
    assert_eq!(b.as_slice(), &[7, 0, 1, 2, 3, 0]);
    let mut h = DemiBuffer::new_with_headroom(0, MAX_HEADER_SIZE as u16);
    assert!(h.prepend(MAX_HEADER_SIZE).is_ok());
    assert_eq!(h.len(), MAX_HEADER_SIZE);
}

#[test]
fn arp_parse_reads_back_the_query() {
    let local_ipv4 = Ipv4Addr::new(192, 168, 1, 2);
    let remote_ipv4 = Ipv4Addr::new(192, 168, 1, 3);
    let mut pkt = build_arp_query(&alice_mac(), &local_ipv4, &remote_ipv4);
    Ethernet2Header::parse_and_strip(&mut pkt).unwrap();
    let bytes = pkt.as_slice().to_vec();
    let arp = ArpHeader::parse_and_consume(pkt).unwrap();
    assert_eq!(arp.operation(), ArpOperation::Request);
    assert_eq!(arp.sender_hardware_addr(), alice_mac());
    assert_eq!(arp.sender_protocol_addr(), local_ipv4);
    assert_eq!(arp.target_protocol_addr(), remote_ipv4);

    let short = DemiBuffer::from_slice(&bytes[..27]).unwrap();
    assert_eq!(ArpHeader::parse_and_consume(short).unwrap_err().errno, demikernel_core::fail::EBADMSG);
    let mut bad_op = bytes.clone();
    bad_op[7] = 3;
    let b = DemiBuffer::from_slice(&bad_op).unwrap();
    assert_eq!(ArpHeader::parse_and_consume(b).unwrap_err().errno, demikernel_core::fail::ENOTSUP);
    let mut bad_htype = bytes.clone();
    bad_htype[1] = 6;
    let b = DemiBuffer::from_slice(&bad_htype).unwrap();
    assert_eq!(ArpHeader::parse_and_consume(b).unwrap_err().errno, demikernel_core::fail::ENOTSUP);
}
