use demikernel_core::buffer::DemiBuffer;
use demikernel_core::ethernet::{EtherType2, Ethernet2Header, MacAddress};
use demikernel_core::fail::{EAGAIN, EBADMSG, EINVAL, EIO, ENOTSUP};
use demikernel_core::buffer::MAX_HEADER_SIZE;
use demikernel_core::linux::{ifindex_from_text, LinuxRuntime, RECVBUF_SIZE_MAX};
use demikernel_core::rawsocket::{RawSocket, RawSocketAddr, AF_PACKET, ETH_ALEN};

fn frame() -> Vec<u8> {
    let mut f = vec![0xaa, 0xbb, 0xcc, 0xdd, 0xee, 0xff, 1, 2, 3, 4, 5, 6, 0x08, 0x06];
    f.extend_from_slice(&[9, 9, 9]);
    f
}

#[test]
fn ethernet_parse() {
    let mut b = DemiBuffer::from_slice(&frame()).unwrap();
    let h = Ethernet2Header::parse_and_strip(&mut b).unwrap();
    assert_eq!(h.dst_addr(), MacAddress::new([0xaa, 0xbb, 0xcc, 0xdd, 0xee, 0xff]));
    assert_eq!(h.src_addr().to_array(), [1, 2, 3, 4, 5, 6]);
    assert_eq!(h.ether_type(), EtherType2::Arp);
    assert_eq!(b.as_slice(), &[9, 9, 9]);

    let mut short = DemiBuffer::from_slice(&frame()[..13]).unwrap();
    assert_eq!(Ethernet2Header::parse_and_strip(&mut short).unwrap_err().errno, EBADMSG);
    let mut f = frame();
    f[12] = 0x12;
    let mut unknown = DemiBuffer::from_slice(&f).unwrap();
    assert_eq!(Ethernet2Header::parse_and_strip(&mut unknown).unwrap_err().errno, ENOTSUP);
    assert_eq!(unknown.len(), 17);
}

#[test]
fn raw_socket_addresses_and_results() {
    let a = RawSocketAddr::new(3, &[1, 2, 3, 4, 5, 6]);
    assert_eq!(a.sll_family, AF_PACKET);
    assert_eq!(a.sll_protocol, [0, 3]);
    assert_eq!(u16::from_ne_bytes(a.sll_protocol), 3u16.to_be());
    assert_eq!(a.sll_ifindex, 3);
    assert_eq!(a.sll_halen, ETH_ALEN);
    assert_eq!(a.sll_addr, [1, 2, 3, 4, 5, 6, 0, 0]);
    let z = RawSocketAddr::default();
    assert_eq!(z.sll_family, 0);
    assert_eq!(z.sll_addr, [0; 8]);

    assert_eq!(RawSocket::new(-1).unwrap_err().errno, EAGAIN);
    let s = RawSocket::new(5).unwrap();
    assert_eq!(s.0, 5);
    assert!(s.bind(0).is_ok());
    assert_eq!(s.bind(-1).unwrap_err().errno, EAGAIN);
    assert_eq!(s.sendto(42).unwrap(), 42);
    assert_eq!(s.sendto(-1).unwrap_err().errno, EAGAIN);
    assert_eq!(s.recvfrom(7, a).unwrap().0, 7);
    assert_eq!(s.recvfrom(-1, a).unwrap_err().errno, EAGAIN);
}

#[test]
fn linux_runtime_logic() {
    assert_eq!(ifindex_from_text(" 12\n").unwrap(), 12);
    assert_eq!(ifindex_from_text("+7").unwrap(), 7);
    assert_eq!(ifindex_from_text("-3").unwrap(), -3);
    assert!(ifindex_from_text("x1").is_err());
    assert!(ifindex_from_text("").is_err());
    assert_eq!(demikernel_core::linux::parse_ifindex(" 9 ").unwrap(), 9);
    assert_eq!(demikernel_core::linux::parse_ifindex("nine").unwrap_err().errno, EINVAL);

    assert_eq!(LinuxRuntime::new("abc", RawSocket(4), 1500).unwrap_err().errno, EINVAL);
    // The MTU is not looked at when the interface index does not parse.
    assert_eq!(LinuxRuntime::new("abc", RawSocket(4), 10).unwrap_err().errno, EINVAL);
    let mut rt = LinuxRuntime::new("2\n", RawSocket(4), 1500).unwrap();
    assert_eq!(rt.ifindex(), 2);
    assert_eq!(rt.socket().0, 4);
    assert_eq!(rt.max_buffer_size_bytes(), 1500 - MAX_HEADER_SIZE);

    let b = rt.allocate_demi_buffer(10).unwrap();
    assert_eq!(b.len(), 10);
    let wrapped = rt.allocate_demi_buffer(65536 + 3).unwrap();
    assert_eq!(wrapped.len(), 3);

    let packet = DemiBuffer::from_slice(&frame()).unwrap();
    let addr = rt.transmit_addr(&packet);
    assert_eq!(addr.sll_ifindex, 2);
    assert_eq!(addr.sll_family, AF_PACKET);
    assert_eq!(addr.sll_halen, ETH_ALEN);
    assert_eq!(u16::from_ne_bytes(addr.sll_protocol), 3u16.to_be());
    assert_eq!(addr.sll_addr, [0xaa, 0xbb, 0xcc, 0xdd, 0xee, 0xff, 0, 0]);
    assert_eq!(packet.len(), 17);

    assert!(rt.transmit_outcome(17, Ok(17)).is_ok());
    let partial = rt.transmit_outcome(17, Ok(3)).unwrap_err();
    assert_eq!(partial.errno, EAGAIN);
    assert_eq!(partial.cause, "transmit: partial send: packet_size=17 sent=3");
    assert_eq!(rt.transmit_outcome(17, RawSocket(4).sendto(-1)).unwrap_err().errno, EIO);

    let mut recv = vec![0u8; RECVBUF_SIZE_MAX];
    recv[..3].copy_from_slice(&[4, 5, 6]);
    let batch = rt.receive(Ok((3, RawSocketAddr::default())), &recv).unwrap();
    assert_eq!(batch.len(), 1);
    assert_eq!(batch[0].as_slice(), &[4, 5, 6]);
    let none = rt.receive(RawSocket(4).recvfrom(-1, RawSocketAddr::default()), &recv).unwrap();
    assert_eq!(none.len(), 0);
}
