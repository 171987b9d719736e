//! Ethernet II frame headers.

use vstd::prelude::*;
use crate::buffer::DemiBuffer;
use crate::fail::{Fail, EBADMSG, ENOTSUP};
use crate::ipv4::be16;

verus! {

/// Size of an Ethernet II header: two addresses and the ether type.
pub const ETHERNET2_HEADER_SIZE: usize = 14;

/// A link-layer (MAC) address.
#[derive(Clone, Copy, Debug, PartialEq, Eq)]
pub struct MacAddress(pub [u8; 6]);

impl MacAddress {
    /// The address with the given six octets.
    pub fn new(octets: [u8; 6]) -> (r: MacAddress)
        ensures
            r.0 == octets,
    {
        MacAddress(octets)
    }

    /// The broadcast address, all ones.
    pub fn broadcast() -> (r: MacAddress)
        ensures
            r.0@ == seq![0xffu8, 0xffu8, 0xffu8, 0xffu8, 0xffu8, 0xffu8],
    {
        let r = MacAddress([0xff; 6]);
        assert(r.0@ =~= seq![0xffu8, 0xffu8, 0xffu8, 0xffu8, 0xffu8, 0xffu8]);
        r
    }

    /// The six octets of the address.
    pub fn to_array(&self) -> (r: [u8; 6])
        ensures
            r == self.0,
    {
        self.0
    }
}

/// Ether types that this stack handles.
#[derive(Clone, Copy, Debug, PartialEq, Eq, Structural)]
pub enum EtherType2 {
    Arp,
    Ipv4,
    Ipv6,
}

impl EtherType2 {
    /// The ether type with number `t`, if it is a handled one.
    pub open spec fn spec_from_u16(t: int) -> Option<EtherType2> {
        if t == 0x0806 {
            Some(EtherType2::Arp)
        } else if t == 0x0800 {
            Some(EtherType2::Ipv4)
        } else if t == 0x86dd {
            Some(EtherType2::Ipv6)
        } else {
            None
        }
    }

    /// The ether type's number.
    pub open spec fn spec_as_u16(self) -> u16 {
        match self {
            EtherType2::Arp => 0x0806,
            EtherType2::Ipv4 => 0x0800,
            EtherType2::Ipv6 => 0x86dd,
        }
    }

    /// The ether type's number.
    pub fn as_u16(self) -> (t: u16)
        ensures
            t == self.spec_as_u16(),
    {
        match self {
            EtherType2::Arp => 0x0806,
            EtherType2::Ipv4 => 0x0800,
            EtherType2::Ipv6 => 0x86dd,
        }
    }

    /// The ether type with number `t`. Fails with `ENOTSUP` for one this stack
    /// does not handle.
    pub fn try_from(t: u16) -> (r: Result<EtherType2, Fail>)
        ensures
            r is Ok <==> EtherType2::spec_from_u16(t as int) is Some,
            r matches Ok(e) ==> EtherType2::spec_from_u16(t as int) == Some(e),
            r matches Err(e) ==> e.errno == ENOTSUP,
    {
        if t == 0x0806 {
            Ok(EtherType2::Arp)
        } else if t == 0x0800 {
            Ok(EtherType2::Ipv4)
        } else if t == 0x86dd {
            Ok(EtherType2::Ipv6)
        } else {
            Err(Fail::new(ENOTSUP, "unsupported ETHERTYPE"))
        }
    }
}

/// Why the frame `b` is refused by the Ethernet II parser, if it is.
pub open spec fn ethernet2_refusal(b: Seq<u8>) -> Option<i32> {
    if b.len() < ETHERNET2_HEADER_SIZE {
        Some(EBADMSG)
    } else if EtherType2::spec_from_u16(be16(b, 12)) is None {
        Some(ENOTSUP)
    } else {
        None
    }
}

/// The bytes of an Ethernet II header: destination address, source address,
/// then the ether type in network order.
pub open spec fn ethernet2_header_bytes(dst: Seq<u8>, src: Seq<u8>, ether_type: u16) -> Seq<u8> {
    dst + src + seq![(ether_type / 256) as u8, (ether_type % 256) as u8]
}

/// The fields of an Ethernet II header.
#[derive(Clone, Copy, Debug)]
pub struct Ethernet2Header {
    pub dst_addr: MacAddress,
    pub src_addr: MacAddress,
    pub ether_type: EtherType2,
}

impl Ethernet2Header {
    /// A header with the given fields.
    pub fn new(dst_addr: MacAddress, src_addr: MacAddress, ether_type: EtherType2) -> (h: Ethernet2Header)
        ensures
            h.dst_addr == dst_addr,
            h.src_addr == src_addr,
            h.ether_type == ether_type,
    {
        Ethernet2Header { dst_addr, src_addr, ether_type }
    }

    /// The bytes of the header.
    pub open spec fn spec_bytes(self) -> Seq<u8> {
        ethernet2_header_bytes(self.dst_addr.0@, self.src_addr.0@, self.ether_type.spec_as_u16())
    }

    /// Puts the header in front of `pkt`, in the buffer's headroom, which must
    /// have room for it.
    pub fn serialize_and_attach(&self, pkt: &mut DemiBuffer)
        requires
            old(pkt).spec_headroom() >= ETHERNET2_HEADER_SIZE,
        ensures
            final(pkt)@ == self.spec_bytes() + old(pkt)@,
            final(pkt).spec_headroom() == old(pkt).spec_headroom() - ETHERNET2_HEADER_SIZE,
    {
        // Cannot fail: the headroom has room for the header.
        let _prepended = pkt.prepend(ETHERNET2_HEADER_SIZE);
        let t = self.ether_type.as_u16();
        let bytes: [u8; 14] = [
            self.dst_addr.0[0],
            self.dst_addr.0[1],
            self.dst_addr.0[2],
            self.dst_addr.0[3],
            self.dst_addr.0[4],
            self.dst_addr.0[5],
            self.src_addr.0[0],
            self.src_addr.0[1],
            self.src_addr.0[2],
            self.src_addr.0[3],
            self.src_addr.0[4],
            self.src_addr.0[5],
            (t / 256) as u8,
            (t % 256) as u8,
        ];
        assert(bytes@ =~= self.spec_bytes());
        pkt.write_at(0, bytes.as_slice());
        assert(pkt@ =~= self.spec_bytes() + old(pkt)@);
    }

    /// The destination address.
    pub fn dst_addr(&self) -> (a: MacAddress)
        ensures
            a == self.dst_addr,
    {
        self.dst_addr
    }

    /// The source address.
    pub fn src_addr(&self) -> (a: MacAddress)
        ensures
            a == self.src_addr,
    {
        self.src_addr
    }

    /// The ether type.
    pub fn ether_type(&self) -> (t: EtherType2)
        ensures
            t == self.ether_type,
    {
        self.ether_type
    }

    /// Parses the Ethernet II header at the front of `buf` and removes it. On
    /// failure the buffer is left unchanged.
    pub fn parse_and_strip(buf: &mut DemiBuffer) -> (r: Result<Ethernet2Header, Fail>)
        ensures
            r is Ok <==> ethernet2_refusal(old(buf)@) is None,
            r matches Ok(h) ==> {
                &&& h.dst_addr.0@ == old(buf)@.subrange(0, 6)
                &&& h.src_addr.0@ == old(buf)@.subrange(6, 12)
                &&& EtherType2::spec_from_u16(be16(old(buf)@, 12)) == Some(h.ether_type)
                &&& final(buf)@ == old(buf)@.skip(ETHERNET2_HEADER_SIZE as int)
            },
            r matches Err(e) ==> ethernet2_refusal(old(buf)@) == Some(e.errno) && final(buf)@
                == old(buf)@,
    {
        let ghost b = buf@;
        if buf.len() < ETHERNET2_HEADER_SIZE {
            return Err(Fail::new(EBADMSG, "frame too small"));
        }
        let bytes = buf.as_slice();
        let dst_addr = MacAddress([bytes[0], bytes[1], bytes[2], bytes[3], bytes[4], bytes[5]]);
        let src_addr = MacAddress([bytes[6], bytes[7], bytes[8], bytes[9], bytes[10], bytes[11]]);
        assert(dst_addr.0@ =~= b.subrange(0, 6));
        assert(src_addr.0@ =~= b.subrange(6, 12));
        let ether_type = match EtherType2::try_from(bytes[12] as u16 * 256 + bytes[13] as u16) {
            Ok(t) => t,
            Err(e) => return Err(e),
        };
        // Cannot fail: the frame holds a whole header.
        let _adjusted = buf.adjust(ETHERNET2_HEADER_SIZE);
        Ok(Ethernet2Header { dst_addr, src_addr, ether_type })
    }
}

/// A frame made of a header, written with a handled ether type, and any
/// payload is accepted by the parser, which reads back the header's fields and
/// leaves the payload.
pub proof fn lemma_serialized_header_parses(h: Ethernet2Header, payload: Seq<u8>)
    ensures
        ethernet2_refusal(h.spec_bytes() + payload) is None,
        (h.spec_bytes() + payload).subrange(0, 6) == h.dst_addr.0@,
        (h.spec_bytes() + payload).subrange(6, 12) == h.src_addr.0@,
        EtherType2::spec_from_u16(be16(h.spec_bytes() + payload, 12)) == Some(h.ether_type),
        (h.spec_bytes() + payload).skip(ETHERNET2_HEADER_SIZE as int) == payload,
{
    let f = h.spec_bytes() + payload;
    assert(f.subrange(0, 6) =~= h.dst_addr.0@);
    assert(f.subrange(6, 12) =~= h.src_addr.0@);
    assert(f.skip(ETHERNET2_HEADER_SIZE as int) =~= payload);
    assert(be16(f, 12) == h.ether_type.spec_as_u16() as int);
}

} // verus!
