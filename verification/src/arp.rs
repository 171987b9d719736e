//! ARP messages: writing an ARP message for IPv4 over Ethernet, and the ARP
//! query frame (a request broadcast on the link) that a host sends to learn the
//! hardware address of an IPv4 address.

use vstd::prelude::*;
use crate::buffer::{DemiBuffer, MAX_HEADER_SIZE};
use crate::fail::{Fail, EBADMSG, ENOTSUP};
use crate::ethernet::{
    EtherType2, Ethernet2Header, MacAddress, ethernet2_header_bytes, ethernet2_refusal,
    ETHERNET2_HEADER_SIZE,
};
use crate::ipv4::be16;
use crate::ipv4::Ipv4Addr;

verus! {

/// Size of an ARP message for IPv4 over Ethernet.
pub const ARP_MESSAGE_SIZE: usize = 28;

/// ARP operations.
#[derive(Clone, Copy, Debug, PartialEq, Eq, Structural)]
pub enum ArpOperation {
    Request,
    Reply,
}

impl ArpOperation {
    /// The operation's number in an ARP message.
    pub open spec fn spec_as_u16(self) -> u16 {
        match self {
            ArpOperation::Request => 1,
            ArpOperation::Reply => 2,
        }
    }

    /// The operation with number `op`, if it is one.
    pub open spec fn spec_from_u16(op: int) -> Option<ArpOperation> {
        if op == 1 {
            Some(ArpOperation::Request)
        } else if op == 2 {
            Some(ArpOperation::Reply)
        } else {
            None
        }
    }
}

/// Why the bytes `b` are refused as an ARP message for IPv4 over Ethernet, if
/// they are: too short, or a hardware type, protocol type, address length or
/// operation that is not handled.
pub open spec fn arp_refusal(b: Seq<u8>) -> Option<i32> {
    if b.len() < ARP_MESSAGE_SIZE {
        Some(EBADMSG)
    } else if be16(b, 0) != 1 {
        Some(ENOTSUP)
    } else if be16(b, 2) != 0x0800 {
        Some(ENOTSUP)
    } else if b[4] != 6 {
        Some(ENOTSUP)
    } else if b[5] != 4 {
        Some(ENOTSUP)
    } else if ArpOperation::spec_from_u16(be16(b, 6)) is None {
        Some(ENOTSUP)
    } else {
        None
    }
}

/// The fields of an ARP message for IPv4 over Ethernet.
#[derive(Clone, Copy, Debug)]
pub struct ArpHeader {
    pub operation: ArpOperation,
    pub sender_hardware_addr: MacAddress,
    pub sender_protocol_addr: Ipv4Addr,
    pub target_hardware_addr: MacAddress,
    pub target_protocol_addr: Ipv4Addr,
}

/// The bytes of an ARP message: hardware type Ethernet (1), protocol type
/// IPv4 (0x0800), address lengths 6 and 4, the operation, then the sender's
/// and the target's hardware and protocol addresses.
pub open spec fn arp_message_bytes(h: ArpHeader) -> Seq<u8> {
    seq![0u8, 1u8, 0x08u8, 0u8, 6u8, 4u8, 0u8, h.operation.spec_as_u16() as u8]
        + h.sender_hardware_addr.0@ + h.sender_protocol_addr.0@ + h.target_hardware_addr.0@
        + h.target_protocol_addr.0@
}

impl ArpHeader {
    /// A message with the given fields.
    pub fn new(
        operation: ArpOperation,
        sender_hardware_addr: MacAddress,
        sender_protocol_addr: Ipv4Addr,
        target_hardware_addr: MacAddress,
        target_protocol_addr: Ipv4Addr,
    ) -> (h: ArpHeader)
        ensures
            h.operation == operation,
            h.sender_hardware_addr == sender_hardware_addr,
            h.sender_protocol_addr == sender_protocol_addr,
            h.target_hardware_addr == target_hardware_addr,
            h.target_protocol_addr == target_protocol_addr,
    {
        ArpHeader {
            operation,
            sender_hardware_addr,
            sender_protocol_addr,
            target_hardware_addr,
            target_protocol_addr,
        }
    }

    /// The fields are those of the ARP message at the front of `b`.
    pub open spec fn describes(self, b: Seq<u8>) -> bool {
        &&& ArpOperation::spec_from_u16(be16(b, 6)) == Some(self.operation)
        &&& self.sender_hardware_addr.0@ == b.subrange(8, 14)
        &&& self.sender_protocol_addr.0@ == b.subrange(14, 18)
        &&& self.target_hardware_addr.0@ == b.subrange(18, 24)
        &&& self.target_protocol_addr.0@ == b.subrange(24, 28)
    }

    /// Parses the ARP message at the front of `buf`.
    pub fn parse_and_consume(buf: DemiBuffer) -> (r: Result<ArpHeader, Fail>)
        ensures
            r is Ok <==> arp_refusal(buf@) is None,
            r matches Ok(h) ==> h.describes(buf@),
            r matches Err(e) ==> arp_refusal(buf@) == Some(e.errno),
    {
        if buf.len() < ARP_MESSAGE_SIZE {
            return Err(Fail::new(EBADMSG, "ARP message too short"));
        }
        let b = buf.as_slice();
        if b[0] as u16 * 256 + b[1] as u16 != 1 {
            return Err(Fail::new(ENOTSUP, "unsupported HTYPE"));
        }
        if b[2] as u16 * 256 + b[3] as u16 != 0x0800 {
            return Err(Fail::new(ENOTSUP, "unsupported PTYPE"));
        }
        if b[4] != 6 {
            return Err(Fail::new(ENOTSUP, "unsupported HLEN"));
        }
        if b[5] != 4 {
            return Err(Fail::new(ENOTSUP, "unsupported PLEN"));
        }
        let op: u16 = b[6] as u16 * 256 + b[7] as u16;
        let operation = if op == 1 {
            ArpOperation::Request
        } else if op == 2 {
            ArpOperation::Reply
        } else {
            return Err(Fail::new(ENOTSUP, "unsupported ARP operation"));
        };
        let h = ArpHeader {
            operation,
            sender_hardware_addr: MacAddress([b[8], b[9], b[10], b[11], b[12], b[13]]),
            sender_protocol_addr: Ipv4Addr([b[14], b[15], b[16], b[17]]),
            target_hardware_addr: MacAddress([b[18], b[19], b[20], b[21], b[22], b[23]]),
            target_protocol_addr: Ipv4Addr([b[24], b[25], b[26], b[27]]),
        };
        assert(h.sender_hardware_addr.0@ =~= buf@.subrange(8, 14));
        assert(h.sender_protocol_addr.0@ =~= buf@.subrange(14, 18));
        assert(h.target_hardware_addr.0@ =~= buf@.subrange(18, 24));
        assert(h.target_protocol_addr.0@ =~= buf@.subrange(24, 28));
        Ok(h)
    }

    /// The sender's hardware address.
    pub fn sender_hardware_addr(&self) -> (a: MacAddress)
        ensures
            a == self.sender_hardware_addr,
    {
        self.sender_hardware_addr
    }

    /// The sender's IPv4 address.
    pub fn sender_protocol_addr(&self) -> (a: Ipv4Addr)
        ensures
            a == self.sender_protocol_addr,
    {
        self.sender_protocol_addr
    }

    /// The target's IPv4 address.
    pub fn target_protocol_addr(&self) -> (a: Ipv4Addr)
        ensures
            a == self.target_protocol_addr,
    {
        self.target_protocol_addr
    }

    /// The operation.
    pub fn operation(&self) -> (op: ArpOperation)
        ensures
            op == self.operation,
    {
        self.operation
    }

    /// Writes the message into the first `ARP_MESSAGE_SIZE` bytes of `buf`.
    pub fn serialize(&self, buf: &mut DemiBuffer)
        requires
            old(buf)@.len() >= ARP_MESSAGE_SIZE,
        ensures
            final(buf)@ == arp_message_bytes(*self) + old(buf)@.skip(ARP_MESSAGE_SIZE as int),
            final(buf).spec_headroom() == old(buf).spec_headroom(),
    {
        let op: u8 = match self.operation {
            ArpOperation::Request => 1,
            ArpOperation::Reply => 2,
        };
        let sha = self.sender_hardware_addr.0;
        let spa = self.sender_protocol_addr.0;
        let tha = self.target_hardware_addr.0;
        let tpa = self.target_protocol_addr.0;
        let bytes: [u8; 28] = [
            0, 1, 0x08, 0, 6, 4, 0, op,
            sha[0], sha[1], sha[2], sha[3], sha[4], sha[5],
            spa[0], spa[1], spa[2], spa[3],
            tha[0], tha[1], tha[2], tha[3], tha[4], tha[5],
            tpa[0], tpa[1], tpa[2], tpa[3],
        ];
        assert(bytes@ =~= arp_message_bytes(*self));
        buf.write_at(0, bytes.as_slice());
        assert(buf@ =~= arp_message_bytes(*self) + old(buf)@.skip(ARP_MESSAGE_SIZE as int));
    }

    /// A buffer holding the message, with room in front for the headers of
    /// the lower layers.
    pub fn create_and_serialize(&self) -> (pkt: DemiBuffer)
        ensures
            pkt@ == arp_message_bytes(*self),
            pkt.spec_headroom() == MAX_HEADER_SIZE,
    {
        let mut pkt = DemiBuffer::new_with_headroom(ARP_MESSAGE_SIZE as u16, MAX_HEADER_SIZE as u16);
        self.serialize(&mut pkt);
        assert(pkt@ =~= arp_message_bytes(*self));
        pkt
    }
}

/// The frame of an ARP query from `local_mac` at `local_ipv4` for the hardware
/// address of `remote_ipv4`: an ARP request broadcast on the link.
pub open spec fn arp_query_frame(local_mac: MacAddress, local_ipv4: Ipv4Addr, remote_ipv4: Ipv4Addr) -> Seq<u8> {
    let broadcast = seq![0xffu8, 0xffu8, 0xffu8, 0xffu8, 0xffu8, 0xffu8];
    ethernet2_header_bytes(broadcast, local_mac.0@, 0x0806) + seq![
        0u8,
        1u8,
        0x08u8,
        0u8,
        6u8,
        4u8,
        0u8,
        1u8,
    ] + local_mac.0@ + local_ipv4.0@ + broadcast + remote_ipv4.0@
}

/// Builds the frame of an ARP query from `local_mac` at `local_ipv4` for the
/// hardware address of `remote_ipv4`.
pub fn build_arp_query(local_mac: &MacAddress, local_ipv4: &Ipv4Addr, remote_ipv4: &Ipv4Addr) -> (pkt: DemiBuffer)
    ensures
        pkt@ == arp_query_frame(*local_mac, *local_ipv4, *remote_ipv4),
{
    let body = ArpHeader::new(
        ArpOperation::Request,
        *local_mac,
        *local_ipv4,
        MacAddress::broadcast(),
        *remote_ipv4,
    );
    let mut pkt = body.create_and_serialize();
    let header = Ethernet2Header::new(MacAddress::broadcast(), *local_mac, EtherType2::Arp);
    header.serialize_and_attach(&mut pkt);
    assert(pkt@ =~= arp_query_frame(*local_mac, *local_ipv4, *remote_ipv4));
    pkt
}

/// A written ARP message, followed by anything, is accepted by the parser,
/// which reads back every field that was written.
pub proof fn lemma_written_message_parses(h: ArpHeader, rest: Seq<u8>)
    ensures
        arp_refusal(arp_message_bytes(h) + rest) is None,
        forall|p: ArpHeader| #[trigger] p.describes(arp_message_bytes(h) + rest) ==> {
            &&& p.operation == h.operation
            &&& p.sender_hardware_addr.0@ == h.sender_hardware_addr.0@
            &&& p.sender_protocol_addr.0@ == h.sender_protocol_addr.0@
            &&& p.target_hardware_addr.0@ == h.target_hardware_addr.0@
            &&& p.target_protocol_addr.0@ == h.target_protocol_addr.0@
        },
{
    let b = arp_message_bytes(h) + rest;
    assert(b.subrange(8, 14) =~= h.sender_hardware_addr.0@);
    assert(b.subrange(14, 18) =~= h.sender_protocol_addr.0@);
    assert(b.subrange(18, 24) =~= h.target_hardware_addr.0@);
    assert(b.subrange(24, 28) =~= h.target_protocol_addr.0@);
    assert(be16(b, 6) == h.operation.spec_as_u16() as int);
}

/// The frame of an ARP query is accepted by the Ethernet parser as an ARP
/// frame broadcast from the querying host, and what is left after the Ethernet
/// header is an ARP request from that host's hardware and IPv4 addresses for
/// the queried IPv4 address, with the broadcast address as target hardware
/// address.
pub proof fn lemma_arp_query_frame_parses(local_mac: MacAddress, local_ipv4: Ipv4Addr, remote_ipv4: Ipv4Addr, broadcast: MacAddress)
    requires
        broadcast.0@ == seq![0xffu8, 0xffu8, 0xffu8, 0xffu8, 0xffu8, 0xffu8],
    ensures
        ethernet2_refusal(arp_query_frame(local_mac, local_ipv4, remote_ipv4)) is None,
        arp_query_frame(local_mac, local_ipv4, remote_ipv4).subrange(0, 6) == broadcast.0@,
        arp_query_frame(local_mac, local_ipv4, remote_ipv4).subrange(6, 12) == local_mac.0@,
        EtherType2::spec_from_u16(be16(arp_query_frame(local_mac, local_ipv4, remote_ipv4), 12))
            == Some(EtherType2::Arp),
        arp_query_frame(local_mac, local_ipv4, remote_ipv4).skip(ETHERNET2_HEADER_SIZE as int)
            == arp_message_bytes(
            ArpHeader {
                operation: ArpOperation::Request,
                sender_hardware_addr: local_mac,
                sender_protocol_addr: local_ipv4,
                target_hardware_addr: broadcast,
                target_protocol_addr: remote_ipv4,
            },
        ),
{
    let f = arp_query_frame(local_mac, local_ipv4, remote_ipv4);
    let h = ArpHeader {
        operation: ArpOperation::Request,
        sender_hardware_addr: local_mac,
        sender_protocol_addr: local_ipv4,
        target_hardware_addr: broadcast,
        target_protocol_addr: remote_ipv4,
    };
    assert(f.subrange(0, 6) =~= broadcast.0@);
    assert(f.subrange(6, 12) =~= local_mac.0@);
    assert(f[12] == 0x08 && f[13] == 0x06);
    assert(f.skip(ETHERNET2_HEADER_SIZE as int) =~= arp_message_bytes(h));
}

} // verus!
