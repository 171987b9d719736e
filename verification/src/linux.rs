//! The logic of the raw-socket (Linux) runtime: its construction from the
//! interface index, the socket and the MTU; buffer allocation with room for
//! headers; where each transmitted frame goes and what a send's outcome means;
//! and turning a received frame into a batch of packets. The system calls and
//! the reading of files are made by the caller.

use vstd::prelude::*;
use arrayvec::ArrayVec;
use std::num::ParseIntError;
use crate::buffer::{DemiBuffer, zeros, MAX_HEADER_SIZE};
use crate::ethernet::{Ethernet2Header, ethernet2_refusal};
use crate::fail::{Fail, EAGAIN, EINVAL, EIO};
use crate::rawsocket::{RawSocket, RawSocketAddr, AF_PACKET, ETH_P_ALL, ETH_ALEN, be_bytes16};

verus! {

#[verifier::external_type_specification]
#[verifier::external_body]
#[verifier::reject_recursive_types(T)]
pub struct ExArrayVec<T, const CAP: usize>(ArrayVec<T, CAP>);

#[verifier::external_type_specification]
#[verifier::external_body]
pub struct ExParseIntError(ParseIntError);

/// Largest number of packets sent or received in one batch.
pub const MAX_BATCH_SIZE_NUM_PACKETS: usize = 4;
/// Size of the buffer that one receive fills at most.
pub const RECVBUF_SIZE_MAX: usize = 9216;

/// What a batch of packets holds: the contents of each packet, in order.
pub uninterp spec fn batch_contents(b: ArrayVec<DemiBuffer, MAX_BATCH_SIZE_NUM_PACKETS>) -> Seq<Seq<u8>>;

/// `ArrayVec::new`: an empty batch.
#[verifier::external_body]
fn batch_new() -> (empty: ArrayVec<DemiBuffer, MAX_BATCH_SIZE_NUM_PACKETS>)
    ensures
        batch_contents(empty) == Seq::<Seq<u8>>::empty(),
{
    ArrayVec::new()
}

/// `ArrayVec::push`: appends a packet to a batch that is not full.
#[verifier::external_body]
fn batch_push(b: &mut ArrayVec<DemiBuffer, MAX_BATCH_SIZE_NUM_PACKETS>, packet: DemiBuffer)
    requires
        batch_contents(*old(b)).len() < MAX_BATCH_SIZE_NUM_PACKETS,
    ensures
        batch_contents(*final(b)) == batch_contents(*old(b)).push(packet@),
{
    b.push(packet)
}

/// Whether `c` is white space in the sense of Unicode's `White_Space`
/// property.
pub open spec fn is_white_space(c: char) -> bool {
    let u = c as u32;
    (0x9 <= u <= 0xd) || u == 0x20 || u == 0x85 || u == 0xa0 || u == 0x1680 || (0x2000 <= u
        <= 0x200a) || u == 0x2028 || u == 0x2029 || u == 0x202f || u == 0x205f || u == 0x3000
}

/// `s` without its leading white space.
pub open spec fn trim_start(s: Seq<char>) -> Seq<char>
    decreases s.len(),
{
    if s.len() > 0 && is_white_space(s[0]) {
        trim_start(s.drop_first())
    } else {
        s
    }
}

/// `s` without its trailing white space.
pub open spec fn trim_end(s: Seq<char>) -> Seq<char>
    decreases s.len(),
{
    if s.len() > 0 && is_white_space(s.last()) {
        trim_end(s.drop_last())
    } else {
        s
    }
}

/// `str::trim`: the string without its leading and trailing white space.
#[verifier::external_body]
fn str_trim(s: &str) -> (t: &str)
    ensures
        t@ == trim_end(trim_start(s@)),
{
    s.trim()
}

/// Whether every character of `s` is an ASCII digit.
pub open spec fn all_digits(s: Seq<char>) -> bool {
    forall|i: int| 0 <= i < s.len() ==> '0' <= #[trigger] s[i] <= '9'
}

/// The number that the decimal digits `s` spell.
pub open spec fn digits_value(s: Seq<char>) -> int
    decreases s.len(),
{
    if s.len() == 0 {
        0
    } else {
        digits_value(s.drop_last()) * 10 + (s.last() as int - '0' as int)
    }
}

/// The `i32` that `s` spells: an optional `+` or `-` sign, then one or more
/// decimal digits, for a value in range; nothing otherwise.
pub open spec fn spec_parse_i32(s: Seq<char>) -> Option<i32> {
    let negative = s.len() > 0 && s[0] == '-';
    let digits = if s.len() > 0 && (s[0] == '-' || s[0] == '+') {
        s.drop_first()
    } else {
        s
    };
    let value = if negative {
        -digits_value(digits)
    } else {
        digits_value(digits)
    };
    if digits.len() > 0 && all_digits(digits) && i32::MIN <= value <= i32::MAX {
        Some(value as i32)
    } else {
        None
    }
}

/// `str::parse::<i32>`: the `i32` that the string spells, or an error.
#[verifier::external_body]
fn str_parse_i32(s: &str) -> (r: Result<i32, ParseIntError>)
    ensures
        r is Ok <==> spec_parse_i32(s@) is Some,
        r matches Ok(v) ==> spec_parse_i32(s@) == Some(v),
{
    s.parse::<i32>()
}

/// The interface index written in `contents` (the text of the interface's
/// `ifindex` file), white space around it ignored.
pub fn ifindex_from_text(contents: &str) -> (r: Result<i32, ParseIntError>)
    ensures
        r is Ok <==> spec_parse_i32(trim_end(trim_start(contents@))) is Some,
        r matches Ok(v) ==> spec_parse_i32(trim_end(trim_start(contents@))) == Some(v),
{
    str_parse_i32(str_trim(contents))
}

/// The interface index written in `contents`, white space around it ignored;
/// fails with `EINVAL` when it cannot be parsed.
pub fn parse_ifindex(contents: &str) -> (r: Result<i32, Fail>)
    ensures
        r is Ok <==> spec_parse_i32(trim_end(trim_start(contents@))) is Some,
        r matches Ok(v) ==> spec_parse_i32(trim_end(trim_start(contents@))) == Some(v),
        r matches Err(e) ==> e.errno == EINVAL,
{
    match ifindex_from_text(contents) {
        Ok(i) => Ok(i),
        Err(_) => Err(Fail::new(EINVAL, "could not parse ifindex")),
    }
}

/// `format!`: the cause of a partial send, with the packet's size and the
/// number of bytes sent. Nothing is stated of the text.
#[verifier::external_body]
fn partial_send_cause(packet_size: usize, sent: usize) -> String {
    format!("transmit: partial send: packet_size={:?} sent={:?}", packet_size, sent)
}

/// The raw-socket runtime: the interface it is bound to, its socket, and the
/// largest body a buffer may hold.
#[derive(Clone, Copy, Debug)]
pub struct LinuxRuntime {
    ifindex: i32,
    socket: RawSocket,
    max_body_size: usize,
}

impl LinuxRuntime {
    /// The interface index.
    pub closed spec fn spec_ifindex(&self) -> i32 {
        self.ifindex
    }

    /// The socket.
    pub closed spec fn spec_socket(&self) -> RawSocket {
        self.socket
    }

    /// The largest body a buffer may hold.
    pub closed spec fn spec_max_body_size(&self) -> usize {
        self.max_body_size
    }

    /// The runtime for interface `ifindex` (parsed from `ifindex_text`), the
    /// bound raw socket `socket`, and an MTU of `mtu` bytes. Fails with
    /// `EINVAL` when the interface index cannot be parsed, whatever the MTU.
    /// Otherwise the largest body is the MTU less the room for headers, so the
    /// MTU must leave that room.
    pub fn new(ifindex_text: &str, socket: RawSocket, mtu: u16) -> (r: Result<LinuxRuntime, Fail>)
        requires
            spec_parse_i32(trim_end(trim_start(ifindex_text@))) is Some ==> mtu as usize
                >= MAX_HEADER_SIZE,
        ensures
            r is Ok <==> spec_parse_i32(trim_end(trim_start(ifindex_text@))) is Some,
            r matches Ok(rt) ==> {
                &&& spec_parse_i32(trim_end(trim_start(ifindex_text@))) == Some(rt.spec_ifindex())
                &&& rt.spec_socket() == socket
                &&& rt.spec_max_body_size() == mtu as usize - MAX_HEADER_SIZE
            },
            r matches Err(e) ==> e.errno == EINVAL,
    {
        let ifindex = match parse_ifindex(ifindex_text) {
            Ok(i) => i,
            Err(e) => return Err(e),
        };
        let max_body_size = mtu as usize - MAX_HEADER_SIZE;
        Ok(LinuxRuntime { ifindex, socket, max_body_size })
    }

    /// The interface index.
    pub fn ifindex(&self) -> (i: i32)
        ensures
            i == self.spec_ifindex(),
    {
        self.ifindex
    }

    /// The socket.
    pub fn socket(&self) -> (s: RawSocket)
        ensures
            s == self.spec_socket(),
    {
        self.socket
    }

    /// The largest body a buffer may hold.
    pub fn max_buffer_size_bytes(&self) -> (n: usize)
        ensures
            n == self.spec_max_body_size(),
    {
        self.max_body_size
    }

    /// A zeroed buffer of `size` bytes (taken modulo 2^16) with room in front
    /// for the headers of every layer.
    pub fn allocate_demi_buffer(&self, size: usize) -> (r: Result<DemiBuffer, Fail>)
        ensures
            r matches Ok(b) && b@ == zeros((size as u16) as nat) && b.spec_headroom()
                == MAX_HEADER_SIZE,
    {
        Ok(DemiBuffer::new_with_headroom(size as u16, MAX_HEADER_SIZE as u16))
    }

    /// The address that `packet`, an Ethernet frame, is sent to: this
    /// runtime's interface and the frame's destination hardware address.
    pub fn transmit_addr(&self, packet: &DemiBuffer) -> (addr: RawSocketAddr)
        requires
            ethernet2_refusal(packet@) is None,
        ensures
            addr.sll_family == AF_PACKET,
            addr.sll_protocol@ == be_bytes16(ETH_P_ALL),
            addr.sll_ifindex == self.spec_ifindex(),
            addr.sll_hatype == 0,
            addr.sll_pkttype == 0,
            addr.sll_halen == ETH_ALEN,
            addr.sll_addr@ == packet@.subrange(0, 6) + seq![0u8, 0u8],
    {
        // Parse the header on a copy, keeping the packet untouched for sending.
        let mut copy = packet.clone();
        let header = match Ethernet2Header::parse_and_strip(&mut copy) {
            Ok(h) => h,
            Err(_) => vstd::pervasive::unreached(),
        };
        let dst_mac = header.dst_addr().to_array();
        RawSocketAddr::new(self.ifindex, &dst_mac)
    }

    /// What sending a packet of `packet_len` bytes came to, given the send's
    /// outcome: success when the whole packet went out, `EAGAIN` when only part
    /// of it did, `EIO` when the send failed.
    pub fn transmit_outcome(&self, packet_len: usize, sent: Result<usize, Fail>) -> (r: Result<(), Fail>)
        ensures
            match sent {
                Ok(n) => if n == packet_len {
                    r is Ok
                } else {
                    r matches Err(e) && e.errno == EAGAIN
                },
                Err(_) => r matches Err(e) && e.errno == EIO,
            },
    {
        match sent {
            Ok(n) => {
                if n == packet_len {
                    Ok(())
                } else {
                    Err(Fail::with_cause(EAGAIN, partial_send_cause(packet_len, n)))
                }
            },
            Err(_) => Err(Fail::new(EIO, "send failed")),
        }
    }

    /// The batch of packets received, given the outcome of a receive into
    /// `recv_buffer` (of `RECVBUF_SIZE_MAX` bytes): nothing when the receive
    /// failed, otherwise one packet of the bytes received.
    pub fn receive(
        &mut self,
        received: Result<(usize, RawSocketAddr), Fail>,
        recv_buffer: &[u8],
    ) -> (r: Result<ArrayVec<DemiBuffer, MAX_BATCH_SIZE_NUM_PACKETS>, Fail>)
        requires
            recv_buffer@.len() == RECVBUF_SIZE_MAX,
            received matches Ok((n, _)) ==> n <= RECVBUF_SIZE_MAX,
        ensures
            *final(self) == *old(self),
            r is Ok,
            r matches Ok(batch) ==> batch_contents(batch) == match received {
                Ok((n, _)) => seq![recv_buffer@.take(n as int)],
                Err(_) => Seq::<Seq<u8>>::empty(),
            },
    {
        let nbytes = match received {
            Ok((n, _src)) => n,
            Err(_) => return Ok(batch_new()),
        };
        let mut packet = match DemiBuffer::from_slice(recv_buffer) {
            Ok(p) => p,
            Err(e) => return Err(e),
        };
        match packet.trim(RECVBUF_SIZE_MAX - nbytes) {
            Ok(()) => {},
            Err(e) => return Err(e),
        }
        let mut packets = batch_new();
        batch_push(&mut packets, packet);
        assert(batch_contents(packets) =~= seq![recv_buffer@.take(nbytes as int)]);
        Ok(packets)
    }
}

} // verus!
