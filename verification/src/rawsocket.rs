//! Raw packet sockets: link-layer socket addresses, and the checks made on the
//! results of the system calls on a raw socket. The system calls themselves are
//! made by the caller.

use vstd::prelude::*;
use crate::fail::{Fail, EAGAIN};

verus! {

/// Address family of packet sockets (`AF_PACKET` on Linux).
pub const AF_PACKET: u16 = 17;
/// Protocol number that selects every protocol (`ETH_P_ALL` on Linux).
pub const ETH_P_ALL: u16 = 0x0003;
/// Length of an Ethernet address (`ETH_ALEN`).
pub const ETH_ALEN: u8 = 6;

/// The two bytes of `x` in network (big-endian) byte order.
pub open spec fn be_bytes16(x: u16) -> Seq<u8> {
    seq![(x / 256) as u8, (x % 256) as u8]
}

/// A link-layer socket address (the fields of `sockaddr_ll`). The protocol
/// is held as its two bytes in network byte order, as `sockaddr_ll` stores it.
#[derive(Clone, Copy, Debug)]
pub struct RawSocketAddr {
    pub sll_family: u16,
    pub sll_protocol: [u8; 2],
    pub sll_ifindex: i32,
    pub sll_hatype: u16,
    pub sll_pkttype: u8,
    pub sll_halen: u8,
    pub sll_addr: [u8; 8],
}

impl RawSocketAddr {
    /// The address of interface `ifidx` and hardware address `mac`, for every
    /// protocol. The hardware address is padded to eight bytes with zeros.
    pub fn new(ifidx: i32, mac: &[u8; 6]) -> (r: RawSocketAddr)
        ensures
            r.sll_family == AF_PACKET,
            r.sll_protocol@ == be_bytes16(ETH_P_ALL),
            r.sll_ifindex == ifidx,
            r.sll_hatype == 0,
            r.sll_pkttype == 0,
            r.sll_halen == ETH_ALEN,
            r.sll_addr@ == mac@ + seq![0u8, 0u8],
    {
        // Pad MAC address to 8 bytes.
        let mut addr = [0u8; 8];
        let mut i: usize = 0;
        while i < 6
            invariant
                i <= 6,
                forall|k: int| 0 <= k < i ==> addr@[k] == mac@[k],
                forall|k: int| i <= k < 8 ==> addr@[k] == 0,
            decreases 6 - i,
        {
            addr[i] = mac[i];
            i = i + 1;
        }
        assert(addr@ =~= mac@ + seq![0u8, 0u8]);
        // The protocol in network byte order.
        let protocol: [u8; 2] = [(ETH_P_ALL / 256) as u8, (ETH_P_ALL % 256) as u8];
        assert(protocol@ =~= be_bytes16(ETH_P_ALL));
        RawSocketAddr {
            sll_family: AF_PACKET,
            sll_protocol: protocol,
            sll_ifindex: ifidx,
            sll_hatype: 0,
            sll_pkttype: 0,
            sll_halen: ETH_ALEN,
            sll_addr: addr,
        }
    }

    /// Whether every field of the address is zero.
    pub open spec fn is_zeroed(&self) -> bool {
        &&& self.sll_family == 0
        &&& self.sll_protocol@ == seq![0u8, 0u8]
        &&& self.sll_ifindex == 0
        &&& self.sll_hatype == 0
        &&& self.sll_pkttype == 0
        &&& self.sll_halen == 0
        &&& self.sll_addr@ == seq![0u8, 0u8, 0u8, 0u8, 0u8, 0u8, 0u8, 0u8]
    }
}

impl Default for RawSocketAddr {
    /// The address with every field zero.
    fn default() -> (r: RawSocketAddr)
        ensures
            r.is_zeroed(),
    {
        let r = RawSocketAddr {
            sll_family: 0,
            sll_protocol: [0u8; 2],
            sll_ifindex: 0,
            sll_hatype: 0,
            sll_pkttype: 0,
            sll_halen: 0,
            sll_addr: [0u8; 8],
        };
        assert(r.sll_addr@ =~= seq![0u8, 0u8, 0u8, 0u8, 0u8, 0u8, 0u8, 0u8]);
        assert(r.sll_protocol@ =~= seq![0u8, 0u8]);
        r
    }
}

/// A raw packet socket, by its file descriptor.
#[derive(Clone, Copy, Debug)]
pub struct RawSocket(pub i32);

impl RawSocket {
    /// The socket that `socket(2)` returned as `fd`; fails with `EAGAIN` when
    /// the call failed (returned -1).
    pub fn new(fd: i32) -> (r: Result<RawSocket, Fail>)
        ensures
            fd == -1 ==> (r matches Err(e) && e.errno == EAGAIN),
            fd != -1 ==> (r matches Ok(s) && s.0 == fd),
    {
        if fd == -1 {
            return Err(Fail::new(EAGAIN, "failed to create raw socket"));
        }
        Ok(RawSocket(fd))
    }

    /// The outcome of binding the socket, given what `bind(2)` returned; fails
    /// with `EAGAIN` when the call failed (returned -1).
    pub fn bind(&self, ret: i32) -> (r: Result<(), Fail>)
        ensures
            ret == -1 ==> (r matches Err(e) && e.errno == EAGAIN),
            ret != -1 ==> r is Ok,
    {
        if ret == -1 {
            return Err(Fail::new(EAGAIN, "failed to bind raw socket"));
        }
        Ok(())
    }

    /// The number of bytes sent, given what `sendto(2)` returned; fails with
    /// `EAGAIN` when the call failed (returned -1).
    pub fn sendto(&self, ret: isize) -> (r: Result<usize, Fail>)
        ensures
            ret == -1 ==> (r matches Err(e) && e.errno == EAGAIN),
            ret != -1 ==> r == Ok::<usize, Fail>(ret as usize),
    {
        if ret == -1 {
            return Err(Fail::new(EAGAIN, "failed to send data through raw socket"));
        }
        Ok(ret as usize)
    }

    /// The number of bytes received and the sender, given what `recvfrom(2)`
    /// returned and the address it filled; fails with `EAGAIN` when the call
    /// failed (returned -1).
    pub fn recvfrom(&self, ret: i32, rawaddr: RawSocketAddr) -> (r: Result<(usize, RawSocketAddr), Fail>)
        ensures
            ret == -1 ==> (r matches Err(e) && e.errno == EAGAIN),
            ret != -1 ==> (r matches Ok((n, a)) && n == ret as usize && a == rawaddr),
    {
        if ret == -1 {
            return Err(Fail::new(EAGAIN, "failed to receive data from raw socket"));
        }
        Ok((ret as usize, rawaddr))
    }
}

} // verus!
