//! IPv4 headers: the header checksum, parsing a datagram's header off the
//! front of a buffer, and writing a header into a byte slice.

use vstd::prelude::*;
use crate::buffer::DemiBuffer;
use crate::fail::{Fail, EBADMSG, ENOTSUP};

verus! {

/// Size of an IPv4 header without options.
pub const IPV4_HEADER_MIN_SIZE: u16 = 20;
/// Size of an IPv4 header with the largest options field.
pub const IPV4_HEADER_MAX_SIZE: u16 = 60;
/// The only IP version this stack handles.
pub const IPV4_VERSION: u8 = 4;

/// Transport protocols carried over IPv4 that this stack handles.
#[derive(Clone, Copy, Debug, PartialEq, Eq, Structural)]
pub enum IpProtocol {
    ICMPv4,
    TCP,
    UDP,
}

impl IpProtocol {
    /// The protocol that number `b` stands for, if it is a handled one.
    pub open spec fn spec_from_u8(b: u8) -> Option<IpProtocol> {
        if b == 1 {
            Some(IpProtocol::ICMPv4)
        } else if b == 6 {
            Some(IpProtocol::TCP)
        } else if b == 17 {
            Some(IpProtocol::UDP)
        } else {
            None
        }
    }

    /// The protocol's number in the IPv4 header.
    pub open spec fn spec_as_u8(self) -> u8 {
        match self {
            IpProtocol::ICMPv4 => 1,
            IpProtocol::TCP => 6,
            IpProtocol::UDP => 17,
        }
    }

    /// The protocol's number in the IPv4 header.
    pub fn as_u8(self) -> (b: u8)
        ensures
            b == self.spec_as_u8(),
    {
        match self {
            IpProtocol::ICMPv4 => 1,
            IpProtocol::TCP => 6,
            IpProtocol::UDP => 17,
        }
    }

    /// The protocol with number `b`. Fails with `ENOTSUP` for a protocol this
    /// stack does not handle.
    pub fn try_from(b: u8) -> (r: Result<IpProtocol, Fail>)
        ensures
            r is Ok <==> IpProtocol::spec_from_u8(b) is Some,
            r matches Ok(p) ==> IpProtocol::spec_from_u8(b) == Some(p),
            r matches Ok(p) ==> p.spec_as_u8() == b,
            (b == 1 || b == 6 || b == 17) ==> r is Ok,
            r matches Err(e) ==> e.errno == ENOTSUP,
    {
        if b == 1 {
            Ok(IpProtocol::ICMPv4)
        } else if b == 6 {
            Ok(IpProtocol::TCP)
        } else if b == 17 {
            Ok(IpProtocol::UDP)
        } else {
            Err(Fail::new(ENOTSUP, "unsupported IP protocol"))
        }
    }
}

/// An IPv4 address, as its four octets in network order.
#[derive(Clone, Copy, Debug, PartialEq, Eq)]
pub struct Ipv4Addr(pub [u8; 4]);

impl Ipv4Addr {
    /// The address `a.b.c.d`.
    pub fn new(a: u8, b: u8, c: u8, d: u8) -> (r: Ipv4Addr)
        ensures
            r.0@ == seq![a, b, c, d],
    {
        let r = Ipv4Addr([a, b, c, d]);
        assert(r.0@ =~= seq![a, b, c, d]);
        r
    }

    /// The four octets of the address, in network order.
    pub fn octets(&self) -> (r: [u8; 4])
        ensures
            r@ == self.0@,
    {
        self.0
    }
}

/// The big-endian 16-bit word at bytes `i` and `i + 1`.
pub open spec fn be16(b: Seq<u8>, i: int) -> int {
    b[i] as int * 256 + b[i + 1] as int
}

/// Sum of the first `n` 16-bit words of `b`, leaving out word 5 (bytes 10 and 11,
/// where the header checksum itself is stored).
pub open spec fn checksum_word_sum(b: Seq<u8>, n: nat) -> int
    decreases n,
{
    if n == 0 {
        0
    } else {
        checksum_word_sum(b, (n - 1) as nat) + if n - 1 == 5 {
            0
        } else {
            be16(b, 2 * (n - 1))
        }
    }
}

/// End-around-carry reduction of a positive sum into `1..=0xffff`.
pub open spec fn fold_carries(s: int) -> int {
    (s - 1) % 65535 + 1
}

/// The IPv4 header checksum of the header bytes `b`: the one's complement of the
/// one's complement sum of its complete 16-bit words, the checksum word left out.
pub open spec fn spec_checksum(b: Seq<u8>) -> u16 {
    (65535 - fold_carries(65535 + checksum_word_sum(b, b.len() / 2))) as u16
}

/// Word sums are never negative.
proof fn lemma_word_sum_nonneg(b: Seq<u8>, n: nat)
    ensures
        checksum_word_sum(b, n) >= 0,
    decreases n,
{
    if n > 0 {
        lemma_word_sum_nonneg(b, (n - 1) as nat);
    }
}

/// Adding a word to a reduced sum and reducing again gives the reduction of the
/// plain sum.
proof fn lemma_fold_step(x: int, w: int)
    requires
        x >= 1,
        0 <= w <= 65535,
    ensures
        1 <= fold_carries(x) <= 65535,
        fold_carries(x) + w > 65535 ==> fold_carries(x + w) == fold_carries(x) + w - 65535,
        fold_carries(x) + w <= 65535 ==> fold_carries(x + w) == fold_carries(x) + w,
{
    let q = (x - 1) / 65535;
    let r = (x - 1) % 65535;
    vstd::arithmetic::div_mod::lemma_fundamental_div_mod(x - 1, 65535);
    if r + w < 65535 {
        vstd::arithmetic::div_mod::lemma_fundamental_div_mod_converse(x + w - 1, 65535, q, r + w);
    } else {
        vstd::arithmetic::div_mod::lemma_fundamental_div_mod_converse(
            x + w - 1,
            65535,
            q + 1,
            r + w - 65535,
        );
    }
}

/// Computes the IPv4 header checksum of the header bytes `buf`. The checksum
/// field (bytes 10 and 11) is left out of the sum, so the result does not
/// depend on what it holds.
pub fn compute_checksum(buf: &[u8]) -> (c: u16)
    ensures
        c == spec_checksum(buf@),
{
    let len: usize = buf.len();
    let n: usize = len / 2;
    let mut state: u32 = 0xffff;
    let mut i: usize = 0;
    proof {
        lemma_fold_step(65535, 0);
    }
    while i < n
        invariant
            len == buf@.len(),
            n == len / 2,
            i <= n,
            1 <= state <= 65535,
            state as int == fold_carries(65535 + checksum_word_sum(buf@, i as nat)),
        decreases n - i,
    {
        proof {
            lemma_word_sum_nonneg(buf@, i as nat);
        }
        assert(2 * i + 1 < buf@.len());
        if i != 5 {
            let w: u32 = buf[2 * i] as u32 * 256 + buf[2 * i + 1] as u32;
            proof {
                lemma_fold_step(65535 + checksum_word_sum(buf@, i as nat), w as int);
            }
            state = state + w;
            if state > 0xffff {
                state = state - 0xffff;
            }
        }
        i = i + 1;
    }
    (0xffff - state) as u16
}

/// Header size in bytes given by the IHL field of the datagram `b`.
pub open spec fn ipv4_header_size(b: Seq<u8>) -> int {
    (b[0] as int % 16) * 4
}

/// The total length field of the datagram `b`.
pub open spec fn ipv4_total_length(b: Seq<u8>) -> int {
    be16(b, 2)
}

/// The three flag bits of the datagram `b`.
pub open spec fn ipv4_flags(b: Seq<u8>) -> int {
    be16(b, 6) / 8192
}

/// The fragment offset field of the datagram `b`.
pub open spec fn ipv4_fragment_offset(b: Seq<u8>) -> int {
    be16(b, 6) % 8192
}

/// Why the datagram `b` is refused, if it is: the error number of the first
/// check that fails, in the order the parser makes them. The DSCP, ECN and
/// identification fields are not checked.
pub open spec fn ipv4_refusal(b: Seq<u8>) -> Option<i32> {
    if b.len() < 20 {
        Some(EBADMSG)
    } else if b[0] / 16 != 4 {
        Some(ENOTSUP)
    } else if ipv4_header_size(b) < 20 {
        Some(EBADMSG)
    } else if b.len() < ipv4_header_size(b) {
        Some(EBADMSG)
    } else if ipv4_total_length(b) < ipv4_header_size(b) {
        Some(EBADMSG)
    } else if ipv4_total_length(b) > b.len() {
        Some(EBADMSG)
    } else if ipv4_flags(b) >= 4 {
        // The reserved flag is set.
        Some(EBADMSG)
    } else if ipv4_flags(b) % 2 == 1 {
        // More fragments follow: fragmentation is not handled.
        Some(ENOTSUP)
    } else if ipv4_fragment_offset(b) != 0 {
        Some(ENOTSUP)
    } else if b[8] == 0 {
        // No time to live left.
        Some(EBADMSG)
    } else if IpProtocol::spec_from_u8(b[9]) is None {
        Some(ENOTSUP)
    } else if be16(b, 10) == 65535 {
        Some(EBADMSG)
    } else if be16(b, 10) != spec_checksum(b.take(ipv4_header_size(b))) as int {
        Some(EBADMSG)
    } else {
        None
    }
}

/// The fields of an IPv4 header.
#[derive(Clone, Copy, Debug)]
pub struct Ipv4Header {
    pub version: u8,
    pub ihl: u8,
    pub dscp: u8,
    pub ecn: u8,
    pub total_length: u16,
    pub identification: u16,
    pub flags: u8,
    pub fragment_offset: u16,
    pub time_to_live: u8,
    pub protocol: IpProtocol,
    pub header_checksum: u16,
    pub src_addr: Ipv4Addr,
    pub dst_addr: Ipv4Addr,
}

impl Ipv4Header {
    /// The header fields are those stored at the front of the datagram `b`.
    pub open spec fn describes(self, b: Seq<u8>) -> bool {
        &&& self.version as int == b[0] / 16
        &&& self.ihl as int == b[0] % 16
        &&& self.dscp as int == b[1] / 4
        &&& self.ecn as int == b[1] % 4
        &&& self.total_length as int == be16(b, 2)
        &&& self.identification as int == be16(b, 4)
        &&& self.flags as int == ipv4_flags(b)
        &&& self.fragment_offset as int == ipv4_fragment_offset(b)
        &&& self.time_to_live == b[8]
        &&& IpProtocol::spec_from_u8(b[9]) == Some(self.protocol)
        &&& self.header_checksum as int == be16(b, 10)
        &&& self.src_addr.0@ == b.subrange(12, 16)
        &&& self.dst_addr.0@ == b.subrange(16, 20)
    }

    /// The source address.
    pub fn src_addr(&self) -> (a: Ipv4Addr)
        ensures
            a == self.src_addr,
    {
        self.src_addr
    }

    /// The destination address.
    pub fn dst_addr(&self) -> (a: Ipv4Addr)
        ensures
            a == self.dst_addr,
    {
        self.dst_addr
    }

    /// The transport protocol of the payload.
    pub fn protocol(&self) -> (p: IpProtocol)
        ensures
            p == self.protocol,
    {
        self.protocol
    }

    /// Parses the IPv4 header at the front of `buf`. On success the buffer is
    /// left holding the payload: the header and any padding past the total
    /// length are removed. On failure the buffer is left unchanged and the error
    /// number is that of the first failed check (see `ipv4_refusal`).
    pub fn parse_and_strip(buf: &mut DemiBuffer) -> (r: Result<Ipv4Header, Fail>)
        ensures
            r is Ok <==> ipv4_refusal(old(buf)@) is None,
            r matches Ok(h) ==> h.describes(old(buf)@) && final(buf)@ == old(buf)@.subrange(
                ipv4_header_size(old(buf)@),
                ipv4_total_length(old(buf)@),
            ),
            r matches Err(e) ==> ipv4_refusal(old(buf)@) == Some(e.errno) && final(buf)@ == old(
                buf,
            )@,
    {
        let ghost b = buf@;
        let len = buf.len();
        if len < 20 {
            return Err(Fail::new(EBADMSG, "ipv4 datagram too small"));
        }
        let bytes = buf.as_slice();

        // Version and internet header length.
        let version: u8 = bytes[0] / 16;
        if version != IPV4_VERSION {
            return Err(Fail::new(ENOTSUP, "unsupported IP version"));
        }
        let ihl: u8 = bytes[0] % 16;
        let hdr_size: usize = ihl as usize * 4;
        if hdr_size < 20 {
            return Err(Fail::new(EBADMSG, "ipv4 IHL is too small"));
        }
        if len < hdr_size {
            return Err(Fail::new(EBADMSG, "ipv4 datagram too small to fit in header"));
        }

        // Differentiated services and congestion notification are not checked.
        let dscp: u8 = bytes[1] / 4;
        let ecn: u8 = bytes[1] % 4;

        // Total length.
        let total_length: u16 = bytes[2] as u16 * 256 + bytes[3] as u16;
        if (total_length as usize) < hdr_size {
            return Err(Fail::new(EBADMSG, "ipv4 datagram smaller than header"));
        }
        if total_length as usize > len {
            return Err(Fail::new(EBADMSG, "ipv4 datagram size mismatch"));
        }

        // Identification.
        let identification: u16 = bytes[4] as u16 * 256 + bytes[5] as u16;

        // Flags and fragment offset.
        let field: u16 = bytes[6] as u16 * 256 + bytes[7] as u16;
        let flags: u8 = (field / 8192) as u8;
        if flags >= 4 {
            return Err(Fail::new(EBADMSG, "ipv4 reserved flag is set"));
        }
        if flags % 2 == 1 {
            return Err(Fail::new(ENOTSUP, "ipv4 fragmentation is not supported"));
        }
        let fragment_offset: u16 = field % 8192;
        if fragment_offset != 0 {
            return Err(Fail::new(ENOTSUP, "ipv4 fragmentation is not supported"));
        }

        // Time to live.
        let time_to_live: u8 = bytes[8];
        if time_to_live == 0 {
            return Err(Fail::new(EBADMSG, "ipv4 datagram too old"));
        }

        // Protocol.
        let protocol = match IpProtocol::try_from(bytes[9]) {
            Ok(p) => p,
            Err(e) => return Err(e),
        };

        // Header checksum.
        let header_checksum: u16 = bytes[10] as u16 * 256 + bytes[11] as u16;
        if header_checksum == 0xffff {
            return Err(Fail::new(EBADMSG, "ipv4 checksum invalid"));
        }
        let hdr: &[u8] = &bytes[0..hdr_size];
        assert(hdr@ == b.take(hdr_size as int));
        if header_checksum != compute_checksum(hdr) {
            return Err(Fail::new(EBADMSG, "ipv4 checksum mismatch"));
        }

        // Addresses.
        let src_addr = Ipv4Addr([bytes[12], bytes[13], bytes[14], bytes[15]]);
        let dst_addr = Ipv4Addr([bytes[16], bytes[17], bytes[18], bytes[19]]);
        assert(src_addr.0@ =~= b.subrange(12, 16));
        assert(dst_addr.0@ =~= b.subrange(16, 20));

        // Drop padding past the total length, then the header.
        let padding: usize = len - total_length as usize;
        // Cannot fail: the total length fits in the buffer and covers the header.
        let _trimmed = buf.trim(padding);
        let _adjusted = buf.adjust(hdr_size);
        assert(buf@ =~= b.subrange(hdr_size as int, total_length as int));
        Ok(Ipv4Header {
            version,
            ihl,
            dscp,
            ecn,
            total_length,
            identification,
            flags,
            fragment_offset,
            time_to_live,
            protocol,
            header_checksum,
            src_addr,
            dst_addr,
        })
    }
}


/// The protocols handled are exactly ICMP (number 1), TCP (6) and UDP (17):
/// each of these numbers is read as its protocol, every other number is
/// refused, and every protocol is read back from its own number.
pub proof fn lemma_handled_protocols(b: u8, p: IpProtocol)
    ensures
        IpProtocol::spec_from_u8(b) is Some <==> (b == 1 || b == 6 || b == 17),
        b == 1 ==> IpProtocol::spec_from_u8(b) == Some(IpProtocol::ICMPv4),
        b == 6 ==> IpProtocol::spec_from_u8(b) == Some(IpProtocol::TCP),
        b == 17 ==> IpProtocol::spec_from_u8(b) == Some(IpProtocol::UDP),
        IpProtocol::spec_from_u8(p.spec_as_u8()) == Some(p),
        IpProtocol::spec_from_u8(b) matches Some(q) ==> q.spec_as_u8() == b,
{
}

/// Changing one complete word of the header bytes, other than the checksum
/// word, changes the word sum by exactly the change in the word, from that
/// word on.
proof fn lemma_word_sum_one_word_changed(x: Seq<u8>, y: Seq<u8>, k: int, d: int, n: nat)
    requires
        x.len() == y.len(),
        2 * n <= x.len(),
        0 <= k,
        2 * k + 1 < x.len(),
        k != 5,
        forall|i: int| 0 <= i < x.len() && i != 2 * k && i != 2 * k + 1 ==> x[i] == y[i],
        be16(y, 2 * k) == be16(x, 2 * k) + d,
    ensures
        checksum_word_sum(y, n) == checksum_word_sum(x, n) + if n > k {
            d
        } else {
            0
        },
    decreases n,
{
    if n > 0 {
        lemma_word_sum_one_word_changed(x, y, k, d, (n - 1) as nat);
        let j = 2 * (n - 1);
        if n - 1 != k && n - 1 != 5 {
            assert(x[j] == y[j] && x[j + 1] == y[j + 1]);
        }
    }
}

/// The checksum covers every complete 16-bit word of the header bytes, the
/// options included, but the checksum word: changing any other word by an
/// amount that is not a multiple of 0xffff changes the checksum.
pub proof fn lemma_checksum_covers_every_word(x: Seq<u8>, y: Seq<u8>, k: int, d: int)
    requires
        x.len() == y.len(),
        0 <= k,
        2 * k + 1 < x.len(),
        k != 5,
        forall|i: int| 0 <= i < x.len() && i != 2 * k && i != 2 * k + 1 ==> x[i] == y[i],
        be16(y, 2 * k) == be16(x, 2 * k) + d,
        0 < d < 65535,
    ensures
        spec_checksum(x) != spec_checksum(y),
{
    let n = x.len() / 2;
    lemma_word_sum_one_word_changed(x, y, k, d, n);
    lemma_word_sum_nonneg(x, n);
    let sx = 65535 + checksum_word_sum(x, n);
    let sy = 65535 + checksum_word_sum(y, n);
    assert(sy == sx + d);
    lemma_fold_step(sx, 0);
    lemma_fold_step(sy, 0);
    vstd::arithmetic::div_mod::lemma_fundamental_div_mod(sx - 1, 65535);
    vstd::arithmetic::div_mod::lemma_fundamental_div_mod(sy - 1, 65535);
    let qx = (sx - 1) / 65535;
    let qy = (sy - 1) / 65535;
    if fold_carries(sx) == fold_carries(sy) {
        assert(d == 65535 * (qy - qx));
        assert(false) by (nonlinear_arith)
            requires
                d == 65535 * (qy - qx),
                0 < d < 65535,
        ;
    }
}

/// `new` is `old` with an IPv4 header written over its first 20 bytes from the
/// given fields: each field truncated to its width in the header, the addresses
/// copied, and the checksum word set to `checksum`, or when there is none, to
/// the checksum of the first `ihl * 4` bytes. Bytes past the 20th are kept.
pub open spec fn ipv4_header_written(
    old: Seq<u8>,
    new: Seq<u8>,
    version: u8,
    ihl: u8,
    dscp: u8,
    ecn: u8,
    total_length: u16,
    id: u16,
    flags: u8,
    fragment_offset: u16,
    ttl: u8,
    protocol: u8,
    src_addr: Seq<u8>,
    dest_addr: Seq<u8>,
    checksum: Option<u16>,
) -> bool {
    &&& new.len() == old.len()
    &&& new[0] as int == (version as int % 16) * 16 + ihl as int % 16
    &&& new[1] as int == (dscp as int % 64) * 4 + ecn as int % 4
    &&& be16(new, 2) == total_length as int
    &&& be16(new, 4) == id as int
    &&& be16(new, 6) == (flags as int % 8) * 8192 + fragment_offset as int % 8192
    &&& new[8] == ttl
    &&& new[9] == protocol
    &&& new.subrange(12, 16) == src_addr
    &&& new.subrange(16, 20) == dest_addr
    &&& new.subrange(20, new.len() as int) == old.subrange(20, old.len() as int)
    &&& be16(new, 10) == match checksum {
        Some(c) => c as int,
        None => spec_checksum(new.take(ihl as int * 4)) as int,
    }
}

/// Two byte sequences that agree everywhere but in the checksum word have the
/// same word sums.
proof fn lemma_word_sum_ignores_checksum(x: Seq<u8>, y: Seq<u8>, n: nat)
    requires
        x.len() == y.len(),
        2 * n <= x.len(),
        forall|i: int| 0 <= i < x.len() && i != 10 && i != 11 ==> x[i] == y[i],
    ensures
        checksum_word_sum(x, n) == checksum_word_sum(y, n),
    decreases n,
{
    if n > 0 {
        lemma_word_sum_ignores_checksum(x, y, (n - 1) as nat);
        let k = 2 * (n - 1);
        if n - 1 != 5 {
            assert(x[k] == y[k] && x[k + 1] == y[k + 1]);
        }
    }
}

/// The checksum of header bytes does not depend on what the checksum word
/// (bytes 10 and 11) holds.
pub proof fn lemma_checksum_ignores_checksum_word(x: Seq<u8>, y: Seq<u8>)
    requires
        x.len() == y.len(),
        forall|i: int| 0 <= i < x.len() && i != 10 && i != 11 ==> x[i] == y[i],
    ensures
        spec_checksum(x) == spec_checksum(y),
{
    lemma_word_sum_ignores_checksum(x, y, x.len() / 2);
}

/// The two bytes of a 16-bit word in network order.
proof fn lemma_be_bytes(x: u16)
    ensures
        ((x >> 8u16) as u8) as int * 256 + ((x & 0xffu16) as u8) as int == x as int,
{
    assert(((x >> 8u16) as u8) as int * 256 + ((x & 0xffu16) as u8) as int == x as int)
        by (bit_vector);
}

/// Writes an IPv4 header into the first 20 bytes of `buf` (options, if any,
/// are left as they are). When no `checksum` is given, the checksum of the
/// first `ihl * 4` bytes of `buf` is computed and stored.
pub fn build_ipv4_header(
    buf: &mut [u8],
    version: u8,
    ihl: u8,
    dscp: u8,
    ecn: u8,
    total_length: u16,
    id: u16,
    flags: u8,
    fragment_offset: u16,
    ttl: u8,
    protocol: u8,
    src_addr: &[u8],
    dest_addr: &[u8],
    checksum: Option<u16>,
)
    requires
        old(buf)@.len() >= 20,
        src_addr@.len() == 4,
        dest_addr@.len() == 4,
        checksum is None ==> ihl as int * 4 <= old(buf)@.len(),
    ensures
        ipv4_header_written(
            old(buf)@,
            final(buf)@,
            version,
            ihl,
            dscp,
            ecn,
            total_length,
            id,
            flags,
            fragment_offset,
            ttl,
            protocol,
            src_addr@,
            dest_addr@,
            checksum,
        ),
{
    let ghost given = checksum;
    let mut checksum = checksum;

    // Version + IHL.
    buf[0] = ((version & 0xf) << 4) | (ihl & 0xf);
    assert(((version & 0xf) << 4) | (ihl & 0xf) == (version % 16) * 16 + ihl % 16)
        by (bit_vector);

    // DSCP + ECN.
    buf[1] = ((dscp & 0x3f) << 2) | (ecn & 0x3);
    assert(((dscp & 0x3f) << 2) | (ecn & 0x3) == (dscp % 64) * 4 + ecn % 4) by (bit_vector);

    // Total Length.
    buf[2] = (total_length >> 8) as u8;
    buf[3] = (total_length & 0xff) as u8;
    proof {
        lemma_be_bytes(total_length);
    }

    // ID.
    buf[4] = (id >> 8) as u8;
    buf[5] = (id & 0xff) as u8;
    proof {
        lemma_be_bytes(id);
    }

    // Flags + Offset.
    let field: u16 = ((flags as u16 & 7) << 13) | (fragment_offset & 0x1fff);
    assert(((flags as u16 & 7) << 13) | (fragment_offset & 0x1fff) == (flags as u16 % 8) * 8192
        + fragment_offset % 8192) by (bit_vector);
    buf[6] = (field >> 8) as u8;
    buf[7] = (field & 0xff) as u8;
    proof {
        lemma_be_bytes(field);
    }

    // Time to live.
    buf[8] = ttl;

    // Protocol.
    buf[9] = protocol;

    // Source address.
    buf[12] = src_addr[0];
    buf[13] = src_addr[1];
    buf[14] = src_addr[2];
    buf[15] = src_addr[3];

    // Destination address.
    buf[16] = dest_addr[0];
    buf[17] = dest_addr[1];
    buf[18] = dest_addr[2];
    buf[19] = dest_addr[3];

    let ghost mid = buf@;

    // Header checksum.
    if checksum.is_none() {
        let header_size: usize = (ihl as usize) << 2;
        assert((ihl as usize) << 2 == ihl as usize * 4) by (bit_vector);
        checksum = Some(compute_checksum(&buf[0..header_size]));
    }
    let c: u16 = match checksum {
        Some(c) => c,
        None => 0,
    };
    buf[10] = (c >> 8) as u8;
    buf[11] = (c & 0xff) as u8;
    proof {
        lemma_be_bytes(c);
        assert(buf@.subrange(12, 16) =~= src_addr@);
        assert(buf@.subrange(16, 20) =~= dest_addr@);
        assert(buf@.subrange(20, buf@.len() as int) =~= old(buf)@.subrange(
            20,
            old(buf)@.len() as int,
        ));
        if given is None {
            let hs = ihl as int * 4;
            lemma_checksum_ignores_checksum_word(mid.take(hs), buf@.take(hs));
        }
    }
}

/// A header written with valid fields (version 4, an IHL of 5 to 15, a total
/// length that covers the header and fits in the bytes, neither the reserved
/// nor the more-fragments flag, no fragment offset, a nonzero time to live, a
/// handled protocol (ICMP 1, TCP 6 or UDP 17) and a computed checksum) is accepted by the parser, and the
/// parser reads back the fields that were written, whatever the DSCP, ECN and
/// identification fields hold.
pub proof fn lemma_written_header_is_accepted(
    old: Seq<u8>,
    new: Seq<u8>,
    version: u8,
    ihl: u8,
    dscp: u8,
    ecn: u8,
    total_length: u16,
    id: u16,
    flags: u8,
    fragment_offset: u16,
    ttl: u8,
    protocol: u8,
    src_addr: Seq<u8>,
    dest_addr: Seq<u8>,
)
    requires
        old.len() >= 20,
        ipv4_header_written(
            old,
            new,
            version,
            ihl,
            dscp,
            ecn,
            total_length,
            id,
            flags,
            fragment_offset,
            ttl,
            protocol,
            src_addr,
            dest_addr,
            None,
        ),
        version == IPV4_VERSION,
        5 <= ihl <= 15,
        ihl as int * 4 <= total_length <= new.len(),
        flags % 8 == 0 || flags % 8 == 2,
        fragment_offset % 8192 == 0,
        ttl != 0,
        protocol == 1 || protocol == 6 || protocol == 17,
    ensures
        ipv4_refusal(new) is None,
        ipv4_header_size(new) == ihl as int * 4,
        ipv4_total_length(new) == total_length as int,
        forall|h: Ipv4Header|
            #![trigger h.describes(new)]
            h.describes(new) ==> {
                &&& h.version == IPV4_VERSION
                &&& h.ihl == ihl
                &&& h.dscp as int == dscp as int % 64
                &&& h.ecn as int == ecn as int % 4
                &&& h.total_length == total_length
                &&& h.identification == id
                &&& h.flags as int == flags as int % 8
                &&& h.fragment_offset == 0
                &&& h.time_to_live == ttl
                &&& IpProtocol::spec_from_u8(protocol) == Some(h.protocol)
                &&& h.src_addr.0@ == src_addr
                &&& h.dst_addr.0@ == dest_addr
            },
{
    let hs = ihl as int * 4;
    lemma_word_sum_nonneg(new.take(hs), new.take(hs).len() / 2);
    lemma_fold_step(65535 + checksum_word_sum(new.take(hs), new.take(hs).len() / 2), 0);
    assert(ipv4_flags(new) == flags as int % 8);
    assert(ipv4_fragment_offset(new) == 0);
}

} // verus!
