//! Checked views over raw IP frames: IPv4 and IPv6 header validation, the
//! TCP and UDP header fields the handler reads, and construction of the
//! IPv4/UDP reply frames the tunnel writes back to the device.

use crate::checksum::{checksum_field, checksum_ok, spec_checksum_ok, spec_wsum, word_sum};
use crate::net::{EndpointRepr, IpAddrRepr};
use vstd::prelude::*;
use vstd::slice::slice_subrange;

verus! {

/// The big-endian value of the `n` bytes of `b` starting at `off`.
pub open spec fn be_bytes(b: Seq<u8>, off: int, n: nat) -> int
    decreases n,
{
    if n == 0 {
        0
    } else {
        be_bytes(b, off, (n - 1) as nat) * 256 + b[off + n - 1]
    }
}

/// 256 to the power `n`.
pub open spec fn p256(n: nat) -> int
    decreases n,
{
    if n == 0 {
        1
    } else {
        256 * p256((n - 1) as nat)
    }
}

/// Reads a big-endian 16-bit value.
pub fn read_be16(b: &[u8], off: usize) -> (r: u16)
    requires
        off + 2 <= b@.len(),
    ensures
        r == be_bytes(b@, off as int, 2),
{
    proof {
        reveal_with_fuel(be_bytes, 3);
    }
    let hi = b[off];
    let lo = b[off + 1];
    (hi as u16) * 256 + (lo as u16)
}

/// Reads a big-endian 32-bit value.
pub fn read_be32(b: &[u8], off: usize) -> (r: u32)
    requires
        off + 4 <= b@.len(),
    ensures
        r == be_bytes(b@, off as int, 4),
{
    proof {
        reveal_with_fuel(be_bytes, 5);
    }
    let b0 = b[off];
    let b1 = b[off + 1];
    let b2 = b[off + 2];
    let b3 = b[off + 3];
    (b0 as u32) * 0x100_0000 + (b1 as u32) * 0x1_0000 + (b2 as u32) * 0x100 + (b3 as u32)
}

/// Reads a big-endian 128-bit value.
pub fn read_be128(b: &[u8], off: usize) -> (r: u128)
    requires
        off + 16 <= b@.len(),
    ensures
        r == be_bytes(b@, off as int, 16),
{
    let blen = b.len();
    let mut v: u128 = 0;
    let mut k: usize = 0;
    while k < 16
        invariant
            blen == b@.len(),
            off + 16 <= b@.len(),
            k <= 16,
            v == be_bytes(b@, off as int, k as nat),
            v < p256(k as nat),
        decreases 16 - k,
    {
        proof {
            reveal_with_fuel(p256, 17);
            assert(p256(16) == 0x1_0000_0000_0000_0000_0000_0000_0000_0000);
            lemma_p256_increases(k as nat, 15);
        }
        v = v * 256 + (b[off + k] as u128);
        k = k + 1;
    }
    v
}

proof fn lemma_p256_increases(m: nat, n: nat)
    requires
        m <= n,
    ensures
        p256(m) <= p256(n),
    decreases n,
{
    if m < n {
        lemma_p256_increases(m, (n - 1) as nat);
        lemma_p256_pos((n - 1) as nat);
    }
}

proof fn lemma_p256_pos(n: nat)
    ensures
        p256(n) >= 1,
    decreases n,
{
    if n > 0 {
        lemma_p256_pos((n - 1) as nat);
    }
}

/// A validated view over an IP frame: addresses, upper protocol, and the
/// byte range of the upper-layer payload within the frame.
#[derive(Clone, Copy, PartialEq, Eq, Structural, Debug)]
pub struct IpPacket {
    pub src: IpAddrRepr,
    pub dst: IpAddrRepr,
    pub protocol: u8,
    pub payload_start: usize,
    pub payload_end: usize,
}

/// What checking a claimed IP frame can yield: a validated view, "not an IP
/// packet" when the version nibble is neither 4 nor 6, or a malformed frame.
#[derive(Clone, Copy, PartialEq, Eq, Structural, Debug)]
pub enum IpParseOutcome {
    Parsed(IpPacket),
    NotIp,
    Malformed,
}

pub open spec fn spec_ipv4_header_len(b: Seq<u8>) -> int {
    (b[0] & 0x0F) * 4
}

pub open spec fn spec_ipv4_total_len(b: Seq<u8>) -> int {
    be_bytes(b, 2, 2)
}

/// An IPv4 frame is valid when its header is complete, its length fields are
/// consistent with the buffer, and the header checksum verifies.
pub open spec fn spec_ipv4_valid(b: Seq<u8>) -> bool {
    &&& b.len() >= 20
    &&& b[0] >> 4 == 4
    &&& 20 <= spec_ipv4_header_len(b)
    &&& spec_ipv4_header_len(b) <= spec_ipv4_total_len(b)
    &&& spec_ipv4_total_len(b) <= b.len()
    &&& spec_checksum_ok(b.subrange(0, spec_ipv4_header_len(b)))
}

pub open spec fn spec_ipv4_packet(b: Seq<u8>) -> IpPacket
    recommends
        spec_ipv4_valid(b),
{
    IpPacket {
        src: IpAddrRepr::V4(be_bytes(b, 12, 4) as u32),
        dst: IpAddrRepr::V4(be_bytes(b, 16, 4) as u32),
        protocol: b[9],
        payload_start: spec_ipv4_header_len(b) as usize,
        payload_end: spec_ipv4_total_len(b) as usize,
    }
}

pub open spec fn spec_ipv6_payload_len(b: Seq<u8>) -> int {
    be_bytes(b, 4, 2)
}

/// An IPv6 frame is valid when the fixed header is complete and the declared
/// payload fits in the buffer.
pub open spec fn spec_ipv6_valid(b: Seq<u8>) -> bool {
    &&& b.len() >= 40
    &&& b[0] >> 4 == 6
    &&& 40 + spec_ipv6_payload_len(b) <= b.len()
}

pub open spec fn spec_ipv6_packet(b: Seq<u8>) -> IpPacket
    recommends
        spec_ipv6_valid(b),
{
    IpPacket {
        src: IpAddrRepr::V6(be_bytes(b, 8, 16) as u128),
        dst: IpAddrRepr::V6(be_bytes(b, 24, 16) as u128),
        protocol: b[6],
        payload_start: 40usize,
        payload_end: (40 + spec_ipv6_payload_len(b)) as usize,
    }
}

/// The outcome of checking a byte region claimed to be an IP frame.
pub open spec fn spec_parse_ip(b: Seq<u8>) -> IpParseOutcome {
    if b.len() == 0 {
        IpParseOutcome::Malformed
    } else if b[0] >> 4 == 4 {
        if spec_ipv4_valid(b) {
            IpParseOutcome::Parsed(spec_ipv4_packet(b))
        } else {
            IpParseOutcome::Malformed
        }
    } else if b[0] >> 4 == 6 {
        if spec_ipv6_valid(b) {
            IpParseOutcome::Parsed(spec_ipv6_packet(b))
        } else {
            IpParseOutcome::Malformed
        }
    } else {
        IpParseOutcome::NotIp
    }
}

impl IpPacket {
    /// Checks a claimed IP frame and exposes the validated view; a parsed
    /// packet's payload range always lies within the frame.
    pub fn new_checked(b: &[u8]) -> (r: IpParseOutcome)
        requires
            b@.len() <= 0x2_0000,
        ensures
            r == spec_parse_ip(b@),
            r matches IpParseOutcome::Parsed(p) ==> p.payload_start <= p.payload_end
                <= b@.len(),
    {
        if b.len() == 0 {
            return IpParseOutcome::Malformed;
        }
        let v = b[0] >> 4u8;
        if v == 4 {
            if b.len() < 20 {
                return IpParseOutcome::Malformed;
            }
            let ihl: usize = ((b[0] & 0x0F) as usize) * 4;
            if ihl < 20 {
                return IpParseOutcome::Malformed;
            }
            let total: usize = read_be16(b, 2) as usize;
            if !(ihl <= total && total <= b.len()) {
                return IpParseOutcome::Malformed;
            }
            let header = slice_subrange(b, 0, ihl);
            if !checksum_ok(header) {
                return IpParseOutcome::Malformed;
            }
            IpParseOutcome::Parsed(
                IpPacket {
                    src: IpAddrRepr::V4(read_be32(b, 12)),
                    dst: IpAddrRepr::V4(read_be32(b, 16)),
                    protocol: b[9],
                    payload_start: ihl,
                    payload_end: total,
                },
            )
        } else if v == 6 {
            if b.len() < 40 {
                return IpParseOutcome::Malformed;
            }
            let plen: usize = read_be16(b, 4) as usize;
            if !(40 + plen <= b.len()) {
                return IpParseOutcome::Malformed;
            }
            IpParseOutcome::Parsed(
                IpPacket {
                    src: IpAddrRepr::V6(read_be128(b, 8)),
                    dst: IpAddrRepr::V6(read_be128(b, 24)),
                    protocol: b[6],
                    payload_start: 40,
                    payload_end: 40 + plen,
                },
            )
        } else {
            IpParseOutcome::NotIp
        }
    }
}

/// The fields of a UDP header the tunnel reads, with the byte range of the
/// datagram payload within the UDP region.
#[derive(Clone, Copy, PartialEq, Eq, Structural, Debug)]
pub struct UdpHeaderInfo {
    pub src_port: u16,
    pub dst_port: u16,
    pub payload_start: usize,
    pub payload_end: usize,
}

pub open spec fn spec_udp_len(u: Seq<u8>) -> int {
    be_bytes(u, 4, 2)
}

/// A UDP region is valid when the header is complete and the declared
/// datagram length fits in the region.
pub open spec fn spec_udp_valid(u: Seq<u8>) -> bool {
    &&& u.len() >= 8
    &&& 8 <= spec_udp_len(u)
    &&& spec_udp_len(u) <= u.len()
}

pub open spec fn spec_udp_info(u: Seq<u8>) -> UdpHeaderInfo
    recommends
        spec_udp_valid(u),
{
    UdpHeaderInfo {
        src_port: be_bytes(u, 0, 2) as u16,
        dst_port: be_bytes(u, 2, 2) as u16,
        payload_start: 8usize,
        payload_end: spec_udp_len(u) as usize,
    }
}

/// Checks the UDP header at the start of `u`.
pub fn parse_udp(u: &[u8]) -> (r: Option<UdpHeaderInfo>)
    ensures
        r == if spec_udp_valid(u@) {
            Some(spec_udp_info(u@))
        } else {
            None::<UdpHeaderInfo>
        },
{
    if u.len() < 8 {
        return None;
    }
    let l: usize = read_be16(u, 4) as usize;
    if !(8 <= l && l <= u.len()) {
        return None;
    }
    Some(
        UdpHeaderInfo {
            src_port: read_be16(u, 0),
            dst_port: read_be16(u, 2),
            payload_start: 8,
            payload_end: l,
        },
    )
}

/// The fields of a TCP header the tunnel reads.
#[derive(Clone, Copy, PartialEq, Eq, Structural, Debug)]
pub struct TcpSegmentInfo {
    pub src_port: u16,
    pub dst_port: u16,
    pub syn: bool,
    pub ack: bool,
}

pub open spec fn spec_tcp_data_offset(t: Seq<u8>) -> int {
    (t[12] >> 4) * 4
}

/// A TCP region is valid when the fixed header is complete and the data
/// offset is consistent with the region.
pub open spec fn spec_tcp_valid(t: Seq<u8>) -> bool {
    &&& t.len() >= 20
    &&& 20 <= spec_tcp_data_offset(t)
    &&& spec_tcp_data_offset(t) <= t.len()
}

pub open spec fn spec_tcp_info(t: Seq<u8>) -> TcpSegmentInfo
    recommends
        spec_tcp_valid(t),
{
    TcpSegmentInfo {
        src_port: be_bytes(t, 0, 2) as u16,
        dst_port: be_bytes(t, 2, 2) as u16,
        syn: t[13] & 0x02 != 0,
        ack: t[13] & 0x10 != 0,
    }
}

/// Checks the TCP header at the start of `t`.
pub fn parse_tcp(t: &[u8]) -> (r: Option<TcpSegmentInfo>)
    ensures
        r == if spec_tcp_valid(t@) {
            Some(spec_tcp_info(t@))
        } else {
            None::<TcpSegmentInfo>
        },
{
    if t.len() < 20 {
        return None;
    }
    let off: usize = ((t[12] >> 4u8) as usize) * 4;
    if !(20 <= off && off <= t.len()) {
        return None;
    }
    Some(
        TcpSegmentInfo {
            src_port: read_be16(t, 0),
            dst_port: read_be16(t, 2),
            syn: t[13] & 0x02u8 != 0,
            ack: t[13] & 0x10u8 != 0,
        },
    )
}

proof fn lemma_split16(x: u16)
    ensures
        x >> 8 <= 0xFF,
        x & 0xFF <= 0xFF,
        (x >> 8) * 0x100 + (x & 0xFF) == x,
{
    assert(x >> 8 <= 0xFF && x & 0xFF <= 0xFF && (x >> 8) * 0x100 + (x & 0xFF) == x)
        by (bit_vector);
}

proof fn lemma_split32(x: u32)
    ensures
        x >> 24 <= 0xFF,
        (x >> 16) & 0xFF <= 0xFF,
        (x >> 8) & 0xFF <= 0xFF,
        x & 0xFF <= 0xFF,
        x >> 16 <= 0xFFFF,
        x & 0xFFFF <= 0xFFFF,
        (x >> 24) * 0x100 + ((x >> 16) & 0xFF) == x >> 16,
        (x >> 16) * 0x100 + ((x >> 8) & 0xFF) == x >> 8,
        (x >> 8) * 0x100 + (x & 0xFF) == x,
        ((x >> 8) & 0xFF) * 0x100 + (x & 0xFF) == (x & 0xFFFF),
{
    assert(x >> 24 <= 0xFF && (x >> 16) & 0xFF <= 0xFF && (x >> 8) & 0xFF <= 0xFF && x & 0xFF
        <= 0xFF && x >> 16 <= 0xFFFF && x & 0xFFFF <= 0xFFFF && (x >> 24) * 0x100 + ((x >> 16)
        & 0xFF) == x >> 16 && (x >> 16) * 0x100 + ((x >> 8) & 0xFF) == x >> 8 && (x >> 8) * 0x100
        + (x & 0xFF) == x && ((x >> 8) & 0xFF) * 0x100 + (x & 0xFF) == (x & 0xFFFF))
        by (bit_vector);
}

/// Builds an IPv4 frame around `payload`: 20-byte header without options, a
/// time-to-live of 64, and a correct header checksum. The frame parses back
/// to exactly the given addresses, protocol and payload.
pub fn build_ipv4_frame(src: u32, dst: u32, protocol: u8, payload: &[u8]) -> (r: Vec<u8>)
    requires
        payload@.len() <= 65515,
    ensures
        r@.len() == 20 + payload@.len(),
        spec_ipv4_valid(r@),
        spec_ipv4_packet(r@) == (IpPacket {
            src: IpAddrRepr::V4(src),
            dst: IpAddrRepr::V4(dst),
            protocol,
            payload_start: 20usize,
            payload_end: (20 + payload@.len()) as usize,
        }),
        r@.subrange(20, r@.len() as int) == payload@,
{
    let total: u16 = (20 + payload.len()) as u16;
    proof {
        lemma_split32(src);
        lemma_split32(dst);
        lemma_split16(total);
    }
    let sum: u64 = 0x4500u64 + (total as u64) + 0x4000u64 + (protocol as u64) + ((src
        >> 16u32) as u64) + ((src & 0xFFFFu32) as u64) + ((dst >> 16u32) as u64) + ((dst
        & 0xFFFFu32) as u64);
    let ck: u16 = checksum_field(sum);
    proof {
        lemma_split16(ck);
    }
    let mut v: Vec<u8> = Vec::new();
    v.push(0x45u8);
    v.push(0x00u8);
    v.push((total >> 8u16) as u8);
    v.push((total & 0xFFu16) as u8);
    v.push(0u8);
    v.push(0u8);
    v.push(0u8);
    v.push(0u8);
    v.push(64u8);
    v.push(protocol);
    v.push((ck >> 8u16) as u8);
    v.push((ck & 0xFFu16) as u8);
    v.push((src >> 24u32) as u8);
    v.push(((src >> 16u32) & 0xFFu32) as u8);
    v.push(((src >> 8u32) & 0xFFu32) as u8);
    v.push((src & 0xFFu32) as u8);
    v.push((dst >> 24u32) as u8);
    v.push(((dst >> 16u32) & 0xFFu32) as u8);
    v.push(((dst >> 8u32) & 0xFFu32) as u8);
    v.push((dst & 0xFFu32) as u8);
    let ghost hdr = v@;
    let plen = payload.len();
    let mut i: usize = 0;
    while i < plen
        invariant
            plen == payload@.len(),
            hdr.len() == 20,
            i <= plen,
            v@ == hdr + payload@.subrange(0, i as int),
        decreases plen - i,
    {
        v.push(payload[i]);
        proof {
            assert(v@ =~= hdr + payload@.subrange(0, i + 1 as int));
        }
        i = i + 1;
    }
    proof {
        assert(payload@.subrange(0, payload@.len() as int) =~= payload@);
        let b = v@;
        assert(b.len() == 20 + payload@.len());
        assert(forall|j: int| 0 <= j < 20 ==> b[j] == hdr[j]);
        assert(0x45u8 >> 4 == 4) by (bit_vector);
        assert(0x45u8 & 0x0F == 5) by (bit_vector);
        assert(spec_ipv4_header_len(b) == 20);
        reveal_with_fuel(be_bytes, 5);
        assert(spec_ipv4_total_len(b) == total);
        assert(be_bytes(b, 12, 4) == src);
        assert(be_bytes(b, 16, 4) == dst);
        let h = b.subrange(0, 20);
        assert(h =~= hdr);
        reveal_with_fuel(spec_wsum, 11);
        assert(spec_wsum(h, 10) == sum + ck);
        assert(spec_checksum_ok(h));
        assert(spec_ipv4_valid(b));
        assert(b.subrange(20, b.len() as int) =~= payload@);
    }
    v
}

/// A frame that carries the UDP datagram `p` from `src` to `dst` over IPv4:
/// a valid IPv4 frame whose UDP header names the two ports and whose
/// datagram payload is `p` (the UDP checksum is left disabled, as IPv4
/// permits).
pub open spec fn spec_udp_frame_v4(
    b: Seq<u8>,
    src: EndpointRepr,
    dst: EndpointRepr,
    p: Seq<u8>,
) -> bool {
    &&& spec_ipv4_valid(b)
    &&& b.len() == 28 + p.len()
    &&& spec_ipv4_packet(b) == (IpPacket {
        src: src.ip,
        dst: dst.ip,
        protocol: 17u8,
        payload_start: 20usize,
        payload_end: b.len() as usize,
    })
    &&& spec_udp_valid(b.subrange(20, b.len() as int))
    &&& spec_udp_info(b.subrange(20, b.len() as int)) == (UdpHeaderInfo {
        src_port: src.port,
        dst_port: dst.port,
        payload_start: 8usize,
        payload_end: (8 + p.len()) as usize,
    })
    &&& b.subrange(28, b.len() as int) == p
}

/// Builds the reply frame a forwarding task pushes into the send queue: the
/// datagram `payload` from `src` to `dst`, encapsulated in IPv4 and UDP with
/// source and destination as given.
pub fn build_udp_frame_v4(src: &EndpointRepr, dst: &EndpointRepr, payload: &[u8]) -> (r: Vec<
    u8,
>)
    requires
        src.ip is V4,
        dst.ip is V4,
        payload@.len() <= 65507,
    ensures
        spec_udp_frame_v4(r@, *src, *dst, payload@),
{
    let udp_len: u16 = (8 + payload.len()) as u16;
    proof {
        lemma_split16(src.port);
        lemma_split16(dst.port);
        lemma_split16(udp_len);
    }
    let mut u: Vec<u8> = Vec::new();
    u.push((src.port >> 8u16) as u8);
    u.push((src.port & 0xFFu16) as u8);
    u.push((dst.port >> 8u16) as u8);
    u.push((dst.port & 0xFFu16) as u8);
    u.push((udp_len >> 8u16) as u8);
    u.push((udp_len & 0xFFu16) as u8);
    u.push(0u8);
    u.push(0u8);
    let ghost uhdr = u@;
    let plen = payload.len();
    let mut i: usize = 0;
    while i < plen
        invariant
            plen == payload@.len(),
            uhdr.len() == 8,
            i <= plen,
            u@ == uhdr + payload@.subrange(0, i as int),
        decreases plen - i,
    {
        u.push(payload[i]);
        proof {
            assert(u@ =~= uhdr + payload@.subrange(0, i + 1 as int));
        }
        i = i + 1;
    }
    proof {
        assert(payload@.subrange(0, payload@.len() as int) =~= payload@);
        assert(u@ == uhdr + payload@);
    }
    let sa = match src.ip {
        IpAddrRepr::V4(a) => a,
        IpAddrRepr::V6(_) => {
            proof {
                assert(false);
            }
            0u32
        },
    };
    let da = match dst.ip {
        IpAddrRepr::V4(a) => a,
        IpAddrRepr::V6(_) => {
            proof {
                assert(false);
            }
            0u32
        },
    };
    let frame = build_ipv4_frame(sa, da, 17u8, u.as_slice());
    proof {
        let b = frame@;
        let pu = b.subrange(20, b.len() as int);
        assert(pu =~= u@);
        reveal_with_fuel(be_bytes, 3);
        assert(be_bytes(pu, 0, 2) == src.port);
        assert(be_bytes(pu, 2, 2) == dst.port);
        assert(spec_udp_len(pu) == udp_len);
        assert(spec_udp_valid(pu));
        assert(b.subrange(28, b.len() as int) =~= pu.subrange(8, pu.len() as int));
        assert(pu.subrange(8, pu.len() as int) =~= payload@);
    }
    frame
}

pub proof fn lemma_be_bytes_congruence(b1: Seq<u8>, b2: Seq<u8>, off: int, n: nat)
    requires
        0 <= off,
        off + n <= b1.len(),
        off + n <= b2.len(),
        forall|i: int| off <= i < off + n ==> b1[i] == b2[i],
    ensures
        be_bytes(b1, off, n) == be_bytes(b2, off, n),
    decreases n,
{
    if n > 0 {
        lemma_be_bytes_congruence(b1, b2, off, (n - 1) as nat);
    }
}

proof fn lemma_split128(x: u128)
    ensures
        x >> 120 <= 0xFF,
        forall|k: u128| 8 <= k <= 112 ==> ((x >> k) & 0xFF) <= 0xFF,
        x & 0xFF <= 0xFF,
        (x >> 120) * 0x100 + ((x >> 112) & 0xFF) == x >> 112,
        (x >> 112) * 0x100 + ((x >> 104) & 0xFF) == x >> 104,
        (x >> 104) * 0x100 + ((x >> 96) & 0xFF) == x >> 96,
        (x >> 96) * 0x100 + ((x >> 88) & 0xFF) == x >> 88,
        (x >> 88) * 0x100 + ((x >> 80) & 0xFF) == x >> 80,
        (x >> 80) * 0x100 + ((x >> 72) & 0xFF) == x >> 72,
        (x >> 72) * 0x100 + ((x >> 64) & 0xFF) == x >> 64,
        (x >> 64) * 0x100 + ((x >> 56) & 0xFF) == x >> 56,
        (x >> 56) * 0x100 + ((x >> 48) & 0xFF) == x >> 48,
        (x >> 48) * 0x100 + ((x >> 40) & 0xFF) == x >> 40,
        (x >> 40) * 0x100 + ((x >> 32) & 0xFF) == x >> 32,
        (x >> 32) * 0x100 + ((x >> 24) & 0xFF) == x >> 24,
        (x >> 24) * 0x100 + ((x >> 16) & 0xFF) == x >> 16,
        (x >> 16) * 0x100 + ((x >> 8) & 0xFF) == x >> 8,
        (x >> 8) * 0x100 + (x & 0xFF) == x,
{
    assert(x >> 120 <= 0xFF && x & 0xFF <= 0xFF && (x >> 120) * 0x100 + ((x >> 112) & 0xFF)
        == x >> 112 && (x >> 112) * 0x100 + ((x >> 104) & 0xFF) == x >> 104 && (x >> 104)
        * 0x100 + ((x >> 96) & 0xFF) == x >> 96 && (x >> 96) * 0x100 + ((x >> 88) & 0xFF) == x
        >> 88 && (x >> 88) * 0x100 + ((x >> 80) & 0xFF) == x >> 80 && (x >> 80) * 0x100 + ((x
        >> 72) & 0xFF) == x >> 72 && (x >> 72) * 0x100 + ((x >> 64) & 0xFF) == x >> 64 && (x
        >> 64) * 0x100 + ((x >> 56) & 0xFF) == x >> 56 && (x >> 56) * 0x100 + ((x >> 48)
        & 0xFF) == x >> 48 && (x >> 48) * 0x100 + ((x >> 40) & 0xFF) == x >> 40 && (x >> 40)
        * 0x100 + ((x >> 32) & 0xFF) == x >> 32 && (x >> 32) * 0x100 + ((x >> 24) & 0xFF) == x
        >> 24 && (x >> 24) * 0x100 + ((x >> 16) & 0xFF) == x >> 16 && (x >> 16) * 0x100 + ((x
        >> 8) & 0xFF) == x >> 8 && (x >> 8) * 0x100 + (x & 0xFF) == x) by (bit_vector);
    assert(forall|k: u128| 8 <= k <= 112 ==> ((x >> k) & 0xFF) <= 0xFF) by (bit_vector);
}

/// Appends the 16 big-endian bytes of `x`.
fn push_be128(v: &mut Vec<u8>, x: u128)
    ensures
        final(v)@.len() == old(v)@.len() + 16,
        final(v)@.subrange(0, old(v)@.len() as int) == old(v)@,
        be_bytes(final(v)@, old(v)@.len() as int, 16) == x,
{
    proof {
        lemma_split128(x);
    }
    v.push((x >> 120u128) as u8);
    v.push(((x >> 112u128) & 0xFFu128) as u8);
    v.push(((x >> 104u128) & 0xFFu128) as u8);
    v.push(((x >> 96u128) & 0xFFu128) as u8);
    v.push(((x >> 88u128) & 0xFFu128) as u8);
    v.push(((x >> 80u128) & 0xFFu128) as u8);
    v.push(((x >> 72u128) & 0xFFu128) as u8);
    v.push(((x >> 64u128) & 0xFFu128) as u8);
    v.push(((x >> 56u128) & 0xFFu128) as u8);
    v.push(((x >> 48u128) & 0xFFu128) as u8);
    v.push(((x >> 40u128) & 0xFFu128) as u8);
    v.push(((x >> 32u128) & 0xFFu128) as u8);
    v.push(((x >> 24u128) & 0xFFu128) as u8);
    v.push(((x >> 16u128) & 0xFFu128) as u8);
    v.push(((x >> 8u128) & 0xFFu128) as u8);
    v.push((x & 0xFFu128) as u8);
    proof {
        reveal_with_fuel(be_bytes, 17);
        assert(final(v)@.subrange(0, old(v)@.len() as int) =~= old(v)@);
        assert(be_bytes(final(v)@, old(v)@.len() as int, 16) == x);
    }
}

/// A frame that carries the UDP datagram `p` from `src` to `dst` over IPv6:
/// a valid IPv6 frame whose UDP header names the two ports and whose
/// datagram payload is `p`.
pub open spec fn spec_udp_frame_v6(
    b: Seq<u8>,
    src: EndpointRepr,
    dst: EndpointRepr,
    p: Seq<u8>,
) -> bool {
    &&& spec_ipv6_valid(b)
    &&& b.len() == 48 + p.len()
    &&& spec_ipv6_packet(b) == (IpPacket {
        src: src.ip,
        dst: dst.ip,
        protocol: 17u8,
        payload_start: 40usize,
        payload_end: b.len() as usize,
    })
    &&& spec_udp_valid(b.subrange(40, b.len() as int))
    &&& spec_udp_info(b.subrange(40, b.len() as int)) == (UdpHeaderInfo {
        src_port: src.port,
        dst_port: dst.port,
        payload_start: 8usize,
        payload_end: (8 + p.len()) as usize,
    })
    &&& b.subrange(48, b.len() as int) == p
}

/// Builds the reply frame for an IPv6 association: the datagram `payload`
/// from `src` to `dst` in an IPv6 frame with a hop limit of 64 and the
/// mandatory UDP checksum computed over the pseudo-header.
pub fn build_udp_frame_v6(src: &EndpointRepr, dst: &EndpointRepr, payload: &[u8]) -> (r: Vec<
    u8,
>)
    requires
        src.ip is V6,
        dst.ip is V6,
        payload@.len() <= 65527,
    ensures
        spec_udp_frame_v6(r@, *src, *dst, payload@),
{
    let udp_len: u16 = (8 + payload.len()) as u16;
    proof {
        lemma_split16(src.port);
        lemma_split16(dst.port);
        lemma_split16(udp_len);
    }
    let sa = match src.ip {
        IpAddrRepr::V6(a) => a,
        IpAddrRepr::V4(_) => {
            proof {
                assert(false);
            }
            0u128
        },
    };
    let da = match dst.ip {
        IpAddrRepr::V6(a) => a,
        IpAddrRepr::V4(_) => {
            proof {
                assert(false);
            }
            0u128
        },
    };
    let mut v: Vec<u8> = Vec::new();
    v.push(0x60u8);
    v.push(0u8);
    v.push(0u8);
    v.push(0u8);
    v.push((udp_len >> 8u16) as u8);
    v.push((udp_len & 0xFFu16) as u8);
    v.push(17u8);
    v.push(64u8);
    let ghost hdr8 = v@;
    push_be128(&mut v, sa);
    let ghost mid = v@;
    push_be128(&mut v, da);
    let ghost hdr40 = v@;
    proof {
        assert(forall|i: int| 0 <= i < 8 ==> mid[i] == hdr8[i]);
        assert(forall|i: int| 0 <= i < 24 ==> hdr40[i] == mid[i]);
        lemma_be_bytes_congruence(hdr40, mid, 8, 16);
    }
    v.push((src.port >> 8u16) as u8);
    v.push((src.port & 0xFFu16) as u8);
    v.push((dst.port >> 8u16) as u8);
    v.push((dst.port & 0xFFu16) as u8);
    v.push((udp_len >> 8u16) as u8);
    v.push((udp_len & 0xFFu16) as u8);
    v.push(0u8);
    v.push(0u8);
    let ghost hdr48 = v@;
    let plen = payload.len();
    let mut i: usize = 0;
    while i < plen
        invariant
            plen == payload@.len(),
            hdr48.len() == 48,
            i <= plen,
            v@ == hdr48 + payload@.subrange(0, i as int),
        decreases plen - i,
    {
        v.push(payload[i]);
        proof {
            assert(v@ =~= hdr48 + payload@.subrange(0, i + 1 as int));
        }
        i = i + 1;
    }
    proof {
        assert(payload@.subrange(0, payload@.len() as int) =~= payload@);
        assert(v@ == hdr48 + payload@);
    }
    // The mandatory IPv6 UDP checksum, over the pseudo-header (addresses,
    // datagram length, next header) and the datagram with a zero pad byte
    // when its length is odd. A computed value of zero is sent as 0xFFFF.
    let even_end: usize = 48 + (plen / 2) * 2;
    let addrs_sum = word_sum(slice_subrange(v.as_slice(), 8, 40));
    let udp_even_sum = word_sum(slice_subrange(v.as_slice(), 40, even_end));
    let tail: u64 = if plen % 2 == 1 {
        (v[v.len() - 1] as u64) * 256
    } else {
        0u64
    };
    let sum: u64 = addrs_sum + (udp_len as u64) + 17u64 + udp_even_sum + tail;
    let ck0 = checksum_field(sum);
    let ck: u16 = if ck0 == 0 {
        0xFFFFu16
    } else {
        ck0
    };
    proof {
        lemma_split16(ck);
    }
    v[46] = (ck >> 8u16) as u8;
    v[47] = (ck & 0xFFu16) as u8;
    proof {
        let b = v@;
        assert(b.len() == 48 + payload@.len());
        assert(forall|j: int|
            0 <= j < b.len() && j != 46 && j != 47 ==> b[j] == (hdr48 + payload@)[j]);
        assert(forall|j: int| 0 <= j < 40 ==> hdr48[j] == hdr40[j]);
        assert(0x60u8 >> 4 == 6) by (bit_vector);
        reveal_with_fuel(be_bytes, 3);
        assert(spec_ipv6_payload_len(b) == udp_len);
        assert(spec_ipv6_valid(b));
        lemma_be_bytes_congruence(b, hdr40, 8, 16);
        lemma_be_bytes_congruence(b, hdr40, 24, 16);
        assert(be_bytes(b, 8, 16) == sa);
        assert(be_bytes(b, 24, 16) == da);
        assert(b[6] == 17u8);
        assert(spec_ipv6_packet(b) == (IpPacket {
            src: src.ip,
            dst: dst.ip,
            protocol: 17u8,
            payload_start: 40usize,
            payload_end: b.len() as usize,
        }));
        let pu = b.subrange(40, b.len() as int);
        assert(pu.len() == 8 + payload@.len());
        assert(pu[0] == hdr48[40] && pu[1] == hdr48[41] && pu[2] == hdr48[42] && pu[3]
            == hdr48[43] && pu[4] == hdr48[44] && pu[5] == hdr48[45]);
        assert(be_bytes(pu, 0, 2) == src.port);
        assert(be_bytes(pu, 2, 2) == dst.port);
        assert(spec_udp_len(pu) == udp_len);
        assert(spec_udp_valid(pu));
        assert(spec_udp_info(pu) == (UdpHeaderInfo {
            src_port: src.port,
            dst_port: dst.port,
            payload_start: 8usize,
            payload_end: (8 + payload@.len()) as usize,
        }));
        assert(b.subrange(48, b.len() as int) =~= payload@);
    }
    v
}

} // verus!
