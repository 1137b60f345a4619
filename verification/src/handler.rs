//! Frame classification and the reactor's per-event decisions. The handler
//! owns the UDP association table and the device's broadcast address; the
//! surrounding runtime performs the returned actions (writing frames,
//! opening sockets, injecting TCP segments into the user-space stack).

use crate::ip_packet::{
    spec_parse_ip, spec_tcp_info, spec_tcp_valid, spec_udp_frame_v4, spec_udp_frame_v6,
    spec_udp_info, spec_udp_valid, IpPacket, IpParseOutcome,
};
use crate::net::{EndpointRepr, IpAddrRepr};
use crate::udp::{
    spec_cleanup_effect, spec_keepalive_effect, spec_udp_effect, UdpDispatch, UdpTun,
};
use vstd::prelude::*;
use vstd::slice::{slice_subrange, slice_to_vec};

verus! {

/// How one frame read from the device is classified before it is acted on.
#[derive(Clone, Copy, PartialEq, Eq, Structural, Debug)]
pub enum FrameClass {
    /// Version nibble neither 4 nor 6: logged as unrecognized and dropped.
    NotIp,
    /// Truncated or inconsistent IP header, or bad IPv4 checksum: dropped.
    MalformedIp,
    /// Source or destination is broadcast, multicast, unspecified or the
    /// device broadcast address: dropped without any state change.
    NonUnicast,
    /// A TCP segment to inject into the user-space stack.
    Tcp { src: EndpointRepr, dst: EndpointRepr, syn: bool, ack: bool },
    /// IP said TCP but the TCP header does not parse: dropped.
    MalformedTcp,
    /// A UDP datagram; the payload byte range is within the whole frame.
    Udp { src: EndpointRepr, dst: EndpointRepr, payload_start: usize, payload_end: usize },
    /// IP said UDP but the UDP header does not parse: dropped.
    MalformedUdp,
    /// ICMP or ICMPv6: handed to the stack, which answers echo requests.
    Icmp,
    /// Any other upper protocol: dropped.
    Ignored { protocol: u8 },
}

/// The classification policy applied to every frame: checked IP parse,
/// non-unicast filtering against the device broadcast address, then the
/// upper-layer header checks of the protocols the tunnel serves.
pub open spec fn spec_classify(b: Seq<u8>, device_broadcast: IpAddrRepr) -> FrameClass {
    match spec_parse_ip(b) {
        IpParseOutcome::Malformed => FrameClass::MalformedIp,
        IpParseOutcome::NotIp => FrameClass::NotIp,
        IpParseOutcome::Parsed(p) => {
            if p.src.spec_non_unicast(device_broadcast) || p.dst.spec_non_unicast(
                device_broadcast,
            ) {
                FrameClass::NonUnicast
            } else {
                let pl = b.subrange(p.payload_start as int, p.payload_end as int);
                if p.protocol == 6 {
                    if spec_tcp_valid(pl) {
                        let t = spec_tcp_info(pl);
                        FrameClass::Tcp {
                            src: EndpointRepr { ip: p.src, port: t.src_port },
                            dst: EndpointRepr { ip: p.dst, port: t.dst_port },
                            syn: t.syn,
                            ack: t.ack,
                        }
                    } else {
                        FrameClass::MalformedTcp
                    }
                } else if p.protocol == 17 {
                    if spec_udp_valid(pl) {
                        let u = spec_udp_info(pl);
                        FrameClass::Udp {
                            src: EndpointRepr { ip: p.src, port: u.src_port },
                            dst: EndpointRepr { ip: p.dst, port: u.dst_port },
                            payload_start: (p.payload_start + 8) as usize,
                            payload_end: (p.payload_start + u.payload_end) as usize,
                        }
                    } else {
                        FrameClass::MalformedUdp
                    }
                } else if p.protocol == 1 || p.protocol == 58 {
                    FrameClass::Icmp
                } else {
                    FrameClass::Ignored { protocol: p.protocol }
                }
            }
        },
    }
}

/// Classifies one frame; a UDP classification's payload range lies within
/// the frame.
pub fn classify_frame(b: &[u8], device_broadcast: &IpAddrRepr) -> (r: FrameClass)
    requires
        b@.len() <= 0x2_0000,
    ensures
        r == spec_classify(b@, *device_broadcast),
        r matches FrameClass::Udp { payload_start, payload_end, .. } ==> payload_start
            <= payload_end <= b@.len(),
{
    let parsed = IpPacket::new_checked(b);
    let p = match parsed {
        IpParseOutcome::Malformed => {
            return FrameClass::MalformedIp;
        },
        IpParseOutcome::NotIp => {
            return FrameClass::NotIp;
        },
        IpParseOutcome::Parsed(p) => p,
    };
    if p.src.non_unicast(device_broadcast) || p.dst.non_unicast(device_broadcast) {
        return FrameClass::NonUnicast;
    }
    let pl = slice_subrange(b, p.payload_start, p.payload_end);
    if p.protocol == 6 {
        match crate::ip_packet::parse_tcp(pl) {
            Some(t) => FrameClass::Tcp {
                src: EndpointRepr { ip: p.src, port: t.src_port },
                dst: EndpointRepr { ip: p.dst, port: t.dst_port },
                syn: t.syn,
                ack: t.ack,
            },
            None => FrameClass::MalformedTcp,
        }
    } else if p.protocol == 17 {
        match crate::ip_packet::parse_udp(pl) {
            Some(u) => FrameClass::Udp {
                src: EndpointRepr { ip: p.src, port: u.src_port },
                dst: EndpointRepr { ip: p.dst, port: u.dst_port },
                payload_start: p.payload_start + 8,
                payload_end: p.payload_start + u.payload_end,
            },
            None => FrameClass::MalformedUdp,
        }
    } else if p.protocol == 1 || p.protocol == 58 {
        FrameClass::Icmp
    } else {
        FrameClass::Ignored { protocol: p.protocol }
    }
}

/// What the reactor asks of the surrounding runtime after one event.
#[derive(PartialEq, Eq, Debug)]
pub enum TunAction {
    /// Inject a received TCP segment into the user-space stack; the segment's
    /// endpoints name the client and its intended destination.
    TcpInject { src: EndpointRepr, dst: EndpointRepr, syn: bool, ack: bool },
    /// Hand the whole frame to the user-space stack for its interface state
    /// (acks, retransmits, echo replies).
    DriveInterface,
    /// Open an outbound UDP socket for a new association; reply frames for
    /// it carry `declared_dst` — the destination the client addressed — as
    /// their source.
    UdpOpen { client: EndpointRepr, target: EndpointRepr, declared_dst: EndpointRepr },
    /// Send a datagram payload through the association's outbound socket.
    UdpSend { client: EndpointRepr, target: EndpointRepr, payload: Vec<u8> },
    /// Shut down the forwarding task and socket of an evicted association.
    CloseAssociation { client: EndpointRepr },
    /// Write a frame produced by the stack or a forwarding task to the device.
    WriteDevice { frame: Vec<u8> },
}

/// One of the five event sources the reactor multiplexes.
#[derive(PartialEq, Eq, Debug)]
pub enum TunEvent {
    /// The device delivered one IP frame.
    Frame { frame: Vec<u8> },
    /// The user-space TCP stack produced a frame to transmit.
    TcpEgress { frame: Vec<u8> },
    /// A UDP forwarding task produced a reply frame to transmit.
    UdpEgress { frame: Vec<u8> },
    /// The cleanup timer fired.
    CleanupTick,
    /// An upper layer reported activity for a peer endpoint.
    KeepAlive { peer: EndpointRepr },
}

/// The exact effect of handling one device frame: drops change nothing and
/// ask nothing; TCP and ICMP frames leave the table alone and drive the
/// stack; UDP frames update the table as `spec_udp_effect` says and forward
/// the datagram payload.
pub open spec fn spec_frame_effect(
    udp0: UdpTun,
    udp1: UdpTun,
    b: Seq<u8>,
    device_broadcast: IpAddrRepr,
    now: u64,
    acts: Seq<TunAction>,
) -> bool {
    match spec_classify(b, device_broadcast) {
        FrameClass::Tcp { src, dst, syn, ack } => {
            &&& udp1 == udp0
            &&& acts =~= seq![
                TunAction::TcpInject { src, dst, syn, ack },
                TunAction::DriveInterface,
            ]
        },
        FrameClass::Icmp => {
            &&& udp1 == udp0
            &&& acts =~= seq![TunAction::DriveInterface]
        },
        FrameClass::Udp { src, dst, payload_start, payload_end } => {
            exists|d: UdpDispatch|
                {
                    &&& #[trigger] spec_udp_effect(udp0, udp1, src, dst, now, d)
                    &&& acts.len() == if d.created {
                        2int
                    } else {
                        1int
                    }
                    &&& (d.created ==> acts[0] == (TunAction::UdpOpen {
                        client: src,
                        target: d.target,
                        declared_dst: d.declared_dst,
                    }))
                    &&& acts.last() matches TunAction::UdpSend { client, target, payload }
                    &&& (acts.last() matches TunAction::UdpSend { client, target, payload } ==> {
                        &&& client == src
                        &&& target == d.target
                        &&& payload@ == b.subrange(payload_start as int, payload_end as int)
                    })
                }
        },
        _ => {
            &&& udp1 == udp0
            &&& acts =~= Seq::<TunAction>::empty()
        },
    }
}

/// The reactor's state: the UDP association table and the device broadcast
/// address the classification filters against.
pub struct TunHandler {
    pub udp: UdpTun,
    pub device_broadcast: IpAddrRepr,
}

impl TunHandler {
    pub fn new(udp: UdpTun, device_broadcast: IpAddrRepr) -> (r: TunHandler)
        ensures
            r.udp == udp,
            r.device_broadcast == device_broadcast,
    {
        TunHandler { udp, device_broadcast }
    }

    /// Classifies one frame read from the device and applies the
    /// classification policy; frames that fail any check change nothing and
    /// produce no action.
    pub fn handle_tun_frame(&mut self, frame: &[u8], now: u64) -> (acts: Vec<TunAction>)
        requires
            old(self).udp.wf(),
            frame@.len() <= 0x2_0000,
        ensures
            final(self).udp.wf(),
            final(self).device_broadcast == old(self).device_broadcast,
            spec_frame_effect(
                old(self).udp,
                final(self).udp,
                frame@,
                old(self).device_broadcast,
                now,
                acts@,
            ),
    {
        let class = classify_frame(frame, &self.device_broadcast);
        let mut acts: Vec<TunAction> = Vec::new();
        match class {
            FrameClass::Tcp { src, dst, syn, ack } => {
                acts.push(TunAction::TcpInject { src, dst, syn, ack });
                acts.push(TunAction::DriveInterface);
            },
            FrameClass::Icmp => {
                acts.push(TunAction::DriveInterface);
            },
            FrameClass::Udp { src, dst, payload_start, payload_end } => {
                let d = self.udp.handle_packet(src, dst, now);
                if d.created {
                    acts.push(TunAction::UdpOpen {
                        client: src,
                        target: d.target,
                        declared_dst: d.declared_dst,
                    });
                }
                let payload = slice_to_vec(slice_subrange(frame, payload_start, payload_end));
                acts.push(TunAction::UdpSend { client: src, target: d.target, payload });
                proof {
                    assert(spec_udp_effect(old(self).udp, self.udp, src, dst, now, d));
                }
            },
            _ => {},
        }
        acts
    }

    /// One cleanup-timer tick: evicts stale associations and asks the
    /// runtime to shut their forwarding tasks down.
    pub fn cleanup_tick(&mut self, now: u64) -> (acts: Vec<TunAction>)
        requires
            old(self).udp.wf(),
        ensures
            final(self).udp.wf(),
            final(self).device_broadcast == old(self).device_broadcast,
            exists|ev: Seq<EndpointRepr>|
                {
                    &&& #[trigger] spec_cleanup_effect(old(self).udp, final(self).udp, now, ev)
                    &&& acts@ == ev.map_values(|c: EndpointRepr| TunAction::CloseAssociation {
                        client: c,
                    })
                },
    {
        let evicted = self.udp.cleanup_expired(now);
        let mut acts: Vec<TunAction> = Vec::new();
        let n = evicted.len();
        let mut i: usize = 0;
        while i < n
            invariant
                n == evicted@.len(),
                i <= n,
                acts@ == evicted@.subrange(0, i as int).map_values(
                    |c: EndpointRepr| TunAction::CloseAssociation { client: c },
                ),
            decreases n - i,
        {
            acts.push(TunAction::CloseAssociation { client: evicted[i] });
            proof {
                assert(evicted@.subrange(0, i + 1 as int) =~= evicted@.subrange(0, i as int).push(
                    evicted@[i as int],
                ));
                assert(acts@ =~= evicted@.subrange(0, i + 1 as int).map_values(
                    |c: EndpointRepr| TunAction::CloseAssociation { client: c },
                ));
            }
            i = i + 1;
        }
        proof {
            assert(evicted@.subrange(0, n as int) =~= evicted@);
        }
        acts
    }

    /// An upper layer reported activity for `peer`: refresh its association.
    pub fn keep_alive(&mut self, peer: &EndpointRepr, now: u64)
        requires
            old(self).udp.wf(),
        ensures
            final(self).udp.wf(),
            final(self).device_broadcast == old(self).device_broadcast,
            spec_keepalive_effect(old(self).udp, final(self).udp, *peer, now),
    {
        self.udp.keep_alive(peer, now);
    }

    /// One reactor iteration: the first-ready event, handled. Frames from
    /// the device are classified and acted on; frames produced by the stack
    /// or by forwarding tasks are written to the device as they are; timer
    /// and keep-alive events maintain the association table.
    pub fn step(&mut self, ev: TunEvent, now: u64) -> (acts: Vec<TunAction>)
        requires
            old(self).udp.wf(),
            ev matches TunEvent::Frame { frame } ==> frame@.len() <= 0x2_0000,
        ensures
            final(self).udp.wf(),
            final(self).device_broadcast == old(self).device_broadcast,
            match ev {
                TunEvent::Frame { frame } => spec_frame_effect(
                    old(self).udp,
                    final(self).udp,
                    frame@,
                    old(self).device_broadcast,
                    now,
                    acts@,
                ),
                TunEvent::TcpEgress { frame } => {
                    &&& final(self).udp == old(self).udp
                    &&& acts@.len() == 1
                    &&& (acts@[0] matches TunAction::WriteDevice { frame: f } && f@ == frame@)
                },
                TunEvent::UdpEgress { frame } => {
                    &&& final(self).udp == old(self).udp
                    &&& acts@.len() == 1
                    &&& (acts@[0] matches TunAction::WriteDevice { frame: f } && f@ == frame@)
                },
                TunEvent::CleanupTick => exists|ev_list: Seq<EndpointRepr>|
                    {
                        &&& #[trigger] spec_cleanup_effect(
                            old(self).udp,
                            final(self).udp,
                            now,
                            ev_list,
                        )
                        &&& acts@ == ev_list.map_values(
                            |c: EndpointRepr| TunAction::CloseAssociation { client: c },
                        )
                    },
                TunEvent::KeepAlive { peer } => {
                    &&& spec_keepalive_effect(old(self).udp, final(self).udp, peer, now)
                    &&& acts@ =~= Seq::<TunAction>::empty()
                },
            },
    {
        match ev {
            TunEvent::Frame { frame } => self.handle_tun_frame(frame.as_slice(), now),
            TunEvent::TcpEgress { frame } => {
                let mut acts: Vec<TunAction> = Vec::new();
                acts.push(TunAction::WriteDevice { frame });
                acts
            },
            TunEvent::UdpEgress { frame } => {
                let mut acts: Vec<TunAction> = Vec::new();
                acts.push(TunAction::WriteDevice { frame });
                acts
            },
            TunEvent::CleanupTick => self.cleanup_tick(now),
            TunEvent::KeepAlive { peer } => {
                self.keep_alive(&peer, now);
                Vec::new()
            },
        }
    }
}

/// A frame that fails the checked IP parse changes no handler state and
/// produces no action: what `spec_frame_effect` allows for it is exactly an
/// unchanged table and an empty action list.
pub proof fn lemma_invalid_frame_no_effect(
    udp0: UdpTun,
    udp1: UdpTun,
    b: Seq<u8>,
    device_broadcast: IpAddrRepr,
    now: u64,
    acts: Seq<TunAction>,
)
    requires
        spec_frame_effect(udp0, udp1, b, device_broadcast, now, acts),
        !(spec_parse_ip(b) is Parsed),
    ensures
        udp1 == udp0,
        acts == Seq::<TunAction>::empty(),
{
}

/// A frame whose source or destination is broadcast, multicast, unspecified
/// or the device broadcast address changes no handler state and produces no
/// action, and in particular no device write.
pub proof fn lemma_non_unicast_no_effect(
    udp0: UdpTun,
    udp1: UdpTun,
    b: Seq<u8>,
    device_broadcast: IpAddrRepr,
    now: u64,
    acts: Seq<TunAction>,
)
    requires
        spec_frame_effect(udp0, udp1, b, device_broadcast, now, acts),
        spec_parse_ip(b) matches IpParseOutcome::Parsed(p) && (p.src.spec_non_unicast(
            device_broadcast,
        ) || p.dst.spec_non_unicast(device_broadcast)),
    ensures
        udp1 == udp0,
        acts == Seq::<TunAction>::empty(),
{
}

/// A UDP reply frame built for an association classifies back to exactly the
/// endpoints it was built from, with the reply bytes as the datagram
/// payload: what a forwarding task emits for target `src` and client `dst`
/// is read on the wire as that datagram and nothing else.
pub proof fn lemma_udp_reply_round_trip(
    b: Seq<u8>,
    src: EndpointRepr,
    dst: EndpointRepr,
    p: Seq<u8>,
    device_broadcast: IpAddrRepr,
)
    requires
        spec_udp_frame_v4(b, src, dst, p),
        p.len() <= 65507,
        !src.ip.spec_non_unicast(device_broadcast),
        !dst.ip.spec_non_unicast(device_broadcast),
    ensures
        spec_classify(b, device_broadcast) == (FrameClass::Udp {
            src,
            dst,
            payload_start: 28usize,
            payload_end: b.len() as usize,
        }),
        b.subrange(28, b.len() as int) == p,
{
    assert(b.len() > 0);
    let pkt = crate::ip_packet::spec_ipv4_packet(b);
    assert(spec_parse_ip(b) == IpParseOutcome::Parsed(pkt));
    assert(pkt.src == src.ip && pkt.dst == dst.ip && pkt.protocol == 17u8);
    assert(pkt.payload_start == 20 && pkt.payload_end == b.len());
    let pl = b.subrange(pkt.payload_start as int, pkt.payload_end as int);
    assert(pl =~= b.subrange(20, b.len() as int));
    assert(spec_udp_valid(pl));
    assert(spec_udp_info(pl).src_port == src.port && spec_udp_info(pl).dst_port == dst.port);
    assert(spec_udp_info(pl).payload_end == 8 + p.len());
}

/// The same round trip for a reply frame built over IPv6.
pub proof fn lemma_udp_reply_round_trip_v6(
    b: Seq<u8>,
    src: EndpointRepr,
    dst: EndpointRepr,
    p: Seq<u8>,
    device_broadcast: IpAddrRepr,
)
    requires
        spec_udp_frame_v6(b, src, dst, p),
        p.len() <= 65527,
        !src.ip.spec_non_unicast(device_broadcast),
        !dst.ip.spec_non_unicast(device_broadcast),
    ensures
        spec_classify(b, device_broadcast) == (FrameClass::Udp {
            src,
            dst,
            payload_start: 48usize,
            payload_end: b.len() as usize,
        }),
        b.subrange(48, b.len() as int) == p,
{
    assert(b.len() > 0);
    let pkt = crate::ip_packet::spec_ipv6_packet(b);
    assert(b[0] >> 4 != 4) by {
        assert(b[0] >> 4 == 6);
    }
    assert(spec_parse_ip(b) == IpParseOutcome::Parsed(pkt));
    assert(pkt.src == src.ip && pkt.dst == dst.ip && pkt.protocol == 17u8);
    assert(pkt.payload_start == 40 && pkt.payload_end == b.len());
    let pl = b.subrange(pkt.payload_start as int, pkt.payload_end as int);
    assert(pl =~= b.subrange(40, b.len() as int));
    assert(spec_udp_valid(pl));
    assert(spec_udp_info(pl).src_port == src.port && spec_udp_info(pl).dst_port == dst.port);
    assert(spec_udp_info(pl).payload_end == 8 + p.len());
}

} // verus!
