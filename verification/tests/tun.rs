use tun_inbound::handler::{FrameClass, TunAction, TunEvent, TunHandler};
use tun_inbound::inbound::{ConfigError, TunInbound};
use tun_inbound::ip_packet::{build_ipv4_frame, build_udp_frame_v4, IpPacket, IpParseOutcome};
use tun_inbound::net::{EndpointRepr, IpAddrRepr};
use tun_inbound::udp::UdpTun;

fn v4(a: u8, b: u8, c: u8, d: u8) -> IpAddrRepr {
    IpAddrRepr::V4(u32::from_be_bytes([a, b, c, d]))
}

fn ep(a: u8, b: u8, c: u8, d: u8, port: u16) -> EndpointRepr {
    EndpointRepr { ip: v4(a, b, c, d), port }
}

fn handler_for_10_0_0_1_24(intercept_dns: Option<EndpointRepr>) -> TunHandler {
    let inbound = TunInbound::new("10.0.0.1/24", v4(10, 0, 0, 2), intercept_dns).unwrap();
    let udp = UdpTun::new(inbound.intercept_dns, 30_000);
    TunHandler::new(udp, inbound.broadcast)
}

#[test]
fn broadcast_destination_is_dropped() {
    // Device address 10.0.0.1/24; UDP from 10.0.0.50:1000 to 10.0.0.255:5353.
    let mut h = handler_for_10_0_0_1_24(None);
    assert_eq!(h.device_broadcast, v4(10, 0, 0, 255));
    let frame = build_udp_frame_v4(&ep(10, 0, 0, 50, 1000), &ep(10, 0, 0, 255, 5353), b"hi");
    let acts = h.handle_tun_frame(&frame, 0);
    assert!(acts.is_empty());
    assert_eq!(h.udp.len(), 0);
}

#[test]
fn dns_interception_rewrites_port_53() {
    let redirect = ep(127, 0, 0, 1, 5300);
    let mut h = handler_for_10_0_0_1_24(Some(redirect));
    let client = ep(10, 0, 0, 50, 40000);
    let resolver = ep(8, 8, 8, 8, 53);
    let frame = build_udp_frame_v4(&client, &resolver, b"P");
    let acts = h.handle_tun_frame(&frame, 1_000);
    assert_eq!(acts.len(), 2);
    assert_eq!(
        acts[0],
        TunAction::UdpOpen { client, target: redirect, declared_dst: resolver }
    );
    assert_eq!(
        acts[1],
        TunAction::UdpSend { client, target: redirect, payload: b"P".to_vec() }
    );
    assert!(h.udp.contains(&client));
}

#[test]
fn dns_reply_is_reemitted_from_declared_resolver() {
    // The reply Q from the interception endpoint goes back on the wire as a
    // frame from 8.8.8.8:53 to the client.
    let client = ep(10, 0, 0, 50, 40000);
    let resolver = ep(8, 8, 8, 8, 53);
    let reply = build_udp_frame_v4(&resolver, &client, b"Q");
    let bcast = v4(10, 0, 0, 255);
    match tun_inbound::handler::classify_frame(&reply, &bcast) {
        FrameClass::Udp { src, dst, payload_start, payload_end } => {
            assert_eq!(src, resolver);
            assert_eq!(dst, client);
            assert_eq!(&reply[payload_start..payload_end], b"Q");
        }
        other => panic!("unexpected classification: {:?}", other),
    }
    let mut h = handler_for_10_0_0_1_24(Some(ep(127, 0, 0, 1, 5300)));
    let acts = h.step(TunEvent::UdpEgress { frame: reply.clone() }, 2_000);
    assert_eq!(acts.len(), 1);
    assert_eq!(acts[0], TunAction::WriteDevice { frame: reply });
}

fn tcp_header(src_port: u16, dst_port: u16, flags: u8) -> Vec<u8> {
    let mut t = vec![0u8; 20];
    t[0..2].copy_from_slice(&src_port.to_be_bytes());
    t[2..4].copy_from_slice(&dst_port.to_be_bytes());
    t[12] = 0x50; // data offset 5 words
    t[13] = flags;
    t
}

#[test]
fn tcp_syn_is_injected_with_intended_destination() {
    // Client 10.0.0.50:50000 sends SYN to 93.184.216.34:443: the handler asks
    // for an injection whose reported destination is that endpoint.
    let mut h = handler_for_10_0_0_1_24(None);
    let seg = tcp_header(50000, 443, 0x02);
    let frame = build_ipv4_frame(
        u32::from_be_bytes([10, 0, 0, 50]),
        u32::from_be_bytes([93, 184, 216, 34]),
        6,
        &seg,
    );
    let acts = h.handle_tun_frame(&frame, 0);
    assert_eq!(acts.len(), 2);
    assert_eq!(
        acts[0],
        TunAction::TcpInject {
            src: ep(10, 0, 0, 50, 50000),
            dst: ep(93, 184, 216, 34, 443),
            syn: true,
            ack: false,
        }
    );
    assert_eq!(acts[1], TunAction::DriveInterface);
    assert_eq!(h.udp.len(), 0);
}

#[test]
fn idle_association_is_evicted() {
    // idle_timeout 30s; one association, no traffic; at t = 40s it is gone.
    let mut udp = UdpTun::new(None, 30_000);
    let client = ep(10, 0, 0, 50, 40000);
    let d = udp.handle_packet(client, ep(1, 2, 3, 4, 9999), 0);
    assert!(d.created);
    let evicted = udp.cleanup_expired(40_000);
    assert_eq!(evicted, vec![client]);
    assert!(!udp.contains(&client));
    assert_eq!(udp.len(), 0);
}

#[test]
fn keep_alive_refreshes_association() {
    // Same as eviction, but keep_alive at t = 25s: at t = 40s it is present.
    let mut udp = UdpTun::new(None, 30_000);
    let client = ep(10, 0, 0, 50, 40000);
    udp.handle_packet(client, ep(1, 2, 3, 4, 9999), 0);
    udp.keep_alive(&client, 25_000);
    assert_eq!(udp.activity_of(&client), Some(25_000));
    let evicted = udp.cleanup_expired(40_000);
    assert!(evicted.is_empty());
    assert!(udp.contains(&client));
}

#[test]
fn keep_alive_for_absent_peer_changes_nothing() {
    let mut udp = UdpTun::new(None, 30_000);
    udp.keep_alive(&ep(10, 0, 0, 50, 40000), 5_000);
    assert_eq!(udp.len(), 0);
}

#[test]
fn ignored_protocol_is_dropped() {
    // An IPv4 frame with protocol 47 produces no action and no state change.
    let mut h = handler_for_10_0_0_1_24(None);
    let frame = build_ipv4_frame(
        u32::from_be_bytes([10, 0, 0, 50]),
        u32::from_be_bytes([10, 0, 0, 2]),
        47,
        &[1, 2, 3],
    );
    assert_eq!(
        tun_inbound::handler::classify_frame(&frame, &h.device_broadcast),
        FrameClass::Ignored { protocol: 47 }
    );
    let acts = h.handle_tun_frame(&frame, 0);
    assert!(acts.is_empty());
    assert_eq!(h.udp.len(), 0);
}

#[test]
fn malformed_frames_change_nothing() {
    let mut h = handler_for_10_0_0_1_24(None);
    // Empty input.
    assert!(h.handle_tun_frame(&[], 0).is_empty());
    // Truncated IPv4 header.
    assert!(h.handle_tun_frame(&[0x45, 0, 0, 20], 0).is_empty());
    // Valid frame with one payload byte flipped in the header checksum.
    let mut frame = build_udp_frame_v4(&ep(10, 0, 0, 50, 1), &ep(10, 0, 0, 2, 2), b"x");
    frame[10] ^= 0xFF;
    let bcast = h.device_broadcast;
    assert_eq!(
        tun_inbound::handler::classify_frame(&frame, &bcast),
        FrameClass::MalformedIp
    );
    assert!(h.handle_tun_frame(&frame, 0).is_empty());
    assert_eq!(h.udp.len(), 0);
}

#[test]
fn version_nibble_neither_4_nor_6_is_not_ip() {
    let bcast = v4(10, 0, 0, 255);
    let frame = [0x51u8; 40];
    assert_eq!(
        tun_inbound::handler::classify_frame(&frame, &bcast),
        FrameClass::NotIp
    );
}

#[test]
fn built_frame_parses_back() {
    let frame = build_ipv4_frame(0x0A000032, 0x08080808, 17, b"abc");
    assert_eq!(frame.len(), 23);
    match IpPacket::new_checked(&frame) {
        IpParseOutcome::Parsed(p) => {
            assert_eq!(p.src, IpAddrRepr::V4(0x0A000032));
            assert_eq!(p.dst, IpAddrRepr::V4(0x08080808));
            assert_eq!(p.protocol, 17);
            assert_eq!(p.payload_start, 20);
            assert_eq!(p.payload_end, 23);
            assert_eq!(&frame[p.payload_start..p.payload_end], b"abc");
        }
        other => panic!("unexpected outcome: {:?}", other),
    }
}

#[test]
fn ipv6_frame_parses() {
    let mut frame = vec![0u8; 44];
    frame[0] = 0x60;
    frame[4] = 0;
    frame[5] = 4; // payload length 4
    frame[6] = 17; // next header UDP
    frame[8..24].copy_from_slice(&0x20010DB8_00000000_00000000_00000001u128.to_be_bytes());
    frame[24..40].copy_from_slice(&0x20010DB8_00000000_00000000_00000002u128.to_be_bytes());
    match IpPacket::new_checked(&frame) {
        IpParseOutcome::Parsed(p) => {
            assert_eq!(p.src, IpAddrRepr::V6(0x20010DB8_00000000_00000000_00000001));
            assert_eq!(p.dst, IpAddrRepr::V6(0x20010DB8_00000000_00000000_00000002));
            assert_eq!(p.protocol, 17);
            assert_eq!(p.payload_start, 40);
            assert_eq!(p.payload_end, 44);
        }
        other => panic!("unexpected outcome: {:?}", other),
    }
}

#[test]
fn multicast_source_is_dropped() {
    let mut h = handler_for_10_0_0_1_24(None);
    let frame = build_udp_frame_v4(&ep(224, 0, 0, 1, 5353), &ep(10, 0, 0, 2, 53), b"m");
    assert_eq!(
        tun_inbound::handler::classify_frame(&frame, &h.device_broadcast),
        FrameClass::NonUnicast
    );
    assert!(h.handle_tun_frame(&frame, 0).is_empty());
}

#[test]
fn unspecified_source_is_dropped() {
    let h = handler_for_10_0_0_1_24(None);
    let frame = build_udp_frame_v4(&ep(0, 0, 0, 0, 68), &ep(10, 0, 0, 2, 67), b"d");
    assert_eq!(
        tun_inbound::handler::classify_frame(&frame, &h.device_broadcast),
        FrameClass::NonUnicast
    );
}

#[test]
fn second_datagram_reuses_association() {
    let mut udp = UdpTun::new(None, 30_000);
    let client = ep(10, 0, 0, 50, 40000);
    let target = ep(1, 2, 3, 4, 9999);
    let first = udp.handle_packet(client, target, 100);
    let second = udp.handle_packet(client, target, 200);
    assert!(first.created);
    assert!(!second.created);
    assert_eq!(second.target, target);
    assert_eq!(udp.len(), 1);
    assert_eq!(udp.activity_of(&client), Some(200));
}

#[test]
fn association_target_survives_dns_free_traffic() {
    // Without interception a port-53 destination keeps its declared target.
    let mut udp = UdpTun::new(None, 30_000);
    let client = ep(10, 0, 0, 50, 40000);
    let d = udp.handle_packet(client, ep(8, 8, 8, 8, 53), 0);
    assert!(d.created);
    assert_eq!(d.target, ep(8, 8, 8, 8, 53));
}

#[test]
fn cleanup_tick_reports_closures() {
    let mut h = handler_for_10_0_0_1_24(None);
    let client = ep(10, 0, 0, 50, 40000);
    h.udp.handle_packet(client, ep(1, 2, 3, 4, 9999), 0);
    let acts = h.step(TunEvent::CleanupTick, 40_000);
    assert_eq!(acts, vec![TunAction::CloseAssociation { client }]);
    assert_eq!(h.udp.len(), 0);
}

#[test]
fn invalid_addresses_are_rejected() {
    let dest = v4(10, 0, 0, 2);
    assert_eq!(
        TunInbound::new("nonsense", dest, None).unwrap_err(),
        ConfigError::InvalidAddress
    );
    assert_eq!(
        TunInbound::new("10.0.0.1/33", dest, None).unwrap_err(),
        ConfigError::InvalidAddress
    );
    assert_eq!(
        TunInbound::new("224.0.0.1/24", dest, None).unwrap_err(),
        ConfigError::InvalidAddress
    );
    assert_eq!(
        TunInbound::new("255.255.255.255/32", dest, None).unwrap_err(),
        ConfigError::InvalidAddress
    );
    assert_eq!(
        TunInbound::new("0.0.0.0/0", dest, None).unwrap_err(),
        ConfigError::InvalidAddress
    );
}

#[test]
fn valid_addresses_derive_the_broadcast() {
    let dest = v4(10, 0, 0, 2);
    let t = TunInbound::new("10.0.0.1/24", dest, None).unwrap();
    assert_eq!(t.address, v4(10, 0, 0, 1));
    assert_eq!(t.prefix_len, 24);
    assert_eq!(t.broadcast, v4(10, 0, 0, 255));
    assert_eq!(t.destination, dest);
    let t6 = TunInbound::new("fd00::1/64", dest, None).unwrap();
    assert_eq!(t6.prefix_len, 64);
    assert_eq!(
        t6.broadcast,
        IpAddrRepr::V6(0xFD000000_00000000_FFFFFFFF_FFFFFFFFu128)
    );
}

#[test]
fn checksum_accepts_and_rejects() {
    let frame = build_ipv4_frame(1, 2, 6, &[]);
    assert!(tun_inbound::checksum::checksum_ok(&frame[0..20]));
    let mut bad = frame.clone();
    bad[11] = bad[11].wrapping_add(1);
    assert!(!tun_inbound::checksum::checksum_ok(&bad[0..20]));
}

#[test]
fn ipv6_reply_frame_round_trips() {
    let target = EndpointRepr { ip: IpAddrRepr::V6(0x20010DB8_00000000_00000000_00000001), port: 53 };
    let client = EndpointRepr { ip: IpAddrRepr::V6(0xFD000000_00000000_00000000_00000002), port: 40000 };
    let frame = tun_inbound::ip_packet::build_udp_frame_v6(&target, &client, b"odd");
    assert_eq!(frame.len(), 48 + 3);
    let bcast = IpAddrRepr::V6(0xFD000000_00000000_FFFFFFFF_FFFFFFFF);
    match tun_inbound::handler::classify_frame(&frame, &bcast) {
        FrameClass::Udp { src, dst, payload_start, payload_end } => {
            assert_eq!(src, target);
            assert_eq!(dst, client);
            assert_eq!(&frame[payload_start..payload_end], b"odd");
        }
        other => panic!("unexpected classification: {:?}", other),
    }
    // The UDP checksum over the pseudo-header verifies: the word sum of
    // addresses, length, next header and datagram is a multiple of 0xFFFF.
    let mut sum: u64 = 0;
    for i in (8..40).step_by(2) {
        sum += u64::from(frame[i]) * 256 + u64::from(frame[i + 1]);
    }
    let udp_len = (frame.len() - 40) as u64;
    sum += udp_len + 17;
    let mut k = 40;
    while k + 1 < frame.len() {
        sum += u64::from(frame[k]) * 256 + u64::from(frame[k + 1]);
        k += 2;
    }
    if k < frame.len() {
        sum += u64::from(frame[k]) * 256;
    }
    assert!(sum > 0 && sum % 0xFFFF == 0);
}

#[test]
fn removing_an_association_leaves_the_rest() {
    let mut udp = UdpTun::new(None, 30_000);
    let a = ep(10, 0, 0, 50, 40000);
    let b = ep(10, 0, 0, 51, 40001);
    udp.handle_packet(a, ep(1, 2, 3, 4, 9999), 0);
    udp.handle_packet(b, ep(1, 2, 3, 4, 9999), 0);
    udp.remove(&a);
    assert!(!udp.contains(&a));
    assert!(udp.contains(&b));
    assert_eq!(udp.len(), 1);
    udp.remove(&a);
    assert_eq!(udp.len(), 1);
}

#[test]
fn intercepted_association_records_declared_destination() {
    // The socket goes to the redirect, but the association keeps the
    // destination the client addressed, and replies are emitted from it.
    let redirect = ep(127, 0, 0, 1, 5300);
    let resolver = ep(8, 8, 8, 8, 53);
    let client = ep(10, 0, 0, 50, 40000);
    let mut udp = UdpTun::new(Some(redirect), 30_000);
    let first = udp.handle_packet(client, resolver, 0);
    assert!(first.created);
    assert_eq!(first.target, redirect);
    assert_eq!(first.declared_dst, resolver);
    let second = udp.handle_packet(client, resolver, 5);
    assert!(!second.created);
    assert_eq!(second.target, redirect);
    assert_eq!(second.declared_dst, resolver);
}

#[test]
fn tcp_bookkeeping_opens_once_and_accepts_once() {
    let mut t = tun_inbound::tcp::TcpTun::new();
    let client = ep(10, 0, 0, 50, 50000);
    let dst = ep(93, 184, 216, 34, 443);
    assert!(t.handle_packet(client, dst, true, false));
    assert!(!t.handle_packet(client, dst, true, false));
    assert!(!t.handle_packet(client, dst, false, true));
    assert!(t.is_listening(&dst));
    assert!(!t.is_listening(&client));
    assert!(t.accept(client, dst));
    assert!(!t.accept(client, dst));
    assert!(t.accept(ep(10, 0, 0, 51, 50001), dst));
}
