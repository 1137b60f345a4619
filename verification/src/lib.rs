//! User-space TUN inbound core: checked IP/TCP/UDP frame parsing, frame
//! classification, the UDP association table with timed eviction and
//! keep-alive, and the reactor's per-event decisions. Device, socket and
//! TCP-stack plumbing lives outside this library.

pub mod checksum;
pub mod handler;
pub mod ip_packet;
pub mod inbound;
pub mod net;
pub mod tcp;
pub mod virt_device;
pub mod udp;
