//! Connection metadata as seen by the traffic tracker.

use vstd::prelude::*;

verus! {

/// Transport protocol of a tracked connection.
#[derive(Debug, Clone, Copy, PartialEq, Eq, Structural)]
pub enum Protocol {
    Tcp,
    Udp,
    Icmp,
    Unknown,
}

/// An IP address, by its octets (IPv4) or its 16-bit segments (IPv6).
#[derive(Debug, Clone, Copy)]
pub enum IpAddress {
    V4([u8; 4]),
    V6([u16; 8]),
}

/// What the tracker knows about one connection.
#[derive(Debug, Clone)]
pub struct ConnectionMeta {
    pub protocol: Protocol,
    pub src_ip: IpAddress,
    pub src_port: u16,
    pub dst_ip: IpAddress,
    pub dst_port: u16,
    /// Desktop process identity.
    pub pid: Option<u32>,
    pub process_name: Option<String>,
    pub process_path: Option<String>,
    /// Android package name.
    pub package_name: Option<String>,
    /// iOS/macOS bundle identifier.
    pub bundle_id: Option<String>,
}

/// An application as shown to the user: its name and an identifier (PID,
/// package name or bundle ID).
#[derive(Debug, Clone)]
pub struct AppIdentity {
    pub name: String,
    pub identifier: String,
    pub icon_path: Option<String>,
}

/// Applications that always bypass or always use the proxy.
#[derive(Debug, Clone)]
pub struct BypassRules {
    pub whitelist: Vec<String>,
    pub blacklist: Vec<String>,
}

} // verus!
