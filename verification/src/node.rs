//! Node details shared by the daemon and the user interface.

use vstd::prelude::*;

verus! {

/// A greeting that shows the core library is linked.
pub fn hello_core() -> (s: &'static str)
    ensures
        s@ == "hello from core"@,
{
    "hello from core"
}

/// Protocol-specific options of a node.
#[derive(Clone, Debug)]
pub struct ProtocolOptions {
    pub server_name: Option<String>,
    pub alpn: Vec<String>,
    pub transport_path: Option<String>,
    pub transport_host: Option<String>,
    pub grpc_service_name: Option<String>,
    pub flow: Option<String>,
    pub reality_public_key: Option<String>,
    pub reality_short_id: Option<String>,
    pub vmess_security: Option<String>,
    pub vmess_alter_id: u32,
}

impl ProtocolOptions {
    /// No options set.
    pub fn default() -> (o: ProtocolOptions)
        ensures
            o.server_name is None,
            o.alpn@.len() == 0,
            o.transport_path is None,
            o.transport_host is None,
            o.grpc_service_name is None,
            o.flow is None,
            o.reality_public_key is None,
            o.reality_short_id is None,
            o.vmess_security is None,
            o.vmess_alter_id == 0,
    {
        ProtocolOptions {
            server_name: None,
            alpn: Vec::new(),
            transport_path: None,
            transport_host: None,
            grpc_service_name: None,
            flow: None,
            reality_public_key: None,
            reality_short_id: None,
            vmess_security: None,
            vmess_alter_id: 0,
        }
    }
}

/// How to reach a node.
#[derive(Clone, Debug)]
pub struct NodeDetails {
    pub address: String,
    pub encryption: String,
    pub udp: bool,
    pub tls: bool,
    pub skip_cert_verify: bool,
    pub transport: String,
    pub last_test: String,
    pub options: ProtocolOptions,
}

} // verus!
