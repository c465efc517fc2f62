//! Parameters of the relay.
use vstd::prelude::*;

use crate::addr::SocketAddress;

verus! {

/// Parameters of the relay.
#[derive(Debug, Clone, Copy, PartialEq, Eq, Structural)]
pub struct RelayConfig {
    /// Where datagrams come in.
    pub udp_bind: SocketAddress,
    /// Where WebSocket connections come in.
    pub ws_bind: SocketAddress,
    /// Where the HTTP interface listens.
    pub observability_bind: SocketAddress,
    /// Seconds of silence after which a session is dropped.
    pub session_ttl_secs: u64,
    /// Most sessions at a time.
    pub max_sessions: usize,
    /// Most peers in a session.
    pub max_peers_per_session: usize,
}

/// Default of `udp_bind`: all interfaces, port 9000.
pub fn default_udp() -> (r: SocketAddress)
    ensures
        r == (SocketAddress::V4 { ip: 0, port: 9000 }),
{
    SocketAddress::V4 { ip: 0, port: 9000 }
}

/// Default of `ws_bind`: all interfaces, port 9090.
pub fn default_ws() -> (r: SocketAddress)
    ensures
        r == (SocketAddress::V4 { ip: 0, port: 9090 }),
{
    SocketAddress::V4 { ip: 0, port: 9090 }
}

/// Default of `observability_bind`: all interfaces, port 9100.
pub fn default_obs() -> (r: SocketAddress)
    ensures
        r == (SocketAddress::V4 { ip: 0, port: 9100 }),
{
    SocketAddress::V4 { ip: 0, port: 9100 }
}

/// Default of `session_ttl_secs`.
pub fn default_ttl() -> (r: u64)
    ensures
        r == 300,
{
    300
}

/// Default of `max_sessions`.
pub fn default_max_sessions() -> (r: usize)
    ensures
        r == 10_000,
{
    10_000
}

/// Default of `max_peers_per_session`.
pub fn default_max_peers() -> (r: usize)
    ensures
        r == 50,
{
    50
}

impl Default for RelayConfig {
    fn default() -> (r: RelayConfig)
        ensures
            r == (RelayConfig {
                udp_bind: SocketAddress::V4 { ip: 0, port: 9000 },
                ws_bind: SocketAddress::V4 { ip: 0, port: 9090 },
                observability_bind: SocketAddress::V4 { ip: 0, port: 9100 },
                session_ttl_secs: 300,
                max_sessions: 10_000,
                max_peers_per_session: 50,
            }),
    {
        RelayConfig {
            udp_bind: default_udp(),
            ws_bind: default_ws(),
            observability_bind: default_obs(),
            session_ttl_secs: default_ttl(),
            max_sessions: default_max_sessions(),
            max_peers_per_session: default_max_peers(),
        }
    }
}

} // verus!
