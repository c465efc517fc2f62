//! What the relay does with a datagram: it reads the session id from the header
//! and never looks into the payload.
use vstd::prelude::*;

use crate::packet::{packet_of, PacketView};
use crate::relay_metrics::DropReason;
use crate::router::{DecisionView, RouteDecision, Router, RouterView, SessionEndpoint};

verus! {

/// What becomes of a datagram that reaches the relay.
pub open spec fn relayed(v: RouterView, data: Seq<u8>, from: SessionEndpoint, now_ns: u64) -> (
    RouterView,
    DecisionView,
) {
    let counted = RouterView { metrics: v.metrics.came(data.len() as u64), ..v };
    match packet_of(data) {
        Ok((header, _)) => counted.routed(header.session_id, from, now_ns),
        Err(_) => (counted.dropped(DropReason::Malformed), DecisionView::Dropped),
    }
}

/// The relay reads nothing of a packet but its session: two packets of one
/// session go the same way, whatever else they hold.
pub proof fn relay_reads_only_the_session(
    v: RouterView,
    a: Seq<u8>,
    b: Seq<u8>,
    from: SessionEndpoint,
    now_ns: u64,
)
    requires
        packet_of(a) matches Ok((h, _)) && packet_of(b) matches Ok((k, _)) && h.session_id
            == k.session_id,
    ensures
        relayed(v, a, from, now_ns).1 == relayed(v, b, from, now_ns).1,
        relayed(v, a, from, now_ns).0.routes == relayed(v, b, from, now_ns).0.routes,
{
}

/// Takes a datagram in and says where it goes.
pub fn relay_datagram(
    router: &mut Router,
    data: &[u8],
    from: SessionEndpoint,
    now_ns: u64,
) -> (r: RouteDecision)
    requires
        old(router)@.sound(),
    ensures
        final(router)@.sound(),
        (final(router)@, r@) == relayed(old(router)@, data@, from, now_ns),
{
    router.record_in(data.len() as u64);
    let session_id: u32 = match PacketView::decode(data) {
        Ok(view) => view.header().session_id,
        Err(_) => {
            router.record_dropped(DropReason::Malformed);
            return RouteDecision::Dropped;
        },
    };
    router.route(session_id, from, now_ns)
}

/// What came of sending a datagram to a target.
#[derive(Debug, Clone, Copy, PartialEq, Eq, Structural)]
pub enum ForwardOutcome {
    /// So many bytes went out.
    Sent(u64),
    /// The socket or the channel refused.
    Failed,
}

/// Counts what came of sending a datagram to `target`.
pub fn record_forward(router: &mut Router, target: &SessionEndpoint, outcome: ForwardOutcome)
    ensures
        final(router)@ == match outcome {
            ForwardOutcome::Sent(n) => RouterView {
                metrics: old(router)@.metrics.went(n),
                ..old(router)@
            },
            ForwardOutcome::Failed => old(router)@.dropped(
                if target is Udp {
                    DropReason::SendError
                } else {
                    DropReason::WsDisconnected
                },
            ),
        },
{
    match outcome {
        ForwardOutcome::Sent(n) => router.record_out(n),
        ForwardOutcome::Failed => {
            if target.is_udp() {
                router.record_dropped(DropReason::SendError);
            } else {
                router.record_dropped(DropReason::WsDisconnected);
            }
        },
    }
}

/// The relay finds the session of a packet in its bytes 8 to 11, most significant first,
/// and counts every datagram that comes in.
pub proof fn relay_routes_by_session(
    v: RouterView,
    data: Seq<u8>,
    from: SessionEndpoint,
    now_ns: u64,
)
    requires
        packet_of(data) is Ok,
    ensures
        ({
            let id = (data[8] * 0x100_0000 + data[9] * 0x1_0000 + data[10] * 0x100
                + data[11]) as u32;
            let counted = RouterView {
                metrics: crate::relay_metrics::RelayMetrics {
                    packets_in: v.metrics.packets_in.wrapping_add(1),
                    bytes_in: v.metrics.bytes_in.wrapping_add(data.len() as u64),
                    ..v.metrics
                },
                ..v
            };
            relayed(v, data, from, now_ns) == counted.routed(id, from, now_ns)
        }),
{
}

/// What is no packet is counted as such and goes nowhere.
pub proof fn relay_drops_what_is_no_packet(
    v: RouterView,
    data: Seq<u8>,
    from: SessionEndpoint,
    now_ns: u64,
)
    requires
        packet_of(data) is Err,
    ensures
        ({
            let (next, decision) = relayed(v, data, from, now_ns);
            &&& decision is Dropped
            &&& next.routes == v.routes
            &&& next.rooms == v.rooms
            &&& next.metrics.packets_in == v.metrics.packets_in.wrapping_add(1)
            &&& next.metrics.bytes_in == v.metrics.bytes_in.wrapping_add(data.len() as u64)
            &&& next.metrics.dropped_malformed == v.metrics.dropped_malformed.wrapping_add(1)
        }),
{
}

/// What came of sending is counted on the way out, or as a drop of the kind of its
/// target.
pub proof fn forwarding_is_counted(
    router: &mut Router,
    target: &SessionEndpoint,
    outcome: ForwardOutcome,
)
    requires
        call_ensures(record_forward, (router, target, outcome), ()),
    ensures
        final(router)@.routes == old(router)@.routes,
        final(router)@.rooms == old(router)@.rooms,
        outcome matches ForwardOutcome::Sent(n) ==> {
            &&& final(router)@.metrics.packets_out
                == old(router)@.metrics.packets_out.wrapping_add(1)
            &&& final(router)@.metrics.bytes_out == old(router)@.metrics.bytes_out.wrapping_add(n)
        },
        outcome is Failed && *target is Udp ==> final(router)@.metrics.dropped_send_error
            == old(router)@.metrics.dropped_send_error.wrapping_add(1),
        outcome is Failed && *target is WebSocket ==> final(router)@.metrics.dropped_ws_disconnected
            == old(router)@.metrics.dropped_ws_disconnected.wrapping_add(1),
{
}

} // verus!
