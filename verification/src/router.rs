//! Routing table of the relay: which peers share a session.
//!
//! A datagram of a known peer goes to all other peers of its session. Rooms give
//! sessions a name that people can read out.
use dashmap::DashMap;
use vstd::prelude::*;

use crate::addr::SocketAddress;
use crate::relay_metrics::{DropReason, RelayMetrics};

verus! {

/// A peer of a session.
#[derive(Debug, Clone, Copy, PartialEq, Eq, Structural)]
pub enum SessionEndpoint {
    Udp(SocketAddress),
    /// A WebSocket connection, by the number of its channel.
    WebSocket(u64),
}

impl SessionEndpoint {
    /// Whether the peer is reached by UDP.
    pub fn is_udp(&self) -> (r: bool)
        ensures
            r == (*self is Udp),
    {
        match self {
            SessionEndpoint::Udp(_) => true,
            _ => false,
        }
    }

    /// Whether the peer is reached by WebSocket.
    pub fn is_ws(&self) -> (r: bool)
        ensures
            r == (*self is WebSocket),
    {
        match self {
            SessionEndpoint::WebSocket(_) => true,
            _ => false,
        }
    }

    /// Whether both are the same peer.
    pub fn matches(&self, other: &SessionEndpoint) -> (r: bool)
        ensures
            r == (*self == *other),
    {
        match (self, other) {
            (SessionEndpoint::Udp(a), SessionEndpoint::Udp(b)) => *a == *b,
            (SessionEndpoint::WebSocket(a), SessionEndpoint::WebSocket(b)) => *a == *b,
            _ => false,
        }
    }
}

/// The peers of a session.
#[derive(Debug)]
pub struct RouteEntry {
    pub peers: Vec<SessionEndpoint>,
    /// When the session was last heard of, in ns.
    pub last_activity: u64,
}

/// The peers of a session as a mathematical value.
#[verifier::ext_equal]
pub struct RouteView {
    pub peers: Seq<SessionEndpoint>,
    pub last_activity: u64,
}

impl View for RouteEntry {
    type V = RouteView;

    open spec fn view(&self) -> RouteView {
        RouteView { peers: self.peers@, last_activity: self.last_activity }
    }
}

/// Copies an entry.
fn copy_entry(entry: &RouteEntry) -> (r: RouteEntry)
    ensures
        r@ == entry@,
{
    RouteEntry {
        peers: vstd::slice::slice_to_vec(entry.peers.as_slice()),
        last_activity: entry.last_activity,
    }
}

/// The map type of the `dashmap` crate.
#[verifier::external_type_specification]
#[verifier::external_body]
#[verifier::reject_recursive_types(K)]
#[verifier::reject_recursive_types(V)]
#[verifier::reject_recursive_types(S)]
pub struct ExDashMap<K, V, S>(DashMap<K, V, S>);

/// The sessions that the map holds, by id.
pub uninterp spec fn routes_of(m: DashMap<u32, RouteEntry>) -> Map<u32, RouteView>;

/// The rooms that the map holds, by code.
pub uninterp spec fn rooms_of(m: DashMap<String, u32>) -> Map<Seq<char>, u32>;

/// `DashMap::new`: an empty map.
#[verifier::external_body]
fn routes_new() -> (r: DashMap<u32, RouteEntry>)
    ensures
        routes_of(r).dom() == Set::<u32>::empty(),
{
    DashMap::new()
}

/// `DashMap::get`: the entry of a session, copied, if there is one.
#[verifier::external_body]
fn routes_get(m: &DashMap<u32, RouteEntry>, session_id: u32) -> (r: Option<RouteEntry>)
    ensures
        match r {
            Some(e) => routes_of(*m).dom().contains(session_id) && e@ == routes_of(*m)[session_id],
            None => !routes_of(*m).dom().contains(session_id),
        },
{
    m.get(&session_id).map(|e| copy_entry(e.value()))
}

/// `DashMap::insert`: the session has this entry from now on.
#[verifier::external_body]
fn routes_insert(m: &mut DashMap<u32, RouteEntry>, session_id: u32, entry: RouteEntry)
    ensures
        routes_of(*final(m)) == routes_of(*old(m)).insert(session_id, entry@),
{
    m.insert(session_id, entry);
}

/// `DashMap::len`: how many sessions there are.
#[verifier::external_body]
fn routes_len(m: &DashMap<u32, RouteEntry>) -> (r: usize)
    ensures
        r == routes_of(*m).dom().len(),
{
    m.len()
}

/// `DashMap::retain`: every entry is swept once; those that the sweep keeps stay,
/// as it left them.
#[verifier::external_body]
fn routes_retain(
    m: &mut DashMap<u32, RouteEntry>,
    now_ns: u64,
    max_age_secs: u64,
    closed: &Vec<u64>,
)
    ensures
        routes_of(*final(m)) == swept_routes(routes_of(*old(m)), now_ns, max_age_secs, closed@),
{
    m.retain(|_, entry| sweep(entry, now_ns, max_age_secs, closed));
}

/// `DashMap::new`: an empty map.
#[verifier::external_body]
fn rooms_new() -> (r: DashMap<String, u32>)
    ensures
        rooms_of(r).dom() == Set::<Seq<char>>::empty(),
{
    DashMap::new()
}

/// `DashMap::contains_key`: whether the room is there.
#[verifier::external_body]
fn rooms_contains(m: &DashMap<String, u32>, code: &String) -> (r: bool)
    ensures
        r == rooms_of(*m).dom().contains(code@),
{
    m.contains_key(code)
}

/// `DashMap::insert`: the room leads to this session from now on.
#[verifier::external_body]
fn rooms_insert(m: &mut DashMap<String, u32>, code: String, session_id: u32)
    ensures
        rooms_of(*final(m)) == rooms_of(*old(m)).insert(code@, session_id),
{
    m.insert(code, session_id);
}

/// `DashMap::get`: the session of a room, if the room is there.
#[verifier::external_body]
fn rooms_get(m: &DashMap<String, u32>, code: &str) -> (r: Option<u32>)
    ensures
        match r {
            Some(id) => rooms_of(*m).dom().contains(code@) && id == rooms_of(*m)[code@],
            None => !rooms_of(*m).dom().contains(code@),
        },
{
    m.get(code).map(|v| *v)
}

/// `DashMap::remove`: the room is gone; says whether it was there.
#[verifier::external_body]
fn rooms_remove(m: &mut DashMap<String, u32>, code: &str) -> (r: bool)
    ensures
        r == rooms_of(*old(m)).dom().contains(code@),
        rooms_of(*final(m)) == rooms_of(*old(m)).remove(code@),
{
    m.remove(code).is_some()
}

/// `DashMap::iter`: all rooms with their sessions, each once, in an order that
/// the crate leaves open.
#[verifier::external_body]
fn rooms_list(m: &DashMap<String, u32>) -> (r: Vec<(String, u32)>)
    ensures
        lists_map(pairs_view(r@), rooms_of(*m)),
{
    m.iter().map(|e| (e.key().clone(), *e.value())).collect()
}

/// Pairs of code and session as mathematical values.
pub open spec fn pairs_view(pairs: Seq<(String, u32)>) -> Seq<(Seq<char>, u32)> {
    pairs.map_values(|p: (String, u32)| (p.0@, p.1))
}

/// A list holds every entry of a map exactly once.
pub open spec fn lists_map(list: Seq<(Seq<char>, u32)>, m: Map<Seq<char>, u32>) -> bool {
    &&& forall|i: int|
        0 <= i < list.len() ==> m.dom().contains((#[trigger] list[i]).0) && m[list[i].0] == list[i].1
    &&& forall|code: Seq<char>| #[trigger]
        m.dom().contains(code) ==> exists|i: int| 0 <= i < list.len() && (#[trigger] list[i]).0 == code
    &&& forall|i: int, j: int|
        0 <= i < j < list.len() ==> (#[trigger] list[i]).0 != (#[trigger] list[j]).0
}

/// A WebSocket whose channel is closed.
pub open spec fn gone(p: SessionEndpoint, closed: Seq<u64>) -> bool {
    p matches SessionEndpoint::WebSocket(id) && closed.contains(id)
}

/// The peers whose connection still stands, in order.
pub open spec fn standing(peers: Seq<SessionEndpoint>, closed: Seq<u64>) -> Seq<SessionEndpoint>
    decreases peers.len(),
{
    if peers.len() == 0 {
        peers
    } else if gone(peers.last(), closed) {
        standing(peers.drop_last(), closed)
    } else {
        standing(peers.drop_last(), closed).push(peers.last())
    }
}

/// What a sweep leaves of a session, if anything.
pub open spec fn swept(e: RouteView, now_ns: u64, max_age_secs: u64, closed: Seq<u64>) -> Option<
    RouteView,
> {
    let peers = standing(e.peers, closed);
    if peers.len() > 0 && max_age_secs > 0 && now_ns - e.last_activity < max_age_secs
        * 1_000_000_000 {
        Some(RouteView { peers, last_activity: e.last_activity })
    } else {
        None
    }
}

/// What a sweep leaves of all sessions.
pub open spec fn swept_routes(
    routes: Map<u32, RouteView>,
    now_ns: u64,
    max_age_secs: u64,
    closed: Seq<u64>,
) -> Map<u32, RouteView> {
    Map::new(
        |id: u32|
            routes.dom().contains(id) && swept(routes[id], now_ns, max_age_secs, closed) is Some,
        |id: u32| swept(routes[id], now_ns, max_age_secs, closed)->0,
    )
}

/// Drops the peers that are gone; says whether the session stays.
fn sweep(entry: &mut RouteEntry, now_ns: u64, max_age_secs: u64, closed: &Vec<u64>) -> (r: bool)
    ensures
        match swept(old(entry)@, now_ns, max_age_secs, closed@) {
            Some(e) => r && final(entry)@ == e,
            None => !r,
        },
{
    let mut kept: Vec<SessionEndpoint> = Vec::new();
    let mut i: usize = 0;
    let ghost peers = entry.peers@;
    while i < entry.peers.len()
        invariant
            i <= entry.peers@.len(),
            entry.peers@ == peers,
            entry.last_activity == old(entry).last_activity,
            kept@ == standing(peers.take(i as int), closed@),
        decreases peers.len() - i,
    {
        assert(peers.take(i + 1).drop_last() =~= peers.take(i as int));
        let p: SessionEndpoint = entry.peers[i];
        let closed_now: bool = match p {
            SessionEndpoint::WebSocket(id) => contains_id(closed, id),
            SessionEndpoint::Udp(_) => false,
        };
        if !closed_now {
            kept.push(p);
        }
        i = i + 1;
    }
    assert(peers.take(i as int) =~= peers);
    entry.peers = kept;
    let age: u64 = now_ns.saturating_sub(entry.last_activity);
    entry.peers.len() > 0 && (age as u128) < (max_age_secs as u128) * 1_000_000_000
}

/// Whether a list of channels holds `id`.
fn contains_id(ids: &Vec<u64>, id: u64) -> (r: bool)
    ensures
        r == ids@.contains(id),
{
    let mut i: usize = 0;
    while i < ids.len()
        invariant
            i <= ids@.len(),
            forall|j: int| 0 <= j < i ==> ids@[j] != id,
        decreases ids@.len() - i,
    {
        if ids[i] == id {
            return true;
        }
        i = i + 1;
    }
    false
}

/// What the relay does with a datagram.
#[derive(Debug)]
pub enum RouteDecision {
    /// Send it to all these peers.
    Broadcast(Vec<SessionEndpoint>),
    /// The peer is known now; there is no one to send to yet.
    Registered,
    /// Drop it.
    Dropped,
}

/// A [`RouteDecision`] as a mathematical value.
#[verifier::ext_equal]
pub enum DecisionView {
    Broadcast(Seq<SessionEndpoint>),
    Registered,
    Dropped,
}

impl View for RouteDecision {
    type V = DecisionView;

    open spec fn view(&self) -> DecisionView {
        match self {
            RouteDecision::Broadcast(targets) => DecisionView::Broadcast(targets@),
            RouteDecision::Registered => DecisionView::Registered,
            RouteDecision::Dropped => DecisionView::Dropped,
        }
    }
}

/// All peers but one, in order.
pub open spec fn others(peers: Seq<SessionEndpoint>, from: SessionEndpoint) -> Seq<SessionEndpoint>
    decreases peers.len(),
{
    if peers.len() == 0 {
        peers
    } else if peers.last() == from {
        others(peers.drop_last(), from)
    } else {
        others(peers.drop_last(), from).push(peers.last())
    }
}

/// Sending to `targets`, if there are any.
pub open spec fn broadcast_to(targets: Seq<SessionEndpoint>) -> DecisionView {
    if targets.len() == 0 {
        DecisionView::Registered
    } else {
        DecisionView::Broadcast(targets)
    }
}

/// A router as a mathematical value.
#[verifier::ext_equal]
pub struct RouterView {
    pub routes: Map<u32, RouteView>,
    pub rooms: Map<Seq<char>, u32>,
    pub max_sessions: usize,
    pub max_peers: usize,
    pub metrics: RelayMetrics,
}

impl RouterView {
    /// The router after it dropped a datagram.
    pub open spec fn dropped(self, reason: DropReason) -> RouterView {
        RouterView { metrics: self.metrics.dropped(reason), ..self }
    }

    /// The router with this entry for a session.
    pub open spec fn with_route(self, session_id: u32, e: RouteView) -> RouterView {
        RouterView { routes: self.routes.insert(session_id, e), ..self }
    }

    /// What becomes of a datagram of `from` for a session: the next router and
    /// the decision.
    pub open spec fn routed(self, session_id: u32, from: SessionEndpoint, now_ns: u64) -> (
        RouterView,
        DecisionView,
    ) {
        if session_id == 0 {
            (self.dropped(DropReason::ZeroSession), DecisionView::Dropped)
        } else if self.routes.dom().contains(session_id) {
            let peers = self.routes[session_id].peers;
            let heard = self.with_route(session_id, RouteView { peers, last_activity: now_ns });
            if peers.contains(from) {
                (heard, broadcast_to(others(peers, from)))
            } else if peers.len() >= self.max_peers {
                (heard.dropped(DropReason::SessionFull), DecisionView::Dropped)
            } else {
                (
                    self.with_route(
                        session_id,
                        RouteView { peers: peers.push(from), last_activity: now_ns },
                    ),
                    broadcast_to(peers),
                )
            }
        } else if self.routes.dom().len() >= self.max_sessions {
            (self.dropped(DropReason::MaxSessions), DecisionView::Dropped)
        } else {
            let next = self.with_route(
                session_id,
                RouteView { peers: seq![from], last_activity: now_ns },
            );
            (
                RouterView {
                    metrics: RelayMetrics {
                        active_sessions: next.routes.dom().len() as usize,
                        ..self.metrics
                    },
                    ..next
                },
                DecisionView::Registered,
            )
        }
    }

    /// How many peers a session has.
    pub open spec fn peers_of(self, session_id: u32) -> nat {
        if self.routes.dom().contains(session_id) {
            self.routes[session_id].peers.len()
        } else {
            0
        }
    }

    /// The router after a sweep.
    pub open spec fn evicted(self, now_ns: u64, max_age_secs: u64, closed: Seq<u64>) -> RouterView {
        let routes = swept_routes(self.routes, now_ns, max_age_secs, closed);
        RouterView {
            routes,
            metrics: if routes.dom().len() < self.routes.dom().len() {
                RelayMetrics { active_sessions: routes.dom().len() as usize, ..self.metrics }
            } else {
                self.metrics
            },
            ..self
        }
    }

    /// What always holds of a router's sessions: none has the id zero, there are
    /// no more than allowed, each has a peer, no peer stands twice in a session,
    /// and no session has more peers than allowed (the first is always let in).
    pub open spec fn sound(self) -> bool {
        &&& self.routes.dom().finite()
        &&& self.routes.dom().len() <= self.max_sessions
        &&& !self.routes.dom().contains(0)
        &&& forall|id: u32| #[trigger]
            self.routes.dom().contains(id) ==> {
                let peers = self.routes[id].peers;
                &&& peers.len() > 0
                &&& peers.no_duplicates()
                &&& peers.len() <= self.max_peers || peers.len() == 1
            }
    }
}

/// Leaving one peer out of distinct peers leaves exactly the others, each once.
pub proof fn others_are_the_rest(peers: Seq<SessionEndpoint>, from: SessionEndpoint)
    requires
        peers.no_duplicates(),
    ensures
        others(peers, from).no_duplicates(),
        forall|p: SessionEndpoint|
            others(peers, from).contains(p) <==> peers.contains(p) && p != from,
        others(peers, from).len() <= peers.len(),
    decreases peers.len(),
{
    if peers.len() > 0 {
        let rest = peers.drop_last();
        others_are_the_rest(rest, from);
        let out = others(peers, from);
        assert forall|p: SessionEndpoint| out.contains(p) <==> peers.contains(p) && p != from by {
            if peers.contains(p) {
                let k = choose|k: int| 0 <= k < peers.len() && peers[k] == p;
                if k < rest.len() {
                    assert(rest[k] == p);
                }
            }
            if rest.contains(p) {
                let k = choose|k: int| 0 <= k < rest.len() && rest[k] == p;
                assert(peers[k] == p);
            }
            if others(rest, from).contains(p) && peers.last() != from {
                let k = choose|k: int|
                    0 <= k < others(rest, from).len() && others(rest, from)[k] == p;
                assert(out[k] == p);
            }
            if p == peers.last() && p != from {
                assert(out[out.len() - 1] == p);
            }
            if out.contains(p) && peers.last() != from {
                let k = choose|k: int| 0 <= k < out.len() && out[k] == p;
                if k < out.len() - 1 {
                    assert(others(rest, from)[k] == p);
                }
            }
        }
        if peers.last() != from {
            assert(!rest.contains(peers.last()));
            assert(!others(rest, from).contains(peers.last()));
            assert forall|i: int, j: int| 0 <= i < out.len() && 0 <= j < out.len() && i != j implies out[i]
                != out[j] by {
                let last = out.len() - 1;
                if i == last {
                    assert(others(rest, from)[j] == out[j]);
                } else if j == last {
                    assert(others(rest, from)[i] == out[i]);
                } else {
                    assert(others(rest, from)[i] == out[i]);
                    assert(others(rest, from)[j] == out[j]);
                }
            }
        }
    }
}

/// The peers that stand are among the peers, and each once if they were.
proof fn standing_peers(peers: Seq<SessionEndpoint>, closed: Seq<u64>)
    requires
        peers.no_duplicates(),
    ensures
        standing(peers, closed).no_duplicates(),
        standing(peers, closed).len() <= peers.len(),
        forall|p: SessionEndpoint|
            standing(peers, closed).contains(p) <==> peers.contains(p) && !gone(p, closed),
    decreases peers.len(),
{
    if peers.len() > 0 {
        let rest = peers.drop_last();
        standing_peers(rest, closed);
        let out = standing(peers, closed);
        assert forall|p: SessionEndpoint| out.contains(p) <==> peers.contains(p) && !gone(
            p,
            closed,
        ) by {
            if peers.contains(p) {
                let k = choose|k: int| 0 <= k < peers.len() && peers[k] == p;
                if k < rest.len() {
                    assert(rest[k] == p);
                }
            }
            if rest.contains(p) {
                let k = choose|k: int| 0 <= k < rest.len() && rest[k] == p;
                assert(peers[k] == p);
            }
            if standing(rest, closed).contains(p) && !gone(peers.last(), closed) {
                let k = choose|k: int|
                    0 <= k < standing(rest, closed).len() && standing(rest, closed)[k] == p;
                assert(out[k] == p);
            }
            if p == peers.last() && !gone(p, closed) {
                assert(out[out.len() - 1] == p);
            }
            if out.contains(p) && !gone(peers.last(), closed) {
                let k = choose|k: int| 0 <= k < out.len() && out[k] == p;
                if k < out.len() - 1 {
                    assert(standing(rest, closed)[k] == p);
                }
            }
        }
        if !gone(peers.last(), closed) {
            assert(!rest.contains(peers.last()));
            assert(!standing(rest, closed).contains(peers.last()));
            assert forall|i: int, j: int| 0 <= i < out.len() && 0 <= j < out.len() && i != j implies out[i]
                != out[j] by {
                let last = out.len() - 1;
                if i == last {
                    assert(standing(rest, closed)[j] == out[j]);
                } else if j == last {
                    assert(standing(rest, closed)[i] == out[i]);
                } else {
                    assert(standing(rest, closed)[i] == out[i]);
                    assert(standing(rest, closed)[j] == out[j]);
                }
            }
        }
    }
}

/// Routing keeps the router sound, and a datagram never goes back to its sender:
/// its targets are other peers of its session, each once.
pub proof fn routing_is_sound(v: RouterView, session_id: u32, from: SessionEndpoint, now_ns: u64)
    requires
        v.sound(),
    ensures
        v.routed(session_id, from, now_ns).0.sound(),
        v.routed(session_id, from, now_ns).1 matches DecisionView::Broadcast(targets) ==> {
            &&& targets.len() > 0
            &&& targets.no_duplicates()
            &&& !targets.contains(from)
            &&& v.routes.dom().contains(session_id)
            &&& forall|p: SessionEndpoint|
                targets.contains(p) <==> v.routes[session_id].peers.contains(p) && p != from
        },
{
    let next = v.routed(session_id, from, now_ns).0;
    if session_id != 0 && v.routes.dom().contains(session_id) {
        let peers = v.routes[session_id].peers;
        others_are_the_rest(peers, from);
        assert(next.routes.dom() =~= v.routes.dom());
        assert forall|id: u32| #[trigger] next.routes.dom().contains(id) implies {
            let q = next.routes[id].peers;
            &&& q.len() > 0
            &&& q.no_duplicates()
            &&& q.len() <= next.max_peers || q.len() == 1
        } by {
            assert(v.routes.dom().contains(id));
            if id == session_id && !peers.contains(from) && peers.len() < v.max_peers {
                assert(peers.push(from).no_duplicates());
            }
        }
    } else if session_id != 0 && v.routes.dom().len() < v.max_sessions {
        assert(next.routes.dom() =~= v.routes.dom().insert(session_id));
        assert forall|id: u32| #[trigger] next.routes.dom().contains(id) implies {
            let q = next.routes[id].peers;
            &&& q.len() > 0
            &&& q.no_duplicates()
            &&& q.len() <= next.max_peers || q.len() == 1
        } by {
            if id != session_id {
                assert(v.routes.dom().contains(id));
            }
        }
    }
}

/// A sweep keeps the router sound, adds no session and no peer, and leaves no
/// peer whose connection is gone.
pub proof fn eviction_is_sound(v: RouterView, now_ns: u64, max_age_secs: u64, closed: Seq<u64>)
    requires
        v.sound(),
    ensures
        v.evicted(now_ns, max_age_secs, closed).sound(),
        v.evicted(now_ns, max_age_secs, closed).routes.dom().subset_of(v.routes.dom()),
        forall|id: u32, p: SessionEndpoint|
            v.evicted(now_ns, max_age_secs, closed).routes.dom().contains(id) && #[trigger] v.evicted(
                now_ns,
                max_age_secs,
                closed,
            ).routes[id].peers.contains(p) ==> v.routes[id].peers.contains(p) && !gone(p, closed),
{
    let next = v.evicted(now_ns, max_age_secs, closed);
    vstd::set_lib::lemma_len_subset(next.routes.dom(), v.routes.dom());
    assert forall|id: u32| #[trigger] next.routes.dom().contains(id) implies {
        let q = next.routes[id].peers;
        &&& q.len() > 0
        &&& q.no_duplicates()
        &&& q.len() <= next.max_peers || q.len() == 1
    } by {
        assert(v.routes.dom().contains(id));
        standing_peers(v.routes[id].peers, closed);
    }
    assert forall|id: u32, p: SessionEndpoint|
        next.routes.dom().contains(id) && #[trigger] next.routes[id].peers.contains(p) implies v.routes[id].peers.contains(
    p) && !gone(p, closed) by {
        standing_peers(v.routes[id].peers, closed);
    }
}

/// The routing table.
pub struct Router {
    routes: DashMap<u32, RouteEntry>,
    rooms: DashMap<String, u32>,
    max_sessions: usize,
    max_peers_per_session: usize,
    metrics: RelayMetrics,
}

impl View for Router {
    type V = RouterView;

    closed spec fn view(&self) -> RouterView {
        RouterView {
            routes: routes_of(self.routes),
            rooms: rooms_of(self.rooms),
            max_sessions: self.max_sessions,
            max_peers: self.max_peers_per_session,
            metrics: self.metrics,
        }
    }
}

/// Whether a list of peers holds one.
fn contains_peer(peers: &Vec<SessionEndpoint>, p: &SessionEndpoint) -> (r: bool)
    ensures
        r == peers@.contains(*p),
{
    let mut i: usize = 0;
    while i < peers.len()
        invariant
            i <= peers@.len(),
            forall|j: int| 0 <= j < i ==> peers@[j] != *p,
        decreases peers@.len() - i,
    {
        if peers[i].matches(p) {
            return true;
        }
        i = i + 1;
    }
    false
}

/// All peers but one.
fn peers_except(peers: &Vec<SessionEndpoint>, from: &SessionEndpoint) -> (r: Vec<SessionEndpoint>)
    ensures
        r@ == others(peers@, *from),
{
    let mut out: Vec<SessionEndpoint> = Vec::new();
    let mut i: usize = 0;
    while i < peers.len()
        invariant
            i <= peers@.len(),
            out@ == others(peers@.take(i as int), *from),
        decreases peers@.len() - i,
    {
        assert(peers@.take(i + 1).drop_last() =~= peers@.take(i as int));
        if !peers[i].matches(from) {
            out.push(peers[i]);
        }
        i = i + 1;
    }
    assert(peers@.take(i as int) =~= peers@);
    out
}

/// The decision to send to these peers, if there are any.
fn decide(targets: Vec<SessionEndpoint>) -> (r: RouteDecision)
    ensures
        r@ == broadcast_to(targets@),
{
    if targets.len() == 0 {
        RouteDecision::Registered
    } else {
        RouteDecision::Broadcast(targets)
    }
}

impl Router {
    /// An empty router.
    pub fn new(max_sessions: usize, max_peers_per_session: usize, metrics: RelayMetrics) -> (r:
        Router)
        ensures
            r@ == (RouterView {
                routes: Map::empty(),
                rooms: Map::empty(),
                max_sessions,
                max_peers: max_peers_per_session,
                metrics,
            }),
            r@.sound(),
    {
        let r = Router {
            routes: routes_new(),
            rooms: rooms_new(),
            max_sessions,
            max_peers_per_session,
            metrics,
        };
        assert(r@.routes =~= Map::empty());
        assert(r@.rooms =~= Map::empty());
        r
    }

    /// The counters.
    pub fn metrics(&self) -> (r: &RelayMetrics)
        ensures
            *r == self@.metrics,
    {
        &self.metrics
    }

    /// Counts a datagram that was dropped outside the routing table.
    pub fn record_dropped(&mut self, reason: DropReason)
        ensures
            final(self)@ == old(self)@.dropped(reason),
    {
        self.metrics.record_dropped(reason);
    }

    /// Counts a datagram that came in.
    pub fn record_in(&mut self, n: u64)
        ensures
            final(self)@ == (RouterView { metrics: old(self)@.metrics.came(n), ..old(self)@ }),
    {
        self.metrics.record_in(n);
    }

    /// Counts a datagram that went out.
    pub fn record_out(&mut self, n: u64)
        ensures
            final(self)@ == (RouterView { metrics: old(self)@.metrics.went(n), ..old(self)@ }),
    {
        self.metrics.record_out(n);
    }

    /// Takes note of a datagram and says where it goes.
    pub fn route(&mut self, session_id: u32, from: SessionEndpoint, now_ns: u64) -> (r:
        RouteDecision)
        requires
            old(self)@.sound(),
        ensures
            final(self)@.sound(),
            (final(self)@, r@) == old(self)@.routed(session_id, from, now_ns),
    {
        let ghost before = self@;
        proof {
            routing_is_sound(before, session_id, from, now_ns);
        }
        if session_id == 0 {
            self.metrics.record_dropped(DropReason::ZeroSession);
            return RouteDecision::Dropped;
        }
        if let Some(mut entry) = routes_get(&self.routes, session_id) {
            entry.last_activity = now_ns;
            if contains_peer(&entry.peers, &from) {
                let targets: Vec<SessionEndpoint> = peers_except(&entry.peers, &from);
                routes_insert(&mut self.routes, session_id, entry);
                return decide(targets);
            }
            if entry.peers.len() >= self.max_peers_per_session {
                routes_insert(&mut self.routes, session_id, entry);
                self.metrics.record_dropped(DropReason::SessionFull);
                return RouteDecision::Dropped;
            }
            let existing: Vec<SessionEndpoint> = vstd::slice::slice_to_vec(entry.peers.as_slice());
            entry.peers.push(from);
            routes_insert(&mut self.routes, session_id, entry);
            return decide(existing);
        }
        if routes_len(&self.routes) >= self.max_sessions {
            self.metrics.record_dropped(DropReason::MaxSessions);
            return RouteDecision::Dropped;
        }
        let mut peers: Vec<SessionEndpoint> = Vec::new();
        peers.push(from);
        assert(peers@ =~= seq![from]);
        routes_insert(&mut self.routes, session_id, RouteEntry { peers, last_activity: now_ns });
        self.metrics.active_sessions = routes_len(&self.routes);
        RouteDecision::Registered
    }

    /// Drops WebSocket peers whose channel is closed, and sessions that are empty
    /// or were not heard of for `max_age_secs`. Returns how many sessions went.
    pub fn evict_idle(&mut self, max_age_secs: u64, now_ns: u64, closed: &Vec<u64>) -> (r: usize)
        requires
            old(self)@.sound(),
        ensures
            final(self)@.sound(),
            final(self)@ == old(self)@.evicted(now_ns, max_age_secs, closed@),
            r == old(self)@.routes.dom().len() - final(self)@.routes.dom().len(),
    {
        proof {
            eviction_is_sound(self@, now_ns, max_age_secs, closed@);
            vstd::set_lib::lemma_len_subset(
                self@.evicted(now_ns, max_age_secs, closed@).routes.dom(),
                self@.routes.dom(),
            );
        }
        let before: usize = routes_len(&self.routes);
        routes_retain(&mut self.routes, now_ns, max_age_secs, closed);
        let after: usize = routes_len(&self.routes);
        let removed: usize = before - after;
        if removed > 0 {
            self.metrics.active_sessions = after;
        }
        removed
    }

    /// How many sessions there are.
    pub fn active_sessions(&self) -> (r: usize)
        ensures
            r == self@.routes.dom().len(),
    {
        routes_len(&self.routes)
    }

    /// How many peers a session has.
    pub fn peer_count(&self, session_id: u32) -> (r: usize)
        ensures
            r == self@.peers_of(session_id),
    {
        match routes_get(&self.routes, session_id) {
            Some(e) => e.peers.len(),
            None => 0,
        }
    }

    /// Names a session. A code that is taken stays as it is.
    pub fn register_room(&mut self, code: String, session_id: u32) -> (r: bool)
        ensures
            r == !old(self)@.rooms.dom().contains(code@),
            final(self)@ == if r {
                (RouterView {
                    rooms: old(self)@.rooms.insert(code@, session_id),
                    ..old(self)@
                })
            } else {
                old(self)@
            },
    {
        if rooms_contains(&self.rooms, &code) {
            return false;
        }
        rooms_insert(&mut self.rooms, code, session_id);
        true
    }

    /// The session of a code.
    pub fn resolve_room(&self, code: &str) -> (r: Option<u32>)
        ensures
            r == if self@.rooms.dom().contains(code@) {
                Some(self@.rooms[code@])
            } else {
                None::<u32>
            },
    {
        rooms_get(&self.rooms, code)
    }

    /// Takes a name away; says whether it was there.
    pub fn remove_room(&mut self, code: &str) -> (r: bool)
        ensures
            r == old(self)@.rooms.dom().contains(code@),
            final(self)@ == (RouterView { rooms: old(self)@.rooms.remove(code@), ..old(self)@ }),
    {
        rooms_remove(&mut self.rooms, code)
    }

    /// All rooms with their session and its number of peers, each once, in no
    /// particular order.
    pub fn list_rooms(&self) -> (r: Vec<(String, u32, usize)>)
        ensures
            lists_rooms(rooms_view(r@), self@),
    {
        let pairs: Vec<(String, u32)> = rooms_list(&self.rooms);
        let mut out: Vec<(String, u32, usize)> = Vec::new();
        let mut i: usize = 0;
        while i < pairs.len()
            invariant
                i <= pairs@.len(),
                out@.len() == i,
                forall|j: int|
                    0 <= j < i ==> (#[trigger] out@[j]).0@ == pairs@[j].0@ && out@[j].1
                        == pairs@[j].1 && out@[j].2 == self@.peers_of(pairs@[j].1),
            decreases pairs@.len() - i,
        {
            let peers: usize = self.peer_count(pairs[i].1);
            out.push((pairs[i].0.clone(), pairs[i].1, peers));
            i = i + 1;
        }
        assert(codes_and_ids(rooms_view(out@)) =~= pairs_view(pairs@));
        out
    }
}

/// Rooms as mathematical values.
pub open spec fn rooms_view(rooms: Seq<(String, u32, usize)>) -> Seq<(Seq<char>, u32, nat)> {
    rooms.map_values(|p: (String, u32, usize)| (p.0@, p.1, p.2 as nat))
}

/// The code and the session of each room.
pub open spec fn codes_and_ids(list: Seq<(Seq<char>, u32, nat)>) -> Seq<(Seq<char>, u32)> {
    list.map_values(|p: (Seq<char>, u32, nat)| (p.0, p.1))
}

/// A list holds every room exactly once, with the peers of its session.
pub open spec fn lists_rooms(list: Seq<(Seq<char>, u32, nat)>, v: RouterView) -> bool {
    &&& lists_map(codes_and_ids(list), v.rooms)
    &&& forall|i: int| 0 <= i < list.len() ==> (#[trigger] list[i]).2 == v.peers_of(list[i].1)
}

/// A room that is registered resolves to its session until it is removed, and
/// then no longer; other rooms are not touched.
pub proof fn room_life(v: RouterView, code: Seq<char>, session_id: u32, other: Seq<char>)
    requires
        !v.rooms.dom().contains(code),
        other != code,
    ensures
        ({
            let named = v.rooms.insert(code, session_id);
            &&& named.dom().contains(code) && named[code] == session_id
            &&& named.dom().contains(other) == v.rooms.dom().contains(other)
            &&& v.rooms.dom().contains(other) ==> named[other] == v.rooms[other]
            &&& named.remove(code) == v.rooms
        }),
{
    assert(v.rooms.insert(code, session_id).remove(code) =~= v.rooms);
}

/// Leaving out the peer at `k` leaves those before and those behind it, in order.
proof fn others_close_ranks(peers: Seq<SessionEndpoint>, k: int)
    requires
        peers.no_duplicates(),
        0 <= k < peers.len(),
    ensures
        others(peers, peers[k]) == peers.take(k) + peers.skip(k + 1),
    decreases peers.len(),
{
    let rest = peers.drop_last();
    if k == peers.len() - 1 {
        others_of_stranger(rest, peers[k]);
        assert(peers.take(k) + peers.skip(k + 1) =~= rest);
    } else {
        others_close_ranks(rest, k);
        assert(rest[k] == peers[k]);
        assert(peers.take(k) + peers.skip(k + 1) =~= (rest.take(k) + rest.skip(k + 1)).push(
            peers.last(),
        ));
    }
}

/// Leaving out someone who is not there changes nothing.
proof fn others_of_stranger(peers: Seq<SessionEndpoint>, from: SessionEndpoint)
    requires
        !peers.contains(from),
    ensures
        others(peers, from) == peers,
    decreases peers.len(),
{
    if peers.len() > 0 {
        let rest = peers.drop_last();
        assert(peers[peers.len() - 1] == peers.last());
        assert(!rest.contains(from)) by {
            if rest.contains(from) {
                let i = choose|i: int| 0 <= i < rest.len() && rest[i] == from;
                assert(peers[i] == from);
            }
        }
        others_of_stranger(rest, from);
        assert(rest.push(peers.last()) =~= peers);
    }
}

/// When a datagram is dropped: its session is zero; or it is from no peer of a session
/// that has as many as allowed; or it would open one more session than allowed. In no
/// other case.
pub proof fn dropped_only_at_the_limits(
    v: RouterView,
    session_id: u32,
    from: SessionEndpoint,
    now_ns: u64,
)
    ensures
        v.routed(session_id, from, now_ns).1 is Dropped <==> {
            ||| session_id == 0
            ||| v.routes.dom().contains(session_id) && !v.routes[session_id].peers.contains(from)
                && v.routes[session_id].peers.len() >= v.max_peers
            ||| !v.routes.dom().contains(session_id) && v.routes.dom().len() >= v.max_sessions
        },
{
}

/// A newcomer joins: a session that has room takes it in as its last peer, and what it
/// sent goes to exactly the peers that were there.
pub proof fn newcomer_joins(v: RouterView, session_id: u32, from: SessionEndpoint, now_ns: u64)
    requires
        session_id != 0,
        v.routes.dom().contains(session_id),
        v.routes[session_id].peers.len() > 0,
        !v.routes[session_id].peers.contains(from),
        v.routes[session_id].peers.len() < v.max_peers,
    ensures
        ({
            let (next, decision) = v.routed(session_id, from, now_ns);
            let before = v.routes[session_id].peers;
            let after = next.routes[session_id].peers;
            &&& decision == DecisionView::Broadcast(before)
            &&& next.routes.dom() == v.routes.dom()
            &&& after.len() == before.len() + 1
            &&& after.last() == from
            &&& after.drop_last() == before
            &&& next.routes[session_id].last_activity == now_ns
            &&& next.metrics == v.metrics
        }),
{
    let next = v.routed(session_id, from, now_ns).0;
    assert(next.routes.dom() =~= v.routes.dom());
    assert(next.routes[session_id].peers.drop_last() =~= v.routes[session_id].peers);
}

/// A known peer is heard by all the others, in order, and by no one else; alone in its
/// session it is heard by no one. The session keeps its peers.
pub proof fn known_peer_is_heard(v: RouterView, session_id: u32, k: int, now_ns: u64)
    requires
        session_id != 0,
        v.routes.dom().contains(session_id),
        v.routes[session_id].peers.no_duplicates(),
        0 <= k < v.routes[session_id].peers.len(),
    ensures
        ({
            let peers = v.routes[session_id].peers;
            let (next, decision) = v.routed(session_id, peers[k], now_ns);
            &&& peers.len() > 1 ==> decision == DecisionView::Broadcast(
                peers.take(k) + peers.skip(k + 1),
            )
            &&& peers.len() == 1 ==> decision is Registered
            &&& next.routes.dom() == v.routes.dom()
            &&& next.routes[session_id].peers == peers
            &&& next.routes[session_id].last_activity == now_ns
            &&& next.metrics == v.metrics
        }),
{
    let peers = v.routes[session_id].peers;
    others_close_ranks(peers, k);
    let next = v.routed(session_id, peers[k], now_ns).0;
    assert(next.routes.dom() =~= v.routes.dom());
}

/// A session that is new, and that there is room for, begins with its sender alone.
pub proof fn session_begins(v: RouterView, session_id: u32, from: SessionEndpoint, now_ns: u64)
    requires
        v.routes.dom().finite(),
        session_id != 0,
        !v.routes.dom().contains(session_id),
        v.routes.dom().len() < v.max_sessions,
    ensures
        ({
            let (next, decision) = v.routed(session_id, from, now_ns);
            &&& decision is Registered
            &&& next.routes.dom() == v.routes.dom().insert(session_id)
            &&& next.routes[session_id].peers.len() == 1
            &&& next.routes[session_id].peers[0] == from
            &&& next.routes[session_id].last_activity == now_ns
            &&& next.metrics.active_sessions == v.routes.dom().len() + 1
            &&& next.metrics == (RelayMetrics {
                active_sessions: next.metrics.active_sessions,
                ..v.metrics
            })
        }),
{
    let next = v.routed(session_id, from, now_ns).0;
    assert(next.routes.dom() =~= v.routes.dom().insert(session_id));
}

/// A drop is counted under its reason and changes no session, but that a full session
/// has been heard of.
pub proof fn drop_changes_nothing(
    v: RouterView,
    session_id: u32,
    from: SessionEndpoint,
    now_ns: u64,
)
    requires
        !v.routes.dom().contains(0),
        v.routed(session_id, from, now_ns).1 is Dropped,
    ensures
        ({
            let next = v.routed(session_id, from, now_ns).0;
            let known = v.routes.dom().contains(session_id);
            &&& next.routes.dom() == v.routes.dom()
            &&& known ==> next.routes[session_id].peers == v.routes[session_id].peers
            &&& known ==> next.routes[session_id].last_activity == now_ns
            &&& next.metrics == if session_id == 0 {
                (RelayMetrics {
                    dropped_zero_session: v.metrics.dropped_zero_session.wrapping_add(1),
                    ..v.metrics
                })
            } else if known {
                (RelayMetrics {
                    dropped_session_full: v.metrics.dropped_session_full.wrapping_add(1),
                    ..v.metrics
                })
            } else {
                (RelayMetrics {
                    dropped_max_sessions: v.metrics.dropped_max_sessions.wrapping_add(1),
                    ..v.metrics
                })
            }
        }),
{
    let next = v.routed(session_id, from, now_ns).0;
    assert(next.routes.dom() =~= v.routes.dom());
}

/// Whatever a datagram does, other sessions, the rooms and the limits stay.
pub proof fn routing_touches_one_session(
    v: RouterView,
    session_id: u32,
    from: SessionEndpoint,
    now_ns: u64,
    other: u32,
)
    requires
        other != session_id,
    ensures
        ({
            let next = v.routed(session_id, from, now_ns).0;
            &&& next.routes.dom().contains(other) == v.routes.dom().contains(other)
            &&& v.routes.dom().contains(other) ==> next.routes[other] == v.routes[other]
            &&& next.rooms == v.rooms
            &&& next.max_sessions == v.max_sessions
            &&& next.max_peers == v.max_peers
            &&& v.peers_of(other) == if v.routes.dom().contains(other) {
                v.routes[other].peers.len()
            } else {
                0
            }
        }),
{
}

/// Two peers of one session hear each other: once both have sent, what either sends
/// goes to the other.
pub proof fn two_peers_hear_each_other(
    v: RouterView,
    session_id: u32,
    a: SessionEndpoint,
    b: SessionEndpoint,
    now_ns: u64,
)
    requires
        session_id != 0,
        !v.routes.dom().contains(session_id),
        v.routes.dom().len() < v.max_sessions,
        v.max_peers >= 2,
        a != b,
    ensures
        ({
            let one = v.routed(session_id, a, now_ns).0;
            let (two, first) = one.routed(session_id, b, now_ns);
            &&& first == DecisionView::Broadcast(seq![a])
            &&& two.routed(session_id, a, now_ns).1 == DecisionView::Broadcast(seq![b])
            &&& two.routed(session_id, b, now_ns).1 == DecisionView::Broadcast(seq![a])
        }),
{
    let one = v.routed(session_id, a, now_ns).0;
    let two = one.routed(session_id, b, now_ns).0;
    assert(one.routes[session_id].peers =~= seq![a]);
    assert(two.routes[session_id].peers =~= seq![a, b]);
    reveal_with_fuel(others, 4);
    assert(seq![a, b].drop_last() =~= seq![a]);
    assert(seq![a].drop_last() =~= Seq::empty());
    assert(others(seq![a, b], a) =~= seq![b]);
    assert(others(seq![a, b], b) =~= seq![a]);
    assert(seq![a, b].contains(a)) by {
        assert(seq![a, b][0] == a);
    }
    assert(seq![a, b].contains(b)) by {
        assert(seq![a, b][1] == b);
    }
    assert(!seq![a].contains(b));
}

/// A sweep keeps a session exactly when a peer of it still stands, which a UDP peer
/// always does and a WebSocket peer while its channel is open, and it was heard of less
/// than so many seconds ago. What it keeps are those peers, in order.
pub proof fn sweep_keeps_the_living(
    v: RouterView,
    now_ns: u64,
    max_age_secs: u64,
    closed: Seq<u64>,
    id: u32,
)
    requires
        v.routes.dom().contains(id),
        v.routes[id].peers.no_duplicates(),
    ensures
        ({
            let next = v.evicted(now_ns, max_age_secs, closed);
            let e = v.routes[id];
            let age = if now_ns > e.last_activity {
                now_ns - e.last_activity
            } else {
                0
            };
            let stands = |p: SessionEndpoint|
                p matches SessionEndpoint::WebSocket(c) ==> !closed.contains(c);
            &&& next.routes.dom().contains(id) <==> (exists|p: SessionEndpoint| #[trigger]
                e.peers.contains(p) && stands(p)) && age < max_age_secs * 1_000_000_000
            &&& next.routes.dom().contains(id) ==> {
                &&& next.routes[id].last_activity == e.last_activity
                &&& next.routes[id].peers == e.peers.filter(stands)
                &&& forall|p: SessionEndpoint| #[trigger]
                    next.routes[id].peers.contains(p) <==> e.peers.contains(p) && stands(p)
            }
            &&& next.rooms == v.rooms
            &&& next.max_sessions == v.max_sessions
            &&& next.max_peers == v.max_peers
            &&& next.metrics == if next.routes.dom().len() < v.routes.dom().len() {
                (RelayMetrics {
                    active_sessions: next.routes.dom().len() as usize,
                    ..v.metrics
                })
            } else {
                v.metrics
            }
        }),
{
    let e = v.routes[id];
    let kept = standing(e.peers, closed);
    standing_peers(e.peers, closed);
    standing_in_order(
        e.peers,
        closed,
        |p: SessionEndpoint| p matches SessionEndpoint::WebSocket(c) ==> !closed.contains(c),
    );
    if kept.len() > 0 {
        assert(kept.contains(kept[0]));
        assert(e.peers.contains(kept[0]));
    } else {
        assert forall|p: SessionEndpoint| #[trigger] e.peers.contains(p) implies gone(p, closed) by {
            assert(!kept.contains(p));
        }
    }
}

/// A list of rooms holds each room in one place, with its session and how many peers
/// that has, and nothing else.
pub proof fn every_room_is_listed_once(
    list: Seq<(Seq<char>, u32, nat)>,
    v: RouterView,
    code: Seq<char>,
    i: int,
    j: int,
)
    requires
        lists_rooms(list, v),
    ensures
        v.rooms.dom().contains(code) <==> exists|k: int|
            0 <= k < list.len() && (#[trigger] list[k]).0 == code,
        0 <= i < list.len() ==> v.rooms.dom().contains(list[i].0) && v.rooms[list[i].0] == list[i].1,
        0 <= i < list.len() ==> list[i].2 == if v.routes.dom().contains(list[i].1) {
            v.routes[list[i].1].peers.len()
        } else {
            0
        },
        0 <= i < j < list.len() ==> list[i].0 != list[j].0,
{
    let c = codes_and_ids(list);
    assert forall|k: int| 0 <= k < list.len() implies (#[trigger] list[k]).0 == c[k].0 && list[k].1
        == c[k].1 by {}
    if v.rooms.dom().contains(code) {
        let k = choose|k: int| 0 <= k < c.len() && (#[trigger] c[k]).0 == code;
        assert(list[k].0 == code);
    }
    if exists|k: int| 0 <= k < list.len() && (#[trigger] list[k]).0 == code {
        let k = choose|k: int| 0 <= k < list.len() && (#[trigger] list[k]).0 == code;
        assert(c[k].0 == code);
    }
    if 0 <= i < list.len() {
        assert(c[i].0 == list[i].0);
    }
    if 0 <= i < j < list.len() {
        assert(c[i].0 != c[j].0);
    }
}

/// The peers that stand keep their order.
proof fn standing_in_order(
    peers: Seq<SessionEndpoint>,
    closed: Seq<u64>,
    stands: spec_fn(SessionEndpoint) -> bool,
)
    requires
        forall|p: SessionEndpoint| #[trigger] stands(p) <==> !gone(p, closed),
    ensures
        standing(peers, closed) == peers.filter(stands),
    decreases peers.len(),
{
    reveal(Seq::filter);
    if peers.len() > 0 {
        standing_in_order(peers.drop_last(), closed, stands);
    }
}

/// A datagram of a newcomer: `route` drops it only at the limits, and otherwise lets the
/// newcomer in and sends to exactly those who were there.
pub proof fn route_lets_newcomers_in(
    t: &mut Router,
    session_id: u32,
    from: SessionEndpoint,
    now_ns: u64,
    r: RouteDecision,
)
    requires
        call_ensures(Router::route, (t, session_id, from, now_ns), r),
        session_id != 0,
    ensures
        ({
            let v = old(t)@;
            let known = v.routes.dom().contains(session_id);
            let peers = v.routes[session_id].peers;
            &&& known && !peers.contains(from) && peers.len() < v.max_peers && peers.len() > 0 ==> {
                &&& r matches RouteDecision::Broadcast(targets)
                &&& targets@ == peers
                &&& final(t)@.routes[session_id].peers == peers.push(from)
            }
            &&& known && !peers.contains(from) && peers.len() >= v.max_peers ==> r is Dropped
                && final(t)@.routes[session_id].peers == peers
            &&& known && peers.contains(from) ==> !(r is Dropped)
                && final(t)@.routes[session_id].peers == peers
            &&& known && peers.contains(from) && peers.no_duplicates() && peers.len() > 1 ==> {
                &&& r matches RouteDecision::Broadcast(targets)
                &&& targets@.len() == peers.len() - 1
                &&& !targets@.contains(from)
                &&& forall|p: SessionEndpoint| p != from ==> (targets@.contains(p)
                    <==> #[trigger] peers.contains(p))
            }
            &&& !known && v.routes.dom().len() < v.max_sessions ==> r is Registered
                && final(t)@.routes[session_id].peers == seq![from]
            &&& !known && v.routes.dom().len() >= v.max_sessions ==> r is Dropped
                && final(t)@.routes == v.routes
        }),
{
    let v = old(t)@;
    let peers = v.routes[session_id].peers;
    if v.routes.dom().contains(session_id) && peers.contains(from) && peers.no_duplicates() {
        let k = choose|k: int| 0 <= k < peers.len() && peers[k] == from;
        known_peer_is_heard(v, session_id, k, now_ns);
        others_are_the_rest(peers, from);
        others_close_ranks(peers, k);
    }
}

/// The datagrams of no session are dropped.
pub proof fn route_drops_session_zero(t: &mut Router, from: SessionEndpoint, now_ns: u64, r: RouteDecision)
    requires
        call_ensures(Router::route, (t, 0u32, from, now_ns), r),
    ensures
        r is Dropped,
        final(t)@.routes == old(t)@.routes,
        final(t)@.metrics.dropped_zero_session
            == old(t)@.metrics.dropped_zero_session.wrapping_add(1),
{
}

/// A room resolves to the session that it was registered with, until it is removed; a
/// code that is taken is not given away.
pub proof fn rooms_resolve(
    t: &mut Router,
    code: String,
    session_id: u32,
    r: bool,
    u: &Router,
    name: &str,
    found: Option<u32>,
    w: &mut Router,
    gone_now: bool,
)
    requires
        call_ensures(Router::register_room, (t, code, session_id), r),
        call_ensures(Router::resolve_room, (u, name), found),
        call_ensures(Router::remove_room, (w, name), gone_now),
    ensures
        r <==> !old(t)@.rooms.dom().contains(code@),
        r ==> final(t)@.rooms.dom().contains(code@) && final(t)@.rooms[code@] == session_id,
        !r ==> final(t)@.rooms == old(t)@.rooms,
        final(t)@.routes == old(t)@.routes,
        found is Some <==> u@.rooms.dom().contains(name@),
        found matches Some(id) ==> id == u@.rooms[name@],
        gone_now <==> old(w)@.rooms.dom().contains(name@),
        !final(w)@.rooms.dom().contains(name@),
        forall|other: Seq<char>|
            other != name@ ==> (#[trigger] final(w)@.rooms.dom().contains(other)
                <==> old(w)@.rooms.dom().contains(other)),
        final(w)@.routes == old(w)@.routes,
{
}

/// How many sessions and peers there are, and how many sessions a sweep took.
pub proof fn sessions_are_counted(
    t: &Router,
    n: usize,
    id: u32,
    peers: usize,
    w: &mut Router,
    max_age_secs: u64,
    now_ns: u64,
    closed: &Vec<u64>,
    taken: usize,
)
    requires
        call_ensures(Router::active_sessions, (t,), n),
        call_ensures(Router::peer_count, (t, id), peers),
        call_ensures(Router::evict_idle, (w, max_age_secs, now_ns, closed), taken),
    ensures
        n == t@.routes.dom().len(),
        t@.routes.dom().contains(id) ==> peers == t@.routes[id].peers.len(),
        !t@.routes.dom().contains(id) ==> peers == 0,
        taken + final(w)@.routes.dom().len() == old(w)@.routes.dom().len(),
        final(w)@ == old(w)@.evicted(now_ns, max_age_secs, closed@),
{
}

} // verus!
