//! Counters of the relay.
use vstd::prelude::*;

verus! {

/// Why the relay dropped a datagram.
#[derive(Debug, Clone, Copy, PartialEq, Eq, Structural)]
pub enum DropReason {
    /// The session id is zero.
    ZeroSession,
    /// The session has as many peers as it may.
    SessionFull,
    /// There are as many sessions as there may be.
    MaxSessions,
    /// The datagram is no valid packet.
    Malformed,
    /// The socket refused the datagram.
    SendError,
    /// The WebSocket of the target is gone.
    WsDisconnected,
}

/// Counters of the relay. They wrap around.
#[derive(Debug, Clone, Copy, PartialEq, Eq, Structural)]
pub struct RelayMetrics {
    pub packets_in: u64,
    pub bytes_in: u64,
    pub packets_out: u64,
    pub bytes_out: u64,
    pub active_sessions: usize,
    pub dropped_zero_session: u64,
    pub dropped_session_full: u64,
    pub dropped_max_sessions: u64,
    pub dropped_malformed: u64,
    pub dropped_send_error: u64,
    pub dropped_ws_disconnected: u64,
}

impl RelayMetrics {
    /// The counters after one more datagram was dropped.
    pub open spec fn dropped(self, reason: DropReason) -> RelayMetrics {
        match reason {
            DropReason::ZeroSession => RelayMetrics {
                dropped_zero_session: self.dropped_zero_session.wrapping_add(1),
                ..self
            },
            DropReason::SessionFull => RelayMetrics {
                dropped_session_full: self.dropped_session_full.wrapping_add(1),
                ..self
            },
            DropReason::MaxSessions => RelayMetrics {
                dropped_max_sessions: self.dropped_max_sessions.wrapping_add(1),
                ..self
            },
            DropReason::Malformed => RelayMetrics {
                dropped_malformed: self.dropped_malformed.wrapping_add(1),
                ..self
            },
            DropReason::SendError => RelayMetrics {
                dropped_send_error: self.dropped_send_error.wrapping_add(1),
                ..self
            },
            DropReason::WsDisconnected => RelayMetrics {
                dropped_ws_disconnected: self.dropped_ws_disconnected.wrapping_add(1),
                ..self
            },
        }
    }

    /// The counters after a datagram of `n` bytes came in.
    pub open spec fn came(self, n: u64) -> RelayMetrics {
        RelayMetrics {
            packets_in: self.packets_in.wrapping_add(1),
            bytes_in: self.bytes_in.wrapping_add(n),
            ..self
        }
    }

    /// The counters after a datagram of `n` bytes went out.
    pub open spec fn went(self, n: u64) -> RelayMetrics {
        RelayMetrics {
            packets_out: self.packets_out.wrapping_add(1),
            bytes_out: self.bytes_out.wrapping_add(n),
            ..self
        }
    }

    /// All counters at zero.
    pub open spec fn zero() -> RelayMetrics {
        RelayMetrics {
            packets_in: 0,
            bytes_in: 0,
            packets_out: 0,
            bytes_out: 0,
            active_sessions: 0,
            dropped_zero_session: 0,
            dropped_session_full: 0,
            dropped_max_sessions: 0,
            dropped_malformed: 0,
            dropped_send_error: 0,
            dropped_ws_disconnected: 0,
        }
    }

    /// All counters at zero.
    pub fn new() -> (r: RelayMetrics)
        ensures
            r == RelayMetrics::zero(),
    {
        RelayMetrics {
            packets_in: 0,
            bytes_in: 0,
            packets_out: 0,
            bytes_out: 0,
            active_sessions: 0,
            dropped_zero_session: 0,
            dropped_session_full: 0,
            dropped_max_sessions: 0,
            dropped_malformed: 0,
            dropped_send_error: 0,
            dropped_ws_disconnected: 0,
        }
    }

    /// Counts a datagram that was dropped.
    pub fn record_dropped(&mut self, reason: DropReason)
        ensures
            *final(self) == old(self).dropped(reason),
    {
        match reason {
            DropReason::ZeroSession => {
                self.dropped_zero_session = self.dropped_zero_session.wrapping_add(1);
            },
            DropReason::SessionFull => {
                self.dropped_session_full = self.dropped_session_full.wrapping_add(1);
            },
            DropReason::MaxSessions => {
                self.dropped_max_sessions = self.dropped_max_sessions.wrapping_add(1);
            },
            DropReason::Malformed => {
                self.dropped_malformed = self.dropped_malformed.wrapping_add(1);
            },
            DropReason::SendError => {
                self.dropped_send_error = self.dropped_send_error.wrapping_add(1);
            },
            DropReason::WsDisconnected => {
                self.dropped_ws_disconnected = self.dropped_ws_disconnected.wrapping_add(1);
            },
        }
    }

    /// Counts a datagram that came in.
    pub fn record_in(&mut self, n: u64)
        ensures
            *final(self) == old(self).came(n),
    {
        self.packets_in = self.packets_in.wrapping_add(1);
        self.bytes_in = self.bytes_in.wrapping_add(n);
    }

    /// Counts a datagram that went out.
    pub fn record_out(&mut self, n: u64)
        ensures
            *final(self) == old(self).went(n),
    {
        self.packets_out = self.packets_out.wrapping_add(1);
        self.bytes_out = self.bytes_out.wrapping_add(n);
    }
}

/// One number as it is shown to a metrics collector.
#[derive(Debug, Clone, Copy)]
pub struct Sample {
    pub name: &'static str,
    pub help: &'static str,
    /// Why a datagram was dropped, where that is what is counted.
    pub reason: Option<&'static str>,
    pub value: u64,
    /// Whether the number can go down.
    pub gauge: bool,
}

/// A [`Sample`] as a mathematical value.
#[verifier::ext_equal]
pub struct SampleView {
    pub name: Seq<char>,
    pub help: Seq<char>,
    pub reason: Option<Seq<char>>,
    pub value: u64,
    pub gauge: bool,
}

impl View for Sample {
    type V = SampleView;

    open spec fn view(&self) -> SampleView {
        SampleView {
            name: self.name@,
            help: self.help@,
            reason: match self.reason {
                Some(text) => Some(text@),
                None => None,
            },
            value: self.value,
            gauge: self.gauge,
        }
    }
}

impl RelayMetrics {
    /// What a metrics collector is shown.
    pub open spec fn shown(self) -> Seq<SampleView> {
        seq![
            SampleView {
                name: "gs_relay_packets_in_total"@,
                help: "Datagrams received"@,
                reason: None,
                value: self.packets_in,
                gauge: false,
            },
            SampleView {
                name: "gs_relay_bytes_in_total"@,
                help: "Bytes received"@,
                reason: None,
                value: self.bytes_in,
                gauge: false,
            },
            SampleView {
                name: "gs_relay_packets_out_total"@,
                help: "Datagrams forwarded"@,
                reason: None,
                value: self.packets_out,
                gauge: false,
            },
            SampleView {
                name: "gs_relay_bytes_out_total"@,
                help: "Bytes forwarded"@,
                reason: None,
                value: self.bytes_out,
                gauge: false,
            },
            SampleView {
                name: "gs_relay_dropped_total"@,
                help: "Datagrams dropped"@,
                reason: Some("zero_session"@),
                value: self.dropped_zero_session,
                gauge: false,
            },
            SampleView {
                name: "gs_relay_dropped_total"@,
                help: "Datagrams dropped"@,
                reason: Some("session_full"@),
                value: self.dropped_session_full,
                gauge: false,
            },
            SampleView {
                name: "gs_relay_dropped_total"@,
                help: "Datagrams dropped"@,
                reason: Some("max_sessions"@),
                value: self.dropped_max_sessions,
                gauge: false,
            },
            SampleView {
                name: "gs_relay_dropped_total"@,
                help: "Datagrams dropped"@,
                reason: Some("malformed"@),
                value: self.dropped_malformed,
                gauge: false,
            },
            SampleView {
                name: "gs_relay_dropped_total"@,
                help: "Datagrams dropped"@,
                reason: Some("send_error"@),
                value: self.dropped_send_error,
                gauge: false,
            },
            SampleView {
                name: "gs_relay_dropped_total"@,
                help: "Datagrams dropped"@,
                reason: Some("ws_disconnected"@),
                value: self.dropped_ws_disconnected,
                gauge: false,
            },
            SampleView {
                name: "gs_relay_active_sessions"@,
                help: "Sessions with a peer"@,
                reason: None,
                value: self.active_sessions as u64,
                gauge: true,
            },
        ]
    }

    /// Lists the numbers for a metrics collector.
    pub fn samples(&self) -> (r: Vec<Sample>)
        ensures
            r@.map_values(|s: Sample| s@) == self.shown(),
    {
        let list: Vec<Sample> = vec![
            Sample {
                name: "gs_relay_packets_in_total",
                help: "Datagrams received",
                reason: None,
                value: self.packets_in,
                gauge: false,
            },
            Sample {
                name: "gs_relay_bytes_in_total",
                help: "Bytes received",
                reason: None,
                value: self.bytes_in,
                gauge: false,
            },
            Sample {
                name: "gs_relay_packets_out_total",
                help: "Datagrams forwarded",
                reason: None,
                value: self.packets_out,
                gauge: false,
            },
            Sample {
                name: "gs_relay_bytes_out_total",
                help: "Bytes forwarded",
                reason: None,
                value: self.bytes_out,
                gauge: false,
            },
            Sample {
                name: "gs_relay_dropped_total",
                help: "Datagrams dropped",
                reason: Some("zero_session"),
                value: self.dropped_zero_session,
                gauge: false,
            },
            Sample {
                name: "gs_relay_dropped_total",
                help: "Datagrams dropped",
                reason: Some("session_full"),
                value: self.dropped_session_full,
                gauge: false,
            },
            Sample {
                name: "gs_relay_dropped_total",
                help: "Datagrams dropped",
                reason: Some("max_sessions"),
                value: self.dropped_max_sessions,
                gauge: false,
            },
            Sample {
                name: "gs_relay_dropped_total",
                help: "Datagrams dropped",
                reason: Some("malformed"),
                value: self.dropped_malformed,
                gauge: false,
            },
            Sample {
                name: "gs_relay_dropped_total",
                help: "Datagrams dropped",
                reason: Some("send_error"),
                value: self.dropped_send_error,
                gauge: false,
            },
            Sample {
                name: "gs_relay_dropped_total",
                help: "Datagrams dropped",
                reason: Some("ws_disconnected"),
                value: self.dropped_ws_disconnected,
                gauge: false,
            },
            Sample {
                name: "gs_relay_active_sessions",
                help: "Sessions with a peer",
                reason: None,
                value: self.active_sessions as u64,
                gauge: true,
            },
        ];
        assert(list@.map_values(|s: Sample| s@) =~= self.shown());
        list
    }
}

/// A drop adds one to the counter of its reason, which wraps around, and to no other.
pub proof fn drops_are_counted(m: RelayMetrics, reason: DropReason)
    ensures
        m.dropped(reason).dropped_zero_session == if reason is ZeroSession {
            (m.dropped_zero_session + 1) % 0x1_0000_0000_0000_0000
        } else {
            m.dropped_zero_session as int
        },
        m.dropped(reason).dropped_session_full == if reason is SessionFull {
            (m.dropped_session_full + 1) % 0x1_0000_0000_0000_0000
        } else {
            m.dropped_session_full as int
        },
        m.dropped(reason).dropped_max_sessions == if reason is MaxSessions {
            (m.dropped_max_sessions + 1) % 0x1_0000_0000_0000_0000
        } else {
            m.dropped_max_sessions as int
        },
        m.dropped(reason).dropped_malformed == if reason is Malformed {
            (m.dropped_malformed + 1) % 0x1_0000_0000_0000_0000
        } else {
            m.dropped_malformed as int
        },
        m.dropped(reason).dropped_send_error == if reason is SendError {
            (m.dropped_send_error + 1) % 0x1_0000_0000_0000_0000
        } else {
            m.dropped_send_error as int
        },
        m.dropped(reason).dropped_ws_disconnected == if reason is WsDisconnected {
            (m.dropped_ws_disconnected + 1) % 0x1_0000_0000_0000_0000
        } else {
            m.dropped_ws_disconnected as int
        },
        m.dropped(reason).packets_in == m.packets_in && m.dropped(reason).bytes_in == m.bytes_in,
        m.dropped(reason).packets_out == m.packets_out && m.dropped(reason).bytes_out
            == m.bytes_out,
        m.dropped(reason).active_sessions == m.active_sessions,
{
}

/// A datagram that comes in or goes out counts once, with its bytes, on its own side.
pub proof fn traffic_is_counted(m: RelayMetrics, n: u64)
    ensures
        m.came(n).packets_in == (m.packets_in + 1) % 0x1_0000_0000_0000_0000,
        m.came(n).bytes_in == (m.bytes_in + n) % 0x1_0000_0000_0000_0000,
        m.came(n) == (RelayMetrics {
            packets_in: m.came(n).packets_in,
            bytes_in: m.came(n).bytes_in,
            ..m
        }),
        m.went(n).packets_out == (m.packets_out + 1) % 0x1_0000_0000_0000_0000,
        m.went(n).bytes_out == (m.bytes_out + n) % 0x1_0000_0000_0000_0000,
        m.went(n) == (RelayMetrics {
            packets_out: m.went(n).packets_out,
            bytes_out: m.went(n).bytes_out,
            ..m
        }),
        ({
            let z = RelayMetrics::zero();
            &&& z.packets_in == 0 && z.bytes_in == 0 && z.packets_out == 0 && z.bytes_out == 0
            &&& z.active_sessions == 0 && z.dropped_zero_session == 0 && z.dropped_session_full == 0
            &&& z.dropped_max_sessions == 0 && z.dropped_malformed == 0
            &&& z.dropped_send_error == 0 && z.dropped_ws_disconnected == 0
        }),
{
}

/// A collector is shown every counter once, under its name, the drops by their reason;
/// only the number of sessions can go down.
pub proof fn every_counter_is_shown(m: RelayMetrics)
    ensures
        ({
            let s = m.shown();
            &&& s.len() == 11
            &&& s[0].name == "gs_relay_packets_in_total"@ && s[0].value == m.packets_in
            &&& s[1].name == "gs_relay_bytes_in_total"@ && s[1].value == m.bytes_in
            &&& s[2].name == "gs_relay_packets_out_total"@ && s[2].value == m.packets_out
            &&& s[3].name == "gs_relay_bytes_out_total"@ && s[3].value == m.bytes_out
            &&& s[4].reason == Some("zero_session"@) && s[4].value == m.dropped_zero_session
            &&& s[5].reason == Some("session_full"@) && s[5].value == m.dropped_session_full
            &&& s[6].reason == Some("max_sessions"@) && s[6].value == m.dropped_max_sessions
            &&& s[7].reason == Some("malformed"@) && s[7].value == m.dropped_malformed
            &&& s[8].reason == Some("send_error"@) && s[8].value == m.dropped_send_error
            &&& s[9].reason == Some("ws_disconnected"@) && s[9].value == m.dropped_ws_disconnected
            &&& s[10].name == "gs_relay_active_sessions"@ && s[10].value == m.active_sessions
            &&& forall|i: int| 4 <= i < 10 ==> (#[trigger] s[i]).name == "gs_relay_dropped_total"@
            &&& forall|i: int|
                0 <= i < 11 ==> ((#[trigger] s[i]).reason is None <==> i < 4 || i == 10)
            &&& forall|i: int| 0 <= i < 11 ==> ((#[trigger] s[i]).gauge <==> i == 10)
        }),
{
}

} // verus!
