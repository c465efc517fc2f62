//! Traffic counters of a session.
use vstd::prelude::*;

verus! {

/// What a session has sent, received and refused. The counters wrap around.
#[derive(Debug, Clone, Copy, PartialEq, Eq, Structural)]
pub struct Counters {
    pub packets_sent: u64,
    pub bytes_sent: u64,
    pub packets_received: u64,
    pub bytes_received: u64,
    pub integrity_errors: u64,
}

impl Counters {
    /// The counters after a packet of `n` bytes went out.
    pub open spec fn sent(self, n: u64) -> Counters {
        Counters {
            packets_sent: self.packets_sent.wrapping_add(1),
            bytes_sent: self.bytes_sent.wrapping_add(n),
            ..self
        }
    }

    /// The counters after a packet of `n` bytes came in.
    pub open spec fn received(self, n: u64) -> Counters {
        Counters {
            packets_received: self.packets_received.wrapping_add(1),
            bytes_received: self.bytes_received.wrapping_add(n),
            ..self
        }
    }

    /// The counters after a packet was refused.
    pub open spec fn refused(self) -> Counters {
        Counters { integrity_errors: self.integrity_errors.wrapping_add(1), ..self }
    }

    /// All counters at zero.
    pub open spec fn zero() -> Counters {
        Counters {
            packets_sent: 0,
            bytes_sent: 0,
            packets_received: 0,
            bytes_received: 0,
            integrity_errors: 0,
        }
    }

    /// All counters at zero.
    pub fn new() -> (r: Counters)
        ensures
            r == Counters::zero(),
    {
        Counters {
            packets_sent: 0,
            bytes_sent: 0,
            packets_received: 0,
            bytes_received: 0,
            integrity_errors: 0,
        }
    }

    /// Counts a packet of `n` bytes that went out.
    pub fn record_sent(&mut self, n: u64)
        ensures
            *final(self) == old(self).sent(n),
    {
        self.packets_sent = self.packets_sent.wrapping_add(1);
        self.bytes_sent = self.bytes_sent.wrapping_add(n);
    }

    /// Counts a packet of `n` bytes that came in.
    pub fn record_received(&mut self, n: u64)
        ensures
            *final(self) == old(self).received(n),
    {
        self.packets_received = self.packets_received.wrapping_add(1);
        self.bytes_received = self.bytes_received.wrapping_add(n);
    }

    /// Counts a packet that was refused.
    pub fn record_integrity_error(&mut self)
        ensures
            *final(self) == old(self).refused(),
    {
        self.integrity_errors = self.integrity_errors.wrapping_add(1);
    }
}

/// Each report counts one packet and its bytes and leaves all else alone; the counters
/// begin at zero and wrap around.
pub proof fn reports_are_counted(c: Counters, n: u64)
    ensures
        c.sent(n).packets_sent == (c.packets_sent + 1) % 0x1_0000_0000_0000_0000,
        c.sent(n).bytes_sent == (c.bytes_sent + n) % 0x1_0000_0000_0000_0000,
        c.sent(n).packets_received == c.packets_received,
        c.sent(n).bytes_received == c.bytes_received,
        c.sent(n).integrity_errors == c.integrity_errors,
        c.received(n).packets_received == (c.packets_received + 1) % 0x1_0000_0000_0000_0000,
        c.received(n).bytes_received == (c.bytes_received + n) % 0x1_0000_0000_0000_0000,
        c.received(n).packets_sent == c.packets_sent,
        c.received(n).bytes_sent == c.bytes_sent,
        c.received(n).integrity_errors == c.integrity_errors,
        c.refused().integrity_errors == (c.integrity_errors + 1) % 0x1_0000_0000_0000_0000,
        c.refused().packets_sent == c.packets_sent,
        c.refused().bytes_sent == c.bytes_sent,
        c.refused().packets_received == c.packets_received,
        c.refused().bytes_received == c.bytes_received,
        Counters::zero().packets_sent == 0 && Counters::zero().bytes_sent == 0,
        Counters::zero().packets_received == 0 && Counters::zero().bytes_received == 0,
        Counters::zero().integrity_errors == 0,
{
}

} // verus!
