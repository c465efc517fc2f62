//! Congestion control: additive increase, multiplicative decrease.
//!
//! - loss above 5 %: the bitrate falls to 85 %
//! - round trip above 150 ms: the bitrate falls to 95 %
//! - otherwise: the bitrate grows by 2 kbit/s
use vstd::prelude::*;

use crate::constants::{CONGESTION_AIMD_INCREMENT, CONGESTION_MIN_BITRATE};

verus! {

/// Bits of the single-precision number 0.05, the loss rate above which the
/// bitrate is cut.
pub const LOSS_THRESHOLD_BITS: u32 = 0x3D4C_CCCD;

/// Bits of positive infinity in single precision. Bit patterns above it are
/// negative numbers or no numbers.
pub const SINGLE_INFINITY_BITS: u32 = 0x7F80_0000;

/// Round trip in microseconds above which the bitrate is eased.
pub const RTT_THRESHOLD_US: u64 = 150_000;

/// A loss rate, given by its single-precision bits, lies above the threshold.
/// Positive numbers order as their bits do; negative numbers and what is no
/// number never lie above.
pub open spec fn loss_is_high(loss_rate_bits: u32) -> bool {
    LOSS_THRESHOLD_BITS < loss_rate_bits <= SINGLE_INFINITY_BITS
}

/// `x` moved into `[low, high]`.
pub open spec fn clamped(x: int, low: int, high: int) -> int {
    if x < low {
        low
    } else if x > high {
        high
    } else {
        x
    }
}

/// The bitrate that one control cycle aims at.
pub open spec fn aimd(current: u32, loss_rate_bits: u32, rtt_us: u64) -> int {
    if loss_is_high(loss_rate_bits) {
        current as int * 85 / 100
    } else if rtt_us > RTT_THRESHOLD_US {
        current as int * 95 / 100
    } else {
        current + CONGESTION_AIMD_INCREMENT
    }
}

/// Moves `x` into `[low, high]`.
fn clamp(x: u32, low: u32, high: u32) -> (r: u32)
    requires
        low <= high,
    ensures
        r == clamped(x as int, low as int, high as int),
{
    if x < low {
        low
    } else if x > high {
        high
    } else {
        x
    }
}

/// Congestion controller of one session.
#[derive(Debug)]
pub struct CongestionController {
    current_bitrate: u32,
    min_bitrate: u32,
    max_bitrate: u32,
}

impl CongestionController {
    /// The current bitrate.
    pub closed spec fn bitrate(self) -> u32 {
        self.current_bitrate
    }

    /// The lowest bitrate it may choose.
    pub closed spec fn low(self) -> u32 {
        self.min_bitrate
    }

    /// The highest bitrate it may choose.
    pub closed spec fn high(self) -> u32 {
        self.max_bitrate
    }

    /// The bitrate keeps to its bounds, and the lower one to the protocol's.
    pub open spec fn wf(self) -> bool {
        &&& CONGESTION_MIN_BITRATE <= self.low()
        &&& self.low() <= self.bitrate() <= self.high()
    }

    /// A controller that starts at `initial_bitrate`, moved into the bounds.
    pub fn new(initial_bitrate: u32, min_bitrate: u32, max_bitrate: u32) -> (r: CongestionController)
        requires
            min_bitrate <= max_bitrate,
            CONGESTION_MIN_BITRATE <= max_bitrate,
        ensures
            r.wf(),
            r.low() == if min_bitrate < CONGESTION_MIN_BITRATE {
                CONGESTION_MIN_BITRATE
            } else {
                min_bitrate
            },
            r.high() == max_bitrate,
            r.bitrate() == clamped(initial_bitrate as int, r.low() as int, r.high() as int),
    {
        let min_bitrate: u32 = if min_bitrate < CONGESTION_MIN_BITRATE {
            CONGESTION_MIN_BITRATE
        } else {
            min_bitrate
        };
        CongestionController {
            current_bitrate: clamp(initial_bitrate, min_bitrate, max_bitrate),
            min_bitrate,
            max_bitrate,
        }
    }

    /// The current bitrate in bits per second.
    pub fn current_bitrate(&self) -> (r: u32)
        ensures
            r == self.bitrate(),
    {
        self.current_bitrate
    }

    /// Runs one control cycle.
    ///
    /// `loss_rate_bits` are the single-precision bits of the share of packets
    /// lost; `rtt_us` is the round trip; the jitter has no influence yet.
    pub fn update(&mut self, loss_rate_bits: u32, rtt_us: u64, _jitter_us: u64)
        requires
            old(self).wf(),
        ensures
            final(self).wf(),
            final(self).low() == old(self).low(),
            final(self).high() == old(self).high(),
            final(self).bitrate() == clamped(
                aimd(old(self).bitrate(), loss_rate_bits, rtt_us),
                old(self).low() as int,
                old(self).high() as int,
            ),
    {
        let current: u32 = self.current_bitrate;
        let new_bitrate: u32 = if LOSS_THRESHOLD_BITS < loss_rate_bits && loss_rate_bits
            <= SINGLE_INFINITY_BITS {
            (current as u64 * 85 / 100) as u32
        } else if rtt_us > RTT_THRESHOLD_US {
            (current as u64 * 95 / 100) as u32
        } else {
            current.saturating_add(CONGESTION_AIMD_INCREMENT)
        };
        self.current_bitrate = clamp(new_bitrate, self.min_bitrate, self.max_bitrate);
    }

    /// Sets the bitrate, moved into the bounds.
    pub fn set_bitrate(&mut self, bitrate: u32)
        requires
            old(self).wf(),
        ensures
            final(self).wf(),
            final(self).low() == old(self).low(),
            final(self).high() == old(self).high(),
            final(self).bitrate() == clamped(
                bitrate as int,
                old(self).low() as int,
                old(self).high() as int,
            ),
    {
        self.current_bitrate = clamp(bitrate, self.min_bitrate, self.max_bitrate);
    }
}

/// Under loss the bitrate falls, unless it is at its floor; so it does on a
/// long round trip; and without either it rises, unless it is at its ceiling.
pub proof fn aimd_direction(current: u32, low: u32, high: u32, loss_rate_bits: u32, rtt_us: u64)
    requires
        CONGESTION_MIN_BITRATE <= low <= current <= high,
    ensures
        ({
            let next = clamped(aimd(current, loss_rate_bits, rtt_us), low as int, high as int);
            if loss_is_high(loss_rate_bits) || rtt_us > RTT_THRESHOLD_US {
                next < current || (next == current && current == low)
            } else {
                next > current || (next == current && current == high)
            }
        }),
{
}

/// Loss above 5 % cuts the bitrate to 85 %, whatever the round trip; the bounds hold
/// all the same.
pub proof fn loss_cuts_the_bitrate(current: u32, low: u32, high: u32, loss_rate_bits: u32, rtt_us: u64)
    requires
        low <= high,
        0x3D4C_CCCD < loss_rate_bits <= 0x7F80_0000,
    ensures
        ({
            let next = clamped(aimd(current, loss_rate_bits, rtt_us), low as int, high as int);
            let cut = current * 85 / 100;
            &&& low <= next <= high
            &&& cut <= low ==> next == low
            &&& low <= cut <= high ==> next == cut
            &&& cut >= high ==> next == high
        }),
{
}

/// Without such loss a round trip above 150 ms eases the bitrate to 95 %. A rate of
/// loss that is negative, or no number, is none.
pub proof fn long_round_trip_eases_the_bitrate(
    current: u32,
    low: u32,
    high: u32,
    loss_rate_bits: u32,
    rtt_us: u64,
)
    requires
        low <= high,
        loss_rate_bits <= 0x3D4C_CCCD || loss_rate_bits > 0x7F80_0000,
        rtt_us > 150_000,
    ensures
        ({
            let next = clamped(aimd(current, loss_rate_bits, rtt_us), low as int, high as int);
            let eased = current * 95 / 100;
            &&& low <= next <= high
            &&& eased <= low ==> next == low
            &&& low <= eased <= high ==> next == eased
            &&& eased >= high ==> next == high
        }),
{
}

/// On a quiet link the bitrate grows by 2000 bits per second, up to its ceiling.
pub proof fn quiet_link_raises_the_bitrate(
    current: u32,
    low: u32,
    high: u32,
    loss_rate_bits: u32,
    rtt_us: u64,
)
    requires
        low <= current <= high,
        loss_rate_bits <= 0x3D4C_CCCD || loss_rate_bits > 0x7F80_0000,
        rtt_us <= 150_000,
    ensures
        ({
            let next = clamped(aimd(current, loss_rate_bits, rtt_us), low as int, high as int);
            &&& current + 2_000 <= high ==> next == current + 2_000
            &&& current + 2_000 >= high ==> next == high
        }),
{
}

/// A bitrate that is asked for is taken as it is within the bounds, and the nearer
/// bound in its place otherwise.
pub proof fn asked_bitrate_is_bounded(asked: int, low: int, high: int)
    requires
        low <= high,
    ensures
        low <= clamped(asked, low, high) <= high,
        low <= asked <= high ==> clamped(asked, low, high) == asked,
        asked < low ==> clamped(asked, low, high) == low,
        asked > high ==> clamped(asked, low, high) == high,
{
}

impl CongestionController {
    /// No controller goes below 8000 bits per second, nor out of its own bounds.
    pub proof fn bitrate_has_a_floor(self)
        requires
            self.wf(),
        ensures
            8_000 <= self.low() <= self.bitrate() <= self.high(),
    {
    }
}

/// A control cycle in numbers: what `update` does to a controller. Loss comes before the
/// round trip, and the jitter has no influence.
pub proof fn control_cycle(
    c: &mut CongestionController,
    loss_rate_bits: u32,
    rtt_us: u64,
    jitter_us: u64,
)
    requires
        call_ensures(CongestionController::update, (c, loss_rate_bits, rtt_us, jitter_us), ()),
        old(c).low() <= old(c).bitrate() <= old(c).high(),
    ensures
        ({
            let b = old(c).bitrate();
            let aim = if 0x3D4C_CCCD < loss_rate_bits && loss_rate_bits <= 0x7F80_0000 {
                b * 85 / 100
            } else if rtt_us > 150_000 {
                b * 95 / 100
            } else {
                b + 2_000
            };
            &&& aim < old(c).low() ==> final(c).bitrate() == old(c).low()
            &&& old(c).low() <= aim <= old(c).high() ==> final(c).bitrate() == aim
            &&& aim > old(c).high() ==> final(c).bitrate() == old(c).high()
            &&& final(c).low() == old(c).low()
            &&& final(c).high() == old(c).high()
        }),
{
}

/// A new controller starts at the bitrate it is given, and one that is told a bitrate
/// takes it, both within the bounds; the floor is never below 8000 bits per second.
pub proof fn controller_takes_a_bitrate(
    initial: u32,
    low: u32,
    high: u32,
    r: CongestionController,
    c: &mut CongestionController,
    asked: u32,
)
    requires
        low <= high,
        8_000 <= high,
        call_ensures(CongestionController::new, (initial, low, high), r),
        call_ensures(CongestionController::set_bitrate, (c, asked), ()),
        old(c).low() <= old(c).high(),
    ensures
        r.high() == high,
        low >= 8_000 ==> r.low() == low,
        low < 8_000 ==> r.low() == 8_000,
        r.low() <= initial <= high ==> r.bitrate() == initial,
        initial < r.low() ==> r.bitrate() == r.low(),
        initial > high ==> r.bitrate() == high,
        old(c).low() <= asked <= old(c).high() ==> final(c).bitrate() == asked,
        asked < old(c).low() ==> final(c).bitrate() == old(c).low(),
        asked > old(c).high() ==> final(c).bitrate() == old(c).high(),
{
}

} // verus!
