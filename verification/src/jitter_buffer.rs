//! Jitter buffer: puts audio frames back into the order of their sequence
//! numbers.
//!
//! A ring of `capacity` slots, a power of two. A frame goes to the slot
//! `sequence & (capacity - 1)`; the consumer moves a cursor along the sequence
//! numbers and takes the frame of each slot when it is there.
use bytes::Bytes;
use smallvec::SmallVec;
use vstd::prelude::*;

use crate::payload_bytes::bytes_of;

verus! {

/// An audio frame.
#[derive(Debug, Clone)]
pub struct Frame {
    pub sequence: u32,
    pub timestamp: u64,
    pub payload: Bytes,
}

/// A frame as a mathematical value.
#[verifier::ext_equal]
pub struct FrameView {
    pub sequence: u32,
    pub timestamp: u64,
    pub payload: Seq<u8>,
}

impl View for Frame {
    type V = FrameView;

    open spec fn view(&self) -> FrameView {
        FrameView {
            sequence: self.sequence,
            timestamp: self.timestamp,
            payload: bytes_of(self.payload),
        }
    }
}

/// One place of the ring: empty, or the frame that waits there.
pub struct Slot {
    frame: Option<Frame>,
}

/// A vector of slots that keeps the first 64 of them inline: the `SmallVec` of
/// the `smallvec` crate.
#[verifier::external_body]
pub struct SlotVec {
    inner: SmallVec<[Slot; 64]>,
}

/// The slots that the vector holds, in order.
pub uninterp spec fn slots_of(v: SlotVec) -> Seq<Slot>;

/// `SmallVec::with_capacity`: an empty vector. The bound keeps the memory that it
/// asks for far from the limit where it panics.
#[verifier::external_body]
fn slots_with_capacity(n: usize) -> (r: SlotVec)
    requires
        n <= 2048,
    ensures
        slots_of(r) == Seq::<Slot>::empty(),
{
    SlotVec { inner: SmallVec::with_capacity(n) }
}

/// `SmallVec::push`: appends a slot.
#[verifier::external_body]
fn slots_push(v: &mut SlotVec, slot: Slot)
    ensures
        slots_of(*final(v)) == slots_of(*old(v)).push(slot),
{
    v.inner.push(slot)
}

/// Indexing of a `SmallVec`: the slot at `i`.
#[verifier::external_body]
fn slots_get(v: &SlotVec, i: usize) -> (r: &Slot)
    requires
        i < slots_of(*v).len(),
    ensures
        *r == slots_of(*v)[i as int],
{
    &v.inner[i]
}

/// Mutable indexing of a `SmallVec`: puts `slot` at `i` and returns what was
/// there.
#[verifier::external_body]
fn slots_replace(v: &mut SlotVec, i: usize, slot: Slot) -> (r: Slot)
    requires
        i < slots_of(*old(v)).len(),
    ensures
        r == slots_of(*old(v))[i as int],
        slots_of(*final(v)) == slots_of(*old(v)).update(i as int, slot),
{
    std::mem::replace(&mut v.inner[i], slot)
}

/// A power of two up to 2048: the sizes that a ring can have.
pub open spec fn ring_size(c: u32) -> bool {
    ||| c == 1
    ||| c == 2
    ||| c == 4
    ||| c == 8
    ||| c == 16
    ||| c == 32
    ||| c == 64
    ||| c == 128
    ||| c == 256
    ||| c == 512
    ||| c == 1024
    ||| c == 2048
}

/// How far `sequence` lies ahead of `next` on the circle of sequence numbers.
pub open spec fn ahead(sequence: u32, next: u32) -> u32 {
    sequence.wrapping_sub(next)
}

/// A jitter buffer as a mathematical value.
#[verifier::ext_equal]
pub struct JitterView {
    /// Number of slots.
    pub capacity: u32,
    /// Sequence number that comes out next.
    pub next: u32,
    /// Whether a frame has come yet.
    pub started: bool,
    /// The frames that wait, by sequence number.
    pub frames: Map<u32, FrameView>,
}

impl JitterView {
    /// A buffer that nothing has come to.
    pub open spec fn fresh(capacity: u32) -> JitterView {
        JitterView { capacity, next: 0, started: false, frames: Map::empty() }
    }

    /// The cursor after a first or later frame.
    pub open spec fn next_on(self, sequence: u32) -> u32 {
        if self.started {
            self.next
        } else {
            sequence
        }
    }

    /// Whether a frame is taken in: the first always, a later one if it lies
    /// ahead of the cursor by less than the capacity.
    pub open spec fn accepts(self, sequence: u32) -> bool {
        !self.started || ahead(sequence, self.next) < self.capacity
    }

    /// The buffer after a frame came.
    pub open spec fn pushed(self, frame: FrameView) -> JitterView {
        JitterView {
            capacity: self.capacity,
            next: self.next_on(frame.sequence),
            started: true,
            frames: if self.accepts(frame.sequence) {
                self.frames.insert(frame.sequence, frame)
            } else {
                self.frames
            },
        }
    }

    /// Whether the frame under the cursor is there.
    pub open spec fn ready(self) -> bool {
        self.frames.dom().contains(self.next)
    }

    /// The buffer after the frame under the cursor is taken, if it is there.
    pub open spec fn popped(self) -> JitterView {
        if self.ready() {
            JitterView {
                next: self.next.wrapping_add(1),
                frames: self.frames.remove(self.next),
                ..self
            }
        } else {
            self
        }
    }

    /// The buffer after the cursor moved on by `count`: the frames that it
    /// passed are gone.
    pub open spec fn skipped(self, count: u32) -> JitterView {
        if self.started {
            JitterView {
                next: self.next.wrapping_add(count),
                frames: self.frames.restrict(
                    Set::new(|s: u32| ahead(s, self.next) >= count),
                ),
                ..self
            }
        } else {
            self
        }
    }
}

impl JitterView {
    /// How far ahead of the cursor, from `d` on, the next frame waits; the
    /// capacity if none does.
    pub open spec fn gap(self, d: u32) -> u32
        decreases self.capacity - d,
    {
        if d >= self.capacity {
            self.capacity
        } else if self.frames.dom().contains(self.next.wrapping_add(d)) {
            d
        } else {
            self.gap((d + 1) as u32)
        }
    }
}

/// The gap leads to the next frame that waits: there is one at its end and none
/// before.
pub proof fn gap_leads_to_next_frame(j: JitterView, d: u32)
    requires
        d <= j.capacity,
    ensures
        d <= j.gap(d) <= j.capacity,
        j.gap(d) < j.capacity ==> j.frames.dom().contains(j.next.wrapping_add(j.gap(d))),
        forall|k: u32|
            d <= k < j.gap(d) ==> !j.frames.dom().contains(#[trigger] j.next.wrapping_add(k)),
    decreases j.capacity - d,
{
    if d < j.capacity && !j.frames.dom().contains(j.next.wrapping_add(d)) {
        gap_leads_to_next_frame(j, (d + 1) as u32);
    }
}

/// There is no gap exactly when the frame under the cursor is there.
pub proof fn no_gap_when_ready(j: JitterView)
    requires
        j.capacity > 0,
    ensures
        j.gap(0) == 0 <==> j.ready(),
{
    assert(j.next.wrapping_add(0) == j.next);
    if !j.ready() {
        gap_leads_to_next_frame(j, 1);
    }
}

/// A frame that is taken in comes out, unchanged, when the cursor reaches it.
pub proof fn pushed_frame_comes_out(j: JitterView, frame: FrameView)
    requires
        j.accepts(frame.sequence),
        j.next_on(frame.sequence) == frame.sequence,
    ensures
        j.pushed(frame).ready(),
        j.pushed(frame).frames[j.pushed(frame).next] == frame,
        j.pushed(frame).popped().next == frame.sequence.wrapping_add(1),
{
}

/// Taking a frame out leaves every other frame in place.
pub proof fn pop_keeps_the_rest(j: JitterView, s: u32)
    requires
        s != j.next,
    ensures
        j.popped().frames.dom().contains(s) == j.frames.dom().contains(s),
        j.frames.dom().contains(s) ==> j.popped().frames[s] == j.frames[s],
{
}

/// The place of a sequence number in a ring lies within the ring.
proof fn place_in_ring(a: u32, c: u32, m: u32)
    by (bit_vector)
    requires
        c != 0,
        m == c - 1,
    ensures
        a & m < c,
{
}

/// Two sequence numbers at one place of a ring, both less than a turn ahead of
/// the cursor, are the same.
proof fn place_determines_sequence(a: u32, b: u32, n: u32, da: u32, db: u32, c: u32, m: u32)
    by (bit_vector)
    requires
        c != 0,
        m == c - 1,
        c & m == 0,
        da < c,
        db < c,
        a == n + da || a + 0x1_0000_0000 == n + da,
        b == n + db || b + 0x1_0000_0000 == n + db,
        a & m == b & m,
    ensures
        a == b,
{
}

/// A ring size has a single bit set.
proof fn ring_size_single_bit(c: u32, m: u32)
    requires
        ring_size(c),
        m == c - 1,
    ensures
        c & m == 0,
{
    assert(1u32 & 0 == 0 && 2u32 & 1 == 0 && 4u32 & 3 == 0 && 8u32 & 7 == 0 && 16u32 & 15 == 0
        && 32u32 & 31 == 0 && 64u32 & 63 == 0 && 128u32 & 127 == 0 && 256u32 & 255 == 0 && 512u32
        & 511 == 0 && 1024u32 & 1023 == 0 && 2048u32 & 2047 == 0) by (bit_vector);
}

/// Jitter buffer of fixed capacity.
pub struct JitterBuffer {
    slots: SlotVec,
    capacity: u32,
    mask: u32,
    next_seq: u32,
    primed: bool,
}

impl View for JitterBuffer {
    type V = JitterView;

    closed spec fn view(&self) -> JitterView {
        JitterView {
            capacity: self.capacity,
            next: self.next_seq,
            started: self.primed,
            frames: self.frames(),
        }
    }
}

impl JitterBuffer {
    /// The frame with this sequence number waits in its slot.
    closed spec fn holds(self, sequence: u32) -> bool {
        match slots_of(self.slots)[(sequence & self.mask) as int].frame {
            Some(f) => f.sequence == sequence,
            None => false,
        }
    }

    /// The frames that wait, by sequence number.
    closed spec fn frames(self) -> Map<u32, FrameView> {
        Map::new(
            |s: u32| self.holds(s),
            |s: u32| slots_of(self.slots)[(s & self.mask) as int].frame->0@,
        )
    }

    /// The ring has its capacity, and every frame stands in the slot of its
    /// sequence number.
    closed spec fn ring_wf(self) -> bool {
        &&& ring_size(self.capacity)
        &&& self.mask == self.capacity - 1
        &&& slots_of(self.slots).len() == self.capacity
        &&& forall|i: int|
            0 <= i < self.capacity ==> ((#[trigger] slots_of(self.slots)[i]).frame matches Some(f)
                ==> (f.sequence & self.mask) == i)
    }

    /// Every waiting frame lies less than one turn of the ring ahead of the
    /// cursor, and none waits before the first has come.
    pub closed spec fn wf(self) -> bool {
        &&& self.ring_wf()
        &&& forall|i: int|
            0 <= i < self.capacity ==> ((#[trigger] slots_of(self.slots)[i]).frame matches Some(f)
                ==> self.primed && ahead(f.sequence, self.next_seq) < self.capacity)
    }

    /// Every frame that waits carries its own number, lies ahead of the cursor by
    /// less than the capacity, and came after the start.
    pub proof fn waiting_frames_in_window(self, s: u32)
        requires
            self.wf(),
            self@.frames.dom().contains(s),
        ensures
            self@.started,
            self@.frames[s].sequence == s,
            ahead(s, self@.next) < self@.capacity,
            ring_size(self@.capacity),
    {
        place_in_ring(s, self.capacity, self.mask);
        let i = (s & self.mask) as int;
        assert(slots_of(self.slots)[i].frame is Some);
    }

    /// A buffer has at least one slot.
    pub proof fn capacity_positive(self)
        requires
            self.wf(),
        ensures
            self@.capacity > 0,
    {
    }

    /// Two frames that wait in one slot are the same.
    proof fn one_frame_per_slot(self, a: u32, b: u32)
        requires
            self.ring_wf(),
            ahead(a, self.next_seq) < self.capacity,
            ahead(b, self.next_seq) < self.capacity,
            a & self.mask == b & self.mask,
        ensures
            a == b,
    {
        ring_size_single_bit(self.capacity, self.mask);
        place_determines_sequence(
            a,
            b,
            self.next_seq,
            ahead(a, self.next_seq),
            ahead(b, self.next_seq),
            self.capacity,
            self.mask,
        );
    }

    /// An empty buffer. The capacity is a power of two up to 2048.
    pub fn new(capacity: u32) -> (r: JitterBuffer)
        requires
            ring_size(capacity),
        ensures
            r.wf(),
            r@ == JitterView::fresh(capacity),
    {
        let mut slots: SlotVec = slots_with_capacity(capacity as usize);
        let mut i: u32 = 0;
        while i < capacity
            invariant
                i <= capacity,
                slots_of(slots).len() == i,
                forall|j: int| 0 <= j < i ==> (#[trigger] slots_of(slots)[j]).frame is None,
            decreases capacity - i,
        {
            slots_push(&mut slots, Slot { frame: None });
            i = i + 1;
        }
        let r = JitterBuffer { slots, capacity, mask: capacity - 1, next_seq: 0, primed: false };
        proof {
            assert forall|s: u32| !r.holds(s) by {
                place_in_ring(s, r.capacity, r.mask);
            }
            assert(r.frames() =~= Map::empty());
        }
        r
    }

    /// Number of slots.
    pub fn capacity(&self) -> (r: u32)
        ensures
            r == self@.capacity,
    {
        self.capacity
    }

    /// Sequence number that the next `pop` looks for.
    pub fn next_sequence(&self) -> (r: u32)
        ensures
            r == self@.next,
    {
        self.next_seq
    }

    /// Number of frames that wait.
    pub fn occupied(&self) -> (r: u32)
        requires
            self.wf(),
        ensures
            self@.frames.dom().finite(),
            r == self@.frames.dom().len(),
            r <= self@.capacity,
    {
        let mut count: u32 = 0;
        let mut i: u32 = 0;
        let ghost waiting = self.frames().dom();
        let ghost mask: u32 = self.mask;
        assert(waiting.filter(|s: u32| (s & mask) < 0u32) =~= Set::empty());
        while i < self.capacity
            invariant
                self.wf(),
                i <= self.capacity,
                count <= i,
                waiting == self.frames().dom(),
                mask == self.mask,
                waiting.filter(|s: u32| (s & mask) < i).finite(),
                count == waiting.filter(|s: u32| (s & mask) < i).len(),
            decreases self.capacity - i,
        {
            let ghost seen = waiting.filter(|s: u32| (s & mask) < i);
            let ghost now = waiting.filter(|s: u32| (s & mask) < i + 1);
            match &slots_get(&self.slots, i as usize).frame {
                Some(f) => {
                    proof {
                        let n = f.sequence;
                        assert(self.holds(n));
                        assert forall|s: u32| now.contains(s) <==> seen.insert(n).contains(s) by {
                            if waiting.contains(s) && s & mask == i {
                                self.waiting_frames_in_window(s);
                                self.waiting_frames_in_window(n);
                                self.one_frame_per_slot(s, n);
                            }
                        }
                        assert(now =~= seen.insert(n));
                    }
                    count = count + 1;
                },
                None => {
                    assert(now =~= seen);
                },
            }
            i = i + 1;
            assert(waiting.filter(|s: u32| (s & mask) < i) =~= now);
        }
        proof {
            assert forall|s: u32| waiting.contains(s) implies (s & mask) < i by {
                place_in_ring(s, self.capacity, mask);
            }
            assert(waiting.filter(|s: u32| (s & mask) < i) =~= waiting);
        }
        count
    }

    /// How far ahead of the cursor the next frame waits; the capacity if none
    /// does.
    pub fn gap(&self) -> (r: u32)
        requires
            self.wf(),
        ensures
            r == self@.gap(0),
    {
        let mut d: u32 = 0;
        while d < self.capacity
            invariant
                self.wf(),
                d <= self.capacity,
                self@.gap(0) == self@.gap(d),
            decreases self.capacity - d,
        {
            let sequence: u32 = self.next_seq.wrapping_add(d);
            proof {
                place_in_ring(sequence, self.capacity, self.mask);
            }
            if let Some(waiting) = &slots_get(&self.slots, (sequence & self.mask) as usize).frame {
                if waiting.sequence == sequence {
                    return d;
                }
            }
            d = d + 1;
        }
        d
    }

    /// Takes a frame in. The first frame sets the cursor; later a frame is taken
    /// exactly when it lies ahead of the cursor by less than the capacity. A
    /// frame that comes again replaces the one that waits.
    pub fn push(&mut self, frame: Frame) -> (r: bool)
        requires
            old(self).wf(),
        ensures
            final(self).wf(),
            r == old(self)@.accepts(frame.sequence),
            final(self)@ == old(self)@.pushed(frame@),
    {
        let ghost before = *self;
        if !self.primed {
            self.next_seq = frame.sequence;
            self.primed = true;
        } else {
            let next: u32 = self.next_seq;
            if frame.sequence.wrapping_sub(next) > 0x8000_0000 {
                return false;
            }
            if frame.sequence.wrapping_sub(next) >= self.capacity {
                return false;
            }
        }
        proof {
            place_in_ring(frame.sequence, self.capacity, self.mask);
        }
        let idx: usize = (frame.sequence & self.mask) as usize;
        match &slots_get(&self.slots, idx).frame {
            Some(existing) => {
                proof {
                    assert(before.primed);
                    self.one_frame_per_slot(existing.sequence, frame.sequence);
                }
                if existing.sequence != frame.sequence {
                    return false;
                }
            },
            None => {},
        }
        let ghost middle = *self;
        let _ = slots_replace(&mut self.slots, idx, Slot { frame: Some(frame) });
        proof {
            let after = *self;
            assert forall|s: u32| after.frames().dom().contains(s) <==> before.frames().insert(
                frame.sequence,
                frame@,
            ).dom().contains(s) by {
                place_in_ring(s, self.capacity, self.mask);
                if s & self.mask == idx && before.holds(s) {
                    self.one_frame_per_slot(s, frame.sequence);
                }
            }
            assert forall|s: u32| after.frames().dom().contains(s) implies after.frames()[s]
                == before.frames().insert(frame.sequence, frame@)[s] by {
                place_in_ring(s, self.capacity, self.mask);
            }
            assert(after.frames() =~= before.frames().insert(frame.sequence, frame@));
        }
        true
    }

    /// Takes out the frame under the cursor, if it has come.
    pub fn pop(&mut self) -> (r: Option<Frame>)
        requires
            old(self).wf(),
        ensures
            final(self).wf(),
            final(self)@ == old(self)@.popped(),
            match r {
                Some(f) => {
                    &&& old(self)@.ready()
                    &&& f@ == old(self)@.frames[old(self)@.next]
                    &&& f.sequence == old(self)@.next
                },
                None => !old(self)@.ready(),
            },
    {
        let ghost before = *self;
        let next: u32 = self.next_seq;
        proof {
            place_in_ring(next, self.capacity, self.mask);
        }
        if !self.primed {
            return None;
        }
        let idx: usize = (next & self.mask) as usize;
        match &slots_get(&self.slots, idx).frame {
            Some(waiting) => {
                if waiting.sequence != next {
                    return None;
                }
            },
            None => return None,
        }
        let taken: Slot = slots_replace(&mut self.slots, idx, Slot { frame: None });
        self.next_seq = next.wrapping_add(1);
        proof {
            let after = *self;
            assert forall|i: int| 0 <= i < after.capacity implies ((
            #[trigger] slots_of(after.slots)[i]).frame matches Some(f) ==> after.primed && ahead(
                f.sequence,
                after.next_seq,
            ) < after.capacity) by {
                if i != idx {
                    assert(slots_of(after.slots)[i] == slots_of(before.slots)[i]);
                }
            }
            assert forall|s: u32| after.frames().dom().contains(s) <==> before.frames().remove(
                next,
            ).dom().contains(s) by {
                place_in_ring(s, after.capacity, after.mask);
                if s & after.mask == idx && before.holds(s) {
                    before.one_frame_per_slot(s, next);
                }
            }
            assert forall|s: u32| after.frames().dom().contains(s) implies after.frames()[s]
                == before.frames().remove(next)[s] by {
                place_in_ring(s, after.capacity, after.mask);
            }
            assert(after.frames() =~= before.frames().remove(next));
        }
        taken.frame
    }

    /// Like `pop`, but gives a missing frame up once its deadline has passed:
    /// the cursor then moves on by one, and the caller fills the gap.
    pub fn pop_with_deadline(&mut self, now_us: u64, deadline_us: u64) -> (r: Option<Frame>)
        requires
            old(self).wf(),
        ensures
            final(self).wf(),
            match r {
                Some(f) => {
                    &&& old(self)@.ready()
                    &&& f@ == old(self)@.frames[old(self)@.next]
                    &&& f.sequence == old(self)@.next
                    &&& final(self)@ == old(self)@.popped()
                },
                None => {
                    &&& !old(self)@.ready()
                    &&& final(self)@.frames == old(self)@.frames
                    &&& final(self)@ == if now_us >= deadline_us {
                        old(self)@.skipped(1)
                    } else {
                        old(self)@
                    }
                },
            },
    {
        let ghost before = *self;
        if let Some(frame) = self.pop() {
            return Some(frame);
        }
        if now_us >= deadline_us {
            self.skip(1);
            proof {
                assert forall|s: u32| before.frames().dom().contains(s) implies ahead(
                    s,
                    before@.next,
                ) >= 1 by {
                    before.waiting_frames_in_window(s);
                }
                assert(self.frames() =~= before.frames());
            }
        }
        None
    }

    /// Moves the cursor on by `count`; the frames it passes are dropped.
    pub fn skip(&mut self, count: u32)
        requires
            old(self).wf(),
        ensures
            final(self).wf(),
            final(self)@ == old(self)@.skipped(count),
    {
        let ghost before = *self;
        if !self.primed {
            return;
        }
        let next: u32 = self.next_seq;
        let mut i: u32 = 0;
        while i < count
            invariant
                i <= count,
                before.wf(),
                self.ring_wf(),
                self.capacity == before.capacity,
                self.mask == before.mask,
                self.primed,
                before.primed,
                next == before.next_seq,
                self.next_seq == next,
                forall|k: int|
                    0 <= k < self.capacity ==> #[trigger] slots_of(self.slots)[k] == (match slots_of(
                        before.slots,
                    )[k].frame {
                        Some(f) => if ahead(f.sequence, next) < i {
                            Slot { frame: None }
                        } else {
                            slots_of(before.slots)[k]
                        },
                        None => slots_of(before.slots)[k],
                    }),
            decreases count - i,
        {
            let place: u32 = next.wrapping_add(i) & self.mask;
            let ghost passed: u32 = next.wrapping_add(i);
            let ghost earlier = slots_of(self.slots);
            proof {
                place_in_ring(passed, self.capacity, self.mask);
            }
            let _ = slots_replace(&mut self.slots, place as usize, Slot { frame: None });
            proof {
                assert forall|k: int| 0 <= k < self.capacity implies #[trigger] slots_of(
                    self.slots,
                )[k] == (match slots_of(before.slots)[k].frame {
                    Some(f) => if ahead(f.sequence, next) < i + 1 {
                        Slot { frame: None }
                    } else {
                        slots_of(before.slots)[k]
                    },
                    None => slots_of(before.slots)[k],
                }) by {
                    assert(slots_of(before.slots)[k].frame matches Some(f) ==> (f.sequence
                        & before.mask) == k);
                    if k == place {
                        if let Some(f) = slots_of(before.slots)[k].frame {
                            if i < self.capacity {
                                assert(ahead(passed, next) == i);
                                before.one_frame_per_slot(f.sequence, passed);
                            }
                        }
                    } else {
                        assert(slots_of(self.slots)[k] == earlier[k]);
                        if let Some(f) = slots_of(before.slots)[k].frame {
                            if ahead(f.sequence, next) == i {
                                assert(f.sequence == passed);
                            }
                        }
                    }
                }
            }
            i = i + 1;
        }
        self.next_seq = next.wrapping_add(count);
        proof {
            let after = *self;
            let kept = Set::new(|s: u32| ahead(s, before@.next) >= count);
            assert forall|k: int| 0 <= k < after.capacity implies ((
            #[trigger] slots_of(after.slots)[k]).frame matches Some(f) ==> after.primed && ahead(
                f.sequence,
                after.next_seq,
            ) < after.capacity) by {
                assert(slots_of(before.slots)[k].frame matches Some(f) ==> ahead(f.sequence, next)
                    < before.capacity);
            }
            assert forall|s: u32| after.frames().dom().contains(s) <==> before.frames().restrict(
                kept,
            ).dom().contains(s) by {
                place_in_ring(s, after.capacity, after.mask);
            }
            assert forall|s: u32| after.frames().dom().contains(s) implies after.frames()[s]
                == before.frames().restrict(kept)[s] by {
                place_in_ring(s, after.capacity, after.mask);
            }
            assert(after.frames() =~= before.frames().restrict(kept));
        }
    }
}

/// Which frames are taken in: the first, and then those whose number is the next or less
/// than the capacity ahead of it, also around the end of the numbers.
pub proof fn frames_taken_in(j: JitterView, sequence: u32)
    ensures
        j.accepts(sequence) <==> !j.started || (sequence >= j.next && sequence - j.next
            < j.capacity) || (sequence < j.next && sequence + 0x1_0000_0000 - j.next < j.capacity),
        ahead(sequence, j.next) == if sequence >= j.next {
            sequence - j.next
        } else {
            sequence + 0x1_0000_0000 - j.next
        },
{
}

/// A frame that is taken in waits under its number, and one that is not leaves the
/// buffer as it is. The frames that wait already stay, and so does the cursor; only the
/// first frame sets it.
pub proof fn pushing_adds_one_frame(j: JitterView, frame: FrameView, other: u32)
    requires
        other != frame.sequence,
    ensures
        ({
            let after = j.pushed(frame);
            let near = !j.started || frame.sequence.wrapping_sub(j.next) < j.capacity;
            &&& after.started
            &&& after.capacity == j.capacity
            &&& j.started ==> after.next == j.next
            &&& !j.started ==> after.next == frame.sequence
            &&& near ==> after.frames.dom().contains(frame.sequence)
                && after.frames[frame.sequence] == frame
            &&& !near ==> after.frames == j.frames
            &&& after.frames.dom().contains(other) == j.frames.dom().contains(other)
            &&& j.frames.dom().contains(other) ==> after.frames[other] == j.frames[other]
        }),
{
}

/// Frames come out in the order of their numbers, whatever the order they came in: of
/// two that were swapped on the way the earlier comes out first.
pub proof fn swapped_frames_come_out_in_order(j: JitterView, a: FrameView, b: FrameView)
    requires
        j.started,
        j.capacity >= 2,
        j.next == a.sequence,
        b.sequence == a.sequence.wrapping_add(1),
    ensures
        ({
            let both = j.pushed(b).pushed(a);
            let one = both.popped();
            &&& both.ready() && both.frames[both.next] == a
            &&& one.ready() && one.frames[one.next] == b
            &&& one.popped().next == b.sequence.wrapping_add(1)
        }),
{
}

/// The cursor moves only with a frame that is taken out, by one; a frame whose turn has
/// passed is not taken in again. A skip moves it by so many and loses the frames before
/// it, and no other.
pub proof fn cursor_moves_on(j: JitterView, count: u32, s: u32, frame: FrameView)
    requires
        0 < j.capacity <= 2048,
    ensures
        j.ready() <==> j.frames.dom().contains(j.next),
        j.ready() ==> j.popped().next == j.next.wrapping_add(1) && !j.popped().frames.dom().contains(
            j.next,
        ),
        !j.ready() ==> j.popped() == j,
        j.popped().capacity == j.capacity && j.popped().started == j.started,
        j.started ==> j.skipped(count).next == j.next.wrapping_add(count),
        j.started ==> (j.skipped(count).frames.dom().contains(s) <==> j.frames.dom().contains(s)
            && s.wrapping_sub(j.next) >= count),
        j.started && j.skipped(count).frames.dom().contains(s) ==> j.skipped(count).frames[s]
            == j.frames[s],
        !j.started ==> j.skipped(count) == j,
        j.started && j.ready() && frame.sequence == j.next ==> j.popped().pushed(frame)
            == j.popped(),
{
    if j.started && j.ready() && frame.sequence == j.next {
        assert(frame.sequence.wrapping_sub(j.popped().next) == u32::MAX);
    }
}

/// A new buffer is empty and waits for its first frame.
pub proof fn new_buffer_is_empty(capacity: u32, s: u32)
    ensures
        ({
            let j = JitterView::fresh(capacity);
            &&& j.capacity == capacity
            &&& !j.started
            &&& j.next == 0
            &&& !j.frames.dom().contains(s)
        }),
{
}

/// Pushing and taking out in numbers: a frame is taken in where its number is the next or
/// less than the capacity ahead, and the frame that comes out is the one whose number is
/// next.
pub proof fn frames_go_in_and_out(
    b: &mut JitterBuffer,
    frame: Frame,
    taken: bool,
    c: &mut JitterBuffer,
    r: Option<Frame>,
)
    requires
        call_ensures(JitterBuffer::push, (b, frame), taken),
        call_ensures(JitterBuffer::pop, (c,), r),
    ensures
        taken <==> !old(b)@.started || frame.sequence.wrapping_sub(old(b)@.next) < old(b)@.capacity,
        taken ==> final(b)@.frames == old(b)@.frames.insert(frame.sequence, frame@),
        !taken ==> final(b)@.frames == old(b)@.frames,
        final(b)@.started,
        old(b)@.started ==> final(b)@.next == old(b)@.next,
        !old(b)@.started ==> final(b)@.next == frame.sequence,
        r is Some <==> old(c)@.frames.dom().contains(old(c)@.next),
        r matches Some(f) ==> f@ == old(c)@.frames[old(c)@.next] && final(c)@.next
            == old(c)@.next.wrapping_add(1) && final(c)@.frames == old(c)@.frames.remove(
            old(c)@.next,
        ),
        r is None ==> final(c)@ == old(c)@,
{
}

/// A missing frame is given up once its deadline has come, and not before: the cursor
/// then moves on by one. What waits stays.
pub proof fn deadline_gives_a_frame_up(
    b: &mut JitterBuffer,
    now_us: u64,
    deadline_us: u64,
    r: Option<Frame>,
)
    requires
        call_ensures(JitterBuffer::pop_with_deadline, (b, now_us, deadline_us), r),
    ensures
        r is Some <==> old(b)@.frames.dom().contains(old(b)@.next),
        r matches Some(f) ==> f@ == old(b)@.frames[old(b)@.next] && final(b)@.next
            == old(b)@.next.wrapping_add(1),
        r is None && now_us < deadline_us ==> final(b)@ == old(b)@,
        r is None && now_us >= deadline_us && old(b)@.started ==> final(b)@.next
            == old(b)@.next.wrapping_add(1) && final(b)@.frames == old(b)@.frames,
{
}

/// A skip moves the cursor by so many.
pub proof fn skip_moves_the_cursor(b: &mut JitterBuffer, count: u32, c: &JitterBuffer, n: u32, s: u32)
    requires
        call_ensures(JitterBuffer::skip, (b, count), ()),
        call_ensures(JitterBuffer::occupied, (c,), n),
    ensures
        old(b)@.started ==> final(b)@.next == old(b)@.next.wrapping_add(count),
        old(b)@.started ==> (final(b)@.frames.dom().contains(s) <==> old(b)@.frames.dom().contains(s)
            && s.wrapping_sub(old(b)@.next) >= count),
        !old(b)@.started ==> final(b)@ == old(b)@,
        n == c@.frames.dom().len(),
{
}

} // verus!
