//! Forward error correction by XOR parity.
//!
//! For each window of frames one parity packet is sent: the XOR, byte by byte,
//! of all payloads of the window. If exactly one frame of the window is lost,
//! the XOR of the others with the parity is the lost frame.
use bytes::Bytes;
use vstd::prelude::*;

use crate::constants::FEC_WINDOW;
use crate::payload_bytes::{bytes_as_slice, bytes_from_vec, bytes_of};

verus! {

/// Byte `j` of a frame; beyond its end a frame reads as zero.
pub open spec fn byte_at(frame: Seq<u8>, j: int) -> u8 {
    if 0 <= j < frame.len() {
        frame[j]
    } else {
        0
    }
}

/// The XOR of byte `j` of all frames.
pub open spec fn xor_at(frames: Seq<Seq<u8>>, j: int) -> u8
    decreases frames.len(),
{
    if frames.len() == 0 {
        0
    } else {
        xor_at(frames.drop_last(), j) ^ byte_at(frames.last(), j)
    }
}

/// The length of the longest frame.
pub open spec fn longest(frames: Seq<Seq<u8>>) -> nat
    decreases frames.len(),
{
    if frames.len() == 0 {
        0
    } else if frames.last().len() > longest(frames.drop_last()) {
        frames.last().len()
    } else {
        longest(frames.drop_last())
    }
}

/// The parity of a group of frames.
pub open spec fn parity_of(frames: Seq<Seq<u8>>) -> Seq<u8> {
    Seq::new(longest(frames), |j: int| xor_at(frames, j))
}

/// `acc` with `data` XORed over it, as far as `acc` reaches.
pub open spec fn xored(acc: Seq<u8>, data: Seq<u8>) -> Seq<u8> {
    Seq::new(acc.len(), |j: int| acc[j] ^ byte_at(data, j))
}

/// XORs `data` over `accumulator`; what reaches beyond either is left alone.
pub fn xor_into(accumulator: &mut [u8], data: &[u8])
    ensures
        final(accumulator)@ == xored(old(accumulator)@, data@),
{
    let ghost before = accumulator@;
    let len: usize = if accumulator.len() < data.len() {
        accumulator.len()
    } else {
        data.len()
    };
    let mut i: usize = 0;
    while i < len
        invariant
            i <= len,
            len <= accumulator@.len(),
            len <= data@.len(),
            accumulator@.len() == before.len(),
            forall|j: int| 0 <= j < i ==> accumulator@[j] == before[j] ^ data@[j],
            forall|j: int| i <= j < before.len() ==> accumulator@[j] == before[j],
        decreases len - i,
    {
        accumulator[i] = accumulator[i] ^ data[i];
        i = i + 1;
    }
    proof {
        assert forall|j: int| 0 <= j < before.len() implies accumulator@[j] == xored(
            before,
            data@,
        )[j] by {
            let b: u8 = before[j];
            assert(b ^ 0 == b) by (bit_vector);
        }
        assert(accumulator@ =~= xored(before, data@));
    }
}

/// XOR undoes itself: applying the same data twice changes nothing.
pub proof fn xor_involution(acc: Seq<u8>, data: Seq<u8>)
    ensures
        xored(xored(acc, data), data) == acc,
{
    assert forall|j: int| 0 <= j < acc.len() implies xored(xored(acc, data), data)[j] == acc[j] by {
        let a: u8 = acc[j];
        let d: u8 = byte_at(data, j);
        assert((a ^ d) ^ d == a) by (bit_vector);
    }
    assert(xored(xored(acc, data), data) =~= acc);
}

/// Bytes beyond the longest frame XOR to zero.
proof fn xor_beyond_longest(frames: Seq<Seq<u8>>, j: int)
    requires
        j >= longest(frames),
    ensures
        xor_at(frames, j) == 0,
    decreases frames.len(),
{
    if frames.len() > 0 {
        xor_beyond_longest(frames.drop_last(), j);
        assert(0u8 ^ 0u8 == 0u8) by (bit_vector);
    }
}

/// No frame is longer than the longest.
pub proof fn longest_bounds(frames: Seq<Seq<u8>>, k: int)
    requires
        0 <= k < frames.len(),
    ensures
        frames[k].len() <= longest(frames),
    decreases frames.len(),
{
    if k < frames.len() - 1 {
        longest_bounds(frames.drop_last(), k);
    }
}

/// The parity of one more frame, from the parity so far.
proof fn parity_push(frames: Seq<Seq<u8>>, frame: Seq<u8>, padded: Seq<u8>)
    requires
        padded.len() == longest(frames.push(frame)),
        forall|j: int| 0 <= j < padded.len() ==> padded[j] == byte_at(parity_of(frames), j),
    ensures
        xored(padded, frame) == parity_of(frames.push(frame)),
{
    let all = frames.push(frame);
    assert(all.drop_last() =~= frames);
    assert forall|j: int| 0 <= j < padded.len() implies xored(padded, frame)[j] == parity_of(
        all,
    )[j] by {
        if j >= longest(frames) {
            xor_beyond_longest(frames, j);
        }
    }
    assert(xored(padded, frame) =~= parity_of(all));
}

/// A parity packet.
#[derive(Debug, Clone)]
pub struct FecParity {
    /// Sequence of the first frame of the group.
    pub seq_base: u32,
    /// Frames in the group.
    pub window: u8,
    /// XOR of the payloads of the group.
    pub payload: Bytes,
}

/// Gathers frames and produces parity packets.
pub struct FecEncoder {
    window: u8,
    parity_buf: Vec<u8>,
    count: u8,
    seq_base: u32,
    group: Ghost<Seq<Seq<u8>>>,
}

/// An encoder as a mathematical value.
#[verifier::ext_equal]
pub struct FecEncoderView {
    /// Frames in each group.
    pub window: u8,
    /// The payloads of the group under way.
    pub frames: Seq<Seq<u8>>,
    /// Sequence of the first of them; zero when there is none.
    pub base: u32,
}

impl FecEncoderView {
    /// An encoder with no frame yet.
    pub open spec fn fresh(window: u8) -> FecEncoderView {
        FecEncoderView { window, frames: Seq::empty(), base: 0 }
    }

    /// The first sequence of the group once `sequence` has been added.
    pub open spec fn base_on(self, sequence: u32) -> u32 {
        if self.frames.len() == 0 {
            sequence
        } else {
            self.base
        }
    }

    /// Whether one more frame fills the group.
    pub open spec fn fills(self) -> bool {
        self.frames.len() + 1 >= self.window
    }

    /// The encoder after one more frame.
    pub open spec fn pushed(self, sequence: u32, payload: Seq<u8>) -> FecEncoderView {
        if self.fills() {
            FecEncoderView::fresh(self.window)
        } else {
            FecEncoderView {
                window: self.window,
                frames: self.frames.push(payload),
                base: self.base_on(sequence),
            }
        }
    }
}

impl View for FecEncoder {
    type V = FecEncoderView;

    closed spec fn view(&self) -> FecEncoderView {
        FecEncoderView {
            window: self.window,
            frames: self.group@,
            base: if self.count == 0 {
                0
            } else {
                self.seq_base
            },
        }
    }
}

impl FecEncoder {
    /// The accumulator is the parity of the group under way, which is not full.
    pub closed spec fn wf(self) -> bool {
        &&& self.window >= 2
        &&& self.count < self.window
        &&& self.count == self.group@.len()
        &&& self.count > 0 ==> self.parity_buf@ == parity_of(self.group@)
    }

    /// An encoder for groups of `window` frames, at least 2.
    pub fn new(window: u8) -> (r: FecEncoder)
        ensures
            r.wf(),
            r@ == FecEncoderView::fresh(
                if window < 2 {
                    2
                } else {
                    window
                },
            ),
    {
        let window: u8 = if window < 2 {
            2
        } else {
            window
        };
        FecEncoder { window, parity_buf: Vec::new(), count: 0, seq_base: 0, group: Ghost(Seq::empty()) }
    }

    /// An encoder for groups of the default size.
    pub fn with_default_window() -> (r: FecEncoder)
        ensures
            r.wf(),
            r@ == FecEncoderView::fresh(FEC_WINDOW),
    {
        FecEncoder::new(FEC_WINDOW)
    }

    /// Adds a frame to the group. The frame that fills the group brings the
    /// parity of the whole group, and a new group begins.
    pub fn push(&mut self, sequence: u32, payload: &[u8]) -> (r: Option<FecParity>)
        requires
            old(self).wf(),
        ensures
            final(self).wf(),
            final(self)@ == old(self)@.pushed(sequence, payload@),
            r is Some <==> old(self)@.fills(),
            r matches Some(p) ==> {
                &&& p.seq_base == old(self)@.base_on(sequence)
                &&& p.window == old(self)@.window
                &&& bytes_of(p.payload) == parity_of(old(self)@.frames.push(payload@))
            },
    {
        let ghost before = self.group@;
        if self.count == 0 {
            self.seq_base = sequence;
            self.parity_buf = Vec::new();
        }
        let ghost sofar = self.parity_buf@;
        assert(self.parity_buf@ =~= parity_of(before));
        if payload.len() > self.parity_buf.len() {
            self.parity_buf.resize(payload.len(), 0);
        }
        proof {
            assert(before.push(payload@).drop_last() =~= before);
            assert forall|j: int| 0 <= j < self.parity_buf@.len() implies self.parity_buf@[j]
                == byte_at(sofar, j) by {
                if j < sofar.len() {
                    assert(self.parity_buf@.subrange(0, sofar.len() as int)[j] == sofar[j]);
                }
            }
            parity_push(before, payload@, self.parity_buf@);
        }
        xor_into(&mut self.parity_buf, payload);
        self.group = Ghost(before.push(payload@));
        self.count = self.count + 1;
        if self.count >= self.window {
            let parity = FecParity {
                seq_base: self.seq_base,
                window: self.window,
                payload: Bytes::copy_from_slice(&self.parity_buf),
            };
            self.count = 0;
            self.parity_buf.clear();
            self.group = Ghost(Seq::empty());
            Some(parity)
        } else {
            None
        }
    }
}

/// A frame slot of the decoder as a mathematical value.
pub open spec fn slot_view(slot: Option<Bytes>) -> Option<Seq<u8>> {
    match slot {
        Some(b) => Some(bytes_of(b)),
        None => None,
    }
}

/// The slots of the decoder as mathematical values.
pub open spec fn slots_view(slots: Seq<Option<Bytes>>) -> Seq<Option<Seq<u8>>> {
    slots.map_values(|slot: Option<Bytes>| slot_view(slot))
}

/// Frame `i` is the only one missing.
pub open spec fn lone_gap(received: Seq<Option<Seq<u8>>>, i: int) -> bool {
    &&& 0 <= i < received.len()
    &&& received[i] is None
    &&& forall|j: int| 0 <= j < received.len() && j != i ==> (#[trigger] received[j]) is Some
}

/// The frames received, with nothing where one is missing.
pub open spec fn present(received: Seq<Option<Seq<u8>>>) -> Seq<Seq<u8>> {
    received.map_values(
        |f: Option<Seq<u8>>|
            match f {
                Some(p) => p,
                None => Seq::empty(),
            },
    )
}

/// The parity with every frame received XORed over it.
pub open spec fn gap_filler(received: Seq<Option<Seq<u8>>>, parity: Seq<u8>) -> Seq<u8> {
    Seq::new(parity.len(), |j: int| parity[j] ^ xor_at(present(received), j))
}

/// What the decoder is left with when all frames of a group came but one.
pub open spec fn all_but(frames: Seq<Seq<u8>>, lost: int) -> Seq<Option<Seq<u8>>> {
    Seq::new(
        frames.len(),
        |i: int|
            if i == lost {
                None
            } else {
                Some(frames[i])
            },
    )
}

/// `frame` with zeros behind it up to `len` bytes.
pub open spec fn zero_padded(frame: Seq<u8>, len: nat) -> Seq<u8> {
    Seq::new(len, |j: int| byte_at(frame, j))
}

/// Taking one frame out of a group takes its byte out of the XOR.
proof fn xor_without(frames: Seq<Seq<u8>>, lost: int, j: int)
    requires
        0 <= lost < frames.len(),
    ensures
        xor_at(frames, j) ^ xor_at(frames.update(lost, Seq::empty()), j) == byte_at(
            frames[lost],
            j,
        ),
    decreases frames.len(),
{
    let rest = frames.update(lost, Seq::empty());
    let a: u8 = xor_at(frames.drop_last(), j);
    let b: u8 = byte_at(frames.last(), j);
    if lost == frames.len() - 1 {
        assert(rest.drop_last() =~= frames.drop_last());
        assert((a ^ b) ^ (a ^ 0) == b) by (bit_vector);
    } else {
        assert(rest.drop_last() =~= frames.drop_last().update(lost, Seq::empty()));
        xor_without(frames.drop_last(), lost, j);
        let c: u8 = xor_at(rest.drop_last(), j);
        assert((a ^ b) ^ (c ^ b) == a ^ c) by (bit_vector);
    }
}

/// If exactly one frame of a group is lost, the parity restores it: the decoder
/// sees a single gap at its place and fills it with the frame, padded with zeros
/// to the longest frame of the group.
pub proof fn single_loss_recovered(frames: Seq<Seq<u8>>, lost: int)
    requires
        0 <= lost < frames.len(),
    ensures
        lone_gap(all_but(frames, lost), lost),
        gap_filler(all_but(frames, lost), parity_of(frames)) == zero_padded(
            frames[lost],
            longest(frames),
        ),
{
    let received = all_but(frames, lost);
    assert(present(received) =~= frames.update(lost, Seq::empty()));
    assert forall|j: int| 0 <= j < longest(frames) implies gap_filler(
        received,
        parity_of(frames),
    )[j] == byte_at(frames[lost], j) by {
        xor_without(frames, lost, j);
    }
    assert(gap_filler(received, parity_of(frames)) =~= zero_padded(frames[lost], longest(frames)));
}

/// A lost frame as long as the longest of its group is restored exactly; so is
/// every frame of a group whose frames have one length.
pub proof fn single_loss_recovered_exactly(frames: Seq<Seq<u8>>, lost: int)
    requires
        0 <= lost < frames.len(),
        forall|k: int| 0 <= k < frames.len() ==> (#[trigger] frames[k]).len() <= frames[lost].len(),
    ensures
        gap_filler(all_but(frames, lost), parity_of(frames)) == frames[lost],
{
    single_loss_recovered(frames, lost);
    longest_bounds(frames, lost);
    longest_attained(frames, frames[lost].len());
    assert(zero_padded(frames[lost], longest(frames)) =~= frames[lost]);
}

/// A bound on every frame bounds the longest.
pub proof fn longest_attained(frames: Seq<Seq<u8>>, bound: nat)
    requires
        forall|k: int| 0 <= k < frames.len() ==> (#[trigger] frames[k]).len() <= bound,
    ensures
        longest(frames) <= bound,
    decreases frames.len(),
{
    if frames.len() > 0 {
        assert(frames.last() == frames[frames.len() - 1]);
        assert forall|k: int| 0 <= k < frames.drop_last().len() implies (
        #[trigger] frames.drop_last()[k]).len() <= bound by {
            assert(frames.drop_last()[k] == frames[k]);
        }
        longest_attained(frames.drop_last(), bound);
    }
}

/// A group in which nothing is missing has no gap to fill.
pub proof fn no_loss_no_gap(frames: Seq<Seq<u8>>, i: int)
    ensures
        !lone_gap(all_but(frames, -1), i),
{
}

/// A group with two frames missing has no single gap.
pub proof fn two_losses_no_gap(received: Seq<Option<Seq<u8>>>, a: int, b: int, i: int)
    requires
        0 <= a < received.len(),
        0 <= b < received.len(),
        a != b,
        received[a] is None,
        received[b] is None,
    ensures
        !lone_gap(received, i),
{
}

/// The sequence and the content of the one missing frame of a group, if exactly
/// one is missing.
pub open spec fn restored(
    received: Seq<Option<Seq<u8>>>,
    base: u32,
    parity: Seq<u8>,
) -> Option<(u32, Seq<u8>)> {
    if exists|i: int| lone_gap(received, i) {
        let i = choose|i: int| lone_gap(received, i);
        Some((base.wrapping_add(i as u32), gap_filler(received, parity)))
    } else {
        None
    }
}

/// What is restored is the frame at the gap: there is no other.
pub proof fn restored_at_gap(received: Seq<Option<Seq<u8>>>, base: u32, parity: Seq<u8>, i: int)
    requires
        lone_gap(received, i),
    ensures
        restored(received, base, parity) == Some(
            (base.wrapping_add(i as u32), gap_filler(received, parity)),
        ),
{
    let k = choose|k: int| lone_gap(received, k);
    assert(lone_gap(received, k));
    assert(k == i);
}

/// Places of the decoder for frames that came, by sequence number. No window is
/// larger, and the circle of sequence numbers is a multiple of it.
pub const FRAME_PLACES: u32 = 256;

/// A decoder as a mathematical value.
#[verifier::ext_equal]
pub struct FecDecoderView {
    /// Frames in each group.
    pub window: u8,
    /// The frames that came and are still kept, by sequence number.
    pub frames: Map<u32, Seq<u8>>,
    /// Number of the frame that came last.
    pub last: Option<u32>,
}

impl FecDecoderView {
    /// A decoder that nothing has come to.
    pub open spec fn fresh(window: u8) -> FecDecoderView {
        FecDecoderView { window, frames: Map::empty(), last: None }
    }

    /// This frame is kept under this number.
    pub open spec fn has(self, sequence: u32, payload: Seq<u8>) -> bool {
        self.frames.dom().contains(sequence) && self.frames[sequence] == payload
    }

    /// The frame that came last is one of the group that starts at `base`.
    pub open spec fn is_in(self, base: u32) -> bool {
        self.last matches Some(n) && n.wrapping_sub(base) < self.window
    }

    /// What the parity of the group that starts at `base` restores. Once a frame of
    /// another group has come, that is nothing.
    pub open spec fn recovered(self, base: u32, parity: Seq<u8>) -> Option<(u32, Seq<u8>)> {
        if self.is_in(base) {
            restored(self.frames_of(base), base, parity)
        } else {
            None
        }
    }

    /// The frames that came of the group that starts at `base`.
    pub open spec fn frames_of(self, base: u32) -> Seq<Option<Seq<u8>>> {
        Seq::new(
            self.window as nat,
            |i: int|
                {
                    let sequence = base.wrapping_add(i as u32);
                    if self.frames.dom().contains(sequence) {
                        Some(self.frames[sequence])
                    } else {
                        None
                    }
                },
        )
    }

    /// The decoder after a frame came. It takes the place of a frame whose number
    /// differs by a multiple of the number of places.
    pub open spec fn with_data(self, sequence: u32, payload: Seq<u8>) -> FecDecoderView {
        FecDecoderView {
            window: self.window,
            frames: self.frames.restrict(
                Set::new(|s: u32| s % FRAME_PLACES != sequence % FRAME_PLACES),
            ).insert(sequence, payload),
            last: Some(sequence),
        }
    }
}

/// From the frames of a group to its lost frame: when all frames of a group but
/// one are there, and none of another group came last, the parity brings the lost
/// one, padded with zeros to the longest frame of the group. The group may start at
/// any number.
pub proof fn decoder_restores_lost_frame(
    d: FecDecoderView,
    frames: Seq<Seq<u8>>,
    base: u32,
    lost: int,
)
    requires
        d.window == frames.len(),
        d.last matches Some(n) && n.wrapping_sub(base) < d.window,
        0 <= lost < frames.len(),
        !d.frames.dom().contains(base.wrapping_add(lost as u32)),
        forall|i: int|
            0 <= i < frames.len() && i != lost ==> #[trigger] d.has(
                base.wrapping_add(i as u32),
                frames[i],
            ),
    ensures
        d.recovered(base, parity_of(frames)) == Some(
            (base.wrapping_add(lost as u32), zero_padded(frames[lost], longest(frames))),
        ),
{
    assert forall|i: int| 0 <= i < frames.len() implies d.frames_of(base)[i] == all_but(
        frames,
        lost,
    )[i] by {
        if i != lost {
            assert(d.has(base.wrapping_add(i as u32), frames[i]));
        }
    }
    assert(d.frames_of(base) =~= all_but(frames, lost));
    single_loss_recovered(frames, lost);
    restored_at_gap(d.frames_of(base), base, parity_of(frames), lost);
}

/// When all frames of a group are there, its parity brings nothing.
pub proof fn decoder_restores_nothing_without_loss(
    d: FecDecoderView,
    base: u32,
    parity: Seq<u8>,
)
    requires
        forall|i: u32|
            i < d.window ==> d.frames.dom().contains(#[trigger] base.wrapping_add(i)),
    ensures
        d.recovered(base, parity) is None,
{
    assert forall|i: int| !lone_gap(d.frames_of(base), i) by {
        if 0 <= i < d.window {
            assert(d.frames.dom().contains(base.wrapping_add(i as u32)));
        }
    }
}

/// A restored frame as a mathematical value.
pub open spec fn restored_view(r: Option<(u32, Bytes)>) -> Option<(u32, Seq<u8>)> {
    match r {
        Some((seq, payload)) => Some((seq, bytes_of(payload))),
        None => None,
    }
}

/// A frame that came, with its number.
#[derive(Debug)]
pub struct KeptFrame {
    sequence: u32,
    payload: Bytes,
}

/// Restores a lost frame when the parity comes.
#[derive(Debug)]
pub struct FecDecoder {
    window: u8,
    kept: Vec<Option<KeptFrame>>,
    last: Option<u32>,
}

impl View for FecDecoder {
    type V = FecDecoderView;

    closed spec fn view(&self) -> FecDecoderView {
        FecDecoderView { window: self.window, frames: self.frames(), last: self.last }
    }
}

/// Empty places.
fn empty_places() -> (r: Vec<Option<KeptFrame>>)
    ensures
        r@.len() == FRAME_PLACES,
        forall|i: int| 0 <= i < r@.len() ==> (#[trigger] r@[i]) is None,
{
    let mut v: Vec<Option<KeptFrame>> = Vec::new();
    let mut i: u32 = 0;
    while i < FRAME_PLACES
        invariant
            i <= FRAME_PLACES,
            v@.len() == i,
            forall|j: int| 0 <= j < i ==> (#[trigger] v@[j]) is None,
        decreases FRAME_PLACES - i,
    {
        v.push(None);
        i = i + 1;
    }
    v
}

impl FecDecoder {
    /// The frame with this number is in its place.
    closed spec fn holds(self, sequence: u32) -> bool {
        match self.kept@[(sequence % FRAME_PLACES) as int] {
            Some(k) => k.sequence == sequence,
            None => false,
        }
    }

    /// The frames kept, by number.
    closed spec fn frames(self) -> Map<u32, Seq<u8>> {
        Map::new(
            |s: u32| self.holds(s),
            |s: u32| bytes_of(self.kept@[(s % FRAME_PLACES) as int]->0.payload),
        )
    }

    /// There is a place for every number, and each frame is in its own.
    pub closed spec fn wf(self) -> bool {
        &&& self.window >= 2
        &&& self.kept@.len() == FRAME_PLACES
    }

    /// A decoder for groups of `window` frames, at least 2.
    pub fn new(window: u8) -> (r: FecDecoder)
        ensures
            r.wf(),
            r@ == FecDecoderView::fresh(
                if window < 2 {
                    2
                } else {
                    window
                },
            ),
    {
        let window: u8 = if window < 2 {
            2
        } else {
            window
        };
        let r = FecDecoder { window, kept: empty_places(), last: None };
        assert(r.frames() =~= Map::empty());
        r
    }

    /// A decoder for groups of the default size.
    pub fn with_default_window() -> (r: FecDecoder)
        ensures
            r.wf(),
            r@ == FecDecoderView::fresh(FEC_WINDOW),
    {
        FecDecoder::new(FEC_WINDOW)
    }

    /// Records a frame.
    pub fn push_data(&mut self, sequence: u32, payload: Bytes) -> (r: bool)
        requires
            old(self).wf(),
        ensures
            r,
            final(self).wf(),
            final(self)@ == old(self)@.with_data(sequence, bytes_of(payload)),
    {
        let place: usize = (sequence % FRAME_PLACES) as usize;
        self.kept[place] = Some(KeptFrame { sequence, payload });
        self.last = Some(sequence);
        assert(self@.frames =~= old(self)@.with_data(sequence, bytes_of(payload)).frames);
        true
    }

    /// The frame with this number, if it is kept.
    fn kept_frame(&self, sequence: u32) -> (r: Option<Bytes>)
        requires
            self.wf(),
        ensures
            slot_view(r) == if self@.frames.dom().contains(sequence) {
                Some(self@.frames[sequence])
            } else {
                None
            },
    {
        match &self.kept[(sequence % FRAME_PLACES) as usize] {
            Some(k) => {
                if k.sequence == sequence {
                    Some(k.payload.clone())
                } else {
                    None
                }
            },
            None => None,
        }
    }

    /// Takes a parity packet. If exactly one frame of its group is missing,
    /// returns its sequence and content. The group starts at any number; the frame
    /// that came last has to be one of it.
    pub fn push_parity(&mut self, parity: FecParity) -> (r: Option<(u32, Bytes)>)
        requires
            old(self).wf(),
        ensures
            final(self).wf(),
            final(self)@ == old(self)@,
            restored_view(r) == old(self)@.recovered(parity.seq_base, bytes_of(parity.payload)),
    {
        match self.last {
            Some(n) => {
                if n.wrapping_sub(parity.seq_base) >= self.window as u32 {
                    return None;
                }
            },
            None => return None,
        }
        let mut received: Vec<Option<Bytes>> = Vec::new();
        let mut i: u8 = 0;
        while i < self.window
            invariant
                i <= self.window,
                self.wf(),
                self@ == old(self)@,
                self.window == self@.window,
                received@.len() == i,
                slots_view(received@) == self@.frames_of(parity.seq_base).take(i as int),
            decreases self.window - i,
        {
            let slot: Option<Bytes> = self.kept_frame(parity.seq_base.wrapping_add(i as u32));
            let ghost before = received@;
            received.push(slot);
            assert(slots_view(received@) =~= slots_view(before).push(slot_view(slot)));
            assert(slots_view(received@) =~= self@.frames_of(parity.seq_base).take(i + 1));
            i = i + 1;
        }
        assert(slots_view(received@) =~= self@.frames_of(parity.seq_base));
        try_recover(&received, parity.seq_base, &parity.payload)
    }

    /// Forgets everything but the window.
    pub fn reset(&mut self)
        requires
            old(self).wf(),
        ensures
            final(self).wf(),
            final(self)@ == FecDecoderView::fresh(old(self)@.window),
    {
        self.kept = empty_places();
        self.last = None;
        assert(self.frames() =~= Map::empty());
    }
}

/// The one missing frame of the group that starts at `seq_base`.
fn try_recover(received_slots: &Vec<Option<Bytes>>, seq_base: u32, parity: &Bytes) -> (r: Option<
    (u32, Bytes),
>)
    requires
        received_slots@.len() <= 255,
    ensures
        restored_view(r) == restored(slots_view(received_slots@), seq_base, bytes_of(*parity)),
{
    let ghost received = slots_view(received_slots@);
    let n: usize = received_slots.len();
    let mut missing: usize = 0;
    let mut lost_idx: usize = 0;
    let mut recovered: Vec<u8> = vstd::slice::slice_to_vec(bytes_as_slice(parity));
    let mut i: usize = 0;
    proof {
        assert(received.take(0) =~= Seq::empty());
        assert forall|j: int| 0 <= j < recovered@.len() implies recovered@[j] == bytes_of(
            *parity,
        )[j] ^ xor_at(present(received.take(0)), j) by {
            let b: u8 = recovered@[j];
            assert(b ^ 0 == b) by (bit_vector);
        }
    }
    while i < n
        invariant
            i <= n,
            n == received_slots@.len(),
            received == slots_view(received_slots@),
            missing <= i,
            missing == 0 ==> forall|j: int| 0 <= j < i ==> (#[trigger] received[j]) is Some,
            missing >= 1 ==> lost_idx < i && received[lost_idx as int] is None,
            missing == 1 ==> forall|j: int|
                0 <= j < i && j != lost_idx ==> (#[trigger] received[j]) is Some,
            missing >= 2 ==> exists|a: int, b: int|
                0 <= a < b < i && (#[trigger] received[a]) is None && (
                #[trigger] received[b]) is None,
            recovered@.len() == bytes_of(*parity).len(),
            forall|j: int|
                0 <= j < recovered@.len() ==> recovered@[j] == bytes_of(*parity)[j] ^ xor_at(
                    present(received.take(i as int)),
                    j,
                ),
        decreases n - i,
    {
        let ghost acc = recovered@;
        let ghost was = lost_idx as int;
        let ghost head = present(received.take(i as int));
        assert(present(received.take(i + 1)).drop_last() =~= head);
        assert(received[i as int] == slot_view(received_slots@[i as int]));
        match &received_slots[i] {
            Some(data) => {
                xor_into(&mut recovered, bytes_as_slice(data));
            },
            None => {
                assert(missing >= 1 ==> received[was] is None && was < i);
                missing = missing + 1;
                lost_idx = i;
            },
        }
        proof {
            let last = present(received.take(i + 1)).last();
            assert forall|j: int| 0 <= j < recovered@.len() implies recovered@[j] == bytes_of(
                *parity,
            )[j] ^ xor_at(present(received.take(i + 1)), j) by {
                let p: u8 = bytes_of(*parity)[j];
                let x: u8 = xor_at(head, j);
                let d: u8 = byte_at(last, j);
                assert((p ^ x) ^ d == p ^ (x ^ d)) by (bit_vector);
                assert((p ^ x) ^ 0 == p ^ x) by (bit_vector);
                assert(acc[j] == p ^ x);
            }
        }
        i = i + 1;
    }
    assert(received.take(n as int) =~= received);
    if missing != 1 {
        return None;
    }
    proof {
        restored_at_gap(received, seq_base, bytes_of(*parity), lost_idx as int);
    }
    let seq: u32 = seq_base.wrapping_add(lost_idx as u32);
    assert(recovered@ =~= gap_filler(received, bytes_of(*parity)));
    Some((seq, bytes_from_vec(recovered)))
}

/// A parity is as long as the longest frame, and each of its bytes is the XOR of the
/// bytes at its place: one more frame turns over exactly the bits that are set in it.
pub proof fn parity_of_one_more(frames: Seq<Seq<u8>>, frame: Seq<u8>)
    ensures
        ({
            let before = parity_of(frames);
            let after = parity_of(frames.push(frame));
            &&& parity_of(Seq::<Seq<u8>>::empty()).len() == 0
            &&& after.len() == if frame.len() > before.len() {
                frame.len()
            } else {
                before.len()
            }
            &&& forall|j: int|
                #![trigger after[j]]
                0 <= j < before.len() && j < frame.len() ==> after[j] == before[j] ^ frame[j]
            &&& forall|j: int|
                #![trigger after[j]]
                frame.len() <= j < before.len() ==> after[j] == before[j]
            &&& forall|j: int|
                #![trigger after[j]]
                before.len() <= j < frame.len() ==> after[j] == frame[j]
        }),
{
    let all = frames.push(frame);
    let after = parity_of(all);
    assert(all.drop_last() =~= frames);
    assert forall|j: int| 0 <= j < after.len() implies #[trigger] after[j] == xor_at(frames, j)
        ^ byte_at(frame, j) by {}
    assert forall|j: int|
        #![trigger after[j]]
        frame.len() <= j < longest(frames) implies after[j] == parity_of(frames)[j] by {
        let x: u8 = xor_at(frames, j);
        assert(x ^ 0 == x) by (bit_vector);
    }
    assert forall|j: int|
        #![trigger after[j]]
        longest(frames) <= j < frame.len() implies after[j] == frame[j] by {
        xor_beyond_longest(frames, j);
        let x: u8 = frame[j];
        assert(0 ^ x == x) by (bit_vector);
    }
}

/// The encoder after frames with these numbers and payloads.
pub open spec fn encoded_frames(
    e: FecEncoderView,
    numbers: Seq<u32>,
    payloads: Seq<Seq<u8>>,
) -> FecEncoderView
    decreases payloads.len(),
{
    if payloads.len() == 0 {
        e
    } else {
        encoded_frames(e, numbers, payloads.drop_last()).pushed(
            numbers[payloads.len() - 1],
            payloads.last(),
        )
    }
}

/// A group has as many frames as the window, whatever their numbers: the encoder keeps
/// the payloads in order and the number of the first, the frame that makes the group
/// complete fills it and none before, and then the next group begins.
pub proof fn group_closes_with_the_window(
    window: u8,
    numbers: Seq<u32>,
    payloads: Seq<Seq<u8>>,
    number: u32,
    payload: Seq<u8>,
)
    requires
        window >= 2,
        payloads.len() < window,
        numbers.len() >= payloads.len(),
    ensures
        ({
            let e = encoded_frames(FecEncoderView::fresh(window), numbers, payloads);
            &&& e.window == window
            &&& e.frames == payloads
            &&& e.fills() <==> payloads.len() + 1 == window
            &&& e.base_on(number) == if payloads.len() == 0 {
                number
            } else {
                numbers[0]
            }
            &&& payloads.len() + 1 == window ==> e.pushed(number, payload).frames.len() == 0
                && e.pushed(number, payload) == FecEncoderView::fresh(window)
        }),
    decreases payloads.len(),
{
    if payloads.len() > 0 {
        group_closes_with_the_window(
            window,
            numbers,
            payloads.drop_last(),
            numbers[payloads.len() - 1],
            payloads.last(),
        );
        assert(payloads.drop_last().push(payloads.last()) =~= payloads);
        if payloads.len() >= 2 {
            let e = encoded_frames(FecEncoderView::fresh(window), numbers, payloads.drop_last());
            assert(e.base_on(numbers[payloads.len() - 1]) == numbers[0]);
        }
    }
}

/// A frame that comes is kept under its number, and is the last that came. Of the others
/// only those go whose number is a multiple of 256 away.
pub proof fn frame_is_kept(d: FecDecoderView, n: u32, payload: Seq<u8>, m: u32)
    ensures
        ({
            let after = d.with_data(n, payload);
            &&& after.window == d.window
            &&& after.last == Some(n)
            &&& after.frames.dom().contains(n) && after.frames[n] == payload
            &&& m != n ==> (after.frames.dom().contains(m) <==> d.frames.dom().contains(m) && m
                % 256 != n % 256)
            &&& m != n && after.frames.dom().contains(m) ==> after.frames[m] == d.frames[m]
            &&& FecDecoderView::fresh(d.window).last is None
            &&& FecDecoderView::fresh(d.window).window == d.window
            &&& !FecDecoderView::fresh(d.window).frames.dom().contains(m)
        }),
{
}

/// The decoder after the first `k` frames of the group at `base`, all but one.
pub open spec fn fed(d: FecDecoderView, base: u32, frames: Seq<Seq<u8>>, lost: int, k: nat) -> FecDecoderView
    decreases k,
{
    if k == 0 {
        d
    } else if k - 1 == lost {
        fed(d, base, frames, lost, (k - 1) as nat)
    } else {
        fed(d, base, frames, lost, (k - 1) as nat).with_data(
            base.wrapping_add((k - 1) as u32),
            frames[k - 1],
        )
    }
}

/// What is fed stays, and the lost frame stays away.
proof fn fed_frames_stay(d: FecDecoderView, base: u32, frames: Seq<Seq<u8>>, lost: int, k: nat)
    requires
        0 <= lost < frames.len() <= 255,
        k <= frames.len(),
        !d.frames.dom().contains(base.wrapping_add(lost as u32)),
    ensures
        ({
            let f = fed(d, base, frames, lost, k);
            &&& f.window == d.window
            &&& !f.frames.dom().contains(base.wrapping_add(lost as u32))
            &&& forall|i: int|
                0 <= i < k && i != lost ==> #[trigger] f.has(base.wrapping_add(i as u32), frames[i])
            &&& (k >= 2 || k == 1 && lost != 0) ==> (f.last matches Some(n) && n.wrapping_sub(base)
                < k)
        }),
    decreases k,
{
    if k > 0 {
        let h = (k - 1) as nat;
        fed_frames_stay(d, base, frames, lost, h);
        if h != lost {
            let n = base.wrapping_add(h as u32);
            let before = fed(d, base, frames, lost, h);
            numbers_have_own_places(base, lost as u32, h as u32);
            assert forall|i: int| 0 <= i < k && i != lost implies #[trigger] fed(
                d,
                base,
                frames,
                lost,
                k,
            ).has(base.wrapping_add(i as u32), frames[i]) by {
                if i < h {
                    numbers_have_own_places(base, i as u32, h as u32);
                    assert(before.has(base.wrapping_add(i as u32), frames[i]));
                }
            }
            assert(n.wrapping_sub(base) == h);
        }
    }
}

/// Two numbers less than 256 apart differ, and have places of their own.
proof fn numbers_have_own_places(base: u32, i: u32, k: u32)
    requires
        i < 256,
        k < 256,
        i != k,
    ensures
        base.wrapping_add(i) % 256 != base.wrapping_add(k) % 256,
{
    let b = base as int;
    assert(base.wrapping_add(i) as int % 256 == (b + i) % 256);
    assert(base.wrapping_add(k) as int % 256 == (b + k) % 256);
    assert((b + i) % 256 == (b + k) % 256 ==> i == k);
}

/// A loss is made good, wherever in the stream: when all frames of a group come but one,
/// the parity brings the number of the lost frame and its bytes, with zeros behind them
/// up to the longest frame of the group.
pub proof fn lost_frame_is_restored(d: FecDecoderView, base: u32, frames: Seq<Seq<u8>>, lost: int)
    requires
        2 <= frames.len() <= 255,
        d.window == frames.len(),
        0 <= lost < frames.len(),
        !d.frames.dom().contains(base.wrapping_add(lost as u32)),
    ensures
        match fed(d, base, frames, lost, frames.len()).recovered(base, parity_of(frames)) {
            Some((n, bytes)) => {
                &&& n == (base + lost) % 0x1_0000_0000
                &&& forall|k: int| 0 <= k < frames.len() ==> (#[trigger] frames[k]).len() <= bytes.len()
                &&& forall|j: int| 0 <= j < frames[lost].len() ==> #[trigger] bytes[j] == frames[lost][j]
                &&& forall|j: int| frames[lost].len() <= j < bytes.len() ==> #[trigger] bytes[j] == 0
                &&& bytes.len() == parity_of(frames).len()
            },
            None => false,
        },
{
    let f = fed(d, base, frames, lost, frames.len());
    fed_frames_stay(d, base, frames, lost, frames.len());
    decoder_restores_lost_frame(f, frames, base, lost);
    assert forall|k: int| 0 <= k < frames.len() implies (#[trigger] frames[k]).len() <= longest(
        frames,
    ) by {
        longest_bounds(frames, k);
    }
}

/// Nothing is made up: no frame is restored where none or more than one of the group is
/// missing, or where the frame that came last is of another group or none came.
pub proof fn nothing_is_made_up(d: FecDecoderView, base: u32, parity: Seq<u8>, a: u32, b: u32)
    requires
        ({
            ||| d.last is None
            ||| d.last matches Some(n) && n.wrapping_sub(base) >= d.window
            ||| a < d.window && b < d.window && a != b && !d.frames.dom().contains(
                base.wrapping_add(a),
            ) && !d.frames.dom().contains(base.wrapping_add(b))
            ||| forall|i: u32| i < d.window ==> d.frames.dom().contains(#[trigger] base.wrapping_add(i))
        }),
    ensures
        d.recovered(base, parity) is None,
{
    let received = d.frames_of(base);
    if d.is_in(base) {
        assert forall|i: int| !lone_gap(received, i) by {
            if 0 <= i < d.window {
                if a < d.window && b < d.window && a != b && !d.frames.dom().contains(
                    base.wrapping_add(a),
                ) && !d.frames.dom().contains(base.wrapping_add(b)) {
                    assert(received[a as int] is None);
                    assert(received[b as int] is None);
                } else {
                    assert(d.frames.dom().contains(base.wrapping_add(i as u32)));
                }
            }
        }
    }
}

/// XORing bytes over others reaches as far as both do, and leaves the rest.
pub proof fn xor_is_byte_by_byte(acc: Seq<u8>, data: Seq<u8>)
    ensures
        xored(acc, data).len() == acc.len(),
        forall|j: int|
            0 <= j < acc.len() && j < data.len() ==> #[trigger] xored(acc, data)[j] == acc[j]
                ^ data[j],
        forall|j: int| data.len() <= j < acc.len() ==> #[trigger] xored(acc, data)[j] == acc[j],
{
    assert forall|j: int| data.len() <= j < acc.len() implies #[trigger] xored(acc, data)[j]
        == acc[j] by {
        let a: u8 = acc[j];
        assert(a ^ 0 == a) by (bit_vector);
    }
}

/// A lost frame from the encoder to the decoder: whatever parity `push` brought for a
/// group of these payloads, `push_parity` brings the one that is not kept, if a frame of
/// the group came last.
pub proof fn parity_brings_the_lost_frame(
    e: &mut FecEncoder,
    sequence: u32,
    payload: &[u8],
    parity: FecParity,
    d: &mut FecDecoder,
    r: Option<(u32, Bytes)>,
    lost: int,
)
    requires
        call_ensures(FecEncoder::push, (e, sequence, payload), Some(parity)),
        call_ensures(FecDecoder::push_parity, (d, parity), r),
        old(e)@.frames.len() > 0,
        old(d)@.window == old(e)@.frames.len() + 1,
        0 <= lost < old(d)@.window,
        old(d)@.last matches Some(n) && n.wrapping_sub(old(e)@.base) < old(d)@.window,
        !old(d)@.frames.dom().contains(old(e)@.base.wrapping_add(lost as u32)),
        ({
            let frames = old(e)@.frames.push(payload@);
            forall|i: int|
                0 <= i < frames.len() && i != lost ==> #[trigger] old(d)@.has(
                    old(e)@.base.wrapping_add(i as u32),
                    frames[i],
                )
        }),
    ensures
        ({
            let frames = old(e)@.frames.push(payload@);
            &&& parity.seq_base == old(e)@.base
            &&& r matches Some((n, bytes))
            &&& n == old(e)@.base.wrapping_add(lost as u32)
            &&& bytes_of(bytes).len() >= frames[lost].len()
            &&& forall|j: int|
                0 <= j < frames[lost].len() ==> #[trigger] bytes_of(bytes)[j] == frames[lost][j]
            &&& forall|j: int|
                frames[lost].len() <= j < bytes_of(bytes).len() ==> #[trigger] bytes_of(bytes)[j] == 0
            &&& final(d)@.frames == old(d)@.frames
        }),
{
    let frames = old(e)@.frames.push(payload@);
    decoder_restores_lost_frame(old(d)@, frames, old(e)@.base, lost);
    longest_bounds(frames, lost);
}

/// A frame is kept, a parity changes nothing, and a reset forgets all.
pub proof fn decoder_keeps_frames(
    d: &mut FecDecoder,
    sequence: u32,
    payload: Bytes,
    r: bool,
    f: &mut FecDecoder,
    window: u8,
    new: FecDecoder,
)
    requires
        call_ensures(FecDecoder::push_data, (d, sequence, payload), r),
        call_ensures(FecDecoder::reset, (f,), ()),
        call_ensures(FecDecoder::new, (window,), new),
    ensures
        r,
        final(d)@.has(sequence, bytes_of(payload)),
        final(d)@.frames.dom().contains(sequence) && final(d)@.frames[sequence] == bytes_of(payload),
        final(d)@.last == Some(sequence),
        final(d)@.window == old(d)@.window,
        final(f)@.frames == Map::<u32, Seq<u8>>::empty(),
        final(f)@.last is None,
        final(f)@.window == old(f)@.window,
        new@.frames == Map::<u32, Seq<u8>>::empty() && new@.last is None,
        window >= 2 ==> new@.window == window,
        window < 2 ==> new@.window == 2,
{
}

/// A frame joins the group under way; the one that completes it brings the parity, and
/// none before.
pub proof fn encoder_brings_parities(
    e: &mut FecEncoder,
    sequence: u32,
    payload: &[u8],
    r: Option<FecParity>,
)
    requires
        call_ensures(FecEncoder::push, (e, sequence, payload), r),
    ensures
        r is Some <==> old(e)@.frames.len() + 1 >= old(e)@.window,
        r is None ==> final(e)@.frames == old(e)@.frames.push(payload@),
        r is None && old(e)@.frames.len() == 0 ==> final(e)@.base == sequence,
        r is None && old(e)@.frames.len() > 0 ==> final(e)@.base == old(e)@.base,
        final(e)@.window == old(e)@.window,
        r matches Some(p) ==> {
            &&& final(e)@.frames.len() == 0
            &&& p.window == old(e)@.window
            &&& old(e)@.frames.len() == 0 ==> p.seq_base == sequence
            &&& old(e)@.frames.len() > 0 ==> p.seq_base == old(e)@.base
            &&& bytes_of(p.payload) == parity_of(old(e)@.frames.push(payload@))
        },
{
}

} // verus!
