//! What holds of whole streams, from the sender's payloads to the receiver's
//! frames.
use vstd::prelude::*;

use crate::config::Config;
use crate::constants::FEC_WINDOW;
use crate::error::Error;
use crate::fec::{
    decoder_restores_lost_frame, lone_gap, longest, longest_attained, parity_of, zero_padded,
    FecEncoderView, FRAME_PLACES,
};
use crate::handshake::{chosen_codec, whole_handshake, Exchange};
use crate::jitter_buffer::{ahead, gap_leads_to_next_frame, no_gap_when_ready, FrameView, JitterView};
use crate::session::{
    after_datagram, after_delivery, audio_wire, delivery, frame_in, frame_joins, heard, noted,
    overdue, parity_fits, parity_reaches, settled, still_ahead, with_frame, with_parity, with_passed,
    SessionView,
};

verus! {

/// Something that happens to a session that receives.
pub enum Step {
    /// A datagram comes and is handled.
    Poll { datagram: Seq<u8>, now_us: u64 },
    /// The next audio frame is asked for.
    Take { now_us: u64 },
}

/// The session after a step.
#[verifier::opaque]
pub open spec fn stepped(v: SessionView, step: Step) -> SessionView {
    match step {
        Step::Poll { datagram, now_us } => after_datagram(v, datagram, now_us),
        Step::Take { now_us } => after_delivery(v, now_us),
    }
}

/// The session after all steps.
pub open spec fn ran(v: SessionView, steps: Seq<Step>) -> SessionView
    decreases steps.len(),
{
    if steps.len() == 0 {
        v
    } else {
        stepped(ran(v, steps.drop_last()), steps.last())
    }
}

/// The audio frames that come out along the steps.
pub open spec fn came_out(v: SessionView, steps: Seq<Step>) -> Seq<FrameView>
    decreases steps.len(),
{
    if steps.len() == 0 {
        Seq::empty()
    } else {
        let before = came_out(v, steps.drop_last());
        match steps.last() {
            Step::Poll { .. } => before,
            Step::Take { now_us } => match delivery(ran(v, steps.drop_last()), now_us) {
                Some(frame) => before.push(frame),
                None => before,
            },
        }
    }
}

/// A number that is kept was in the list.
proof fn still_ahead_was_there(j: JitterView, passed: Seq<u32>, n: u32)
    requires
        still_ahead(j, passed).contains(n),
    ensures
        passed.contains(n),
    decreases passed.len(),
{
    if passed.len() > 0 {
        let rest = still_ahead(j, passed.drop_last());
        if n == passed.last() {
            assert(passed[passed.len() - 1] == n);
        } else {
            let kept = still_ahead(j, passed);
            let i = choose|i: int| 0 <= i < kept.len() && kept[i] == n;
            assert(rest[i] == n);
            still_ahead_was_there(j, passed.drop_last(), n);
            let k = choose|k: int| 0 <= k < passed.drop_last().len() && passed.drop_last()[k] == n;
            assert(passed[k] == n);
        }
    }
}

/// A number in the new list is the one noted, or was in the old list.
proof fn noted_was_there(j: JitterView, passed: Seq<u32>, sequence: u32, n: u32)
    requires
        noted(j, passed, sequence).contains(n),
    ensures
        n == sequence || passed.contains(n),
{
    let kept = still_ahead(j, passed);
    let list = noted(j, passed, sequence);
    let i = choose|i: int| 0 <= i < list.len() && list[i] == n;
    if n != sequence {
        assert(kept[i] == n);
        still_ahead_was_there(j, passed, n);
    }
}

/// The number noted is in the new list.
proof fn noted_is_there(j: JitterView, passed: Seq<u32>, sequence: u32)
    ensures
        noted(j, passed, sequence).contains(sequence),
{
    let kept = still_ahead(j, passed);
    if !kept.contains(sequence) {
        assert(noted(j, passed, sequence)[kept.len() as int] == sequence);
    }
}

/// A frame that waits stays where it is while the cursor settles.
proof fn settling_keeps_frames(j: JitterView, passed: Seq<u32>, n: nat, s: u32)
    requires
        j.frames.dom().contains(s),
    ensures
        settled(j, passed, n).frames.dom().contains(s),
        settled(j, passed, n).frames[s] == j.frames[s],
    decreases n,
{
    if n > 0 && !j.ready() && passed.contains(j.next) {
        settling_keeps_frames(j.skipped(1), passed, (n - 1) as nat, s);
    }
}

/// Before the first frame the cursor does not move.
proof fn settling_waits_for_start(j: JitterView, passed: Seq<u32>, n: nat)
    requires
        !j.started,
    ensures
        settled(j, passed, n) == j,
    decreases n,
{
    if n > 0 && !j.ready() && passed.contains(j.next) {
        settling_waits_for_start(j, passed, (n - 1) as nat);
    }
}

/// The session is at number `n` of a stream: nothing waits, `n` comes next, and
/// none of the next `more` numbers is known to carry no audio.
pub open spec fn at_number(v: SessionView, n: u32, more: int) -> bool {
    &&& 0 < v.jitter.capacity <= 2048
    &&& v.jitter.started ==> v.jitter.next == n
    &&& v.jitter.frames == Map::<u32, FrameView>::empty()
    &&& forall|k: u32| k < more ==> !v.passed.contains(#[trigger] n.wrapping_add(k))
}

/// A frame that comes in its turn, or as the first of a stream, comes out at
/// once, whatever else waits.
pub proof fn frame_in_turn_comes_out(v: SessionView, frame: FrameView, now_us: u64)
    requires
        v.jitter.capacity > 0,
        v.jitter.started ==> v.jitter.next == frame.sequence,
    ensures
        delivery(with_frame(v, frame), now_us) == Some(frame),
{
    no_gap_when_ready(with_frame(v, frame).jitter);
}

/// A lost frame does not end the stream: once the depth of the jitter buffer has
/// passed, the next frame that waits comes out, and none that waits is skipped.
pub proof fn stream_goes_on_after_loss(v: SessionView, now_us: u64, s: u32)
    requires
        v.jitter.frames.dom().contains(s),
        ahead(s, v.jitter.next) < v.jitter.capacity,
        v.jitter.started,
        overdue(v, now_us),
    ensures
        delivery(v, now_us) is Some,
        v.jitter.gap(0) <= ahead(s, v.jitter.next),
        delivery(v, now_us) == Some(v.jitter.frames[v.jitter.next.wrapping_add(v.jitter.gap(0))]),
{
    let j = v.jitter;
    gap_leads_to_next_frame(j, 0);
    let d = ahead(s, j.next);
    assert(j.next.wrapping_add(d) == s);
    let g = j.gap(0);
    assert(g <= d);
    if g > 0 {
        assert(ahead(j.next.wrapping_add(g), j.next) == g);
        assert(j.skipped(g).frames[j.next.wrapping_add(g)] == j.frames[j.next.wrapping_add(g)]);
    } else {
        assert(j.next.wrapping_add(0) == j.next);
    }
}

/// The numbers behind the next one.
proof fn numbers_move_on(v: SessionView, n: u32, more: int)
    requires
        at_number(v, n, more),
        2 <= more <= 0xFFFF_FFFF,
    ensures
        forall|k: u32|
            k < more - 1 ==> !v.passed.contains(#[trigger] n.wrapping_add(1).wrapping_add(k)),
{
    assert forall|k: u32| k < more - 1 implies !v.passed.contains(
        #[trigger] n.wrapping_add(1).wrapping_add(k),
    ) by {
        let k1 = (k + 1) as u32;
        assert(n.wrapping_add(k1) == n.wrapping_add(1).wrapping_add(k));
    }
}

/// An audio frame in its turn comes out, and the session is at the next number.
proof fn audio_in_turn(
    v: SessionView,
    n: u32,
    more: int,
    frame: FrameView,
    datagram: Seq<u8>,
    poll_us: u64,
    take_us: u64,
)
    requires
        at_number(v, n, more),
        2 <= more <= 0xFFFF_FFFF,
        frame.sequence == n,
        frame_in(v.decrypt_key, v.session_id, datagram) == Some(frame),
    ensures
        ({
            let w = after_datagram(v, datagram, poll_us);
            let u = after_delivery(w, take_us);
            &&& delivery(w, take_us) == Some(frame)
            &&& at_number(u, n.wrapping_add(1), more - 1)
            &&& u.jitter.started
            &&& u.decrypt_key == v.decrypt_key
            &&& u.session_id == v.session_id
            &&& u.fec_dec.window == v.fec_dec.window
            &&& u.fec_dec.last == Some(n)
        }),
{
    let h = heard(v, datagram.len(), poll_us);
    let w = after_datagram(v, datagram, poll_us);
    assert(w == with_frame(h, frame));
    frame_in_turn_comes_out(h, frame, take_us);
    no_gap_when_ready(w.jitter);
    numbers_move_on(v, n, more);
    let j = w.jitter.popped();
    assert(j.frames =~= Map::<u32, FrameView>::empty());
    assert(n.wrapping_add(1).wrapping_add(0) == n.wrapping_add(1));
    assert(!w.passed.contains(j.next));
}

/// A number that carries no audio is passed over in its turn.
proof fn passed_in_turn(v: SessionView, n: u32, more: int)
    requires
        at_number(v, n, more),
        2 <= more <= 0xFFFF_FFFF,
    ensures
        at_number(with_passed(v, n), n.wrapping_add(1), more - 1),
        with_passed(v, n).jitter.started == v.jitter.started,
{
    let passed = noted(v.jitter, v.passed, n);
    noted_is_there(v.jitter, v.passed, n);
    numbers_move_on(v, n, more);
    assert forall|k: u32| k < more - 1 implies !passed.contains(
        #[trigger] n.wrapping_add(1).wrapping_add(k),
    ) by {
        let m = n.wrapping_add(1).wrapping_add(k);
        assert(m != n);
        if passed.contains(m) {
            noted_was_there(v.jitter, v.passed, n, m);
        }
    }
    if v.jitter.started {
        assert(v.jitter.skipped(1).frames =~= Map::<u32, FrameView>::empty());
        assert(n.wrapping_add(1).wrapping_add(0) == n.wrapping_add(1));
        reveal_with_fuel(settled, 3);
    } else {
        settling_waits_for_start(v.jitter, passed, v.jitter.capacity as nat);
    }
}

/// What a parity brings of a group that is done when the frame before the cursor
/// came is not taken in.
proof fn parity_behind_brings_nothing(v: SessionView, base: u32, parity: Seq<u8>, last: u32)
    requires
        v.jitter.started,
        v.jitter.next == last.wrapping_add(1),
        v.jitter.capacity <= 2048,
        v.fec_dec.last == Some(last),
        v.fec_dec.window <= ahead(last, base) + 1,
    ensures
        with_parity(v, base, parity).jitter == v.jitter,
{
    let received = v.fec_dec.frames_of(base);
    if v.fec_dec.is_in(base) && exists|i: int| lone_gap(received, i) {
        let i = choose|i: int| lone_gap(received, i);
        assert(0 <= i < v.fec_dec.window);
        assert(v.jitter.next == base.wrapping_add(v.fec_dec.window as u32));
        let s = base.wrapping_add(i as u32);
        assert(ahead(s, v.jitter.next) >= 2048);
        assert(!v.jitter.accepts(s));
    }
}

/// A parity packet in its turn is passed over: the session is at the next number.
proof fn parity_in_turn(
    v: SessionView,
    n: u32,
    more: int,
    base: u32,
    parity: Seq<u8>,
    last: u32,
    packet: Seq<u8>,
    now_us: u64,
)
    requires
        at_number(v, n, more),
        2 <= more <= 0xFFFF_FFFF,
        v.jitter.started,
        v.fec_dec.last == Some(last),
        v.fec_dec.window <= ahead(last, base) + 1,
        n == last.wrapping_add(1),
        parity_reaches(packet, v.decrypt_key, v.session_id, n, base, parity),
    ensures
        ({
            let u = after_datagram(v, packet, now_us);
            &&& at_number(u, n.wrapping_add(1), more - 1)
            &&& u.jitter.started
            &&& u.decrypt_key == v.decrypt_key
            &&& u.session_id == v.session_id
            &&& u.fec_dec.window == v.fec_dec.window
        }),
{
    reveal(parity_reaches);
    let h = heard(v, packet.len(), now_us);
    parity_behind_brings_nothing(h, base, parity, last);
    let w = with_parity(h, base, parity);
    assert(at_number(w, n, more));
    passed_in_turn(w, n, more);
    assert(after_datagram(v, packet, now_us) == with_passed(w, n));
}

/// The record of one audio frame: what was sent when, the datagram, the parity
/// packet that came with it, and when they arrived.
pub struct Sending {
    pub payload: Seq<u8>,
    pub sent_us: u64,
    pub sent: usize,
    pub reported_us: u64,
    pub datagram: Seq<u8>,
    pub packet: Option<Seq<u8>>,
    pub arrival_us: u64,
    pub taken_us: u64,
    pub packet_us: u64,
}

/// The frame that a sender in this state puts on the wire.
pub open spec fn frame_of(sender: SessionView, sending: Sending) -> FrameView {
    FrameView {
        sequence: sender.tx_sequence,
        timestamp: sending.sent_us,
        payload: sending.payload,
    }
}

/// One frame is sent and reported as sent: from `before` to `after`.
#[verifier::opaque]
pub open spec fn frame_went(before: SessionView, after: SessionView, s: Sending) -> bool {
    &&& audio_wire(before, s.payload, s.sent_us) == Ok::<Seq<u8>, Error>(s.datagram)
    &&& frame_in(before.encrypt_key, before.session_id, s.datagram) == Some(frame_of(before, s))
    &&& frame_joins(
        before.sequence_used(),
        after,
        s.sent,
        before.tx_sequence,
        s.payload,
        s.reported_us,
        s.packet,
    )
}

/// A sender goes through `states` while it sends a stream.
pub open spec fn stream_went(states: Seq<SessionView>, stream: Seq<Sending>) -> bool {
    &&& states.len() == stream.len() + 1
    &&& forall|i: int|
        0 <= i < stream.len() ==> #[trigger] frame_went(states[i], states[i + 1], stream[i])
}

/// There is a key, and the parity packet of every group that the stream fills fits.
pub open spec fn parities_fit(states: Seq<SessionView>, stream: Seq<Sending>) -> bool {
    forall|i: int|
        0 <= i < stream.len() && (#[trigger] states[i]).fec_enc.fills() ==> parity_fits(
            states[i],
            stream[i].payload,
        )
}

/// A receiver that handles the datagrams in order and asks for a frame after each
/// audio packet.
pub open spec fn receiving(stream: Seq<Sending>) -> Seq<Step>
    decreases stream.len(),
{
    if stream.len() == 0 {
        Seq::empty()
    } else {
        let s = stream.last();
        let heard = receiving(stream.drop_last()).push(
            Step::Poll { datagram: s.datagram, now_us: s.arrival_us },
        ).push(Step::Take { now_us: s.taken_us });
        match s.packet {
            Some(packet) => heard.push(Step::Poll { datagram: packet, now_us: s.packet_us }),
            None => heard,
        }
    }
}

/// The frames of a stream.
pub open spec fn frames_of(states: Seq<SessionView>, stream: Seq<Sending>) -> Seq<FrameView> {
    Seq::new(stream.len(), |i: int| frame_of(states[i], stream[i]))
}

/// The group under way is not full, and lies behind the next number: it has no more
/// frames than numbers have been used since it began.
pub open spec fn group_is_behind(sender: SessionView) -> bool {
    let e = sender.fec_enc;
    &&& e.frames.len() < e.window
    &&& e.frames.len() > 0 ==> ahead(
        sender.tx_sequence,
        e.base.wrapping_add(e.frames.len() as u32),
    ) <= 0xFFFF_FF00
}

/// What holds between a sender and a receiver at the same number of a stream.
spec fn in_step(sender: SessionView, receiver: SessionView, more: int) -> bool {
    &&& at_number(receiver, sender.tx_sequence, more)
    &&& receiver.decrypt_key == sender.encrypt_key
    &&& receiver.session_id == sender.session_id
    &&& receiver.fec_dec.window == sender.fec_enc.window
    &&& group_is_behind(sender)
}

/// One frame that is sent comes out, and both ends are in step again.
proof fn one_frame_arrives(a: SessionView, b: SessionView, s: Sending, v: SessionView, more: int)
    requires
        frame_went(a, b, s),
        a.fec_enc.fills() ==> parity_fits(a, s.payload),
        in_step(a, v, more + 2),
        1 <= more,
        more + 2 <= 0xFFFF_FFFF,
    ensures
        ({
            let w = stepped(v, Step::Poll { datagram: s.datagram, now_us: s.arrival_us });
            let u = stepped(w, Step::Take { now_us: s.taken_us });
            &&& delivery(w, s.taken_us) == Some(frame_of(a, s))
            &&& match s.packet {
                Some(packet) => in_step(
                    b,
                    stepped(u, Step::Poll { datagram: packet, now_us: s.packet_us }),
                    more,
                ),
                None => in_step(b, u, more),
            }
        }),
{
    reveal(stepped);
    reveal(frame_went);
    let n = a.tx_sequence;
    audio_in_turn(v, n, more + 2, frame_of(a, s), s.datagram, s.arrival_us, s.taken_us);
    let u = after_delivery(after_datagram(v, s.datagram, s.arrival_us), s.taken_us);
    let enc = a.fec_enc;
    match s.packet {
        Some(packet) => {
            let base = enc.base_on(n);
            assert(enc.window <= ahead(n, base) + 1);
            parity_in_turn(
                u,
                n.wrapping_add(1),
                more + 1,
                base,
                parity_of(enc.frames.push(s.payload)),
                n,
                packet,
                s.packet_us,
            );
            assert(b.tx_sequence == n.wrapping_add(1).wrapping_add(1));
        },
        None => {
            assert(!enc.fills());
            assert(b.tx_sequence == n.wrapping_add(1));
        },
    }
}

/// The induction behind the law of whole streams.
proof fn stream_arrives_so_far(
    states: Seq<SessionView>,
    stream: Seq<Sending>,
    v: SessionView,
    more: int,
)
    requires
        stream_went(states, stream),
        parities_fit(states, stream),
        1 <= more,
        2 * stream.len() + more <= 0xFFFF_FFFF,
        in_step(states[0], v, 2 * stream.len() + more),
    ensures
        in_step(states[stream.len() as int], ran(v, receiving(stream)), more),
        came_out(v, receiving(stream)) == frames_of(states, stream),
    decreases stream.len(),
{
    if stream.len() == 0 {
        assert(came_out(v, receiving(stream)) =~= frames_of(states, stream));
    } else {
        let m = stream.len() - 1;
        let before = stream.drop_last();
        let prior = states.drop_last();
        assert forall|i: int| 0 <= i < before.len() implies #[trigger] frame_went(
            prior[i],
            prior[i + 1],
            before[i],
        ) by {
            assert(frame_went(states[i], states[i + 1], stream[i]));
        }
        assert forall|i: int|
            0 <= i < before.len() && (#[trigger] prior[i]).fec_enc.fills() implies parity_fits(
            prior[i],
            before[i].payload,
        ) by {
            assert(prior[i] == states[i]);
        }
        stream_arrives_so_far(prior, before, v, more + 2);
        let s = stream.last();
        assert(frame_went(states[m], states[m + 1], stream[m]));
        let steps0 = receiving(before);
        let u = ran(v, steps0);
        assert(prior[m] == states[m]);
        one_frame_arrives(states[m], states[m + 1], s, u, more);
        let steps1 = steps0.push(Step::Poll { datagram: s.datagram, now_us: s.arrival_us });
        let steps2 = steps1.push(Step::Take { now_us: s.taken_us });
        assert(steps1.drop_last() =~= steps0);
        assert(steps2.drop_last() =~= steps1);
        assert(came_out(v, steps1) == came_out(v, steps0));
        assert(came_out(v, steps2) == came_out(v, steps0).push(frame_of(states[m], s)));
        assert(frames_of(states, stream) =~= frames_of(prior, before).push(frame_of(states[m], s)));
        match s.packet {
            Some(packet) => {
                let steps3 = steps2.push(Step::Poll { datagram: packet, now_us: s.packet_us });
                assert(steps3.drop_last() =~= steps2);
                assert(came_out(v, steps3) == came_out(v, steps2));
            },
            None => {},
        }
    }
}

/// A stream arrives. A sender sends any number of audio frames. A receiver that
/// decrypts with the key that the sender encrypts with, in the same session, and
/// is at the number of the first of them, handles the datagrams, parity packets
/// among them, in order. Then all frames come out, in order, each as it was sent,
/// and none is waited for.
///
/// There has to be a key, and every full group has to fit a parity packet. Where it
/// does not, the number of that packet is used up all the same, and the receiver
/// waits for it.
pub proof fn stream_arrives(states: Seq<SessionView>, stream: Seq<Sending>, v: SessionView)
    requires
        stream_went(states, stream),
        parities_fit(states, stream),
        group_is_behind(states[0]),
        v.decrypt_key == states[0].encrypt_key,
        v.session_id == states[0].session_id,
        v.fec_dec.window == states[0].fec_enc.window,
        2 * stream.len() < 0xFFFF_FFFF,
        at_number(v, states[0].tx_sequence, 2 * stream.len() as int + 1),
    ensures
        came_out(v, receiving(stream)) == frames_of(states, stream),
        at_number(
            ran(v, receiving(stream)),
            states[stream.len() as int].tx_sequence,
            1,
        ),
{
    stream_arrives_so_far(states, stream, v, 1);
}

/// A session that has received nothing is at every number.
pub proof fn fresh_session_is_at_every_number(v: SessionView, n: u32, more: int)
    requires
        v.jitter == JitterView::fresh(v.jitter.capacity),
        0 < v.jitter.capacity <= 2048,
        v.passed == Seq::<u32>::empty(),
    ensures
        at_number(v, n, more),
{
}

/// What one frame does to the sender's parity group.
proof fn frame_joins_group(a: SessionView, b: SessionView, s: Sending)
    requires
        frame_went(a, b, s),
    ensures
        ({
            let n = a.tx_sequence;
            &&& b.fec_enc == a.fec_enc.pushed(n, s.payload)
            &&& !a.fec_enc.fills() ==> b.tx_sequence == n.wrapping_add(1)
            &&& b.config == a.config
            &&& b.encrypt_key == a.encrypt_key
        }),
{
    reveal(frame_went);
}

/// The payloads of every full group of a stream leave room for its parity packet.
pub open spec fn full_groups_fit(stream: Seq<Sending>, mtu: usize) -> bool {
    forall|i: int|
        0 <= i < stream.len() - stream.len() % FEC_WINDOW as nat ==> {
            &&& (#[trigger] stream[i]).payload.len() + 21 <= 0xFFFF
            &&& stream[i].payload.len() + 49 <= mtu
        }
}

/// A sender with no group under way fills one with every so many frames.
proof fn groups_fill_in_turn(states: Seq<SessionView>, stream: Seq<Sending>, i: int)
    requires
        stream_went(states, stream),
        states[0].fec_enc == FecEncoderView::fresh(FEC_WINDOW),
        0 <= i <= stream.len(),
    ensures
        states[i].fec_enc.window == FEC_WINDOW,
        states[i].fec_enc.frames.len() == i % FEC_WINDOW as int,
        states[i].config == states[0].config,
        states[i].encrypt_key == states[0].encrypt_key,
        forall|j: int|
            0 <= j < i % FEC_WINDOW as int ==> (#[trigger] states[i].fec_enc.frames[j])
                == stream[i - i % FEC_WINDOW as int + j].payload,
    decreases i,
{
    if i > 0 {
        groups_fill_in_turn(states, stream, i - 1);
        assert(frame_went(states[i - 1], states[i - 1 + 1], stream[i - 1]));
        frame_joins_group(states[i - 1], states[i], stream[i - 1]);
    }
}

/// With a key, payloads that leave room bring the parity packet of every full group.
pub proof fn full_groups_bring_parities(states: Seq<SessionView>, stream: Seq<Sending>)
    requires
        stream_went(states, stream),
        states[0].fec_enc == FecEncoderView::fresh(FEC_WINDOW),
        states[0].encrypt_key is Some,
        full_groups_fit(stream, states[0].config.mtu),
    ensures
        parities_fit(states, stream),
{
    assert forall|i: int|
        0 <= i < stream.len() && (#[trigger] states[i]).fec_enc.fills() implies parity_fits(
        states[i],
        stream[i].payload,
    ) by {
        groups_fill_in_turn(states, stream, i);
        let group = states[i].fec_enc.frames.push(stream[i].payload);
        let mtu = states[0].config.mtu;
        assert(stream[i].payload.len() + 49 <= mtu);
        let room: nat = if mtu - 49 < 0xFFFF - 21 {
            (mtu - 49) as nat
        } else {
            (0xFFFF - 21) as nat
        };
        assert forall|k: int| 0 <= k < group.len() implies (#[trigger] group[k]).len() <= room by {
            assert(group[k] == stream[i - 3 + k].payload);
        }
        longest_attained(group, room);
    }
}

/// From two new sessions to all frames: after a whole handshake, whatever number of
/// audio frames the client sends comes out at the server, in order and as sent. The
/// payloads of every full group have to leave room for its parity packet.
pub proof fn handshake_and_stream(
    x: Exchange,
    codec: u8,
    client_config: Config,
    server_config: Config,
    states: Seq<SessionView>,
    stream: Seq<Sending>,
)
    requires
        x.client[0] == SessionView::fresh(client_config),
        x.server[0] == SessionView::fresh(server_config),
        server_config.usable(),
        x.took_place(),
        x.hs.server() == x.server_addr,
        x.secret.len() == 32,
        client_config.mtu >= 112,
        server_config.mtu >= 112,
        chosen_codec(server_config, client_config.codec_preferred) == Some(codec),
        client_config.supported_codecs@.contains(codec),
        stream_went(states, stream),
        full_groups_fit(stream, client_config.mtu),
        states[0] == x.client[5],
        2 * stream.len() < 0xFFFF_FFFF,
    ensures
        came_out(x.server[5], receiving(stream)) == frames_of(states, stream),
{
    whole_handshake(x, codec);
    full_groups_bring_parities(states, stream);
    let v = x.server[5];
    fresh_session_is_at_every_number(v, states[0].tx_sequence, 2 * stream.len() as int + 1);
    stream_arrives(states, stream, v);
}

/// The group under way is what was sent last: its frames are the last payloads of
/// the stream, and their numbers are consecutive from its base on. So the group
/// that a frame closes is that frame and those before it.
pub proof fn group_is_what_was_sent(states: Seq<SessionView>, stream: Seq<Sending>)
    requires
        stream_went(states, stream),
        states[0].fec_enc.frames.len() == 0,
    ensures
        ({
            let len = stream.len() as int;
            let e = states[len].fec_enc;
            let k = e.frames.len() as int;
            &&& k <= len
            &&& k <= e.window
            &&& k > 0 ==> states[len].tx_sequence == e.base.wrapping_add(k as u32)
            &&& e.window == states[0].fec_enc.window
            &&& forall|j: int|
                0 <= j < k ==> (#[trigger] e.frames[j]) == stream[len - k + j].payload
                    && states[len - k + j].tx_sequence == e.base.wrapping_add(j as u32)
        }),
    decreases stream.len(),
{
    if stream.len() > 0 {
        let m = stream.len() - 1;
        let before = stream.drop_last();
        let prior = states.drop_last();
        assert forall|i: int| 0 <= i < before.len() implies #[trigger] frame_went(
            prior[i],
            prior[i + 1],
            before[i],
        ) by {
            assert(frame_went(states[i], states[i + 1], stream[i]));
        }
        group_is_what_was_sent(prior, before);
        assert(frame_went(states[m], states[m + 1], stream[m]));
        frame_joins_group(states[m], states[m + 1], stream[m]);
        let d = prior[m].fec_enc;
        assert(d == states[m].fec_enc);
        let e = states[m + 1].fec_enc;
        let k = e.frames.len() as int;
        assert forall|j: int| 0 <= j < k implies (#[trigger] e.frames[j]) == stream[m + 1 - k
            + j].payload && states[m + 1 - k + j].tx_sequence == e.base.wrapping_add(j as u32) by {
            if j < k - 1 {
                assert(e.frames[j] == d.frames[j]);
                assert(before[m - (k - 1) + j] == stream[m - (k - 1) + j]);
                assert(prior[m - (k - 1) + j] == states[m - (k - 1) + j]);
            }
        }
    }
}

/// The audio frame that a step brings to a session, if it brings one.
#[verifier::opaque]
pub open spec fn brought(v: SessionView, step: Step) -> Option<FrameView> {
    match step {
        Step::Poll { datagram, .. } => frame_in(v.decrypt_key, v.session_id, datagram),
        Step::Take { .. } => None,
    }
}

/// What a step does to the frames that the decoder of parity keeps. What a later
/// step brings depends on key and id alone, which stay.
proof fn step_feeds_decoder(v: SessionView, step: Step)
    ensures
        stepped(v, step).decrypt_key == v.decrypt_key,
        stepped(v, step).session_id == v.session_id,
        stepped(v, step).fec_dec == match brought(v, step) {
            Some(f) => v.fec_dec.with_data(f.sequence, f.payload),
            None => v.fec_dec,
        },
{
    reveal(stepped);
    reveal(brought);
}

/// What a step brings depends on key and id alone.
proof fn brought_by_key(v: SessionView, w: SessionView, step: Step)
    requires
        v.decrypt_key == w.decrypt_key,
        v.session_id == w.session_id,
    ensures
        brought(v, step) == brought(w, step),
{
    reveal(brought);
}

/// The step brings this frame.
pub open spec fn brings(v: SessionView, step: Step, sequence: u32, payload: Seq<u8>) -> bool {
    brought(v, step) matches Some(f) && f.sequence == sequence && f.payload == payload
}

/// The step leaves a group alone: a frame that it brings is one of the group as it
/// was sent, but not the lost one, or takes none of their places.
pub open spec fn leaves_group(
    v: SessionView,
    step: Step,
    base: u32,
    group: Seq<Seq<u8>>,
    lost: int,
) -> bool {
    match brought(v, step) {
        Some(f) => {
            let off = ahead(f.sequence, base);
            if off < group.len() {
                off != lost && f.payload == group[off as int]
            } else {
                off % FRAME_PLACES >= group.len()
            }
        },
        None => true,
    }
}

/// Numbers at different offsets from a base have different places.
proof fn places_differ(base: u32, i: u32, f: u32)
    requires
        i < 256,
        ahead(f, base) % FRAME_PLACES != i,
    ensures
        base.wrapping_add(i) % FRAME_PLACES != f % FRAME_PLACES,
{
    let off = ahead(f, base);
    let b = base as int;
    assert(base.wrapping_add(i) as int % 256 == (b + i) % 256);
    assert(f as int % 256 == (b + off) % 256);
    assert((b + i) % 256 == (b + off) % 256 ==> off as int % 256 == i as int);
}

/// The frames of a group that came are kept along the steps, and the lost one is
/// not among them.
proof fn group_is_kept(
    v: SessionView,
    steps: Seq<Step>,
    base: u32,
    group: Seq<Seq<u8>>,
    lost: int,
)
    requires
        0 <= lost < group.len() <= 255,
        !v.fec_dec.frames.dom().contains(base.wrapping_add(lost as u32)),
        forall|k: int|
            0 <= k < steps.len() ==> leaves_group(v, #[trigger] steps[k], base, group, lost),
    ensures
        ({
            let u = ran(v, steps);
            &&& u.decrypt_key == v.decrypt_key
            &&& u.session_id == v.session_id
            &&& u.fec_dec.window == v.fec_dec.window
            &&& !u.fec_dec.frames.dom().contains(base.wrapping_add(lost as u32))
            &&& forall|i: int, k: int|
                0 <= i < group.len() && 0 <= k < steps.len() && #[trigger] brings(
                    v,
                    steps[k],
                    base.wrapping_add(i as u32),
                    group[i],
                ) ==> u.fec_dec.has(base.wrapping_add(i as u32), group[i])
        }),
    decreases steps.len(),
{
    if steps.len() > 0 {
        let before = steps.drop_last();
        assert forall|k: int| 0 <= k < before.len() implies leaves_group(
            v,
            #[trigger] before[k],
            base,
            group,
            lost,
        ) by {
            assert(before[k] == steps[k]);
        }
        group_is_kept(v, before, base, group, lost);
        let w = ran(v, before);
        let u = ran(v, steps);
        let last = steps[steps.len() - 1];
        assert(leaves_group(v, last, base, group, lost));
        step_feeds_decoder(w, last);
        brought_by_key(v, w, last);
        match brought(v, last) {
            Some(f) => {
                let off = ahead(f.sequence, base);
                assert(f.sequence == base.wrapping_add(off));
                places_differ(base, lost as u32, f.sequence);
            },
            None => {},
        }
        assert forall|i: int, k: int|
            0 <= i < group.len() && 0 <= k < steps.len() && #[trigger] brings(
                v,
                steps[k],
                base.wrapping_add(i as u32),
                group[i],
            ) implies u.fec_dec.has(base.wrapping_add(i as u32), group[i]) by {
            let n = base.wrapping_add(i as u32);
            if k < before.len() {
                assert(before[k] == steps[k]);
                assert(brings(v, before[k], n, group[i]));
                match brought(v, last) {
                    Some(f) => {
                        if f.sequence == n {
                            assert(ahead(n, base) == i);
                        } else {
                            let off = ahead(f.sequence, base);
                            assert(f.sequence == base.wrapping_add(off));
                            assert(i != off);
                            places_differ(base, i as u32, f.sequence);
                        }
                    },
                    None => {},
                }
            } else {
                assert(steps[k] == last);
            }
        }
    }
}

/// The parity packet brings the one frame that is not there.
proof fn parity_brings_lost_frame(
    u: SessionView,
    base: u32,
    group: Seq<Seq<u8>>,
    lost: int,
    packet: Seq<u8>,
    number: u32,
    packet_us: u64,
)
    requires
        0 <= lost < group.len(),
        u.fec_dec.window == group.len(),
        u.fec_dec.last matches Some(n) && n.wrapping_sub(base) < group.len(),
        !u.fec_dec.frames.dom().contains(base.wrapping_add(lost as u32)),
        forall|i: int|
            0 <= i < group.len() && i != lost ==> #[trigger] u.fec_dec.has(
                base.wrapping_add(i as u32),
                group[i],
            ),
        parity_reaches(packet, u.decrypt_key, u.session_id, number, base, parity_of(group)),
        u.jitter.accepts(base.wrapping_add(lost as u32)),
    ensures
        ({
            let n = base.wrapping_add(lost as u32);
            let after = after_datagram(u, packet, packet_us);
            &&& after.jitter.frames.dom().contains(n)
            &&& after.jitter.frames[n] == (FrameView {
                sequence: n,
                timestamp: 0,
                payload: zero_padded(group[lost], longest(group)),
            })
        }),
{
    let n = base.wrapping_add(lost as u32);
    let h = heard(u, packet.len(), packet_us);
    decoder_restores_lost_frame(h.fec_dec, group, base, lost);
    let w = with_parity(h, base, parity_of(group));
    assert(w.jitter.frames.dom().contains(n));
    let passed = noted(w.jitter, w.passed, number);
    settling_keeps_frames(w.jitter, passed, w.jitter.capacity as nat, n);
    assert(after_datagram(u, packet, packet_us) == with_passed(w, number)) by {
        reveal(parity_reaches);
    }
}

/// A lost frame comes back. All frames of a group that a sender closed came to a
/// receiver but one, in any order, whatever else came before the last of them and
/// was taken out meanwhile, and then the parity packet comes. Then the lost frame is
/// in the jitter buffer, padded with zeros to the longest frame of its group, if the
/// stream has not gone past it.
///
/// The group may start at any number. Frames far enough away in the stream to take
/// the places of the group's frames in the decoder must not have come.
pub proof fn lost_frame_comes_back(
    v: SessionView,
    steps: Seq<Step>,
    base: u32,
    group: Seq<Seq<u8>>,
    lost: int,
    packet: Seq<u8>,
    number: u32,
    packet_us: u64,
)
    requires
        0 <= lost < group.len(),
        v.fec_dec.window == group.len(),
        !v.fec_dec.frames.dom().contains(base.wrapping_add(lost as u32)),
        forall|k: int|
            0 <= k < steps.len() ==> leaves_group(v, #[trigger] steps[k], base, group, lost),
        forall|i: int|
            0 <= i < group.len() && i != lost ==> exists|k: int|
                0 <= k < steps.len() && #[trigger] brings(
                    v,
                    steps[k],
                    base.wrapping_add(i as u32),
                    #[trigger] group[i],
                ),
        parity_reaches(packet, v.decrypt_key, v.session_id, number, base, parity_of(group)),
        ran(v, steps).fec_dec.last matches Some(n) && n.wrapping_sub(base) < group.len(),
        ({
            let j = ran(v, steps).jitter;
            !j.started || base.wrapping_add(lost as u32).wrapping_sub(j.next) < j.capacity
        }),
    ensures
        ({
            let n = base.wrapping_add(lost as u32);
            let after = after_datagram(ran(v, steps), packet, packet_us);
            &&& after.jitter.frames.dom().contains(n)
            &&& after.jitter.frames[n] == (FrameView {
                sequence: n,
                timestamp: 0,
                payload: zero_padded(group[lost], longest(group)),
            })
        }),
{
    group_is_kept(v, steps, base, group, lost);
    let u = ran(v, steps);
    assert forall|i: int| 0 <= i < group.len() && i != lost implies #[trigger] u.fec_dec.has(
        base.wrapping_add(i as u32),
        group[i],
    ) by {
        let k = choose|k: int|
            0 <= k < steps.len() && brings(
                v,
                #[trigger] steps[k],
                base.wrapping_add(i as u32),
                group[i],
            );
        assert(brings(v, steps[k], base.wrapping_add(i as u32), group[i]));
    }
    parity_brings_lost_frame(u, base, group, lost, packet, number, packet_us);
}

/// The frame under the cursor comes out at once, and the cursor moves on behind it; the
/// others wait on.
pub proof fn frame_under_the_cursor_comes_out(v: SessionView, now_us: u64, s: u32)
    requires
        v.jitter.capacity > 0,
        v.jitter.frames.dom().contains(v.jitter.next),
        v.passed.len() == 0,
    ensures
        delivery(v, now_us) == Some(v.jitter.frames[v.jitter.next]),
        ({
            let w = after_delivery(v, now_us);
            &&& w.jitter.next == v.jitter.next.wrapping_add(1)
            &&& w.last_out == now_us
            &&& w.jitter.frames.dom().contains(s) <==> v.jitter.frames.dom().contains(s) && s
                != v.jitter.next
            &&& w.jitter.frames.dom().contains(s) ==> w.jitter.frames[s] == v.jitter.frames[s]
            &&& w == (SessionView { jitter: w.jitter, last_out: now_us, ..v })
        }),
{
    no_gap_when_ready(v.jitter);
}

/// A missing frame is waited for as long as the depth of the jitter buffer; meanwhile
/// nothing comes out and nothing changes.
pub proof fn missing_frame_is_waited_for(v: SessionView, now_us: u64)
    requires
        v.jitter.capacity > 0,
        !v.jitter.frames.dom().contains(v.jitter.next),
        v.config.jitter_buffer_ms > 0,
        now_us < v.last_out + v.config.jitter_buffer_ms * 1000,
    ensures
        delivery(v, now_us) is None,
        after_delivery(v, now_us) == v,
{
    no_gap_when_ready(v.jitter);
}

/// Where nothing waits, nothing comes out, however long ago the last frame did.
pub proof fn empty_buffer_gives_nothing(v: SessionView, now_us: u64)
    requires
        v.jitter.frames == Map::<u32, FrameView>::empty(),
    ensures
        delivery(v, now_us) is None,
        after_delivery(v, now_us) == v,
{
    gap_leads_to_next_frame(v.jitter, 0);
}

/// After the depth of the jitter buffer has passed, the stream goes on with the nearest
/// frame that waits. The frames behind it wait on, and the cursor stands behind it, and
/// behind what is known to carry no audio.
pub proof fn nearest_frame_comes_out(v: SessionView, now_us: u64, d: u32)
    requires
        v.jitter.started,
        d < v.jitter.capacity <= 2048,
        v.jitter.frames.dom().contains(v.jitter.next.wrapping_add(d)),
        forall|k: u32|
            k < d ==> !v.jitter.frames.dom().contains(#[trigger] v.jitter.next.wrapping_add(k)),
        v.config.jitter_buffer_ms == 0 || now_us >= v.last_out + v.config.jitter_buffer_ms * 1000,
    ensures
        ({
            let n = v.jitter.next.wrapping_add(d);
            let w = after_delivery(v, now_us);
            &&& delivery(v, now_us) == Some(v.jitter.frames[n])
            &&& w.last_out == now_us
            &&& w == (SessionView { jitter: w.jitter, last_out: now_us, ..v })
            &&& !v.passed.contains(n.wrapping_add(1)) ==> w.jitter.next == n.wrapping_add(1)
            &&& forall|s: u32|
                s != n ==> (#[trigger] w.jitter.frames.dom().contains(s)
                    <==> v.jitter.frames.dom().contains(s) && s.wrapping_sub(v.jitter.next) >= d)
            &&& !w.jitter.frames.dom().contains(n)
        }),
{
    let j = v.jitter;
    let n = j.next.wrapping_add(d);
    gap_leads_to_next_frame(j, 0);
    assert(j.gap(0) == d) by {
        if j.gap(0) < d {
            assert(!j.frames.dom().contains(j.next.wrapping_add(j.gap(0))));
        } else if j.gap(0) > d {
            assert(!j.frames.dom().contains(j.next.wrapping_add(d)));
        }
    }
    assert(ahead(n, j.next) == d);
    if d == 0 {
        assert(j.next.wrapping_add(0) == j.next);
    }
    let t = if d > 0 {
        j.skipped(d)
    } else {
        j
    };
    let u = t.popped();
    let k = cursor_settles(u, v.passed, j.capacity as nat);
    assert(u.next.wrapping_add(0) == u.next);
    if k > 0 {
        assert(v.passed.contains(u.next.wrapping_add(0)));
    }
}

/// The number of a parity packet is not waited for, even where the packet overtakes the
/// frame before it: when that frame has come out, the cursor stands behind both.
pub proof fn number_of_parity_is_not_waited_for(v: SessionView, frame: FrameView, now_us: u64)
    requires
        v.jitter.started,
        2 <= v.jitter.capacity <= 2048,
        v.jitter.frames == Map::<u32, FrameView>::empty(),
        v.passed.len() == 0,
        frame.sequence == v.jitter.next,
    ensures
        ({
            let n = v.jitter.next.wrapping_add(1);
            let noted = with_passed(v, n);
            let came = with_frame(noted, frame);
            &&& noted.jitter == v.jitter
            &&& delivery(came, now_us) == Some(frame)
            &&& after_delivery(came, now_us).jitter.next == n.wrapping_add(1)
        }),
{
    let n = v.jitter.next.wrapping_add(1);
    let passed = noted(v.jitter, v.passed, n);
    assert(passed =~= seq![n]) by {
        assert(v.passed =~= Seq::empty());
    }
    assert(!passed.contains(v.jitter.next));
    let w = with_passed(v, n);
    let came = with_frame(w, frame);
    no_gap_when_ready(came.jitter);
    let j = came.jitter.popped();
    assert(j.frames =~= Map::<u32, FrameView>::empty());
    assert(passed[0] == n);
    assert(passed.contains(j.next));
    assert(!passed.contains(n.wrapping_add(1)));
    reveal_with_fuel(settled, 3);
}

/// Which numbers are known to carry no audio: the one that was learned last, and of those
/// known before the ones that the cursor has not passed and that are less than the
/// capacity ahead.
pub proof fn numbers_known(j: JitterView, passed: Seq<u32>, sequence: u32, n: u32)
    ensures
        noted(j, passed, sequence).contains(n) <==> n == sequence || (passed.contains(n)
            && n.wrapping_sub(j.next) < j.capacity),
{
    let kept = still_ahead(j, passed);
    let list = noted(j, passed, sequence);
    still_ahead_exactly(j, passed, n);
    noted_is_there(j, passed, sequence);
    if list.contains(n) {
        if n != sequence {
            let i = choose|i: int| 0 <= i < list.len() && list[i] == n;
            assert(kept[i] == n);
        }
    }
    if kept.contains(n) {
        let i = choose|i: int| 0 <= i < kept.len() && kept[i] == n;
        assert(list[i] == n);
    }
}

/// Which numbers of a list are kept.
proof fn still_ahead_exactly(j: JitterView, passed: Seq<u32>, n: u32)
    ensures
        still_ahead(j, passed).contains(n) <==> passed.contains(n) && ahead(n, j.next) < j.capacity,
    decreases passed.len(),
{
    if passed.len() > 0 {
        let t = passed.drop_last();
        let kept = still_ahead(j, t);
        let all = still_ahead(j, passed);
        still_ahead_exactly(j, t, n);
        if passed.contains(n) {
            let i = choose|i: int| 0 <= i < passed.len() && passed[i] == n;
            if i < t.len() {
                assert(t[i] == n);
            }
        }
        if t.contains(n) {
            let i = choose|i: int| 0 <= i < t.len() && t[i] == n;
            assert(passed[i] == n);
        }
        if kept.contains(n) {
            let i = choose|i: int| 0 <= i < kept.len() && kept[i] == n;
            assert(all[i] == n);
        }
        if ahead(passed.last(), j.next) < j.capacity {
            assert(all[all.len() - 1] == passed.last());
            if all.contains(n) {
                let i = choose|i: int| 0 <= i < all.len() && all[i] == n;
                if i < kept.len() {
                    assert(kept[i] == n);
                } else {
                    assert(passed[passed.len() - 1] == n);
                }
            }
        }
    }
}

/// The cursor passes over the numbers that carry no audio, one after the other, and over
/// no other: it stops where a frame waits or where one can still come. No frame is lost.
pub proof fn cursor_settles(j: JitterView, passed: Seq<u32>, n: nat) -> (k: nat)
    requires
        j.started,
        n <= 2048,
    ensures
        k <= n,
        settled(j, passed, n).next == j.next.wrapping_add(k as u32),
        settled(j, passed, n).frames == j.frames,
        settled(j, passed, n).capacity == j.capacity,
        settled(j, passed, n).started,
        forall|i: u32|
            i < k ==> passed.contains(#[trigger] j.next.wrapping_add(i)) && !j.frames.dom().contains(
                j.next.wrapping_add(i),
            ),
        k < n ==> j.frames.dom().contains(j.next.wrapping_add(k as u32)) || !passed.contains(
            j.next.wrapping_add(k as u32),
        ),
    decreases n,
{
    if n > 0 && !j.ready() && passed.contains(j.next) {
        let t = j.skipped(1);
        assert(t.frames =~= j.frames);
        let m = cursor_settles(t, passed, (n - 1) as nat);
        assert forall|i: u32| i < m + 1 implies passed.contains(#[trigger] j.next.wrapping_add(i))
            && !j.frames.dom().contains(j.next.wrapping_add(i)) by {
            if i > 0 {
                let h = (i - 1) as u32;
                assert(t.next.wrapping_add(h) == j.next.wrapping_add(i));
            } else {
                assert(j.next.wrapping_add(0) == j.next);
            }
        }
        assert(t.next.wrapping_add(m as u32) == j.next.wrapping_add((m + 1) as u32));
        m + 1
    } else {
        assert(j.next.wrapping_add(0) == j.next);
        0
    }
}

/// Learning that a number carries no audio moves the cursor over it if it is next, and
/// over what is known to carry none behind it; a frame that comes out does the same. The
/// frames that wait stay.
pub proof fn learning_moves_the_cursor(v: SessionView, sequence: u32, now_us: u64)
    requires
        v.jitter.started,
        0 < v.jitter.capacity <= 2048,
    ensures
        ({
            let w = with_passed(v, sequence);
            &&& w.jitter.frames == v.jitter.frames
            &&& sequence == v.jitter.next && !v.jitter.frames.dom().contains(sequence)
                ==> w.jitter.next != sequence
            &&& v.jitter.frames.dom().contains(v.jitter.next) ==> w.jitter.next == v.jitter.next
            &&& w == (SessionView { jitter: w.jitter, passed: w.passed, ..v })
        }),
        v.jitter.frames.dom().contains(v.jitter.next) ==> {
            let u = after_delivery(v, now_us);
            &&& delivery(v, now_us) == Some(v.jitter.frames[v.jitter.next])
            &&& u.jitter.frames == v.jitter.frames.remove(v.jitter.next)
            &&& u.passed == v.passed
            &&& u.last_out == now_us
            &&& !v.passed.contains(v.jitter.next.wrapping_add(1)) ==> u.jitter.next
                == v.jitter.next.wrapping_add(1)
            &&& v.passed.contains(v.jitter.next.wrapping_add(1)) && !v.jitter.frames.dom().contains(
                v.jitter.next.wrapping_add(1),
            ) ==> u.jitter.next != v.jitter.next.wrapping_add(1)
        },
{
    let passed = noted(v.jitter, v.passed, sequence);
    noted_is_there(v.jitter, v.passed, sequence);
    let n = v.jitter.capacity as nat;
    let k = cursor_settles(v.jitter, passed, n);
    assert(v.jitter.next.wrapping_add(0) == v.jitter.next);
    if k > 0 {
        assert(!v.jitter.frames.dom().contains(v.jitter.next.wrapping_add(0)));
    }
    if v.jitter.ready() {
        no_gap_when_ready(v.jitter);
        let j = v.jitter.popped();
        let m = cursor_settles(j, v.passed, n);
        assert(j.next.wrapping_add(0) == j.next);
        if m > 0 {
            assert(v.passed.contains(j.next.wrapping_add(0)));
        }
    }
}

/// Before the first audio frame a number that carries none moves no cursor: the first
/// frame sets it, whatever its number.
pub proof fn first_frame_sets_the_cursor(v: SessionView, sequence: u32, frame: FrameView, now_us: u64)
    requires
        !v.jitter.started,
        v.jitter.capacity > 0,
    ensures
        with_passed(v, sequence).jitter == v.jitter,
        delivery(with_frame(with_passed(v, sequence), frame), now_us) == Some(frame),
{
    let passed = noted(v.jitter, v.passed, sequence);
    settling_waits_for_start(v.jitter, passed, v.jitter.capacity as nat);
    frame_in_turn_comes_out(with_passed(v, sequence), frame, now_us);
}

} // verus!
