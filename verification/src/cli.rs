//! Decisions of the command line tool: codecs, frames, HTTP texts, the simple
//! relay and the benchmark.
use std::collections::HashMap;

use vstd::prelude::*;
use vstd::utf8::{decode_utf8, encode_utf8, valid_utf8};

use crate::addr::SocketAddress;
use crate::packet::{packet_of, PacketView};
use crate::text::{
    chars_of, decimal, push_decimal, same_text, skip_back, skip_front, string_of, trimmed,
};

verus! {

/// Codec of the audio.
#[derive(Debug, Clone, Copy, PartialEq, Eq, Structural)]
pub enum CodecId {
    Pcm,
    Opus,
}

impl CodecId {
    /// Number of the codec in the handshake.
    pub fn code(self) -> (r: u8)
        ensures
            r == match self {
                CodecId::Pcm => 1u8,
                CodecId::Opus => 2u8,
            },
    {
        match self {
            CodecId::Pcm => 1,
            CodecId::Opus => 2,
        }
    }
}

/// Codec as it is named on the command line.
#[derive(Debug, Clone, Copy, PartialEq, Eq, Structural)]
pub enum CodecArg {
    Pcm,
    Opus,
}

impl CodecArg {
    /// The codec that is named.
    pub fn to_codec_id(self) -> (r: CodecId)
        ensures
            r == match self {
                CodecArg::Pcm => CodecId::Pcm,
                CodecArg::Opus => CodecId::Opus,
            },
    {
        match self {
            CodecArg::Pcm => CodecId::Pcm,
            CodecArg::Opus => CodecId::Opus,
        }
    }

    /// Reads the name of a codec.
    pub fn parse(s: &str) -> (r: Result<CodecArg, String>)
        ensures
            match r {
                Ok(CodecArg::Pcm) => s@ == "pcm"@,
                Ok(CodecArg::Opus) => s@ == "opus"@ && s@ != "pcm"@,
                Err(e) => s@ != "pcm"@ && s@ != "opus"@ && e@ == "unknown codec '"@ + s@ + "'"@,
            },
    {
        let chars: Vec<char> = chars_of(s);
        if same_text(&chars, "pcm") {
            Ok(CodecArg::Pcm)
        } else if same_text(&chars, "opus") {
            Ok(CodecArg::Opus)
        } else {
            let mut e: String = "unknown codec '".to_owned();
            e.append(s);
            e.append("'");
            Err(e)
        }
    }
}

/// Samples of one frame over all channels.
pub fn samples_per_frame(sample_rate: u32, frame_duration_ms: u8, channels: u8) -> (r: usize)
    requires
        sample_rate * frame_duration_ms <= usize::MAX,
        sample_rate * frame_duration_ms / 1000 * channels <= usize::MAX,
    ensures
        r == sample_rate * frame_duration_ms / 1000 * channels,
{
    (sample_rate as usize * frame_duration_ms as usize) / 1000 * channels as usize
}

/// Frames in `duration_s` seconds.
pub fn total_frames(duration_s: u64, frame_duration_ms: u8) -> (r: u64)
    requires
        duration_s * frames_per_second(frame_duration_ms) <= u64::MAX,
    ensures
        r == duration_s * frames_per_second(frame_duration_ms),
{
    let ms: u64 = if frame_duration_ms == 0 {
        1
    } else {
        frame_duration_ms as u64
    };
    duration_s * (1000 / ms)
}

/// Whole frames in a second; a frame of zero length counts as one of 1 ms.
pub open spec fn frames_per_second(frame_duration_ms: u8) -> int {
    if frame_duration_ms == 0 {
        1000
    } else {
        1000int / frame_duration_ms as int
    }
}

/// Takes the next frame off the front of the samples; the last one may be short.
pub fn next_frame(samples: &mut Vec<i16>, per_frame: usize) -> (r: Option<Vec<i16>>)
    ensures
        match r {
            Some(frame) => {
                &&& old(samples)@.len() > 0
                &&& frame@ + final(samples)@ == old(samples)@
                &&& frame@.len() == if per_frame < old(samples)@.len() {
                    per_frame as nat
                } else {
                    old(samples)@.len()
                }
            },
            None => old(samples)@.len() == 0 && final(samples)@ == old(samples)@,
        },
{
    if samples.len() == 0 {
        return None;
    }
    let take: usize = if per_frame < samples.len() {
        per_frame
    } else {
        samples.len()
    };
    let ghost before = samples@;
    let rest: Vec<i16> = samples.split_off(take);
    let frame: Vec<i16> = vstd::slice::slice_to_vec(samples.as_slice());
    *samples = rest;
    assert(frame@ + samples@ =~= before);
    Some(frame)
}

/// The text of a GET request.
pub open spec fn get_request(host: Seq<char>, port: u16, path: Seq<char>) -> Seq<char> {
    "GET "@ + path + " HTTP/1.1\r\nHost: "@ + host + ":"@ + decimal(port as nat)
        + "\r\nConnection: close\r\n\r\n"@
}

/// Builds a GET request.
pub fn http_get_request(host: &str, port: u16, path: &str) -> (r: String)
    ensures
        r@ == get_request(host@, port, path@),
{
    let mut s: String = "GET ".to_owned();
    s.append(path);
    s.append(" HTTP/1.1\r\nHost: ");
    s.append(host);
    s.append(":");
    push_decimal(&mut s, port as u64);
    s.append("\r\nConnection: close\r\n\r\n");
    s
}

/// The text of a POST request with a JSON body of `len` bytes.
pub open spec fn post_request(
    host: Seq<char>,
    port: u16,
    path: Seq<char>,
    body: Seq<char>,
    len: nat,
) -> Seq<char> {
    "POST "@ + path + " HTTP/1.1\r\nHost: "@ + host + ":"@ + decimal(port as nat)
        + "\r\nContent-Type: application/json\r\nContent-Length: "@ + decimal(len)
        + "\r\nConnection: close\r\n\r\n"@ + body
}

/// Builds a POST request.
pub fn http_post_request(host: &str, port: u16, path: &str, body: &str) -> (r: String)
    ensures
        r@ == post_request(host@, port, path@, body@, encode_utf8(body@).len()),
{
    let mut s: String = "POST ".to_owned();
    s.append(path);
    s.append(" HTTP/1.1\r\nHost: ");
    s.append(host);
    s.append(":");
    push_decimal(&mut s, port as u64);
    s.append("\r\nContent-Type: application/json\r\nContent-Length: ");
    push_decimal(&mut s, body.as_bytes().len() as u64);
    s.append("\r\nConnection: close\r\n\r\n");
    s.append(body);
    s
}

/// Builds the body of a request to name a session.
pub fn create_room_body(session_id: u32) -> (r: String)
    ensures
        r@ == "{\"session_id\":"@ + decimal(session_id as nat) + "}"@,
{
    let mut s: String = "{\"session_id\":".to_owned();
    push_decimal(&mut s, session_id as u64);
    s.append("}");
    s
}

/// Builds the path of a room.
pub fn room_path(code: &str) -> (r: String)
    ensures
        r@ == "/api/rooms/"@ + code@,
{
    let mut s: String = "/api/rooms/".to_owned();
    s.append(code);
    s
}

/// A blank line stands at `i`.
pub open spec fn blank_line_at(raw: Seq<u8>, i: int) -> bool {
    0 <= i && i + 4 <= raw.len() && raw[i] == 13 && raw[i + 1] == 10 && raw[i + 2] == 13 && raw[i
        + 3] == 10
}

/// The body begins at `start`: right behind the first blank line.
pub open spec fn body_at(raw: Seq<u8>, start: int) -> bool {
    &&& blank_line_at(raw, start - 4)
    &&& forall|j: int| 0 <= j < start - 4 ==> !#[trigger] blank_line_at(raw, j)
}

/// What `String::from_utf8_lossy` makes of bytes.
pub uninterp spec fn lossy_text(bytes: Seq<u8>) -> Seq<char>;

/// `String::from_utf8_lossy`: a function of the bytes; valid UTF-8 is decoded as
/// it is. What stands in for other bytes is left unsaid.
#[verifier::external_body]
fn from_utf8_lossy(bytes: &[u8]) -> (r: String)
    ensures
        r@ == lossy_text(bytes@),
        valid_utf8(bytes@) ==> r@ == decode_utf8(bytes@),
{
    String::from_utf8_lossy(bytes).into_owned()
}

/// A text without the white space around it.
pub fn trimmed_text(text: &str) -> (r: String)
    ensures
        r@ == trimmed(text@),
{
    let chars: Vec<char> = chars_of(text);
    let from: usize = skip_front(&chars, 0, chars.len());
    let to: usize = skip_back(&chars, from, chars.len());
    assert(chars@.subrange(0, chars@.len() as int) =~= chars@);
    string_of(vstd::slice::slice_subrange(&chars, from, to))
}

/// Finds where the body of a response begins.
pub fn find_body(raw: &[u8]) -> (r: Option<usize>)
    ensures
        match r {
            Some(start) => start <= raw@.len() && body_at(raw@, start as int),
            None => forall|j: int| !#[trigger] blank_line_at(raw@, j),
        },
{
    let mut i: usize = 0;
    while i < raw.len() && raw.len() - i >= 4
        invariant
            i <= raw@.len(),
            forall|j: int| 0 <= j < i ==> !#[trigger] blank_line_at(raw@, j),
        decreases raw@.len() - i,
    {
        if raw[i] == 13 && raw[i + 1] == 10 && raw[i + 2] == 13 && raw[i + 3] == 10 {
            assert(blank_line_at(raw@, i as int));
            return Some(i + 4);
        }
        i = i + 1;
    }
    None
}

/// The text of the body of a raw HTTP response, without the white space around
/// it.
pub fn extract_http_body(raw: &[u8]) -> (r: Result<String, &'static str>)
    ensures
        match r {
            Ok(text) => exists|start: int|
                0 <= start <= raw@.len() && #[trigger] body_at(raw@, start) && text@ == trimmed(
                    lossy_text(raw@.subrange(start, raw@.len() as int)),
                ) && (valid_utf8(raw@.subrange(start, raw@.len() as int)) ==> text@ == trimmed(
                    decode_utf8(raw@.subrange(start, raw@.len() as int)),
                )),
            Err(e) => {
                &&& forall|j: int| !#[trigger] blank_line_at(raw@, j)
                &&& e@ == "malformed HTTP response (no header separator)"@
            },
        },
{
    match find_body(raw) {
        Some(start) => {
            let body: &[u8] = vstd::slice::slice_subrange(raw, start, raw.len());
            let text: String = from_utf8_lossy(body);
            Ok(trimmed_text(text.as_str()))
        },
        None => Err("malformed HTTP response (no header separator)"),
    }
}

/// The two peers of a session: the first, and the second once it is known.
#[derive(Debug, Clone, Copy, PartialEq, Eq, Structural)]
pub struct EchoPair {
    pub first: SocketAddress,
    pub second: Option<SocketAddress>,
}

/// Who is known in a session after a packet from `from`: the first two peers.
pub open spec fn pair_with(known: Option<EchoPair>, from: SocketAddress) -> EchoPair {
    match known {
        None => EchoPair { first: from, second: None },
        Some(pair) => if pair.second is None && from != pair.first {
            EchoPair { first: pair.first, second: Some(from) }
        } else {
            pair
        },
    }
}

/// Where a packet from `from` goes: from the first peer to the second, if that is
/// known, and from anyone else to the first.
pub open spec fn echo_target(known: Option<EchoPair>, from: SocketAddress) -> Option<
    SocketAddress,
> {
    match known {
        None => None,
        Some(pair) => if from == pair.first {
            pair.second
        } else {
            Some(pair.first)
        },
    }
}

/// Packets pass both ways: once two peers have each sent a packet, a packet of
/// either goes to the other, and both stay known.
pub proof fn echo_passes_both_ways(a: SocketAddress, b: SocketAddress)
    requires
        a != b,
    ensures
        ({
            let one = pair_with(None, a);
            let both = pair_with(Some(one), b);
            &&& echo_target(Some(one), b) == Some(a)
            &&& echo_target(Some(both), a) == Some(b)
            &&& echo_target(Some(both), b) == Some(a)
            &&& forall|from: SocketAddress| #[trigger] pair_with(Some(both), from) == both
        }),
{
}

/// A relay between the two peers of each session.
pub struct EchoRelay {
    routes: HashMap<u32, EchoPair>,
}

impl EchoRelay {
    /// The peers known in each session.
    pub closed spec fn pairs(self) -> Map<u32, EchoPair> {
        self.routes@
    }

    /// The peers known in a session, if any is.
    pub open spec fn known(self, session_id: u32) -> Option<EchoPair> {
        if self.pairs().dom().contains(session_id) {
            Some(self.pairs()[session_id])
        } else {
            None
        }
    }

    /// A relay that knows no one.
    pub fn new() -> (r: EchoRelay)
        ensures
            r.pairs() == Map::<u32, EchoPair>::empty(),
    {
        EchoRelay { routes: HashMap::new() }
    }

    /// Says where a datagram goes: to the other peer of its session, if there is
    /// one. What is no packet goes nowhere.
    pub fn route(&mut self, datagram: &[u8], from: SocketAddress) -> (r: Option<SocketAddress>)
        ensures
            match packet_of(datagram@) {
                Ok((h, _)) => {
                    &&& r == echo_target(old(self).known(h.session_id), from)
                    &&& final(self).pairs() == old(self).pairs().insert(
                        h.session_id,
                        pair_with(old(self).known(h.session_id), from),
                    )
                },
                Err(_) => r is None && final(self).pairs() == old(self).pairs(),
            },
    {
        broadcast use vstd::std_specs::hash::group_hash_axioms;

        let sid: u32 = match PacketView::decode(datagram) {
            Ok(view) => view.header().session_id,
            Err(_) => return None,
        };
        let (pair, target): (EchoPair, Option<SocketAddress>) = match self.routes.get(&sid) {
            Some(known) => {
                if known.first == from {
                    (*known, known.second)
                } else if known.second.is_none() {
                    (EchoPair { first: known.first, second: Some(from) }, Some(known.first))
                } else {
                    (*known, Some(known.first))
                }
            },
            None => (EchoPair { first: from, second: None }, None),
        };
        self.routes.insert(sid, pair);
        target
    }
}

/// Keeps the pace of a stream: from the deadline of the last frame to that of the
/// next, and how long to wait for it, in us. A deadline in the past is not waited
/// for.
pub fn pace(deadline_us: u64, period_us: u64, now_us: u64) -> (r: (u64, u64))
    ensures
        r.0 == if deadline_us + period_us <= u64::MAX {
            deadline_us + period_us
        } else {
            u64::MAX as int
        },
        r.1 == if r.0 > now_us {
            r.0 - now_us
        } else {
            0
        },
{
    let next: u64 = deadline_us.saturating_add(period_us);
    (next, next.saturating_sub(now_us))
}

/// Timings of a benchmark, in ns.
#[derive(Debug, Clone, Copy, PartialEq, Eq, Structural)]
pub struct BenchStats {
    pub iters: u64,
    pub sum_ns: u128,
    pub max_ns: u128,
}

impl BenchStats {
    /// No run yet.
    pub fn new() -> (r: BenchStats)
        ensures
            r == (BenchStats { iters: 0, sum_ns: 0, max_ns: 0 }),
    {
        BenchStats { iters: 0, sum_ns: 0, max_ns: 0 }
    }

    /// Adds a run.
    pub fn record(&mut self, elapsed_ns: u128)
        requires
            old(self).iters < u64::MAX,
            old(self).sum_ns + elapsed_ns <= u128::MAX,
        ensures
            final(self).iters == old(self).iters + 1,
            final(self).sum_ns == old(self).sum_ns + elapsed_ns,
            final(self).max_ns == if elapsed_ns > old(self).max_ns {
                elapsed_ns
            } else {
                old(self).max_ns
            },
    {
        self.sum_ns = self.sum_ns + elapsed_ns;
        if elapsed_ns > self.max_ns {
            self.max_ns = elapsed_ns;
        }
        self.iters = self.iters + 1;
    }

    /// The mean of all runs, rounded down; the sum itself without a run.
    pub fn average_ns(&self) -> (r: u128)
        ensures
            r == if self.iters == 0 {
                self.sum_ns
            } else {
                self.sum_ns / self.iters as u128
            },
    {
        if self.iters == 0 {
            self.sum_ns
        } else {
            self.sum_ns / self.iters as u128
        }
    }
}

/// The first peer of a session is heard by no one until there is a second; a third is
/// heard by the first, and displaces no one.
pub proof fn echo_keeps_two_peers(a: SocketAddress, b: SocketAddress, c: SocketAddress)
    requires
        a != b,
        c != a,
    ensures
        echo_target(None, a) is None,
        pair_with(None, a) == (EchoPair { first: a, second: None }),
        echo_target(Some(EchoPair { first: a, second: None }), a) is None,
        pair_with(Some(EchoPair { first: a, second: None }), a) == (EchoPair {
            first: a,
            second: None,
        }),
        pair_with(Some(EchoPair { first: a, second: None }), b) == (EchoPair {
            first: a,
            second: Some(b),
        }),
        echo_target(Some(EchoPair { first: a, second: Some(b) }), c) == Some(a),
        pair_with(Some(EchoPair { first: a, second: Some(b) }), c) == (EchoPair {
            first: a,
            second: Some(b),
        }),
{
}

/// The frames of a second fill it, but for less than one frame.
pub proof fn frames_fill_a_second(frame_duration_ms: u8)
    requires
        frame_duration_ms > 0,
    ensures
        frames_per_second(frame_duration_ms) * frame_duration_ms <= 1000,
        1000 < (frames_per_second(frame_duration_ms) + 1) * frame_duration_ms,
        frames_per_second(0) == 1000,
{
    let d = frame_duration_ms as int;
    let n = 1000int / d;
    assert(n * d <= 1000 && 1000 < (n + 1) * d) by (nonlinear_arith)
        requires
            d > 0,
            n == 1000int / d,
    ;
}

/// A body begins right behind the first blank line, which is two line ends in a row:
/// what stands before it holds none.
pub proof fn body_follows_the_blank_line(head: Seq<u8>, body: Seq<u8>)
    requires
        forall|j: int| 0 <= j < head.len() ==> head[j] != 13,
    ensures
        body_at(head + seq![13u8, 10, 13, 10] + body, head.len() as int + 4),
{
    let raw = head + seq![13u8, 10, 13, 10] + body;
    let n = head.len() as int;
    assert(raw[n] == 13 && raw[n + 1] == 10 && raw[n + 2] == 13 && raw[n + 3] == 10);
    assert forall|j: int| 0 <= j < n implies !#[trigger] blank_line_at(raw, j) by {
        assert(raw[j] == head[j]);
    }
}

/// A request ends in a blank line, behind which the body follows as it is; a request
/// without one ends there.
pub proof fn requests_end_their_head(
    host: Seq<char>,
    port: u16,
    path: Seq<char>,
    body: Seq<char>,
    len: nat,
)
    ensures
        ({
            let blank = seq!['\r', '\n', '\r', '\n'];
            let get = get_request(host, port, path);
            let head = post_request(host, port, path, Seq::empty(), len);
            &&& get.len() >= 4 && get.skip(get.len() - 4) == blank
            &&& head.len() >= 4 && head.skip(head.len() - 4) == blank
            &&& post_request(host, port, path, body, len) == head + body
            &&& get.take(4 + path.len() as int) == "GET "@ + path
            &&& head.take(5 + path.len() as int) == "POST "@ + path
        }),
{
    reveal_strlit("GET ");
    reveal_strlit("POST ");
    reveal_strlit("\r\nConnection: close\r\n\r\n");
    let blank = seq!['\r', '\n', '\r', '\n'];
    let get = get_request(host, port, path);
    let head = post_request(host, port, path, Seq::empty(), len);
    assert(get.skip(get.len() - 4) =~= blank);
    assert(head.skip(head.len() - 4) =~= blank);
    assert(post_request(host, port, path, body, len) =~= head + body);
    assert(get.take(4 + path.len() as int) =~= "GET "@ + path);
    assert(head.take(5 + path.len() as int) =~= "POST "@ + path);
}

/// The time of a frame is one period behind that of the one before, and is waited for
/// unless it has passed.
pub proof fn frames_keep_their_period(deadline_us: u64, period_us: u64, now_us: u64, r: (u64, u64))
    requires
        call_ensures(pace, (deadline_us, period_us, now_us), r),
        deadline_us + period_us <= u64::MAX,
    ensures
        r.0 == deadline_us + period_us,
        now_us >= r.0 ==> r.1 == 0,
        now_us < r.0 ==> now_us + r.1 == r.0,
{
}

/// Cutting samples into frames loses none and adds none: what is taken and what is left
/// make up what was there, and only the last frame is short.
pub proof fn cutting_loses_no_sample(samples: &mut Vec<i16>, per_frame: usize, r: Option<Vec<i16>>)
    requires
        call_ensures(next_frame, (samples, per_frame), r),
    ensures
        r is Some <==> old(samples)@.len() > 0,
        r matches Some(f) ==> f@ + final(samples)@ == old(samples)@,
        r matches Some(f) ==> (old(samples)@.len() >= per_frame ==> f@.len() == per_frame),
        r matches Some(f) ==> (old(samples)@.len() < per_frame ==> final(samples)@.len() == 0),
{
    if let Some(f) = r {
        assert((f@ + final(samples)@).len() == old(samples)@.len());
    }
}

/// Frames in numbers: the samples of a frame are its share of the rate over all
/// channels, and as many whole frames fill a second as fit.
pub proof fn frames_in_numbers(
    sample_rate: u32,
    ms: u8,
    channels: u8,
    duration_s: u64,
    samples: usize,
    frames: u64,
)
    requires
        call_ensures(samples_per_frame, (sample_rate, ms, channels), samples),
        call_ensures(total_frames, (duration_s, ms), frames),
        ms > 0,
    ensures
        samples == sample_rate * ms / 1000 * channels,
        frames == duration_s * (1000int / ms as int),
{
}

/// A codec is read by its name and has its number; any other name is refused.
pub proof fn codecs_by_name(s: &str, r: Result<CodecArg, String>, arg: CodecArg, id: CodecId, n: u8)
    requires
        call_ensures(CodecArg::parse, (s,), r),
        call_ensures(CodecArg::to_codec_id, (arg,), id),
        call_ensures(CodecId::code, (id,), n),
    ensures
        s@ == "pcm"@ ==> r == Ok::<CodecArg, String>(CodecArg::Pcm),
        s@ == "opus"@ ==> r == Ok::<CodecArg, String>(CodecArg::Opus),
        s@ != "pcm"@ && s@ != "opus"@ ==> r is Err,
        arg == CodecArg::Pcm ==> n == 1,
        arg == CodecArg::Opus ==> n == 2,
{
    reveal_strlit("pcm");
    reveal_strlit("opus");
    assert("pcm"@.len() == 3 && "opus"@.len() == 4);
}

/// The mean of runs is their sum by their number, rounded down, and the worst is never
/// below any.
pub proof fn runs_are_summed(b: &mut BenchStats, elapsed_ns: u128, s: &BenchStats, mean: u128)
    requires
        call_ensures(BenchStats::record, (b, elapsed_ns), ()),
        call_ensures(BenchStats::average_ns, (s,), mean),
        s.iters > 0,
    ensures
        final(b).iters == old(b).iters + 1,
        final(b).sum_ns == old(b).sum_ns + elapsed_ns,
        final(b).max_ns >= elapsed_ns && final(b).max_ns >= old(b).max_ns,
        final(b).max_ns == elapsed_ns || final(b).max_ns == old(b).max_ns,
        mean == s.sum_ns as int / s.iters as int,
{
}

/// A datagram of a session goes to its other peer, and its sender is known from then on;
/// what is no packet goes nowhere. Other sessions are not touched.
pub proof fn echo_goes_to_the_other_peer(
    e: &mut EchoRelay,
    datagram: &[u8],
    from: SocketAddress,
    r: Option<SocketAddress>,
    other: u32,
)
    requires
        call_ensures(EchoRelay::route, (e, datagram, from), r),
    ensures
        packet_of(datagram@) is Err ==> r is None && final(e).pairs() == old(e).pairs(),
        packet_of(datagram@) matches Ok((h, _)) ==> {
            let known = old(e).pairs();
            let id = h.session_id;
            &&& !known.dom().contains(id) ==> r is None && final(e).pairs()[id] == (EchoPair {
                first: from,
                second: None,
            })
            &&& known.dom().contains(id) && known[id].first != from ==> r == Some(known[id].first)
            &&& known.dom().contains(id) && known[id].first == from ==> r == known[id].second
            &&& final(e).pairs().dom().contains(id)
            &&& other != id ==> final(e).pairs().dom().contains(other) == known.dom().contains(other)
            &&& other != id && known.dom().contains(other) ==> final(e).pairs()[other]
                == known[other]
        },
{
}

} // verus!
