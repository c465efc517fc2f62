//! HTTP interface of the relay: health, metrics and rooms.
//!
//! - `GET  /healthz`            health check
//! - `GET  /metrics`            the counters
//! - `POST /api/rooms`          name a session; body `{"session_id":N}`
//! - `GET  /api/rooms`          all rooms
//! - `GET  /api/rooms/{code}`   the session of a code
//! - `DELETE /api/rooms/{code}` take a name away
use vstd::prelude::*;
use vstd::utf8::{decode_utf8, encode_utf8, valid_utf8};

use crate::rooms::{code_of, code_seed, generate_code, is_valid_code, valid_code};
use crate::router::{lists_rooms, rooms_view, Router, RouterView};
use crate::text::{
    chars_of, decimal, decimal_round_trip, digits_value, find_text, first_found, first_found_at,
    found_at, from_utf8, is_digit, parse_digits, push_decimal, same_text, skip_front,
    spaces_trim_to_nothing, stands_at, string_of, trim_front, trim_front_append,
};

verus! {

/// Method of a request.
#[derive(Debug, Clone, Copy, PartialEq, Eq, Structural)]
pub enum HttpMethod {
    Get,
    Post,
    Delete,
    /// Any other.
    Other,
}

/// A reply whose body is JSON.
#[derive(Debug)]
pub struct JsonReply {
    pub status: u16,
    pub body: String,
}

/// A reply as a mathematical value.
#[verifier::ext_equal]
pub struct ReplyView {
    pub status: u16,
    pub body: Seq<char>,
}

impl View for JsonReply {
    type V = ReplyView;

    open spec fn view(&self) -> ReplyView {
        ReplyView { status: self.status, body: self.body@ }
    }
}

/// What a request is answered with.
#[derive(Debug)]
pub enum HttpAnswer {
    Json(JsonReply),
    /// The counters, in the format of the scraper.
    Metrics,
}

/// A text that ends in a newline.
pub open spec fn line(s: Seq<char>) -> Seq<char> {
    if s.len() > 0 && s.last() == '\n' {
        s
    } else {
        s.push('\n')
    }
}

/// A reply with a status and a body, on a line of its own.
pub open spec fn json(status: u16, body: Seq<char>) -> ReplyView {
    ReplyView { status, body: line(body) }
}

/// The digits in front of a text.
pub open spec fn leading_digits(s: Seq<char>) -> Seq<char>
    decreases s.len(),
{
    if s.len() > 0 && is_digit(s[0]) {
        seq![s[0]] + leading_digits(s.drop_first())
    } else {
        Seq::empty()
    }
}

/// The number behind the first colon after the first `session_id` of a text.
pub open spec fn session_id_in(s: Seq<char>) -> Option<u32> {
    match first_found(s, "session_id"@, 0) {
        None => None,
        Some(key) => match first_found(s, ":"@, key + "session_id"@.len()) {
            None => None,
            Some(colon) => {
                let digits = leading_digits(trim_front(s.subrange(colon + 1, s.len() as int)));
                if digits.len() > 0 && digits_value(digits) <= u32::MAX {
                    Some(digits_value(digits) as u32)
                } else {
                    None
                }
            },
        },
    }
}

/// The session id that a request body asks for.
pub open spec fn requested_session(body: Seq<u8>) -> Option<u32> {
    if valid_utf8(body) {
        session_id_in(decode_utf8(body))
    } else {
        None
    }
}

/// Finds the end of the digits that stand at `from`.
fn digits_end(chars: &[char], from: usize) -> (r: usize)
    requires
        from <= chars@.len(),
    ensures
        from <= r <= chars@.len(),
        chars@.subrange(from as int, r as int) == leading_digits(
            chars@.subrange(from as int, chars@.len() as int),
        ),
        forall|j: int| from <= j < r ==> is_digit(#[trigger] chars@[j]),
{
    let ghost n = chars@.len() as int;
    let mut end: usize = from;
    assert(chars@.subrange(from as int, from as int) + leading_digits(
        chars@.subrange(from as int, n),
    ) =~= leading_digits(chars@.subrange(from as int, n)));
    while end < chars.len() && '0' <= chars[end] && chars[end] <= '9'
        invariant
            from <= end <= chars@.len(),
            n == chars@.len(),
            forall|j: int| from <= j < end ==> is_digit(#[trigger] chars@[j]),
            chars@.subrange(from as int, end as int) + leading_digits(
                chars@.subrange(end as int, n),
            ) == leading_digits(chars@.subrange(from as int, n)),
        decreases chars@.len() - end,
    {
        proof {
            let rest = chars@.subrange(end as int, n);
            assert(rest.drop_first() =~= chars@.subrange(end + 1, n));
            assert(chars@.subrange(from as int, end as int) + (seq![rest[0]] + leading_digits(
                rest.drop_first(),
            )) =~= chars@.subrange(from as int, end + 1) + leading_digits(rest.drop_first()));
        }
        end = end + 1;
    }
    assert(leading_digits(chars@.subrange(end as int, n)) =~= Seq::empty());
    assert(chars@.subrange(from as int, end as int) + Seq::empty() =~= chars@.subrange(
        from as int,
        end as int,
    ));
    end
}

/// Finds the session id in a request body such as `{"session_id":12345}`.
pub fn extract_session_id(body: &[u8]) -> (r: Option<u32>)
    ensures
        r == requested_session(body@),
{
    let text: &str = match from_utf8(body) {
        Some(s) => s,
        None => return None,
    };
    let chars: Vec<char> = chars_of(text);
    let key: Vec<char> = chars_of("session_id");
    let colon_text: Vec<char> = chars_of(":");
    proof {
        reveal_strlit(":");
    }
    let pos: usize = match find_text(&chars, &key, 0) {
        Some(p) => p,
        None => return None,
    };
    assert(chars@.len() == chars.len());
    let colon: usize = match find_text(&chars, &colon_text, pos + key.len()) {
        Some(c) => c,
        None => return None,
    };
    let start: usize = skip_front(&chars, colon + 1, chars.len());
    let end: usize = digits_end(&chars, start);
    proof {
        let digits = chars@.subrange(start as int, end as int);
        assert(digits == leading_digits(
            trim_front(chars@.subrange(colon + 1, chars@.len() as int)),
        ));
        assert(crate::text::all_digits(digits));
    }
    match parse_digits(&chars, start, end, u32::MAX as u64) {
        Some(n) => Some(n as u32),
        None => None,
    }
}

/// Builds a reply.
fn json_response(status: u16, body: &str) -> (r: JsonReply)
    ensures
        r@ == json(status, body@),
{
    let chars: Vec<char> = chars_of(body);
    let mut s: String = body.to_owned();
    if chars.len() == 0 || chars[chars.len() - 1] != '\n' {
        s.push('\n');
    }
    JsonReply { status, body: s }
}

/// The reply to a method that the path does not know.
pub open spec fn not_allowed() -> ReplyView {
    json(405, "{\"error\":\"method not allowed\"}"@)
}

/// The reply to a method that the path does not know.
fn method_not_allowed() -> (r: JsonReply)
    ensures
        r@ == not_allowed(),
{
    json_response(405, "{\"error\":\"method not allowed\"}")
}

/// What naming a session does: the next router and the reply.
pub open spec fn created(v: RouterView, body: Seq<u8>, code: Seq<char>) -> (RouterView, ReplyView) {
    match requested_session(body) {
        Some(id) => if id == 0 {
            (v, bad_create())
        } else if v.rooms.dom().contains(code) {
            (v, json(409, "{\"error\":\"room code collision, retry\"}"@))
        } else {
            (
                RouterView { rooms: v.rooms.insert(code, id), ..v },
                json(
                    201,
                    "{\"code\":\""@ + code + "\",\"session_id\":"@ + decimal(id as nat) + "}"@,
                ),
            )
        },
        None => (v, bad_create()),
    }
}

/// The reply to a body without a session id.
pub open spec fn bad_create() -> ReplyView {
    json(400, "{\"error\":\"body must be {\\\"session_id\\\":N} with N > 0\"}"@)
}

/// Names the session that the body asks for with `code`.
pub fn create_room(router: &mut Router, body: &[u8], code: String) -> (r: JsonReply)
    ensures
        (final(router)@, r@) == created(old(router)@, body@, code@),
{
    let session_id: u32 = match extract_session_id(body) {
        Some(id) => {
            if id == 0 {
                return json_response(
                    400,
                    "{\"error\":\"body must be {\\\"session_id\\\":N} with N > 0\"}",
                );
            }
            id
        },
        None => {
            return json_response(
                400,
                "{\"error\":\"body must be {\\\"session_id\\\":N} with N > 0\"}",
            );
        },
    };
    let mut text: String = "{\"code\":\"".to_owned();
    text.append(code.as_str());
    text.append("\",\"session_id\":");
    push_decimal(&mut text, session_id as u64);
    text.append("}");
    if router.register_room(code, session_id) {
        json_response(201, text.as_str())
    } else {
        json_response(409, "{\"error\":\"room code collision, retry\"}")
    }
}

/// The JSON of a room.
pub open spec fn room_json(code: Seq<char>, session_id: u32, peers: nat) -> Seq<char> {
    "{\"code\":\""@ + code + "\",\"session_id\":"@ + decimal(session_id as nat)
        + ",\"peer_count\":"@ + decimal(peers) + "}"@
}

/// Appends the JSON of a room.
fn push_room(s: &mut String, code: &str, session_id: u32, peers: usize)
    ensures
        final(s)@ == old(s)@ + room_json(code@, session_id, peers as nat),
{
    s.append("{\"code\":\"");
    s.append(code);
    s.append("\",\"session_id\":");
    push_decimal(s, session_id as u64);
    s.append(",\"peer_count\":");
    push_decimal(s, peers as u64);
    s.append("}");
    assert(s@ =~= old(s)@ + room_json(code@, session_id, peers as nat));
}

/// The reply to a question for a room.
pub open spec fn looked_up(v: RouterView, code: Seq<char>) -> ReplyView {
    if !valid_code(code) {
        json(400, "{\"error\":\"invalid room code format\"}"@)
    } else if v.rooms.dom().contains(code) {
        json(200, room_json(code, v.rooms[code], v.peers_of(v.rooms[code])))
    } else {
        json(404, "{\"error\":\"room not found\"}"@)
    }
}

/// Answers a question for a room.
pub fn handle_get_room(router: &Router, code: &str) -> (r: JsonReply)
    ensures
        r@ == looked_up(router@, code@),
{
    if !is_valid_code(code) {
        return json_response(400, "{\"error\":\"invalid room code format\"}");
    }
    match router.resolve_room(code) {
        Some(session_id) => {
            let mut s: String = String::new();
            push_room(&mut s, code, session_id, router.peer_count(session_id));
            assert(s@ =~= room_json(code@, session_id, router@.peers_of(session_id)));
            json_response(200, s.as_str())
        },
        None => json_response(404, "{\"error\":\"room not found\"}"),
    }
}

/// The reply to the removal of a room.
pub open spec fn removal_reply(there: bool) -> ReplyView {
    if there {
        json(200, "{\"deleted\":true}"@)
    } else {
        json(404, "{\"error\":\"room not found\"}"@)
    }
}

/// Removes a room.
pub fn handle_delete_room(router: &mut Router, code: &str) -> (r: JsonReply)
    ensures
        final(router)@ == (RouterView {
            rooms: old(router)@.rooms.remove(code@),
            ..old(router)@
        }),
        r@ == removal_reply(old(router)@.rooms.dom().contains(code@)),
{
    if router.remove_room(code) {
        json_response(200, "{\"deleted\":true}")
    } else {
        json_response(404, "{\"error\":\"room not found\"}")
    }
}

/// The rooms of a list as JSON, with commas between.
pub open spec fn joined(list: Seq<(Seq<char>, u32, nat)>) -> Seq<char>
    decreases list.len(),
{
    if list.len() == 0 {
        Seq::empty()
    } else if list.len() == 1 {
        room_json(list[0].0, list[0].1, list[0].2)
    } else {
        joined(list.drop_last()) + ","@ + room_json(list.last().0, list.last().1, list.last().2)
    }
}

/// The reply that lists these rooms.
pub open spec fn listing(list: Seq<(Seq<char>, u32, nat)>) -> ReplyView {
    json(200, "["@ + joined(list) + "]\n"@)
}

/// Lists all rooms, each once, in no particular order.
pub fn handle_list_rooms(router: &Router) -> (r: JsonReply)
    ensures
        exists|list: Seq<(Seq<char>, u32, nat)>|
            lists_rooms(list, router@) && r@ == #[trigger] listing(list),
{
    let rooms: Vec<(String, u32, usize)> = router.list_rooms();
    let ghost list = rooms_view(rooms@);
    let mut s: String = "[".to_owned();
    let mut i: usize = 0;
    assert(s@ =~= "["@ + joined(list.take(0)));
    while i < rooms.len()
        invariant
            i <= rooms@.len(),
            list == rooms_view(rooms@),
            s@ == "["@ + joined(list.take(i as int)),
        decreases rooms@.len() - i,
    {
        let ghost head = list.take(i + 1);
        assert(head.drop_last() =~= list.take(i as int));
        assert(head.last() == list[i as int]);
        if i > 0 {
            s.append(",");
        }
        push_room(&mut s, rooms[i].0.as_str(), rooms[i].1, rooms[i].2);
        assert(s@ =~= "["@ + joined(head));
        i = i + 1;
    }
    assert(list.take(i as int) =~= list);
    s.append("]\n");
    assert(s@ =~= "["@ + joined(list) + "]\n"@);
    let r: JsonReply = json_response(200, s.as_str());
    assert(r@ == listing(list));
    r
}

/// What a request to a path does: from router `before` to `after`, with the
/// counter of codes from `count` to `count_after`, and the answer.
pub open spec fn handled(
    before: RouterView,
    after: RouterView,
    method: HttpMethod,
    path: Seq<char>,
    body: Seq<u8>,
    now_ns: Option<u64>,
    count: u64,
    count_after: u64,
    answer: HttpAnswer,
) -> bool {
    let prefix = "/api/rooms/"@;
    if path == "/healthz"@ {
        &&& after == before
        &&& count_after == count
        &&& answer matches HttpAnswer::Json(reply)
        &&& reply@ == json(200, "\"ok\""@)
    } else if path == "/metrics"@ {
        after == before && count_after == count && answer is Metrics
    } else if path == "/api/rooms"@ {
        &&& answer matches HttpAnswer::Json(reply)
        &&& match method {
            HttpMethod::Get => {
                &&& after == before
                &&& count_after == count
                &&& exists|list: Seq<(Seq<char>, u32, nat)>|
                    lists_rooms(list, before) && reply@ == #[trigger] listing(list)
            },
            HttpMethod::Post => {
                &&& (after, reply@) == created(before, body, code_of(code_seed(now_ns, count)))
                &&& count_after == match requested_session(body) {
                    Some(id) => if id == 0 {
                        count
                    } else {
                        count.wrapping_add(1)
                    },
                    None => count,
                }
            },
            _ => after == before && count_after == count && reply@ == not_allowed(),
        }
    } else if path.len() >= prefix.len() && path.subrange(0, prefix.len() as int) == prefix {
        let code = path.subrange(prefix.len() as int, path.len() as int);
        &&& count_after == count
        &&& answer matches HttpAnswer::Json(reply)
        &&& match method {
            HttpMethod::Get => after == before && reply@ == looked_up(before, code),
            HttpMethod::Delete => {
                &&& after == (RouterView { rooms: before.rooms.remove(code), ..before })
                &&& reply@ == removal_reply(before.rooms.dom().contains(code))
            },
            _ => after == before && reply@ == not_allowed(),
        }
    } else {
        &&& after == before
        &&& count_after == count
        &&& answer matches HttpAnswer::Json(reply)
        &&& reply@ == json(404, "{\"error\":\"not found\"}"@)
    }
}

/// Names the session that the body asks for with a fresh code. Where the body
/// asks for none, no code is made.
fn handle_create_room(
    router: &mut Router,
    body: &[u8],
    now_ns: Option<u64>,
    counter: &mut u64,
) -> (r: JsonReply)
    ensures
        (final(router)@, r@) == created(
            old(router)@,
            body@,
            code_of(code_seed(now_ns, *old(counter))),
        ),
        *final(counter) == match requested_session(body@) {
            Some(id) => if id == 0 {
                *old(counter)
            } else {
                old(counter).wrapping_add(1)
            },
            None => *old(counter),
        },
{
    let wanted: bool = match extract_session_id(body) {
        Some(id) => id != 0,
        None => false,
    };
    if wanted {
        let code: String = generate_code(now_ns, counter);
        create_room(router, body, code)
    } else {
        create_room(router, body, String::new())
    }
}

/// Answers a request.
pub fn handle(
    router: &mut Router,
    method: HttpMethod,
    path: &str,
    body: &[u8],
    now_ns: Option<u64>,
    counter: &mut u64,
) -> (r: HttpAnswer)
    ensures
        handled(
            old(router)@,
            final(router)@,
            method,
            path@,
            body@,
            now_ns,
            *old(counter),
            *final(counter),
            r,
        ),
{
    let p: Vec<char> = chars_of(path);
    let prefix: Vec<char> = chars_of("/api/rooms/");
    if same_text(&p, "/healthz") {
        return HttpAnswer::Json(json_response(200, "\"ok\""));
    }
    if same_text(&p, "/metrics") {
        return HttpAnswer::Metrics;
    }
    if same_text(&p, "/api/rooms") {
        return match method {
            HttpMethod::Get => HttpAnswer::Json(handle_list_rooms(router)),
            HttpMethod::Post => HttpAnswer::Json(handle_create_room(router, body, now_ns, counter)),
            _ => HttpAnswer::Json(method_not_allowed()),
        };
    }
    if stands_at(&p, &prefix, 0) {
        let rest: &[char] = vstd::slice::slice_subrange(&p, prefix.len(), p.len());
        let code: String = string_of(rest);
        return match method {
            HttpMethod::Get => HttpAnswer::Json(handle_get_room(router, code.as_str())),
            HttpMethod::Delete => HttpAnswer::Json(handle_delete_room(router, code.as_str())),
            _ => HttpAnswer::Json(method_not_allowed()),
        };
    }
    HttpAnswer::Json(json_response(404, "{\"error\":\"not found\"}"))
}

/// The digits in front of digits and something else are those digits.
proof fn digits_lead(d: Seq<char>, rest: Seq<char>)
    requires
        forall|i: int| 0 <= i < d.len() ==> is_digit(#[trigger] d[i]),
        rest.len() > 0 ==> !is_digit(rest[0]),
    ensures
        leading_digits(d + rest) == d,
    decreases d.len(),
{
    if d.len() == 0 {
        assert(d + rest =~= rest);
        assert(leading_digits(rest) =~= d);
    } else {
        assert(is_digit(d[0]));
        assert((d + rest).drop_first() =~= d.drop_first() + rest);
        assert forall|i: int| 0 <= i < d.drop_first().len() implies is_digit(
            #[trigger] d.drop_first()[i],
        ) by {
            assert(d.drop_first()[i] == d[i + 1]);
        }
        digits_lead(d.drop_first(), rest);
        assert(seq![d[0]] + d.drop_first() =~= d);
    }
}

/// The body that a client sends to name a session is understood, with spaces before the
/// number or without: it yields that session. A number that is no session id yields none.
pub proof fn named_session_is_understood(n: nat, spaces: Seq<char>)
    requires
        forall|i: int| 0 <= i < spaces.len() ==> #[trigger] spaces[i] == ' ',
    ensures
        requested_session(encode_utf8("{\"session_id\":"@ + spaces + decimal(n) + "}"@)) == if n
            <= 0xFFFF_FFFF {
            Some(n as u32)
        } else {
            None
        },
{
    let d = decimal(n);
    let s = "{\"session_id\":"@ + spaces + d + "}"@;
    reveal_strlit("{\"session_id\":");
    reveal_strlit("session_id");
    reveal_strlit(":");
    reveal_strlit("}");
    decimal_round_trip(n);
    vstd::utf8::encode_utf8_valid_utf8(s);
    vstd::utf8::encode_utf8_decode_utf8(s);
    let key = "session_id"@;
    assert(s.subrange(2, 12) =~= key);
    assert forall|j: int| 0 <= j < 2 implies !found_at(s, key, j) by {
        if found_at(s, key, j) {
            assert(s.subrange(j, j + 10)[0] == key[0]);
        }
    }
    first_found_at(s, key, 0, 2);
    assert(s.subrange(13, 14) =~= ":"@);
    assert(!found_at(s, ":"@, 12)) by {
        if found_at(s, ":"@, 12) {
            assert(s.subrange(12, 13)[0] == ":"@[0]);
        }
    }
    first_found_at(s, ":"@, 12, 13);
    let tail = s.subrange(14, s.len() as int);
    assert(tail =~= spaces + (d + "}"@));
    assert(is_digit(d[0]));
    assert(trim_front(d + "}"@) == d + "}"@);
    spaces_trim_to_nothing(spaces);
    trim_front_append(spaces, d + "}"@);
    digits_lead(d, "}"@);
}

/// A reply is a line of its own.
pub proof fn reply_is_a_line(status: u16, body: Seq<char>)
    ensures
        ({
            let r = json(status, body);
            &&& r.status == status
            &&& r.body.len() > 0 && r.body.last() == '\n'
            &&& body.len() > 0 && body.last() == '\n' ==> r.body == body
            &&& body.len() == 0 || body.last() != '\n' ==> r.body.drop_last() == body
        }),
{
    if body.len() == 0 || body.last() != '\n' {
        assert(json(status, body).body.drop_last() =~= body);
    }
}

/// Naming a session: the code is taken and leads to the session (201), unless the body
/// names none or zero (400) or the code is taken already (409); then nothing changes.
pub proof fn naming_a_session(v: RouterView, body: Seq<u8>, code: Seq<char>)
    ensures
        ({
            let (next, reply) = created(v, body, code);
            let asked = requested_session(body);
            &&& asked is None || asked == Some(0u32) ==> reply.status == 400 && next == v
            &&& asked is Some && asked != Some(0u32) && v.rooms.dom().contains(code) ==> reply.status
                == 409 && next == v
            &&& asked is Some && asked != Some(0u32) && !v.rooms.dom().contains(code) ==> {
                &&& reply == json(
                    201,
                    "{\"code\":\""@ + code + "\",\"session_id\":"@ + decimal(asked->0 as nat)
                        + "}"@,
                )
                &&& next.rooms.dom() == v.rooms.dom().insert(code)
                &&& next.rooms[code] == asked->0
                &&& forall|other: Seq<char>|
                    other != code && v.rooms.dom().contains(other) ==> #[trigger] next.rooms[other]
                        == v.rooms[other]
                &&& next.routes == v.routes && next.metrics == v.metrics
            }
        }),
{
    assert(created(v, body, code).0.rooms.dom() =~= v.rooms.dom() || created(
        v,
        body,
        code,
    ).0.rooms.dom() =~= v.rooms.dom().insert(code));
}

/// Looking a room up: what is no code is refused (400), a code that leads nowhere is not
/// found (404), and any other yields the session and how many peers it has (200).
pub proof fn looking_up_a_room(v: RouterView, code: Seq<char>)
    ensures
        !valid_code(code) ==> looked_up(v, code).status == 400,
        valid_code(code) && !v.rooms.dom().contains(code) ==> looked_up(v, code).status == 404,
        valid_code(code) && v.rooms.dom().contains(code) ==> looked_up(v, code) == json(
            200,
            "{\"code\":\""@ + code + "\",\"session_id\":"@ + decimal(v.rooms[code] as nat)
                + ",\"peer_count\":"@ + decimal(
                if v.routes.dom().contains(v.rooms[code]) {
                    v.routes[v.rooms[code]].peers.len()
                } else {
                    0
                },
            ) + "}"@,
        ),
        removal_reply(true).status == 200,
        removal_reply(false).status == 404,
        not_allowed().status == 405,
{
}

/// A request to name a session takes the next code and moves the counter on.
#[verifier::spinoff_prover]
#[verifier::rlimit(60)]
pub proof fn posting_names_a_session(
    before: RouterView,
    after: RouterView,
    body: Seq<u8>,
    now_ns: Option<u64>,
    count: u64,
    count_after: u64,
    answer: HttpAnswer,
    id: u32,
)
    requires
        handled(
            before,
            after,
            HttpMethod::Post,
            "/api/rooms"@,
            body,
            now_ns,
            count,
            count_after,
            answer,
        ),
        requested_session(body) == Some(id),
        id != 0,
        !before.rooms.dom().contains(code_of(code_seed(now_ns, count))),
    ensures
        after.rooms.dom().contains(code_of(code_seed(now_ns, count))),
        after.rooms[code_of(code_seed(now_ns, count))] == id,
        after.routes == before.routes,
        count_after == count.wrapping_add(1),
        answer matches HttpAnswer::Json(reply) && reply@.status == 201,
{
    let code = code_of(code_seed(now_ns, count));
    assert("/api/rooms"@ != "/healthz"@ && "/api/rooms"@ != "/metrics"@) by {
        reveal_strlit("/api/rooms");
        reveal_strlit("/healthz");
        reveal_strlit("/metrics");
        assert("/api/rooms"@.len() == 10 && "/healthz"@.len() == 8 && "/metrics"@.len() == 8);
    }
    naming_a_session(before, body, code);
    assert(after == created(before, body, code).0);
}

/// A room is looked up and removed under its own path; a look changes nothing, and a
/// removal takes this room away and no other.
pub proof fn rooms_have_paths(
    before: RouterView,
    after: RouterView,
    method: HttpMethod,
    code: Seq<char>,
    body: Seq<u8>,
    now_ns: Option<u64>,
    count: u64,
    count_after: u64,
    answer: HttpAnswer,
)
    requires
        handled(
            before,
            after,
            method,
            "/api/rooms/"@ + code,
            body,
            now_ns,
            count,
            count_after,
            answer,
        ),
    ensures
        count_after == count,
        after.routes == before.routes && after.metrics == before.metrics,
        method is Get ==> after == before && (answer matches HttpAnswer::Json(reply) && reply@
            == looked_up(before, code)),
        method is Delete ==> {
            &&& !after.rooms.dom().contains(code)
            &&& forall|other: Seq<char>|
                other != code ==> (#[trigger] after.rooms.dom().contains(other)
                    <==> before.rooms.dom().contains(other))
            &&& answer matches HttpAnswer::Json(reply)
            &&& reply@.status == if before.rooms.dom().contains(code) {
                200u16
            } else {
                404
            }
        },
        !(method is Get) && !(method is Delete) ==> after == before && (answer matches HttpAnswer::Json(
            reply,
        ) && reply@.status == 405),
{
    reveal_strlit("/api/rooms/");
    reveal_strlit("/api/rooms");
    reveal_strlit("/healthz");
    reveal_strlit("/metrics");
    let prefix = "/api/rooms/"@;
    let path = prefix + code;
    assert(path.subrange(0, prefix.len() as int) =~= prefix);
    assert(path.subrange(prefix.len() as int, path.len() as int) =~= code);
    assert(path.len() >= 11);
    assert(path[10] == '/');
    if path == "/healthz"@ {
        assert(path.len() == 8);
    }
    if path == "/metrics"@ {
        assert(path.len() == 8);
    }
    if path == "/api/rooms"@ {
        assert(path.len() == 10);
    }
}

/// The remaining paths: the relay says that it is well, shows its counters, lists its
/// rooms, and knows nothing else; none of that changes anything.
pub proof fn other_paths(
    before: RouterView,
    after: RouterView,
    method: HttpMethod,
    path: Seq<char>,
    body: Seq<u8>,
    now_ns: Option<u64>,
    count: u64,
    count_after: u64,
    answer: HttpAnswer,
)
    requires
        handled(before, after, method, path, body, now_ns, count, count_after, answer),
        !(path == "/api/rooms"@ && method is Post),
        !(path.len() >= 11 && path.take(11) == "/api/rooms/"@),
    ensures
        after == before,
        count_after == count,
        answer is Metrics <==> path == "/metrics"@,
        path == "/healthz"@ ==> (answer matches HttpAnswer::Json(reply) && reply@.status == 200),
        path == "/api/rooms"@ && method is Get ==> (answer matches HttpAnswer::Json(reply)
            && reply@.status == 200),
        path == "/api/rooms"@ && !(method is Get) ==> (answer matches HttpAnswer::Json(reply)
            && reply@.status == 405),
        path != "/healthz"@ && path != "/metrics"@ && path != "/api/rooms"@ ==> (
        answer matches HttpAnswer::Json(reply) && reply@.status == 404),
{
    reveal_strlit("/api/rooms/");
    reveal_strlit("/api/rooms");
    reveal_strlit("/healthz");
    reveal_strlit("/metrics");
    if path.len() >= 11 {
        assert(path.take(11) =~= path.subrange(0, 11));
    }
    assert("/metrics"@[1] == 'm' && "/healthz"@[1] == 'h' && "/api/rooms"@[1] == 'a');
}

/// A list of rooms is an array: the rooms in a row, a comma between each and the next.
pub proof fn rooms_are_an_array(
    list: Seq<(Seq<char>, u32, nat)>,
    code: Seq<char>,
    session_id: u32,
    peers: nat,
)
    ensures
        joined(Seq::<(Seq<char>, u32, nat)>::empty()).len() == 0,
        list.len() > 0 ==> joined(list.push((code, session_id, peers))) == joined(list) + ","@
            + room_json(code, session_id, peers),
        list.len() == 0 ==> joined(list.push((code, session_id, peers))) == room_json(
            code,
            session_id,
            peers,
        ),
        listing(list).status == 200,
        listing(list) == json(200, "["@ + joined(list) + "]\n"@),
{
    assert(list.push((code, session_id, peers)).drop_last() =~= list);
}

} // verus!
