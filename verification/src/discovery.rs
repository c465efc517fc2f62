//! Discovery of peers on the local network.
//!
//! An announcement is the text `GT1 <udp_port> <session_id> <name>`; the name
//! may hold spaces.
use vstd::prelude::*;
use vstd::utf8::{decode_utf8, encode_utf8, valid_utf8};

use crate::addr::SocketAddress;
use crate::text::{
    all_digits, chars_of, decimal, decimal_round_trip, find_text, first_found, found_at, from_utf8,
    is_digit, is_white_space, parse_unsigned, push_decimal, skip_back, skip_front, stands_at,
    string_of, trim_back, trim_back_append, trim_back_twice, trim_front, trim_order, trimmed,
    unsigned_of,
};

verus! {

/// UDP port of the discovery protocol.
pub const DISCOVERY_PORT: u16 = 9009;

/// A peer found on the local network.
#[derive(Debug)]
pub struct PeerInfo {
    /// Address of the peer.
    pub addr: SocketAddress,
    /// Session that it announces.
    pub session_id: u32,
    /// Its name.
    pub name: String,
}

/// A peer as a mathematical value.
#[verifier::ext_equal]
pub struct PeerView {
    pub addr: SocketAddress,
    pub session_id: u32,
    pub name: Seq<char>,
}

impl View for PeerInfo {
    type V = PeerView;

    open spec fn view(&self) -> PeerView {
        PeerView { addr: self.addr, session_id: self.session_id, name: self.name@ }
    }
}

/// The text of an announcement.
pub open spec fn announcement(port: u16, session_id: u32, name: Seq<char>) -> Seq<char> {
    "GT1 "@ + decimal(port as nat) + " "@ + decimal(session_id as nat) + " "@ + name
}

/// Builds the text of an announcement.
pub fn announcement_text(udp_port: u16, session_id: u32, name: &str) -> (r: String)
    ensures
        r@ == announcement(udp_port, session_id, name@),
{
    let mut s: String = "GT1 ".to_owned();
    push_decimal(&mut s, udp_port as u64);
    s.append(" ");
    push_decimal(&mut s, session_id as u64);
    s.append(" ");
    s.append(name);
    s
}

/// The same host with another port. What an IPv6 address carries besides the
/// host is left out.
pub open spec fn with_port(a: SocketAddress, port: u16) -> SocketAddress {
    match a {
        SocketAddress::V4 { ip, port: _ } => SocketAddress::V4 { ip, port },
        SocketAddress::V6 { ip, port: _, flowinfo: _, scope_id: _ } => SocketAddress::V6 {
            ip,
            port,
            flowinfo: 0,
            scope_id: 0,
        },
    }
}

/// Puts another port to a host.
fn at_port(a: SocketAddress, port: u16) -> (r: SocketAddress)
    ensures
        r == with_port(a, port),
{
    match a {
        SocketAddress::V4 { ip, port: _ } => SocketAddress::V4 { ip, port },
        SocketAddress::V6 { ip, port: _, flowinfo: _, scope_id: _ } => SocketAddress::V6 {
            ip,
            port,
            flowinfo: 0,
            scope_id: 0,
        },
    }
}

/// The peer that the fields of an announcement name, if both numbers are right.
pub open spec fn peer_of(
    port: Seq<char>,
    session_id: Seq<char>,
    name: Seq<char>,
    from: SocketAddress,
) -> Option<PeerView> {
    match unsigned_of(port, 0xFFFF) {
        Some(p) => match unsigned_of(session_id, 0xFFFF_FFFF) {
            Some(id) => Some(
                PeerView { addr: with_port(from, p as u16), session_id: id as u32, name },
            ),
            None => None,
        },
        None => None,
    }
}

/// The peer that the text of an announcement names: after the tag come port and
/// session, up to a space each, and the name, `unknown` if there is none.
pub open spec fn announced_in(s: Seq<char>, from: SocketAddress) -> Option<PeerView> {
    if !found_at(s, "GT1 "@, 0) {
        None
    } else {
        match first_found(s, " "@, 4) {
            None => None,
            Some(i) => match first_found(s, " "@, i + 1) {
                None => peer_of(
                    s.subrange(4, i),
                    s.subrange(i + 1, s.len() as int),
                    "unknown"@,
                    from,
                ),
                Some(j) => peer_of(
                    s.subrange(4, i),
                    s.subrange(i + 1, j),
                    trimmed(s.subrange(j + 1, s.len() as int)),
                    from,
                ),
            },
        }
    }
}

/// The peer that a datagram from `from` announces.
pub open spec fn announced(data: Seq<u8>, from: SocketAddress) -> Option<PeerView> {
    if valid_utf8(data) {
        announced_in(trimmed(decode_utf8(data)), from)
    } else {
        None
    }
}

/// Reads an announcement.
pub fn parse_announcement(data: &[u8], from: SocketAddress) -> (r: Option<PeerInfo>)
    ensures
        match announced(data@, from) {
            Some(p) => r matches Some(info) && info@ == p,
            None => r is None,
        },
{
    let text: &str = match from_utf8(data) {
        Some(s) => s,
        None => return None,
    };
    let all: Vec<char> = chars_of(text);
    let start: usize = skip_front(&all, 0, all.len());
    let end: usize = skip_back(&all, start, all.len());
    assert(all@.subrange(0, all@.len() as int) =~= all@);
    let s: &[char] = vstd::slice::slice_subrange(&all, start, end);
    assert(s@ == trimmed(text@));
    let tag: Vec<char> = chars_of("GT1 ");
    let space: Vec<char> = chars_of(" ");
    proof {
        reveal_strlit("GT1 ");
        reveal_strlit(" ");
        assert(s@.len() == s.len());
    }
    if !stands_at(s, &tag, 0) {
        return None;
    }
    let i: usize = match find_text(s, &space, 4) {
        Some(i) => i,
        None => return None,
    };
    let second: Option<usize> = find_text(s, &space, i + 1);
    let id_end: usize = match second {
        Some(j) => j,
        None => s.len(),
    };
    let port: u64 = match parse_unsigned(s, 4, i, 0xFFFF) {
        Some(p) => p,
        None => return None,
    };
    let session_id: u64 = match parse_unsigned(s, i + 1, id_end, 0xFFFF_FFFF) {
        Some(id) => id,
        None => return None,
    };
    let name: String = match second {
        Some(j) => {
            let from_name: usize = skip_front(s, j + 1, s.len());
            let to_name: usize = skip_back(s, from_name, s.len());
            string_of(vstd::slice::slice_subrange(s, from_name, to_name))
        },
        None => "unknown".to_owned(),
    };
    Some(
        PeerInfo { addr: at_port(from, port as u16), session_id: session_id as u32, name },
    )
}

/// Adds a peer to a list unless its address is in it.
pub fn add_peer(peers: &mut Vec<PeerInfo>, info: PeerInfo) -> (r: bool)
    ensures
        r == forall|k: int| 0 <= k < old(peers)@.len() ==> (#[trigger] old(peers)@[k]).addr != info.addr,
        final(peers)@ == if r {
            old(peers)@.push(info)
        } else {
            old(peers)@
        },
        distinct_addresses(old(peers)@) ==> distinct_addresses(final(peers)@),
{
    let mut i: usize = 0;
    while i < peers.len()
        invariant
            i <= peers@.len(),
            peers@ == old(peers)@,
            forall|k: int| 0 <= k < i ==> (#[trigger] peers@[k]).addr != info.addr,
        decreases peers@.len() - i,
    {
        if peers[i].addr == info.addr {
            return false;
        }
        i = i + 1;
    }
    peers.push(info);
    true
}

/// No two peers of a list share an address.
pub open spec fn distinct_addresses(peers: Seq<PeerInfo>) -> bool {
    forall|i: int, j: int|
        0 <= i < j < peers.len() ==> (#[trigger] peers[i]).addr != (#[trigger] peers[j]).addr
}

/// A space does not stand where a digit stands.
proof fn no_space_at_digit(s: Seq<char>, j: int)
    requires
        0 <= j < s.len(),
        is_digit(s[j]),
    ensures
        !found_at(s, " "@, j),
{
    reveal_strlit(" ");
    if found_at(s, " "@, j) {
        assert(s.subrange(j, j + 1)[0] == " "@[0]);
    }
}

/// The name that an announcement conveys: without the white space around it, and
/// `unknown` where nothing is left.
pub open spec fn conveyed(name: Seq<char>) -> Seq<char> {
    if trimmed(name).len() > 0 {
        trimmed(name)
    } else {
        "unknown"@
    }
}

/// What is announced is discovered: the datagram of an announcement yields its
/// port at the sender's host, its session and its name.
pub proof fn announcement_is_discovered(
    port: u16,
    session_id: u32,
    name: Seq<char>,
    from: SocketAddress,
)
    ensures
        announced(encode_utf8(announcement(port, session_id, name)), from) == Some(
            PeerView {
                addr: with_port(from, port),
                session_id,
                name: if trimmed(name).len() > 0 {
                    trimmed(name)
                } else {
                    "unknown"@
                },
            },
        ),
        announced(encode_utf8(announcement(port, session_id, name)), from)->0.name == conveyed(name),
{
    reveal_strlit("GT1 ");
    reveal_strlit(" ");
    let p = decimal(port as nat);
    let d = decimal(session_id as nat);
    decimal_round_trip(port as nat);
    decimal_round_trip(session_id as nat);
    let head = "GT1 "@ + p + " "@ + d;
    let full = announcement(port, session_id, name);
    let i: int = 4 + p.len() as int;
    let j: int = i + 1 + d.len();
    assert(full =~= (head + " "@) + name);
    vstd::utf8::encode_utf8_valid_utf8(full);
    vstd::utf8::encode_utf8_decode_utf8(full);
    // Nothing to trim in front.
    assert(full[0] == 'G');
    assert(trim_front(full) == full);
    trim_back_append(head + " "@, name);
    trim_back_append(head, " "@);
    assert(" "@.drop_last() =~= Seq::empty());
    assert(trim_back(Seq::<char>::empty()) =~= Seq::empty());
    assert(trim_back(" "@) =~= Seq::empty());
    assert(head.last() == d.last());
    assert(is_digit(d[d.len() - 1]));
    assert(trim_back(head) == head);
    trim_order(name);
    let s = trimmed(full);
    if trim_back(name).len() > 0 {
        trim_back_twice(trim_front(name));
        trim_order(trim_back(name));
        trim_back_twice(name);
        let tail = trim_back(name);
        assert(s =~= head + " "@ + tail);
        assert(found_at(s, " "@, j)) by {
            assert(s.subrange(j, j + 1) =~= " "@);
        }
        assert(s.subrange(j + 1, s.len() as int) =~= tail);
        assert(trimmed(tail) == trimmed(name)) by {
            assert(trim_front(tail) == trim_back(trim_front(name)));
        }
        assert(trimmed(name).len() > 0) by {
            name_survives(name);
        }
    } else {
        assert(s =~= head);
        assert(trim_front(Seq::<char>::empty()) =~= Seq::empty());
        assert(trim_back(name) =~= Seq::empty());
    }
    assert(found_at(s, "GT1 "@, 0)) by {
        assert(s.subrange(0, 4) =~= "GT1 "@);
    }
    assert(found_at(s, " "@, i)) by {
        assert(s.subrange(i, i + 1) =~= " "@);
    }
    assert forall|k: int| 4 <= k < i implies !found_at(s, " "@, k) by {
        assert(s[k] == p[k - 4]);
        assert(is_digit(p[k - 4]));
        no_space_at_digit(s, k);
    }
    crate::text::first_found_at(s, " "@, 4, i);
    assert forall|k: int| i + 1 <= k < j implies !found_at(s, " "@, k) by {
        assert(s[k] == d[k - i - 1]);
        assert(is_digit(d[k - i - 1]));
        no_space_at_digit(s, k);
    }
    assert(s.subrange(4, i) =~= p);
    assert(s.subrange(i + 1, j) =~= d);
    if trim_back(name).len() > 0 {
        crate::text::first_found_at(s, " "@, i + 1, j);
    } else {
        crate::text::first_found_is_first(s, " "@, i + 1);
        assert(s.len() == j);
    }
}

/// A name with something but white space in it keeps something when trimmed.
proof fn name_survives(name: Seq<char>)
    requires
        trim_back(name).len() > 0,
    ensures
        trimmed(name).len() > 0,
{
    let tail = trim_back(name);
    trim_order(name);
    last_stays(name);
    let last = seq![tail.last()];
    assert(tail =~= tail.drop_last() + last);
    crate::text::trim_front_append(tail.drop_last(), last);
}

/// What is left behind trimming does not end in white space.
proof fn last_stays(s: Seq<char>)
    requires
        trim_back(s).len() > 0,
    ensures
        !is_white_space(trim_back(s).last()),
    decreases s.len(),
{
    if s.len() > 0 && is_white_space(s.last()) {
        last_stays(s.drop_last());
    }
}

/// The port of an announcement goes with the host that it came from.
pub proof fn host_is_the_senders(ip: u32, wide: u128, flowinfo: u32, scope_id: u32, old_port: u16, port: u16)
    ensures
        with_port(SocketAddress::V4 { ip, port: old_port }, port) == (SocketAddress::V4 {
            ip,
            port,
        }),
        with_port(
            SocketAddress::V6 { ip: wide, port: old_port, flowinfo, scope_id },
            port,
        ) == (SocketAddress::V6 { ip: wide, port, flowinfo: 0, scope_id: 0 }),
{
}

/// What does not begin with the tag, or is no text, announces no one.
pub proof fn tag_comes_first(data: Seq<u8>, from: SocketAddress)
    requires
        !valid_utf8(data) || trimmed(decode_utf8(data)).len() < 4 || trimmed(decode_utf8(data)).take(
            4,
        ) != "GT1 "@,
    ensures
        announced(data, from) is None,
{
    reveal_strlit("GT1 ");
    let s = trimmed(decode_utf8(data));
    if s.len() >= 4 {
        assert(s.subrange(0, 4) =~= s.take(4));
    }
}

/// A peer is added once: where its address is in the list, the list stays.
pub proof fn peer_is_added_once(peers: &mut Vec<PeerInfo>, info: PeerInfo, r: bool, k: int)
    requires
        call_ensures(add_peer, (peers, info), r),
    ensures
        r ==> final(peers)@ == old(peers)@.push(info),
        !r ==> final(peers)@ == old(peers)@,
        0 <= k < old(peers)@.len() && old(peers)@[k].addr == info.addr ==> !r,
        old(peers)@.len() == 0 ==> r,
        !r ==> exists|i: int|
            0 <= i < old(peers)@.len() && (#[trigger] old(peers)@[i]).addr == info.addr,
{
}

/// An announcement whose port or session is no number, or too large a one, announces no
/// one.
pub proof fn numbers_have_to_be_right(port: Seq<char>, session_id: Seq<char>, name: Seq<char>, from: SocketAddress)
    requires
        unsigned_of(port, 65535) is None || unsigned_of(session_id, 4294967295) is None,
    ensures
        peer_of(port, session_id, name, from) is None,
{
}

/// What the fields of an announcement name: the sender's host with the port, the session
/// and the name.
pub proof fn fields_name_the_peer(
    port: Seq<char>,
    session_id: Seq<char>,
    name: Seq<char>,
    from: SocketAddress,
    p: nat,
    id: nat,
)
    requires
        unsigned_of(port, 65535) == Some(p),
        unsigned_of(session_id, 4294967295) == Some(id),
    ensures
        peer_of(port, session_id, name, from) == Some(
            PeerView { addr: with_port(from, p as u16), session_id: id as u32, name },
        ),
{
}

} // verus!
