//! STUN binding requests and responses (RFC 5389), as far as needed to learn
//! the public address of a socket.
use vstd::prelude::*;

use crate::addr::SocketAddress;
use crate::wire::{be16, be16_at, be32, be32_at, read_u16, read_u32, write_bytes, write_u16, write_u32};

verus! {

/// The number that marks STUN messages.
pub const MAGIC_COOKIE: u32 = 0x2112_A442;

/// The upper half of [`MAGIC_COOKIE`].
pub const MAGIC_HIGH: u16 = 0x2112;

/// Type of a request.
pub const BINDING_REQUEST: u16 = 0x0001;

/// Type of a response.
pub const BINDING_RESPONSE: u16 = 0x0101;

/// Type of the attribute that holds the address, XORed with the magic number.
pub const ATTR_XOR_MAPPED_ADDRESS: u16 = 0x0020;

/// Type of the older attribute that holds the address as it is.
pub const ATTR_MAPPED_ADDRESS: u16 = 0x0001;

/// Address family of IPv4.
pub const FAMILY_IPV4: u8 = 0x01;

/// What can go wrong when the public address is asked for.
#[derive(Debug)]
pub enum StunError {
    /// The socket failed; the text says how.
    Io(String),
    /// No server answered.
    Timeout,
    /// An answer made no sense.
    Malformed,
    /// The name of a server could not be resolved; the text says why.
    Resolve(String),
}

/// What each error says.
pub open spec fn stun_error_message(e: StunError) -> Seq<char> {
    match e {
        StunError::Io(text) => "I/O error: "@ + text@,
        StunError::Timeout => "all STUN servers timed out or failed"@,
        StunError::Malformed => "malformed STUN response"@,
        StunError::Resolve(text) => "STUN resolve error: "@ + text@,
    }
}

impl StunError {
    /// What this error says.
    pub fn message(&self) -> (r: String)
        ensures
            r@ == stun_error_message(*self),
    {
        match self {
            StunError::Io(text) => "I/O error: ".to_owned().concat(text.as_str()),
            StunError::Timeout => "all STUN servers timed out or failed".to_owned(),
            StunError::Malformed => "malformed STUN response".to_owned(),
            StunError::Resolve(text) => "STUN resolve error: ".to_owned().concat(text.as_str()),
        }
    }
}

/// The bytes of a request: type, length zero, magic number, transaction.
pub open spec fn request_bytes(tx_id: Seq<u8>) -> Seq<u8> {
    be16(BINDING_REQUEST) + be16(0) + be32(MAGIC_COOKIE) + tx_id
}

/// Builds a request.
pub fn build_binding_request(tx_id: &[u8; 12]) -> (r: [u8; 20])
    ensures
        r@ == request_bytes(tx_id@),
{
    let mut pkt: [u8; 20] = [0u8; 20];
    write_u16(&mut pkt, 0, BINDING_REQUEST);
    write_u16(&mut pkt, 2, 0);
    write_u32(&mut pkt, 4, MAGIC_COOKIE);
    write_bytes(&mut pkt, 8, tx_id);
    assert(pkt@ =~= request_bytes(tx_id@));
    pkt
}

/// The attributes that stand in `s` from `pos` to `end`: type and value of each.
/// A value is padded to a multiple of four bytes. The list ends where the next
/// attribute does not fit.
pub open spec fn attributes(s: Seq<u8>, pos: int, end: int) -> Seq<(u16, Seq<u8>)>
    decreases end - pos + 4,
{
    if pos < 0 || pos + 4 > end || pos + 4 + be16_at(s, pos + 2) > end {
        Seq::empty()
    } else {
        let len = be16_at(s, pos + 2) as int;
        let value = s.subrange(pos + 4, pos + 4 + len);
        seq![(be16_at(s, pos), value)] + attributes(s, pos + 4 + padded(len), end)
    }
}

/// `len` rounded up to a multiple of four.
pub open spec fn padded(len: int) -> int {
    (len + 3) / 4 * 4
}

/// The IPv4 address of an attribute whose fields are XORed with the magic number.
pub open spec fn xor_address(value: Seq<u8>) -> Option<SocketAddress> {
    if value.len() < 8 || value[1] != FAMILY_IPV4 {
        None
    } else {
        Some(
            SocketAddress::V4 {
                ip: be32_at(value, 4) ^ MAGIC_COOKIE,
                port: be16_at(value, 2) ^ MAGIC_HIGH,
            },
        )
    }
}

/// The IPv4 address of an attribute whose fields stand as they are.
pub open spec fn plain_address(value: Seq<u8>) -> Option<SocketAddress> {
    if value.len() < 8 || value[1] != FAMILY_IPV4 {
        None
    } else {
        Some(SocketAddress::V4 { ip: be32_at(value, 4), port: be16_at(value, 2) })
    }
}

/// The address of the first XORed attribute that holds one.
pub open spec fn first_xor(attrs: Seq<(u16, Seq<u8>)>) -> Option<SocketAddress>
    decreases attrs.len(),
{
    if attrs.len() == 0 {
        None
    } else if attrs[0].0 == ATTR_XOR_MAPPED_ADDRESS && xor_address(attrs[0].1) is Some {
        xor_address(attrs[0].1)
    } else {
        first_xor(attrs.drop_first())
    }
}

/// The address of the last plain attribute that holds one.
pub open spec fn last_plain(attrs: Seq<(u16, Seq<u8>)>) -> Option<SocketAddress>
    decreases attrs.len(),
{
    if attrs.len() == 0 {
        None
    } else if attrs.last().0 == ATTR_MAPPED_ADDRESS && plain_address(attrs.last().1) is Some {
        plain_address(attrs.last().1)
    } else {
        last_plain(attrs.drop_last())
    }
}

/// The response belongs to the transaction: it is whole, it is a response, and
/// magic number and transaction are right.
pub open spec fn is_response(s: Seq<u8>, tx_id: Seq<u8>) -> bool {
    &&& s.len() >= 20
    &&& be16_at(s, 0) == BINDING_RESPONSE
    &&& s.len() >= 20 + be16_at(s, 2)
    &&& be32_at(s, 4) == MAGIC_COOKIE
    &&& s.subrange(8, 20) == tx_id
}

/// The address that a response reports: that of the first XORed attribute, else
/// that of the last plain one.
pub open spec fn response_of(s: Seq<u8>, tx_id: Seq<u8>) -> Option<SocketAddress> {
    if !is_response(s, tx_id) {
        None
    } else {
        let attrs = attributes(s, 20, 20 + be16_at(s, 2));
        match first_xor(attrs) {
            Some(a) => Some(a),
            None => last_plain(attrs),
        }
    }
}

/// Reads the address of an attribute whose fields are XORed.
fn parse_xor_mapped_address(val: &[u8]) -> (r: Option<SocketAddress>)
    ensures
        r == xor_address(val@),
{
    if val.len() < 8 || val[1] != FAMILY_IPV4 {
        return None;
    }
    let port: u16 = read_u16(val, 2) ^ MAGIC_HIGH;
    let ip: u32 = read_u32(val, 4) ^ MAGIC_COOKIE;
    Some(SocketAddress::V4 { ip, port })
}

/// Reads the address of an attribute whose fields stand as they are.
fn parse_mapped_address(val: &[u8]) -> (r: Option<SocketAddress>)
    ensures
        r == plain_address(val@),
{
    if val.len() < 8 || val[1] != FAMILY_IPV4 {
        return None;
    }
    Some(SocketAddress::V4 { ip: read_u32(val, 4), port: read_u16(val, 2) })
}

/// An attribute that is no usable XORed one does not change which comes first.
proof fn first_xor_skips(head: Seq<(u16, Seq<u8>)>, rest: Seq<(u16, Seq<u8>)>)
    requires
        first_xor(head) is None,
    ensures
        first_xor(head + rest) == first_xor(rest),
    decreases head.len(),
{
    if head.len() == 0 {
        assert(head + rest =~= rest);
    } else {
        assert((head + rest).drop_first() =~= head.drop_first() + rest);
        first_xor_skips(head.drop_first(), rest);
    }
}

/// No XORed attribute in either part means none in the whole.
proof fn first_xor_none(head: Seq<(u16, Seq<u8>)>, a: (u16, Seq<u8>))
    requires
        first_xor(head) is None,
        !(a.0 == ATTR_XOR_MAPPED_ADDRESS && xor_address(a.1) is Some),
    ensures
        first_xor(head.push(a)) is None,
{
    first_xor_skips(head, seq![a]);
    assert(head.push(a) =~= head + seq![a]);
    assert(seq![a].drop_first() =~= Seq::empty());
    assert(first_xor(Seq::<(u16, Seq<u8>)>::empty()) is None);
}

/// Reads the public address from a response to the transaction `expected_tx_id`.
pub fn parse_binding_response(buf: &[u8], expected_tx_id: &[u8; 12]) -> (r: Option<SocketAddress>)
    ensures
        r == response_of(buf@, expected_tx_id@),
{
    if buf.len() < 20 {
        return None;
    }
    if read_u16(buf, 0) != BINDING_RESPONSE {
        return None;
    }
    let msg_len: usize = read_u16(buf, 2) as usize;
    if buf.len() < 20 + msg_len {
        return None;
    }
    if read_u32(buf, 4) != MAGIC_COOKIE {
        return None;
    }
    let mut k: usize = 0;
    while k < 12
        invariant
            k <= 12,
            buf@.len() >= 20,
            forall|j: int| 0 <= j < k ==> buf@[8 + j] == expected_tx_id@[j],
        decreases 12 - k,
    {
        if buf[8 + k] != expected_tx_id[k] {
            assert(buf@.subrange(8, 20)[k as int] == buf@[8 + k]);
            return None;
        }
        k = k + 1;
    }
    assert(buf@.subrange(8, 20) =~= expected_tx_id@);
    let end: usize = 20 + msg_len;
    let ghost all = attributes(buf@, 20, end as int);
    let ghost mut done: Seq<(u16, Seq<u8>)> = Seq::empty();
    let mut pos: usize = 20;
    let mut fallback: Option<SocketAddress> = None;
    assert(done + all =~= all);
    while pos + 4 <= end
        invariant_except_break
            20 <= pos <= 0x3_0000,
            all == done + attributes(buf@, pos as int, end as int),
        invariant
            is_response(buf@, expected_tx_id@),
            end == 20 + be16_at(buf@, 2),
            end <= buf@.len(),
            all == attributes(buf@, 20, end as int),
            first_xor(done) is None,
            fallback == last_plain(done),
        ensures
            all == done,
        decreases end + 0x3_0000 - pos,
    {
        let attr_type: u16 = read_u16(buf, pos);
        let attr_len: usize = read_u16(buf, pos + 2) as usize;
        let ghost at = pos as int;
        pos = pos + 4;
        if pos + attr_len > end {
            assert(all =~= done);
            break;
        }
        let attr_val: &[u8] = vstd::slice::slice_subrange(buf, pos, pos + attr_len);
        let ghost a = (attr_type, attr_val@);
        let ghost rest = attributes(buf@, at + 4 + padded(attr_len as int), end as int);
        proof {
            assert(attributes(buf@, at, end as int) == seq![a] + rest);
            assert(done + (seq![a] + rest) =~= done.push(a) + rest);
            assert(done.push(a).drop_last() =~= done);
        }
        if attr_type == ATTR_XOR_MAPPED_ADDRESS {
            if let Some(addr) = parse_xor_mapped_address(attr_val) {
                proof {
                    first_xor_skips(done, seq![a] + rest);
                }
                return Some(addr);
            }
        } else if attr_type == ATTR_MAPPED_ADDRESS {
            if let Some(addr) = parse_mapped_address(attr_val) {
                fallback = Some(addr);
            }
        }
        proof {
            first_xor_none(done, a);
            done = done.push(a);
        }
        pos = pos + (attr_len + 3) / 4 * 4;
    }
    fallback
}

/// The bytes of a response that reports one IPv4 address, XORed.
pub open spec fn xor_response(tx_id: Seq<u8>, ip: u32, port: u16) -> Seq<u8> {
    be16(BINDING_RESPONSE) + be16(12) + be32(MAGIC_COOKIE) + tx_id + be16(ATTR_XOR_MAPPED_ADDRESS)
        + be16(8) + seq![0u8, FAMILY_IPV4] + be16(port ^ MAGIC_HIGH) + be32(ip ^ MAGIC_COOKIE)
}

/// A response that reports an address yields that address to whoever asked, and
/// nothing to anyone who waits for another transaction.
pub proof fn response_reports_address(tx_id: Seq<u8>, other: Seq<u8>, ip: u32, port: u16)
    requires
        tx_id.len() == 12,
        other != tx_id,
    ensures
        response_of(xor_response(tx_id, ip, port), tx_id) == Some(SocketAddress::V4 { ip, port }),
        response_of(xor_response(tx_id, ip, port), other) is None,
{
    let s = xor_response(tx_id, ip, port);
    assert(s.len() == 32);
    assert(s.subrange(0, 2) =~= be16(BINDING_RESPONSE));
    crate::wire::be16_round_trip(s, 0, BINDING_RESPONSE);
    assert(s.subrange(2, 4) =~= be16(12));
    crate::wire::be16_round_trip(s, 2, 12);
    assert(s.subrange(4, 8) =~= be32(MAGIC_COOKIE));
    crate::wire::be32_round_trip(s, 4, MAGIC_COOKIE);
    assert(s.subrange(8, 20) =~= tx_id);
    assert(s.subrange(20, 22) =~= be16(ATTR_XOR_MAPPED_ADDRESS));
    crate::wire::be16_round_trip(s, 20, ATTR_XOR_MAPPED_ADDRESS);
    assert(s.subrange(22, 24) =~= be16(8));
    crate::wire::be16_round_trip(s, 22, 8);
    let value = s.subrange(24, 32);
    assert(value.subrange(2, 4) =~= be16(port ^ MAGIC_HIGH));
    crate::wire::be16_round_trip(value, 2, port ^ MAGIC_HIGH);
    assert(value.subrange(4, 8) =~= be32(ip ^ MAGIC_COOKIE));
    crate::wire::be32_round_trip(value, 4, ip ^ MAGIC_COOKIE);
    assert((ip ^ 0x2112_A442u32) ^ 0x2112_A442u32 == ip) by (bit_vector);
    assert((port ^ 0x2112u16) ^ 0x2112u16 == port) by (bit_vector);
    let attrs = attributes(s, 20, 32);
    assert(attrs[0] == (ATTR_XOR_MAPPED_ADDRESS, value));
}

/// A request has 20 bytes: the type 1, no attributes, the magic number and the
/// transaction.
pub proof fn request_layout(tx_id: Seq<u8>)
    requires
        tx_id.len() == 12,
    ensures
        ({
            let b = request_bytes(tx_id);
            &&& b.len() == 20
            &&& b[0] == 0 && b[1] == 1 && b[2] == 0 && b[3] == 0
            &&& b[4] == 0x21 && b[5] == 0x12 && b[6] == 0xA4 && b[7] == 0x42
            &&& b.subrange(8, 20) == tx_id
        }),
{
    let b = request_bytes(tx_id);
    assert(b.subrange(8, 20) =~= tx_id);
}

/// Only the answer to the question counts: a response with the magic number and the same
/// transaction that is whole.
pub proof fn only_the_answer_counts(s: Seq<u8>, tx_id: Seq<u8>)
    requires
        ({
            ||| s.len() < 20
            ||| s[0] != 1 || s[1] != 1
            ||| s.len() < 20 + s[2] * 256 + s[3]
            ||| s[4] != 0x21 || s[5] != 0x12 || s[6] != 0xA4 || s[7] != 0x42
            ||| s.subrange(8, 20) != tx_id
        }),
    ensures
        response_of(s, tx_id) is None,
{
}

/// The XORed address of an answer: where its first attribute is of type 0x20 and family
/// 1, the port is the two bytes behind, XORed with 0x2112, and the host the next four,
/// XORed with 0x2112A442.
pub proof fn xored_address_is_read(s: Seq<u8>, tx_id: Seq<u8>)
    requires
        s.len() >= 32,
        s[0] == 1 && s[1] == 1,
        12 <= s[2] * 256 + s[3] <= s.len() - 20,
        s[4] == 0x21 && s[5] == 0x12 && s[6] == 0xA4 && s[7] == 0x42,
        s.subrange(8, 20) == tx_id,
        s[20] == 0 && s[21] == 0x20 && s[22] == 0 && s[23] == 8,
        s[25] == 1,
    ensures
        response_of(s, tx_id) == Some(
            SocketAddress::V4 {
                ip: ((s[28] * 0x100_0000 + s[29] * 0x1_0000 + s[30] * 0x100 + s[31]) as u32)
                    ^ 0x2112_A442,
                port: ((s[26] * 256 + s[27]) as u16) ^ 0x2112,
            },
        ),
{
    let end = 20 + be16_at(s, 2);
    let attrs = attributes(s, 20, end);
    let value = s.subrange(24, 32);
    assert(attrs[0] == (0x20u16, value));
    assert(is_response(s, tx_id));
}

/// The plain address of an answer: where it has one attribute, of type 1 and family 1,
/// port and host are its bytes as they are.
pub proof fn plain_address_is_read(s: Seq<u8>, tx_id: Seq<u8>)
    requires
        s.len() == 32,
        s[0] == 1 && s[1] == 1 && s[2] == 0 && s[3] == 12,
        s[4] == 0x21 && s[5] == 0x12 && s[6] == 0xA4 && s[7] == 0x42,
        s.subrange(8, 20) == tx_id,
        s[20] == 0 && s[21] == 1 && s[22] == 0 && s[23] == 8,
        s[25] == 1,
    ensures
        response_of(s, tx_id) == Some(
            SocketAddress::V4 {
                ip: (s[28] * 0x100_0000 + s[29] * 0x1_0000 + s[30] * 0x100 + s[31]) as u32,
                port: (s[26] * 256 + s[27]) as u16,
            },
        ),
{
    let attrs = attributes(s, 20, 32);
    let value = s.subrange(24, 32);
    assert(attributes(s, 32, 32) =~= Seq::empty());
    assert(attrs =~= seq![(1u16, value)]);
    assert(attrs.drop_first() =~= Seq::empty());
    reveal_with_fuel(first_xor, 3);
    reveal_with_fuel(last_plain, 3);
    assert(attrs.last() == (1u16, value));
    assert(is_response(s, tx_id));
}

/// Attributes stand at multiples of four bytes.
pub proof fn attributes_are_padded(len: int)
    requires
        len >= 0,
    ensures
        padded(len) % 4 == 0,
        len <= padded(len) < len + 4,
{
}

/// An attribute is its type, the length of its value and the value, which is filled up to
/// a multiple of four bytes; the next one follows, if it is whole.
pub proof fn attributes_follow_each_other(s: Seq<u8>, pos: int, end: int)
    requires
        0 <= pos,
        end <= s.len(),
    ensures
        pos + 4 > end || pos + 4 + s[pos + 2] * 256 + s[pos + 3] > end ==> attributes(
            s,
            pos,
            end,
        ).len() == 0,
        pos + 4 <= end && pos + 4 + s[pos + 2] * 256 + s[pos + 3] <= end ==> {
            let len = s[pos + 2] * 256 + s[pos + 3];
            let attrs = attributes(s, pos, end);
            &&& attrs.len() > 0
            &&& attrs[0].0 == s[pos] * 256 + s[pos + 1]
            &&& attrs[0].1 == s.subrange(pos + 4, pos + 4 + len)
            &&& attrs.skip(1) == attributes(s, pos + 4 + (len + 3) / 4 * 4, end)
        },
{
    if pos + 4 <= end && pos + 4 + be16_at(s, pos + 2) <= end {
        let len = be16_at(s, pos + 2) as int;
        assert(attributes(s, pos, end).skip(1) =~= attributes(s, pos + 4 + padded(len), end));
    }
}

/// An XORed address is believed before a plain one, wherever it stands: the first of
/// them decides. Without one the last plain address does.
pub proof fn xored_address_is_preferred(s: Seq<u8>, tx_id: Seq<u8>, k: int)
    requires
        is_response(s, tx_id),
        ({
            let attrs = attributes(s, 20, 20 + be16_at(s, 2));
            &&& 0 <= k < attrs.len()
            &&& attrs[k].0 == 0x20 && attrs[k].1.len() >= 8 && attrs[k].1[1] == 1
            &&& forall|i: int| 0 <= i < k ==> (#[trigger] attrs[i]).0 != 0x20
        }),
    ensures
        ({
            let v = attributes(s, 20, 20 + be16_at(s, 2))[k].1;
            response_of(s, tx_id) == Some(
                SocketAddress::V4 {
                    ip: ((v[4] * 0x100_0000 + v[5] * 0x1_0000 + v[6] * 0x100 + v[7]) as u32)
                        ^ 0x2112_A442,
                    port: ((v[2] * 256 + v[3]) as u16) ^ 0x2112,
                },
            )
        }),
{
    first_xor_at(attributes(s, 20, 20 + be16_at(s, 2)), k);
}

/// The first XORed attribute, by its place.
proof fn first_xor_at(attrs: Seq<(u16, Seq<u8>)>, k: int)
    requires
        0 <= k < attrs.len(),
        attrs[k].0 == ATTR_XOR_MAPPED_ADDRESS,
        xor_address(attrs[k].1) is Some,
        forall|i: int| 0 <= i < k ==> (#[trigger] attrs[i]).0 != ATTR_XOR_MAPPED_ADDRESS,
    ensures
        first_xor(attrs) == xor_address(attrs[k].1),
    decreases k,
{
    if k > 0 {
        let rest = attrs.drop_first();
        assert(attrs[0].0 != ATTR_XOR_MAPPED_ADDRESS);
        assert forall|i: int| 0 <= i < k - 1 implies (#[trigger] rest[i]).0
            != ATTR_XOR_MAPPED_ADDRESS by {
            assert(rest[i] == attrs[i + 1]);
        }
        first_xor_at(rest, k - 1);
    }
}

/// Without an XORed attribute the last plain address decides.
pub proof fn last_plain_address_decides(s: Seq<u8>, tx_id: Seq<u8>, k: int)
    requires
        is_response(s, tx_id),
        ({
            let attrs = attributes(s, 20, 20 + be16_at(s, 2));
            &&& 0 <= k < attrs.len()
            &&& attrs[k].0 == 1 && attrs[k].1.len() >= 8 && attrs[k].1[1] == 1
            &&& forall|i: int| k < i < attrs.len() ==> (#[trigger] attrs[i]).0 != 1
            &&& forall|i: int| 0 <= i < attrs.len() ==> (#[trigger] attrs[i]).0 != 0x20
        }),
    ensures
        ({
            let v = attributes(s, 20, 20 + be16_at(s, 2))[k].1;
            response_of(s, tx_id) == Some(
                SocketAddress::V4 {
                    ip: (v[4] * 0x100_0000 + v[5] * 0x1_0000 + v[6] * 0x100 + v[7]) as u32,
                    port: (v[2] * 256 + v[3]) as u16,
                },
            )
        }),
{
    let attrs = attributes(s, 20, 20 + be16_at(s, 2));
    no_xor_at_all(attrs);
    last_plain_at(attrs, k);
}

/// Without an XORed attribute there is no XORed address.
proof fn no_xor_at_all(attrs: Seq<(u16, Seq<u8>)>)
    requires
        forall|i: int| 0 <= i < attrs.len() ==> (#[trigger] attrs[i]).0 != ATTR_XOR_MAPPED_ADDRESS,
    ensures
        first_xor(attrs) is None,
    decreases attrs.len(),
{
    if attrs.len() > 0 {
        let rest = attrs.drop_first();
        assert(attrs[0].0 != ATTR_XOR_MAPPED_ADDRESS);
        assert forall|i: int| 0 <= i < rest.len() implies (#[trigger] rest[i]).0
            != ATTR_XOR_MAPPED_ADDRESS by {
            assert(rest[i] == attrs[i + 1]);
        }
        no_xor_at_all(rest);
    }
}

/// The last plain attribute, by its place.
proof fn last_plain_at(attrs: Seq<(u16, Seq<u8>)>, k: int)
    requires
        0 <= k < attrs.len(),
        attrs[k].0 == ATTR_MAPPED_ADDRESS,
        plain_address(attrs[k].1) is Some,
        forall|i: int| k < i < attrs.len() ==> (#[trigger] attrs[i]).0 != ATTR_MAPPED_ADDRESS,
    ensures
        last_plain(attrs) == plain_address(attrs[k].1),
    decreases attrs.len(),
{
    if k < attrs.len() - 1 {
        let rest = attrs.drop_last();
        assert(attrs[attrs.len() - 1].0 != ATTR_MAPPED_ADDRESS);
        assert forall|i: int| k < i < rest.len() implies (#[trigger] rest[i]).0
            != ATTR_MAPPED_ADDRESS by {
            assert(rest[i] == attrs[i]);
        }
        last_plain_at(rest, k);
    }
}

} // verus!
