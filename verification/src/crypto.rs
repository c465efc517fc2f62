//! Authenticated encryption of payloads.
//!
//! ChaCha20-Poly1305 (RFC 8439). The nonce is `sequence || session_id || 0000`
//! and is never sent. The associated data are the 24 bytes of the header. A
//! sealed payload is the ciphertext followed by the 16-byte tag.
use chacha20poly1305::aead::{AeadInPlace, KeyInit};
use chacha20poly1305::{ChaCha20Poly1305, Error as AeadError, Key, Nonce, Tag};
use vstd::prelude::*;

use crate::error::Error;
use crate::wire::{be32, overwrite, read_array, u32_bytes, write_bytes};

verus! {

/// Size of a key in bytes.
pub const KEY_SIZE: usize = 32;

/// Size of the Poly1305 tag in bytes.
pub const TAG_SIZE: usize = 16;

/// Size of a nonce in bytes.
pub const NONCE_SIZE: usize = 12;

/// Key of one direction of a session.
pub type SessionKey = [u8; 32];

/// The error of the `aead` crate, which carries nothing.
#[verifier::external_type_specification]
#[verifier::external_body]
pub struct ExAeadError(AeadError);

/// What ChaCha20-Poly1305 makes of `plain`: the ciphertext and the tag.
pub uninterp spec fn aead_sealed(key: Seq<u8>, nonce: Seq<u8>, aad: Seq<u8>, plain: Seq<u8>) -> (
    Seq<u8>,
    Seq<u8>,
);

/// What ChaCha20-Poly1305 makes of a ciphertext and its tag: the plaintext, if
/// the tag is right.
pub uninterp spec fn aead_opened(
    key: Seq<u8>,
    nonce: Seq<u8>,
    aad: Seq<u8>,
    cipher: Seq<u8>,
    tag: Seq<u8>,
) -> Option<Seq<u8>>;

/// Whether a message of `n` bytes is one that the cipher can take or refuses in
/// good order. In the last block before its limit of 256 GiB the key stream
/// runs out before the length is refused.
pub open spec fn aead_len_ok(n: int) -> bool {
    !(0x3F_FFFF_FF80 < n < 0x3F_FFFF_FFC0)
}

/// Whether a message of `n` bytes is short enough to be encrypted.
pub open spec fn aead_len_accepted(n: int) -> bool {
    n / 64 < 0xFFFF_FFFF
}

/// Calls `ChaCha20Poly1305::encrypt_in_place_detached` on the first `len` bytes
/// of `buffer`. It refuses only a message over its length limit, and leaves that
/// as it was. Otherwise it replaces the message by a ciphertext of the same
/// length and returns the tag, and decrypting both gives the message back.
#[verifier::external_body]
fn aead_encrypt(
    key: &[u8; 32],
    nonce: &[u8; 12],
    aad: &[u8],
    buffer: &mut [u8],
    len: usize,
) -> (r: Result<[u8; 16], AeadError>)
    requires
        len <= old(buffer)@.len(),
        aead_len_ok(len as int),
    ensures
        r is Ok <==> aead_len_accepted(len as int),
        r is Err ==> final(buffer)@ == old(buffer)@,
        r matches Ok(tag) ==> {
            let plain = old(buffer)@.subrange(0, len as int);
            let sealed = aead_sealed(key@, nonce@, aad@, plain);
            &&& sealed.0.len() == len
            &&& sealed.1 == tag@
            &&& final(buffer)@ == overwrite(old(buffer)@, 0, sealed.0)
            &&& aead_opened(key@, nonce@, aad@, sealed.0, tag@) == Some(plain)
        },
{
    let cipher = ChaCha20Poly1305::new(Key::from_slice(key));
    let tag = cipher.encrypt_in_place_detached(Nonce::from_slice(nonce), aad, &mut buffer[..len])?;
    Ok(tag.into())
}

/// Calls `ChaCha20Poly1305::decrypt_in_place_detached` on the first `len` bytes
/// of `buffer`. Where the tag is right it replaces them by the plaintext, of the
/// same length; otherwise it changes nothing and fails.
#[verifier::external_body]
fn aead_decrypt(
    key: &[u8; 32],
    nonce: &[u8; 12],
    aad: &[u8],
    buffer: &mut [u8],
    len: usize,
    tag: &[u8; 16],
) -> (r: Result<(), AeadError>)
    requires
        len <= old(buffer)@.len(),
        aead_len_ok(len as int),
    ensures
        match aead_opened(key@, nonce@, aad@, old(buffer)@.subrange(0, len as int), tag@) {
            Some(plain) => {
                &&& r is Ok
                &&& plain.len() == len
                &&& final(buffer)@ == overwrite(old(buffer)@, 0, plain)
            },
            None => r is Err && final(buffer)@ == old(buffer)@,
        },
{
    let cipher = ChaCha20Poly1305::new(Key::from_slice(key));
    let tag = Tag::from_slice(tag);
    cipher.decrypt_in_place_detached(Nonce::from_slice(nonce), aad, &mut buffer[..len], tag)
}

/// The sealed form of `plain`: ciphertext, then tag.
pub open spec fn sealed_payload(
    key: Seq<u8>,
    nonce: Seq<u8>,
    aad: Seq<u8>,
    plain: Seq<u8>,
) -> Seq<u8> {
    aead_sealed(key, nonce, aad, plain).0 + aead_sealed(key, nonce, aad, plain).1
}

/// The plaintext of a sealed payload, if it is long enough for a tag and the tag
/// is right.
pub open spec fn opened_payload(
    key: Seq<u8>,
    nonce: Seq<u8>,
    aad: Seq<u8>,
    payload: Seq<u8>,
) -> Option<Seq<u8>> {
    if payload.len() < TAG_SIZE {
        None
    } else {
        aead_opened(
            key,
            nonce,
            aad,
            payload.subrange(0, payload.len() - TAG_SIZE),
            payload.subrange(payload.len() - TAG_SIZE, payload.len() as int),
        )
    }
}

/// The nonce of a packet: sequence, session and four zero bytes.
pub open spec fn nonce_bytes(sequence: u32, session_id: u32) -> Seq<u8> {
    be32(sequence) + be32(session_id) + seq![0, 0, 0, 0]
}

/// Two packets that share a nonce share sequence and session.
pub proof fn nonce_injective(seq1: u32, sid1: u32, seq2: u32, sid2: u32)
    requires
        nonce_bytes(seq1, sid1) == nonce_bytes(seq2, sid2),
    ensures
        seq1 == seq2,
        sid1 == sid2,
{
    let a = nonce_bytes(seq1, sid1);
    let b = nonce_bytes(seq2, sid2);
    assert(a.subrange(0, 4) =~= be32(seq1));
    assert(a.subrange(4, 8) =~= be32(sid1));
    assert(b.subrange(0, 4) =~= be32(seq2));
    assert(b.subrange(4, 8) =~= be32(sid2));
    crate::wire::be32_round_trip(a, 0, seq1);
    crate::wire::be32_round_trip(a, 4, sid1);
    crate::wire::be32_round_trip(b, 0, seq2);
    crate::wire::be32_round_trip(b, 4, sid2);
}

/// Builds the nonce of a packet. Both ends derive the same value.
pub fn make_nonce(sequence: u32, session_id: u32) -> (r: [u8; 12])
    ensures
        r@ == nonce_bytes(sequence, session_id),
{
    let s: [u8; 4] = u32_bytes(sequence);
    let i: [u8; 4] = u32_bytes(session_id);
    let n: [u8; 12] = [s[0], s[1], s[2], s[3], i[0], i[1], i[2], i[3], 0, 0, 0, 0];
    assert(n@ =~= nonce_bytes(sequence, session_id));
    n
}

/// Encrypts `buffer[..plaintext_len]` in place and writes the tag behind it.
///
/// Returns the number of bytes of the sealed payload. What comes out opens
/// again under the same key, nonce and associated data.
pub fn encrypt_in_place(
    key: &SessionKey,
    nonce: &[u8; 12],
    aad: &[u8],
    buffer: &mut [u8],
    plaintext_len: usize,
) -> (r: Result<usize, Error>)
    requires
        plaintext_len + TAG_SIZE <= usize::MAX,
        aead_len_ok(plaintext_len as int),
    ensures
        old(buffer)@.len() < plaintext_len + TAG_SIZE ==> r == Err::<usize, Error>(
            Error::BufferTooSmall,
        ),
        old(buffer)@.len() >= plaintext_len + TAG_SIZE && !aead_len_accepted(plaintext_len as int)
            ==> r == Err::<usize, Error>(Error::DecryptionFailed),
        r is Err ==> final(buffer)@ == old(buffer)@,
        old(buffer)@.len() >= plaintext_len + TAG_SIZE && aead_len_accepted(plaintext_len as int)
            ==> {
            let plain = old(buffer)@.subrange(0, plaintext_len as int);
            let sealed = sealed_payload(key@, nonce@, aad@, plain);
            &&& r == Ok::<usize, Error>((plaintext_len + TAG_SIZE) as usize)
            &&& sealed.len() == plaintext_len + TAG_SIZE
            &&& final(buffer)@ == overwrite(old(buffer)@, 0, sealed)
            &&& opened_payload(key@, nonce@, aad@, sealed) == Some(plain)
        },
{
    if buffer.len() < plaintext_len + TAG_SIZE {
        return Err(Error::BufferTooSmall);
    }
    let ghost before = buffer@;
    match aead_encrypt(key, nonce, aad, buffer, plaintext_len) {
        Ok(tag) => {
            write_bytes(buffer, plaintext_len, &tag);
            proof {
                let plain = before.subrange(0, plaintext_len as int);
                let sealed = sealed_payload(key@, nonce@, aad@, plain);
                assert(buffer@ =~= overwrite(before, 0, sealed));
                assert(sealed.subrange(0, plaintext_len as int) =~= aead_sealed(
                    key@,
                    nonce@,
                    aad@,
                    plain,
                ).0);
                assert(sealed.subrange(plaintext_len as int, sealed.len() as int) =~= tag@);
            }
            Ok(plaintext_len + TAG_SIZE)
        },
        Err(_) => Err(Error::DecryptionFailed),
    }
}

/// Opens `buffer[..ciphertext_len]`, tag included, in place.
///
/// Returns the number of bytes of the plaintext.
pub fn decrypt_in_place(
    key: &SessionKey,
    nonce: &[u8; 12],
    aad: &[u8],
    buffer: &mut [u8],
    ciphertext_len: usize,
) -> (r: Result<usize, Error>)
    requires
        ciphertext_len >= TAG_SIZE ==> aead_len_ok(ciphertext_len - TAG_SIZE),
    ensures
        r is Err ==> final(buffer)@ == old(buffer)@,
        ciphertext_len < TAG_SIZE ==> r == Err::<usize, Error>(Error::TooShort),
        ciphertext_len >= TAG_SIZE && old(buffer)@.len() < ciphertext_len ==> r == Err::<
            usize,
            Error,
        >(Error::BufferTooSmall),
        TAG_SIZE <= ciphertext_len <= old(buffer)@.len() ==> match opened_payload(
            key@,
            nonce@,
            aad@,
            old(buffer)@.subrange(0, ciphertext_len as int),
        ) {
            Some(plain) => {
                &&& r == Ok::<usize, Error>((ciphertext_len - TAG_SIZE) as usize)
                &&& plain.len() == ciphertext_len - TAG_SIZE
                &&& final(buffer)@ == overwrite(old(buffer)@, 0, plain)
            },
            None => r == Err::<usize, Error>(Error::DecryptionFailed),
        },
{
    if ciphertext_len < TAG_SIZE {
        return Err(Error::TooShort);
    }
    if buffer.len() < ciphertext_len {
        return Err(Error::BufferTooSmall);
    }
    let plaintext_len: usize = ciphertext_len - TAG_SIZE;
    let tag: [u8; 16] = read_array::<16>(buffer, plaintext_len);
    proof {
        let sealed = buffer@.subrange(0, ciphertext_len as int);
        assert(sealed.subrange(0, sealed.len() - TAG_SIZE) =~= buffer@.subrange(
            0,
            plaintext_len as int,
        ));
        assert(sealed.subrange(sealed.len() - TAG_SIZE, sealed.len() as int) =~= tag@);
    }
    match aead_decrypt(key, nonce, aad, buffer, plaintext_len, &tag) {
        Ok(_) => Ok(plaintext_len),
        Err(_) => Err(Error::DecryptionFailed),
    }
}

/// Where the parts of a nonce stand: sequence, session, four zeros, most significant
/// byte first.
pub proof fn nonce_layout(sequence: u32, session_id: u32)
    ensures
        ({
            let b = nonce_bytes(sequence, session_id);
            &&& b.len() == 12
            &&& sequence == b[0] * 0x100_0000 + b[1] * 0x1_0000 + b[2] * 0x100 + b[3]
            &&& session_id == b[4] * 0x100_0000 + b[5] * 0x1_0000 + b[6] * 0x100 + b[7]
            &&& b[8] == 0 && b[9] == 0 && b[10] == 0 && b[11] == 0
        }),
{
}

/// A sealed payload is what the cipher makes of the plaintext, with the tag behind it,
/// and the last 16 bytes are read as the tag. Less than a tag opens to nothing.
pub proof fn sealed_payload_layout(
    key: Seq<u8>,
    nonce: Seq<u8>,
    aad: Seq<u8>,
    plain: Seq<u8>,
    payload: Seq<u8>,
)
    ensures
        sealed_payload(key, nonce, aad, plain) == aead_sealed(key, nonce, aad, plain).0
            + aead_sealed(key, nonce, aad, plain).1,
        payload.len() < 16 ==> opened_payload(key, nonce, aad, payload) is None,
        payload.len() >= 16 ==> opened_payload(key, nonce, aad, payload) == aead_opened(
            key,
            nonce,
            aad,
            payload.take(payload.len() - 16),
            payload.skip(payload.len() - 16),
        ),
{
    if payload.len() >= 16 {
        assert(payload.take(payload.len() - 16) =~= payload.subrange(0, payload.len() - 16));
        assert(payload.skip(payload.len() - 16) =~= payload.subrange(
            payload.len() - 16,
            payload.len() as int,
        ));
    }
}

/// The cipher takes messages of less than 256 GiB but 64 bytes.
pub proof fn cipher_limit(n: int)
    requires
        n >= 0,
    ensures
        aead_len_accepted(n) <==> n < 274877906880,
{
}

/// Sealing in place: where the tag has room behind the message, it takes its place, and
/// what stands behind it stays; what is sealed opens to the message again. Without room
/// nothing happens.
pub proof fn sealing_in_place(
    key: &SessionKey,
    nonce: &[u8; 12],
    aad: &[u8],
    buffer: &mut [u8],
    n: usize,
    r: Result<usize, Error>,
)
    requires
        call_ensures(encrypt_in_place, (key, nonce, aad, buffer, n), r),
        n < 274877906880,
    ensures
        old(buffer)@.len() < n + 16 ==> r is Err && final(buffer)@ == old(buffer)@,
        old(buffer)@.len() >= n + 16 ==> {
            let sealed = final(buffer)@.subrange(0, n + 16);
            &&& r == Ok::<usize, Error>((n + 16) as usize)
            &&& opened_payload(key@, nonce@, aad@, sealed) == Some(
                old(buffer)@.subrange(0, n as int),
            )
            &&& final(buffer)@.len() == old(buffer)@.len()
            &&& forall|i: int|
                n + 16 <= i < old(buffer)@.len() ==> #[trigger] final(buffer)@[i]
                    == old(buffer)@[i]
        },
{
    if old(buffer)@.len() >= n + 16 {
        let plain = old(buffer)@.subrange(0, n as int);
        let sealed = sealed_payload(key@, nonce@, aad@, plain);
        assert(final(buffer)@.subrange(0, n + 16) =~= sealed);
    }
}

} // verus!
