//! Key agreement, key derivation and the proofs of the handshake.
use hkdf::Hkdf;
use rand_core::RngCore;
use sha2::Sha256;
use vstd::prelude::*;

use crate::crypto::SessionKey;
use crate::wire::{be32, read_array, u32_bytes};

verus! {

/// The X25519 base point: the coordinate 9.
pub const X25519_BASEPOINT: [u8; 32] = [
    9, 0, 0, 0, 0, 0, 0, 0, 0, 0, 0, 0, 0, 0, 0, 0, 0, 0, 0, 0, 0, 0, 0, 0, 0, 0, 0, 0, 0, 0, 0, 0,
];

/// `"GS-encrypt-v1"`, the label of the key from client to server.
pub const LABEL_ENCRYPT: [u8; 13] = [0x47, 0x53, 0x2D, 0x65, 0x6E, 0x63, 0x72, 0x79, 0x70, 0x74, 0x2D, 0x76, 0x31];

/// `"GS-decrypt-v1"`, the label of the key from server to client.
pub const LABEL_DECRYPT: [u8; 13] = [0x47, 0x53, 0x2D, 0x64, 0x65, 0x63, 0x72, 0x79, 0x70, 0x74, 0x2D, 0x76, 0x31];

/// `"GS-client-fin-v1"`, the label of the client's proof.
pub const LABEL_CLIENT_FIN: [u8; 16] = [0x47, 0x53, 0x2D, 0x63, 0x6C, 0x69, 0x65, 0x6E, 0x74, 0x2D, 0x66, 0x69, 0x6E, 0x2D, 0x76, 0x31];

/// `"GS-server-fin-v1"`, the label of the server's proof.
pub const LABEL_SERVER_FIN: [u8; 16] = [0x47, 0x53, 0x2D, 0x73, 0x65, 0x72, 0x76, 0x65, 0x72, 0x2D, 0x66, 0x69, 0x6E, 0x2D, 0x76, 0x31];

/// The X25519 function of a scalar and a point, both 32 bytes.
pub uninterp spec fn x25519_product(scalar: Seq<u8>, point: Seq<u8>) -> Seq<u8>;

/// The public key of a secret.
pub open spec fn x25519_public(secret: Seq<u8>) -> Seq<u8> {
    x25519_product(secret, X25519_BASEPOINT@)
}

/// The `x25519` function of `x25519_dalek`, which is a function of its two
/// arguments. Where the point is the public key of some secret, the owner of
/// that secret gets the same result from the public key of `k`: this is what
/// the crate documents a key exchange by.
pub assume_specification [x25519_dalek::x25519] (k: [u8; 32], u: [u8; 32]) -> (r: [u8; 32])
    ensures
        r@ == x25519_product(k@, u@),
        forall|other: Seq<u8>|
            other.len() == 32 && u@ == #[trigger] x25519_public(other) ==> r@ == x25519_product(
                other,
                x25519_public(k@),
            ),
;

/// HKDF-SHA256 of a salt, input key material, an info string and a length.
pub uninterp spec fn hkdf_output(salt: Option<Seq<u8>>, ikm: Seq<u8>, info: Seq<u8>, len: nat) -> Seq<
    u8,
>;

/// Calls `Hkdf::<Sha256>::new` and `expand` of the `hkdf` crate (RFC 5869). The
/// output has the length asked for and is a function of the arguments; `expand`
/// takes lengths up to 255 blocks of 32 bytes.
#[verifier::external_body]
fn hkdf_sha256(salt: Option<&[u8]>, ikm: &[u8], info: &[u8], len: usize) -> (r: Vec<u8>)
    requires
        len <= 255 * 32,
    ensures
        r@ == hkdf_output(
            match salt {
                Some(s) => Some(s@),
                None => None,
            },
            ikm@,
            info@,
            len as nat,
        ),
        r@.len() == len,
{
    let hkdf = Hkdf::<Sha256>::new(salt, ikm);
    let mut okm = vec![0u8; len];
    hkdf.expand(info, &mut okm).expect("length within the limit of HKDF");
    okm
}

/// Calls `OsRng::fill_bytes` of `rand_core`, which fills the buffer from the
/// random source of the operating system and panics where that source fails.
/// Nothing is claimed of the bytes.
#[verifier::external_body]
fn fill_random(buf: &mut [u8])
    ensures
        final(buf)@.len() == old(buf)@.len(),
{
    rand_core::OsRng.fill_bytes(buf)
}

/// Calls `OsRng::next_u32` of `rand_core`. Nothing is claimed of the number.
#[verifier::external_body]
fn next_random_u32() -> (r: u32) {
    rand_core::OsRng.next_u32()
}

/// Draws 32 random bytes: a nonce, or a secret key. Which bytes come is left to chance.
pub fn random_nonce_32() -> (r: [u8; 32]) {
    let mut nonce: [u8; 32] = [0u8; 32];
    fill_random(&mut nonce);
    nonce
}

/// Draws the 12 random bytes of a STUN transaction id. Which bytes come is left to chance.
pub fn random_tx_id() -> (r: [u8; 12]) {
    let mut id: [u8; 12] = [0u8; 12];
    fill_random(&mut id);
    id
}

/// Draws a random session id. Which number comes is left to chance.
pub fn rand_u32_secure() -> (r: u32) {
    next_random_u32()
}

/// The public key of a secret.
pub fn public_key(secret: &[u8; 32]) -> (r: [u8; 32])
    ensures
        r@ == x25519_public(secret@),
{
    let base: [u8; 32] = X25519_BASEPOINT;
    x25519_dalek::x25519(*secret, base)
}

/// The secret shared with the owner of `peer_public`. The peer computes the same
/// value from its own secret and our public key.
pub fn shared_secret(secret: &[u8; 32], peer_public: &[u8; 32]) -> (r: [u8; 32])
    ensures
        r@ == x25519_product(secret@, peer_public@),
        forall|other: Seq<u8>|
            other.len() == 32 && peer_public@ == #[trigger] x25519_public(other) ==> r@
                == x25519_product(other, x25519_public(secret@)),
{
    x25519_dalek::x25519(*secret, *peer_public)
}

/// What both ends agree on: the two nonces and the session id.
pub open spec fn transcript_bytes(
    client_nonce: Seq<u8>,
    server_nonce: Seq<u8>,
    session_id: u32,
) -> Seq<u8> {
    client_nonce + server_nonce + be32(session_id)
}

/// Two handshakes with one transcript share nonces and session id.
pub proof fn transcript_injective(c1: Seq<u8>, s1: Seq<u8>, i1: u32, c2: Seq<u8>, s2: Seq<u8>, i2: u32)
    requires
        c1.len() == 32,
        s1.len() == 32,
        c2.len() == 32,
        s2.len() == 32,
        transcript_bytes(c1, s1, i1) == transcript_bytes(c2, s2, i2),
    ensures
        c1 == c2,
        s1 == s2,
        i1 == i2,
{
    let a = transcript_bytes(c1, s1, i1);
    let b = transcript_bytes(c2, s2, i2);
    assert(a.subrange(0, 32) =~= c1);
    assert(b.subrange(0, 32) =~= c2);
    assert(a.subrange(32, 64) =~= s1);
    assert(b.subrange(32, 64) =~= s2);
    assert(a.subrange(64, 68) =~= be32(i1));
    assert(b.subrange(64, 68) =~= be32(i2));
    crate::wire::be32_round_trip(a, 64, i1);
    crate::wire::be32_round_trip(b, 64, i2);
}

/// Builds the transcript.
pub fn build_transcript(client_nonce: &[u8; 32], server_nonce: &[u8; 32], session_id: u32) -> (r: [u8;
    68])
    ensures
        r@ == transcript_bytes(client_nonce@, server_nonce@, session_id),
{
    let mut t: [u8; 68] = [0u8; 68];
    crate::wire::write_bytes(&mut t, 0, client_nonce);
    crate::wire::write_bytes(&mut t, 32, server_nonce);
    crate::wire::write_u32(&mut t, 64, session_id);
    assert(t@ =~= transcript_bytes(client_nonce@, server_nonce@, session_id));
    t
}

/// The two keys of a session as the client names them: the one it encrypts with
/// and the one it decrypts with. The server uses them the other way round.
pub open spec fn session_keys(shared: Seq<u8>, transcript: Seq<u8>) -> (Seq<u8>, Seq<u8>) {
    (
        hkdf_output(Some(transcript), shared, LABEL_ENCRYPT@, 32),
        hkdf_output(Some(transcript), shared, LABEL_DECRYPT@, 32),
    )
}

/// Derives the two keys from the shared secret and the transcript.
pub fn derive_session_keys(shared: &[u8; 32], transcript: &[u8; 68]) -> (r: (SessionKey, SessionKey))
    ensures
        (r.0@, r.1@) == session_keys(shared@, transcript@),
{
    let enc_label: [u8; 13] = LABEL_ENCRYPT;
    let dec_label: [u8; 13] = LABEL_DECRYPT;
    let enc: Vec<u8> = hkdf_sha256(Some(transcript.as_slice()), shared, &enc_label, 32);
    let dec: Vec<u8> = hkdf_sha256(Some(transcript.as_slice()), shared, &dec_label, 32);
    let e: [u8; 32] = read_array::<32>(&enc, 0);
    let d: [u8; 32] = read_array::<32>(&dec, 0);
    assert(e@ =~= enc@);
    assert(d@ =~= dec@);
    (e, d)
}

/// The proof that the holder of `key` gives of having seen `transcript`.
pub open spec fn auth_tag(key: Seq<u8>, label: Seq<u8>, transcript: Seq<u8>) -> Seq<u8> {
    hkdf_output(None, key, label + transcript, 16)
}

/// Derives the 16-byte proof.
pub fn derive_auth_tag(key: &SessionKey, label: &[u8], transcript: &[u8; 68]) -> (r: [u8; 16])
    ensures
        r@ == auth_tag(key@, label@, transcript@),
{
    let mut info: Vec<u8> = vstd::slice::slice_to_vec(label);
    info.extend_from_slice(transcript);
    assert(info@ =~= label@ + transcript@);
    let tag: Vec<u8> = hkdf_sha256(None, key, &info, 16);
    let t: [u8; 16] = read_array::<16>(&tag, 0);
    assert(t@ =~= tag@);
    t
}

/// Whether two tags are equal, without leaving the loop early.
pub fn constant_time_eq(a: &[u8; 16], b: &[u8; 16]) -> (r: bool)
    ensures
        r == (a@ == b@),
{
    let mut diff: u8 = 0;
    let mut i: usize = 0;
    while i < 16
        invariant
            i <= 16,
            diff == 0 <==> forall|j: int| 0 <= j < i ==> a@[j] == b@[j],
        decreases 16 - i,
    {
        let x: u8 = a[i];
        let y: u8 = b[i];
        assert(diff | (x ^ y) == 0 <==> (diff == 0 && x == y)) by (bit_vector);
        diff = diff | (x ^ y);
        i = i + 1;
    }
    assert(diff == 0 ==> a@ =~= b@);
    diff == 0
}

/// Where the parts of a transcript stand: the client's nonce, the server's, and the
/// session, most significant byte first.
pub proof fn transcript_layout(client_nonce: Seq<u8>, server_nonce: Seq<u8>, session_id: u32)
    requires
        client_nonce.len() == 32,
        server_nonce.len() == 32,
    ensures
        ({
            let t = transcript_bytes(client_nonce, server_nonce, session_id);
            &&& t.len() == 68
            &&& t.subrange(0, 32) == client_nonce
            &&& t.subrange(32, 64) == server_nonce
            &&& session_id == t[64] * 0x100_0000 + t[65] * 0x1_0000 + t[66] * 0x100 + t[67]
        }),
{
    let t = transcript_bytes(client_nonce, server_nonce, session_id);
    assert(t.subrange(0, 32) =~= client_nonce);
    assert(t.subrange(32, 64) =~= server_nonce);
}

/// The keys of the two directions come from the shared secret, salted with the
/// transcript, under the names `GS-encrypt-v1` and `GS-decrypt-v1`; a proof comes from a
/// key alone, under its label and the transcript. The public key of a secret is its
/// product with the point 9.
pub proof fn keys_by_direction(
    shared: Seq<u8>,
    transcript: Seq<u8>,
    key: Seq<u8>,
    label: Seq<u8>,
)
    ensures
        session_keys(shared, transcript).0 == hkdf_output(
            Some(transcript),
            shared,
            seq![71u8, 83, 45, 101, 110, 99, 114, 121, 112, 116, 45, 118, 49],
            32,
        ),
        session_keys(shared, transcript).1 == hkdf_output(
            Some(transcript),
            shared,
            seq![71u8, 83, 45, 100, 101, 99, 114, 121, 112, 116, 45, 118, 49],
            32,
        ),
        auth_tag(key, label, transcript) == hkdf_output(None, key, label + transcript, 16),
        x25519_public(key) == x25519_product(
            key,
            Seq::new(
                32,
                |i: int|
                    if i == 0 {
                        9u8
                    } else {
                        0
                    },
            ),
        ),
{
    assert(X25519_BASEPOINT@ =~= Seq::new(
        32,
        |i: int|
            if i == 0 {
                9u8
            } else {
                0
            },
    ));
    assert(LABEL_ENCRYPT@ =~= seq![71u8, 83, 45, 101, 110, 99, 114, 121, 112, 116, 45, 118, 49]);
    assert(LABEL_DECRYPT@ =~= seq![71u8, 83, 45, 100, 101, 99, 114, 121, 112, 116, 45, 118, 49]);
}

/// Two tags are equal where all their bytes are.
pub proof fn tags_are_compared(a: &[u8; 16], b: &[u8; 16], r: bool, i: int)
    requires
        call_ensures(constant_time_eq, (a, b), r),
    ensures
        r && 0 <= i < 16 ==> a@[i] == b@[i],
        0 <= i < 16 && a@[i] != b@[i] ==> !r,
        a@ == b@ ==> r,
{
}

} // verus!
