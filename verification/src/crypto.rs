//! Pairing crypto: X25519 identities and key agreement, the six-digit PIN
//! that both sides of a pairing show, and content hashing.

use vstd::prelude::*;
use hmac::Mac;
use sha2::Digest;
use crate::text::push_char;

verus! {

broadcast use vstd::seq_lib::group_seq_properties;

/// The X25519 public key of a secret key (`PublicKey::from(&StaticSecret)`).
pub uninterp spec fn x25519_public_key(secret: Seq<u8>) -> Seq<u8>;

/// The X25519 shared secret of a secret key and a public key
/// (`StaticSecret::diffie_hellman`).
pub uninterp spec fn x25519_shared(secret: Seq<u8>, public: Seq<u8>) -> Seq<u8>;

/// HMAC-SHA256 of `msg` under `key`.
pub uninterp spec fn hmac_sha256(key: Seq<u8>, msg: Seq<u8>) -> Seq<u8>;

/// The SHA-256 digest of `msg`.
pub uninterp spec fn sha256(msg: Seq<u8>) -> Seq<u8>;

/// 32 random bytes from the operating system, as an X25519 secret key
/// (`StaticSecret::random_from_rng(OsRng)`); nothing is stated of them.
#[verifier::external_body]
fn random_secret() -> (secret: [u8; 32]) {
    x25519_dalek::StaticSecret::random_from_rng(rand::rngs::OsRng).to_bytes()
}

/// `PublicKey::from(&StaticSecret::from(secret))`: the result is
/// [`x25519_public_key`] of the secret.
#[verifier::external_body]
fn public_key_of(secret: &[u8; 32]) -> (public: [u8; 32])
    ensures
        public@ == x25519_public_key(secret@),
{
    x25519_dalek::PublicKey::from(&x25519_dalek::StaticSecret::from(*secret)).to_bytes()
}

/// `StaticSecret::diffie_hellman`: the result is [`x25519_shared`] of the
/// arguments, and X25519 agreement holds (as the crate documents): when the
/// public key is that of `other`, the result equals the secret that `other`
/// derives from the public key of `secret`.
#[verifier::external_body]
fn diffie_hellman(secret: &[u8; 32], their_public: &[u8; 32]) -> (shared: [u8; 32])
    ensures
        shared@ == x25519_shared(secret@, their_public@),
        forall|other: Seq<u8>| other.len() == 32 && their_public@ == #[trigger] x25519_public_key(other)
            ==> shared@ == x25519_shared(other, x25519_public_key(secret@)),
{
    let s = x25519_dalek::StaticSecret::from(*secret);
    s.diffie_hellman(&x25519_dalek::PublicKey::from(*their_public)).to_bytes()
}

/// HMAC-SHA256 (`Hmac::<Sha256>::new_from_slice`, `update`, `finalize`): the
/// result is [`hmac_sha256`] of the arguments and has 32 bytes.
#[verifier::external_body]
fn hmac_sha256_of(key: &[u8], msg: &[u8]) -> (mac: Vec<u8>)
    ensures
        mac@ == hmac_sha256(key@, msg@),
        mac@.len() == 32,
{
    let mut m = <hmac::Hmac<sha2::Sha256> as Mac>::new_from_slice(key).expect("HMAC accepts keys of any length");
    m.update(msg);
    m.finalize().into_bytes().to_vec()
}

/// SHA-256 (`Sha256::new`, `update`, `finalize`): the result is [`sha256`]
/// of the argument and has 32 bytes.
#[verifier::external_body]
fn sha256_of(content: &[u8]) -> (digest: Vec<u8>)
    ensures
        digest@ == sha256(content@),
        digest@.len() == 32,
{
    let mut h = sha2::Sha256::new();
    h.update(content);
    h.finalize().to_vec()
}

/// The lowercase hexadecimal digit of `n` (`0 <= n < 16`).
pub open spec fn hex_digit(n: int) -> char {
    if n < 10 {
        (n + 48) as char
    } else {
        (n + 87) as char
    }
}

/// The lowercase hexadecimal encoding of `bytes`, two digits per byte.
pub open spec fn hex_lower(bytes: Seq<u8>) -> Seq<char>
    decreases bytes.len(),
{
    if bytes.len() == 0 {
        Seq::empty()
    } else {
        hex_lower(bytes.drop_last()) + seq![hex_digit(bytes.last() as int / 16), hex_digit(bytes.last() as int % 16)]
    }
}

/// `hex::encode`: lowercase hexadecimal, two digits per byte.
#[verifier::external_body]
fn hex_encode(bytes: &[u8]) -> (s: String)
    ensures
        s@ == hex_lower(bytes@),
{
    hex::encode(bytes)
}

/// Generate a fresh X25519 identity: a random secret key and its public key.
pub fn generate_identity() -> (keys: ([u8; 32], [u8; 32]))
    ensures
        keys.1@ == x25519_public_key(keys.0@),
{
    let secret = random_secret();
    let public = public_key_of(&secret);
    (secret, public)
}

/// The shared secret of our secret key and a peer's public key. Both sides of
/// a pairing derive the same secret: when `their_public` is the public key of
/// `other`, the result is what `other` derives from our public key.
pub fn derive_shared_secret(our_secret: &[u8; 32], their_public: &[u8; 32]) -> (shared: [u8; 32])
    ensures
        shared@ == x25519_shared(our_secret@, their_public@),
        forall|other: Seq<u8>| other.len() == 32 && their_public@ == #[trigger] x25519_public_key(other)
            ==> shared@ == x25519_shared(other, x25519_public_key(our_secret@)),
{
    diffie_hellman(our_secret, their_public)
}

/// The HMAC key that PINs are derived under: the bytes of "maccy-pin-v1".
pub open spec fn pin_key() -> Seq<u8> {
    seq![109u8, 97u8, 99u8, 99u8, 121u8, 45u8, 112u8, 105u8, 110u8, 45u8, 118u8, 49u8]
}

/// The decimal digit `d` (`0 <= d < 10`).
pub open spec fn decimal_digit(d: int) -> char {
    (d + 48) as char
}

/// `n % 1_000_000` written with exactly six decimal digits.
pub open spec fn six_digits(n: int) -> Seq<char> {
    let v = n % 1_000_000;
    seq![
        decimal_digit(v / 100_000),
        decimal_digit(v / 10_000 % 10),
        decimal_digit(v / 1_000 % 10),
        decimal_digit(v / 100 % 10),
        decimal_digit(v / 10 % 10),
        decimal_digit(v % 10),
    ]
}

/// The big-endian number of the first four bytes of `b`.
pub open spec fn be_u32(b: Seq<u8>) -> int {
    b[0] * 16777216 + b[1] * 65536 + b[2] * 256 + b[3]
}

/// The PIN of a shared secret: the first four bytes of its HMAC-SHA256 under
/// [`pin_key`], big-endian, modulo one million, as six decimal digits.
pub open spec fn pin_of(shared: Seq<u8>) -> Seq<char> {
    six_digits(be_u32(hmac_sha256(pin_key(), shared)))
}

fn digit_char(d: u32) -> (c: char)
    requires
        d < 10,
    ensures
        c == decimal_digit(d as int),
{
    let c = match d {
        0 => '0',
        1 => '1',
        2 => '2',
        3 => '3',
        4 => '4',
        5 => '5',
        6 => '6',
        7 => '7',
        8 => '8',
        _ => '9',
    };
    assert(c == decimal_digit(d as int)) by {
        assert(('0' as int) == 48);
        assert(('9' as int) == 57);
    }
    c
}

/// `n % 1_000_000` written with exactly six decimal digits (`format!("{:06}", ..)`).
pub fn format_six_digits(n: u32) -> (s: String)
    ensures
        s@ == six_digits(n as int),
{
    let v = n % 1_000_000;
    let mut s = String::new();
    push_char(&mut s, digit_char(v / 100_000));
    push_char(&mut s, digit_char(v / 10_000 % 10));
    push_char(&mut s, digit_char(v / 1_000 % 10));
    push_char(&mut s, digit_char(v / 100 % 10));
    push_char(&mut s, digit_char(v / 10 % 10));
    push_char(&mut s, digit_char(v % 10));
    assert(s@ =~= six_digits(n as int));
    s
}

/// The six-digit PIN that both sides of a pairing display (see [`pin_of`]).
pub fn derive_pin(shared_secret: &[u8; 32]) -> (pin: String)
    ensures
        pin@ == pin_of(shared_secret@),
        pin@.len() == 6,
        forall|i: int| 0 <= i < 6 ==> '0' <= #[trigger] pin@[i] <= '9',
{
    let key: [u8; 12] = [109, 97, 99, 99, 121, 45, 112, 105, 110, 45, 118, 49];
    assert(key@ =~= pin_key());
    let mac = hmac_sha256_of(&key, shared_secret);
    let value: u32 = (mac[0] as u32) * 16777216 + (mac[1] as u32) * 65536 + (mac[2] as u32) * 256 + (mac[3] as u32);
    let pin = format_six_digits(value);
    assert forall|i: int| 0 <= i < 6 implies '0' <= #[trigger] pin@[i] <= '9' by {
        assert(('0' as int) == 48);
        assert(('9' as int) == 57);
    }
    pin
}

/// The SHA-256 digest of `content`, as lowercase hexadecimal.
pub fn hash_content(content: &[u8]) -> (hash: String)
    ensures
        hash@ == hex_lower(sha256(content@)),
        hash@.len() == 64,
{
    let digest = sha256_of(content);
    let hash = hex_encode(digest.as_slice());
    proof { lemma_hex_len(digest@); }
    hash
}

proof fn lemma_hex_len(b: Seq<u8>)
    ensures
        hex_lower(b).len() == 2 * b.len(),
    decreases b.len(),
{
    if b.len() > 0 {
        lemma_hex_len(b.drop_last());
    }
}

/// Both sides of a pairing show the same PIN: when each side derives the
/// shared secret (as [`derive_shared_secret`] states it) from its own secret
/// key and the other's public key, the PINs of the two secrets are equal.
pub proof fn law_pin_agreement(ours: Seq<u8>, theirs: Seq<u8>, shared_ours: Seq<u8>, shared_theirs: Seq<u8>)
    requires
        ours.len() == 32,
        theirs.len() == 32,
        shared_ours == x25519_shared(ours, x25519_public_key(theirs)),
        forall|other: Seq<u8>| other.len() == 32 && x25519_public_key(theirs) == #[trigger] x25519_public_key(other)
            ==> shared_ours == x25519_shared(other, x25519_public_key(ours)),
        shared_theirs == x25519_shared(theirs, x25519_public_key(ours)),
    ensures
        shared_ours == shared_theirs,
        pin_of(shared_ours) == pin_of(shared_theirs),
{
    assert(x25519_public_key(theirs) == x25519_public_key(theirs));
}

/// The number that a text of decimal digits writes.
pub open spec fn decimal_value(s: Seq<char>) -> int
    decreases s.len(),
{
    if s.len() == 0 {
        0
    } else {
        decimal_value(s.drop_last()) * 10 + ((s.last() as int) - 48)
    }
}

proof fn lemma_six_digits_value(w: int)
    requires
        0 <= w < 1_000_000,
    ensures
        w / 100_000 * 100_000 + w / 10_000 % 10 * 10_000 + w / 1_000 % 10 * 1_000
            + w / 100 % 10 * 100 + w / 10 % 10 * 10 + w % 10 == w,
        0 <= w / 100_000 < 10,
{
    assert(w / 100_000 * 100_000 + w / 10_000 % 10 * 10_000 + w / 1_000 % 10 * 1_000
        + w / 100 % 10 * 100 + w / 10 % 10 * 10 + w % 10 == w) by (nonlinear_arith)
        requires 0 <= w < 1_000_000;
    assert(0 <= w / 100_000 < 10) by (nonlinear_arith)
        requires 0 <= w < 1_000_000;
}

/// The PIN that both sides show is the first four bytes of the HMAC-SHA256
/// of the shared secret under the key "maccy-pin-v1", read big-endian (the
/// first byte most significant), modulo one million, written with exactly
/// six decimal digits.
pub proof fn law_pin_value(shared: Seq<u8>)
    ensures
        ({
            let mac = hmac_sha256(pin_key(), shared);
            let pin = pin_of(shared);
            &&& pin.len() == 6
            &&& forall|i: int| 0 <= i < 6 ==> '0' <= #[trigger] pin[i] <= '9'
            &&& decimal_value(pin) == (((mac[0] as int) * 256 + (mac[1] as int)) * 256 + (mac[2] as int)) * 256 + (mac[3] as int)
                - ((((mac[0] as int) * 256 + (mac[1] as int)) * 256 + (mac[2] as int)) * 256 + (mac[3] as int)) / 1_000_000 * 1_000_000
        }),
{
    let mac = hmac_sha256(pin_key(), shared);
    let v = (((mac[0] as int) * 256 + (mac[1] as int)) * 256 + (mac[2] as int)) * 256 + (mac[3] as int);
    assert(be_u32(mac) == v);
    let w = v % 1_000_000;
    assert(0 <= w < 1_000_000);
    lemma_six_digits_value(w);
    assert(v - v / 1_000_000 * 1_000_000 == w) by (nonlinear_arith)
        requires w == v % 1_000_000, v >= 0;
    let pin = pin_of(shared);
    assert(pin == six_digits(v));
    assert(('0' as int) == 48);
    assert(('9' as int) == 57);
    assert forall|i: int| 0 <= i < 6 implies '0' <= #[trigger] pin[i] <= '9' by {
        assert(0 <= w / 10_000 % 10 < 10);
        assert(0 <= w / 1_000 % 10 < 10);
        assert(0 <= w / 100 % 10 < 10);
        assert(0 <= w / 10 % 10 < 10);
    }
    let d = pin;
    assert(d.take(0) =~= Seq::<char>::empty());
    assert(d.drop_last().drop_last().drop_last().drop_last().drop_last().drop_last() =~= Seq::<char>::empty());
    assert(decimal_value(d) == w / 100_000 * 100_000 + w / 10_000 % 10 * 10_000 + w / 1_000 % 10 * 1_000
        + w / 100 % 10 * 100 + w / 10 % 10 * 10 + w % 10) by {
        reveal_with_fuel(decimal_value, 7);
    }
}

} // verus!
