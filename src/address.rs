use vstd::prelude::*;
use crate::hex::{hex_of, lemma_hex_of_digits, lemma_hex_of_len, to_hex_string};
use crate::pattern::is_hex_digit;
use tiny_keccak::Hasher;

verus! {

/// Bytes of a secret key.
pub const SECRET_KEY_BYTES: usize = 32;

/// Bytes of an address.
pub const ADDRESS_BYTES: usize = 20;

/// Bytes of a Keccak-256 digest.
pub const KECCAK_OUTPUT_BYTES: usize = 32;

/// Where the address starts within the digest: its last 20 bytes.
pub const ADDRESS_BYTE_INDEX: usize = 12;

/// Bytes of an uncompressed public key: a tag byte, then both coordinates.
pub const PUBLIC_KEY_BYTES: usize = 65;

/// Order of the secp256k1 group, big-endian.
pub open spec fn curve_order() -> Seq<u8> {
    seq![
        0xffu8, 0xff, 0xff, 0xff, 0xff, 0xff, 0xff, 0xff,
        0xff, 0xff, 0xff, 0xff, 0xff, 0xff, 0xff, 0xfe,
        0xba, 0xae, 0xdc, 0xe6, 0xaf, 0x48, 0xa0, 0x3b,
        0xbf, 0xd2, 0x5e, 0x8c, 0xd0, 0x36, 0x41, 0x41,
    ]
}

/// A secret key: 32 bytes, big-endian, neither zero nor at or above the group order.
pub open spec fn is_valid_secret(s: Seq<u8>) -> bool {
    &&& s.len() == SECRET_KEY_BYTES
    &&& exists|i: int| 0 <= i < s.len() && s[i] != 0
    &&& exists|i: int| 0 <= i < s.len() && s.take(i) == curve_order().take(i) && s[i] < curve_order()[i]
}

/// An address as text: 40 lowercase hex digits.
pub open spec fn is_address(s: Seq<char>) -> bool {
    &&& s.len() == 2 * ADDRESS_BYTES
    &&& forall|i: int| 0 <= i < s.len() ==> is_hex_digit(#[trigger] s[i])
}

/// The uncompressed serialisation of the public key of a secret key.
pub uninterp spec fn public_key_of(secret: Seq<u8>) -> Seq<u8>;

/// The Keccak-256 digest of some bytes.
pub uninterp spec fn keccak256(data: Seq<u8>) -> Seq<u8>;

/// The address of a secret key: the last 20 bytes of the Keccak-256 digest of
/// its public key's coordinates, in lowercase hex.
pub open spec fn address_of(secret: Seq<u8>) -> Seq<char> {
    hex_of(keccak256(public_key_of(secret).subrange(1, 65)).subrange(12, 32))
}

/// Relies on `secp256k1::SecretKey::from_slice`: accepts 32 bytes that are
/// neither zero nor at or above the curve order.
#[verifier::external_body]
fn secret_key_is_valid(secret: &[u8; 32]) -> (r: bool)
    ensures
        r == is_valid_secret(secret@),
{
    secp256k1::SecretKey::from_slice(secret).is_ok()
}

/// Relies on `secp256k1::SecretKey::new`, drawing from the operating system's
/// secure source until the bytes form a valid key. Panics if that source fails.
#[verifier::external_body]
fn draw_secret_key() -> (r: [u8; 32])
    ensures
        is_valid_secret(r@),
{
    secp256k1::SecretKey::new(&mut rand::rngs::OsRng).secret_bytes()
}

/// Relies on `secp256k1::PublicKey::from_secret_key_global` and
/// `serialize_uncompressed`: 65 bytes, the tag 4 and then both coordinates.
#[verifier::external_body]
fn uncompressed_public_key(secret: &[u8; 32]) -> (r: [u8; 65])
    requires
        is_valid_secret(secret@),
    ensures
        r@ == public_key_of(secret@),
{
    let key = secp256k1::SecretKey::from_slice(secret).unwrap();
    secp256k1::PublicKey::from_secret_key_global(&key).serialize_uncompressed()
}

/// Relies on `tiny_keccak::Keccak::v256`: the 32-byte Keccak-256 digest.
#[verifier::external_body]
fn keccak256_digest(data: &[u8]) -> (r: [u8; 32])
    ensures
        r@ == keccak256(data@),
{
    let mut hasher = tiny_keccak::Keccak::v256();
    hasher.update(data);
    let mut output = [0u8; 32];
    hasher.finalize(&mut output);
    output
}

/// Copies `s[from..to]`.
fn copy_range(s: &[u8], from: usize, to: usize) -> (r: Vec<u8>)
    requires
        from <= to <= s@.len(),
    ensures
        r@ == s@.subrange(from as int, to as int),
{
    let mut r: Vec<u8> = Vec::new();
    let mut i: usize = from;
    while i < to
        invariant
            from <= i <= to <= s@.len(),
            r@ == s@.subrange(from as int, i as int),
        decreases to - i,
    {
        r.push(s[i]);
        i = i + 1;
        assert(r@ =~= s@.subrange(from as int, i as int));
    }
    r
}

/// A candidate: a secret key and its address.
pub struct Candidate {
    pub private_key: [u8; 32],
    pub address: String,
}

/// The address of a valid secret key.
pub fn derive_address(secret: &[u8; 32]) -> (r: String)
    requires
        is_valid_secret(secret@),
    ensures
        r@ == address_of(secret@),
        is_address(r@),
{
    let public_key = uncompressed_public_key(secret);
    let coordinates = copy_range(public_key.as_slice(), 1, PUBLIC_KEY_BYTES);
    let digest = keccak256_digest(coordinates.as_slice());
    let tail = copy_range(digest.as_slice(), ADDRESS_BYTE_INDEX, KECCAK_OUTPUT_BYTES);
    proof {
        lemma_hex_of_len(tail@);
        lemma_hex_of_digits(tail@);
    }
    to_hex_string(tail.as_slice(), 2 * ADDRESS_BYTES)
}

/// The address of `secret`, or `None` where it is no valid secret key.
pub fn address_from_secret(secret: &[u8; 32]) -> (r: Option<String>)
    ensures
        r is Some <==> is_valid_secret(secret@),
        r matches Some(a) ==> a@ == address_of(secret@) && is_address(a@),
{
    if secret_key_is_valid(secret) {
        Some(derive_address(secret))
    } else {
        None
    }
}

/// The address depends on the secret key alone: the same 32 bytes always give
/// the same address.
pub proof fn lemma_address_deterministic(a: Seq<u8>, b: Seq<u8>)
    requires
        is_valid_secret(a),
        a == b,
    ensures
        address_of(a) == address_of(b),
{
}

/// A fresh secret key from the operating system's secure source, and its address.
pub fn generate() -> (r: Candidate)
    ensures
        is_valid_secret(r.private_key@),
        r.address@ == address_of(r.private_key@),
        is_address(r.address@),
{
    let private_key = draw_secret_key();
    let address = derive_address(&private_key);
    Candidate { private_key, address }
}

} // verus!
