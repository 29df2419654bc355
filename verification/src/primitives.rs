//! The cryptographic primitives that the library relies on. None of them is
//! implemented here: each function below hands its arguments to a crate
//! that implements the primitive, and what it returns is taken on trust.

use vstd::prelude::*;
use aes_gcm::aead::{Aead, KeyInit};
use ed25519_dalek::{Signer, Verifier};

verus! {

/// Length of a symmetric or curve key in bytes.
pub const KEY_LEN: usize = 32;

/// Length of the nonce of either cipher in bytes.
pub const NONCE_LEN: usize = 12;

/// Length of an Ed25519 signature in bytes.
pub const SIGNATURE_LEN: usize = 64;

/// Most bytes that one HKDF-SHA-256 expansion yields: 255 blocks of 32.
pub const HKDF_MAX_LEN: usize = 8160;

/// What AES-256-GCM makes of a plaintext under a key and a nonce, without
/// associated data: the ciphertext with the tag at its end, or nothing
/// where the cipher refuses.
pub uninterp spec fn aes256_gcm_sealed(key: Seq<u8>, nonce: Seq<u8>, plaintext: Seq<u8>) -> Option<
    Seq<u8>,
>;

/// What AES-256-GCM makes of a ciphertext under a key and a nonce: the
/// plaintext, or nothing where the ciphertext is not authentic.
pub uninterp spec fn aes256_gcm_opened(key: Seq<u8>, nonce: Seq<u8>, ciphertext: Seq<u8>) -> Option<
    Seq<u8>,
>;

/// What ChaCha20-Poly1305 makes of a plaintext under a key and a nonce,
/// without associated data.
pub uninterp spec fn chacha20_poly1305_sealed(key: Seq<u8>, nonce: Seq<u8>, plaintext: Seq<u8>)
    -> Option<Seq<u8>>;

/// What ChaCha20-Poly1305 makes of a ciphertext under a key and a nonce.
pub uninterp spec fn chacha20_poly1305_opened(key: Seq<u8>, nonce: Seq<u8>, ciphertext: Seq<u8>)
    -> Option<Seq<u8>>;

/// The first `len` bytes that HKDF-SHA-256 derives from key material
/// `ikm`, without salt, for the purpose `info`.
pub uninterp spec fn hkdf_sha256(ikm: Seq<u8>, info: Seq<u8>, len: nat) -> Seq<u8>;

/// The X25519 public key of a secret.
pub uninterp spec fn x25519_public(secret: Seq<u8>) -> Seq<u8>;

/// The X25519 secret that a secret and somebody else's public key share.
pub uninterp spec fn x25519_shared(secret: Seq<u8>, public: Seq<u8>) -> Seq<u8>;

/// The Ed25519 public key of a secret key.
pub uninterp spec fn ed25519_public(secret: Seq<u8>) -> Seq<u8>;

/// The Ed25519 signature of a message under a secret key.
pub uninterp spec fn ed25519_signature(secret: Seq<u8>, message: Seq<u8>) -> Seq<u8>;

/// Whether a signature of a message is good under an Ed25519 public key.
pub uninterp spec fn ed25519_verifies(public: Seq<u8>, message: Seq<u8>, signature: Seq<u8>)
    -> bool;

/// The scalar bytes of an Ed25519 secret key: the first half of its hash.
pub uninterp spec fn ed25519_scalar(secret: Seq<u8>) -> Seq<u8>;

/// The tag that HMAC-SHA-256 computes of a message under a key.
pub uninterp spec fn hmac_sha256_tag(key: Seq<u8>, message: Seq<u8>) -> Seq<u8>;

/// The 32 bytes that Argon2id, version 19, derives from a password and a
/// salt with a memory of 19 MiB, two passes and one lane; nothing where the
/// salt or the password is refused.
pub uninterp spec fn argon2id_hash(password: Seq<u8>, salt: Seq<u8>) -> Option<Seq<u8>>;

/// The text that standard base64, with padding, makes of bytes.
pub uninterp spec fn base64_text(bytes: Seq<u8>) -> Seq<char>;

/// `Aes256Gcm::encrypt` of the `aes-gcm` crate with an empty associated
/// data. The result depends on key, nonce and plaintext alone.
#[verifier::external_body]
pub(crate) fn aes256_gcm_seal(key: &[u8; 32], nonce: &[u8; 12], plaintext: &[u8]) -> (sealed: Option<
    Vec<u8>,
>)
    ensures
        match sealed {
            Some(c) => aes256_gcm_sealed(key@, nonce@, plaintext@) == Some(c@),
            None => aes256_gcm_sealed(key@, nonce@, plaintext@) is None,
        },
{
    let cipher = aes_gcm::Aes256Gcm::new(key.into());
    cipher.encrypt(aes_gcm::Nonce::from_slice(nonce), plaintext).ok()
}

/// `Aes256Gcm::decrypt` of the `aes-gcm` crate with an empty associated
/// data. The result depends on key, nonce and ciphertext alone.
#[verifier::external_body]
pub(crate) fn aes256_gcm_open(key: &[u8; 32], nonce: &[u8; 12], ciphertext: &[u8]) -> (opened: Option<
    Vec<u8>,
>)
    ensures
        match opened {
            Some(p) => aes256_gcm_opened(key@, nonce@, ciphertext@) == Some(p@),
            None => aes256_gcm_opened(key@, nonce@, ciphertext@) is None,
        },
{
    let cipher = aes_gcm::Aes256Gcm::new(key.into());
    cipher.decrypt(aes_gcm::Nonce::from_slice(nonce), ciphertext).ok()
}

/// `ChaCha20Poly1305::encrypt` of the `chacha20poly1305` crate with an
/// empty associated data. The result depends on key, nonce and plaintext
/// alone.
#[verifier::external_body]
pub(crate) fn chacha20_poly1305_seal(key: &[u8; 32], nonce: &[u8; 12], plaintext: &[u8]) -> (sealed:
    Option<Vec<u8>>)
    ensures
        match sealed {
            Some(c) => chacha20_poly1305_sealed(key@, nonce@, plaintext@) == Some(c@),
            None => chacha20_poly1305_sealed(key@, nonce@, plaintext@) is None,
        },
{
    let cipher = chacha20poly1305::ChaCha20Poly1305::new(chacha20poly1305::Key::from_slice(key));
    cipher.encrypt(chacha20poly1305::Nonce::from_slice(nonce), plaintext).ok()
}

/// `ChaCha20Poly1305::decrypt` of the `chacha20poly1305` crate with an
/// empty associated data. The result depends on key, nonce and ciphertext
/// alone.
#[verifier::external_body]
pub(crate) fn chacha20_poly1305_open(key: &[u8; 32], nonce: &[u8; 12], ciphertext: &[u8]) -> (opened:
    Option<Vec<u8>>)
    ensures
        match opened {
            Some(p) => chacha20_poly1305_opened(key@, nonce@, ciphertext@) == Some(p@),
            None => chacha20_poly1305_opened(key@, nonce@, ciphertext@) is None,
        },
{
    let cipher = chacha20poly1305::ChaCha20Poly1305::new(chacha20poly1305::Key::from_slice(key));
    cipher.decrypt(chacha20poly1305::Nonce::from_slice(nonce), ciphertext).ok()
}

/// `Hkdf::<Sha256>::new` without salt, followed by `expand`, of the `hkdf`
/// crate. The expansion fails only where more than 255 blocks of 32 bytes
/// are asked for, which the caller must not do; it fills the whole output,
/// and the bytes depend on the key material, the purpose and the length
/// alone.
#[verifier::external_body]
pub(crate) fn hkdf_sha256_expand(ikm: &[u8], info: &[u8], len: usize) -> (okm: Vec<u8>)
    requires
        len <= HKDF_MAX_LEN,
    ensures
        okm@ == hkdf_sha256(ikm@, info@, len as nat),
        okm@.len() == len,
{
    let mut okm = vec![0u8; len];
    hkdf::Hkdf::<sha2::Sha256>::new(None, ikm)
        .expand(info, &mut okm)
        .expect("at most 255 blocks are asked for");
    okm
}

/// `PublicKey::from(&StaticSecret)` of the `x25519-dalek` crate.
#[verifier::external_body]
pub(crate) fn x25519_public_key(secret: &[u8; 32]) -> (public: [u8; 32])
    ensures
        public@ == x25519_public(secret@),
{
    x25519_dalek::PublicKey::from(&x25519_dalek::StaticSecret::from(*secret)).to_bytes()
}

/// `StaticSecret::diffie_hellman` of the `x25519-dalek` crate.
#[verifier::external_body]
pub(crate) fn x25519_diffie_hellman(secret: &[u8; 32], public: &[u8; 32]) -> (shared: [u8; 32])
    ensures
        shared@ == x25519_shared(secret@, public@),
{
    let secret = x25519_dalek::StaticSecret::from(*secret);
    secret.diffie_hellman(&x25519_dalek::PublicKey::from(*public)).to_bytes()
}

/// `StaticSecret::random_from_rng` of the `x25519-dalek` crate with the
/// operating system's generator: 32 random bytes.
#[verifier::external_body]
pub(crate) fn x25519_random_secret() -> (secret: [u8; 32]) {
    x25519_dalek::StaticSecret::random_from_rng(rand::rngs::OsRng).to_bytes()
}

/// `SigningKey::generate` of the `ed25519-dalek` crate with the operating
/// system's generator: a random secret key.
#[verifier::external_body]
pub(crate) fn ed25519_random_secret() -> (secret: [u8; 32]) {
    ed25519_dalek::SigningKey::generate(&mut rand::rngs::OsRng).to_bytes()
}

/// `SigningKey::verifying_key` of the `ed25519-dalek` crate.
#[verifier::external_body]
pub(crate) fn ed25519_public_key(secret: &[u8; 32]) -> (public: [u8; 32])
    ensures
        public@ == ed25519_public(secret@),
{
    ed25519_dalek::SigningKey::from_bytes(secret).verifying_key().to_bytes()
}

/// `SigningKey::sign` of the `ed25519-dalek` crate. Ed25519 signatures are
/// deterministic: the result depends on key and message alone.
#[verifier::external_body]
pub(crate) fn ed25519_sign(secret: &[u8; 32], message: &[u8]) -> (signature: [u8; 64])
    ensures
        signature@ == ed25519_signature(secret@, message@),
{
    ed25519_dalek::SigningKey::from_bytes(secret).sign(message).to_bytes()
}

/// `VerifyingKey::verify` of the `ed25519-dalek` crate. Bytes that are no
/// public key verify nothing.
#[verifier::external_body]
pub(crate) fn ed25519_verify(public: &[u8; 32], message: &[u8], signature: &[u8; 64]) -> (good:
    bool)
    ensures
        good == ed25519_verifies(public@, message@, signature@),
{
    match ed25519_dalek::VerifyingKey::from_bytes(public) {
        Ok(key) => key.verify(message, &ed25519_dalek::Signature::from_bytes(signature)).is_ok(),
        Err(_) => false,
    }
}

/// `SigningKey::to_scalar_bytes` of the `ed25519-dalek` crate.
#[verifier::external_body]
pub(crate) fn ed25519_scalar_bytes(secret: &[u8; 32]) -> (scalar: [u8; 32])
    ensures
        scalar@ == ed25519_scalar(secret@),
{
    ed25519_dalek::SigningKey::from_bytes(secret).to_scalar_bytes()
}

/// `RngCore::fill_bytes` of the `rand` crate on the thread's generator: 12
/// random bytes.
#[verifier::external_body]
pub(crate) fn random_nonce() -> (nonce: [u8; 12]) {
    let mut nonce = [0u8; 12];
    rand::RngCore::fill_bytes(&mut rand::thread_rng(), &mut nonce);
    nonce
}

/// `Mac::update` and `Mac::finalize` on an `Hmac<Sha256>` of the `hmac`
/// crate. HMAC takes a key of any length; the tag depends on key and
/// message alone.
#[verifier::external_body]
pub(crate) fn hmac_sha256(key: &[u8], message: &[u8]) -> (tag: Vec<u8>)
    ensures
        tag@ == hmac_sha256_tag(key@, message@),
{
    let mut mac = <hmac::Hmac<sha2::Sha256> as hmac::Mac>::new_from_slice(key)
        .expect("HMAC takes a key of any length");
    hmac::Mac::update(&mut mac, message);
    hmac::Mac::finalize(mac).into_bytes().to_vec()
}

/// `Argon2::hash_password_into` of the `argon2` crate with the default
/// parameters and an output of 32 bytes. The result depends on password
/// and salt alone.
#[verifier::external_body]
pub(crate) fn argon2id(password: &[u8], salt: &[u8]) -> (hash: Option<Vec<u8>>)
    ensures
        match hash {
            Some(h) => argon2id_hash(password@, salt@) == Some(h@),
            None => argon2id_hash(password@, salt@) is None,
        },
{
    let mut out = vec![0u8; 32];
    match argon2::Argon2::default().hash_password_into(password, salt, &mut out) {
        Ok(()) => Some(out),
        Err(_) => None,
    }
}

/// `Engine::encode` of the `base64` crate's standard engine. The length of
/// the text must fit: four characters for every three bytes begun.
#[verifier::external_body]
pub(crate) fn base64_encode(bytes: &[u8]) -> (text: String)
    requires
        bytes@.len() / 3 * 4 + 4 <= usize::MAX,
    ensures
        text@ == base64_text(bytes@),
{
    base64::Engine::encode(&base64::engine::general_purpose::STANDARD, bytes)
}

} // verus!
