//! Keys, signatures and the ratchet as the services share them.
//!
//! Keys are held as bytes. What the ciphers, the key derivation and the
//! curves compute is named in `primitives`; this module says which of them
//! is applied to what.

use vstd::prelude::*;
use crate::primitives::{
    aes256_gcm_open, aes256_gcm_opened, aes256_gcm_seal, aes256_gcm_sealed,
    chacha20_poly1305_open, chacha20_poly1305_opened, chacha20_poly1305_seal,
    chacha20_poly1305_sealed, ed25519_public, ed25519_public_key, ed25519_random_secret,
    ed25519_sign, ed25519_signature, ed25519_verifies, ed25519_verify, hkdf_sha256,
    hkdf_sha256_expand, x25519_diffie_hellman, x25519_public, x25519_public_key,
    x25519_random_secret, x25519_shared,
};

verus! {

/// How a cryptographic operation failed.
#[derive(Debug, Clone, Copy, PartialEq, Eq, Structural)]
pub enum CryptoError {
    EncryptionError,
    DecryptionError,
    InvalidKey,
    InvalidSignature,
    KeyGenerationError,
}

impl CryptoError {
    /// What the error says.
    pub fn message(&self) -> (s: &'static str)
        ensures
            s@ == match *self {
                CryptoError::EncryptionError => "Encryption failed"@,
                CryptoError::DecryptionError => "Decryption failed"@,
                CryptoError::InvalidKey => "Invalid key"@,
                CryptoError::InvalidSignature => "Invalid signature"@,
                CryptoError::KeyGenerationError => "Key generation failed"@,
            },
    {
        match self {
            CryptoError::EncryptionError => "Encryption failed",
            CryptoError::DecryptionError => "Decryption failed",
            CryptoError::InvalidKey => "Invalid key",
            CryptoError::InvalidSignature => "Invalid signature",
            CryptoError::KeyGenerationError => "Key generation failed",
        }
    }
}

/// The purpose under which message keys are derived.
pub open spec fn message_key_info() -> Seq<u8> {
    seq![109u8, 101, 115, 115, 97, 103, 101, 95, 107, 101, 121]
}

/// The purpose under which the ratchet derives its next keys.
pub open spec fn ratchet_info() -> Seq<u8> {
    seq![100u8, 111, 117, 98, 108, 101, 95, 114, 97, 116, 99, 104, 101, 116]
}

/// The bytes of `message_key`.
pub fn message_key_label() -> (label: Vec<u8>)
    ensures
        label@ == message_key_info(),
{
    let label: Vec<u8> = vec![109u8, 101, 115, 115, 97, 103, 101, 95, 107, 101, 121];
    assert(label@ =~= message_key_info());
    label
}

/// The bytes of `double_ratchet`.
pub fn ratchet_label() -> (label: Vec<u8>)
    ensures
        label@ == ratchet_info(),
{
    let label: Vec<u8> = vec![
        100u8,
        111,
        117,
        98,
        108,
        101,
        95,
        114,
        97,
        116,
        99,
        104,
        101,
        116,
    ];
    assert(label@ =~= ratchet_info());
    label
}

/// Copies 32 bytes, beginning at `from`, out of a longer string.
pub fn take_key(bytes: &Vec<u8>, from: usize) -> (key: [u8; 32])
    requires
        from + 32 <= bytes@.len(),
    ensures
        key@ == bytes@.subrange(from as int, from + 32),
{
    let mut key = [0u8; 32];
    let mut i: usize = 0;
    let n = bytes.len();
    while i < 32
        invariant
            i <= 32,
            n == bytes@.len(),
            from + 32 <= bytes@.len(),
            forall|j: int| 0 <= j < i ==> key@[j] == bytes@[from + j],
        decreases 32 - i,
    {
        key[i] = bytes[from + i];
        i = i + 1;
    }
    assert(key@ =~= bytes@.subrange(from as int, from + 32));
    key
}

/// The first twelve bytes of a longer nonce.
pub fn short_nonce(nonce: &[u8; 24]) -> (short: [u8; 12])
    ensures
        short@ == nonce@.subrange(0, 12),
{
    let mut short = [0u8; 12];
    let mut i: usize = 0;
    while i < 12
        invariant
            i <= 12,
            forall|j: int| 0 <= j < i ==> short@[j] == nonce@[j],
        decreases 12 - i,
    {
        short[i] = nonce[i];
        i = i + 1;
    }
    assert(short@ =~= nonce@.subrange(0, 12));
    short
}

/// The key under which a chain key encrypts the next message.
pub open spec fn spec_message_key(chain_key: Seq<u8>) -> Seq<u8> {
    hkdf_sha256(chain_key, message_key_info(), 32)
}

/// Derives the key under which a chain key encrypts the next message.
pub fn derive_message_key(chain_key: &[u8; 32]) -> (key: [u8; 32])
    ensures
        key@ == spec_message_key(chain_key@),
{
    let label = message_key_label();
    let okm = hkdf_sha256_expand(chain_key.as_slice(), label.as_slice(), 32);
    let key = take_key(&okm, 0);
    assert(okm@.subrange(0, 32) =~= okm@);
    key
}

/// A signing key pair and a key pair for key agreement.
#[derive(Debug)]
pub struct KeyPair {
    pub signing_key: [u8; 32],
    pub verifying_key: [u8; 32],
    pub diffie_hellman_secret: [u8; 32],
    pub diffie_hellman_public: [u8; 32],
}

impl KeyPair {
    /// Whether the public keys belong to the secrets.
    pub open spec fn matched(&self) -> bool {
        self.verifying_key@ == ed25519_public(self.signing_key@) && self.diffie_hellman_public@
            == x25519_public(self.diffie_hellman_secret@)
    }

    /// The key pair of two secrets.
    pub fn from_secrets(signing_key: [u8; 32], diffie_hellman_secret: [u8; 32]) -> (pair: KeyPair)
        ensures
            pair.signing_key == signing_key,
            pair.diffie_hellman_secret == diffie_hellman_secret,
            pair.matched(),
    {
        let verifying_key = ed25519_public_key(&signing_key);
        let diffie_hellman_public = x25519_public_key(&diffie_hellman_secret);
        KeyPair { signing_key, verifying_key, diffie_hellman_secret, diffie_hellman_public }
    }

    /// A key pair of fresh random secrets.
    pub fn generate() -> (pair: Result<KeyPair, CryptoError>)
        ensures
            pair matches Ok(p) && p.matched(),
    {
        let signing_key = ed25519_random_secret();
        let diffie_hellman_secret = x25519_random_secret();
        Ok(Self::from_secrets(signing_key, diffie_hellman_secret))
    }

    /// Signs a message.
    pub fn sign(&self, message: &[u8]) -> (signature: [u8; 64])
        ensures
            signature@ == ed25519_signature(self.signing_key@, message@),
    {
        ed25519_sign(&self.signing_key, message)
    }

    /// Checks a signature of a message against the verifying key.
    pub fn verify(&self, message: &[u8], signature: &[u8; 64]) -> (result: Result<
        (),
        CryptoError,
    >)
        ensures
            result == signature_verdict(
                ed25519_verifies(self.verifying_key@, message@, signature@),
            ),
    {
        check_signature(ed25519_verify(&self.verifying_key, message, signature))
    }
}

/// What a check of a signature is answered.
pub open spec fn signature_verdict(good: bool) -> Result<(), CryptoError> {
    if good {
        Ok(())
    } else {
        Err(CryptoError::InvalidSignature)
    }
}

/// Says what a check of a signature is answered.
pub fn check_signature(good: bool) -> (result: Result<(), CryptoError>)
    ensures
        result == signature_verdict(good),
{
    if good {
        Ok(())
    } else {
        Err(CryptoError::InvalidSignature)
    }
}

/// The state of a double ratchet.
#[derive(Debug)]
pub struct DoubleRatchet {
    root_key: [u8; 32],
    sending_chain_key: [u8; 32],
    receiving_chain_key: [u8; 32],
    sending_ratchet_key: [u8; 32],
    receiving_ratchet_key: [u8; 32],
    message_number: u32,
    prev_sending_chain_length: u32,
    prev_receiving_chain_length: u32,
}

/// A ratchet as mathematical values.
pub struct RatchetView {
    pub root_key: Seq<u8>,
    pub sending_chain_key: Seq<u8>,
    pub receiving_chain_key: Seq<u8>,
    /// The secret half of the ratchet's own key.
    pub sending_ratchet_key: Seq<u8>,
    /// The public key of the other side.
    pub receiving_ratchet_key: Seq<u8>,
    pub message_number: u32,
    pub prev_sending_chain_length: u32,
    pub prev_receiving_chain_length: u32,
}

impl RatchetView {
    /// The 64 bytes from which a ratchet step takes its next root key and
    /// sending chain key: derived from the root key followed by the secret
    /// that `secret` and `public` share.
    pub open spec fn step_material(self, secret: Seq<u8>, public: Seq<u8>) -> Seq<u8> {
        hkdf_sha256(self.root_key + x25519_shared(secret, public), ratchet_info(), 64)
    }

    /// The ratchet after a step in which `new_secret` becomes its own key.
    pub open spec fn stepped(self, new_secret: Seq<u8>) -> RatchetView {
        let okm = self.step_material(self.sending_ratchet_key, self.receiving_ratchet_key);
        RatchetView {
            root_key: okm.subrange(0, 32),
            sending_chain_key: okm.subrange(32, 64),
            sending_ratchet_key: new_secret,
            message_number: 0,
            prev_sending_chain_length: (self.prev_sending_chain_length + 1) as u32,
            ..self
        }
    }
}

impl View for DoubleRatchet {
    type V = RatchetView;

    closed spec fn view(&self) -> RatchetView {
        RatchetView {
            root_key: self.root_key@,
            sending_chain_key: self.sending_chain_key@,
            receiving_chain_key: self.receiving_chain_key@,
            sending_ratchet_key: self.sending_ratchet_key@,
            receiving_ratchet_key: self.receiving_ratchet_key@,
            message_number: self.message_number,
            prev_sending_chain_length: self.prev_sending_chain_length,
            prev_receiving_chain_length: self.prev_receiving_chain_length,
        }
    }
}

/// What sealing a message is answered: the ciphertext with a nonce of 24
/// zero bytes, or a failure.
pub open spec fn sealed_message(sealed: Option<Seq<u8>>) -> Result<(Seq<u8>, Seq<u8>), CryptoError> {
    match sealed {
        Some(c) => Ok((c, Seq::new(24, |i: int| 0u8))),
        None => Err(CryptoError::EncryptionError),
    }
}

/// What opening a message is answered.
pub open spec fn opened_message(opened: Option<Seq<u8>>) -> Result<Seq<u8>, CryptoError> {
    match opened {
        Some(p) => Ok(p),
        None => Err(CryptoError::DecryptionError),
    }
}

/// Says what sealing a message is answered.
pub fn package_sealed(sealed: Option<Vec<u8>>) -> (result: Result<(Vec<u8>, [u8; 24]), CryptoError>)
    ensures
        match result {
            Ok(out) => sealed matches Some(c) && out.0@ == c@ && out.1@ == Seq::new(
                24,
                |i: int| 0u8,
            ),
            Err(e) => sealed is None && e == CryptoError::EncryptionError,
        },
{
    match sealed {
        Some(c) => {
            let nonce = [0u8; 24];
            assert(nonce@ =~= Seq::new(24, |i: int| 0u8));
            Ok((c, nonce))
        },
        None => Err(CryptoError::EncryptionError),
    }
}

/// Says what opening a message is answered.
pub fn package_opened(opened: Option<Vec<u8>>) -> (result: Result<Vec<u8>, CryptoError>)
    ensures
        match result {
            Ok(p) => opened matches Some(q) && p@ == q@,
            Err(e) => opened is None && e == CryptoError::DecryptionError,
        },
{
    match opened {
        Some(p) => Ok(p),
        None => Err(CryptoError::DecryptionError),
    }
}

impl DoubleRatchet {
    /// A ratchet that has sent nothing yet.
    pub fn new(
        root_key: [u8; 32],
        sending_chain_key: [u8; 32],
        receiving_chain_key: [u8; 32],
        sending_ratchet_key: [u8; 32],
        receiving_ratchet_key: [u8; 32],
    ) -> (ratchet: DoubleRatchet)
        ensures
            ratchet@ == (RatchetView {
                root_key: root_key@,
                sending_chain_key: sending_chain_key@,
                receiving_chain_key: receiving_chain_key@,
                sending_ratchet_key: sending_ratchet_key@,
                receiving_ratchet_key: receiving_ratchet_key@,
                message_number: 0,
                prev_sending_chain_length: 0,
                prev_receiving_chain_length: 0,
            }),
    {
        DoubleRatchet {
            root_key,
            sending_chain_key,
            receiving_chain_key,
            sending_ratchet_key,
            receiving_ratchet_key,
            message_number: 0,
            prev_sending_chain_length: 0,
            prev_receiving_chain_length: 0,
        }
    }

    /// Encrypts a message under the key of the sending chain, with
    /// ChaCha20-Poly1305 and a nonce of zero bytes. The ratchet stays as it
    /// is.
    pub fn encrypt_message(&mut self, plaintext: &[u8]) -> (result: Result<
        (Vec<u8>, [u8; 24]),
        CryptoError,
    >)
        ensures
            final(self)@ == old(self)@,
            match result {
                Ok(out) => sealed_message(
                    chacha20_poly1305_sealed(
                        spec_message_key(old(self)@.sending_chain_key),
                        Seq::new(12, |i: int| 0u8),
                        plaintext@,
                    ),
                ) == Ok::<(Seq<u8>, Seq<u8>), CryptoError>((out.0@, out.1@)),
                Err(e) => sealed_message(
                    chacha20_poly1305_sealed(
                        spec_message_key(old(self)@.sending_chain_key),
                        Seq::new(12, |i: int| 0u8),
                        plaintext@,
                    ),
                ) == Err::<(Seq<u8>, Seq<u8>), CryptoError>(e),
            },
    {
        let message_key = derive_message_key(&self.sending_chain_key);
        let nonce = [0u8; 12];
        assert(nonce@ =~= Seq::new(12, |i: int| 0u8));
        package_sealed(chacha20_poly1305_seal(&message_key, &nonce, plaintext))
    }

    /// Decrypts a message under the key of the receiving chain, with the
    /// first twelve bytes of the nonce. The ratchet stays as it is.
    pub fn decrypt_message(&mut self, ciphertext: &[u8], nonce: &[u8; 24]) -> (result: Result<
        Vec<u8>,
        CryptoError,
    >)
        ensures
            final(self)@ == old(self)@,
            match result {
                Ok(p) => opened_message(
                    chacha20_poly1305_opened(
                        spec_message_key(old(self)@.receiving_chain_key),
                        nonce@.subrange(0, 12),
                        ciphertext@,
                    ),
                ) == Ok::<Seq<u8>, CryptoError>(p@),
                Err(e) => opened_message(
                    chacha20_poly1305_opened(
                        spec_message_key(old(self)@.receiving_chain_key),
                        nonce@.subrange(0, 12),
                        ciphertext@,
                    ),
                ) == Err::<Seq<u8>, CryptoError>(e),
            },
    {
        let message_key = derive_message_key(&self.receiving_chain_key);
        let short = short_nonce(nonce);
        package_opened(chacha20_poly1305_open(&message_key, &short, ciphertext))
    }

    /// Takes a ratchet step with `new_secret` as the ratchet's next own
    /// key: a new root key and a new sending chain key are derived from the
    /// root key and the secret shared with the other side, the message
    /// count starts again, and one more sending chain is counted.
    pub fn step_with(&mut self, new_secret: [u8; 32])
        requires
            old(self)@.prev_sending_chain_length < u32::MAX,
        ensures
            final(self)@ == old(self)@.stepped(new_secret@),
    {
        let shared = x25519_diffie_hellman(&self.sending_ratchet_key, &self.receiving_ratchet_key);
        let mut kdf_input: Vec<u8> = Vec::new();
        kdf_input.extend_from_slice(self.root_key.as_slice());
        kdf_input.extend_from_slice(shared.as_slice());
        assert(kdf_input@ =~= self.root_key@ + shared@);
        let label = ratchet_label();
        let okm = hkdf_sha256_expand(kdf_input.as_slice(), label.as_slice(), 64);
        self.root_key = take_key(&okm, 0);
        self.sending_chain_key = take_key(&okm, 32);
        self.sending_ratchet_key = new_secret;
        self.message_number = 0;
        self.prev_sending_chain_length = self.prev_sending_chain_length + 1;
    }

    /// Number of sending chains that the ratchet has left behind.
    pub fn sending_chains(&self) -> (n: u32)
        ensures
            n == self@.prev_sending_chain_length,
    {
        self.prev_sending_chain_length
    }

    /// Number of messages sent on the current chain.
    pub fn message_number(&self) -> (n: u32)
        ensures
            n == self@.message_number,
    {
        self.message_number
    }

    /// Takes a ratchet step with a fresh random key, unless no further
    /// sending chain can be counted. Returns whether the step was taken.
    pub fn try_ratchet_step(&mut self) -> (stepped: bool)
        ensures
            stepped == (old(self)@.prev_sending_chain_length < u32::MAX),
            stepped ==> exists|new_secret: Seq<u8>| final(self)@ == old(self)@.stepped(new_secret),
            !stepped ==> final(self)@ == old(self)@,
    {
        if self.prev_sending_chain_length < u32::MAX {
            self.perform_ratchet_step();
            true
        } else {
            false
        }
    }

    /// Takes a ratchet step with a fresh random key.
    pub fn perform_ratchet_step(&mut self)
        requires
            old(self)@.prev_sending_chain_length < u32::MAX,
        ensures
            exists|new_secret: Seq<u8>| final(self)@ == old(self)@.stepped(new_secret),
    {
        let new_secret = x25519_random_secret();
        self.step_with(new_secret);
    }
}

/// What sealing with AES-256-GCM is answered: the ciphertext with the
/// nonce that was used, or a failure.
pub fn package_aes_sealed(sealed: Option<Vec<u8>>, nonce: [u8; 12]) -> (result: Result<
    (Vec<u8>, [u8; 12]),
    CryptoError,
>)
    ensures
        match result {
            Ok(out) => sealed matches Some(c) && out.0@ == c@ && out.1 == nonce,
            Err(e) => sealed is None && e == CryptoError::EncryptionError,
        },
{
    match sealed {
        Some(c) => Ok((c, nonce)),
        None => Err(CryptoError::EncryptionError),
    }
}

/// Encrypts with AES-256-GCM under a nonce of twelve zero bytes.
pub fn encrypt_aes_gcm(key: &[u8; 32], plaintext: &[u8]) -> (result: Result<
    (Vec<u8>, [u8; 12]),
    CryptoError,
>)
    ensures
        match result {
            Ok(out) => aes256_gcm_sealed(key@, Seq::new(12, |i: int| 0u8), plaintext@) == Some(
                out.0@,
            ) && out.1@ == Seq::new(12, |i: int| 0u8),
            Err(e) => aes256_gcm_sealed(key@, Seq::new(12, |i: int| 0u8), plaintext@) is None && e
                == CryptoError::EncryptionError,
        },
{
    let nonce = [0u8; 12];
    assert(nonce@ =~= Seq::new(12, |i: int| 0u8));
    package_aes_sealed(aes256_gcm_seal(key, &nonce, plaintext), nonce)
}

/// Decrypts with AES-256-GCM.
pub fn decrypt_aes_gcm(key: &[u8; 32], ciphertext: &[u8], nonce: &[u8; 12]) -> (result: Result<
    Vec<u8>,
    CryptoError,
>)
    ensures
        match result {
            Ok(p) => aes256_gcm_opened(key@, nonce@, ciphertext@) == Some(p@),
            Err(e) => aes256_gcm_opened(key@, nonce@, ciphertext@) is None && e
                == CryptoError::DecryptionError,
        },
{
    package_opened(aes256_gcm_open(key, nonce, ciphertext))
}

/// The secret that a local secret and a remote public key share.
pub fn generate_shared_secret(local_secret: &[u8; 32], remote_public: &[u8; 32]) -> (shared: [u8;
    32])
    ensures
        shared@ == x25519_shared(local_secret@, remote_public@),
{
    x25519_diffie_hellman(local_secret, remote_public)
}

} // verus!
