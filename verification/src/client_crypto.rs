//! The client's side of the cryptography: its ratchet, its key agreement
//! and the ciphers with nonces drawn at random.

use vstd::prelude::*;
use vstd::string::StringExecFns;
use crate::crypto::{derive_message_key, ratchet_label, spec_message_key, take_key, RatchetView};
use crate::primitives::{
    aes256_gcm_open, aes256_gcm_opened, aes256_gcm_seal, aes256_gcm_sealed,
    chacha20_poly1305_open, chacha20_poly1305_opened, chacha20_poly1305_seal,
    chacha20_poly1305_sealed, ed25519_random_secret, ed25519_scalar, ed25519_scalar_bytes,
    hkdf_sha256, hkdf_sha256_expand, random_nonce, x25519_diffie_hellman, x25519_random_secret,
};

verus! {

/// How a cryptographic operation of the client failed, with what the
/// failing part had to say.
#[derive(Debug)]
pub enum CryptoError {
    EncryptionFailed(String),
    DecryptionFailed(String),
    KeyGenerationFailed(String),
    InvalidKey(String),
    InvalidSignature(String),
}

/// What a cipher says when it fails.
pub open spec fn cipher_failure() -> Seq<char> {
    "aead::Error"@
}

/// What is said when no further sending chain can be counted.
pub open spec fn chain_count_failure() -> Seq<char> {
    "too many sending chains"@
}

/// The purpose under which the key agreement derives the shared secret.
pub open spec fn x3dh_info() -> Seq<u8> {
    seq![120u8, 51, 100, 104]
}

/// The bytes of `x3dh`.
pub fn x3dh_label() -> (label: Vec<u8>)
    ensures
        label@ == x3dh_info(),
{
    let label: Vec<u8> = vec![120u8, 51, 100, 104];
    assert(label@ =~= x3dh_info());
    label
}

/// What sealing under `nonce` is answered: the ciphertext with the nonce,
/// or the cipher's failure.
pub fn package_sealed(sealed: Option<Vec<u8>>, nonce: [u8; 12]) -> (result: Result<
    (Vec<u8>, [u8; 12]),
    CryptoError,
>)
    ensures
        match result {
            Ok(out) => sealed matches Some(c) && out.0@ == c@ && out.1 == nonce,
            Err(e) => sealed is None && (e matches CryptoError::EncryptionFailed(m) && m@
                == cipher_failure()),
        },
{
    match sealed {
        Some(c) => Ok((c, nonce)),
        None => Err(CryptoError::EncryptionFailed(String::from_str("aead::Error"))),
    }
}

/// What opening is answered: the plaintext, or the cipher's failure.
pub fn package_opened(opened: Option<Vec<u8>>) -> (result: Result<Vec<u8>, CryptoError>)
    ensures
        match result {
            Ok(p) => opened matches Some(q) && p@ == q@,
            Err(e) => opened is None && (e matches CryptoError::DecryptionFailed(m) && m@
                == cipher_failure()),
        },
{
    match opened {
        Some(p) => Ok(p),
        None => Err(CryptoError::DecryptionFailed(String::from_str("aead::Error"))),
    }
}

/// The client's double ratchet.
#[derive(Debug)]
pub struct DoubleRatchet {
    root_key: [u8; 32],
    sending_chain_key: [u8; 32],
    receiving_chain_key: [u8; 32],
    sending_ratchet_key: [u8; 32],
    receiving_ratchet_key: [u8; 32],
    message_number: u32,
    prev_sending_chain_length: u32,
    prev_receiving_chain_length: u32,
}

impl View for DoubleRatchet {
    type V = RatchetView;

    closed spec fn view(&self) -> RatchetView {
        RatchetView {
            root_key: self.root_key@,
            sending_chain_key: self.sending_chain_key@,
            receiving_chain_key: self.receiving_chain_key@,
            sending_ratchet_key: self.sending_ratchet_key@,
            receiving_ratchet_key: self.receiving_ratchet_key@,
            message_number: self.message_number,
            prev_sending_chain_length: self.prev_sending_chain_length,
            prev_receiving_chain_length: self.prev_receiving_chain_length,
        }
    }
}

/// The ratchet after a step towards the other side's new key `received`,
/// in which `new_secret` becomes the ratchet's own key.
pub open spec fn stepped_towards(r: RatchetView, received: Seq<u8>, new_secret: Seq<u8>)
    -> RatchetView {
    let okm = r.step_material(r.sending_ratchet_key, received);
    RatchetView {
        root_key: okm.subrange(0, 32),
        sending_chain_key: okm.subrange(32, 64),
        sending_ratchet_key: new_secret,
        receiving_ratchet_key: received,
        message_number: 0,
        prev_sending_chain_length: (r.prev_sending_chain_length + 1) as u32,
        ..r
    }
}

impl DoubleRatchet {
    /// A ratchet that has sent nothing yet.
    pub fn new(
        root_key: [u8; 32],
        sending_chain_key: [u8; 32],
        receiving_chain_key: [u8; 32],
        sending_ratchet_key: [u8; 32],
        receiving_ratchet_key: [u8; 32],
    ) -> (ratchet: DoubleRatchet)
        ensures
            ratchet@ == (RatchetView {
                root_key: root_key@,
                sending_chain_key: sending_chain_key@,
                receiving_chain_key: receiving_chain_key@,
                sending_ratchet_key: sending_ratchet_key@,
                receiving_ratchet_key: receiving_ratchet_key@,
                message_number: 0,
                prev_sending_chain_length: 0,
                prev_receiving_chain_length: 0,
            }),
    {
        DoubleRatchet {
            root_key,
            sending_chain_key,
            receiving_chain_key,
            sending_ratchet_key,
            receiving_ratchet_key,
            message_number: 0,
            prev_sending_chain_length: 0,
            prev_receiving_chain_length: 0,
        }
    }

    /// Encrypts a message under the key of the sending chain, with
    /// ChaCha20-Poly1305 and the given nonce.
    pub fn encrypt_with_nonce(&self, plaintext: &[u8], nonce: [u8; 12]) -> (result: Result<
        (Vec<u8>, [u8; 12]),
        CryptoError,
    >)
        ensures
            match result {
                Ok(out) => chacha20_poly1305_sealed(
                    spec_message_key(self@.sending_chain_key),
                    nonce@,
                    plaintext@,
                ) == Some(out.0@) && out.1 == nonce,
                Err(e) => chacha20_poly1305_sealed(
                    spec_message_key(self@.sending_chain_key),
                    nonce@,
                    plaintext@,
                ) is None && (e matches CryptoError::EncryptionFailed(m) && m@ == cipher_failure()),
            },
    {
        let message_key = derive_message_key(&self.sending_chain_key);
        package_sealed(chacha20_poly1305_seal(&message_key, &nonce, plaintext), nonce)
    }

    /// Encrypts a message under the key of the sending chain and a nonce
    /// drawn at random. The ratchet stays as it is.
    pub fn encrypt(&mut self, plaintext: &[u8]) -> (result: Result<
        (Vec<u8>, [u8; 12]),
        CryptoError,
    >)
        ensures
            final(self)@ == old(self)@,
            match result {
                Ok(out) => chacha20_poly1305_sealed(
                    spec_message_key(old(self)@.sending_chain_key),
                    out.1@,
                    plaintext@,
                ) == Some(out.0@),
                Err(e) => e matches CryptoError::EncryptionFailed(m) && m@ == cipher_failure(),
            },
    {
        let nonce = Self::generate_nonce();
        self.encrypt_with_nonce(plaintext, nonce)
    }

    /// Decrypts a message under the key of the receiving chain. The
    /// ratchet stays as it is.
    pub fn decrypt(&mut self, ciphertext: &[u8], nonce: &[u8; 12]) -> (result: Result<
        Vec<u8>,
        CryptoError,
    >)
        ensures
            final(self)@ == old(self)@,
            match result {
                Ok(p) => chacha20_poly1305_opened(
                    spec_message_key(old(self)@.receiving_chain_key),
                    nonce@,
                    ciphertext@,
                ) == Some(p@),
                Err(e) => chacha20_poly1305_opened(
                    spec_message_key(old(self)@.receiving_chain_key),
                    nonce@,
                    ciphertext@,
                ) is None && (e matches CryptoError::DecryptionFailed(m) && m@ == cipher_failure()),
            },
    {
        let message_key = derive_message_key(&self.receiving_chain_key);
        package_opened(chacha20_poly1305_open(&message_key, nonce, ciphertext))
    }

    /// Takes a ratchet step towards the other side's new key, with
    /// `new_secret` as the ratchet's next own key. Fails, and changes
    /// nothing, where no further sending chain can be counted.
    pub fn step_with(&mut self, new_receiving_key: [u8; 32], new_secret: [u8; 32]) -> (result:
        Result<(), CryptoError>)
        ensures
            match result {
                Ok(_) => old(self)@.prev_sending_chain_length < u32::MAX && final(self)@
                    == stepped_towards(old(self)@, new_receiving_key@, new_secret@),
                Err(e) => old(self)@.prev_sending_chain_length == u32::MAX && final(self)@
                    == old(self)@ && (e matches CryptoError::KeyGenerationFailed(m) && m@
                    == chain_count_failure()),
            },
    {
        if self.prev_sending_chain_length == u32::MAX {
            return Err(
                CryptoError::KeyGenerationFailed(String::from_str("too many sending chains")),
            );
        }
        let shared = x25519_diffie_hellman(&self.sending_ratchet_key, &new_receiving_key);
        let mut kdf_input: Vec<u8> = Vec::new();
        kdf_input.extend_from_slice(self.root_key.as_slice());
        kdf_input.extend_from_slice(shared.as_slice());
        assert(kdf_input@ =~= self.root_key@ + shared@);
        let label = ratchet_label();
        let okm = hkdf_sha256_expand(kdf_input.as_slice(), label.as_slice(), 64);
        self.root_key = take_key(&okm, 0);
        self.sending_chain_key = take_key(&okm, 32);
        self.receiving_ratchet_key = new_receiving_key;
        self.sending_ratchet_key = new_secret;
        self.message_number = 0;
        self.prev_sending_chain_length = self.prev_sending_chain_length + 1;
        Ok(())
    }

    /// Takes a ratchet step towards the other side's new key, with a fresh
    /// random key of its own.
    pub fn perform_ratchet_step(&mut self, new_receiving_key: [u8; 32]) -> (result: Result<
        (),
        CryptoError,
    >)
        ensures
            match result {
                Ok(_) => old(self)@.prev_sending_chain_length < u32::MAX && exists|
                    new_secret: Seq<u8>,
                |
                    final(self)@ == stepped_towards(old(self)@, new_receiving_key@, new_secret),
                Err(e) => old(self)@.prev_sending_chain_length == u32::MAX && final(self)@
                    == old(self)@,
            },
    {
        let new_secret = x25519_random_secret();
        self.step_with(new_receiving_key, new_secret)
    }

    /// Draws a nonce at random.
    pub fn generate_nonce() -> (nonce: [u8; 12]) {
        random_nonce()
    }
}

/// The bytes of `a` and `b` combined place by place with exclusive or.
pub open spec fn xored(a: Seq<u8>, b: Seq<u8>) -> Seq<u8> {
    Seq::new(32, |i: int| a[i] ^ b[i])
}

/// Combines a local secret with a remote public key place by place.
pub fn dh_calculation(local_secret: &[u8; 32], remote_public: &[u8; 32]) -> (result: [u8; 32])
    ensures
        result@ == xored(local_secret@, remote_public@),
{
    let mut result = [0u8; 32];
    let mut i: usize = 0;
    while i < 32
        invariant
            i <= 32,
            forall|j: int| 0 <= j < i ==> result@[j] == local_secret@[j] ^ remote_public@[j],
        decreases 32 - i,
    {
        result[i] = local_secret[i] ^ remote_public[i];
        i = i + 1;
    }
    assert(result@ =~= xored(local_secret@, remote_public@));
    result
}

/// The client's keys for the key agreement.
#[derive(Debug)]
pub struct X3DH {
    identity_key: [u8; 32],
    signed_pre_key: [u8; 32],
    one_time_keys: Vec<[u8; 32]>,
}

impl X3DH {
    /// The identity key.
    pub closed spec fn identity(&self) -> Seq<u8> {
        self.identity_key@
    }

    /// The signed pre-key.
    pub closed spec fn signed_pre(&self) -> Seq<u8> {
        self.signed_pre_key@
    }

    /// The one-time keys.
    pub closed spec fn one_time(&self) -> Seq<[u8; 32]> {
        self.one_time_keys@
    }

    /// The key material that the agreement derives the shared secret from:
    /// three combinations of the own secrets with the remote keys, and a
    /// fourth where both sides have a one-time key.
    pub open spec fn agreement_material(
        &self,
        remote_identity: Seq<u8>,
        remote_signed_pre: Seq<u8>,
        remote_one_time: Option<Seq<u8>>,
    ) -> Seq<u8> {
        let identity = ed25519_scalar(self.identity());
        let signed_pre = ed25519_scalar(self.signed_pre());
        let first = xored(identity, remote_signed_pre) + xored(signed_pre, remote_identity)
            + xored(signed_pre, remote_signed_pre);
        match remote_one_time {
            Some(k) => if self.one_time().len() > 0 {
                first + xored(ed25519_scalar(self.one_time()[0]@), k)
            } else {
                first
            },
            None => first,
        }
    }

    /// Keys for the agreement from two secrets, without one-time keys.
    pub fn from_secrets(identity_key: [u8; 32], signed_pre_key: [u8; 32]) -> (keys: X3DH)
        ensures
            keys.identity() == identity_key@,
            keys.signed_pre() == signed_pre_key@,
            keys.one_time().len() == 0,
    {
        X3DH { identity_key, signed_pre_key, one_time_keys: Vec::new() }
    }

    /// Keys for the agreement from fresh random secrets.
    pub fn new() -> (keys: X3DH)
        ensures
            keys.one_time().len() == 0,
    {
        let identity_key = ed25519_random_secret();
        let signed_pre_key = ed25519_random_secret();
        Self::from_secrets(identity_key, signed_pre_key)
    }

    /// Number of one-time keys.
    pub fn one_time_key_count(&self) -> (n: usize)
        ensures
            n == self.one_time().len(),
    {
        self.one_time_keys.len()
    }

    /// Adds `count` fresh random one-time keys behind those that are
    /// there.
    pub fn generate_one_time_keys(&mut self, count: usize)
        ensures
            final(self).identity() == old(self).identity(),
            final(self).signed_pre() == old(self).signed_pre(),
            final(self).one_time().len() == old(self).one_time().len() + count,
            final(self).one_time().take(old(self).one_time().len() as int) == old(self).one_time(),
    {
        let mut made: usize = 0;
        let ghost before = self.one_time_keys@;
        proof {
            assert(before.take(before.len() as int) =~= before);
        }
        while made < count
            invariant
                made <= count,
                self.identity_key == old(self).identity_key,
                self.signed_pre_key == old(self).signed_pre_key,
                before == old(self).one_time_keys@,
                self.one_time_keys@.len() == before.len() + made,
                self.one_time_keys@.take(before.len() as int) == before,
            decreases count - made,
        {
            let ghost prev = self.one_time_keys@;
            self.one_time_keys.push(ed25519_random_secret());
            proof {
                assert(self.one_time_keys@.take(before.len() as int) =~= prev.take(
                    before.len() as int,
                ));
            }
            made = made + 1;
        }
    }

    /// Agrees on a shared secret with the owner of the remote keys.
    pub fn perform_key_exchange(
        &self,
        remote_identity_key: &[u8; 32],
        remote_signed_pre_key: &[u8; 32],
        remote_one_time_key: Option<&[u8; 32]>,
    ) -> (result: Result<[u8; 32], CryptoError>)
        ensures
            result matches Ok(secret) && secret@ == hkdf_sha256(
                self.agreement_material(
                    remote_identity_key@,
                    remote_signed_pre_key@,
                    match remote_one_time_key {
                        Some(k) => Some(k@),
                        None => None,
                    },
                ),
                x3dh_info(),
                32,
            ),
    {
        let identity_secret = ed25519_scalar_bytes(&self.identity_key);
        let signed_pre_secret = ed25519_scalar_bytes(&self.signed_pre_key);
        let dh1 = dh_calculation(&identity_secret, remote_signed_pre_key);
        let dh2 = dh_calculation(&signed_pre_secret, remote_identity_key);
        let dh3 = dh_calculation(&signed_pre_secret, remote_signed_pre_key);
        let mut material: Vec<u8> = Vec::new();
        material.extend_from_slice(dh1.as_slice());
        material.extend_from_slice(dh2.as_slice());
        material.extend_from_slice(dh3.as_slice());
        match remote_one_time_key {
            Some(remote) => {
                if self.one_time_keys.len() > 0 {
                    let local = ed25519_scalar_bytes(&self.one_time_keys[0]);
                    let dh4 = dh_calculation(&local, remote);
                    material.extend_from_slice(dh4.as_slice());
                }
            },
            None => {},
        }
        proof {
            let remote = match remote_one_time_key {
                Some(k) => Some(k@),
                None => None,
            };
            assert(material@ =~= self.agreement_material(
                remote_identity_key@,
                remote_signed_pre_key@,
                remote,
            ));
        }
        let label = x3dh_label();
        let okm = hkdf_sha256_expand(material.as_slice(), label.as_slice(), 32);
        let secret = take_key(&okm, 0);
        assert(okm@.subrange(0, 32) =~= okm@);
        Ok(secret)
    }
}

/// Encrypts with AES-256-GCM under the given nonce.
pub fn encrypt_aes_gcm_with_nonce(key: &[u8; 32], plaintext: &[u8], nonce: [u8; 12]) -> (result:
    Result<(Vec<u8>, [u8; 12]), CryptoError>)
    ensures
        match result {
            Ok(out) => aes256_gcm_sealed(key@, nonce@, plaintext@) == Some(out.0@) && out.1
                == nonce,
            Err(e) => aes256_gcm_sealed(key@, nonce@, plaintext@) is None && (
            e matches CryptoError::EncryptionFailed(m) && m@ == cipher_failure()),
        },
{
    package_sealed(aes256_gcm_seal(key, &nonce, plaintext), nonce)
}

/// Encrypts with AES-256-GCM under a nonce drawn at random.
pub fn encrypt_aes_gcm(key: &[u8; 32], plaintext: &[u8]) -> (result: Result<
    (Vec<u8>, [u8; 12]),
    CryptoError,
>)
    ensures
        match result {
            Ok(out) => aes256_gcm_sealed(key@, out.1@, plaintext@) == Some(out.0@),
            Err(e) => e matches CryptoError::EncryptionFailed(m) && m@ == cipher_failure(),
        },
{
    let nonce = random_nonce();
    encrypt_aes_gcm_with_nonce(key, plaintext, nonce)
}

/// Decrypts with AES-256-GCM.
pub fn decrypt_aes_gcm(key: &[u8; 32], ciphertext: &[u8], nonce: &[u8; 12]) -> (result: Result<
    Vec<u8>,
    CryptoError,
>)
    ensures
        match result {
            Ok(p) => aes256_gcm_opened(key@, nonce@, ciphertext@) == Some(p@),
            Err(e) => aes256_gcm_opened(key@, nonce@, ciphertext@) is None && (
            e matches CryptoError::DecryptionFailed(m) && m@ == cipher_failure()),
        },
{
    package_opened(aes256_gcm_open(key, nonce, ciphertext))
}

} // verus!
