//! Sealing of the silkscreen artifacts: a fresh AES key and nonce, each
//! wrapped with the manufacturer's RSA key, before the AES-GCM ciphertext.
//!
//! The ciphers are those of the `rsa` and `aes-gcm` crates. What they compute
//! is named here and not specified; what is proved is how the parts are laid
//! out in a sealed file.

use crate::error::TransJlcError;
use aes_gcm::aead::generic_array::typenum::U16;
use aes_gcm::aead::generic_array::GenericArray;
use aes_gcm::aead::Aead;
use aes_gcm::aead::KeyInit;
use aes_gcm::aes::Aes128;
use aes_gcm::AesGcm;
use rand::rngs::OsRng;
use rand::RngCore;
use rsa::pkcs8::DecodePublicKey;
use rsa::Oaep;
use rsa::RsaPublicKey;
use sha2::Sha256;
use vstd::prelude::*;

verus! {

/// The number of bytes of an AES-128 key, and of the nonce used with it.
pub const KEY_LEN: usize = 16;

/// The number of bytes that OAEP with SHA-256 adds to a message: the message
/// must be this much shorter than the RSA modulus.
pub const OAEP_OVERHEAD: usize = 66;

/// The longest plaintext that AES-GCM seals.
pub const MAX_PLAINTEXT_LEN: u64 = 0x10_0000_0000;

/// The size in bytes of the modulus of the RSA public key that a PEM text
/// holds, as `RsaPublicKey::from_public_key_pem` reads it; `None` for a text
/// that holds no such key.
pub uninterp spec fn rsa_key_size(pem: Seq<char>) -> Option<nat>;

/// What AES-128-GCM makes of a plaintext under a key and a nonce of 16 bytes
/// each, without associated data: the ciphertext, then the tag.
pub uninterp spec fn aes128_gcm_seal(key: Seq<u8>, nonce: Seq<u8>, plaintext: Seq<u8>) -> Seq<u8>;

/// Reads the public key from the PEM text with
/// `RsaPublicKey::from_public_key_pem` and encrypts the message with
/// `RsaPublicKey::encrypt` under OAEP with SHA-256. The padding is drawn from
/// the system's random source, so nothing is claimed of the bytes but their
/// number: a ciphertext is as long as the modulus. The call succeeds exactly
/// if the text holds a key and the message is short enough for the padding.
#[verifier::external_body]
pub(crate) fn rsa_oaep_encrypt(pem: &str, message: &[u8]) -> (r: Option<Vec<u8>>)
    ensures
        r is Some == (rsa_key_size(pem@) is Some && message@.len() + OAEP_OVERHEAD
            <= rsa_key_size(pem@)->0),
        r is Some ==> r->0@.len() == rsa_key_size(pem@)->0,
{
    let key = RsaPublicKey::from_public_key_pem(pem).ok()?;
    key.encrypt(&mut OsRng, Oaep::new::<Sha256>(), message).ok()
}

/// Seals a plaintext with `Aead::encrypt` of AES-128-GCM with a nonce of 16
/// bytes. The result is the ciphertext with the tag of 16 bytes after it. The
/// call succeeds exactly if the plaintext is no longer than the cipher
/// allows.
#[verifier::external_body]
pub(crate) fn aes_gcm_encrypt(key: &[u8; 16], nonce: &[u8; 16], plaintext: &[u8]) -> (r: Option<
    Vec<u8>,
>)
    ensures
        r is Some == (plaintext@.len() <= MAX_PLAINTEXT_LEN),
        r is Some ==> r->0@ == aes128_gcm_seal(key@, nonce@, plaintext@),
        r is Some ==> r->0@.len() == plaintext@.len() + 16,
{
    let cipher = AesGcm::<Aes128, U16>::new_from_slice(key).ok()?;
    cipher.encrypt(GenericArray::<u8, U16>::from_slice(nonce), plaintext).ok()
}

/// Draws 16 bytes from the system's random source with
/// `OsRng.try_fill_bytes`. `None` stands for a source that failed. Nothing is
/// claimed of the bytes.
#[verifier::external_body]
pub(crate) fn random_block() -> (r: Option<[u8; 16]>) {
    let mut block = [0u8; 16];
    match OsRng.try_fill_bytes(&mut block) {
        Ok(()) => Some(block),
        Err(_) => None,
    }
}

/// The AES key and nonce of one run, with their RSA-wrapped forms.
pub struct KeyMaterial {
    aes_key: [u8; 16],
    aes_iv: [u8; 16],
    enc_key: Vec<u8>,
    enc_iv: Vec<u8>,
}

/// Whether a PEM text holds an RSA public key large enough to wrap an AES
/// key.
pub open spec fn can_wrap(pem: Seq<char>) -> bool {
    rsa_key_size(pem) is Some && KEY_LEN + OAEP_OVERHEAD <= rsa_key_size(pem)->0
}

/// The bytes of a sealed file: the wrapped key, the wrapped nonce, and what
/// AES-GCM makes of the plaintext.
pub open spec fn sealed(material: KeyMaterial, plaintext: Seq<u8>) -> Seq<u8> {
    material.wrapped_key() + material.wrapped_iv() + aes128_gcm_seal(
        material.key(),
        material.iv(),
        plaintext,
    )
}

impl KeyMaterial {
    /// The AES key.
    pub closed spec fn key(&self) -> Seq<u8> {
        self.aes_key@
    }

    /// The AES nonce.
    pub closed spec fn iv(&self) -> Seq<u8> {
        self.aes_iv@
    }

    /// The AES key as wrapped with the RSA key.
    pub closed spec fn wrapped_key(&self) -> Seq<u8> {
        self.enc_key@
    }

    /// The AES nonce as wrapped with the RSA key.
    pub closed spec fn wrapped_iv(&self) -> Seq<u8> {
        self.enc_iv@
    }

    /// Wraps the given AES key and nonce with the RSA public key of the PEM
    /// text. Succeeds exactly if the text holds a key that is large enough.
    /// Each wrapped part is as long as the key's modulus.
    pub fn wrap(public_key_pem: &str, aes_key: [u8; 16], aes_iv: [u8; 16]) -> (r: Result<
        KeyMaterial,
        TransJlcError,
    >)
        ensures
            match r {
                Ok(material) => {
                    &&& can_wrap(public_key_pem@)
                    &&& material.key() == aes_key@
                    &&& material.iv() == aes_iv@
                    &&& material.wrapped_key().len() == rsa_key_size(public_key_pem@)->0
                    &&& material.wrapped_iv().len() == rsa_key_size(public_key_pem@)->0
                },
                Err(e) => !can_wrap(public_key_pem@) && e is EncryptionFailed,
            },
    {
        let enc_key = match rsa_oaep_encrypt(public_key_pem, aes_key.as_slice()) {
            Some(bytes) => bytes,
            None => {
                return Err(TransJlcError::EncryptionFailed { reason: "Encrypt AES key".to_owned() });
            },
        };
        let enc_iv = match rsa_oaep_encrypt(public_key_pem, aes_iv.as_slice()) {
            Some(bytes) => bytes,
            None => {
                return Err(TransJlcError::EncryptionFailed { reason: "Encrypt AES IV".to_owned() });
            },
        };
        Ok(KeyMaterial { aes_key, aes_iv, enc_key, enc_iv })
    }

    /// Draws a fresh AES key and nonce from the system's random source and
    /// wraps them with the RSA public key of the PEM text. Fails if the text
    /// holds no key that is large enough, or if the random source fails.
    pub fn generate(public_key_pem: &str) -> (r: Result<KeyMaterial, TransJlcError>)
        ensures
            match r {
                Ok(material) => {
                    &&& can_wrap(public_key_pem@)
                    &&& material.key().len() == KEY_LEN
                    &&& material.iv().len() == KEY_LEN
                    &&& material.wrapped_key().len() == rsa_key_size(public_key_pem@)->0
                    &&& material.wrapped_iv().len() == rsa_key_size(public_key_pem@)->0
                },
                Err(e) => e is EncryptionFailed,
            },
            !can_wrap(public_key_pem@) ==> r is Err,
    {
        let aes_key = match random_block() {
            Some(block) => block,
            None => {
                return Err(
                    TransJlcError::EncryptionFailed { reason: "Random source failed".to_owned() },
                );
            },
        };
        let aes_iv = match random_block() {
            Some(block) => block,
            None => {
                return Err(
                    TransJlcError::EncryptionFailed { reason: "Random source failed".to_owned() },
                );
            },
        };
        Self::wrap(public_key_pem, aes_key, aes_iv)
    }
}

/// Seals a plaintext: the wrapped key, the wrapped nonce, then the AES-GCM
/// ciphertext with its tag. Fails exactly if the plaintext is longer than the
/// cipher allows.
pub fn encrypt_payload(plaintext: &[u8], key_material: &KeyMaterial) -> (r: Result<
    Vec<u8>,
    TransJlcError,
>)
    ensures
        match r {
            Ok(bytes) => {
                &&& plaintext@.len() <= MAX_PLAINTEXT_LEN
                &&& bytes@ == sealed(*key_material, plaintext@)
                &&& bytes@.len() == key_material.wrapped_key().len()
                    + key_material.wrapped_iv().len() + plaintext@.len() + 16
            },
            Err(e) => plaintext@.len() > MAX_PLAINTEXT_LEN && e is EncryptionFailed,
        },
{
    let ciphertext = match aes_gcm_encrypt(&key_material.aes_key, &key_material.aes_iv, plaintext) {
        Some(bytes) => bytes,
        None => {
            return Err(
                TransJlcError::EncryptionFailed { reason: "Encrypt silkscreen SVG".to_owned() },
            );
        },
    };
    let mut out: Vec<u8> = Vec::new();
    append_bytes(&mut out, key_material.enc_key.as_slice());
    append_bytes(&mut out, key_material.enc_iv.as_slice());
    append_bytes(&mut out, ciphertext.as_slice());
    Ok(out)
}

/// Appends `tail` to `buf`.
pub fn append_bytes(buf: &mut Vec<u8>, tail: &[u8])
    ensures
        final(buf)@ == old(buf)@ + tail@,
{
    let mut i: usize = 0;
    while i < tail.len()
        invariant
            i <= tail@.len(),
            buf@ == old(buf)@ + tail@.take(i as int),
        decreases tail@.len() - i,
    {
        buf.push(tail[i]);
        i += 1;
    }
    assert(tail@.take(tail@.len() as int) == tail@);
}

/// What is left of a sealed file once the two wrapped parts are taken off
/// its front is what AES-GCM made of the plaintext, so that whoever unwraps
/// the key and the nonce can open it.
pub proof fn lemma_sealed_tail(material: KeyMaterial, plaintext: Seq<u8>)
    ensures
        sealed(material, plaintext).skip(
            (material.wrapped_key().len() + material.wrapped_iv().len()) as int,
        ) == aes128_gcm_seal(material.key(), material.iv(), plaintext),
        sealed(material, plaintext).take(material.wrapped_key().len() as int)
            == material.wrapped_key(),
        sealed(material, plaintext).subrange(
            material.wrapped_key().len() as int,
            (material.wrapped_key().len() + material.wrapped_iv().len()) as int,
        ) == material.wrapped_iv(),
{
    let whole = sealed(material, plaintext);
    let head = material.wrapped_key() + material.wrapped_iv();
    assert(whole.skip(head.len() as int) =~= aes128_gcm_seal(
        material.key(),
        material.iv(),
        plaintext,
    ));
    assert(whole.take(material.wrapped_key().len() as int) =~= material.wrapped_key());
    assert(whole.subrange(material.wrapped_key().len() as int, head.len() as int)
        =~= material.wrapped_iv());
}

} // verus!
