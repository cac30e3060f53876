//! Authenticated-encryption envelope with a choice of two AEAD ciphers.
//!
//! The envelope is a self-describing binary wrapper around a ciphertext:
//! `version(=1) | cipher_id | salt(22) | nonce(12) | ciphertext`.  The key
//! is derived from a password with Argon2id and a fresh random salt; the
//! cipher id in the header lets decryption pick the matching algorithm
//! without the caller knowing which one was used.

use vstd::prelude::*;

use crate::error::ArchiveError;
use crate::text::{lower_seq, str_eq, to_ascii_lower};

use aes_gcm::aead::Aead;
use aes_gcm::aead::KeyInit;
use aes_gcm::Aes256Gcm;
use argon2::password_hash::rand_core::OsRng;
use argon2::password_hash::rand_core::RngCore;
use argon2::password_hash::PasswordHasher;
use argon2::password_hash::SaltString;
use chacha20poly1305::ChaCha20Poly1305;

verus! {

/// AEAD cipher selected by job configuration.
#[derive(Debug, Clone, Copy)]
pub enum CipherAlgorithm {
    /// AES-256-GCM: the default, hardware-accelerated on modern CPUs.
    Aes256Gcm,
    /// ChaCha20-Poly1305: constant-time in software, good on older CPUs.
    ChaCha20Poly1305,
}

/// The cipher a configuration name selects, if any (ASCII-case-insensitive).
pub open spec fn cipher_of_name(s: Seq<char>) -> Option<CipherAlgorithm> {
    let l = lower_seq(s);
    if l == "aes-256"@ || l == "aes256"@ || l == "aes"@ {
        Some(CipherAlgorithm::Aes256Gcm)
    } else if l == "chacha20"@ || l == "chacha"@ {
        Some(CipherAlgorithm::ChaCha20Poly1305)
    } else {
        None
    }
}

impl CipherAlgorithm {
    /// Parse a cipher name; unknown names are rejected.
    pub fn from_str(s: &str) -> (r: Result<Self, ArchiveError>)
        ensures
            r is Ok <==> cipher_of_name(s@) is Some,
            r is Ok ==> r->Ok_0 == cipher_of_name(s@)->0,
            r is Err ==> r->Err_0 == ArchiveError::UnknownAlgorithm,
    {
        let l = to_ascii_lower(s);
        if str_eq(l.as_str(), "aes-256") || str_eq(l.as_str(), "aes256") || str_eq(
            l.as_str(),
            "aes",
        ) {
            Ok(CipherAlgorithm::Aes256Gcm)
        } else if str_eq(l.as_str(), "chacha20") || str_eq(l.as_str(), "chacha") {
            Ok(CipherAlgorithm::ChaCha20Poly1305)
        } else {
            Err(ArchiveError::UnknownAlgorithm)
        }
    }

    /// The cipher's display name.
    pub fn name(&self) -> (r: &'static str)
        ensures
            self is Aes256Gcm ==> r@ == "AES-256-GCM"@,
            self is ChaCha20Poly1305 ==> r@ == "ChaCha20-Poly1305"@,
    {
        match self {
            CipherAlgorithm::Aes256Gcm => "AES-256-GCM",
            CipherAlgorithm::ChaCha20Poly1305 => "ChaCha20-Poly1305",
        }
    }
}

/// Hash algorithms of the multi-algorithm checksum generator.
#[derive(Debug, Clone, Copy)]
pub enum HashAlgorithm {
    /// SHA-256: the default, widely supported.
    Sha256,
    /// SHA3-256: the NIST standard successor.
    Sha3_256,
    /// BLAKE3: the fastest of the three.
    Blake3,
}

/// The hash algorithm a configuration name selects, if any
/// (ASCII-case-insensitive).
pub open spec fn ext_hash_of_name(s: Seq<char>) -> Option<HashAlgorithm> {
    let l = lower_seq(s);
    if l == "sha256"@ || l == "sha-256"@ {
        Some(HashAlgorithm::Sha256)
    } else if l == "sha3"@ || l == "sha3-256"@ {
        Some(HashAlgorithm::Sha3_256)
    } else if l == "blake3"@ {
        Some(HashAlgorithm::Blake3)
    } else {
        None
    }
}

impl HashAlgorithm {
    /// Parse a hash algorithm name; unknown names are rejected.
    pub fn from_str(s: &str) -> (r: Result<Self, ArchiveError>)
        ensures
            r is Ok <==> ext_hash_of_name(s@) is Some,
            r is Ok ==> r->Ok_0 == ext_hash_of_name(s@)->0,
            r is Err ==> r->Err_0 == ArchiveError::UnknownAlgorithm,
    {
        let l = to_ascii_lower(s);
        if str_eq(l.as_str(), "sha256") || str_eq(l.as_str(), "sha-256") {
            Ok(HashAlgorithm::Sha256)
        } else if str_eq(l.as_str(), "sha3") || str_eq(l.as_str(), "sha3-256") {
            Ok(HashAlgorithm::Sha3_256)
        } else if str_eq(l.as_str(), "blake3") {
            Ok(HashAlgorithm::Blake3)
        } else {
            Err(ArchiveError::UnknownAlgorithm)
        }
    }

    /// The algorithm's canonical (display) name.
    pub fn name(&self) -> (r: &'static str)
        ensures
            self is Sha256 ==> r@ == "SHA-256"@,
            self is Sha3_256 ==> r@ == "SHA3-256"@,
            self is Blake3 ==> r@ == "BLAKE3"@,
    {
        match self {
            HashAlgorithm::Sha256 => "SHA-256",
            HashAlgorithm::Sha3_256 => "SHA3-256",
            HashAlgorithm::Blake3 => "BLAKE3",
        }
    }
}

/// The cipher id byte written in the envelope header.
pub open spec fn cipher_id(c: CipherAlgorithm) -> u8 {
    match c {
        CipherAlgorithm::Aes256Gcm => 0,
        CipherAlgorithm::ChaCha20Poly1305 => 1,
    }
}

/// The 32-byte key Argon2id (default parameters) derives from a password
/// and a B64-encoded salt string.
pub uninterp spec fn argon2id_key(password: Seq<char>, salt: Seq<u8>) -> Seq<u8>;

/// The ciphertext-with-tag AES-256-GCM produces for a key, nonce and plaintext.
pub uninterp spec fn aes256gcm_seal(key: Seq<u8>, nonce: Seq<u8>, pt: Seq<u8>) -> Seq<u8>;

/// What AES-256-GCM decryption yields for a key, nonce and ciphertext:
/// the plaintext, or nothing when the authentication tag does not check.
pub uninterp spec fn aes256gcm_open(key: Seq<u8>, nonce: Seq<u8>, ct: Seq<u8>) -> Option<Seq<u8>>;

/// The ciphertext-with-tag ChaCha20-Poly1305 produces for a key, nonce and plaintext.
pub uninterp spec fn chacha20poly1305_seal(key: Seq<u8>, nonce: Seq<u8>, pt: Seq<u8>) -> Seq<u8>;

/// What ChaCha20-Poly1305 decryption yields for a key, nonce and ciphertext.
pub uninterp spec fn chacha20poly1305_open(key: Seq<u8>, nonce: Seq<u8>, ct: Seq<u8>) -> Option<
    Seq<u8>,
>;

/// True for the bytes of the standard Base64 alphabet.
pub open spec fn b64_char(b: u8) -> bool {
    (65 <= b <= 90) || (97 <= b <= 122) || (48 <= b <= 57) || b == 43 || b == 47
}

/// A valid KDF salt field: 22 Base64 characters that decode canonically
/// to 16 bytes (the trailing four bits of the last character are zero,
/// so it is one of `A`, `Q`, `g`, `w`).
pub open spec fn valid_salt(salt: Seq<u8>) -> bool {
    &&& salt.len() == 22
    &&& forall|i: int| 0 <= i < 22 ==> b64_char(#[trigger] salt[i])
    &&& (salt[21] == 65 || salt[21] == 81 || salt[21] == 103 || salt[21] == 119)
}

/// Relies on `argon2::password_hash::SaltString::generate`: a fresh salt of
/// 16 random bytes, Base64-encoded as 22 characters (canonical, so the
/// last character is one of `A`, `Q`, `g`, `w`).
#[verifier::external_body]
fn generate_salt() -> (r: Vec<u8>)
    ensures
        valid_salt(r@),
{
    let salt = SaltString::generate(&mut OsRng);
    salt.as_str().as_bytes().to_vec()
}

/// Relies on `rand_core::OsRng::fill_bytes`: 12 random bytes.
#[verifier::external_body]
fn random_nonce() -> (r: Vec<u8>)
    ensures
        r@.len() == 12,
{
    let mut nonce = [0u8; 12];
    OsRng.fill_bytes(&mut nonce);
    nonce.to_vec()
}

/// Relies on `argon2::Argon2::hash_password` (Argon2id, default parameters):
/// the hash is a function of the password and the salt alone, 32 bytes long,
/// and hashing succeeds for every canonically-encoded 22-character salt.
#[verifier::external_body]
fn derive_key(password: &str, salt: &[u8]) -> (r: Vec<u8>)
    requires
        valid_salt(salt@),
        password@.len() <= 0x3FFF_FFFF,
    ensures
        r@ == argon2id_key(password@, salt@),
        r@.len() == 32,
{
    let salt_str = core::str::from_utf8(salt).unwrap();
    let salt_string = SaltString::from_b64(salt_str).unwrap();
    let hash = argon2::Argon2::default().hash_password(password.as_bytes(), &salt_string).unwrap();
    let output = hash.hash.unwrap();
    output.as_bytes()[..32].to_vec()
}

/// Relies on `aes_gcm::Aes256Gcm::encrypt`: deterministic in key, nonce and
/// plaintext; appends a 16-byte tag; decrypting the result with the same
/// key and nonce yields the plaintext again.
#[verifier::external_body]
fn aes_seal(key: &[u8], nonce: &[u8], pt: &[u8]) -> (r: Vec<u8>)
    requires
        key@.len() == 32,
        nonce@.len() == 12,
        pt@.len() <= 0x10_0000_0000,
    ensures
        r@ == aes256gcm_seal(key@, nonce@, pt@),
        r@.len() == pt@.len() + 16,
        aes256gcm_open(key@, nonce@, r@) == Some(pt@),
{
    let cipher = Aes256Gcm::new_from_slice(key).unwrap();
    cipher.encrypt(aes_gcm::Nonce::from_slice(nonce), pt).unwrap()
}

/// Relies on `aes_gcm::Aes256Gcm::decrypt`: deterministic in key, nonce and
/// ciphertext; yields a plaintext only when the authentication tag checks.
#[verifier::external_body]
fn aes_open(key: &[u8], nonce: &[u8], ct: &[u8]) -> (r: Option<Vec<u8>>)
    requires
        key@.len() == 32,
        nonce@.len() == 12,
    ensures
        r is Some <==> aes256gcm_open(key@, nonce@, ct@) is Some,
        r is Some ==> r->0@ == aes256gcm_open(key@, nonce@, ct@)->0,
{
    let cipher = Aes256Gcm::new_from_slice(key).unwrap();
    cipher.decrypt(aes_gcm::Nonce::from_slice(nonce), ct).ok()
}

/// Relies on `chacha20poly1305::ChaCha20Poly1305::encrypt`: deterministic in
/// key, nonce and plaintext; appends a 16-byte tag; decrypting the result
/// with the same key and nonce yields the plaintext again.
#[verifier::external_body]
fn chacha_seal(key: &[u8], nonce: &[u8], pt: &[u8]) -> (r: Vec<u8>)
    requires
        key@.len() == 32,
        nonce@.len() == 12,
        pt@.len() <= 0x10_0000_0000,
    ensures
        r@ == chacha20poly1305_seal(key@, nonce@, pt@),
        r@.len() == pt@.len() + 16,
        chacha20poly1305_open(key@, nonce@, r@) == Some(pt@),
{
    let cipher = ChaCha20Poly1305::new_from_slice(key).unwrap();
    cipher.encrypt(chacha20poly1305::Nonce::from_slice(nonce), pt).unwrap()
}

/// Relies on `chacha20poly1305::ChaCha20Poly1305::decrypt`: deterministic in
/// key, nonce and ciphertext; yields a plaintext only when the tag checks.
#[verifier::external_body]
fn chacha_open(key: &[u8], nonce: &[u8], ct: &[u8]) -> (r: Option<Vec<u8>>)
    requires
        key@.len() == 32,
        nonce@.len() == 12,
    ensures
        r is Some <==> chacha20poly1305_open(key@, nonce@, ct@) is Some,
        r is Some ==> r->0@ == chacha20poly1305_open(key@, nonce@, ct@)->0,
{
    let cipher = ChaCha20Poly1305::new_from_slice(key).unwrap();
    cipher.decrypt(chacha20poly1305::Nonce::from_slice(nonce), ct).ok()
}

/// A well-formed envelope: long enough for its header, version 1, a known
/// cipher id, and a canonically-encoded salt.
pub open spec fn envelope_well_formed(data: Seq<u8>) -> bool {
    &&& data.len() >= 36
    &&& data[0] == 1
    &&& (data[1] == 0 || data[1] == 1)
    &&& valid_salt(data.subrange(2, 24))
}

/// What decrypting an envelope with a password yields: the plaintext when
/// the envelope is well-formed and the tag checks under the derived key,
/// nothing otherwise.
pub open spec fn envelope_open(data: Seq<u8>, password: Seq<char>) -> Option<Seq<u8>> {
    if !envelope_well_formed(data) {
        None
    } else {
        let key = argon2id_key(password, data.subrange(2, 24));
        let nonce = data.subrange(24, 36);
        let ct = data.skip(36);
        if data[1] == 0 {
            aes256gcm_open(key, nonce, ct)
        } else {
            chacha20poly1305_open(key, nonce, ct)
        }
    }
}

/// Copy the byte range `[a, b)` of a slice into a vector.
fn bytes_range(data: &[u8], a: usize, b: usize) -> (r: Vec<u8>)
    requires
        a <= b <= data@.len(),
    ensures
        r@ == data@.subrange(a as int, b as int),
{
    let mut r: Vec<u8> = Vec::new();
    let mut i = a;
    while i < b
        invariant
            a <= i <= b <= data@.len(),
            r@ == data@.subrange(a as int, i as int),
        decreases b - i,
    {
        r.push(data[i]);
        assert(r@ =~= data@.subrange(a as int, i + 1));
        i = i + 1;
    }
    r
}

/// Decide whether a byte slice is a valid canonical salt field.
fn check_salt(salt: &[u8]) -> (r: bool)
    ensures
        r == valid_salt(salt@),
{
    if salt.len() != 22 {
        return false;
    }
    let n = salt.len();
    for i in 0..n
        invariant
            n == salt@.len() == 22,
            forall|k: int| 0 <= k < i ==> b64_char(#[trigger] salt@[k]),
    {
        let b = salt[i];
        let ok = (65 <= b && b <= 90) || (97 <= b && b <= 122) || (48 <= b && b <= 57) || b == 43
            || b == 47;
        if !ok {
            return false;
        }
    }
    let last = salt[21];
    last == 65 || last == 81 || last == 103 || last == 119
}

/// Password-based authenticated encryption with a selectable cipher.
pub struct AdvancedEncryptor {
    password: String,
    cipher: CipherAlgorithm,
}

impl AdvancedEncryptor {
    /// The password this encryptor derives its keys from.
    pub closed spec fn spec_password(&self) -> Seq<char> {
        self.password@
    }

    /// The cipher this encryptor seals with.
    pub closed spec fn spec_cipher(&self) -> CipherAlgorithm {
        self.cipher
    }

    /// Create an encryptor for the given password and cipher.
    pub fn new(password: String, cipher: CipherAlgorithm) -> (r: Self)
        ensures
            r.spec_password() == password@,
            r.spec_cipher() == cipher,
    {
        AdvancedEncryptor { password, cipher }
    }

    /// Encrypt a plaintext into a fresh envelope.
    ///
    /// A new random salt and nonce are drawn for every call, so two
    /// encryptions of the same plaintext differ; whatever envelope comes
    /// out, decrypting it with the same password yields the plaintext
    /// again, under the cipher recorded in its header.
    pub fn encrypt_bytes(&self, plaintext: &[u8]) -> (r: Result<Vec<u8>, ArchiveError>)
        requires
            plaintext@.len() <= 0x10_0000_0000,
            self.spec_password().len() <= 0x3FFF_FFFF,
        ensures
            r is Ok,
            r->Ok_0@.len() == plaintext@.len() + 52,
            r->Ok_0@[0] == 1,
            r->Ok_0@[1] == cipher_id(self.spec_cipher()),
            envelope_open(r->Ok_0@, self.spec_password()) == Some(plaintext@),
    {
        let salt = generate_salt();
        let key = derive_key(self.password.as_str(), salt.as_slice());
        let nonce = random_nonce();
        let ct = match self.cipher {
            CipherAlgorithm::Aes256Gcm => aes_seal(key.as_slice(), nonce.as_slice(), plaintext),
            CipherAlgorithm::ChaCha20Poly1305 => chacha_seal(
                key.as_slice(),
                nonce.as_slice(),
                plaintext,
            ),
        };
        let cid: u8 = match self.cipher {
            CipherAlgorithm::Aes256Gcm => 0,
            CipherAlgorithm::ChaCha20Poly1305 => 1,
        };
        let mut out: Vec<u8> = Vec::new();
        out.push(1u8);
        out.push(cid);
        out.extend_from_slice(salt.as_slice());
        out.extend_from_slice(nonce.as_slice());
        out.extend_from_slice(ct.as_slice());
        proof {
            assert(out@.subrange(2, 24) =~= salt@);
            assert(out@.subrange(24, 36) =~= nonce@);
            assert(out@.skip(36) =~= ct@);
            assert(out@[0] == 1);
            assert(out@[1] == cid);
            assert(envelope_well_formed(out@));
            assert(envelope_open(out@, self.spec_password()) == Some(plaintext@));
        }
        Ok(out)
    }

    /// Decrypt an envelope produced by [`Self::encrypt_bytes`].
    ///
    /// The cipher is read from the envelope header, so the caller need not
    /// know which one was used.  Succeeds exactly when the envelope is
    /// well-formed and its tag checks under the key derived from this
    /// encryptor's password; a failed tag check or a malformed envelope
    /// is an authentication failure, never silent garbage.
    pub fn decrypt_bytes(&self, data: &[u8]) -> (r: Result<Vec<u8>, ArchiveError>)
        requires
            self.spec_password().len() <= 0x3FFF_FFFF,
        ensures
            r is Ok <==> envelope_open(data@, self.spec_password()) is Some,
            r is Ok ==> r->Ok_0@ == envelope_open(data@, self.spec_password())->0,
            r is Err ==> r->Err_0 == ArchiveError::AEADFailure,
    {
        if data.len() < 36 {
            return Err(ArchiveError::AEADFailure);
        }
        if data[0] != 1 {
            return Err(ArchiveError::AEADFailure);
        }
        let cid = data[1];
        if cid != 0 && cid != 1 {
            return Err(ArchiveError::AEADFailure);
        }
        let salt = bytes_range(data, 2, 24);
        if !check_salt(salt.as_slice()) {
            return Err(ArchiveError::AEADFailure);
        }
        let nonce = bytes_range(data, 24, 36);
        let ct = bytes_range(data, 36, data.len());
        let key = derive_key(self.password.as_str(), salt.as_slice());
        let opened = if cid == 0 {
            aes_open(key.as_slice(), nonce.as_slice(), ct.as_slice())
        } else {
            chacha_open(key.as_slice(), nonce.as_slice(), ct.as_slice())
        };
        match opened {
            Some(pt) => Ok(pt),
            None => Err(ArchiveError::AEADFailure),
        }
    }
}

/// The lower-case hex digest of `data` under `algo`.
pub open spec fn ext_digest_hex(algo: HashAlgorithm, data: Seq<u8>) -> Seq<char> {
    match algo {
        HashAlgorithm::Sha256 => crate::crypto::hex_str(crate::crypto::sha256_of(data)),
        HashAlgorithm::Sha3_256 => crate::crypto::hex_str(crate::crypto::sha3_256_of(data)),
        HashAlgorithm::Blake3 => crate::crypto::hex_str(crate::crypto::blake3_of(data)),
    }
}

/// Checksum generator that carries out all three hash algorithms.
pub struct AdvancedChecker;

impl AdvancedChecker {
    /// The digest of `data` under `algorithm`, as 64 lower-case hex
    /// characters.
    pub fn generate_checksum(data: &[u8], algorithm: HashAlgorithm) -> (r: Result<
        String,
        ArchiveError,
    >)
        ensures
            r is Ok,
            r->Ok_0@ == ext_digest_hex(algorithm, data@),
            r->Ok_0@.len() == 64,
    {
        match algorithm {
            HashAlgorithm::Sha256 => {
                let d = crate::crypto::sha256_digest_bytes(data);
                Ok(crate::crypto::to_hex_lower(d.as_slice()))
            },
            HashAlgorithm::Sha3_256 => {
                let d = crate::crypto::sha3_256_digest_bytes(data);
                Ok(crate::crypto::to_hex_lower(d.as_slice()))
            },
            HashAlgorithm::Blake3 => {
                let d = crate::crypto::blake3_digest_bytes(data);
                Ok(crate::crypto::to_hex_lower(d.as_slice()))
            },
        }
    }

    /// Compare the digest of `data` under `algorithm` with an expected
    /// digest, ignoring ASCII case.
    pub fn verify_checksum(data: &[u8], expected: &str, algorithm: HashAlgorithm) -> (r: Result<
        bool,
        ArchiveError,
    >)
        ensures
            r is Ok,
            r->Ok_0 == (lower_seq(ext_digest_hex(algorithm, data@)) == lower_seq(expected@)),
    {
        let actual = match AdvancedChecker::generate_checksum(data, algorithm) {
            Ok(h) => h,
            Err(e) => {
                return Err(e);
            },
        };
        Ok(crate::text::eq_ignore_ascii_case(actual.as_str(), expected))
    }
}

} // verus!
