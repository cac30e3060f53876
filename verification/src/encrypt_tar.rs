//! Passphrase envelope for streaming containers: the ASCII-armored age
//! format, used as an alternative to the binary AEAD envelope.
//!
//! Encryption draws a fresh scrypt salt per call, so the armored bytes
//! are random; what is promised of them is that decrypting with the same
//! passphrase yields the plaintext again.

use vstd::prelude::*;

use crate::error::ArchiveError;
use crate::text::{ends_with_seq, str_ends_with};

use std::io::Read;
use std::io::Write;

verus! {

/// What age passphrase decryption (with the fixed acceptance bound on
/// the scrypt work factor below) yields for an armored ciphertext and a
/// passphrase: the plaintext, or nothing when the input is not a valid
/// age file, its work factor exceeds the bound, or the passphrase does
/// not match.
pub uninterp spec fn age_open(ct: Seq<u8>, passphrase: Seq<char>) -> Option<Seq<u8>>;

/// Relies on `age::Encryptor::with_recipients` over an
/// `age::scrypt::Recipient` with the work factor pinned to 2^14 (the
/// scrypt parameter recommended for interactive use), and
/// `age::armor::ArmoredWriter`: encrypts to the ASCII-armored age format
/// with a fresh scrypt salt, so the bytes are random; the pinned work
/// factor lies under the decryptor's fixed acceptance bound, so
/// decrypting them with the same passphrase yields the plaintext again,
/// on any machine.  Writing to a byte vector cannot fail.
#[verifier::external_body]
fn age_encrypt(data: &[u8], passphrase: &str) -> (r: Vec<u8>)
    ensures
        age_open(r@, passphrase@) == Some(data@),
{
    let pass = secrecy::SecretString::from(passphrase.to_string());
    let mut recipient = age::scrypt::Recipient::new(pass);
    recipient.set_work_factor(14);
    let encryptor = age::Encryptor::with_recipients(
        std::iter::once(&recipient as &dyn age::Recipient),
    ).unwrap();
    let mut out = Vec::new();
    let armor = age::armor::ArmoredWriter::wrap_output(
        &mut out,
        age::armor::Format::AsciiArmor,
    ).unwrap();
    let mut writer = encryptor.wrap_output(armor).unwrap();
    writer.write_all(data).unwrap();
    writer.finish().and_then(|armor| armor.finish()).unwrap();
    out
}

/// Relies on `age::Decryptor` with `age::scrypt::Identity` over an
/// `ArmoredReader`, the acceptance bound on the work factor pinned to
/// 2^22: the outcome is then a function of the ciphertext and the
/// passphrase alone; a plaintext comes back only when the input is a
/// valid age file within the bound and the passphrase matches.
#[verifier::external_body]
fn age_decrypt(data: &[u8], passphrase: &str) -> (r: Result<Vec<u8>, ArchiveError>)
    ensures
        r is Ok <==> age_open(data@, passphrase@) is Some,
        r is Ok ==> r->Ok_0@ == age_open(data@, passphrase@)->0,
        r is Err ==> r->Err_0 == ArchiveError::AEADFailure,
{
    let armor = age::armor::ArmoredReader::new(data);
    let pass = secrecy::SecretString::from(passphrase.to_string());
    let mut identity = age::scrypt::Identity::new(pass);
    identity.set_max_work_factor(22);
    let mut out = Vec::new();
    let outcome = age::Decryptor::new(armor).and_then(
        |d| d.decrypt(std::iter::once(&identity as &dyn age::Identity)),
    ).map(|mut reader| reader.read_to_end(&mut out));
    match outcome {
        Ok(Ok(_)) => Ok(out),
        _ => Err(ArchiveError::AEADFailure),
    }
}

/// Passphrase-based encryption of a finished streaming container into
/// the armored age format.
pub struct TarEncryptor {
    password: String,
}

impl TarEncryptor {
    /// The passphrase this encryptor works with.
    pub closed spec fn spec_password(&self) -> Seq<char> {
        self.password@
    }

    /// Create an encryptor for the given passphrase.
    pub fn new(password: String) -> (r: Self)
        ensures
            r.spec_password() == password@,
    {
        TarEncryptor { password }
    }

    /// Encrypt a container's bytes into a fresh armored envelope; the
    /// envelope differs between calls, but decrypting it with the same
    /// passphrase yields the container again.
    pub fn encrypt_bytes(&self, data: &[u8]) -> (r: Vec<u8>)
        ensures
            age_open(r@, self.spec_password()) == Some(data@),
    {
        age_encrypt(data, self.password.as_str())
    }

    /// Decrypt an armored envelope.  Succeeds exactly when the bytes are
    /// a valid age file sealed under this passphrase; a wrong passphrase
    /// or corrupted input is an authentication failure, never silent
    /// garbage.
    pub fn decrypt_bytes(&self, data: &[u8]) -> (r: Result<Vec<u8>, ArchiveError>)
        ensures
            r is Ok <==> age_open(data@, self.spec_password()) is Some,
            r is Ok ==> r->Ok_0@ == age_open(data@, self.spec_password())->0,
            r is Err ==> r->Err_0 == ArchiveError::AEADFailure,
    {
        age_decrypt(data, self.password.as_str())
    }

    /// Whether a file name marks an age-encrypted artifact.  Content
    /// sniffing of an existing file is the caller's concern, via
    /// [`header_marks_age`].
    pub fn is_age_encrypted(file_path: &str) -> (r: bool)
        ensures
            r == ends_with_seq(file_path@, ".age"@),
    {
        str_ends_with(file_path, ".age")
    }
}

/// The age format marker, the bytes of `age-encryption.org`.
pub open spec fn age_marker() -> Seq<u8> {
    seq![97u8, 103, 101, 45, 101, 110, 99, 114, 121, 112, 116, 105, 111, 110, 46, 111, 114, 103]
}

/// True when `pat` occurs in `hay` starting at position `i`.
pub open spec fn bytes_match_at(hay: Seq<u8>, i: int, pat: Seq<u8>) -> bool {
    0 <= i && i + pat.len() <= hay.len() && hay.subrange(i, i + pat.len() as int) == pat
}

/// Decide whether `pat` occurs in `hay` at position `i`.
fn bytes_check_match(hay: &[u8], i: usize, pat: &Vec<u8>) -> (r: bool)
    requires
        i <= hay@.len(),
    ensures
        r == bytes_match_at(hay@, i as int, pat@),
{
    let hn = hay.len();
    if pat.len() > hn - i {
        assert(!bytes_match_at(hay@, i as int, pat@));
        return false;
    }
    let n = pat.len();
    for j in 0..n
        invariant
            n == pat@.len(),
            hn == hay@.len(),
            i + n <= hn,
            hay@.subrange(i as int, i + j) =~= pat@.take(j as int),
    {
        if hay[i + j] != pat[j] {
            assert(hay@.subrange(i as int, i + n as int)[j as int] != pat@[j as int]);
            return false;
        }
        assert(hay@.subrange(i as int, i + j + 1) =~= pat@.take(j + 1));
    }
    assert(hay@.subrange(i as int, i + n as int) =~= pat@);
    true
}

/// Whether a file's leading bytes carry the age format marker.
pub fn header_marks_age(header: &[u8]) -> (r: bool)
    ensures
        r == exists|i: int| bytes_match_at(header@, i, age_marker()),
{
    let marker: Vec<u8> = vec![
        97u8,
        103,
        101,
        45,
        101,
        110,
        99,
        114,
        121,
        112,
        116,
        105,
        111,
        110,
        46,
        111,
        114,
        103,
    ];
    proof {
        assert(marker@ =~= age_marker());
    }
    let n = header.len();
    if marker.len() > n {
        assert(forall|i: int| !bytes_match_at(header@, i, age_marker()));
        return false;
    }
    let last = n - marker.len();
    let mut i: usize = 0;
    while i <= last
        invariant
            marker@ == age_marker(),
            0 < marker@.len() <= header@.len(),
            n == header@.len(),
            last == n - marker@.len(),
            i <= last + 1,
            forall|k: int| 0 <= k < i ==> !bytes_match_at(header@, k, age_marker()),
        decreases last + 1 - i,
    {
        if bytes_check_match(header, i, &marker) {
            return true;
        }
        i = i + 1;
    }
    assert(forall|k: int| i <= k ==> !bytes_match_at(header@, k, age_marker()));
    false
}

} // verus!
