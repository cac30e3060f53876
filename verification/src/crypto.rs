//! Content digesting and checksum verification.
//!
//! Digests are modelled as named functions of the input bytes alone; the
//! hex encoding, the sidecar checksum-file format and the comparison
//! logic are verified here.  The [`Encryptor`] is the password-only
//! front end to the AEAD envelope, fixed to AES-256-GCM.

use vstd::prelude::*;

use crate::crypto_extended::{envelope_open, AdvancedEncryptor, CipherAlgorithm};
use crate::error::ArchiveError;
use crate::text::{digit_char, lower_seq, str_eq, to_ascii_lower};

verus! {

/// The 32-byte SHA-256 digest of a byte sequence.
pub uninterp spec fn sha256_of(data: Seq<u8>) -> Seq<u8>;

/// The 32-byte SHA3-256 digest of a byte sequence.
pub uninterp spec fn sha3_256_of(data: Seq<u8>) -> Seq<u8>;

/// The 32-byte BLAKE3 digest of a byte sequence.
pub uninterp spec fn blake3_of(data: Seq<u8>) -> Seq<u8>;

/// Relies on `sha2::Sha256::digest`: a 32-byte digest, a function of the
/// data alone.
#[verifier::external_body]
pub(crate) fn sha256_digest_bytes(data: &[u8]) -> (r: Vec<u8>)
    ensures
        r@ == sha256_of(data@),
        r@.len() == 32,
{
    <sha2::Sha256 as sha2::Digest>::digest(data).to_vec()
}

/// Relies on `sha3::Sha3_256::digest`: a 32-byte digest, a function of the
/// data alone.
#[verifier::external_body]
pub(crate) fn sha3_256_digest_bytes(data: &[u8]) -> (r: Vec<u8>)
    ensures
        r@ == sha3_256_of(data@),
        r@.len() == 32,
{
    <sha3::Sha3_256 as sha3::Digest>::digest(data).to_vec()
}

/// Relies on `blake3::hash`: a 32-byte digest, a function of the data alone.
#[verifier::external_body]
pub(crate) fn blake3_digest_bytes(data: &[u8]) -> (r: Vec<u8>)
    ensures
        r@ == blake3_of(data@),
        r@.len() == 32,
{
    blake3::hash(data).as_bytes().to_vec()
}

/// The lower-case hex digit for a value below 16.
pub open spec fn hex_digit(d: u8) -> char {
    if d < 10 {
        digit_char(d as int)
    } else {
        ((d + 87) as u32) as char
    }
}

/// The lower-case hex encoding of a byte sequence: two digits per byte.
pub open spec fn hex_str(data: Seq<u8>) -> Seq<char> {
    Seq::new(
        2 * data.len(),
        |i: int|
            if i % 2 == 0 {
                hex_digit(data[i / 2] >> 4)
            } else {
                hex_digit(data[i / 2] & 15)
            },
    )
}

fn hex_digit_exec(d: u8) -> (r: char)
    requires
        d < 16,
    ensures
        r == hex_digit(d),
{
    if d < 10 {
        (d + 48) as char
    } else {
        (d + 87) as char
    }
}

/// Encode bytes as lower-case hex.
pub fn to_hex_lower(data: &[u8]) -> (r: String)
    ensures
        r@ == hex_str(data@),
{
    let mut out: Vec<char> = Vec::new();
    let n = data.len();
    for i in 0..n
        invariant
            n == data@.len(),
            out@ =~= hex_str(data@.take(i as int)),
    {
        let b = data[i];
        assert((b >> 4) < 16 && (b & 15) < 16) by (bit_vector);
        out.push(hex_digit_exec(b >> 4));
        out.push(hex_digit_exec(b & 15));
        assert(out@ =~= hex_str(data@.take(i + 1)));
    }
    assert(out@ =~= hex_str(data@));
    crate::text::chars_to_string(&out)
}

/// Hash algorithms the checksum generator knows by name.
#[derive(Debug)]
pub enum HashAlgorithm {
    Sha256,
    Blake3,
    Sha3,
}

/// The algorithm a configuration name selects, if any
/// (ASCII-case-insensitive).
pub open spec fn hash_of_name(s: Seq<char>) -> Option<HashAlgorithm> {
    let l = lower_seq(s);
    if l == "sha256"@ || l == "sha-256"@ {
        Some(HashAlgorithm::Sha256)
    } else if l == "blake3"@ {
        Some(HashAlgorithm::Blake3)
    } else if l == "sha3"@ || l == "sha3-256"@ {
        Some(HashAlgorithm::Sha3)
    } else {
        None
    }
}

impl HashAlgorithm {
    /// Parse an algorithm name; unknown names are rejected.
    pub fn from_str(s: &str) -> (r: Result<Self, ArchiveError>)
        ensures
            r is Ok <==> hash_of_name(s@) is Some,
            r is Ok ==> r->Ok_0 == hash_of_name(s@)->0,
            r is Err ==> r->Err_0 == ArchiveError::UnknownAlgorithm,
    {
        let l = to_ascii_lower(s);
        if str_eq(l.as_str(), "sha256") || str_eq(l.as_str(), "sha-256") {
            Ok(HashAlgorithm::Sha256)
        } else if str_eq(l.as_str(), "blake3") {
            Ok(HashAlgorithm::Blake3)
        } else if str_eq(l.as_str(), "sha3") || str_eq(l.as_str(), "sha3-256") {
            Ok(HashAlgorithm::Sha3)
        } else {
            Err(ArchiveError::UnknownAlgorithm)
        }
    }

    /// The algorithm's canonical (display) name.
    pub fn name(&self) -> (r: &'static str)
        ensures
            self is Sha256 ==> r@ == "SHA-256"@,
            self is Blake3 ==> r@ == "BLAKE3"@,
            self is Sha3 ==> r@ == "SHA3-256"@,
    {
        match self {
            HashAlgorithm::Sha256 => "SHA-256",
            HashAlgorithm::Blake3 => "BLAKE3",
            HashAlgorithm::Sha3 => "SHA3-256",
        }
    }
}

/// The lower-case hex digest of `data` under `algo`.
pub open spec fn digest_hex(algo: HashAlgorithm, data: Seq<u8>) -> Seq<char> {
    match algo {
        HashAlgorithm::Sha256 => hex_str(sha256_of(data)),
        HashAlgorithm::Blake3 => hex_str(blake3_of(data)),
        HashAlgorithm::Sha3 => hex_str(sha3_256_of(data)),
    }
}

/// Digest determinism: the digest of unchanged content under the same
/// algorithm is always the same, across any number of calls — it is a
/// function of the bytes and the algorithm alone.
pub proof fn lemma_digest_deterministic(a: Seq<u8>, b: Seq<u8>, algo: HashAlgorithm)
    requires
        a == b,
    ensures
        digest_hex(algo, a) == digest_hex(algo, b),
{
}

/// ASCII whitespace, as it separates the fields of a sidecar checksum file.
pub open spec fn ws(c: char) -> bool {
    c == ' ' || c == '\t' || c == '\n' || c == '\r'
}

/// Accumulator-style splitting of `s` into maximal runs of
/// non-whitespace characters, scanning from position `i` with the
/// partial token `cur` and the tokens `acc` found so far.
pub open spec fn split_ws_from(s: Seq<char>, i: int, cur: Seq<char>, acc: Seq<Seq<char>>) -> Seq<
    Seq<char>,
>
    decreases s.len() - i,
{
    if i < 0 || i >= s.len() {
        if cur.len() > 0 {
            acc.push(cur)
        } else {
            acc
        }
    } else if ws(s[i]) {
        if cur.len() > 0 {
            split_ws_from(s, i + 1, seq![], acc.push(cur))
        } else {
            split_ws_from(s, i + 1, seq![], acc)
        }
    } else {
        split_ws_from(s, i + 1, cur.push(s[i]), acc)
    }
}

/// The whitespace-separated tokens of `s`.
pub open spec fn split_ws(s: Seq<char>) -> Seq<Seq<char>> {
    split_ws_from(s, 0, seq![], seq![])
}

fn ws_exec(c: char) -> (r: bool)
    ensures
        r == ws(c),
{
    c == ' ' || c == '\t' || c == '\n' || c == '\r'
}

/// Split a string into its whitespace-separated tokens.
pub fn split_whitespace_tokens(s: &str) -> (r: Vec<String>)
    ensures
        r.deep_view() == split_ws(s@),
{
    let v = crate::text::to_chars(s);
    let n = v.len();
    let mut acc: Vec<String> = Vec::new();
    let mut cur: Vec<char> = Vec::new();
    proof {
        assert(acc.deep_view() =~~= Seq::<Seq<char>>::empty());
        assert(cur@ =~= Seq::<char>::empty());
    }
    for i in 0..n
        invariant
            n == v@.len(),
            v@ == s@,
            split_ws(s@) == split_ws_from(s@, i as int, cur@, acc.deep_view()),
    {
        let ghost pre_cur = cur@;
        let ghost pre_acc = acc.deep_view();
        if ws_exec(v[i]) {
            if cur.len() > 0 {
                acc.push(crate::text::chars_to_string(&cur));
                cur = Vec::new();
                proof {
                    assert(acc.deep_view() =~~= pre_acc.push(pre_cur));
                    assert(cur@ =~= Seq::<char>::empty());
                    assert(split_ws_from(s@, i as int, pre_cur, pre_acc) == split_ws_from(
                        s@,
                        i + 1,
                        Seq::<char>::empty(),
                        pre_acc.push(pre_cur),
                    ));
                }
            } else {
                proof {
                    assert(pre_cur =~= Seq::<char>::empty());
                    assert(split_ws_from(s@, i as int, pre_cur, pre_acc) == split_ws_from(
                        s@,
                        i + 1,
                        Seq::<char>::empty(),
                        pre_acc,
                    ));
                }
            }
        } else {
            cur.push(v[i]);
            proof {
                assert(cur@ == pre_cur.push(s@[i as int]));
                assert(split_ws_from(s@, i as int, pre_cur, pre_acc) == split_ws_from(
                    s@,
                    i + 1,
                    pre_cur.push(s@[i as int]),
                    pre_acc,
                ));
            }
        }
    }
    if cur.len() > 0 {
        let ghost pre_acc = acc.deep_view();
        acc.push(crate::text::chars_to_string(&cur));
        proof {
            assert(acc.deep_view() =~~= pre_acc.push(cur@));
        }
    }
    acc
}

/// The one-line content of a sidecar checksum file:
/// `<digest><two spaces><archive file name><newline>`.
pub open spec fn sidecar_line(digest: Seq<char>, name: Seq<char>) -> Seq<char> {
    digest + seq![' ', ' '] + name + seq!['\n']
}

/// SHA-256 checksum generation and verification.
pub struct Checker;

impl Checker {
    /// The SHA-256 digest of `data`, as 64 lower-case hex characters.
    pub fn generate_checksum(data: &[u8]) -> (r: Result<String, ArchiveError>)
        ensures
            r is Ok,
            r->Ok_0@ == digest_hex(HashAlgorithm::Sha256, data@),
            r->Ok_0@.len() == 64,
    {
        let digest = sha256_digest_bytes(data);
        Ok(to_hex_lower(digest.as_slice()))
    }

    /// The digest of `data` under the given algorithm.  As in the plain
    /// checker only SHA-256 is carried out; the other algorithms live in
    /// [`crate::crypto_extended::AdvancedChecker`].
    pub fn generate_checksum_with_algorithm(data: &[u8], algorithm: HashAlgorithm) -> (r: Result<
        String,
        ArchiveError,
    >)
        ensures
            r is Ok <==> algorithm is Sha256,
            r is Ok ==> r->Ok_0@ == digest_hex(HashAlgorithm::Sha256, data@) && r->Ok_0@.len()
                == 64,
            r is Err ==> r->Err_0 == ArchiveError::UnknownAlgorithm,
    {
        match algorithm {
            HashAlgorithm::Sha256 => Checker::generate_checksum(data),
            HashAlgorithm::Blake3 => Err(ArchiveError::UnknownAlgorithm),
            HashAlgorithm::Sha3 => Err(ArchiveError::UnknownAlgorithm),
        }
    }

    /// Compare the SHA-256 digest of `data` with an expected digest,
    /// ignoring ASCII case.
    pub fn verify_checksum(data: &[u8], expected: &str) -> (r: Result<bool, ArchiveError>)
        ensures
            r is Ok,
            r->Ok_0 == (lower_seq(digest_hex(HashAlgorithm::Sha256, data@)) == lower_seq(
                expected@,
            )),
    {
        let actual = match Checker::generate_checksum(data) {
            Ok(h) => h,
            Err(e) => {
                return Err(e);
            },
        };
        Ok(crate::text::eq_ignore_ascii_case(actual.as_str(), expected))
    }

    /// The content of the sidecar checksum file for an archive:
    /// the SHA-256 digest of `data`, two spaces, and the archive's
    /// file name.
    pub fn generate_checksum_file(data: &[u8], archive_name: &str) -> (r: Result<
        String,
        ArchiveError,
    >)
        ensures
            r is Ok,
            r->Ok_0@ == sidecar_line(digest_hex(HashAlgorithm::Sha256, data@), archive_name@),
    {
        let digest = match Checker::generate_checksum(data) {
            Ok(h) => h,
            Err(e) => {
                return Err(e);
            },
        };
        let mut line = digest;
        crate::text::push_char(&mut line, ' ');
        crate::text::push_char(&mut line, ' ');
        line.append(archive_name);
        crate::text::push_char(&mut line, '\n');
        proof {
            assert(line@ =~= sidecar_line(digest_hex(HashAlgorithm::Sha256, data@), archive_name@));
        }
        Ok(line)
    }

    /// Verify `data` against the content of its sidecar checksum file:
    /// the first whitespace-separated token is the expected digest.  A
    /// sidecar with fewer than two tokens is malformed.
    pub fn verify_from_checksum_file(data: &[u8], sidecar: &str) -> (r: Result<bool, ArchiveError>)
        ensures
            r is Ok <==> split_ws(sidecar@).len() >= 2,
            r is Ok ==> r->Ok_0 == (lower_seq(digest_hex(HashAlgorithm::Sha256, data@))
                == lower_seq(split_ws(sidecar@)[0])),
            r is Err ==> r->Err_0 == ArchiveError::StateCorruption,
    {
        let parts = split_whitespace_tokens(sidecar);
        if parts.len() < 2 {
            assert(split_ws(sidecar@).len() == parts.deep_view().len());
            return Err(ArchiveError::StateCorruption);
        }
        assert(parts.deep_view()[0] == split_ws(sidecar@)[0]);
        Checker::verify_checksum(data, parts[0].as_str())
    }

    /// Verify `data` against a sidecar file when one exists; a missing
    /// sidecar is a successful no-op, not a failure.
    pub fn auto_verify(data: &[u8], sidecar: Option<&String>) -> (r: Result<bool, ArchiveError>)
        ensures
            match sidecar {
                None => r is Ok && r->Ok_0 == true,
                Some(content) => {
                    &&& (r is Ok <==> split_ws(content@).len() >= 2)
                    &&& (r is Ok ==> r->Ok_0 == (lower_seq(digest_hex(HashAlgorithm::Sha256, data@))
                        == lower_seq(split_ws(content@)[0])))
                    &&& (r is Err ==> r->Err_0 == ArchiveError::StateCorruption)
                },
            },
    {
        match sidecar {
            None => Ok(true),
            Some(content) => Checker::verify_from_checksum_file(data, content.as_str()),
        }
    }
}

/// Password-only front end to the AEAD envelope, fixed to AES-256-GCM.
pub struct Encryptor {
    password: String,
}

impl Encryptor {
    /// The password this encryptor derives its keys from.
    pub closed spec fn spec_password(&self) -> Seq<char> {
        self.password@
    }

    /// Create an encryptor for the given password.
    pub fn new(password: String) -> (r: Self)
        ensures
            r.spec_password() == password@,
    {
        Encryptor { password }
    }

    /// Encrypt a plaintext into a fresh AES-256-GCM envelope — the
    /// header's cipher id names AES — and decrypting the result with
    /// the same password yields the plaintext again.
    pub fn encrypt_bytes(&self, plaintext: &[u8]) -> (r: Result<Vec<u8>, ArchiveError>)
        requires
            plaintext@.len() <= 0x10_0000_0000,
            self.spec_password().len() <= 0x3FFF_FFFF,
        ensures
            r is Ok,
            r->Ok_0@.len() == plaintext@.len() + 52,
            r->Ok_0@[1] == 0,
            envelope_open(r->Ok_0@, self.spec_password()) == Some(plaintext@),
    {
        let inner = AdvancedEncryptor::new(self.password.clone(), CipherAlgorithm::Aes256Gcm);
        inner.encrypt_bytes(plaintext)
    }
}

} // verus!
