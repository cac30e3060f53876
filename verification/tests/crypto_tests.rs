//! The AEAD envelope, the passphrase envelope, and the digest engine,
//! exercised against the real cipher and hash implementations.

use zencore::crypto::{Checker, HashAlgorithm};
use zencore::crypto_extended::{
    AdvancedChecker, AdvancedEncryptor, CipherAlgorithm, HashAlgorithm as ExtHashAlgorithm,
};
use zencore::encrypt_tar::TarEncryptor;
use zencore::ArchiveError;

#[test]
fn test_envelope_roundtrip_aes() {
    let enc = AdvancedEncryptor::new("correct horse".to_string(), CipherAlgorithm::Aes256Gcm);
    let plaintext = b"some bytes worth keeping".to_vec();
    let envelope = enc.encrypt_bytes(&plaintext).unwrap();
    assert_eq!(envelope.len(), plaintext.len() + 52);
    assert_eq!(envelope[0], 1);
    assert_eq!(envelope[1], 0);
    assert_eq!(enc.decrypt_bytes(&envelope).unwrap(), plaintext);
}

#[test]
fn test_envelope_roundtrip_chacha() {
    let enc = AdvancedEncryptor::new("pw".to_string(), CipherAlgorithm::ChaCha20Poly1305);
    let plaintext = vec![0u8, 255, 7, 7, 7];
    let envelope = enc.encrypt_bytes(&plaintext).unwrap();
    assert_eq!(envelope[1], 1);
    assert_eq!(enc.decrypt_bytes(&envelope).unwrap(), plaintext);
}

#[test]
fn test_envelope_roundtrip_empty_input() {
    for cipher in [CipherAlgorithm::Aes256Gcm, CipherAlgorithm::ChaCha20Poly1305] {
        let enc = AdvancedEncryptor::new("pw".to_string(), cipher);
        let envelope = enc.encrypt_bytes(&[]).unwrap();
        assert_eq!(envelope.len(), 52);
        assert_eq!(enc.decrypt_bytes(&envelope).unwrap(), Vec::<u8>::new());
    }
}

#[test]
fn test_envelope_wrong_password_fails() {
    for cipher in [CipherAlgorithm::Aes256Gcm, CipherAlgorithm::ChaCha20Poly1305] {
        let enc_a = AdvancedEncryptor::new("A".to_string(), cipher);
        let enc_b = AdvancedEncryptor::new("B".to_string(), cipher);
        let envelope = enc_a.encrypt_bytes(b"secret content").unwrap();
        assert_eq!(enc_b.decrypt_bytes(&envelope), Err(ArchiveError::AEADFailure));
    }
}

#[test]
fn test_envelope_corruption_fails() {
    let enc = AdvancedEncryptor::new("pw".to_string(), CipherAlgorithm::Aes256Gcm);
    let mut envelope = enc.encrypt_bytes(b"payload").unwrap();
    let last = envelope.len() - 1;
    envelope[last] ^= 0x01;
    assert_eq!(enc.decrypt_bytes(&envelope), Err(ArchiveError::AEADFailure));
}

#[test]
fn test_envelope_malformed_header_fails() {
    let enc = AdvancedEncryptor::new("pw".to_string(), CipherAlgorithm::Aes256Gcm);
    assert_eq!(enc.decrypt_bytes(&[1, 0, 3]), Err(ArchiveError::AEADFailure));
    let mut envelope = enc.encrypt_bytes(b"x").unwrap();
    envelope[0] = 9;
    assert_eq!(enc.decrypt_bytes(&envelope), Err(ArchiveError::AEADFailure));
    envelope[0] = 1;
    envelope[1] = 7;
    assert_eq!(enc.decrypt_bytes(&envelope), Err(ArchiveError::AEADFailure));
}

#[test]
fn test_plain_encryptor_seals_aes_envelopes() {
    let enc = zencore::crypto::Encryptor::new("pw".to_string());
    let envelope = enc.encrypt_bytes(b"tar stream stand-in").unwrap();
    assert_eq!(envelope[1], 0);
    let opener = AdvancedEncryptor::new("pw".to_string(), CipherAlgorithm::Aes256Gcm);
    assert_eq!(opener.decrypt_bytes(&envelope).unwrap(), b"tar stream stand-in".to_vec());
}

#[test]
fn test_age_roundtrip() {
    let enc = TarEncryptor::new("test_password_123".to_string());
    let armored = enc.encrypt_bytes(b"Test data for encryption");
    let text = String::from_utf8(armored.clone()).unwrap();
    assert!(text.starts_with("-----BEGIN AGE ENCRYPTED FILE-----"));
    assert_eq!(enc.decrypt_bytes(&armored).unwrap(), b"Test data for encryption".to_vec());
}

#[test]
fn test_age_wrong_passphrase_fails() {
    let enc = TarEncryptor::new("A".to_string());
    let armored = enc.encrypt_bytes(b"data");
    let other = TarEncryptor::new("B".to_string());
    assert_eq!(other.decrypt_bytes(&armored), Err(ArchiveError::AEADFailure));
    assert_eq!(enc.decrypt_bytes(b"not an age file"), Err(ArchiveError::AEADFailure));
}

#[test]
fn test_is_age_encrypted() {
    assert!(TarEncryptor::is_age_encrypted("backup.tar.age"));
    assert!(TarEncryptor::is_age_encrypted("file.tar.zst.age"));
    assert!(!TarEncryptor::is_age_encrypted("backup.tar.zst"));
    assert!(!TarEncryptor::is_age_encrypted("backup.tar.gz"));
}

#[test]
fn test_header_marker() {
    assert!(zencore::encrypt_tar::header_marks_age(b"age-encryption.org/v1\n-> scrypt"));
    assert!(zencore::encrypt_tar::header_marks_age(b"xx age-encryption.org yy"));
    assert!(!zencore::encrypt_tar::header_marks_age(b"-----BEGIN PGP MESSAGE-----"));
    assert!(!zencore::encrypt_tar::header_marks_age(b""));
}

#[test]
fn test_sha256_known_value() {
    let digest = Checker::generate_checksum(b"abc").unwrap();
    assert_eq!(
        digest,
        "ba7816bf8f01cfea414140de5dae2223b00361a396177a9cb410ff61f20015ad"
    );
}

#[test]
fn test_digest_determinism_and_sensitivity() {
    for algo in [
        ExtHashAlgorithm::Sha256,
        ExtHashAlgorithm::Sha3_256,
        ExtHashAlgorithm::Blake3,
    ] {
        let a = AdvancedChecker::generate_checksum(b"same content", algo).unwrap();
        let b = AdvancedChecker::generate_checksum(b"same content", algo).unwrap();
        let c = AdvancedChecker::generate_checksum(b"same contenu", algo).unwrap();
        assert_eq!(a, b);
        assert_ne!(a, c);
        assert_eq!(a.len(), 64);
    }
}

#[test]
fn test_digests_differ_between_algorithms() {
    let sha = AdvancedChecker::generate_checksum(b"x", ExtHashAlgorithm::Sha256).unwrap();
    let sha3 = AdvancedChecker::generate_checksum(b"x", ExtHashAlgorithm::Sha3_256).unwrap();
    let blake = AdvancedChecker::generate_checksum(b"x", ExtHashAlgorithm::Blake3).unwrap();
    assert_ne!(sha, sha3);
    assert_ne!(sha, blake);
    assert_ne!(sha3, blake);
}

#[test]
fn test_verify_checksum_case_insensitive() {
    let upper = "BA7816BF8F01CFEA414140DE5DAE2223B00361A396177A9CB410FF61F20015AD";
    assert!(Checker::verify_checksum(b"abc", upper).unwrap());
    assert!(!Checker::verify_checksum(b"abd", upper).unwrap());
    assert!(AdvancedChecker::verify_checksum(b"abc", upper, ExtHashAlgorithm::Sha256).unwrap());
}

#[test]
fn test_plain_checker_only_carries_sha256() {
    assert!(Checker::generate_checksum_with_algorithm(b"x", HashAlgorithm::Sha256).is_ok());
    assert_eq!(
        Checker::generate_checksum_with_algorithm(b"x", HashAlgorithm::Blake3),
        Err(ArchiveError::UnknownAlgorithm)
    );
    assert_eq!(
        Checker::generate_checksum_with_algorithm(b"x", HashAlgorithm::Sha3),
        Err(ArchiveError::UnknownAlgorithm)
    );
}

#[test]
fn test_sidecar_format_and_verification() {
    let line = Checker::generate_checksum_file(b"abc", "music.tar.zst").unwrap();
    assert_eq!(
        line,
        "ba7816bf8f01cfea414140de5dae2223b00361a396177a9cb410ff61f20015ad  music.tar.zst\n"
    );
    assert!(Checker::verify_from_checksum_file(b"abc", &line).unwrap());
    assert!(!Checker::verify_from_checksum_file(b"abd", &line).unwrap());
    assert_eq!(
        Checker::verify_from_checksum_file(b"abc", "justonetoken"),
        Err(ArchiveError::StateCorruption)
    );
}

#[test]
fn test_auto_verify_missing_sidecar_is_success() {
    assert!(Checker::auto_verify(b"anything", None).unwrap());
    let line = Checker::generate_checksum_file(b"abc", "a.zip").unwrap();
    assert!(Checker::auto_verify(b"abc", Some(&line)).unwrap());
    assert!(!Checker::auto_verify(b"abd", Some(&line)).unwrap());
}

#[test]
fn test_algorithm_names_parse_case_insensitively() {
    assert!(matches!(HashAlgorithm::from_str("SHA-256"), Ok(HashAlgorithm::Sha256)));
    assert!(matches!(HashAlgorithm::from_str("Blake3"), Ok(HashAlgorithm::Blake3)));
    assert!(matches!(HashAlgorithm::from_str("sha3-256"), Ok(HashAlgorithm::Sha3)));
    assert_eq!(HashAlgorithm::from_str("md5").unwrap_err(), ArchiveError::UnknownAlgorithm);
    assert!(matches!(
        ExtHashAlgorithm::from_str("SHA3"),
        Ok(ExtHashAlgorithm::Sha3_256)
    ));
    assert!(matches!(
        CipherAlgorithm::from_str("AES-256"),
        Ok(CipherAlgorithm::Aes256Gcm)
    ));
    assert!(matches!(
        CipherAlgorithm::from_str("ChaCha"),
        Ok(CipherAlgorithm::ChaCha20Poly1305)
    ));
    assert_eq!(
        CipherAlgorithm::from_str("des").unwrap_err(),
        ArchiveError::UnknownAlgorithm
    );
    assert_eq!(HashAlgorithm::from_str("sha256").unwrap().name(), "SHA-256");
    assert_eq!(CipherAlgorithm::from_str("chacha20").unwrap().name(), "ChaCha20-Poly1305");
}
