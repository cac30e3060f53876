//! The archive-production pipeline: encode the collected files, digest
//! the container, optionally wrap it in the passphrase envelope, and
//! assemble the metadata record for the state store.
//!
//! Collecting file contents, writing the artifact and persisting the
//! record are the surrounding code's concern; this function is the
//! computational core between them.

use vstd::prelude::*;

use crate::compress::{
    effective_level, entry_views, gzip_bytes, kind_of_name, rel_names, relativize_spec, tar_bytes,
    tar_name_ok, zstd_bytes, Archiver, ContainerKind, FileData,
};
use crate::crypto::{digest_hex, sidecar_line, Checker, HashAlgorithm as SidecarAlgorithm};
use crate::crypto_extended::{ext_digest_hex, AdvancedChecker, HashAlgorithm};
use crate::encrypt_tar::{age_open, TarEncryptor};
use crate::error::ArchiveError;
use crate::state::{canon_key, cs_view, upsert, ArchiveMetadata};

verus! {

/// The canonical name of a hash algorithm, as the digest set keys it.
pub open spec fn hash_name(a: HashAlgorithm) -> Seq<char> {
    match a {
        HashAlgorithm::Sha256 => "SHA-256"@,
        HashAlgorithm::Sha3_256 => "SHA3-256"@,
        HashAlgorithm::Blake3 => "BLAKE3"@,
    }
}

/// The digest set after recording, in order, the digest of `data` under
/// every algorithm of `algos`, starting from `cs`.
pub open spec fn digests_after(
    cs: Seq<(Seq<char>, Seq<char>)>,
    algos: Seq<HashAlgorithm>,
    data: Seq<u8>,
) -> Seq<(Seq<char>, Seq<char>)>
    decreases algos.len(),
{
    if algos.len() == 0 {
        cs
    } else {
        digests_after(
            upsert(cs, canon_key(hash_name(algos[0])), ext_digest_hex(algos[0], data)),
            algos.skip(1),
            data,
        )
    }
}

/// The legacy digest field after the same recording pass.
pub open spec fn legacy_after(legacy: Seq<char>, algos: Seq<HashAlgorithm>, data: Seq<u8>) -> Seq<
    char,
>
    decreases algos.len(),
{
    if algos.len() == 0 {
        legacy
    } else {
        let key = canon_key(hash_name(algos[0]));
        legacy_after(
            if key == "SHA-256"@ {
                ext_digest_hex(algos[0], data)
            } else {
                legacy
            },
            algos.skip(1),
            data,
        )
    }
}

proof fn lemma_digests_after_push(
    cs: Seq<(Seq<char>, Seq<char>)>,
    algos: Seq<HashAlgorithm>,
    a: HashAlgorithm,
    data: Seq<u8>,
)
    ensures
        digests_after(cs, algos.push(a), data) == upsert(
            digests_after(cs, algos, data),
            canon_key(hash_name(a)),
            ext_digest_hex(a, data),
        ),
    decreases algos.len(),
{
    let key_a = canon_key(hash_name(a));
    let val_a = ext_digest_hex(a, data);
    if algos.len() == 0 {
        assert(algos.push(a)[0] == a);
        assert(algos.push(a).skip(1) =~= Seq::<HashAlgorithm>::empty());
        assert(digests_after(cs, algos.push(a), data) == digests_after(
            upsert(cs, key_a, val_a),
            algos.push(a).skip(1),
            data,
        ));
        assert(digests_after(upsert(cs, key_a, val_a), algos.push(a).skip(1), data) == upsert(
            cs,
            key_a,
            val_a,
        ));
        assert(digests_after(cs, algos, data) == cs);
    } else {
        let key0 = canon_key(hash_name(algos[0]));
        let val0 = ext_digest_hex(algos[0], data);
        assert(algos.push(a)[0] == algos[0]);
        assert(algos.push(a).skip(1) =~= algos.skip(1).push(a));
        assert(digests_after(cs, algos.push(a), data) == digests_after(
            upsert(cs, key0, val0),
            algos.skip(1).push(a),
            data,
        ));
        lemma_digests_after_push(upsert(cs, key0, val0), algos.skip(1), a, data);
        assert(digests_after(cs, algos, data) == digests_after(
            upsert(cs, key0, val0),
            algos.skip(1),
            data,
        ));
    }
}

proof fn lemma_legacy_after_push(
    legacy: Seq<char>,
    algos: Seq<HashAlgorithm>,
    a: HashAlgorithm,
    data: Seq<u8>,
)
    ensures
        legacy_after(legacy, algos.push(a), data) == ({
            let key = canon_key(hash_name(a));
            if key == "SHA-256"@ {
                ext_digest_hex(a, data)
            } else {
                legacy_after(legacy, algos, data)
            }
        }),
    decreases algos.len(),
{
    let key_a = canon_key(hash_name(a));
    if algos.len() == 0 {
        assert(algos.push(a)[0] == a);
        assert(algos.push(a).skip(1) =~= Seq::<HashAlgorithm>::empty());
        let next = if key_a == "SHA-256"@ {
            ext_digest_hex(a, data)
        } else {
            legacy
        };
        assert(legacy_after(legacy, algos.push(a), data) == legacy_after(
            next,
            algos.push(a).skip(1),
            data,
        ));
        assert(legacy_after(next, algos.push(a).skip(1), data) == next);
        assert(legacy_after(legacy, algos, data) == legacy);
    } else {
        assert(algos.push(a)[0] == algos[0]);
        assert(algos.push(a).skip(1) =~= algos.skip(1).push(a));
        let key0 = canon_key(hash_name(algos[0]));
        let next0 = if key0 == "SHA-256"@ {
            ext_digest_hex(algos[0], data)
        } else {
            legacy
        };
        assert(legacy_after(legacy, algos.push(a), data) == legacy_after(
            next0,
            algos.skip(1).push(a),
            data,
        ));
        lemma_legacy_after_push(next0, algos.skip(1), a, data);
        assert(legacy_after(legacy, algos, data) == legacy_after(next0, algos.skip(1), data));
    }
}

/// Copy a list of strings.
fn clone_strings(v: &Vec<String>) -> (r: Vec<String>)
    ensures
        r.deep_view() == v.deep_view(),
{
    let mut r: Vec<String> = Vec::new();
    let n = v.len();
    for i in 0..n
        invariant
            n == v@.len(),
            r@.len() == i,
            r.deep_view() =~~= v.deep_view().take(i as int),
    {
        r.push(v[i].clone());
        assert(r.deep_view() =~~= v.deep_view().take(i + 1));
    }
    proof {
        assert(r.deep_view() =~~= v.deep_view());
    }
    r
}

/// Everything one pipeline run produces: the artifact bytes, the entry
/// list, the sidecar checksum line (when asked for), and the metadata
/// record for the state store.
pub struct BackupOutcome {
    pub container: Vec<u8>,
    pub file_list: Vec<String>,
    pub sidecar: Option<String>,
    pub metadata: ArchiveMetadata,
}

/// Run the archive-production pipeline over the collected files: encode
/// them into the configured container, record the requested digests of
/// the container, wrap streaming containers in the passphrase envelope
/// when a passphrase is given, and assemble the metadata record.
///
/// Digests are taken of the plain container; the sidecar line digests
/// the artifact as it will lie on disk, envelope included.
pub fn run_backup_job(
    archiver: &Archiver,
    files: &Vec<FileData>,
    algorithms: &Vec<HashAlgorithm>,
    created_at: String,
    envelope_password: Option<&String>,
    generate_sidecar: bool,
) -> (r: Result<BackupOutcome, ArchiveError>)
    ensures
        r is Ok ==> ({
            let out = r->Ok_0;
            let kind = kind_of_name(archiver.algorithm@);
            let enveloped = envelope_password is Some && (kind == Some(ContainerKind::TarGz)
                || kind == Some(ContainerKind::TarZst));
            &&& kind is Some
            &&& out.file_list.deep_view() == rel_names(files@, archiver.source@)
            &&& out.metadata.name@ == archiver.archive_name@
            &&& out.metadata.created_at@ == created_at@
            &&& out.metadata.algorithm@ == archiver.algorithm@
            &&& out.metadata.file_count == files@.len()
            &&& out.metadata.contents.deep_view() == rel_names(files@, archiver.source@)
            &&& out.metadata.size_bytes == out.container@.len()
            &&& out.metadata.encrypted == (enveloped || (kind == Some(ContainerKind::Zip)
                && archiver.password is Some))
            &&& (generate_sidecar <==> out.sidecar is Some)
            &&& (out.sidecar is Some ==> out.sidecar->0@ == sidecar_line(
                digest_hex(SidecarAlgorithm::Sha256, out.container@),
                archiver.archive_name@,
            ))
            &&& (kind == Some(ContainerKind::TarGz) ==> ({
                let plain = gzip_bytes(
                    tar_bytes(entry_views(files@, archiver.source@)),
                    effective_level(ContainerKind::TarGz, archiver.compression_level),
                );
                &&& cs_view(out.metadata) == digests_after(Seq::empty(), algorithms@, plain)
                &&& out.metadata.checksum@ == legacy_after(Seq::empty(), algorithms@, plain)
                &&& (!enveloped ==> out.container@ == plain)
                &&& (enveloped ==> age_open(out.container@, envelope_password->0@) == Some(
                    plain,
                ))
            }))
            &&& (kind == Some(ContainerKind::TarZst) ==> ({
                let plain = zstd_bytes(
                    tar_bytes(entry_views(files@, archiver.source@)),
                    effective_level(ContainerKind::TarZst, archiver.compression_level),
                );
                &&& cs_view(out.metadata) == digests_after(Seq::empty(), algorithms@, plain)
                &&& out.metadata.checksum@ == legacy_after(Seq::empty(), algorithms@, plain)
                &&& (!enveloped ==> out.container@ == plain)
                &&& (enveloped ==> age_open(out.container@, envelope_password->0@) == Some(
                    plain,
                ))
            }))
            &&& (kind == Some(ContainerKind::Zip) ==> ({
                &&& cs_view(out.metadata) == digests_after(
                    Seq::empty(),
                    algorithms@,
                    out.container@,
                )
                &&& out.metadata.checksum@ == legacy_after(
                    Seq::empty(),
                    algorithms@,
                    out.container@,
                )
            }))
        }),
        r is Err ==> (r->Err_0 == ArchiveError::UnsupportedContainerKind || r->Err_0
            == ArchiveError::PathInvalid || r->Err_0 == ArchiveError::IOFailure),
        (r is Err && r->Err_0 == ArchiveError::UnsupportedContainerKind) <==> kind_of_name(
            archiver.algorithm@,
        ) is None,
        ((kind_of_name(archiver.algorithm@) == Some(ContainerKind::TarGz) || kind_of_name(
            archiver.algorithm@,
        ) == Some(ContainerKind::TarZst)) && (forall|i: int|
            0 <= i < files@.len() ==> crate::text::starts_with_seq(
                #[trigger] files@[i].path@,
                archiver.source@,
            )) && (forall|i: int|
            0 <= i < files@.len() ==> tar_name_ok(
                relativize_spec(#[trigger] files@[i].path@, archiver.source@),
            ))) ==> r is Ok,
{
    let kind = match crate::compress::parse_kind(archiver.algorithm.as_str()) {
        Some(k) => k,
        None => {
            return Err(ArchiveError::UnsupportedContainerKind);
        },
    };
    let (plain, file_list) = match archiver.compress(files) {
        Ok(pair) => pair,
        Err(e) => {
            assert(e != ArchiveError::UnsupportedContainerKind);
            return Err(e);
        },
    };
    let mut metadata = ArchiveMetadata {
        name: archiver.archive_name.clone(),
        created_at,
        checksum: String::new(),
        checksums: Vec::new(),
        algorithm: archiver.algorithm.clone(),
        size_bytes: 0,
        file_count: file_list.len(),
        encrypted: false,
        contents: clone_strings(&file_list),
    };
    proof {
        assert(cs_view(metadata) =~= Seq::<(Seq<char>, Seq<char>)>::empty());
        assert(metadata.checksum@ =~= Seq::<char>::empty());
    }
    let n = algorithms.len();
    for i in 0..n
        invariant
            n == algorithms@.len(),
            cs_view(metadata) == digests_after(
                Seq::empty(),
                algorithms@.take(i as int),
                plain@,
            ),
            metadata.checksum@ == legacy_after(Seq::empty(), algorithms@.take(i as int), plain@),
            metadata.name@ == archiver.archive_name@,
            metadata.created_at@ == created_at@,
            metadata.algorithm@ == archiver.algorithm@,
            metadata.file_count == file_list@.len(),
            metadata.contents.deep_view() == file_list.deep_view(),
            metadata.size_bytes == 0,
            metadata.encrypted == false,
    {
        let algo = algorithms[i];
        let digest = match AdvancedChecker::generate_checksum(plain.as_slice(), algo) {
            Ok(d) => d,
            Err(_) => {
                proof {
                    assert(false);
                }
                return Err(ArchiveError::IOFailure);
            },
        };
        let name = algo.name();
        metadata.add_checksum(name, digest);
        proof {
            assert(algorithms@.take(i + 1) =~= algorithms@.take(i as int).push(
                algorithms@[i as int],
            ));
            lemma_digests_after_push(
                Seq::empty(),
                algorithms@.take(i as int),
                algorithms@[i as int],
                plain@,
            );
            lemma_legacy_after_push(
                Seq::empty(),
                algorithms@.take(i as int),
                algorithms@[i as int],
                plain@,
            );
        }
    }
    proof {
        assert(algorithms@.take(n as int) =~= algorithms@);
    }
    let enveloped = match kind {
        ContainerKind::TarGz | ContainerKind::TarZst => envelope_password.is_some(),
        ContainerKind::Zip => false,
    };
    let container = if enveloped {
        let password = match envelope_password {
            Some(p) => p,
            None => {
                proof {
                    assert(false);
                }
                return Err(ArchiveError::IOFailure);
            },
        };
        let enc = TarEncryptor::new(password.clone());
        enc.encrypt_bytes(plain.as_slice())
    } else {
        plain
    };
    let sidecar = if generate_sidecar {
        match Checker::generate_checksum_file(container.as_slice(), archiver.archive_name.as_str())
        {
            Ok(line) => Some(line),
            Err(_) => {
                proof {
                    assert(false);
                }
                return Err(ArchiveError::IOFailure);
            },
        }
    } else {
        None
    };
    metadata.size_bytes = container.len() as u64;
    metadata.encrypted = enveloped || (match kind {
        ContainerKind::Zip => archiver.password.is_some(),
        _ => false,
    });
    Ok(BackupOutcome { container, file_list, sidecar, metadata })
}

} // verus!
