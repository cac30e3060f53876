//! Archive state store: the durable record of every archive produced,
//! keyed by name, with backward-compatible migration of records that
//! predate the digest set.
//!
//! The store is a name-unique list of records; the digest set of each
//! record is a key-unique association list from upper-cased algorithm
//! names to digests, with one legacy field holding the SHA-256 digest
//! redundantly for older readers.

use vstd::prelude::*;

use crate::text::{lex_lt, str_eq, str_lt, to_ascii_upper, upper_seq};

verus! {

/// The immutable record of one produced archive.
pub struct ArchiveMetadata {
    pub name: String,
    pub created_at: String,
    /// Legacy single-digest field: the SHA-256 digest, kept for readers
    /// of the older schema.
    pub checksum: String,
    /// Digest set: upper-cased algorithm name to digest, key-unique.
    pub checksums: Vec<(String, String)>,
    pub algorithm: String,
    pub size_bytes: u64,
    pub file_count: usize,
    pub encrypted: bool,
    pub contents: Vec<String>,
}

/// A pair list as view pairs.
pub open spec fn pairs_view(v: Seq<(String, String)>) -> Seq<(Seq<char>, Seq<char>)> {
    v.map_values(|p: (String, String)| (p.0@, p.1@))
}

/// The digest set of a record, as view pairs.
pub open spec fn cs_view(m: ArchiveMetadata) -> Seq<(Seq<char>, Seq<char>)> {
    pairs_view(m.checksums@)
}

/// The first value stored under `key`, scanning left to right.
pub open spec fn lookup(cs: Seq<(Seq<char>, Seq<char>)>, key: Seq<char>) -> Option<Seq<char>>
    decreases cs.len(),
{
    if cs.len() == 0 {
        None
    } else if cs[0].0 == key {
        Some(cs[0].1)
    } else {
        lookup(cs.skip(1), key)
    }
}

/// `cs` with the first entry under `key` replaced by `val`, or with
/// `(key, val)` appended when no entry carries `key`.
pub open spec fn upsert(cs: Seq<(Seq<char>, Seq<char>)>, key: Seq<char>, val: Seq<char>) -> Seq<
    (Seq<char>, Seq<char>),
>
    decreases cs.len(),
{
    if cs.len() == 0 {
        seq![(key, val)]
    } else if cs[0].0 == key {
        seq![(key, val)] + cs.skip(1)
    } else {
        seq![cs[0]] + upsert(cs.skip(1), key, val)
    }
}

proof fn lemma_lookup_at(cs: Seq<(Seq<char>, Seq<char>)>, key: Seq<char>, i: int)
    requires
        0 <= i < cs.len(),
        cs[i].0 == key,
        forall|k: int| 0 <= k < i ==> (#[trigger] cs[k]).0 != key,
    ensures
        lookup(cs, key) == Some(cs[i].1),
    decreases i,
{
    if i > 0 {
        assert(cs[0].0 != key);
        lemma_lookup_at(cs.skip(1), key, i - 1);
    }
}

proof fn lemma_lookup_absent(cs: Seq<(Seq<char>, Seq<char>)>, key: Seq<char>)
    requires
        forall|k: int| 0 <= k < cs.len() ==> (#[trigger] cs[k]).0 != key,
    ensures
        lookup(cs, key) is None,
    decreases cs.len(),
{
    if cs.len() > 0 {
        lemma_lookup_absent(cs.skip(1), key);
    }
}

proof fn lemma_upsert_at(cs: Seq<(Seq<char>, Seq<char>)>, key: Seq<char>, val: Seq<char>, i: int)
    requires
        0 <= i < cs.len(),
        cs[i].0 == key,
        forall|k: int| 0 <= k < i ==> (#[trigger] cs[k]).0 != key,
    ensures
        upsert(cs, key, val) == cs.update(i, (key, val)),
    decreases i,
{
    if i == 0 {
        assert(upsert(cs, key, val) =~= cs.update(0, (key, val)));
    } else {
        assert(cs[0].0 != key);
        lemma_upsert_at(cs.skip(1), key, val, i - 1);
        assert(seq![cs[0]] + cs.skip(1).update(i - 1, (key, val)) =~= cs.update(i, (key, val)));
    }
}

proof fn lemma_upsert_absent(cs: Seq<(Seq<char>, Seq<char>)>, key: Seq<char>, val: Seq<char>)
    requires
        forall|k: int| 0 <= k < cs.len() ==> (#[trigger] cs[k]).0 != key,
    ensures
        upsert(cs, key, val) == cs.push((key, val)),
    decreases cs.len(),
{
    if cs.len() == 0 {
        assert(upsert(cs, key, val) =~= cs.push((key, val)));
    } else {
        lemma_upsert_absent(cs.skip(1), key, val);
        assert(seq![cs[0]] + cs.skip(1).push((key, val)) =~= cs.push((key, val)));
    }
}

/// The digest set's key for an algorithm name: upper-cased, with the
/// bare spelling of SHA-256 normalized to the canonical hyphenated one,
/// so that every SHA-256 digest lands under one key.
pub open spec fn canon_key(algorithm: Seq<char>) -> Seq<char> {
    if upper_seq(algorithm) == "SHA256"@ {
        "SHA-256"@
    } else {
        upper_seq(algorithm)
    }
}

/// Compute the digest set's key for an algorithm name.
fn canon_key_exec(algorithm: &str) -> (r: String)
    ensures
        r@ == canon_key(algorithm@),
{
    let upper = to_ascii_upper(algorithm);
    if str_eq(upper.as_str(), "SHA256") {
        String::from_str("SHA-256")
    } else {
        upper
    }
}

/// The digest-set invariant: a non-empty legacy field always equals the
/// digest set's SHA-256 entry.
pub open spec fn legacy_consistent(m: ArchiveMetadata) -> bool {
    m.checksum@.len() > 0 ==> lookup(cs_view(m), "SHA-256"@) == Some(m.checksum@)
}

proof fn lemma_lookup_upsert_same(cs: Seq<(Seq<char>, Seq<char>)>, key: Seq<char>, val: Seq<char>)
    ensures
        lookup(upsert(cs, key, val), key) == Some(val),
    decreases cs.len(),
{
    if cs.len() == 0 {
    } else if cs[0].0 == key {
        assert(upsert(cs, key, val)[0] == (key, val));
    } else {
        lemma_lookup_upsert_same(cs.skip(1), key, val);
        assert((seq![cs[0]] + upsert(cs.skip(1), key, val)).skip(1) =~= upsert(
            cs.skip(1),
            key,
            val,
        ));
    }
}

proof fn lemma_lookup_upsert_other(
    cs: Seq<(Seq<char>, Seq<char>)>,
    key: Seq<char>,
    val: Seq<char>,
    other: Seq<char>,
)
    requires
        other != key,
    ensures
        lookup(upsert(cs, key, val), other) == lookup(cs, other),
    decreases cs.len(),
{
    if cs.len() == 0 {
        assert(upsert(cs, key, val)[0] == (key, val));
        assert(upsert(cs, key, val).skip(1) =~= Seq::<(Seq<char>, Seq<char>)>::empty());
        assert(lookup(Seq::<(Seq<char>, Seq<char>)>::empty(), other) is None);
    } else if cs[0].0 == key {
        assert(upsert(cs, key, val)[0] == (key, val));
        assert((seq![(key, val)] + cs.skip(1)).skip(1) =~= cs.skip(1));
    } else {
        lemma_lookup_upsert_other(cs.skip(1), key, val, other);
        assert(upsert(cs, key, val)[0] == cs[0]);
        assert((seq![cs[0]] + upsert(cs.skip(1), key, val)).skip(1) =~= upsert(
            cs.skip(1),
            key,
            val,
        ));
    }
}

/// Stable ascending insertion by algorithm name: `e` ends up after every
/// pair whose key is at most its own.
pub open spec fn insert_pair_asc(s: Seq<(Seq<char>, Seq<char>)>, e: (Seq<char>, Seq<char>)) -> Seq<
    (Seq<char>, Seq<char>),
>
    decreases s.len(),
{
    if s.len() == 0 {
        seq![e]
    } else if lex_lt(e.0, s.last().0) {
        insert_pair_asc(s.drop_last(), e).push(s.last())
    } else {
        s.push(e)
    }
}

/// The pairs ordered ascending by algorithm name, stably.
pub open spec fn sort_pairs_asc(s: Seq<(Seq<char>, Seq<char>)>) -> Seq<(Seq<char>, Seq<char>)>
    decreases s.len(),
{
    if s.len() == 0 {
        s
    } else {
        insert_pair_asc(sort_pairs_asc(s.drop_last()), s.last())
    }
}

proof fn lemma_insert_pair_at(s: Seq<(Seq<char>, Seq<char>)>, e: (Seq<char>, Seq<char>), j: int)
    requires
        0 <= j <= s.len(),
        forall|k: int| j <= k < s.len() ==> lex_lt(e.0, (#[trigger] s[k]).0),
        j > 0 ==> !lex_lt(e.0, s[j - 1].0),
    ensures
        insert_pair_asc(s, e) == s.take(j) + seq![e] + s.skip(j),
    decreases s.len(),
{
    if j == s.len() {
        if s.len() == 0 {
            assert(insert_pair_asc(s, e) =~= s.take(j) + seq![e] + s.skip(j));
        } else {
            assert(!lex_lt(e.0, s.last().0));
            assert(s.push(e) =~= s.take(j) + seq![e] + s.skip(j));
        }
    } else {
        assert(lex_lt(e.0, s[s.len() - 1].0));
        let d = s.drop_last();
        lemma_insert_pair_at(d, e, j);
        assert((d.take(j) + seq![e] + d.skip(j)).push(s.last()) =~= s.take(j) + seq![e] + s.skip(
            j,
        ));
    }
}

/// Order digest pairs ascending by algorithm name, stably.
fn sort_pairs(v: Vec<(String, String)>) -> (r: Vec<(String, String)>)
    ensures
        pairs_view(r@) == sort_pairs_asc(pairs_view(v@)),
{
    let mut out: Vec<(String, String)> = Vec::new();
    let n = v.len();
    proof {
        assert(pairs_view(out@) =~~= sort_pairs_asc(pairs_view(v@).take(0)));
    }
    for k in 0..n
        invariant
            n == v@.len(),
            out@.len() == k,
            pairs_view(out@) =~~= sort_pairs_asc(pairs_view(v@).take(k as int)),
    {
        let e = (v[k].0.clone(), v[k].1.clone());
        let ghost ev = pairs_view(v@)[k as int];
        assert(e.0@ == ev.0 && e.1@ == ev.1);
        let mut j = out.len();
        while j > 0 && crate::text::str_lt(e.0.as_str(), out[j - 1].0.as_str())
            invariant
                j <= out@.len(),
                e.0@ == ev.0,
                forall|m: int| j <= m < out@.len() ==> lex_lt(
                    ev.0,
                    (#[trigger] pairs_view(out@)[m]).0,
                ),
            decreases j,
        {
            j = j - 1;
        }
        let ghost pre = pairs_view(out@);
        proof {
            if j > 0 {
                assert(pre[j - 1].0 == out@[j - 1].0@);
            }
            lemma_insert_pair_at(pre, ev, j as int);
        }
        out.insert(j, e);
        proof {
            assert(pairs_view(out@) =~~= pre.take(j as int) + seq![ev] + pre.skip(j as int));
            assert(pairs_view(v@).take(k + 1).drop_last() =~= pairs_view(v@).take(k as int));
            assert(pairs_view(v@).take(k + 1).last() == pairs_view(v@)[k as int]);
            assert(pairs_view(out@) =~~= sort_pairs_asc(pairs_view(v@).take(k + 1)));
        }
    }
    proof {
        assert(pairs_view(v@).take(n as int) =~= pairs_view(v@));
    }
    out
}

/// The index of the first entry under `key`, if any.
fn find_key(cs: &Vec<(String, String)>, key: &str) -> (r: Option<usize>)
    ensures
        r is Some ==> r->0 < cs@.len() && cs@[r->0 as int].0@ == key@ && forall|k: int|
            0 <= k < r->0 ==> (#[trigger] cs@[k]).0@ != key@,
        r is None ==> forall|k: int| 0 <= k < cs@.len() ==> (#[trigger] cs@[k]).0@ != key@,
{
    let n = cs.len();
    for i in 0..n
        invariant
            n == cs@.len(),
            forall|k: int| 0 <= k < i ==> (#[trigger] cs@[k]).0@ != key@,
    {
        if str_eq(cs[i].0.as_str(), key) {
            return Some(i);
        }
    }
    None
}

impl ArchiveMetadata {
    /// The digest recorded under an algorithm name (matched under the
    /// canonical key).  For SHA-256 the legacy field answers when the
    /// digest set has no entry.
    pub fn get_checksum(&self, algorithm: &str) -> (r: Option<&String>)
        ensures
            ({
                let key = canon_key(algorithm@);
                &&& (r is Some <==> (lookup(cs_view(*self), key) is Some || (key == "SHA-256"@
                    && self.checksum@.len() > 0)))
                &&& (r is Some ==> r->0@ == (match lookup(cs_view(*self), key) {
                    Some(v) => v,
                    None => self.checksum@,
                }))
            }),
    {
        let key = canon_key_exec(algorithm);
        match find_key(&self.checksums, key.as_str()) {
            Some(i) => {
                proof {
                    assert(cs_view(*self)[i as int].0 == canon_key(algorithm@));
                    assert(forall|k: int| 0 <= k < i ==> (#[trigger] cs_view(*self)[k]).0
                        != canon_key(algorithm@));
                    lemma_lookup_at(cs_view(*self), canon_key(algorithm@), i as int);
                }
                Some(&self.checksums[i].1)
            },
            None => {
                proof {
                    assert(forall|k: int| 0 <= k < cs_view(*self).len() ==> (#[trigger] cs_view(
                        *self,
                    )[k]).0 != canon_key(algorithm@));
                    lemma_lookup_absent(cs_view(*self), canon_key(algorithm@));
                }
                if str_eq(key.as_str(), "SHA-256") && self.checksum.as_str().unicode_len() > 0 {
                    Some(&self.checksum)
                } else {
                    None
                }
            },
        }
    }

    /// Record a digest under an algorithm name (stored under the
    /// canonical upper-cased key, replacing any previous entry); a
    /// SHA-256 digest is mirrored into the legacy field, so the
    /// digest-set invariant [`legacy_consistent`] is preserved.
    pub fn add_checksum(&mut self, algorithm: &str, hash: String)
        ensures
            ({
                let key = canon_key(algorithm@);
                &&& cs_view(*final(self)) == upsert(cs_view(*old(self)), key, hash@)
                &&& final(self).checksum@ == (if key == "SHA-256"@ {
                    hash@
                } else {
                    old(self).checksum@
                })
                &&& (legacy_consistent(*old(self)) ==> legacy_consistent(*final(self)))
                &&& (key == "SHA-256"@ ==> legacy_consistent(*final(self)))
                &&& final(self).name == old(self).name
                &&& final(self).created_at == old(self).created_at
                &&& final(self).algorithm == old(self).algorithm
                &&& final(self).size_bytes == old(self).size_bytes
                &&& final(self).file_count == old(self).file_count
                &&& final(self).encrypted == old(self).encrypted
                &&& final(self).contents == old(self).contents
            }),
    {
        let key = canon_key_exec(algorithm);
        let ghost kv = canon_key(algorithm@);
        let ghost pre = cs_view(*self);
        let ghost hv = hash@;
        let is_sha = str_eq(key.as_str(), "SHA-256");
        match find_key(&self.checksums, key.as_str()) {
            Some(i) => {
                proof {
                    assert(pre[i as int].0 == kv);
                    assert(forall|k: int| 0 <= k < i ==> (#[trigger] pre[k]).0 != kv);
                    lemma_upsert_at(pre, kv, hash@, i as int);
                }
                self.checksums.remove(i);
                self.checksums.insert(i, (key, hash.clone()));
                proof {
                    assert(self.checksums@ =~= old(self).checksums@.update(
                        i as int,
                        (key, hash),
                    ));
                    assert(cs_view(*self) =~= pre.update(i as int, (kv, hash@)));
                }
            },
            None => {
                proof {
                    assert(forall|k: int| 0 <= k < pre.len() ==> (#[trigger] pre[k]).0 != kv);
                    lemma_upsert_absent(pre, kv, hash@);
                }
                self.checksums.push((key, hash.clone()));
                proof {
                    assert(cs_view(*self) =~= pre.push((kv, hash@)));
                }
            },
        }
        if is_sha {
            self.checksum = hash;
        }
        proof {
            if kv == "SHA-256"@ {
                lemma_lookup_upsert_same(pre, kv, hv);
            } else {
                lemma_lookup_upsert_other(pre, kv, hv, "SHA-256"@);
            }
        }
    }

    /// Every recorded digest as (algorithm, digest) pairs, ordered
    /// ascending by algorithm name; the legacy SHA-256 digest is added
    /// when the digest set has no SHA-256 entry of its own.
    pub fn list_checksums(&self) -> (r: Vec<(String, String)>)
        ensures
            ({
                let base = cs_view(*self);
                let listed = if self.checksum@.len() > 0 && lookup(base, "SHA-256"@) is None {
                    base.push(("SHA-256"@, self.checksum@))
                } else {
                    base
                };
                pairs_view(r@) == sort_pairs_asc(listed)
            }),
    {
        let mut out: Vec<(String, String)> = Vec::new();
        let n = self.checksums.len();
        for i in 0..n
            invariant
                n == self.checksums@.len(),
                out@.len() == i,
                pairs_view(out@) =~~= cs_view(*self).take(i as int),
        {
            let ghost prev = out@;
            out.push((self.checksums[i].0.clone(), self.checksums[i].1.clone()));
            proof {
                assert(out@[i as int].0@ == self.checksums@[i as int].0@);
                assert(out@[i as int].1@ == self.checksums@[i as int].1@);
                assert(pairs_view(out@) =~~= cs_view(*self).take(i + 1));
            }
        }
        proof {
            assert(cs_view(*self).take(n as int) =~= cs_view(*self));
        }
        match find_key(&self.checksums, "SHA-256") {
            Some(i) => {
                proof {
                    reveal_strlit("SHA-256");
                    assert(cs_view(*self)[i as int].0 == "SHA-256"@);
                    assert(forall|k: int| 0 <= k < i ==> (#[trigger] cs_view(*self)[k]).0
                        != "SHA-256"@);
                    lemma_lookup_at(cs_view(*self), "SHA-256"@, i as int);
                }
                sort_pairs(out)
            },
            None => {
                proof {
                    assert(forall|k: int| 0 <= k < cs_view(*self).len() ==> (#[trigger] cs_view(
                        *self,
                    )[k]).0 != "SHA-256"@);
                    lemma_lookup_absent(cs_view(*self), "SHA-256"@);
                }
                if self.checksum.as_str().unicode_len() > 0 {
                    let tag = String::from_str("SHA-256");
                    out.push((tag, self.checksum.clone()));
                    assert(pairs_view(out@) =~~= cs_view(*self).push(("SHA-256"@, self.checksum@)));
                }
                sort_pairs(out)
            },
        }
    }
}

/// True when `m` is `o` after schema migration: all fields unchanged,
/// except that a record carrying only the legacy digest gains a
/// SHA-256 entry in its digest set.
pub open spec fn migrated_one(o: ArchiveMetadata, m: ArchiveMetadata) -> bool {
    &&& m.name == o.name
    &&& m.created_at == o.created_at
    &&& m.checksum == o.checksum
    &&& m.algorithm == o.algorithm
    &&& m.size_bytes == o.size_bytes
    &&& m.file_count == o.file_count
    &&& m.encrypted == o.encrypted
    &&& m.contents == o.contents
    &&& if o.checksum@.len() > 0 && o.checksums@.len() == 0 {
        cs_view(m) == seq![("SHA-256"@, o.checksum@)]
    } else {
        m.checksums == o.checksums
    }
}

/// A record carrying only the legacy digest exposes, after migration,
/// that same digest under the digest set's SHA-256 key — migration
/// establishes the digest-set invariant for such records.
pub proof fn lemma_migration_exposes_legacy(o: ArchiveMetadata, m: ArchiveMetadata)
    requires
        migrated_one(o, m),
        o.checksum@.len() > 0,
        o.checksums@.len() == 0,
    ensures
        lookup(cs_view(m), "SHA-256"@) == Some(o.checksum@),
        legacy_consistent(m),
{
    assert(cs_view(m)[0] == ("SHA-256"@, o.checksum@));
}

fn migrate_one_exec(m: ArchiveMetadata) -> (r: ArchiveMetadata)
    ensures
        migrated_one(m, r),
{
    let ghost o = m;
    let ArchiveMetadata {
        name,
        created_at,
        checksum,
        mut checksums,
        algorithm,
        size_bytes,
        file_count,
        encrypted,
        contents,
    } = m;
    if checksum.as_str().unicode_len() > 0 && checksums.len() == 0 {
        let tag = String::from_str("SHA-256");
        checksums.push((tag, checksum.clone()));
        proof {
            assert(pairs_view(checksums@) =~= seq![("SHA-256"@, o.checksum@)]);
        }
    }
    ArchiveMetadata {
        name,
        created_at,
        checksum,
        checksums,
        algorithm,
        size_bytes,
        file_count,
        encrypted,
        contents,
    }
}

/// The first record named `name`, if any.
pub open spec fn lookup_meta(s: Seq<ArchiveMetadata>, name: Seq<char>) -> Option<ArchiveMetadata>
    decreases s.len(),
{
    if s.len() == 0 {
        None
    } else if s[0].name@ == name {
        Some(s[0])
    } else {
        lookup_meta(s.skip(1), name)
    }
}

/// `s` with the first record named like `m` replaced by `m` wholesale,
/// or with `m` appended when no record carries its name.
pub open spec fn upsert_meta(s: Seq<ArchiveMetadata>, m: ArchiveMetadata) -> Seq<ArchiveMetadata>
    decreases s.len(),
{
    if s.len() == 0 {
        seq![m]
    } else if s[0].name@ == m.name@ {
        seq![m] + s.skip(1)
    } else {
        seq![s[0]] + upsert_meta(s.skip(1), m)
    }
}

/// `s` with the first record named `name` removed.
pub open spec fn remove_meta(s: Seq<ArchiveMetadata>, name: Seq<char>) -> Seq<ArchiveMetadata>
    decreases s.len(),
{
    if s.len() == 0 {
        s
    } else if s[0].name@ == name {
        s.skip(1)
    } else {
        seq![s[0]] + remove_meta(s.skip(1), name)
    }
}

/// Stable descending insertion by creation time: `e` ends up after
/// every record created at the same time or later.
pub open spec fn insert_created_desc(s: Seq<ArchiveMetadata>, e: ArchiveMetadata) -> Seq<
    ArchiveMetadata,
>
    decreases s.len(),
{
    if s.len() == 0 {
        seq![e]
    } else if lex_lt(s.last().created_at@, e.created_at@) {
        insert_created_desc(s.drop_last(), e).push(s.last())
    } else {
        s.push(e)
    }
}

/// The records ordered by creation time, most recent first; records
/// with equal timestamps keep their stored order.
pub open spec fn sort_created_desc(s: Seq<ArchiveMetadata>) -> Seq<ArchiveMetadata>
    decreases s.len(),
{
    if s.len() == 0 {
        s
    } else {
        insert_created_desc(sort_created_desc(s.drop_last()), s.last())
    }
}

proof fn lemma_insert_created_at(s: Seq<ArchiveMetadata>, e: ArchiveMetadata, j: int)
    requires
        0 <= j <= s.len(),
        forall|k: int| j <= k < s.len() ==> lex_lt((#[trigger] s[k]).created_at@, e.created_at@),
        j > 0 ==> !lex_lt(s[j - 1].created_at@, e.created_at@),
    ensures
        insert_created_desc(s, e) == s.take(j) + seq![e] + s.skip(j),
    decreases s.len(),
{
    if j == s.len() {
        if s.len() == 0 {
            assert(insert_created_desc(s, e) =~= s.take(j) + seq![e] + s.skip(j));
        } else {
            assert(!lex_lt(s.last().created_at@, e.created_at@));
            assert(s.push(e) =~= s.take(j) + seq![e] + s.skip(j));
        }
    } else {
        assert(lex_lt(s[s.len() - 1].created_at@, e.created_at@));
        let d = s.drop_last();
        lemma_insert_created_at(d, e, j);
        assert((d.take(j) + seq![e] + d.skip(j)).push(s.last()) =~= s.take(j) + seq![e] + s.skip(
            j,
        ));
    }
}

/// Keyed collection of archive records, persisted as one document by
/// the surrounding code.
pub struct StateTracker {
    archives: Vec<ArchiveMetadata>,
}

impl StateTracker {
    /// The records, in stored order.
    pub closed spec fn spec_archives(&self) -> Seq<ArchiveMetadata> {
        self.archives@
    }

    /// An empty store.
    pub fn new() -> (r: Self)
        ensures
            r.spec_archives() == Seq::<ArchiveMetadata>::empty(),
    {
        let r = StateTracker { archives: Vec::new() };
        proof {
            assert(r.spec_archives() =~= Seq::<ArchiveMetadata>::empty());
        }
        r
    }

    /// Insert a record, fully replacing any record of the same name.
    pub fn add_archive(&mut self, metadata: ArchiveMetadata)
        ensures
            final(self).spec_archives() == upsert_meta(old(self).spec_archives(), metadata),
    {
        let ghost pre = self.archives@;
        let n = self.archives.len();
        for i in 0..n
            invariant
                n == self.archives@.len(),
                self.archives@ == pre,
                pre == old(self).spec_archives(),
                forall|k: int| 0 <= k < i ==> (#[trigger] pre[k]).name@ != metadata.name@,
        {
            if str_eq(self.archives[i].name.as_str(), metadata.name.as_str()) {
                proof {
                    lemma_upsert_meta_at(pre, metadata, i as int);
                }
                self.archives.remove(i);
                self.archives.insert(i, metadata);
                proof {
                    assert(self.archives@ =~= pre.update(i as int, metadata));
                }
                return ;
            }
        }
        proof {
            lemma_upsert_meta_absent(pre, metadata);
        }
        self.archives.push(metadata);
    }

    /// The record of the given name, if any.
    pub fn get_archive(&self, name: &str) -> (r: Option<&ArchiveMetadata>)
        ensures
            r is Some <==> lookup_meta(self.spec_archives(), name@) is Some,
            r is Some ==> *r->0 == lookup_meta(self.spec_archives(), name@)->0,
    {
        let n = self.archives.len();
        for i in 0..n
            invariant
                n == self.archives@.len(),
                forall|k: int| 0 <= k < i ==> (#[trigger] self.archives@[k]).name@ != name@,
        {
            if str_eq(self.archives[i].name.as_str(), name) {
                proof {
                    lemma_lookup_meta_at(self.archives@, name@, i as int);
                }
                return Some(&self.archives[i]);
            }
        }
        proof {
            lemma_lookup_meta_absent(self.archives@, name@);
        }
        None
    }

    /// Every record, ordered by creation time, most recent first.
    pub fn list_archives(&self) -> (r: Vec<&ArchiveMetadata>)
        ensures
            r@.map_values(|m: &ArchiveMetadata| *m) == sort_created_desc(self.spec_archives()),
    {
        let mut out: Vec<&ArchiveMetadata> = Vec::new();
        let n = self.archives.len();
        for k in 0..n
            invariant
                n == self.archives@.len(),
                out@.map_values(|m: &ArchiveMetadata| *m) =~= sort_created_desc(
                    self.archives@.take(k as int),
                ),
        {
            let e = &self.archives[k];
            let mut j = out.len();
            while j > 0 && str_lt(out[j - 1].created_at.as_str(), e.created_at.as_str())
                invariant
                    j <= out@.len(),
                    forall|m: int| j <= m < out@.len() ==> lex_lt(
                        (#[trigger] out@[m]).created_at@,
                        e.created_at@,
                    ),
                decreases j,
            {
                j = j - 1;
            }
            let ghost mapped = out@.map_values(|m: &ArchiveMetadata| *m);
            proof {
                assert(forall|m: int| j <= m < mapped.len() ==> lex_lt(
                    (#[trigger] mapped[m]).created_at@,
                    e.created_at@,
                ));
                if j > 0 {
                    assert(mapped[j - 1] == *out@[j - 1]);
                }
                lemma_insert_created_at(mapped, *e, j as int);
            }
            out.insert(j, e);
            proof {
                assert(out@.map_values(|m: &ArchiveMetadata| *m) =~= mapped.take(j as int) + seq![
                    *e,
                ] + mapped.skip(j as int));
                assert(self.archives@.take(k + 1).drop_last() =~= self.archives@.take(k as int));
                assert(self.archives@.take(k + 1).last() == self.archives@[k as int]);
                assert(out@.map_values(|m: &ArchiveMetadata| *m) =~= sort_created_desc(
                    self.archives@.take(k + 1),
                ));
            }
        }
        proof {
            assert(self.archives@.take(n as int) =~= self.archives@);
        }
        out
    }

    /// Remove and return the record of the given name, if any.
    pub fn remove_archve(&mut self, name: &str) -> (r: Option<ArchiveMetadata>)
        ensures
            r is Some <==> lookup_meta(old(self).spec_archives(), name@) is Some,
            r is Some ==> r->0 == lookup_meta(old(self).spec_archives(), name@)->0,
            final(self).spec_archives() == remove_meta(old(self).spec_archives(), name@),
    {
        let ghost pre = self.archives@;
        let n = self.archives.len();
        for i in 0..n
            invariant
                n == self.archives@.len(),
                self.archives@ == pre,
                pre == old(self).spec_archives(),
                forall|k: int| 0 <= k < i ==> (#[trigger] pre[k]).name@ != name@,
        {
            if str_eq(self.archives[i].name.as_str(), name) {
                proof {
                    lemma_lookup_meta_at(pre, name@, i as int);
                    lemma_remove_meta_at(pre, name@, i as int);
                }
                let m = self.archives.remove(i);
                proof {
                    assert(self.archives@ =~= pre.remove(i as int));
                }
                return Some(m);
            }
        }
        proof {
            lemma_lookup_meta_absent(pre, name@);
            lemma_remove_meta_absent(pre, name@);
        }
        None
    }

    /// How many records the store holds.
    pub fn archive_count(&self) -> (r: usize)
        ensures
            r == self.spec_archives().len(),
    {
        self.archives.len()
    }

    /// Bring every record to the current schema: a record holding only
    /// the legacy digest gains a SHA-256 entry in its digest set.  The
    /// persisted document is only rewritten on the next explicit save.
    pub fn migrate_old_format(&mut self)
        ensures
            final(self).spec_archives().len() == old(self).spec_archives().len(),
            forall|i: int| 0 <= i < old(self).spec_archives().len() ==> migrated_one(
                old(self).spec_archives()[i],
                #[trigger] final(self).spec_archives()[i],
            ),
    {
        let ghost pre = self.archives@;
        let ghost n = pre.len();
        let mut reversed: Vec<ArchiveMetadata> = Vec::new();
        proof {
            assert(pre.take(n as int) =~= pre);
        }
        while self.archives.len() > 0
            invariant
                n == pre.len(),
                pre == old(self).spec_archives(),
                self.archives@ == pre.take(self.archives@.len() as int),
                reversed@.len() + self.archives@.len() == n,
                forall|k: int| 0 <= k < reversed@.len() ==> migrated_one(
                    pre[n - 1 - k],
                    #[trigger] reversed@[k],
                ),
            decreases self.archives@.len(),
        {
            let m = match self.archives.pop() {
                Some(m) => m,
                None => {
                    proof {
                        assert(false);
                    }
                    return ;
                },
            };
            proof {
                assert(pre.take(self.archives@.len() as int + 1).last() == pre[self.archives@.len() as int]);
                assert(pre.take(self.archives@.len() as int + 1).drop_last() =~= pre.take(
                    self.archives@.len() as int,
                ));
            }
            reversed.push(migrate_one_exec(m));
        }
        while reversed.len() > 0
            invariant
                n == pre.len(),
                pre == old(self).spec_archives(),
                self.archives@.len() + reversed@.len() == n,
                forall|k: int| 0 <= k < reversed@.len() ==> migrated_one(
                    pre[n - 1 - k],
                    #[trigger] reversed@[k],
                ),
                forall|i: int| 0 <= i < self.archives@.len() ==> migrated_one(
                    pre[i],
                    #[trigger] self.archives@[i],
                ),
            decreases reversed@.len(),
        {
            let m = match reversed.pop() {
                Some(m) => m,
                None => {
                    proof {
                        assert(false);
                    }
                    return ;
                },
            };
            self.archives.push(m);
        }
    }
}

impl Default for StateTracker {
    /// An empty store.
    fn default() -> (r: Self)
        ensures
            r.spec_archives() == Seq::<ArchiveMetadata>::empty(),
    {
        StateTracker::new()
    }
}

proof fn lemma_lookup_meta_at(s: Seq<ArchiveMetadata>, name: Seq<char>, i: int)
    requires
        0 <= i < s.len(),
        s[i].name@ == name,
        forall|k: int| 0 <= k < i ==> (#[trigger] s[k]).name@ != name,
    ensures
        lookup_meta(s, name) == Some(s[i]),
    decreases i,
{
    if i > 0 {
        lemma_lookup_meta_at(s.skip(1), name, i - 1);
    }
}

proof fn lemma_lookup_meta_absent(s: Seq<ArchiveMetadata>, name: Seq<char>)
    requires
        forall|k: int| 0 <= k < s.len() ==> (#[trigger] s[k]).name@ != name,
    ensures
        lookup_meta(s, name) is None,
    decreases s.len(),
{
    if s.len() > 0 {
        lemma_lookup_meta_absent(s.skip(1), name);
    }
}

proof fn lemma_upsert_meta_at(s: Seq<ArchiveMetadata>, m: ArchiveMetadata, i: int)
    requires
        0 <= i < s.len(),
        s[i].name@ == m.name@,
        forall|k: int| 0 <= k < i ==> (#[trigger] s[k]).name@ != m.name@,
    ensures
        upsert_meta(s, m) == s.update(i, m),
    decreases i,
{
    if i == 0 {
        assert(upsert_meta(s, m) =~= s.update(0, m));
    } else {
        lemma_upsert_meta_at(s.skip(1), m, i - 1);
        assert(seq![s[0]] + s.skip(1).update(i - 1, m) =~= s.update(i, m));
    }
}

proof fn lemma_upsert_meta_absent(s: Seq<ArchiveMetadata>, m: ArchiveMetadata)
    requires
        forall|k: int| 0 <= k < s.len() ==> (#[trigger] s[k]).name@ != m.name@,
    ensures
        upsert_meta(s, m) == s.push(m),
    decreases s.len(),
{
    if s.len() == 0 {
        assert(upsert_meta(s, m) =~= s.push(m));
    } else {
        lemma_upsert_meta_absent(s.skip(1), m);
        assert(seq![s[0]] + s.skip(1).push(m) =~= s.push(m));
    }
}

proof fn lemma_remove_meta_at(s: Seq<ArchiveMetadata>, name: Seq<char>, i: int)
    requires
        0 <= i < s.len(),
        s[i].name@ == name,
        forall|k: int| 0 <= k < i ==> (#[trigger] s[k]).name@ != name,
    ensures
        remove_meta(s, name) == s.remove(i),
    decreases i,
{
    if i == 0 {
        assert(remove_meta(s, name) =~= s.remove(0));
    } else {
        lemma_remove_meta_at(s.skip(1), name, i - 1);
        assert(seq![s[0]] + s.skip(1).remove(i - 1) =~= s.remove(i));
    }
}

proof fn lemma_remove_meta_absent(s: Seq<ArchiveMetadata>, name: Seq<char>)
    requires
        forall|k: int| 0 <= k < s.len() ==> (#[trigger] s[k]).name@ != name,
    ensures
        remove_meta(s, name) == s,
    decreases s.len(),
{
    if s.len() == 0 {
    } else {
        lemma_remove_meta_absent(s.skip(1), name);
        assert(seq![s[0]] + s.skip(1) =~= s);
    }
}

} // verus!
