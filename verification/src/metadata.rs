//! The metadata store: one lifecycle record per secret, in a document that
//! maps each secret name to its record.
//!
//! The document is held as a sequence of records with pairwise-distinct
//! names, so the record's `name` field is itself the map key — the two can
//! never diverge. Contracts speak through [`MetadataFile::spec_get`], the
//! name-to-record lookup the sequence denotes.

use vstd::prelude::*;
use crate::SmartLockerError;
use crate::toolbox::str_eq;
use crate::store::{Keyed, unique_keys, has_key, index_of_key, lookup_key, lemma_lookup_at, lemma_update_lookup, lemma_push_lookup, lemma_remove_lookup};

verus! {

/// Number of fields a current [`SecretMetadata`] record carries.
pub const SCHEMA_FIELD_COUNT: usize = 5;

/// Revision of the metadata document layout; a document with any other
/// revision is outdated and needs reconciliation before use.
pub const METADATA_SCHEMA_VERSION: u64 = 1;

/// The lifecycle record of one secret.
pub struct SecretMetadata {
    /// Unique key; equals the stem of the secret's envelope file.
    pub name: String,
    /// Creation time, in seconds since the epoch.
    pub created_at: u64,
    /// Expiration time, in seconds since the epoch.
    pub expire_at: u64,
    /// Sticky expiration mark: set when expiration is observed, cleared only
    /// by an explicit renewal.
    pub expired: bool,
    /// Free-form labels, in the order given at creation.
    pub tags: Vec<String>,
}

/// The mathematical image of a [`SecretMetadata`] record.
pub ghost struct SecretRecord {
    pub name: Seq<char>,
    pub created_at: u64,
    pub expire_at: u64,
    pub expired: bool,
    pub tags: Seq<Seq<char>>,
}

impl View for SecretMetadata {
    type V = SecretRecord;

    open spec fn view(&self) -> SecretRecord {
        SecretRecord {
            name: self.name@,
            created_at: self.created_at,
            expire_at: self.expire_at,
            expired: self.expired,
            tags: self.tags.deep_view(),
        }
    }
}

impl DeepView for SecretMetadata {
    type V = SecretRecord;

    open spec fn deep_view(&self) -> SecretRecord {
        self.view()
    }
}

impl Clone for SecretMetadata {
    /// A clone denotes the same record.
    fn clone(&self) -> (r: Self)
        ensures
            r@ == self@,
    {
        let r = SecretMetadata {
            name: self.name.clone(),
            created_at: self.created_at,
            expire_at: self.expire_at,
            expired: self.expired,
            tags: self.tags.clone(),
        };
        proof {
            broadcast use vstd::std_specs::vec::vec_clone_deep_view_proof;

            assert(r.tags.deep_view() == self.tags.deep_view());
        }
        r
    }
}

impl SecretMetadata {
    /// How many fields the record schema has. The count is fixed by this
    /// crate's schema revision, whatever instance is at hand.
    pub fn field_count(instance: Option<&Self>) -> (n: usize)
        ensures
            n == SCHEMA_FIELD_COUNT,
    {
        let _ = instance;
        SCHEMA_FIELD_COUNT
    }
}

/// How many fields the given record carries under the current schema.
pub fn metadata_field_count(secret_metadata: &SecretMetadata) -> (n: usize)
    ensures
        n == SCHEMA_FIELD_COUNT,
{
    SecretMetadata::field_count(Some(secret_metadata))
}

impl Keyed for SecretRecord {
    open spec fn key(&self) -> Seq<char> {
        self.name
    }
}

/// The same record with the sticky expiration mark set.
pub open spec fn with_expired_mark(m: SecretRecord) -> SecretRecord {
    SecretRecord { expired: true, ..m }
}

/// The same record renewed: expiring at `at`, the expiration mark cleared.
pub open spec fn with_expiration(m: SecretRecord, at: u64) -> SecretRecord {
    SecretRecord { expire_at: at, expired: false, ..m }
}

/// The metadata document: every secret's record, names pairwise distinct,
/// stamped with the schema revision it was written under.
pub struct MetadataFile {
    /// Layout revision of the document.
    pub schema_version: u64,
    /// One record per secret.
    pub secrets: Vec<SecretMetadata>,
}

impl MetadataFile {
    /// The records the document holds, as mathematical values.
    pub open spec fn entries(&self) -> Seq<SecretRecord> {
        self.secrets.deep_view()
    }

    /// Well-formed: no two records share a name.
    pub open spec fn wf(&self) -> bool {
        unique_keys(self.entries())
    }

    /// The document was written under the schema this crate reads.
    pub open spec fn is_current_schema(&self) -> bool {
        self.schema_version == METADATA_SCHEMA_VERSION
    }

    /// Whether some record carries this name.
    pub open spec fn spec_has(&self, name: Seq<char>) -> bool {
        has_key(self.entries(), name)
    }

    /// The record this name maps to, if any.
    pub open spec fn spec_get(&self, name: Seq<char>) -> Option<SecretRecord> {
        lookup_key(self.entries(), name)
    }

    /// An empty document under the current schema — what a vault without a
    /// metadata file denotes.
    pub fn new() -> (m: Self)
        ensures
            m.wf(),
            m.is_current_schema(),
            m.entries() =~= Seq::<SecretRecord>::empty(),
    {
        MetadataFile { schema_version: METADATA_SCHEMA_VERSION, secrets: Vec::new() }
    }

    /// Where the record with this name sits, if anywhere.
    pub fn find_index(&self, name: &str) -> (r: Option<usize>)
        requires
            self.wf(),
        ensures
            r matches Some(i) ==> i < self.entries().len() && self.entries()[i as int].name
                == name@ && index_of_key(self.entries(), name@) == i && self.spec_get(name@)
                == Some(self.entries()[i as int]),
            r is None ==> !self.spec_has(name@),
    {
        let mut i: usize = 0;
        while i < self.secrets.len()
            invariant
                self.wf(),
                i <= self.entries().len(),
                forall|k: int| 0 <= k < i ==> #[trigger] self.entries()[k].name != name@,
            decreases self.entries().len() - i,
        {
            if str_eq(self.secrets[i].name.as_str(), name) {
                proof {
                    lemma_lookup_at(self.entries(), i as int);
                }
                return Some(i);
            }
            i += 1;
        }
        None
    }

    /// A borrow of the record this name maps to, if any.
    pub fn get(&self, name: &str) -> (r: Option<&SecretMetadata>)
        requires
            self.wf(),
        ensures
            r matches Some(m) ==> self.spec_get(name@) == Some(m@),
            r is None ==> self.spec_get(name@) is None,
    {
        match self.find_index(name) {
            Some(i) => Some(&self.secrets[i]),
            None => None,
        }
    }

    /// Binds the record's name to the record: replaces the record of the
    /// same name if one exists, appends otherwise. Every other name's
    /// binding is untouched.
    pub fn insert(&mut self, entry: SecretMetadata)
        requires
            old(self).wf(),
        ensures
            final(self).wf(),
            final(self).schema_version == old(self).schema_version,
            final(self).spec_get(entry@.name) == Some(entry@),
            forall|n: Seq<char>| n != entry@.name ==> final(self).spec_get(n) == old(self).spec_get(
                n,
            ),
            old(self).spec_has(entry@.name) ==> final(self).entries() == old(self).entries().update(
                index_of_key(old(self).entries(), entry@.name),
                entry@,
            ),
            !old(self).spec_has(entry@.name) ==> final(self).entries() == old(self).entries().push(
                entry@,
            ),
    {
        let ghost s0 = self.entries();
        match self.find_index(entry.name.as_str()) {
            Some(i) => {
                proof {
                    lemma_update_lookup(s0, i as int, entry@);
                }
                self.secrets.set(i, entry);
                proof {
                    assert(self.entries() =~= s0.update(i as int, entry@));
                }
            },
            None => {
                proof {
                    lemma_push_lookup(s0, entry@);
                }
                self.secrets.push(entry);
                proof {
                    assert(self.entries() =~= s0.push(entry@));
                }
            },
        }
    }

    /// Unbinds this name: removes its record, leaving every other binding
    /// untouched. Fails, and changes nothing, if the name is unbound.
    pub fn remove_entry(&mut self, name: &str) -> (r: Result<SecretMetadata, ()>)
        requires
            old(self).wf(),
        ensures
            final(self).wf(),
            final(self).schema_version == old(self).schema_version,
            r matches Ok(m) ==> old(self).spec_get(name@) == Some(m@) && final(self).spec_get(
                name@,
            ) is None && final(self).entries() == old(self).entries().remove(
                index_of_key(old(self).entries(), name@),
            ) && (forall|n: Seq<char>| n != name@ ==> final(self).spec_get(n) == old(
                self,
            ).spec_get(n)),
            r is Err ==> !old(self).spec_has(name@) && *final(self) == *old(self),
    {
        let ghost s0 = self.entries();
        match self.find_index(name) {
            Some(i) => {
                proof {
                    lemma_remove_lookup(s0, i as int);
                }
                let m = self.secrets.remove(i);
                proof {
                    assert(self.entries() =~= s0.remove(i as int));
                }
                Ok(m)
            },
            None => Err(()),
        }
    }

    /// Unbinds every name: the bulk wipe.
    pub fn clear(&mut self)
        ensures
            final(self).wf(),
            final(self).schema_version == old(self).schema_version,
            final(self).entries() =~= Seq::<SecretRecord>::empty(),
            forall|n: Seq<char>| !final(self).spec_has(n),
    {
        self.secrets.clear();
    }

    /// The names the document binds, in document order.
    pub fn names(&self) -> (r: Vec<String>)
        ensures
            r.deep_view() =~= Seq::new(self.entries().len(), |i: int| self.entries()[i].name),
    {
        let mut r: Vec<String> = Vec::new();
        let mut i: usize = 0;
        while i < self.secrets.len()
            invariant
                i <= self.entries().len(),
                r@.len() == i,
                forall|k: int| 0 <= k < i ==> #[trigger] r@[k]@ == self.entries()[k].name,
            decreases self.entries().len() - i,
        {
            r.push(self.secrets[i].name.clone());
            i += 1;
        }
        proof {
            assert(r.deep_view() =~= Seq::new(self.entries().len(), |k: int| self.entries()[k].name));
        }
        r
    }
}

/// Removes one record, or every record.
///
/// With a name: unbinds exactly that name, failing (and changing nothing) if
/// it is unbound. With none: clears the whole document — the same
/// bulk-or-single duality the secret-removal operation has.
pub fn remove_metadata(secret_name: Option<&str>, metadata: &mut MetadataFile) -> (r: Result<
    (),
    SmartLockerError,
>)
    requires
        old(metadata).wf(),
    ensures
        final(metadata).wf(),
        final(metadata).schema_version == old(metadata).schema_version,
        secret_name matches Some(name) ==> {
            &&& old(metadata).spec_has(name@) ==> {
                &&& r is Ok
                &&& final(metadata).spec_get(name@) is None
                &&& forall|n: Seq<char>| n != name@ ==> final(metadata).spec_get(n) == old(
                    metadata,
                ).spec_get(n)
            }
            &&& !old(metadata).spec_has(name@) ==> {
                &&& r matches Err(e) && e is FileSystemError
                &&& *final(metadata) == *old(metadata)
            }
        },
        secret_name is None ==> r is Ok && final(metadata).entries()
            == Seq::<SecretRecord>::empty(),
{
    match secret_name {
        Some(name) => {
            match metadata.remove_entry(name) {
                Ok(_) => Ok(()),
                Err(_) => Err(
                    SmartLockerError::FileSystemError("metadata entry not found".to_owned()),
                ),
            }
        },
        None => {
            metadata.clear();
            proof {
                assert(metadata.entries() =~= Seq::<SecretRecord>::empty());
            }
            Ok(())
        },
    }
}

/// Applies a caller-supplied change to the record bound to this name and
/// rebinds the name to the result; the change must keep the record's name.
/// Fails, and changes nothing, if the name is unbound.
pub fn update_secret_metadata<F: FnOnce(SecretMetadata) -> SecretMetadata>(
    secret_name: &str,
    metadata: &mut MetadataFile,
    update_fn: F,
) -> (r: Result<(), SmartLockerError>)
    requires
        old(metadata).wf(),
        forall|m: SecretMetadata| call_requires(update_fn, (m,)),
        forall|m: SecretMetadata, n: SecretMetadata|
            call_ensures(update_fn, (m,), n) ==> n@.name == m@.name,
    ensures
        final(metadata).wf(),
        final(metadata).schema_version == old(metadata).schema_version,
        !old(metadata).spec_has(secret_name@) ==> (r matches Err(e) && e is FileSystemError)
            && *final(metadata) == *old(metadata),
        old(metadata).spec_has(secret_name@) ==> r is Ok && (exists|
            prev: SecretMetadata,
            next: SecretMetadata,
        |
            {
                &&& old(metadata).spec_get(secret_name@) == Some(prev@)
                &&& #[trigger] call_ensures(update_fn, (prev,), next)
                &&& final(metadata).spec_get(secret_name@) == Some(next@)
                &&& forall|n: Seq<char>| n != secret_name@ ==> final(metadata).spec_get(n) == old(
                    metadata,
                ).spec_get(n)
            }),
{
    let ghost s0 = metadata.entries();
    match metadata.find_index(secret_name) {
        Some(i) => {
            let prev = metadata.secrets.remove(i);
            let ghost prev_g = prev;
            let next = update_fn(prev);
            let ghost next_g = next;
            proof {
                assert(call_ensures(update_fn, (prev_g,), next_g));
                assert(prev_g@ == s0[i as int]);
                assert(next_g@.name == s0[i as int].name);
                assert(metadata.entries() =~= s0.remove(i as int));
            }
            metadata.secrets.insert(i, next);
            proof {
                assert(metadata.entries() =~= s0.remove(i as int).insert(i as int, next_g@));
                assert(s0.remove(i as int).insert(i as int, next_g@) =~= s0.update(
                    i as int,
                    next_g@,
                ));
                lemma_update_lookup(s0, i as int, next_g@);
                lemma_lookup_at(s0, i as int);
            }
            Ok(())
        },
        None => Err(SmartLockerError::FileSystemError("metadata entry not found".to_owned())),
    }
}

/// Marks the record bound to this name as expired, leaving everything else
/// of it unchanged. Idempotent; fails if the name is unbound.
pub fn mark_secret_as_expired(secret_name: &str, metadata: &mut MetadataFile) -> (r: Result<
    (),
    SmartLockerError,
>)
    requires
        old(metadata).wf(),
    ensures
        final(metadata).wf(),
        final(metadata).schema_version == old(metadata).schema_version,
        !old(metadata).spec_has(secret_name@) ==> (r matches Err(e) && e is FileSystemError)
            && *final(metadata) == *old(metadata),
        old(metadata).spec_has(secret_name@) ==> r is Ok && final(metadata).spec_get(secret_name@)
            == Some(with_expired_mark(old(metadata).spec_get(secret_name@)->Some_0)) && (forall|
            n: Seq<char>,
        | n != secret_name@ ==> final(metadata).spec_get(n) == old(metadata).spec_get(n)),
{
    let set_mark = |m: SecretMetadata| -> (n: SecretMetadata)
        ensures
            n@ == with_expired_mark(m@),
        {
            SecretMetadata {
                name: m.name,
                created_at: m.created_at,
                expire_at: m.expire_at,
                expired: true,
                tags: m.tags,
            }
        };
    update_secret_metadata(secret_name, metadata, set_mark)
}

/// Whether the record counts as expired at the given time: past its
/// expiration instant, or already carrying the sticky mark. The one
/// expiration test every operation shares.
pub fn is_secret_expired(secret_metadata: &SecretMetadata, now: u64) -> (r: bool)
    ensures
        r == spec_is_expired(secret_metadata@, now),
{
    now > secret_metadata.expire_at || secret_metadata.expired
}

/// Expired at `now`: strictly past `expire_at`, or marked expired.
pub open spec fn spec_is_expired(m: SecretRecord, now: u64) -> bool {
    now > m.expire_at || m.expired
}

/// Rebinds this name's record to one expiring at the given instant, with the
/// sticky expiration mark cleared — the renewal write. Fails if the name is
/// unbound.
pub fn update_secret_expiration(
    secret_name: &str,
    metadata: &mut MetadataFile,
    new_expiration: u64,
) -> (r: Result<(), SmartLockerError>)
    requires
        old(metadata).wf(),
    ensures
        final(metadata).wf(),
        final(metadata).schema_version == old(metadata).schema_version,
        !old(metadata).spec_has(secret_name@) ==> (r matches Err(e) && e is FileSystemError)
            && *final(metadata) == *old(metadata),
        old(metadata).spec_has(secret_name@) ==> r is Ok && final(metadata).spec_get(secret_name@)
            == Some(with_expiration(old(metadata).spec_get(secret_name@)->Some_0, new_expiration))
            && (forall|n: Seq<char>| n != secret_name@ ==> final(metadata).spec_get(n) == old(
            metadata,
        ).spec_get(n)),
{
    let renew = |m: SecretMetadata| -> (n: SecretMetadata)
        ensures
            n@ == with_expiration(m@, new_expiration),
        {
            SecretMetadata {
                name: m.name,
                created_at: m.created_at,
                expire_at: new_expiration,
                expired: false,
                tags: m.tags,
            }
        };
    update_secret_metadata(secret_name, metadata, renew)
}

/// Whether this name is bound to a record written under the current schema:
/// the test an operation runs before trusting a record, and the signal that
/// reconciliation is needed when it fails.
pub fn has_this_secret_metadata(secret_name: &str, metadata: &MetadataFile) -> (r: bool)
    requires
        metadata.wf(),
    ensures
        r == (metadata.spec_has(secret_name@) && metadata.is_current_schema()),
{
    metadata.schema_version == METADATA_SCHEMA_VERSION && match metadata.find_index(secret_name) {
        Some(_) => true,
        None => false,
    }
}

} // verus!
