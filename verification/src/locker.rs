//! The lifecycle manager: creation, opening, renewal, removal, and
//! reconciliation of secrets, over an in-memory image of the vault
//! directory.
//!
//! A [`Locker`] holds what the vault directory holds: one envelope file per
//! secret and the metadata document. Callers load the directory into a
//! `Locker`, run operations on it, and persist the result; every operation
//! states exactly how it moves both stores.

use vstd::prelude::*;
use crate::SmartLockerError;
use crate::LockerResult;
use vstd::utf8::encode_utf8;
use crate::codec::{
    AeadKey,
    EncryptionConfig,
    decode,
    decode_err_message,
    decode_ok,
    encode,
    gzip_of,
    is_envelope_for,
    spec_plaintext,
};
use crate::metadata::{
    MetadataFile,
    SecretMetadata,
    SecretRecord,
    METADATA_SCHEMA_VERSION,
    has_this_secret_metadata,
    is_secret_expired,
    mark_secret_as_expired,
    spec_is_expired,
    update_secret_expiration,
    with_expiration,
    with_expired_mark,
};
use crate::store::{
    Keyed,
    has_key,
    index_of_key,
    lemma_lookup_at,
    lemma_push_lookup,
    lemma_remove_lookup,
    lemma_update_lookup,
    lookup_key,
    unique_keys,
};
use crate::toolbox::str_eq;

verus! {

/// Time a secret lives when no span is given: fifteen days, in seconds.
pub const DEFAULT_TTL_SECONDS: u64 = 15 * 86400;

/// One envelope file of the vault directory: the secret's name (the file
/// stem) and the encrypted bytes the file holds.
pub struct EnvelopeFile {
    /// The secret's name; the file itself is `<name>.slock`.
    pub name: String,
    /// The envelope bytes: signature, version, nonce, ciphertext.
    pub data: Vec<u8>,
}

/// The mathematical image of an [`EnvelopeFile`].
pub ghost struct EnvelopeRecord {
    pub name: Seq<char>,
    pub data: Seq<u8>,
}

impl View for EnvelopeFile {
    type V = EnvelopeRecord;

    open spec fn view(&self) -> EnvelopeRecord {
        EnvelopeRecord { name: self.name@, data: self.data@ }
    }
}

impl DeepView for EnvelopeFile {
    type V = EnvelopeRecord;

    open spec fn deep_view(&self) -> EnvelopeRecord {
        self.view()
    }
}

impl Keyed for EnvelopeRecord {
    open spec fn key(&self) -> Seq<char> {
        self.name
    }
}

/// The in-memory image of one vault directory: its envelope files and its
/// metadata document.
pub struct Locker {
    /// One entry per `.slock` file on disk.
    pub envelopes: Vec<EnvelopeFile>,
    /// The metadata document.
    pub metadata: MetadataFile,
}

impl Locker {
    /// The envelope files, as mathematical values.
    pub open spec fn envs(&self) -> Seq<EnvelopeRecord> {
        self.envelopes.deep_view()
    }

    /// Well-formed: each store keyed by pairwise-distinct names.
    pub open spec fn wf(&self) -> bool {
        &&& unique_keys(self.envs())
        &&& self.metadata.wf()
    }

    /// The envelope bytes stored under this name, if any.
    pub open spec fn spec_env(&self, name: Seq<char>) -> Option<Seq<u8>> {
        match lookup_key(self.envs(), name) {
            Some(e) => Some(e.data),
            None => None,
        }
    }

    /// The metadata record bound to this name, if any.
    pub open spec fn spec_meta(&self, name: Seq<char>) -> Option<SecretRecord> {
        self.metadata.spec_get(name)
    }

    /// An empty vault: no envelopes, an empty current-schema document.
    pub fn new() -> (l: Self)
        ensures
            l.wf(),
            l.envs() =~= Seq::<EnvelopeRecord>::empty(),
            l.metadata.is_current_schema(),
            l.metadata.entries() =~= Seq::<SecretRecord>::empty(),
    {
        Locker { envelopes: Vec::new(), metadata: MetadataFile::new() }
    }

    /// Where the envelope with this name sits, if anywhere.
    fn find_env(&self, name: &str) -> (r: Option<usize>)
        requires
            self.wf(),
        ensures
            r matches Some(i) ==> i < self.envs().len() && self.envs()[i as int].name == name@
                && index_of_key(self.envs(), name@) == i && self.spec_env(name@) == Some(
                self.envs()[i as int].data,
            ),
            r is None ==> self.spec_env(name@) is None,
    {
        let mut i: usize = 0;
        while i < self.envelopes.len()
            invariant
                self.wf(),
                i <= self.envs().len(),
                forall|k: int| 0 <= k < i ==> #[trigger] self.envs()[k].name != name@,
            decreases self.envs().len() - i,
        {
            if str_eq(self.envelopes[i].name.as_str(), name) {
                proof {
                    lemma_lookup_at(self.envs(), i as int);
                }
                return Some(i);
            }
            i += 1;
        }
        None
    }

    /// Binds this envelope's name to its bytes: replaces the envelope of the
    /// same name if one exists, appends otherwise. Every other name's
    /// envelope is untouched; the metadata document is untouched.
    fn put_env(&mut self, entry: EnvelopeFile)
        requires
            old(self).wf(),
        ensures
            final(self).wf(),
            final(self).metadata == old(self).metadata,
            final(self).spec_env(entry@.name) == Some(entry@.data),
            forall|n: Seq<char>| n != entry@.name ==> final(self).spec_env(n) == old(
                self,
            ).spec_env(n),
    {
        let ghost s0 = self.envs();
        match self.find_env(entry.name.as_str()) {
            Some(i) => {
                proof {
                    lemma_update_lookup(s0, i as int, entry@);
                }
                self.envelopes.set(i, entry);
                proof {
                    assert(self.envs() =~= s0.update(i as int, entry@));
                }
            },
            None => {
                proof {
                    lemma_push_lookup(s0, entry@);
                }
                self.envelopes.push(entry);
                proof {
                    assert(self.envs() =~= s0.push(entry@));
                }
            },
        }
    }

    /// Unbinds this name's envelope if one exists; reports whether one did.
    /// Every other name's envelope is untouched; the metadata document is
    /// untouched.
    fn remove_env(&mut self, name: &str) -> (r: bool)
        requires
            old(self).wf(),
        ensures
            final(self).wf(),
            final(self).metadata == old(self).metadata,
            r == (old(self).spec_env(name@) is Some),
            final(self).spec_env(name@) is None,
            forall|n: Seq<char>| n != name@ ==> final(self).spec_env(n) == old(self).spec_env(n),
    {
        let ghost s0 = self.envs();
        match self.find_env(name) {
            Some(i) => {
                proof {
                    lemma_remove_lookup(s0, i as int);
                }
                self.envelopes.remove(i);
                proof {
                    assert(self.envs() =~= s0.remove(i as int));
                }
                true
            },
            None => false,
        }
    }

    /// The names of the stored envelopes, in store order.
    pub fn envelope_names(&self) -> (r: Vec<String>)
        ensures
            r.deep_view() =~= Seq::new(self.envs().len(), |i: int| self.envs()[i].name),
    {
        let mut r: Vec<String> = Vec::new();
        let mut i: usize = 0;
        while i < self.envelopes.len()
            invariant
                i <= self.envs().len(),
                r@.len() == i,
                forall|k: int| 0 <= k < i ==> #[trigger] r@[k]@ == self.envs()[k].name,
            decreases self.envs().len() - i,
        {
            r.push(self.envelopes[i].name.clone());
            i += 1;
        }
        proof {
            assert(r.deep_view() =~= Seq::new(self.envs().len(), |i: int| self.envs()[i].name));
        }
        r
    }
}

/// Seconds a secret created with this span lives: the given days, or the
/// fifteen-day default.
pub open spec fn ttl_seconds(expiration_days: Option<u64>) -> int {
    (match expiration_days {
        Some(d) => d,
        None => 15,
    }) * 86400
}

/// The record [`encrypt`] writes for a secret created now.
pub open spec fn created_record(
    name: Seq<char>,
    tags: Seq<Seq<char>>,
    now: u64,
    expire_at: u64,
) -> SecretRecord {
    SecretRecord { name, created_at: now, expire_at, expired: false, tags }
}

/// The record [`migrate_metadata`] synthesizes for an unmanaged envelope:
/// created now (the original creation time is unrecoverable — a deliberate,
/// lossy approximation), expiring after the default span, no tags.
pub open spec fn fresh_record(name: Seq<char>, now: u64) -> SecretRecord {
    SecretRecord {
        name,
        created_at: now,
        expire_at: (now + DEFAULT_TTL_SECONDS) as u64,
        expired: false,
        tags: Seq::empty(),
    }
}

/// Creates (or silently replaces) one secret: seals the plaintext into an
/// envelope under the given key and a fresh nonce, stores it under `name`,
/// and binds `name` to a record created now, expiring after the given span
/// (default fifteen days), unexpired, carrying the given tags.
///
/// Replacing an existing secret of the same name replaces both its envelope
/// and its record; every other secret is untouched. Since the write leaves
/// the whole document in today's layout, it also stamps the document with
/// the current schema revision. Success is owed whenever the compressed
/// plaintext fits the AEAD bound — which every realistic secret does; past
/// it, nothing is changed and an `EncryptionError` is returned.
pub fn encrypt(
    secret: &str,
    name: &str,
    tags: Vec<String>,
    expiration_days: Option<u64>,
    locker: &mut Locker,
    key: &AeadKey,
    config: &EncryptionConfig,
    now: u64,
) -> (r: LockerResult<()>)
    requires
        old(locker).wf(),
        key.wf(),
        config.wf(),
        now + ttl_seconds(expiration_days) <= u64::MAX,
    ensures
        final(locker).wf(),
        gzip_of(encode_utf8(secret@), config.compression_level).len() <= 0xF_FFFF_FFDF
            ==> r is Ok,
        r is Ok ==> {
            &&& final(locker).metadata.is_current_schema()
            &&& final(locker).spec_env(name@) matches Some(env) && is_envelope_for(
                env,
                key@,
                secret@,
            )
            &&& final(locker).spec_meta(name@) == Some(
                created_record(
                    name@,
                    tags.deep_view(),
                    now,
                    (now + ttl_seconds(expiration_days)) as u64,
                ),
            )
            &&& forall|n: Seq<char>| n != name@ ==> final(locker).spec_env(n) == old(
                locker,
            ).spec_env(n)
            &&& forall|n: Seq<char>| n != name@ ==> final(locker).spec_meta(n) == old(
                locker,
            ).spec_meta(n)
        },
        r matches Err(e) ==> e is EncryptionError && *final(locker) == *old(locker),
{
    let env_data = match encode(secret, key, config) {
        Ok(d) => d,
        Err(e) => {
            return Err(e);
        },
    };
    let days = match expiration_days {
        Some(d) => d,
        None => 15,
    };
    let expire_at = now + days * 86400;
    locker.put_env(EnvelopeFile { name: name.to_owned(), data: env_data });
    locker.metadata.insert(
        SecretMetadata {
            name: name.to_owned(),
            created_at: now,
            expire_at,
            expired: false,
            tags,
        },
    );
    locker.metadata.schema_version = METADATA_SCHEMA_VERSION;
    Ok(())
}

/// Opens one secret: checks that its envelope exists, that its metadata
/// record exists under the current schema, and that it has not expired —
/// in that order, decoding only after every check passes.
///
/// - No envelope: a `FileSystemError`; nothing changes.
/// - Envelope but no current record: the secret is unmanaged — the caller
///   must opt into [`migrate_metadata`] and retry; a `DecryptionError`
///   reading `metadata missing`; nothing changes.
/// - Expired (past `expire_at`, or already marked): the sticky mark is
///   written back (idempotently) and a `DecryptionError` reading
///   `secret expired` is returned, without decoding.
/// - Otherwise the envelope is decoded under the key ([`decode`] pins every
///   outcome); the stores are unchanged.
pub fn decrypt(name: &str, locker: &mut Locker, key: &AeadKey, now: u64) -> (r: LockerResult<
    String,
>)
    requires
        old(locker).wf(),
        key.wf(),
    ensures
        final(locker).wf(),
        final(locker).envs() == old(locker).envs(),
        final(locker).metadata.schema_version == old(locker).metadata.schema_version,
        old(locker).spec_env(name@) is None ==> ((r matches Err(e) && e is FileSystemError)
            && final(locker).metadata == old(locker).metadata),
        old(locker).spec_env(name@) is Some && !(old(locker).spec_meta(name@) is Some && old(
            locker,
        ).metadata.is_current_schema()) ==> ((r matches Err(e) && e is DecryptionError
            && e.spec_message() == "metadata missing"@) && final(locker).metadata == old(
            locker,
        ).metadata),
        old(locker).spec_env(name@) is Some && old(locker).spec_meta(name@) is Some && old(
            locker,
        ).metadata.is_current_schema() && spec_is_expired(old(locker).spec_meta(name@)->Some_0, now)
            ==> ((r matches Err(e) && e is DecryptionError && e.spec_message()
            == "secret expired"@) && final(locker).spec_meta(name@) == Some(
            with_expired_mark(old(locker).spec_meta(name@)->Some_0),
        ) && (forall|n: Seq<char>| n != name@ ==> final(locker).spec_meta(n) == old(
            locker,
        ).spec_meta(n))),
        old(locker).spec_env(name@) is Some && old(locker).spec_meta(name@) is Some && old(
            locker,
        ).metadata.is_current_schema() && !spec_is_expired(
            old(locker).spec_meta(name@)->Some_0,
            now,
        ) ==> (final(locker).metadata == old(locker).metadata && (decode_ok(
            old(locker).spec_env(name@)->Some_0,
            key@,
        ) ==> (r matches Ok(p) && Some(p@) == spec_plaintext(
            old(locker).spec_env(name@)->Some_0,
            key@,
        ))) && (!decode_ok(old(locker).spec_env(name@)->Some_0, key@) ==> (r matches Err(e)
            && e is DecryptionError && e.spec_message() == decode_err_message(
            old(locker).spec_env(name@)->Some_0,
            key@,
        )))),
{
    let env_idx = match locker.find_env(name) {
        Some(i) => i,
        None => {
            return Err(SmartLockerError::FileSystemError("envelope file not found".to_owned()));
        },
    };
    if !has_this_secret_metadata(name, &locker.metadata) {
        return Err(SmartLockerError::DecryptionError("metadata missing".to_owned()));
    }
    let meta_idx = match locker.metadata.find_index(name) {
        Some(i) => i,
        None => {
            proof {
                assert(false);
            }
            return Err(SmartLockerError::DecryptionError("metadata missing".to_owned()));
        },
    };
    let expired = is_secret_expired(&locker.metadata.secrets[meta_idx], now);
    if expired {
        let marked = mark_secret_as_expired(name, &mut locker.metadata);
        proof {
            assert(marked is Ok);
        }
        return Err(SmartLockerError::DecryptionError("secret expired".to_owned()));
    }
    decode(&locker.envelopes[env_idx].data, key)
}

/// Renews one secret: rebinds its record to expire the given number of days
/// from now, clearing the sticky expiration mark, whatever state it was in —
/// renewing an unexpired secret simply extends it. Fails with a
/// `DecryptionError` reading `metadata missing`, changing nothing, if the
/// name has no record.
pub fn renew_secret(
    name: &str,
    additional_days: u64,
    locker: &mut Locker,
    now: u64,
) -> (r: LockerResult<()>)
    requires
        old(locker).wf(),
        now + additional_days * 86400 <= u64::MAX,
    ensures
        final(locker).wf(),
        final(locker).envs() == old(locker).envs(),
        final(locker).metadata.schema_version == old(locker).metadata.schema_version,
        old(locker).spec_meta(name@) is None ==> ((r matches Err(e) && e is DecryptionError
            && e.spec_message() == "metadata missing"@) && final(locker).metadata == old(
            locker,
        ).metadata),
        old(locker).spec_meta(name@) is Some ==> (r is Ok && final(locker).spec_meta(name@)
            == Some(
            with_expiration(
                old(locker).spec_meta(name@)->Some_0,
                (now + additional_days * 86400) as u64,
            ),
        ) && (forall|n: Seq<char>| n != name@ ==> final(locker).spec_meta(n) == old(
            locker,
        ).spec_meta(n))),
{
    let new_expiration = now + additional_days * 86400;
    match update_secret_expiration(name, &mut locker.metadata, new_expiration) {
        Ok(()) => Ok(()),
        Err(_) => Err(SmartLockerError::DecryptionError("metadata missing".to_owned())),
    }
}

/// Removes one secret, or every secret.
///
/// With `remove_all`: deletes the envelope of every name the metadata
/// document references (missing envelope files are skipped, not fatal),
/// leaves unreferenced envelopes alone, and clears the document.
///
/// With a name: unbinds its envelope (a no-op if absent), then removes its
/// record — failing with a `FileSystemError`, the envelope already gone, if
/// no record exists. With neither, nothing changes: choosing is the caller's
/// business.
pub fn remove_secret(name: Option<&str>, remove_all: bool, locker: &mut Locker) -> (r:
    LockerResult<()>)
    requires
        old(locker).wf(),
    ensures
        final(locker).wf(),
        final(locker).metadata.schema_version == old(locker).metadata.schema_version,
        remove_all ==> {
            &&& r is Ok
            &&& final(locker).metadata.entries() == Seq::<SecretRecord>::empty()
            &&& forall|n: Seq<char>|
                old(locker).spec_meta(n) is Some ==> final(locker).spec_env(n) is None
            &&& forall|n: Seq<char>|
                old(locker).spec_meta(n) is None ==> final(locker).spec_env(n) == old(
                    locker,
                ).spec_env(n)
        },
        !remove_all ==> (match name {
            Some(nm) => {
                &&& final(locker).spec_env(nm@) is None
                &&& forall|n: Seq<char>|
                    n != nm@ ==> final(locker).spec_env(n) == old(locker).spec_env(n)
                &&& old(locker).spec_meta(nm@) is Some ==> {
                    &&& r is Ok
                    &&& final(locker).spec_meta(nm@) is None
                    &&& forall|n: Seq<char>|
                        n != nm@ ==> final(locker).spec_meta(n) == old(locker).spec_meta(n)
                }
                &&& old(locker).spec_meta(nm@) is None ==> ((r matches Err(e)
                    && e is FileSystemError) && final(locker).metadata == old(locker).metadata)
            },
            None => r is Ok && *final(locker) == *old(locker),
        }),
{
    if remove_all {
        let names = locker.metadata.names();
        let ghost metas0 = locker.metadata.entries();
        let mut i: usize = 0;
        while i < names.len()
            invariant
                locker.wf(),
                locker.metadata == old(locker).metadata,
                names.deep_view() =~= Seq::new(metas0.len(), |k: int| metas0[k].name),
                metas0 == old(locker).metadata.entries(),
                i <= names@.len(),
                forall|k: int|
                    0 <= k < i ==> locker.spec_env(#[trigger] names.deep_view()[k]) is None,
                forall|n: Seq<char>|
                    !(exists|k: int| 0 <= k < i && #[trigger] names.deep_view()[k] == n)
                        ==> locker.spec_env(n) == old(locker).spec_env(n),
            decreases names@.len() - i,
        {
            let nm = &names[i];
            locker.remove_env(nm.as_str());
            proof {
                assert(names.deep_view()[i as int] == nm@);
                assert forall|n: Seq<char>|
                    !(exists|k: int|
                        0 <= k < i + 1 && #[trigger] names.deep_view()[k] == n) implies
                    locker.spec_env(n) == old(locker).spec_env(n) by {
                    assert(names.deep_view()[i as int] != n);
                    assert(!(exists|k: int| 0 <= k < i && #[trigger] names.deep_view()[k] == n));
                }
            }
            i += 1;
        }
        locker.metadata.clear();
        proof {
            assert forall|n: Seq<char>| old(locker).spec_meta(n) is Some implies locker.spec_env(
                n,
            ) is None by {
                let k = index_of_key(metas0, n);
                lemma_lookup_at(metas0, k);
                assert(names.deep_view()[k] == n);
            }
            assert forall|n: Seq<char>| old(locker).spec_meta(n) is None implies locker.spec_env(
                n,
            ) == old(locker).spec_env(n) by {
                if exists|k: int| 0 <= k < names.deep_view().len() && #[trigger] names.deep_view()[k]
                    == n {
                    let k = choose|k: int|
                        0 <= k < names.deep_view().len() && #[trigger] names.deep_view()[k] == n;
                    lemma_lookup_at(metas0, k);
                }
            }
        }
        Ok(())
    } else {
        match name {
            Some(nm) => {
                locker.remove_env(nm);
                match locker.metadata.remove_entry(nm) {
                    Ok(_) => Ok(()),
                    Err(_) => Err(
                        SmartLockerError::FileSystemError("metadata entry not found".to_owned()),
                    ),
                }
            },
            None => Ok(()),
        }
    }
}

/// Reconciliation ("migration"): synthesizes a current-schema metadata
/// record for each envelope whose name has none — for one name, or for every
/// envelope in the store — and stamps the document with the current schema
/// revision. The synthesized record is [`fresh_record`]: created now (the
/// original creation time is unrecoverable), default expiration, no tags.
///
/// Already-managed secrets are never touched, so reconciling twice adds
/// nothing: on a vault whose envelopes all have records and whose document
/// is current, the whole operation changes nothing at all. Reconciling one
/// name whose envelope is missing is a `FileSystemError`.
pub fn migrate_metadata(name: Option<&str>, locker: &mut Locker, now: u64) -> (r: LockerResult<()>)
    requires
        old(locker).wf(),
        now + DEFAULT_TTL_SECONDS <= u64::MAX,
    ensures
        final(locker).wf(),
        final(locker).envs() == old(locker).envs(),
        r is Ok ==> final(locker).metadata.is_current_schema(),
        name matches Some(nm) ==> {
            &&& old(locker).spec_env(nm@) is None ==> ((r matches Err(e) && e is FileSystemError)
                && final(locker).metadata == old(locker).metadata)
            &&& old(locker).spec_env(nm@) is Some ==> {
                &&& r is Ok
                &&& old(locker).spec_meta(nm@) is Some ==> final(locker).metadata.entries() == old(
                    locker,
                ).metadata.entries()
                &&& old(locker).spec_meta(nm@) is Some && old(locker).metadata.is_current_schema()
                    ==> *final(locker) == *old(locker)
                &&& old(locker).spec_meta(nm@) is None ==> (final(locker).spec_meta(nm@) == Some(
                    fresh_record(nm@, now),
                ) && (forall|n: Seq<char>|
                    n != nm@ ==> final(locker).spec_meta(n) == old(locker).spec_meta(n)))
            }
        },
        name is None ==> {
            &&& r is Ok
            &&& forall|n: Seq<char>|
                old(locker).spec_meta(n) is Some ==> final(locker).spec_meta(n) == old(
                    locker,
                ).spec_meta(n)
            &&& forall|n: Seq<char>|
                old(locker).spec_meta(n) is None && has_key(old(locker).envs(), n) ==> final(locker).spec_meta(n) == Some(fresh_record(n, now))
            &&& forall|n: Seq<char>|
                old(locker).spec_meta(n) is None && !has_key(old(locker).envs(), n) ==> final(locker).spec_meta(n) is None
            &&& (old(locker).metadata.is_current_schema() && (forall|n: Seq<char>|
                has_key(old(locker).envs(), n) ==> old(locker).spec_meta(n) is Some)) ==> *final(locker) == *old(locker)
        },
{
    match name {
        Some(nm) => {
            if locker.find_env(nm).is_none() {
                return Err(
                    SmartLockerError::FileSystemError("envelope file not found".to_owned()),
                );
            }
            if locker.metadata.find_index(nm).is_none() {
                let entry = SecretMetadata {
                    name: nm.to_owned(),
                    created_at: now,
                    expire_at: now + DEFAULT_TTL_SECONDS,
                    expired: false,
                    tags: Vec::new(),
                };
                proof {
                    assert(entry.tags.deep_view() =~= Seq::<Seq<char>>::empty());
                    assert(entry@ == fresh_record(nm@, now));
                }
                locker.metadata.insert(entry);
            }
            locker.metadata.schema_version = METADATA_SCHEMA_VERSION;
            Ok(())
        },
        None => {
            let ghost e0 = locker.envs();
            let mut i: usize = 0;
            while i < locker.envelopes.len()
                invariant
                    now + DEFAULT_TTL_SECONDS <= u64::MAX,
                    locker.wf(),
                    locker.envelopes == old(locker).envelopes,
                    locker.envs() == old(locker).envs(),
                    locker.metadata.schema_version == old(locker).metadata.schema_version,
                    i <= locker.envs().len(),
                    forall|n: Seq<char>|
                        old(locker).spec_meta(n) is Some ==> locker.spec_meta(n) == old(
                            locker,
                        ).spec_meta(n),
                    forall|n: Seq<char>|
                        old(locker).spec_meta(n) is None && (exists|k: int|
                            0 <= k < i && #[trigger] locker.envs()[k].name == n) ==> locker.spec_meta(
                            n,
                        ) == Some(fresh_record(n, now)),
                    forall|n: Seq<char>|
                        old(locker).spec_meta(n) is None && !(exists|k: int|
                            0 <= k < i && #[trigger] locker.envs()[k].name == n)
                            ==> locker.spec_meta(n) is None,
                    (forall|k: int|
                        0 <= k < i ==> old(locker).spec_meta(
                            #[trigger] locker.envs()[k].name,
                        ) is Some) ==> locker.metadata == old(locker).metadata,
                decreases locker.envs().len() - i,
            {
                let nm = locker.envelopes[i].name.clone();
                proof {
                    assert(nm@ == locker.envs()[i as int].name);
                }
                if locker.metadata.find_index(nm.as_str()).is_none() {
                    proof {
                        if old(locker).spec_meta(nm@) is Some {
                            assert(locker.spec_meta(nm@) == old(locker).spec_meta(nm@));
                            assert(false);
                        }
                    }
                    let entry = SecretMetadata {
                        name: nm,
                        created_at: now,
                        expire_at: now + DEFAULT_TTL_SECONDS,
                        expired: false,
                        tags: Vec::new(),
                    };
                    proof {
                        assert(entry.tags.deep_view() =~= Seq::<Seq<char>>::empty());
                        assert(entry@ == fresh_record(entry@.name, now));
                    }
                    locker.metadata.insert(entry);
                } else {
                    proof {
                        if old(locker).spec_meta(nm@) is None {
                            if exists|k: int|
                                0 <= k < i && #[trigger] locker.envs()[k].name == nm@ {
                                let k = choose|k: int|
                                    0 <= k < i && #[trigger] locker.envs()[k].name == nm@;
                                assert(locker.envs()[k].key() == locker.envs()[
                                    i as int
                                ].key());
                                assert(false);
                            }
                            assert(locker.spec_meta(nm@) is None);
                            assert(false);
                        }
                    }
                }
                proof {
                    let nmv = locker.envs()[i as int].name;
                    assert forall|n: Seq<char>|
                        old(locker).spec_meta(n) is None && (exists|k: int|
                            0 <= k < i + 1 && #[trigger] locker.envs()[k].name == n) implies locker.spec_meta(
                        n,
                    ) == Some(fresh_record(n, now)) by {
                        let k = choose|k: int|
                            0 <= k < i + 1 && #[trigger] locker.envs()[k].name == n;
                        if k < i {
                            assert(exists|k2: int|
                                0 <= k2 < i && #[trigger] locker.envs()[k2].name == n);
                        }
                    }
                    assert forall|n: Seq<char>|
                        old(locker).spec_meta(n) is None && !(exists|k: int|
                            0 <= k < i + 1 && #[trigger] locker.envs()[k].name == n) implies locker.spec_meta(
                        n,
                    ) is None by {
                        assert(locker.envs()[i as int].name != n);
                        assert(!(exists|k: int|
                            0 <= k < i && #[trigger] locker.envs()[k].name == n));
                    }
                }
                i += 1;
            }
            locker.metadata.schema_version = METADATA_SCHEMA_VERSION;
            proof {
                assert forall|n: Seq<char>|
                    old(locker).spec_meta(n) is None && has_key(old(locker).envs(), n) implies locker.spec_meta(
                    n,
                ) == Some(fresh_record(n, now)) by {
                    let k = index_of_key(old(locker).envs(), n);
                    lemma_lookup_at(old(locker).envs(), k);
                    assert(locker.envs()[k].name == n);
                }
                assert forall|n: Seq<char>|
                    old(locker).spec_meta(n) is None && !has_key(old(locker).envs(), n) implies locker.spec_meta(
                    n,
                ) is None by {
                    if exists|k: int|
                        0 <= k < locker.envs().len() && #[trigger] locker.envs()[k].name == n {
                        let k = choose|k: int|
                            0 <= k < locker.envs().len() && #[trigger] locker.envs()[k].name == n;
                        lemma_lookup_at(old(locker).envs(), k);
                    }
                }
                if old(locker).metadata.is_current_schema() && (forall|n: Seq<char>|
                    has_key(old(locker).envs(), n) ==> old(locker).spec_meta(n) is Some) {
                    assert forall|k: int| 0 <= k < locker.envs().len() implies old(
                        locker,
                    ).spec_meta(#[trigger] locker.envs()[k].name) is Some by {
                        lemma_lookup_at(old(locker).envs(), k);
                        assert(has_key(old(locker).envs(), locker.envs()[k].name));
                    }
                }
            }
            Ok(())
        },
    }
}

/// The names of every metadata record, in document order — what `list`
/// enumerates.
pub fn list_secrets_names(locker: &Locker) -> (r: Vec<String>)
    ensures
        r.deep_view() =~= Seq::new(
            locker.metadata.entries().len(),
            |i: int| locker.metadata.entries()[i].name,
        ),
{
    locker.metadata.names()
}

/// The names of the envelopes that have no current-schema metadata record:
/// the `Unmanaged` secrets, which only an explicit [`migrate_metadata`] may
/// repair. The caller decides whether to reconcile; nothing here does so
/// silently.
pub fn unmanaged_secrets(locker: &Locker) -> (r: Vec<String>)
    requires
        locker.wf(),
    ensures
        r.deep_view() == spec_unmanaged(*locker),
{
    let ghost pred = |n: Seq<char>|
        !(locker.spec_meta(n) is Some && locker.metadata.is_current_schema());
    let mut r: Vec<String> = Vec::new();
    let mut i: usize = 0;
    proof {
        assert(env_names(*locker).take(0) =~= Seq::<Seq<char>>::empty());
        reveal_with_fuel(Seq::<Seq<char>>::filter, 1);
    }
    while i < locker.envelopes.len()
        invariant
            locker.wf(),
            i <= locker.envs().len(),
            pred == (|n: Seq<char>|
                !(locker.spec_meta(n) is Some && locker.metadata.is_current_schema())),
            r.deep_view() == env_names(*locker).take(i as int).filter(pred),
        decreases locker.envs().len() - i,
    {
        let ghost prefix = env_names(*locker).take(i as int);
        let managed = has_this_secret_metadata(locker.envelopes[i].name.as_str(), &locker.metadata);
        let ghost nmv = locker.envs()[i as int].name;
        proof {
            reveal(Seq::<Seq<char>>::filter);
            assert(env_names(*locker).take(i + 1).drop_last() =~= prefix);
            assert(env_names(*locker).take(i + 1).last() == nmv);
        }
        if !managed {
            r.push(locker.envelopes[i].name.clone());
            proof {
                assert(pred(nmv));
                assert(r.deep_view() =~= prefix.filter(pred).push(nmv));
                assert(env_names(*locker).take(i + 1).filter(pred) =~= prefix.filter(pred).push(
                    nmv,
                ));
            }
        } else {
            proof {
                assert(!pred(nmv));
                assert(env_names(*locker).take(i + 1).filter(pred) =~= prefix.filter(pred));
            }
        }
        i += 1;
    }
    proof {
        assert(env_names(*locker).take(locker.envs().len() as int) =~= env_names(*locker));
    }
    r
}

/// The name of each envelope in the store, in store order.
pub open spec fn env_names(locker: Locker) -> Seq<Seq<char>> {
    Seq::new(locker.envs().len(), |i: int| locker.envs()[i].name)
}

/// The envelope names with no current-schema metadata record, in store
/// order: the secrets [`unmanaged_secrets`] reports.
pub open spec fn spec_unmanaged(locker: Locker) -> Seq<Seq<char>> {
    env_names(locker).filter(
        |n: Seq<char>| !(locker.spec_meta(n) is Some && locker.metadata.is_current_schema()),
    )
}

/// Expiration is monotonic: once the sticky mark is written back, the record
/// counts as expired at every instant whatsoever. Only a renewal brings it
/// back — and the renewed record, whatever its prior state, counts as
/// expired at an instant exactly when that instant lies past the new
/// expiration.
pub proof fn lemma_expiration_monotonicity(m: SecretRecord, renew_at: u64, later: u64)
    ensures
        spec_is_expired(with_expired_mark(m), later),
        spec_is_expired(with_expiration(m, renew_at), later) == (later > renew_at),
        spec_is_expired(with_expiration(with_expired_mark(m), renew_at), later) == (later
            > renew_at),
{
}

/// The `%Y-%m-%d %H:%M:%S` rendering, in UTC, of an epoch-second count that
/// chrono accepts; a fixed function of the count alone.
pub uninterp spec fn timestamp_text_of(secs: u64) -> Seq<char>;

/// Relies on chrono's `DateTime::from_timestamp` and its `%Y-%m-%d %H:%M:%S`
/// formatting: the UTC rendering of an in-range epoch-second count is a
/// fixed function of the count; counts beyond chrono's range (further than
/// roughly 262,000 years from the common era — every count up to
/// 8,000,000,000,000 is comfortably inside) yield `None`.
#[verifier::external_body]
fn format_timestamp(secs: u64) -> (r: Option<String>)
    ensures
        r matches Some(t) ==> t@ == timestamp_text_of(secs),
        secs <= 8_000_000_000_000 ==> r is Some,
{
    let signed = i64::try_from(secs).ok()?;
    let parsed = chrono::DateTime::from_timestamp(signed, 0)?;
    Some(parsed.format("%Y-%m-%d %H:%M:%S").to_string())
}

/// The text `list` shows for an epoch-second count: its timestamp rendering,
/// or — only for counts beyond chrono's range — a fixed placeholder.
pub open spec fn is_time_label(secs: u64, label: Seq<char>) -> bool {
    ||| label == timestamp_text_of(secs)
    ||| (secs > 8_000_000_000_000 && label == "Invalid timestamp"@)
}

/// Renders an epoch-second count for display.
fn timestamp_label(secs: u64) -> (r: String)
    ensures
        is_time_label(secs, r@),
{
    match format_timestamp(secs) {
        Some(t) => t,
        None => "Invalid timestamp".to_owned(),
    }
}

/// The tag list as `list` shows it: each tag quoted, joined by `, `.
pub open spec fn render_tags(tags: Seq<Seq<char>>) -> Seq<char>
    decreases tags.len(),
{
    if tags.len() == 0 {
        Seq::empty()
    } else if tags.len() == 1 {
        seq!['"'] + tags[0] + seq!['"']
    } else {
        render_tags(tags.drop_last()) + seq![',', ' ', '"'] + tags.last() + seq!['"']
    }
}

/// Renders the tag list for display.
fn tags_text(tags: &Vec<String>) -> (r: String)
    ensures
        r@ == render_tags(tags.deep_view()),
{
    proof {
        reveal_strlit("\"");
        reveal_strlit(", ");
        assert(tags.deep_view().take(0) =~= Seq::<Seq<char>>::empty());
    }
    let mut r = String::new();
    let mut i: usize = 0;
    while i < tags.len()
        invariant
            i <= tags@.len(),
            tags.deep_view().len() == tags@.len(),
            r@ == render_tags(tags.deep_view().take(i as int)),
        decreases tags@.len() - i,
    {
        proof {
            reveal_strlit("\"");
            reveal_strlit(", ");
        }
        if i > 0 {
            r.append(", ");
        }
        r.append("\"");
        r.append(tags[i].as_str());
        r.append("\"");
        proof {
            let t = tags.deep_view().take(i + 1);
            assert(t.drop_last() =~= tags.deep_view().take(i as int));
            assert(t.last() == tags.deep_view()[i as int]);
            if i == 0 {
                assert(r@ =~= render_tags(t));
            } else {
                assert(r@ =~= render_tags(t));
            }
        }
        i += 1;
    }
    proof {
        assert(tags.deep_view().take(tags@.len() as int) =~= tags.deep_view());
    }
    r
}

/// The line `list` shows for one record, given the two timestamp labels:
/// name, creation and expiration labels, the status derived from the same
/// expiration test `open` uses, and the quoted tags.
pub open spec fn render_line(
    m: SecretRecord,
    now: u64,
    created: Seq<char>,
    expires: Seq<char>,
) -> Seq<char> {
    m.name + "\n  Created At: "@ + created + "  Expire At: "@ + expires + "  Status: "@ + (
    if spec_is_expired(m, now) {
        "Expired"@
    } else {
        "Active"@
    }) + "  Tags: ["@ + render_tags(m.tags) + "]"@
}

/// The line shown for this record: [`render_line`] with labels that render
/// its two timestamps.
pub open spec fn is_entry_line(m: SecretRecord, now: u64, line: Seq<char>) -> bool {
    exists|created: Seq<char>, expires: Seq<char>|
        {
            &&& #[trigger] is_time_label(m.created_at, created)
            &&& #[trigger] is_time_label(m.expire_at, expires)
            &&& line == render_line(m, now, created, expires)
        }
}

/// Lists every secret the metadata document knows, one display line per
/// record, in document order. The active/expired status on each line comes
/// from [`is_secret_expired`] — the very test [`decrypt`] applies, so the
/// two can never drift apart. Nothing is reconciled here: an unmanaged
/// envelope stays invisible until the caller opts into
/// [`migrate_metadata`] (see [`unmanaged_secrets`]).
pub fn list_secrets(locker: &Locker, now: u64) -> (r: Vec<String>)
    requires
        locker.wf(),
    ensures
        r@.len() == locker.metadata.entries().len(),
        forall|i: int|
            0 <= i < r@.len() ==> is_entry_line(
                locker.metadata.entries()[i],
                now,
                #[trigger] r@[i]@,
            ),
{
    let mut r: Vec<String> = Vec::new();
    let mut i: usize = 0;
    while i < locker.metadata.secrets.len()
        invariant
            locker.wf(),
            i <= locker.metadata.entries().len(),
            r@.len() == i,
            forall|k: int|
                0 <= k < i ==> is_entry_line(
                    locker.metadata.entries()[k],
                    now,
                    #[trigger] r@[k]@,
                ),
        decreases locker.metadata.entries().len() - i,
    {
        let m = &locker.metadata.secrets[i];
        let created = timestamp_label(m.created_at);
        let expires = timestamp_label(m.expire_at);
        let tags = tags_text(&m.tags);
        let mut line = m.name.clone();
        line.append("\n  Created At: ");
        line.append(created.as_str());
        line.append("  Expire At: ");
        line.append(expires.as_str());
        line.append("  Status: ");
        if is_secret_expired(m, now) {
            line.append("Expired");
        } else {
            line.append("Active");
        }
        line.append("  Tags: [");
        line.append(tags.as_str());
        line.append("]");
        proof {
            assert(line@ == render_line(m@, now, created@, expires@));
            assert(is_time_label(m@.created_at, created@));
            assert(is_time_label(m@.expire_at, expires@));
            assert(is_entry_line(m@, now, line@));
        }
        r.push(line);
        i += 1;
    }
    r
}

} // verus!
