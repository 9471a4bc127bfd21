use smart_locker::codec::{AeadKey, EncryptionConfig};
use smart_locker::locker::{
    decrypt, encrypt, list_secrets, list_secrets_names, migrate_metadata, remove_secret,
    renew_secret, unmanaged_secrets, EnvelopeFile, Locker,
};
use smart_locker::metadata::SecretMetadata;
use smart_locker::SmartLockerError;

fn test_key() -> AeadKey {
    let config = EncryptionConfig::new();
    config
        .init_cipher(&vec![42u8; 32])
        .expect("32-byte material must be accepted")
}

fn meta_of<'a>(locker: &'a Locker, name: &str) -> Option<&'a SecretMetadata> {
    locker.metadata.secrets.iter().find(|m| m.name == name)
}

fn has_envelope(locker: &Locker, name: &str) -> bool {
    locker.envelopes.iter().any(|e| e.name == name)
}

#[test]
fn unittest_test_encrypt_and_decrypt() {
    let mut locker = Locker::new();
    let key = test_key();
    let config = EncryptionConfig::new();
    let secret_name = "test_encrypt_and_decrypt_secret";
    let secret_value = "Ceci est un test";

    let tags: Vec<String> = ["test1", "test2"].iter().map(|&s| s.to_string()).collect();
    let expiration_days = Some(30);
    encrypt(
        secret_value,
        secret_name,
        tags,
        expiration_days,
        &mut locker,
        &key,
        &config,
        1_000_000,
    )
    .expect("Failed to encrypt secret");

    assert!(
        has_envelope(&locker, secret_name),
        "Encrypted envelope was not created: {:?}",
        secret_name
    );

    let decrypted_value =
        decrypt(secret_name, &mut locker, &key, 1_000_100).expect("Failed to decrypt secret");
    assert_eq!(
        decrypted_value, secret_value,
        "Decrypted secret doesn't match original"
    );
}

#[test]
fn unittest_test_list_secrets() {
    let mut locker = Locker::new();
    let key = test_key();
    let config = EncryptionConfig::new();
    let test_secret_name = "test_list_secrets_secret";
    let test_secret_value = "This is a test secret";

    encrypt(
        test_secret_value,
        test_secret_name,
        vec!["test".to_string()],
        Some(30),
        &mut locker,
        &key,
        &config,
        1_000_000,
    )
    .expect("Failed to encrypt secret");

    assert!(has_envelope(&locker, test_secret_name), "Test envelope was not created properly");

    let secret_names = list_secrets_names(&locker);
    assert!(
        secret_names.contains(&test_secret_name.to_string()),
        "The secret '{}' is not listed. Secrets: {:?}",
        test_secret_name,
        secret_names
    );
}

#[test]
fn test_create_scenario_db_pass() {
    let mut locker = Locker::new();
    let key = test_key();
    let config = EncryptionConfig::new();
    let now = 1_700_000_000;

    encrypt("s3cr3t", "db_pass", vec!["prod".to_string()], Some(15), &mut locker, &key, &config, now)
        .expect("creation must succeed");

    assert!(has_envelope(&locker, "db_pass"), "db_pass envelope must exist");
    let opened = decrypt("db_pass", &mut locker, &key, now + 60).expect("open must succeed");
    assert_eq!(opened, "s3cr3t");

    let m = meta_of(&locker, "db_pass").expect("metadata record must exist");
    assert!(!m.expired);
    assert_eq!(m.created_at, now);
    assert_eq!(m.expire_at, now + 15 * 86400);
    assert_eq!(m.tags, vec!["prod".to_string()]);
}

#[test]
fn test_create_overwrites_silently() {
    let mut locker = Locker::new();
    let key = test_key();
    let config = EncryptionConfig::new();

    encrypt("first", "dup", vec!["a".to_string()], Some(1), &mut locker, &key, &config, 100)
        .expect("first creation must succeed");
    encrypt("second", "dup", vec!["b".to_string()], Some(2), &mut locker, &key, &config, 200)
        .expect("overwriting creation must succeed");

    assert_eq!(locker.envelopes.iter().filter(|e| e.name == "dup").count(), 1);
    assert_eq!(locker.metadata.secrets.iter().filter(|m| m.name == "dup").count(), 1);
    let opened = decrypt("dup", &mut locker, &key, 300).expect("open must succeed");
    assert_eq!(opened, "second", "the newer value must have replaced the older");
    let m = meta_of(&locker, "dup").unwrap();
    assert_eq!(m.created_at, 200);
    assert_eq!(m.tags, vec!["b".to_string()]);
}

#[test]
fn test_expiration_and_renewal() {
    let mut locker = Locker::new();
    let key = test_key();
    let config = EncryptionConfig::new();
    let now = 1_000_000;

    // ttl of zero days: expires at the creation instant.
    encrypt("v", "fleeting", vec![], Some(0), &mut locker, &key, &config, now)
        .expect("creation must succeed");
    assert_eq!(meta_of(&locker, "fleeting").unwrap().expire_at, now);

    // One second later the secret has expired: open fails and writes the mark back.
    match decrypt("fleeting", &mut locker, &key, now + 1) {
        Err(SmartLockerError::DecryptionError(m)) => assert_eq!(m, "secret expired"),
        other => panic!("expired secret must fail to open, got {:?}", other),
    }
    assert!(meta_of(&locker, "fleeting").unwrap().expired, "the mark must be written back");

    // The mark is sticky: even at an instant before expire_at, open still fails.
    match decrypt("fleeting", &mut locker, &key, now) {
        Err(SmartLockerError::DecryptionError(m)) => assert_eq!(m, "secret expired"),
        other => panic!("marked secret must stay expired, got {:?}", other),
    }

    // Renewal clears the mark and extends the expiration.
    renew_secret("fleeting", 10, &mut locker, now + 1).expect("renewal must succeed");
    let m = meta_of(&locker, "fleeting").unwrap();
    assert!(!m.expired);
    assert_eq!(m.expire_at, now + 1 + 10 * 86400);
    let opened = decrypt("fleeting", &mut locker, &key, now + 2).expect("open must now succeed");
    assert_eq!(opened, "v");
}

#[test]
fn test_renew_missing_secret_fails() {
    let mut locker = Locker::new();
    match renew_secret("ghost", 10, &mut locker, 1000) {
        Err(SmartLockerError::DecryptionError(m)) => assert_eq!(m, "metadata missing"),
        other => panic!("renewing an unknown secret must fail, got {:?}", other),
    }
}

#[test]
fn test_renew_active_secret_extends() {
    let mut locker = Locker::new();
    let key = test_key();
    let config = EncryptionConfig::new();
    encrypt("v", "alive", vec![], Some(1), &mut locker, &key, &config, 1000)
        .expect("creation must succeed");
    renew_secret("alive", 30, &mut locker, 2000).expect("renewing an active secret is not an error");
    assert_eq!(meta_of(&locker, "alive").unwrap().expire_at, 2000 + 30 * 86400);
}

#[test]
fn test_decrypt_without_envelope_is_file_system_error() {
    let mut locker = Locker::new();
    let key = test_key();
    match decrypt("absent", &mut locker, &key, 1000) {
        Err(SmartLockerError::FileSystemError(_)) => {}
        other => panic!("missing envelope must be a file system error, got {:?}", other),
    }
}

#[test]
fn test_unmanaged_envelope_needs_explicit_reconciliation() {
    let mut locker = Locker::new();
    let key = test_key();

    // An orphan .slock file appears on disk with no metadata record: bytes in
    // the right frame but sealed by nobody we know.
    let mut data = b"SMARTLKR".to_vec();
    data.push(1);
    data.extend_from_slice(&[0u8; 12]);
    data.extend_from_slice(&[0xAB; 24]);
    locker.envelopes.push(EnvelopeFile { name: "orphan".to_string(), data });

    // Opening reports the unmanaged state; nothing is repaired silently.
    match decrypt("orphan", &mut locker, &key, 1000) {
        Err(SmartLockerError::DecryptionError(m)) => assert_eq!(m, "metadata missing"),
        other => panic!("unmanaged secret must fail to open, got {:?}", other),
    }
    assert!(meta_of(&locker, "orphan").is_none());
    let pending = unmanaged_secrets(&locker);
    assert_eq!(pending, vec!["orphan".to_string()]);

    // Explicit reconciliation synthesizes a record...
    migrate_metadata(Some("orphan"), &mut locker, 5000).expect("reconciliation must succeed");
    let m = meta_of(&locker, "orphan").expect("reconciliation must synthesize a record");
    assert_eq!(m.created_at, 5000);
    assert_eq!(m.expire_at, 5000 + 15 * 86400);
    assert!(!m.expired, "the synthesized record must report the secret as active");
    assert!(m.tags.is_empty());
    assert!(unmanaged_secrets(&locker).is_empty());

    // ...after which opening reaches the envelope itself, whose bytes still
    // fail authentication: no key ever sealed them.
    match decrypt("orphan", &mut locker, &key, 5001) {
        Err(SmartLockerError::DecryptionError(m)) => assert_eq!(m, "authentication failed"),
        other => panic!("an alien envelope must fail authentication, got {:?}", other),
    }
}

#[test]
fn test_reconcile_is_idempotent() {
    let mut locker = Locker::new();
    locker.envelopes.push(EnvelopeFile { name: "orphan".to_string(), data: vec![1, 2, 3] });

    migrate_metadata(None, &mut locker, 100).expect("first reconciliation must succeed");
    assert_eq!(locker.metadata.secrets.len(), 1, "one record, not two");
    let first_created = meta_of(&locker, "orphan").unwrap().created_at;

    migrate_metadata(None, &mut locker, 200).expect("second reconciliation must succeed");
    assert_eq!(locker.metadata.secrets.len(), 1, "still one record");
    assert_eq!(
        meta_of(&locker, "orphan").unwrap().created_at,
        first_created,
        "an existing record is never touched"
    );

    // A third call is a complete no-op.
    let names_before: Vec<String> = locker.metadata.secrets.iter().map(|m| m.name.clone()).collect();
    migrate_metadata(None, &mut locker, 300).expect("third reconciliation must succeed");
    let names_after: Vec<String> = locker.metadata.secrets.iter().map(|m| m.name.clone()).collect();
    assert_eq!(names_before, names_after);
    assert_eq!(meta_of(&locker, "orphan").unwrap().created_at, first_created);
    assert_eq!(locker.metadata.secrets.len(), 1);
}

#[test]
fn test_reconcile_missing_envelope_fails() {
    let mut locker = Locker::new();
    match migrate_metadata(Some("nothing_here"), &mut locker, 100) {
        Err(SmartLockerError::FileSystemError(_)) => {}
        other => panic!("reconciling a missing envelope must fail, got {:?}", other),
    }
}

#[test]
fn test_removal_duality() {
    let mut locker = Locker::new();
    let key = test_key();
    let config = EncryptionConfig::new();
    encrypt("1", "alpha", vec![], None, &mut locker, &key, &config, 100).unwrap();
    encrypt("2", "beta", vec![], None, &mut locker, &key, &config, 100).unwrap();
    encrypt("3", "gamma", vec![], None, &mut locker, &key, &config, 100).unwrap();

    // Removing one name removes exactly that envelope and that record.
    remove_secret(Some("beta"), false, &mut locker).expect("single removal must succeed");
    assert!(!has_envelope(&locker, "beta"));
    assert!(meta_of(&locker, "beta").is_none());
    assert!(has_envelope(&locker, "alpha") && has_envelope(&locker, "gamma"));
    assert!(meta_of(&locker, "alpha").is_some() && meta_of(&locker, "gamma").is_some());

    // Removing all deletes every envelope referenced by metadata and clears
    // the document; an unreferenced envelope is left alone.
    locker
        .envelopes
        .push(EnvelopeFile { name: "unreferenced".to_string(), data: vec![9] });
    remove_secret(None, true, &mut locker).expect("bulk removal must succeed");
    assert!(locker.metadata.secrets.is_empty(), "the metadata document must be cleared");
    assert!(!has_envelope(&locker, "alpha") && !has_envelope(&locker, "gamma"));
    assert!(has_envelope(&locker, "unreferenced"), "unreferenced envelopes are not deleted");
}

#[test]
fn test_remove_without_metadata_entry_reports_error() {
    let mut locker = Locker::new();
    locker.envelopes.push(EnvelopeFile { name: "loose".to_string(), data: vec![1] });
    match remove_secret(Some("loose"), false, &mut locker) {
        Err(SmartLockerError::FileSystemError(_)) => {}
        other => panic!("removing a secret without a record must report it, got {:?}", other),
    }
    assert!(!has_envelope(&locker, "loose"), "the envelope itself is still deleted");
}

#[test]
fn test_remove_with_neither_name_nor_all_changes_nothing() {
    let mut locker = Locker::new();
    let key = test_key();
    let config = EncryptionConfig::new();
    encrypt("1", "kept", vec![], None, &mut locker, &key, &config, 100).unwrap();
    remove_secret(None, false, &mut locker).expect("a no-op removal is not an error");
    assert!(has_envelope(&locker, "kept"));
    assert!(meta_of(&locker, "kept").is_some());
}

#[test]
fn test_list_secrets_line_format() {
    let mut locker = Locker::new();
    let key = test_key();
    let config = EncryptionConfig::new();
    encrypt("v", "unix_epoch", vec!["prod".to_string(), "db".to_string()], Some(0), &mut locker, &key, &config, 0)
        .expect("creation must succeed");

    let lines = list_secrets(&locker, 0);
    assert_eq!(lines.len(), 1);
    assert_eq!(
        lines[0],
        "unix_epoch\n  Created At: 1970-01-01 00:00:00  Expire At: 1970-01-01 00:00:00  Status: Active  Tags: [\"prod\", \"db\"]"
    );

    // One second later the same record is shown as expired: the status uses
    // the very test `decrypt` applies.
    let lines = list_secrets(&locker, 1);
    assert_eq!(
        lines[0],
        "unix_epoch\n  Created At: 1970-01-01 00:00:00  Expire At: 1970-01-01 00:00:00  Status: Expired  Tags: [\"prod\", \"db\"]"
    );
}

#[test]
fn test_list_secrets_known_timestamp() {
    let mut locker = Locker::new();
    let key = test_key();
    let config = EncryptionConfig::new();
    // 2015-05-15 00:00:00 UTC, a fixed instant; one day of life.
    encrypt("v", "probe", vec![], Some(1), &mut locker, &key, &config, 1_431_648_000)
        .expect("creation must succeed");
    let lines = list_secrets(&locker, 1_431_648_000);
    assert_eq!(
        lines[0],
        "probe\n  Created At: 2015-05-15 00:00:00  Expire At: 2015-05-16 00:00:00  Status: Active  Tags: []"
    );
}

#[test]
fn test_outdated_schema_needs_migration() {
    let mut locker = Locker::new();
    let key = test_key();
    let config = EncryptionConfig::new();
    encrypt("v", "aged", vec![], Some(30), &mut locker, &key, &config, 1000)
        .expect("creation must succeed");

    // The document on disk was written under an older layout revision.
    locker.metadata.schema_version = 0;
    match decrypt("aged", &mut locker, &key, 2000) {
        Err(SmartLockerError::DecryptionError(m)) => assert_eq!(m, "metadata missing"),
        other => panic!("an outdated document must demand migration, got {:?}", other),
    }
    assert_eq!(
        unmanaged_secrets(&locker),
        vec!["aged".to_string()],
        "under an outdated schema every envelope counts as unmanaged"
    );

    // Migration stamps the document current and keeps the existing record.
    migrate_metadata(None, &mut locker, 3000).expect("migration must succeed");
    assert_eq!(locker.metadata.schema_version, 1);
    let m = meta_of(&locker, "aged").unwrap();
    assert_eq!(m.created_at, 1000, "an existing record is kept, not resynthesized");
    let opened = decrypt("aged", &mut locker, &key, 2000).expect("open must now succeed");
    assert_eq!(opened, "v");
}

#[test]
fn test_create_stamps_schema_current() {
    let mut locker = Locker::new();
    let key = test_key();
    let config = EncryptionConfig::new();

    // The vault's document was written under an older layout revision, but a
    // creation rewrites the whole document in today's layout — so a freshly
    // created secret opens on any vault.
    locker.metadata.schema_version = 0;
    encrypt("fresh", "newcomer", vec![], Some(5), &mut locker, &key, &config, 1000)
        .expect("creation must succeed");
    assert_eq!(locker.metadata.schema_version, 1, "creation stamps the document current");
    let opened = decrypt("newcomer", &mut locker, &key, 1001).expect("create-then-open must succeed");
    assert_eq!(opened, "fresh");
}
