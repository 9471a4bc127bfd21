use smart_locker::config::Config;
use smart_locker::export::ExportFormat;
use smart_locker::metadata::{
    has_this_secret_metadata, is_secret_expired, mark_secret_as_expired, metadata_field_count,
    remove_metadata, update_secret_expiration, update_secret_metadata, MetadataFile,
    SecretMetadata, METADATA_SCHEMA_VERSION,
};
use smart_locker::toolbox::is_this_secret;
use smart_locker::SmartLockerError;

fn record(name: &str, expire_at: u64) -> SecretMetadata {
    SecretMetadata {
        name: name.to_string(),
        created_at: 100,
        expire_at,
        expired: false,
        tags: vec![],
    }
}

#[test]
fn test_is_this_secret_names() {
    let (ok, stem) = is_this_secret("db_pass.slock");
    assert!(ok);
    assert_eq!(stem, Some("db_pass".to_string()));

    let (ok, stem) = is_this_secret("a.b.slock");
    assert!(ok);
    assert_eq!(stem, Some("a.b".to_string()));

    for bad in ["notes.txt", "slock", ".slock", "", "x.slocker", "metadata.json"] {
        let (ok, stem) = is_this_secret(bad);
        assert!(!ok, "{:?} is not a secret file", bad);
        assert!(stem.is_none());
    }
}

#[test]
fn test_export_env_with_placeholders() {
    let names = vec!["test_export_secret".to_string(), "db_pass".to_string()];
    let content = ExportFormat::export_env_with_placeholders(&names);
    assert_eq!(
        content,
        "test_export_secret=$(smart-locker decrypt -n test_export_secret)\n\
         db_pass=$(smart-locker decrypt -n db_pass)\n"
    );
    assert!(content.contains("test_export_secret=$(smart-locker decrypt -n test_export_secret)"));
    assert_eq!(ExportFormat::export_env_with_placeholders(&vec![]), "");
}

#[test]
fn test_config_paths() {
    let config = Config::from_home("/home/someone");
    assert_eq!(config.locker_dir, "/home/someone/.locker");
    assert_eq!(config.key_file, "/home/someone/.locker/locker.key");
}

#[test]
fn test_metadata_field_count_matches_schema() {
    let m = record("any", 500);
    assert_eq!(metadata_field_count(&m), 5);
    assert_eq!(SecretMetadata::field_count(Some(&m)), 5);
    assert_eq!(SecretMetadata::field_count(None), 5);
}

#[test]
fn test_metadata_store_operations() {
    let mut doc = MetadataFile::new();
    assert_eq!(doc.schema_version, METADATA_SCHEMA_VERSION);
    doc.insert(record("a", 500));
    doc.insert(record("b", 600));
    assert!(has_this_secret_metadata("a", &doc));
    assert!(!has_this_secret_metadata("c", &doc));

    // Replacement keeps one record per name.
    doc.insert(record("a", 700));
    assert_eq!(doc.secrets.len(), 2);
    assert_eq!(doc.secrets.iter().find(|m| m.name == "a").unwrap().expire_at, 700);

    // The caller-supplied update rebinds the record.
    update_secret_metadata("a", &mut doc, |mut m| {
        m.created_at = 1;
        m
    })
    .expect("updating an existing record must succeed");
    assert_eq!(doc.secrets.iter().find(|m| m.name == "a").unwrap().created_at, 1);
    match update_secret_metadata("zzz", &mut doc, |m| m) {
        Err(SmartLockerError::FileSystemError(_)) => {}
        other => panic!("updating a missing record must fail, got {:?}", other),
    }

    // Expiration test and the two writes that move it.
    let a = doc.secrets.iter().find(|m| m.name == "a").unwrap();
    assert!(!is_secret_expired(a, 700));
    assert!(is_secret_expired(a, 701), "strictly past expire_at counts as expired");
    mark_secret_as_expired("a", &mut doc).expect("marking must succeed");
    let a = doc.secrets.iter().find(|m| m.name == "a").unwrap();
    assert!(a.expired);
    assert!(is_secret_expired(a, 0), "the sticky mark expires the record at every instant");
    update_secret_expiration("a", &mut doc, 9000).expect("renewal write must succeed");
    let a = doc.secrets.iter().find(|m| m.name == "a").unwrap();
    assert!(!a.expired);
    assert_eq!(a.expire_at, 9000);

    // Single and bulk removal.
    remove_metadata(Some("a"), &mut doc).expect("removing an existing record must succeed");
    assert!(!has_this_secret_metadata("a", &doc));
    match remove_metadata(Some("a"), &mut doc) {
        Err(SmartLockerError::FileSystemError(_)) => {}
        other => panic!("removing a missing record must fail, got {:?}", other),
    }
    remove_metadata(None, &mut doc).expect("bulk wipe must succeed");
    assert!(doc.secrets.is_empty());
}

#[test]
fn test_error_messages() {
    let e = SmartLockerError::DecryptionError("secret expired".to_string());
    assert_eq!(e.message(), "secret expired");
    let e = SmartLockerError::FileSystemError("metadata entry not found".to_string());
    assert_eq!(e.message(), "metadata entry not found");
}
