//! The container encoding, its error cases, and the scheme id table.

use packarc::Archive;
use packarc::ArchiveEntry;
use packarc::CompressionSchema;
use packarc::FileMetadata;
use packarc::FilePermissions;
use packarc::FormatError;
use packarc::SerializedArchive;
use packarc::Timestamp;

fn meta_bare() -> FileMetadata {
    FileMetadata {
        permissions: FilePermissions { mode: None, readonly: false },
        accessed: None,
        modified: None,
        created: None,
    }
}

fn meta_full() -> FileMetadata {
    FileMetadata {
        permissions: FilePermissions { mode: Some(0o644), readonly: true },
        accessed: Some(Timestamp { secs: 1_700_000_000, nanos: 123_456_789 }),
        modified: Some(Timestamp { secs: -12_345, nanos: 999_999_999 }),
        created: Some(Timestamp { secs: 0, nanos: 0 }),
    }
}

fn one_entry_archive() -> Archive {
    Archive::new(vec![ArchiveEntry::new(b"a".to_vec(), vec![], meta_bare())])
}

#[test]
fn id_bijection_round_trips() {
    for schema in CompressionSchema::get_all_schemas() {
        let id = schema.id_of();
        assert_eq!(CompressionSchema::from_id(id), Ok(schema));
    }
}

#[test]
fn id_table_is_exactly_the_defined_set() {
    let defined = [0u8, 1, 2, 3, 4, 33, 34];
    for id in 0..=255u8 {
        let resolved = CompressionSchema::from_id(id);
        if defined.contains(&id) {
            assert!(resolved.is_ok());
            assert_eq!(resolved.unwrap().id_of(), id);
        } else {
            assert_eq!(resolved, Err(FormatError::UnknownSchemeId));
        }
    }
}

#[test]
fn no_two_schemas_share_an_id() {
    let all = CompressionSchema::get_all_schemas();
    for i in 0..all.len() {
        for j in 0..all.len() {
            if i != j {
                assert_ne!(all[i].id_of(), all[j].id_of());
            }
        }
    }
}

#[test]
fn schema_strings_are_stable() {
    let all = CompressionSchema::get_all_schemas();
    let names = [
        "Uncompressed",
        "flate3_DynamicBlockLarge",
        "flate3_DynamicBlockSmall",
        "flate3_StaticBlockLarge",
        "flate3_StaticBlockSmall",
        "lzma/xz_lv3",
        "lzma/xz_lv6",
    ];
    for (schema, name) in all.iter().zip(names.iter()) {
        assert_eq!(schema.schema_string(), *name);
    }
}

#[test]
fn encoding_is_deterministic_and_exact() {
    let a = Archive::new(vec![
        ArchiveEntry::new(b"x".to_vec(), b"abc".to_vec(), meta_full()),
        ArchiveEntry::new(b"y".to_vec(), vec![0, 255], meta_bare()),
    ]);
    let b = Archive::new(vec![
        ArchiveEntry::new(b"x".to_vec(), b"abc".to_vec(), meta_full()),
        ArchiveEntry::new(b"y".to_vec(), vec![0, 255], meta_bare()),
    ]);
    assert_eq!(a.serialize().0, b.serialize().0);
}

#[test]
fn empty_container_encodes_to_count_zero() {
    let bytes = Archive::new(vec![]).serialize();
    assert_eq!(bytes.0, vec![0u8; 8]);
    let back = SerializedArchive(bytes.0.clone()).deserialize().unwrap();
    assert_eq!(back.0.len(), 0);
}

#[test]
fn metadata_absence_round_trips_as_absence() {
    let archive = Archive::new(vec![ArchiveEntry::new(
        b"m".to_vec(),
        b"z".to_vec(),
        FileMetadata {
            permissions: FilePermissions { mode: None, readonly: true },
            accessed: None,
            modified: Some(Timestamp { secs: 7, nanos: 8 }),
            created: None,
        },
    )]);
    let back = archive.serialize().deserialize().unwrap();
    let m = &back.0[0].meta;
    assert_eq!(m.permissions.mode, None);
    assert!(m.permissions.readonly);
    assert_eq!(m.accessed, None);
    assert_eq!(m.modified, Some(Timestamp { secs: 7, nanos: 8 }));
    assert_eq!(m.created, None);
}

#[test]
fn truncated_input_is_rejected() {
    let mut bytes = one_entry_archive().serialize().0;
    bytes.pop();
    assert_eq!(
        SerializedArchive(bytes).deserialize().unwrap_err(),
        FormatError::Truncated
    );
    assert_eq!(
        SerializedArchive(vec![1, 2, 3]).deserialize().unwrap_err(),
        FormatError::Truncated
    );
}

#[test]
fn overlong_declared_length_is_rejected() {
    // A one-entry container whose declared path length runs past the end.
    let mut bytes = vec![];
    bytes.extend_from_slice(&1u64.to_le_bytes());
    bytes.extend_from_slice(&1000u64.to_le_bytes());
    bytes.extend_from_slice(b"abc");
    assert_eq!(
        SerializedArchive(bytes).deserialize().unwrap_err(),
        FormatError::Truncated
    );
}

#[test]
fn impossible_presence_flags_are_rejected() {
    // count(8) + path_len(8) + path(1) + content_len(8) = 25: the bitmap.
    let mut bytes = one_entry_archive().serialize().0;
    assert_eq!(bytes.len(), 27);
    bytes[25] = 0x10;
    assert_eq!(
        SerializedArchive(bytes).deserialize().unwrap_err(),
        FormatError::BadPresenceFlags
    );
}

#[test]
fn malformed_readonly_byte_is_rejected() {
    let mut bytes = one_entry_archive().serialize().0;
    bytes[26] = 2;
    assert_eq!(
        SerializedArchive(bytes).deserialize().unwrap_err(),
        FormatError::BadBoolean
    );
}

#[test]
fn trailing_bytes_are_rejected() {
    let mut bytes = one_entry_archive().serialize().0;
    bytes.push(0);
    assert_eq!(
        SerializedArchive(bytes).deserialize().unwrap_err(),
        FormatError::TrailingData
    );
}

#[test]
fn error_descriptions_are_distinct() {
    let errors = [
        FormatError::Truncated,
        FormatError::BadPresenceFlags,
        FormatError::BadBoolean,
        FormatError::UnknownSchemeId,
        FormatError::TrailingData,
    ];
    for i in 0..errors.len() {
        for j in 0..errors.len() {
            if i != j {
                assert_ne!(errors[i].describe(), errors[j].describe());
            }
        }
    }
}
