//! The full pipeline: encode, pack under a scheme, unpack, decode; and the
//! best-scheme selector.

use packarc::Archive;
use packarc::ArchiveEntry;
use packarc::CompressedArchive;
use packarc::CompressionSchema;
use packarc::FileMetadata;
use packarc::FilePermissions;
use packarc::SerializedArchive;
use packarc::Timestamp;

fn sample_entries() -> Vec<ArchiveEntry> {
    vec![
        ArchiveEntry::new(
            b"a.txt".to_vec(),
            b"hello".to_vec(),
            FileMetadata {
                permissions: FilePermissions { mode: Some(0o755), readonly: false },
                accessed: Some(Timestamp { secs: 1_600_000_000, nanos: 1 }),
                modified: Some(Timestamp { secs: -1, nanos: 999_999_999 }),
                created: None,
            },
        ),
        ArchiveEntry::new(
            b"sub/b.bin".to_vec(),
            vec![0x00, 0xFF, 0x10],
            FileMetadata {
                permissions: FilePermissions { mode: None, readonly: true },
                accessed: None,
                modified: None,
                created: Some(Timestamp { secs: 123, nanos: 456 }),
            },
        ),
        ArchiveEntry::new(b"empty".to_vec(), vec![], FileMetadata {
            permissions: FilePermissions { mode: Some(0), readonly: false },
            accessed: None,
            modified: None,
            created: None,
        }),
    ]
}

fn pseudo_random_bytes(n: usize) -> Vec<u8> {
    let mut x: u64 = 0x1234_5678_9abc_def0;
    let mut out = Vec::with_capacity(n);
    for _ in 0..n {
        x = x.wrapping_mul(6364136223846793005).wrapping_add(1442695040888963407);
        out.push((x >> 33) as u8);
    }
    out
}

#[test]
fn round_trip_under_every_scheme() {
    for schema in CompressionSchema::get_all_schemas() {
        let original = sample_entries();
        let archive = Archive::new(sample_entries());
        let packed = archive.serialize().compress(schema);
        assert_eq!(packed.get_schema(), schema);
        let restored = packed.decompress().deserialize().unwrap();
        assert_eq!(restored.0, original);
    }
}

#[test]
fn duplicate_paths_stay_duplicated_in_order() {
    let entry = |content: &[u8]| {
        ArchiveEntry::new(b"same".to_vec(), content.to_vec(), FileMetadata {
            permissions: FilePermissions { mode: None, readonly: false },
            accessed: None,
            modified: None,
            created: None,
        })
    };
    let archive = Archive::new(vec![entry(b"first"), entry(b"second")]);
    let back = archive.serialize().compress(CompressionSchema::LzmaXz6).decompress();
    let restored = back.deserialize().unwrap();
    assert_eq!(restored.0.len(), 2);
    assert_eq!(restored.0[0].content, b"first".to_vec());
    assert_eq!(restored.0[1].content, b"second".to_vec());
}

#[test]
fn identity_scheme_is_the_identity() {
    let samples: [&[u8]; 3] = [b"", b"x", &[0, 1, 2, 254, 255]];
    for data in samples {
        assert_eq!(CompressionSchema::Uncompressed.compress(data), data.to_vec());
        assert_eq!(CompressionSchema::Uncompressed.decompress(data), data.to_vec());
    }
}

#[test]
fn pack_prepends_exactly_the_id_byte() {
    let data = b"some container bytes".to_vec();
    let packed = SerializedArchive(data.clone()).compress(CompressionSchema::Uncompressed);
    let mut expected = vec![0u8];
    expected.extend_from_slice(&data);
    assert_eq!(packed.as_bytes(), &expected);
    let unpacked = packed.decompress();
    assert_eq!(unpacked.0, data);
}

#[test]
fn from_bytes_round_trips_persisted_bytes() {
    let packed = SerializedArchive(b"payload".to_vec()).compress(CompressionSchema::LzmaXz3);
    let persisted = packed.as_bytes().clone();
    let reread = CompressedArchive::from_bytes(persisted);
    assert_eq!(reread.get_schema(), CompressionSchema::LzmaXz3);
    assert_eq!(reread.decompress().0, b"payload".to_vec());
}

#[test]
fn compression_actually_shrinks_repetitive_data() {
    let data = vec![b'r'; 100_000];
    for schema in CompressionSchema::get_all_schemas() {
        if schema == CompressionSchema::Uncompressed {
            continue;
        }
        let packed = SerializedArchive(data.clone()).compress(schema);
        assert!(packed.len() < 1 + data.len());
        assert_eq!(packed.decompress().0, data);
    }
}

#[test]
fn select_best_never_beats_nothing_and_picks_compression_when_it_wins() {
    let data = vec![0xAB; 100_000];
    let best = packarc::compress::select_best(&SerializedArchive(data.clone()));
    assert!(best.len() <= 1 + data.len());
    assert!(best.len() < 1 + data.len());
    assert_ne!(best.get_schema(), CompressionSchema::Uncompressed);
    assert_eq!(best.decompress().0, data);
}

#[test]
fn select_best_takes_the_lowest_id_among_equal_lengths() {
    let data = pseudo_random_bytes(4096);
    let mut lengths = Vec::new();
    for schema in CompressionSchema::get_all_schemas() {
        lengths.push(SerializedArchive(data.clone()).compress(schema).len());
    }
    let min = *lengths.iter().min().unwrap();
    let first_at_min = lengths.iter().position(|l| *l == min).unwrap();
    let expected = CompressionSchema::get_all_schemas()[first_at_min];
    let best = packarc::compress::select_best(&SerializedArchive(data.clone()));
    assert_eq!(best.len(), min);
    assert_eq!(best.get_schema(), expected);
    assert_eq!(best.decompress().0, data);
}

#[test]
fn select_best_on_incompressible_input_keeps_the_identity_scheme() {
    // Too short for any codec to beat the single tag byte of overhead.
    let data = pseudo_random_bytes(16);
    let best = packarc::compress::select_best(&SerializedArchive(data.clone()));
    assert_eq!(best.len(), 1 + data.len());
    assert_eq!(best.get_schema(), CompressionSchema::Uncompressed);
    assert_eq!(best.decompress().0, data);
}

#[test]
fn empty_file_list_round_trips_under_every_scheme() {
    for schema in CompressionSchema::get_all_schemas() {
        let packed = Archive::new(vec![]).serialize().compress(schema);
        let restored = packed.decompress().deserialize().unwrap();
        assert_eq!(restored.0.len(), 0);
    }
}

#[test]
fn concrete_scenario_two_files_under_the_identity_scheme() {
    let a = ArchiveEntry::new(b"a.txt".to_vec(), b"hello".to_vec(), FileMetadata {
        permissions: FilePermissions { mode: Some(0o644), readonly: false },
        accessed: None,
        modified: None,
        created: None,
    });
    let b = ArchiveEntry::new(b"sub/b.bin".to_vec(), vec![0x00, 0xFF, 0x10], FileMetadata {
        permissions: FilePermissions { mode: Some(0o600), readonly: false },
        accessed: None,
        modified: None,
        created: None,
    });
    let archive = Archive::new(vec![a.clone(), b.clone()]);
    let packed = archive.serialize().compress(CompressionSchema::Uncompressed);
    let restored = packed.decompress().deserialize().unwrap();
    assert_eq!(restored.0.len(), 2);
    assert_eq!(restored.0[0], a);
    assert_eq!(restored.0[1], b);
    assert_eq!(restored.0[0].content, b"hello".to_vec());
    assert_eq!(restored.0[1].content, vec![0x00, 0xFF, 0x10]);
    assert_eq!(restored.0[0].meta.permissions.mode, Some(0o644));
    assert_eq!(restored.0[1].meta.permissions.mode, Some(0o600));
}
