use aes::cipher::AsyncStreamCipher;
use aes::cipher::KeyIvInit;
use backup_dumper::error::Error;
use backup_dumper::formats::knoxite::config::Config;
use backup_dumper::formats::knoxite::config::Volume;
use backup_dumper::formats::knoxite::decoder::Decoder;
use backup_dumper::formats::knoxite::index::Index;
use backup_dumper::formats::knoxite::raw_chunk::RawChunk;
use backup_dumper::formats::knoxite::snapshot::Archive;
use backup_dumper::formats::knoxite::snapshot::ArchiveType;
use backup_dumper::formats::knoxite::snapshot::Chunk;
use backup_dumper::formats::knoxite::snapshot::Snapshot;
use backup_dumper::formats::knoxite::snapshot::Stats;
use backup_dumper::formats::knoxite::strip_root;
use backup_dumper::formats::knoxite::RestoreStep;
use backup_dumper::formats::Knoxite;
use backup_dumper::reassembly::join_all;
use sha2::Digest;
use std::io::Write;

fn encrypt(secret: &str, plain: &[u8]) -> Vec<u8> {
    let digest = sha2::Sha256::digest(secret.as_bytes());
    let cipher = cfb_mode::Encryptor::<aes::Aes256>::new(&digest, digest[..16].into());
    let mut buffer = plain.to_vec();
    cipher.encrypt(&mut buffer);
    buffer
}

fn xz(plain: &[u8]) -> Vec<u8> {
    let mut encoder = xz2::write::XzEncoder::new(Vec::new(), 6);
    encoder.write_all(plain).unwrap();
    encoder.finish().unwrap()
}

fn volume(name: &str, snapshots: &[&str]) -> Volume {
    Volume {
        id: format!("id-of-{}", name),
        name: name.to_string(),
        description: None,
        snapshots: snapshots.iter().map(|s| s.to_string()).collect(),
    }
}

fn config(volumes: Vec<Volume>) -> Config {
    Config { version: 4, volumes, paths: Vec::new(), key: "a2V5IGtleSBrZXk=".to_string() }
}

fn repository(volumes: Vec<Volume>) -> Knoxite {
    Knoxite::from_folder(
        "repo".to_string(),
        "password".to_string(),
        config(volumes),
        Index { chunks: Vec::new() },
    )
}

fn chunk(hash: &str, num: u32) -> Chunk {
    Chunk {
        data: Vec::new(),
        data_parts: 1,
        parity_parts: 0,
        original_size: 10,
        size: 10,
        decrypted_hash: String::new(),
        hash: hash.to_string(),
        num,
    }
}

fn archive(path: &str, archive_type: ArchiveType, chunks: Option<Vec<Chunk>>) -> Archive {
    Archive {
        path: path.to_string(),
        points_to: None,
        mode: 0o644,
        mod_time: 0,
        size: 0,
        storage_size: 0,
        uid: 0,
        gid: 0,
        chunks,
        encrypted: true,
        compressed: false,
        archive_type,
    }
}

fn snapshot(archives: Vec<Archive>) -> Snapshot {
    Snapshot {
        id: "snap".to_string(),
        date: "2023-08-15T18:36:19Z".to_string(),
        description: None,
        stats: Stats { files: 0, dirs: 0, symlinks: 0, size: 0, storage_size: 0, transferred: 0, errors: 0 },
        archives: archives.into_iter().map(|a| (a.path.clone(), a)).collect(),
    }
}

fn steps_of(repository: &Knoxite) -> Vec<(String, Option<Vec<String>>)> {
    repository
        .dump_all_files()
        .unwrap()
        .into_iter()
        .map(|step| match step {
            RestoreStep::CreateDir(path) => (path, None),
            RestoreStep::WriteFile(path, chunks) => (path, Some(chunks)),
        })
        .collect()
}

#[test]
fn password_decrypts_the_config() {
    let json = br#"{"version":4,"volumes":[],"paths":[],"key":"abc"}"#;
    assert_eq!(Config::from_file(&encrypt("password", json), "password"), Ok(json.to_vec()));
}

#[test]
fn wrong_password_decrypts_the_config_to_something_else() {
    let json = br#"{"version":4,"volumes":[],"paths":[],"key":"abc"}"#;
    let document = Config::from_file(&encrypt("password", json), "Password").unwrap();
    assert_eq!(document.len(), json.len());
    assert_ne!(document, json.to_vec());
}

#[test]
fn decryption_keeps_the_length() {
    assert_eq!(Decoder::new_password("p").decrypt(&[]).unwrap(), Vec::<u8>::new());
    assert_eq!(Decoder::new_password("p").decrypt(&[1u8; 33]).unwrap().len(), 33);
}

#[test]
fn config_key_is_used_as_the_text_it_is() {
    let key = "a2V5IGtleSBrZXk=";
    let sealed = encrypt(key, b"chunk bytes");
    assert_eq!(Decoder::new_key(key).decrypt(&sealed), Ok(b"chunk bytes".to_vec()));
    assert_ne!(Decoder::new_key("key key key").decrypt(&sealed), Ok(b"chunk bytes".to_vec()));
}

#[test]
fn password_and_key_ciphers_are_the_same_for_the_same_text() {
    let sealed = encrypt("same", b"content");
    assert_eq!(
        Decoder::new_password("same").decrypt(&sealed),
        Decoder::new_key("same").decrypt(&sealed)
    );
}

#[test]
fn content_is_decompressed_after_decryption() {
    let plain = vec![5u8; 20_000];
    let sealed = encrypt("k", &xz(&plain));
    assert_eq!(Decoder::new_key("k").decrypt_and_decompress(&sealed), Ok(plain));
}

#[test]
fn content_that_is_no_xz_stream_fails_to_decompress() {
    let sealed = encrypt("k", b"not an xz stream");
    assert_eq!(Decoder::new_key("k").decrypt_and_decompress(&sealed), Err(Error::Decompress));
    assert_eq!(
        Decoder::new_key("other").decrypt_and_decompress(&encrypt("k", &xz(b"content"))),
        Err(Error::Decompress)
    );
}

#[test]
fn index_and_snapshot_documents_are_unlocked_by_the_config_key() {
    let config = config(Vec::new());
    let json = br#"{"chunks":{}}"#;
    let sealed = encrypt(&config.key, &xz(json));
    assert_eq!(Index::from_file(&config, &sealed), Ok(json.to_vec()));
    assert_eq!(Snapshot::from_file(&config, &sealed), Ok(json.to_vec()));
}

#[test]
fn raw_chunk_is_decrypted_and_nothing_else() {
    let config = config(Vec::new());
    let chunk = RawChunk::from_file(&config, &encrypt(&config.key, b"raw bytes")).unwrap();
    assert_eq!(chunk.0, b"raw bytes".to_vec());
}

#[test]
fn file_content_is_its_chunks_in_order() {
    let config = config(Vec::new());
    let chunks = vec![
        RawChunk::from_file(&config, &encrypt(&config.key, b"first ")).unwrap(),
        RawChunk::from_file(&config, &encrypt(&config.key, b"second")).unwrap(),
    ];
    assert_eq!(join_all(&chunks), b"first second".to_vec());
}

#[test]
fn archive_types_are_numbered_from_zero() {
    assert_eq!(ArchiveType::from_repr(0), Some(ArchiveType::File));
    assert_eq!(ArchiveType::from_repr(1), Some(ArchiveType::Directory));
    assert_eq!(ArchiveType::from_repr(2), Some(ArchiveType::Symlink));
    assert_eq!(ArchiveType::from_repr(3), None);
    assert_eq!(ArchiveType::from_repr(255), None);
}

#[test]
fn chunk_lies_under_the_first_two_pairs_of_its_hash() {
    let path = repository(Vec::new()).resolve_path("abcdef0123");
    assert_eq!(path, "chunks/ab/cd/abcdef0123.0_1");
    assert_eq!(repository(Vec::new()).resolve_path("abcd"), "chunks/ab/cd/abcd.0_1");
}

#[test]
fn leading_slash_is_stripped_from_an_archive_path() {
    assert_eq!(strip_root("/home/user/file"), "home/user/file");
    assert_eq!(strip_root("relative/file"), "relative/file");
    assert_eq!(strip_root("/"), "");
    assert_eq!(strip_root(""), "");
}

#[test]
fn latest_snapshot_of_a_volume_is_the_last_one_listed() {
    let repository = repository(vec![
        volume("docs", &["mon", "tue", "wed"]),
        volume("empty", &[]),
        volume("music", &["jan"]),
    ]);
    assert_eq!(
        repository.latest_snapshot_paths(),
        vec![
            ("docs".to_string(), "snapshots/wed".to_string()),
            ("music".to_string(), "snapshots/jan".to_string()),
        ]
    );
}

#[test]
fn snapshots_are_filed_under_their_volume() {
    let mut repository = repository(Vec::new());
    repository.load_all(vec![
        ("docs".to_string(), snapshot(Vec::new())),
        ("music".to_string(), snapshot(Vec::new())),
        ("docs".to_string(), snapshot(vec![archive("/a", ArchiveType::Directory, None)])),
    ]);
    assert_eq!(repository.snapshots.len(), 2);
    assert_eq!(repository.snapshots[0].0, "docs");
    assert_eq!(repository.snapshots[0].1.archives.len(), 1);
}

#[test]
fn symlink_is_skipped() {
    let mut repository = repository(Vec::new());
    repository.load_all(vec![(
        "docs".to_string(),
        snapshot(vec![archive("/link", ArchiveType::Symlink, None)]),
    )]);
    assert_eq!(repository.dump_all_files().unwrap().len(), 0);
}

#[test]
fn symlink_with_chunks_is_skipped_too() {
    let link = archive("/link", ArchiveType::Symlink, Some(vec![chunk("x", 0)]));
    assert!(link.step(&repository(Vec::new())).unwrap().is_none());
}

#[test]
fn directory_is_created_and_file_is_written_from_its_chunks() {
    let mut repository = repository(Vec::new());
    repository.load_all(vec![(
        "docs".to_string(),
        snapshot(vec![
            archive("/home", ArchiveType::Directory, None),
            archive("/home/link", ArchiveType::Symlink, None),
            archive(
                "/home/file.txt",
                ArchiveType::File,
                Some(vec![chunk("aabbccdd", 0), chunk("11223344", 1)]),
            ),
            archive("/home/empty", ArchiveType::File, None),
            archive("/home/zero", ArchiveType::File, Some(Vec::new())),
        ]),
    )]);
    assert_eq!(
        steps_of(&repository),
        vec![
            ("home".to_string(), None),
            (
                "home/file.txt".to_string(),
                Some(vec![
                    "chunks/aa/bb/aabbccdd.0_1".to_string(),
                    "chunks/11/22/11223344.0_1".to_string(),
                ])
            ),
            ("home/zero".to_string(), Some(Vec::new())),
        ]
    );
}

#[test]
fn steps_follow_the_snapshots_in_order() {
    let mut repository = repository(Vec::new());
    repository.load_all(vec![
        ("a".to_string(), snapshot(vec![archive("/one", ArchiveType::Directory, None)])),
        ("b".to_string(), snapshot(Vec::new())),
        ("c".to_string(), snapshot(vec![archive("/two", ArchiveType::Directory, None)])),
    ]);
    assert_eq!(steps_of(&repository), vec![("one".to_string(), None), ("two".to_string(), None)]);
}

#[test]
fn chunk_hash_too_short_for_the_store_is_malformed() {
    let mut repository = repository(Vec::new());
    repository.load_all(vec![(
        "docs".to_string(),
        snapshot(vec![
            archive("/ok", ArchiveType::Directory, None),
            archive("/bad", ArchiveType::File, Some(vec![chunk("aabbccdd", 0), chunk("abc", 1)])),
        ]),
    )]);
    assert_eq!(repository.dump_all_files().err(), Some(Error::MalformedMetadata));
}
