use aes_gcm::aead::generic_array::GenericArray;
use aes_gcm::aead::Aead;
use aes_gcm::aead::KeyInit;
use backup_dumper::error::Error;
use backup_dumper::formats::blobbackup::chunk::Chunk;
use backup_dumper::formats::blobbackup::decoder::Decoder;
use backup_dumper::formats::blobbackup::keys::Keys;
use backup_dumper::formats::blobbackup::snapshot::Item;
use backup_dumper::formats::blobbackup::snapshot::ItemType;
use backup_dumper::formats::blobbackup::snapshot::Snapshot;
use backup_dumper::formats::BlobBackup;
use backup_dumper::reassembly::ChunkRange;
use backup_dumper::restore::RestoredFile;

const NONCE: [u8; 16] = [7, 1, 2, 3, 4, 5, 6, 7, 8, 9, 10, 11, 12, 13, 14, 15];

fn seal(key: &[u8], plain: &[u8]) -> Vec<u8> {
    let cipher = aes_gcm::AesGcm::<aes::Aes256, aes::cipher::typenum::U16>::new(
        GenericArray::from_slice(key),
    );
    let sealed = cipher.encrypt(GenericArray::from_slice(&NONCE), plain).unwrap();
    let mut out = NONCE.to_vec();
    out.extend_from_slice(&sealed);
    out
}

fn seal_compressed(key: &[u8], plain: &[u8]) -> Vec<u8> {
    seal(key, &zstd::stream::encode_all(plain, 3).unwrap())
}

fn password_key(password: &str, salt: &[u8]) -> Vec<u8> {
    let mut key = vec![0u8; 32];
    let params = scrypt::Params::new(14, 8, 1, 32).unwrap();
    scrypt::scrypt(password.as_bytes(), salt, &params, &mut key).unwrap();
    key
}

fn keys_with(master_key: &[u8]) -> Keys {
    Keys { key_salt: b"salt".to_vec(), master_key: master_key.to_vec(), sha_key: vec![9; 32] }
}

fn file_item(range: ChunkRange) -> Item {
    Item { item_type: ItemType::File, range: Some(range) }
}

fn snapshot_of(items: Vec<(&str, Item)>) -> Snapshot {
    Snapshot {
        data_format_version: 1,
        snapshot: items.into_iter().map(|(path, item)| (path.to_string(), item)).collect(),
        chunks: vec!["aa00".to_string(), "bb11".to_string()],
    }
}

fn repository_with(snapshots: Vec<(&str, Snapshot)>) -> BlobBackup {
    let mut repository = BlobBackup {
        path: "repo".to_string(),
        keys: keys_with(&[3u8; 32]),
        password: "secret".to_string(),
        snapshots: Vec::new(),
    };
    repository.load_all(snapshots.into_iter().map(|(name, s)| (name.to_string(), s)).collect());
    repository
}

#[test]
fn envelope_with_a_16_byte_nonce_opens() {
    let key = [5u8; 32];
    let decoder = Decoder::new(&key);
    assert_eq!(decoder.decrypt(&seal(&key, b"plain text")), Ok(b"plain text".to_vec()));
}

#[test]
fn envelope_of_an_empty_plaintext_opens_to_nothing() {
    let key = [5u8; 32];
    let sealed = seal(&key, b"");
    assert_eq!(sealed.len(), 32);
    assert_eq!(Decoder::new(&key).decrypt(&sealed), Ok(Vec::new()));
}

#[test]
fn input_of_12_bytes_is_truncated() {
    let decoder = Decoder::new(&[5u8; 32]);
    assert_eq!(decoder.decrypt(&[0u8; 12]), Err(Error::Truncated));
}

#[test]
fn input_without_room_for_a_tag_is_truncated() {
    let decoder = Decoder::new(&[5u8; 32]);
    assert_eq!(decoder.decrypt(&[]), Err(Error::Truncated));
    assert_eq!(decoder.decrypt(&[0u8; 16]), Err(Error::Truncated));
    assert_eq!(decoder.decrypt(&[0u8; 31]), Err(Error::Truncated));
}

#[test]
fn envelope_under_another_key_fails_authentication() {
    let sealed = seal(&[5u8; 32], b"plain text");
    assert_eq!(Decoder::new(&[6u8; 32]).decrypt(&sealed), Err(Error::InvalidAuth));
}

#[test]
fn envelope_with_a_flipped_bit_fails_authentication() {
    let key = [5u8; 32];
    let mut sealed = seal(&key, b"plain text");
    sealed[20] ^= 1;
    assert_eq!(Decoder::new(&key).decrypt(&sealed), Err(Error::InvalidAuth));
}

#[test]
fn envelope_content_is_decompressed() {
    let key = [5u8; 32];
    let plain = vec![42u8; 10_000];
    let sealed = seal_compressed(&key, &plain);
    assert!(sealed.len() < 1000);
    assert_eq!(Decoder::new(&key).decrypt_and_decompress(&sealed), Ok(plain));
}

#[test]
fn envelope_content_that_is_no_zstd_stream_fails_to_decompress() {
    let key = [5u8; 32];
    let sealed = seal(&key, b"not compressed");
    assert_eq!(Decoder::new(&key).decrypt_and_decompress(&sealed), Err(Error::Decompress));
}

#[test]
fn password_unlocks_master_key_and_hash_key() {
    let salt = b"0123456789abcdef".to_vec();
    let master_key = [0x11u8; 32];
    let sha_key = [0x22u8; 40];
    let master_key_file = seal(&password_key("secret", &salt), &master_key);
    let sha_key_file = seal(&master_key, &sha_key);
    let keys = Keys::from_folder(salt.clone(), &master_key_file, &sha_key_file, "secret").unwrap();
    assert_eq!(keys.key_salt, salt);
    assert_eq!(keys.master_key, master_key.to_vec());
    assert_eq!(keys.sha_key, sha_key.to_vec());
}

#[test]
fn wrong_password_fails_authentication_of_the_master_key() {
    let salt = b"0123456789abcdef".to_vec();
    let master_key = [0x11u8; 32];
    let master_key_file = seal(&password_key("secret", &salt), &master_key);
    let sha_key_file = seal(&master_key, &[0x22u8; 32]);
    let keys = Keys::from_folder(salt, &master_key_file, &sha_key_file, "Secret");
    assert_eq!(keys.err(), Some(Error::InvalidAuth));
}

#[test]
fn master_key_of_the_wrong_size_is_invalid() {
    let salt = b"salt".to_vec();
    let master_key_file = seal(&password_key("secret", &salt), &[0x11u8; 31]);
    let keys = Keys::from_folder(salt, &master_key_file, &[0u8; 64], "secret");
    assert_eq!(keys.err(), Some(Error::InvalidKey));
}

#[test]
fn truncated_master_key_file_is_truncated() {
    let keys = Keys::from_folder(b"salt".to_vec(), &[0u8; 12], &[0u8; 64], "secret");
    assert_eq!(keys.err(), Some(Error::Truncated));
}

#[test]
fn repository_opens_with_the_right_password_only() {
    let salt = b"pepper".to_vec();
    let master_key = [0x33u8; 32];
    let master_key_file = seal(&password_key("pw", &salt), &master_key);
    let sha_key_file = seal(&master_key, &[0x44u8; 32]);
    let opened = BlobBackup::from_folder(
        "repo".to_string(),
        "pw".to_string(),
        salt.clone(),
        &master_key_file,
        &sha_key_file,
    )
    .unwrap();
    assert_eq!(opened.keys.master_key, master_key.to_vec());
    assert_eq!(opened.path, "repo");
    assert!(opened.snapshots.is_empty());
    let refused = BlobBackup::from_folder(
        "repo".to_string(),
        "pW".to_string(),
        salt,
        &master_key_file,
        &sha_key_file,
    );
    assert_eq!(refused.err(), Some(Error::InvalidAuth));
}

#[test]
fn chunk_is_decrypted_and_decompressed() {
    let key = [3u8; 32];
    let chunk = Chunk::from_file(&keys_with(&key), &seal_compressed(&key, b"chunk content")).unwrap();
    assert_eq!(chunk.data, b"chunk content".to_vec());
}

#[test]
fn chunk_under_a_master_key_of_the_wrong_size_is_refused() {
    let sealed = seal_compressed(&[3u8; 32], b"chunk content");
    assert_eq!(Chunk::from_file(&keys_with(&[3u8; 16]), &sealed).err(), Some(Error::InvalidKey));
}

#[test]
fn snapshot_document_is_decrypted_and_decompressed() {
    let key = [3u8; 32];
    let json = br#"{"data_format_version":1,"snapshot":{},"chunks":[]}"#;
    let document = Snapshot::from_file(&keys_with(&key), &seal_compressed(&key, json));
    assert_eq!(document, Ok(json.to_vec()));
}

#[test]
fn chunk_lies_under_chunks() {
    let repository = repository_with(Vec::new());
    assert_eq!(repository.resolve_path("ab12"), "chunks/ab12");
}

#[test]
fn chunk_paths_follow_the_snapshot() {
    let repository = repository_with(vec![("2023-08-15-18-36-19", snapshot_of(Vec::new()))]);
    assert_eq!(repository.chunk_paths(0), vec!["chunks/aa00".to_string(), "chunks/bb11".to_string()]);
}

#[test]
fn latest_snapshot_is_the_one_with_the_latest_name() {
    let repository = repository_with(vec![
        ("2023-08-15-18-36-19", snapshot_of(Vec::new())),
        ("2024-01-01-00-00-00", snapshot_of(Vec::new())),
        ("2023-12-31-23-59-59", snapshot_of(Vec::new())),
    ]);
    assert_eq!(repository.latest_snapshot(), Ok(1));
}

#[test]
fn snapshot_name_that_is_no_date_is_malformed() {
    let repository = repository_with(vec![
        ("2023-08-15-18-36-19", snapshot_of(Vec::new())),
        ("latest", snapshot_of(Vec::new())),
    ]);
    assert_eq!(repository.latest_snapshot(), Err(Error::MalformedMetadata));
    assert_eq!(repository.dump_all_files(&Vec::new()).err(), Some(Error::MalformedMetadata));
}

#[test]
fn snapshot_loaded_twice_under_one_name_is_kept_once() {
    let repository = repository_with(vec![
        ("2023-08-15-18-36-19", snapshot_of(Vec::new())),
        ("2023-08-15-18-36-19", snapshot_of(vec![("dir", Item { item_type: ItemType::Dir, range: None })])),
    ]);
    assert_eq!(repository.snapshots.len(), 1);
    assert_eq!(repository.snapshots[0].1.snapshot.len(), 1);
}

#[test]
fn file_over_two_chunks_is_restored_under_its_leaf_name() {
    let hello = file_item(ChunkRange { start_chunk: 0, start_offset: 0, end_chunk: 1, end_offset: 5 });
    let repository = repository_with(vec![(
        "2023-08-15-18-36-19",
        snapshot_of(vec![("/home/user/hello.txt", hello)]),
    )]);
    let chunks = vec![Chunk { data: b"hello ".to_vec() }, Chunk { data: b"world!!".to_vec() }];
    assert_eq!(
        repository.dump_all_files(&chunks),
        Ok(vec![RestoredFile { path: "hello.txt".to_string(), data: b"hello world".to_vec() }])
    );
}

#[test]
fn directories_are_passed_over_and_files_keep_their_order() {
    let snapshot = snapshot_of(vec![
        ("/a", Item { item_type: ItemType::Dir, range: None }),
        ("/a/one", file_item(ChunkRange { start_chunk: 0, start_offset: 1, end_chunk: 0, end_offset: 3 })),
        ("/a/b", Item { item_type: ItemType::Dir, range: None }),
        ("/a/b/two", file_item(ChunkRange { start_chunk: 1, start_offset: 0, end_chunk: 1, end_offset: 2 })),
    ]);
    let chunks = vec![Chunk { data: b"0123".to_vec() }, Chunk { data: b"abcd".to_vec() }];
    assert_eq!(
        snapshot.restore(&chunks),
        Ok(vec![
            RestoredFile { path: "one".to_string(), data: b"12".to_vec() },
            RestoredFile { path: "two".to_string(), data: b"ab".to_vec() },
        ])
    );
}

#[test]
fn only_the_latest_snapshot_is_restored() {
    let older = snapshot_of(vec![(
        "/old",
        file_item(ChunkRange { start_chunk: 0, start_offset: 0, end_chunk: 0, end_offset: 1 }),
    )]);
    let newer = snapshot_of(vec![(
        "/new",
        file_item(ChunkRange { start_chunk: 0, start_offset: 0, end_chunk: 0, end_offset: 2 }),
    )]);
    let repository =
        repository_with(vec![("2024-02-02-10-00-00", newer), ("2023-02-02-10-00-00", older)]);
    let chunks = vec![Chunk { data: b"xyz".to_vec() }];
    assert_eq!(
        repository.dump_all_files(&chunks),
        Ok(vec![RestoredFile { path: "new".to_string(), data: b"xy".to_vec() }])
    );
}

#[test]
fn file_without_a_range_is_malformed() {
    let snapshot = snapshot_of(vec![("/a", Item { item_type: ItemType::File, range: None })]);
    assert_eq!(snapshot.restore(&Vec::new()).err(), Some(Error::MalformedMetadata));
}

#[test]
fn file_whose_range_misses_the_chunks_is_malformed() {
    let snapshot = snapshot_of(vec![(
        "/a",
        file_item(ChunkRange { start_chunk: 0, start_offset: 0, end_chunk: 3, end_offset: 0 }),
    )]);
    let chunks = vec![Chunk { data: b"xyz".to_vec() }];
    assert_eq!(snapshot.restore(&chunks).err(), Some(Error::MalformedMetadata));
}

#[test]
fn restoring_twice_gives_the_same_files() {
    let item = file_item(ChunkRange { start_chunk: 0, start_offset: 0, end_chunk: 1, end_offset: 1 });
    let repository = repository_with(vec![("2023-08-15-18-36-19", snapshot_of(vec![("/f", item)]))]);
    let chunks = vec![Chunk { data: b"ab".to_vec() }, Chunk { data: b"cd".to_vec() }];
    assert_eq!(repository.dump_all_files(&chunks), repository.dump_all_files(&chunks));
}

#[test]
fn plaintext_cut_into_sealed_chunks_comes_back_verbatim() {
    let key = [3u8; 32];
    let keys = keys_with(&key);
    let plaintext: Vec<u8> = (0..5000u32).map(|i| (i % 251) as u8).collect();
    let cuts = [0usize, 1200, 1200, 4100, 5000];
    let mut chunks = Vec::new();
    for pair in cuts.windows(2) {
        let sealed = seal_compressed(&key, &plaintext[pair[0]..pair[1]]);
        chunks.push(Chunk::from_file(&keys, &sealed).unwrap());
    }
    let whole = file_item(ChunkRange { start_chunk: 0, start_offset: 0, end_chunk: 3, end_offset: 900 });
    let repository =
        repository_with(vec![("2023-08-15-18-36-19", snapshot_of(vec![("/data.bin", whole)]))]);
    assert_eq!(
        repository.dump_all_files(&chunks),
        Ok(vec![RestoredFile { path: "data.bin".to_string(), data: plaintext }])
    );
}
