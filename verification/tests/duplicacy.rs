use aes_gcm::aead::generic_array::GenericArray;
use aes_gcm::aead::Aead;
use aes_gcm::aead::KeyInit;
use backup_dumper::compress::lz4_accepts;
use backup_dumper::error::Error;
use backup_dumper::formats::duplicacy::config::read_wrap_header;
use backup_dumper::formats::duplicacy::config::Config;
use backup_dumper::formats::duplicacy::data::Data;
use backup_dumper::formats::duplicacy::decoder::expand;
use backup_dumper::formats::duplicacy::decoder::unpad;
use backup_dumper::formats::duplicacy::decoder::Decoder;
use backup_dumper::formats::duplicacy::entry::Entry;
use backup_dumper::formats::duplicacy::error::Error as FormatError;
use backup_dumper::formats::duplicacy::index::Index;
use backup_dumper::formats::duplicacy::revision::Revision;
use backup_dumper::formats::Duplicacy;
use backup_dumper::restore::RestoredFile;
use blake2::digest::Mac;
use blake2::Digest;

const NONCE: [u8; 12] = [9, 8, 7, 6, 5, 4, 3, 2, 1, 0, 1, 2];

fn padded(content: &[u8], padding: usize) -> Vec<u8> {
    let mut plain = content.to_vec();
    plain.extend(std::iter::repeat(padding as u8).take(padding));
    plain
}

fn seal_body(key: &[u8; 32], plain: &[u8]) -> Vec<u8> {
    let cipher = aes_gcm::Aes256Gcm::new(GenericArray::from_slice(key));
    let mut out = NONCE.to_vec();
    out.extend_from_slice(&cipher.encrypt(GenericArray::from_slice(&NONCE), plain).unwrap());
    out
}

fn seal(key: &[u8; 32], content: &[u8], padding: usize) -> Vec<u8> {
    let mut out = b"duplicacy\x00".to_vec();
    out.extend_from_slice(&seal_body(key, &padded(content, padding)));
    out
}

fn lz4(content: &[u8]) -> Vec<u8> {
    let mut out = b"LZ4 ".to_vec();
    out.extend_from_slice(&lz4_flex::compress_prepend_size(content));
    out
}

fn mac(key: &[u8], msg: &[u8]) -> [u8; 32] {
    let mut mac =
        blake2::Blake2bMac::<blake2::digest::consts::U32>::new_with_salt_and_personal(key, &[], &[])
            .unwrap();
    mac.update(msg);
    mac.finalize().into_bytes().into()
}

fn blake2b(data: &[u8]) -> Vec<u8> {
    blake2::Blake2b::<blake2::digest::consts::U32>::digest(data).to_vec()
}

fn config(encrypted: bool) -> Config {
    Config {
        compression_level: 100,
        average_chunk_size: 4194304,
        max_chunk_size: 16777216,
        min_chunk_size: 1048576,
        chunk_seed: b"seed".to_vec(),
        fixed_nesting: true,
        hash_key: b"hash-key".to_vec(),
        id_key: b"id-key".to_vec(),
        chunk_key: b"chunk-key".to_vec(),
        file_key: b"file-key".to_vec(),
        data_shards: 0,
        parity_shards: 0,
        rsa_public_key: String::new(),
        encrypted,
    }
}

fn entry(path: &str, range: (i32, i32, i32, i32), hash: Vec<u8>) -> Entry {
    Entry {
        path: path.to_string(),
        size: 0,
        time: 0,
        mode: 0o644,
        link: String::new(),
        hash,
        uid: 0,
        gid: 0,
        start_chunk: range.0,
        start_offset: range.1,
        end_chunk: range.2,
        end_offset: range.3,
        attributes: Vec::new(),
    }
}

fn revision(number: i32) -> Revision {
    Revision {
        version: 1,
        id: "host".to_string(),
        revision: number,
        options: String::new(),
        tag: String::new(),
        start_time: 0,
        end_time: 0,
        file_size: 0,
        number_of_files: 0,
        files: Vec::new(),
        chunks: Vec::new(),
        lengths: Vec::new(),
    }
}

fn write_entry(out: &mut Vec<u8>, path: &str, hash_hex: &str, range: (i32, i32, i32, i32), attributes: &[(&str, &[u8])]) {
    rmp::encode::write_str(out, path).unwrap();
    rmp::encode::write_sint(out, 1234).unwrap();
    rmp::encode::write_sint(out, 1_692_117_379).unwrap();
    rmp::encode::write_sint(out, 0o644).unwrap();
    rmp::encode::write_str(out, "").unwrap();
    rmp::encode::write_str(out, hash_hex).unwrap();
    rmp::encode::write_sint(out, range.0 as i64).unwrap();
    rmp::encode::write_sint(out, range.1 as i64).unwrap();
    rmp::encode::write_sint(out, range.2 as i64).unwrap();
    rmp::encode::write_sint(out, range.3 as i64).unwrap();
    rmp::encode::write_sint(out, 1000).unwrap();
    rmp::encode::write_sint(out, -1).unwrap();
    rmp::encode::write_sint(out, attributes.len() as i64).unwrap();
    for (name, value) in attributes {
        rmp::encode::write_str(out, name).unwrap();
        rmp::encode::write_str_len(out, value.len() as u32).unwrap();
        out.extend_from_slice(value);
    }
}

#[test]
fn padding_byte_of_zero_strips_256_bytes() {
    let mut plain = vec![0xabu8; 44];
    plain.extend_from_slice(&[0u8; 256]);
    assert_eq!(unpad(plain), Ok(vec![0xabu8; 44]));
}

#[test]
fn plaintext_of_256_zero_bytes_unpads_to_nothing() {
    assert_eq!(unpad(vec![0u8; 256]), Ok(Vec::new()));
}

#[test]
fn padding_byte_gives_the_number_of_bytes_to_strip() {
    assert_eq!(unpad(padded(b"content", 1)), Ok(b"content".to_vec()));
    assert_eq!(unpad(padded(b"content", 255)), Ok(b"content".to_vec()));
    assert_eq!(unpad(vec![3, 3, 3]), Ok(Vec::new()));
}

#[test]
fn plaintext_shorter_than_its_padding_is_truncated() {
    assert_eq!(unpad(Vec::new()), Err(Error::Truncated));
    assert_eq!(unpad(vec![1, 2, 3, 4, 6]), Err(Error::Truncated));
    assert_eq!(unpad(vec![1, 2, 3, 4, 5]), Ok(Vec::new()));
    assert_eq!(unpad(vec![0u8; 255]), Err(Error::Truncated));
}

#[test]
fn content_with_an_lz4_mark_is_decompressed() {
    let content = vec![7u8; 3000];
    assert_eq!(expand(lz4(&content)), Ok(content));
}

#[test]
fn content_without_an_lz4_mark_is_left_alone() {
    assert_eq!(expand(b"plain".to_vec()), Ok(b"plain".to_vec()));
    assert_eq!(expand(b"LZ4".to_vec()), Ok(b"LZ4".to_vec()));
    assert_eq!(expand(Vec::new()), Ok(Vec::new()));
}

#[test]
fn content_with_a_broken_lz4_block_fails_to_decompress() {
    assert_eq!(expand(b"LZ4 \x05\x00\x00\x00\x50ab".to_vec()), Err(Error::Decompress));
    assert_eq!(expand(b"LZ4 \x05\x00".to_vec()), Err(Error::Decompress));
    assert_eq!(expand(b"LZ4 ".to_vec()), Err(Error::Decompress));
}

#[test]
fn sealed_object_opens_unpads_and_decompresses() {
    let key = [1u8; 32];
    let content = b"some file bytes, some file bytes, some file bytes".to_vec();
    let object = seal(&key, &lz4(&content), 13);
    assert_eq!(Decoder::new(Some(key)).decode(&object), Ok(content));
}

#[test]
fn sealed_object_without_compression_opens_to_its_content() {
    let key = [1u8; 32];
    assert_eq!(Decoder::new(Some(key)).decode(&seal(&key, b"raw", 256)), Ok(b"raw".to_vec()));
}

#[test]
fn object_without_an_envelope_is_only_decompressed() {
    let content = b"unencrypted repository".to_vec();
    assert_eq!(Decoder::new(None).decode(&lz4(&content)), Ok(content));
}

#[test]
fn object_without_the_magic_is_refused_under_a_key() {
    let decoder = Decoder::new(Some([1u8; 32]));
    assert_eq!(decoder.decode(&lz4(b"unencrypted object in an encrypted repository")), Err(Error::BadMagic));
    assert_eq!(decoder.decode(b"Duplicacy\x00 and so on, long enough for all"), Err(Error::BadMagic));
    assert_eq!(decoder.decode(b"duplicac"), Err(Error::Truncated));
    assert_eq!(decoder.decode(b""), Err(Error::Truncated));
}

#[test]
fn object_with_neither_envelope_nor_compression_is_left_alone() {
    assert_eq!(Decoder::new(None).decode(b"{}"), Ok(b"{}".to_vec()));
    assert_eq!(Decoder::new(None).decode(b""), Ok(Vec::new()));
}

#[test]
fn envelope_version_other_than_zero_is_refused() {
    let key = [1u8; 32];
    let mut object = seal(&key, b"content", 4);
    object[9] = 1;
    assert_eq!(
        Decoder::new(Some(key)).decode(&object),
        Err(Error::Duplicacy(FormatError::NonzeroHeaderVersion))
    );
}

#[test]
fn sealed_object_needs_a_key() {
    let object = seal(&[1u8; 32], b"content", 4);
    assert_eq!(
        Decoder::new(None).decode(&object),
        Err(Error::Duplicacy(FormatError::PasswordRequired))
    );
}

#[test]
fn sealed_object_under_another_key_fails_authentication() {
    let object = seal(&[1u8; 32], b"content", 4);
    assert_eq!(Decoder::new(Some([2u8; 32])).decode(&object), Err(Error::InvalidAuth));
}

#[test]
fn envelope_cut_short_is_truncated() {
    let key = [1u8; 32];
    let object = seal(&key, b"content", 4);
    assert_eq!(Decoder::new(Some(key)).decode(&object[..8]), Err(Error::Truncated));
    assert_eq!(Decoder::new(Some(key)).decode(&object[..9]), Err(Error::Truncated));
    assert_eq!(Decoder::new(Some(key)).decode(&object[..21]), Err(Error::Truncated));
    assert_eq!(Decoder::new(Some(key)).decode(&object[..37]), Err(Error::Truncated));
}

#[test]
fn config_header_version_0_has_fixed_salt_and_iterations() {
    let header = read_wrap_header(b"duplicacy\x00sealed body").unwrap();
    assert_eq!(header.salt, b"duplicacy".to_vec());
    assert_eq!(header.iterations, 16384);
    assert_eq!(header.body_at, 10);
}

#[test]
fn config_header_version_1_stores_salt_and_iterations() {
    let mut file = b"duplicacy\x01".to_vec();
    let salt: Vec<u8> = (100..132).collect();
    file.extend_from_slice(&salt);
    file.extend_from_slice(&200_000u32.to_le_bytes());
    file.extend_from_slice(b"sealed body");
    let header = read_wrap_header(&file).unwrap();
    assert_eq!(header.salt, salt);
    assert_eq!(header.iterations, 200_000);
    assert_eq!(header.body_at, 46);
}

#[test]
fn config_header_iterations_are_little_endian() {
    let mut file = b"duplicacy\x01".to_vec();
    file.extend_from_slice(&[0u8; 32]);
    file.extend_from_slice(&[0x01, 0x02, 0x03, 0x04]);
    assert_eq!(read_wrap_header(&file).unwrap().iterations, 0x0403_0201);
}

#[test]
fn config_header_version_2_fails_fast() {
    assert_eq!(
        read_wrap_header(b"duplicacy\x02").err(),
        Some(Error::Duplicacy(FormatError::InvalidHeaderVersion(2)))
    );
    assert_eq!(
        read_wrap_header(b"duplicacy\xff and much more that is never looked at").err(),
        Some(Error::Duplicacy(FormatError::InvalidHeaderVersion(255)))
    );
}

#[test]
fn config_header_cut_short_is_truncated() {
    assert_eq!(read_wrap_header(b"duplicacy").err(), Some(Error::Truncated));
    let mut file = b"duplicacy\x01".to_vec();
    file.extend_from_slice(&[0u8; 35]);
    assert_eq!(read_wrap_header(&file).err(), Some(Error::Truncated));
}

#[test]
fn config_without_the_magic_is_its_own_document() {
    let json = br#"{"compression-level":100}"#;
    assert!(!Config::is_wrapped(json));
    assert_eq!(Config::from_file(json, None), Ok(json.to_vec()));
    assert_eq!(Config::from_file(json, Some("unused".to_string())), Ok(json.to_vec()));
    assert_eq!(Config::from_file(b"short", None), Ok(b"short".to_vec()));
}

#[test]
fn wrapped_config_needs_a_password() {
    let file = b"duplicacy\x07whatever";
    assert!(Config::is_wrapped(file));
    assert_eq!(
        Config::from_file(file, None),
        Err(Error::Duplicacy(FormatError::PasswordRequired))
    );
}

#[test]
fn wrapped_config_version_0_opens_with_the_password() {
    let mut key = [0u8; 32];
    pbkdf2::pbkdf2_hmac::<sha2::Sha256>(b"hunter2", b"duplicacy", 16384, &mut key);
    let json = br#"{"compression-level":100}"#;
    let mut file = b"duplicacy\x00".to_vec();
    file.extend_from_slice(&seal_body(&key, &padded(json, 7)));
    assert_eq!(Config::from_file(&file, Some("hunter2".to_string())), Ok(json.to_vec()));
}

#[test]
fn wrapped_config_version_1_opens_with_the_password() {
    let salt = [0x5au8; 32];
    let mut key = [0u8; 32];
    pbkdf2::pbkdf2_hmac::<sha2::Sha256>(b"hunter2", &salt, 200_000, &mut key);
    let json = br#"{"compression-level":100,"chunk-seed":"00"}"#;
    let mut file = b"duplicacy\x01".to_vec();
    file.extend_from_slice(&salt);
    file.extend_from_slice(&200_000u32.to_le_bytes());
    file.extend_from_slice(&seal_body(&key, &padded(json, 21)));
    assert_eq!(Config::from_file(&file, Some("hunter2".to_string())), Ok(json.to_vec()));
}

#[test]
fn wrapped_config_with_a_wrong_password_fails_authentication() {
    let mut key = [0u8; 32];
    pbkdf2::pbkdf2_hmac::<sha2::Sha256>(b"hunter2", b"duplicacy", 16384, &mut key);
    let mut file = b"duplicacy\x00".to_vec();
    file.extend_from_slice(&seal_body(&key, &padded(b"{}", 7)));
    assert_eq!(Config::from_file(&file, Some("hunter3".to_string())), Err(Error::InvalidAuth));
}

#[test]
fn derived_key_is_the_keyed_hash_of_the_key_under_the_derivation() {
    let derived = config(true).derive_key(b"chunk-key", b"content hash").unwrap();
    assert_eq!(derived, mac(b"content hash", b"chunk-key"));
    assert_ne!(derived, mac(b"chunk-key", b"content hash"));
}

#[test]
fn derivation_longer_than_64_bytes_is_refused() {
    assert!(config(true).derive_key(b"key", &[1u8; 64]).is_ok());
    assert_eq!(config(true).derive_key(b"key", &[1u8; 65]).err(), Some(Error::InvalidKey));
    assert_eq!(config(true).derive_key(b"key", &[1u8; 200]).err(), Some(Error::InvalidKey));
}

#[test]
fn chunk_id_is_the_keyed_hash_of_the_content_hash_under_the_id_key() {
    let id = config(true).get_chunk_id_from_hash(b"content hash").unwrap();
    assert_eq!(id, mac(b"id-key", b"content hash").to_vec());
}

#[test]
fn chunk_lies_under_the_first_two_digits_of_its_id() {
    let id = hex::encode(mac(b"id-key", b"content hash"));
    let path = config(true).resolve_path_from_hash(b"content hash").unwrap();
    assert_eq!(path, format!("chunks/{}/{}", &id[..2], &id[2..]));
    assert_eq!(path.len(), "chunks/".len() + 2 + 1 + 62);
}

#[test]
fn chunk_paths_follow_the_hashes() {
    let repository = Duplicacy::from_folder("repo".to_string(), config(false));
    let hashes = vec![b"one".to_vec(), b"two".to_vec()];
    let paths = repository.chunk_paths(&hashes).unwrap();
    assert_eq!(paths.len(), 2);
    assert_eq!(paths[0], config(false).resolve_path_from_hash(b"one").unwrap());
    assert_eq!(paths[1], config(false).resolve_path_from_hash(b"two").unwrap());
}

#[test]
fn data_chunk_of_an_encrypted_repository_is_sealed_under_its_own_key() {
    let hash = b"the content hash of the chunk...";
    let key = mac(hash, b"chunk-key");
    let content = vec![1u8; 700];
    let file = seal(&key, &lz4(&content), 9);
    assert_eq!(Data::from_file(&config(true), &file, hash).unwrap().data, content);
    assert_eq!(
        Data::from_file(&config(true), &file, b"another hash").err(),
        Some(Error::InvalidAuth)
    );
    assert_eq!(
        Data::from_file(&config(false), &file, hash).err(),
        Some(Error::Duplicacy(FormatError::PasswordRequired))
    );
}

#[test]
fn data_chunk_of_an_unencrypted_repository_is_only_compressed() {
    let content = vec![1u8; 700];
    assert_eq!(Data::from_file(&config(false), &lz4(&content), b"hash").unwrap().data, content);
}

#[test]
fn entries_are_read_one_after_the_other() {
    let mut bytes = Vec::new();
    write_entry(&mut bytes, "dir/a.txt", "00ff", (0, 1, 2, 3), &[]);
    write_entry(&mut bytes, "b", "", (4, 5, 6, 70000), &[("user.x", b"\xff\xfe"), ("y", b"")]);
    let entries = Entry::parse(&bytes).unwrap();
    assert_eq!(entries.len(), 2);
    assert_eq!(entries[0].path, "dir/a.txt");
    assert_eq!(entries[0].size, 1234);
    assert_eq!(entries[0].time, 1_692_117_379);
    assert_eq!(entries[0].mode, 0o644);
    assert_eq!(entries[0].link, "");
    assert_eq!(entries[0].hash, vec![0x00, 0xff]);
    assert_eq!(
        (entries[0].start_chunk, entries[0].start_offset, entries[0].end_chunk, entries[0].end_offset),
        (0, 1, 2, 3)
    );
    assert_eq!((entries[0].uid, entries[0].gid), (1000, -1));
    assert!(entries[0].attributes.is_empty());
    assert_eq!(entries[1].path, "b");
    assert_eq!(entries[1].hash, Vec::<u8>::new());
    assert_eq!(entries[1].end_offset, 70000);
    assert_eq!(
        entries[1].attributes,
        vec![("user.x".to_string(), vec![0xff, 0xfe]), ("y".to_string(), Vec::new())]
    );
}

#[test]
fn no_bytes_hold_no_entries() {
    assert_eq!(Entry::parse(&[]).unwrap().len(), 0);
}

#[test]
fn entry_cut_short_is_malformed() {
    let mut bytes = Vec::new();
    write_entry(&mut bytes, "a", "00", (0, 0, 0, 0), &[("k", b"value")]);
    for cut in 1..bytes.len() {
        assert_eq!(Entry::parse(&bytes[..cut]).err(), Some(Error::MalformedMetadata), "cut at {}", cut);
    }
    assert!(Entry::parse(&bytes).is_ok());
}

#[test]
fn entry_with_a_field_of_the_wrong_type_is_malformed() {
    let mut bytes = Vec::new();
    rmp::encode::write_sint(&mut bytes, 5).unwrap();
    assert_eq!(Entry::parse(&bytes).err(), Some(Error::MalformedMetadata));
}

#[test]
fn entry_with_a_hash_that_is_no_hex_is_malformed() {
    let mut bytes = Vec::new();
    write_entry(&mut bytes, "a", "xyz", (0, 0, 0, 0), &[]);
    assert_eq!(Entry::parse(&bytes).err(), Some(Error::MalformedMetadata));
}

#[test]
fn entry_with_a_number_too_large_for_its_field_is_malformed() {
    let mut bytes = Vec::new();
    rmp::encode::write_str(&mut bytes, "a").unwrap();
    for _ in 0..3 {
        rmp::encode::write_sint(&mut bytes, 1).unwrap();
    }
    rmp::encode::write_str(&mut bytes, "").unwrap();
    rmp::encode::write_str(&mut bytes, "").unwrap();
    rmp::encode::write_sint(&mut bytes, 1i64 << 31).unwrap();
    for _ in 0..6 {
        rmp::encode::write_sint(&mut bytes, 0).unwrap();
    }
    assert_eq!(Entry::parse(&bytes).err(), Some(Error::MalformedMetadata));
}

#[test]
fn entry_with_a_path_longer_than_5000_bytes_is_malformed() {
    let mut bytes = Vec::new();
    write_entry(&mut bytes, &"p".repeat(5000), "", (0, 0, 0, 0), &[]);
    assert_eq!(Entry::parse(&bytes).unwrap()[0].path.len(), 5000);
    let mut bytes = Vec::new();
    write_entry(&mut bytes, &"p".repeat(5001), "", (0, 0, 0, 0), &[]);
    assert_eq!(Entry::parse(&bytes).err(), Some(Error::MalformedMetadata));
}

#[test]
fn entry_chunk_is_decoded_before_it_is_read() {
    let mut bytes = Vec::new();
    write_entry(&mut bytes, "a", "0a", (0, 0, 0, 0), &[]);
    let entries = Entry::from_file(&config(false), &lz4(&bytes), b"hash").unwrap();
    assert_eq!(entries.len(), 1);
    assert_eq!(entries[0].hash, vec![0x0a]);
}

#[test]
fn index_chunk_lists_hashes_in_hex() {
    let index = Index::parse(br#"["0001", "ff", ""]"#).unwrap();
    assert_eq!(index.hashes, vec![vec![0, 1], vec![0xff], vec![]]);
}

#[test]
fn index_chunk_that_is_no_list_of_hex_texts_is_malformed() {
    assert_eq!(Index::parse(br#"{"hashes": []}"#).err(), Some(Error::MalformedMetadata));
    assert_eq!(Index::parse(br#"["zz"]"#).err(), Some(Error::MalformedMetadata));
    assert_eq!(Index::parse(br#"[1, 2]"#).err(), Some(Error::MalformedMetadata));
    assert_eq!(Index::parse(b"").err(), Some(Error::MalformedMetadata));
}

#[test]
fn index_chunk_is_decoded_before_it_is_read() {
    let index = Index::from_file(&config(false), &lz4(br#"["abcd"]"#), b"hash").unwrap();
    assert_eq!(index.hashes, vec![vec![0xab, 0xcd]]);
}

#[test]
fn data_chunks_are_counted_through_the_index_chunks_in_order() {
    let indexes = vec![
        Index { hashes: vec![vec![1], vec![2]] },
        Index { hashes: Vec::new() },
        Index { hashes: vec![vec![3]] },
    ];
    assert_eq!(Duplicacy::data_chunk_hashes(indexes), vec![vec![1], vec![2], vec![3]]);
}

#[test]
fn revision_is_sealed_under_a_key_derived_from_its_path() {
    let key = mac(b"snapshots/host/7", b"file-key");
    let json = br#"{"id":"host","revision":7}"#.to_vec();
    let file = seal(&key, &lz4(&json), 3);
    let path = vec!["repo".to_string(), "snapshots".to_string(), "host".to_string(), "7".to_string()];
    assert_eq!(Revision::from_file(&config(true), &file, &path), Ok(json));
    let other = vec!["snapshots".to_string(), "host".to_string(), "8".to_string()];
    assert_eq!(Revision::from_file(&config(true), &file, &other), Err(Error::InvalidAuth));
}

#[test]
fn revision_of_an_unencrypted_repository_needs_no_path() {
    let json = br#"{"id":"host","revision":7}"#.to_vec();
    assert_eq!(Revision::from_file(&config(false), &lz4(&json), &Vec::new()), Ok(json));
}

#[test]
fn latest_revision_has_the_greatest_number() {
    assert_eq!(Duplicacy::latest_revision(&Vec::new()), None);
    assert_eq!(Duplicacy::latest_revision(&vec![revision(3), revision(10), revision(2)]), Some(1));
    assert_eq!(Duplicacy::latest_revision(&vec![revision(4), revision(4), revision(1)]), Some(1));
    assert_eq!(Duplicacy::latest_revision(&vec![revision(-4), revision(-5)]), Some(0));
}

#[test]
fn revisions_are_taken_in_place_of_those_loaded_before() {
    let mut repository = Duplicacy::from_folder("repo".to_string(), config(false));
    repository.load_all(vec![("a".to_string(), vec![revision(1)])]);
    repository.load_all(vec![
        ("b".to_string(), vec![revision(1), revision(2)]),
        ("c".to_string(), Vec::new()),
        ("b".to_string(), vec![revision(5)]),
    ]);
    assert_eq!(repository.snapshots.len(), 2);
    assert_eq!(repository.snapshots[0].0, "b");
    assert_eq!(repository.snapshots[0].1.len(), 1);
    assert_eq!(repository.snapshots[0].1[0].revision, 5);
    assert_eq!(repository.snapshots[1].0, "c");
}

#[test]
fn file_within_one_chunk_is_the_bytes_between_its_offsets() {
    let chunks: Vec<Data> =
        (0..5u8).map(|n| Data { data: (0..=255u8).map(|b| b.wrapping_add(n)).cycle().take(300).collect() }).collect();
    let expected = chunks[3].data[100..250].to_vec();
    let file = entry("docs/report.txt", (3, 100, 3, 250), blake2b(&expected));
    let repository = Duplicacy::from_folder("repo".to_string(), config(false));
    let files = repository.dump_all_files("host", &vec![file], &chunks).unwrap();
    assert_eq!(files.len(), 1);
    assert_eq!(files[0].data.len(), 150);
    assert_eq!(files[0], RestoredFile { path: "host/docs/report.txt".to_string(), data: expected });
}

#[test]
fn file_over_several_chunks_is_checked_against_its_hash() {
    let chunks = vec![
        Data { data: b"abcd".to_vec() },
        Data { data: b"efgh".to_vec() },
        Data { data: b"ijkl".to_vec() },
    ];
    let file = entry("f", (0, 2, 2, 1), blake2b(b"cdefghi"));
    assert_eq!(file.assemble(&chunks), Ok(b"cdefghi".to_vec()));
    assert_eq!(file.restore(&chunks), Ok(b"cdefghi".to_vec()));
}

#[test]
fn file_that_does_not_hash_to_its_entry_is_refused() {
    let chunks = vec![Data { data: b"abcd".to_vec() }];
    let file = entry("f", (0, 0, 0, 4), blake2b(b"abcD"));
    assert_eq!(
        file.restore(&chunks),
        Err(Error::Duplicacy(FormatError::MismatchedHash))
    );
    let repository = Duplicacy::from_folder("repo".to_string(), config(false));
    let good = entry("g", (0, 0, 0, 4), blake2b(b"abcd"));
    assert_eq!(
        repository.dump_all_files("host", &vec![good, file], &chunks).err(),
        Some(Error::Duplicacy(FormatError::MismatchedHash))
    );
}

#[test]
fn entry_that_ends_before_it_starts_has_no_bytes() {
    let chunks = vec![Data { data: b"abcd".to_vec() }];
    assert_eq!(entry("f", (1, 0, 0, 0), Vec::new()).assemble(&chunks), Ok(Vec::new()));
    assert_eq!(entry("f", (0, 0, -1, 0), Vec::new()).assemble(&chunks), Ok(Vec::new()));
}

#[test]
fn entry_with_a_negative_number_is_malformed() {
    let chunks = vec![Data { data: b"abcd".to_vec() }];
    assert_eq!(entry("f", (-1, 0, 0, 0), Vec::new()).assemble(&chunks), Err(Error::MalformedMetadata));
    assert_eq!(entry("f", (0, -1, 0, 0), Vec::new()).assemble(&chunks), Err(Error::MalformedMetadata));
    assert_eq!(entry("f", (0, 0, 0, -1), Vec::new()).assemble(&chunks), Err(Error::MalformedMetadata));
}

#[test]
fn entry_whose_range_misses_the_chunks_is_malformed() {
    let chunks = vec![Data { data: b"abcd".to_vec() }];
    assert_eq!(entry("f", (0, 0, 1, 0), Vec::new()).assemble(&chunks), Err(Error::MalformedMetadata));
    assert_eq!(entry("f", (0, 0, 0, 5), Vec::new()).assemble(&chunks), Err(Error::MalformedMetadata));
}

#[test]
fn plaintext_cut_into_sealed_chunks_is_restored_and_checked() {
    let config = config(true);
    let plaintext: Vec<u8> = (0..9000u32).map(|i| (i * 7 % 253) as u8).collect();
    let cuts = [0usize, 4000, 7500, 9000];
    let mut chunks = Vec::new();
    for pair in cuts.windows(2) {
        let content = &plaintext[pair[0]..pair[1]];
        let hash = blake2b(content);
        let key = mac(&hash, &config.chunk_key);
        let file = seal(&key, &lz4(content), 1 + pair[0] % 200);
        chunks.push(Data::from_file(&config, &file, &hash).unwrap());
    }
    let whole = entry("all.bin", (0, 0, 2, 1500), blake2b(&plaintext));
    let middle = entry("part.bin", (0, 3000, 1, 500), blake2b(&plaintext[3000..4500]));
    let repository = Duplicacy::from_folder("repo".to_string(), config);
    assert_eq!(
        repository.dump_all_files("host", &vec![whole, middle], &chunks),
        Ok(vec![
            RestoredFile { path: "host/all.bin".to_string(), data: plaintext.clone() },
            RestoredFile { path: "host/part.bin".to_string(), data: plaintext[3000..4500].to_vec() },
        ])
    );
}

fn block_with_run(run: usize) -> Vec<u8> {
    let mut block = vec![16, 0, 0, 0, 0xf0];
    block.extend(std::iter::repeat(0xffu8).take(run));
    block.push(0);
    block
}

#[test]
fn lz4_block_with_a_moderate_run_of_length_bytes_is_accepted() {
    assert!(lz4_accepts(&[]));
    assert!(lz4_accepts(&lz4_flex::compress_prepend_size(&[0xffu8; 100_000])));
    assert!(lz4_accepts(&block_with_run(8_000_000)));
    assert!(lz4_accepts(&[0xff, 0xff, 0xff, 0xff, 1, 2, 3]));
}

#[test]
fn lz4_block_with_an_overlong_run_of_length_bytes_is_refused() {
    assert!(!lz4_accepts(&block_with_run(8_000_001)));
    let mut late = vec![1u8; 5000];
    late.extend(std::iter::repeat(0xffu8).take(8_000_001));
    assert!(!lz4_accepts(&late));
}

#[test]
fn content_whose_lz4_lengths_would_not_fit_fails_to_decompress() {
    let mut content = b"LZ4 ".to_vec();
    content.extend_from_slice(&block_with_run(16_843_010));
    assert_eq!(expand(content), Err(Error::Decompress));
    let mut content = b"LZ4 ".to_vec();
    content.extend_from_slice(&block_with_run(16_843_009));
    content.pop();
    content.push(1);
    assert_eq!(expand(content), Err(Error::Decompress));
}

fn entry_with_attribute(header: &[u8], value: &[u8]) -> Vec<u8> {
    let mut bytes = Vec::new();
    write_entry(&mut bytes, "a", "", (0, 0, 0, 0), &[]);
    bytes.pop();
    rmp::encode::write_sint(&mut bytes, 1).unwrap();
    rmp::encode::write_str(&mut bytes, "name").unwrap();
    bytes.extend_from_slice(header);
    bytes.extend_from_slice(value);
    bytes
}

#[test]
fn attribute_value_takes_any_of_the_four_string_headers() {
    let cases: Vec<(Vec<u8>, usize)> = vec![
        (vec![0xa0], 0),
        (vec![0xa5], 5),
        (vec![0xbf], 31),
        (vec![0xd9, 0x00], 0),
        (vec![0xd9, 0xff], 255),
        (vec![0xda, 0x00, 0x07], 7),
        (vec![0xda, 0x01, 0x02], 258),
        (vec![0xdb, 0x00, 0x00, 0x00, 0x03], 3),
        (vec![0xdb, 0x00, 0x01, 0x02, 0x03], 66051),
    ];
    for (header, len) in cases {
        let value: Vec<u8> = (0..len).map(|i| (i % 256) as u8).collect();
        let entries = Entry::parse(&entry_with_attribute(&header, &value)).unwrap();
        assert_eq!(entries[0].attributes, vec![("name".to_string(), value)], "header {:?}", header);
    }
}

#[test]
fn attribute_value_under_any_other_header_is_malformed() {
    for header in [vec![0x9f], vec![0xc0], vec![0xc4, 0x01], vec![0xd8], vec![0xdc, 0x00, 0x01], vec![0x05]] {
        let bytes = entry_with_attribute(&header, &[0u8; 8]);
        assert_eq!(Entry::parse(&bytes).err(), Some(Error::MalformedMetadata), "header {:?}", header);
    }
}

#[test]
fn attribute_value_shorter_than_its_header_says_is_malformed() {
    let bytes = entry_with_attribute(&[0xda, 0x01, 0x00], &[0u8; 255]);
    assert_eq!(Entry::parse(&bytes).err(), Some(Error::MalformedMetadata));
    let bytes = entry_with_attribute(&[0xdb, 0xff, 0xff, 0xff, 0xff], &[0u8; 16]);
    assert_eq!(Entry::parse(&bytes).err(), Some(Error::MalformedMetadata));
    let bytes = entry_with_attribute(&[0xdb, 0x00, 0x00], &[]);
    assert_eq!(Entry::parse(&bytes).err(), Some(Error::MalformedMetadata));
}
