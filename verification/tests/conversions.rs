use backup_dumper::codec::same_bytes;
use backup_dumper::codec::starts_with;
use backup_dumper::error::Error;
use backup_dumper::formats::blobbackup::snapshot::from_array;
use backup_dumper::formats::Format;
use backup_dumper::reassembly::ChunkRange;
use backup_dumper::restore::Timestamp;
use backup_dumper::utils::from_b64;
use backup_dumper::utils::from_datetime;
use backup_dumper::utils::from_hex;
use backup_dumper::utils::from_hex_vec;
use backup_dumper::utils::from_truthy;

#[test]
fn truthy_zero_is_false() {
    assert!(!from_truthy(0));
}

#[test]
fn truthy_one_is_true() {
    assert!(from_truthy(1));
}

#[test]
fn truthy_any_other_number_is_true() {
    assert!(from_truthy(2));
    assert!(from_truthy(u64::MAX));
}

#[test]
fn hex_of_either_case_decodes() {
    assert_eq!(from_hex("00ff10Ab"), Ok(vec![0x00, 0xff, 0x10, 0xab]));
    assert_eq!(from_hex("DEADbeef"), Ok(vec![0xde, 0xad, 0xbe, 0xef]));
}

#[test]
fn hex_of_nothing_is_nothing() {
    assert_eq!(from_hex(""), Ok(Vec::new()));
}

#[test]
fn hex_of_odd_length_is_malformed() {
    assert_eq!(from_hex("abc"), Err(Error::MalformedMetadata));
}

#[test]
fn hex_with_a_foreign_character_is_malformed() {
    assert_eq!(from_hex("zz"), Err(Error::MalformedMetadata));
    assert_eq!(from_hex("0g"), Err(Error::MalformedMetadata));
    assert_eq!(from_hex("é0"), Err(Error::MalformedMetadata));
}

#[test]
fn hex_list_decodes_each_text() {
    let texts = vec!["0102".to_string(), "".to_string(), "ff".to_string()];
    assert_eq!(from_hex_vec(&texts), Ok(vec![vec![1, 2], vec![], vec![0xff]]));
}

#[test]
fn hex_list_with_one_bad_text_is_malformed() {
    let texts = vec!["0102".to_string(), "xy".to_string()];
    assert_eq!(from_hex_vec(&texts), Err(Error::MalformedMetadata));
}

#[test]
fn base64_decodes_with_padding() {
    assert_eq!(from_b64("aGVsbG8="), Ok(b"hello".to_vec()));
    assert_eq!(from_b64("AAEC"), Ok(vec![0, 1, 2]));
}

#[test]
fn base64_without_its_padding_is_malformed() {
    assert_eq!(from_b64("aGVsbG8"), Err(Error::MalformedMetadata));
    assert_eq!(from_b64("!!!!"), Err(Error::MalformedMetadata));
}

#[test]
fn rfc3339_time_is_an_instant() {
    assert_eq!(
        from_datetime("1970-01-01T00:00:10Z"),
        Ok(Timestamp { secs: 10, nanos: 0 })
    );
    assert_eq!(
        from_datetime("2023-08-15T18:36:19.5+02:00"),
        Ok(Timestamp { secs: 1692117379, nanos: 500_000_000 })
    );
}

#[test]
fn rfc3339_times_in_different_zones_compare_by_instant() {
    let east = from_datetime("2023-08-15T18:00:00+02:00").unwrap();
    let utc = from_datetime("2023-08-15T17:00:00Z").unwrap();
    assert!(east.not_after(&utc));
    assert!(!utc.not_after(&east));
}

#[test]
fn text_that_is_no_time_is_malformed() {
    assert_eq!(from_datetime("yesterday"), Err(Error::MalformedMetadata));
    assert_eq!(from_datetime("2023-08-15 18:36:19"), Err(Error::MalformedMetadata));
}

#[test]
fn range_array_gives_its_four_numbers_in_order() {
    assert_eq!(
        from_array(Some([1, 2, 3, 4])),
        Some(ChunkRange { start_chunk: 1, start_offset: 2, end_chunk: 3, end_offset: 4 })
    );
}

#[test]
fn missing_range_array_gives_no_range() {
    assert_eq!(from_array(None), None);
}

#[test]
fn prefix_is_found_only_at_the_start() {
    assert!(starts_with(b"duplicacy\x00rest", b"duplicacy"));
    assert!(!starts_with(b"xduplicacy", b"duplicacy"));
    assert!(!starts_with(b"dup", b"duplicacy"));
    assert!(starts_with(b"abc", b""));
}

#[test]
fn byte_strings_are_the_same_only_when_equal() {
    assert!(same_bytes(b"abc", b"abc"));
    assert!(!same_bytes(b"abc", b"abd"));
    assert!(!same_bytes(b"abc", b"ab"));
    assert!(same_bytes(b"", b""));
}

#[test]
fn formats_go_by_their_names() {
    assert_eq!(Format::from_name("blobbackup"), Some(Format::BlobBackup));
    assert_eq!(Format::from_name("duplicacy"), Some(Format::Duplicacy));
    assert_eq!(Format::from_name("knoxite"), Some(Format::Knoxite));
    assert_eq!(Format::from_name("restic"), Some(Format::Restic));
    assert_eq!(Format::from_name("Restic"), None);
    assert_eq!(Format::from_name(""), None);
}

#[test]
fn only_duplicacy_opens_without_a_password() {
    assert!(Format::BlobBackup.needs_password());
    assert!(!Format::Duplicacy.needs_password());
    assert!(Format::Knoxite.needs_password());
    assert!(Format::Restic.needs_password());
}
