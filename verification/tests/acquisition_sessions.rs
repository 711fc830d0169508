use openforensic::acquisition::{
    bad_sector_log, progress_due, scan_keywords, search_bytes, AcquisitionConfig, AcquisitionSession,
    BadSectorAction, BadSectorEntry, BadSectorMap, IsolationStep, LogicalAcquisition, PreHashSession,
    SectorIsolation, SectorRead,
};
use openforensic::hasher::{generate_digital_signature, HashAlgorithm, HashDigests, MultiHasher, SIGNING_SALT, WORKSTATION_ID};
use openforensic::imaging::{FailedRead, ImagingSession};
use openforensic::output::CompressionFormat;
use sha2::Digest;

const MD5_ABC: &str = "900150983cd24fb0d6963f7d28e17f72";
const SHA1_ABC: &str = "a9993e364706816aba3e25717850c26c9cd0d89d";
const SHA256_ABC: &str = "ba7816bf8f01cfea414140de5dae2223b00361a396177a9cb410ff61f20015ad";
const SHA512_ABC: &str = "ddaf35a193617abacc417349ae20413112e6fa4e89a97ea20a9eeee64b55d39a2192992a274fc1a836ba3c23a3feebbd454d4423643ce80e2a9ac94fa54ca49f";

const ALL: [HashAlgorithm; 4] = [HashAlgorithm::MD5, HashAlgorithm::SHA1, HashAlgorithm::SHA256, HashAlgorithm::SHA512];

fn config(block_size: usize, keywords: &[&str]) -> AcquisitionConfig {
    AcquisitionConfig {
        hash_algorithms: ALL.to_vec(),
        block_size,
        split_size: None,
        compression: CompressionFormat::Uncompressed,
        case_number: "CASE-1".to_string(),
        examiner: "Examiner".to_string(),
        evidence_id: "E-1".to_string(),
        notes: String::new(),
        pre_hash: None,
        imaging_mode: "Physical".to_string(),
        format: "Raw".to_string(),
        read_verification: false,
        keywords: keywords.iter().map(|k| k.to_string()).collect(),
        yara_rules_path: None,
    }
}

fn hex_sha256(data: &[u8]) -> String {
    hex::encode(sha2::Sha256::digest(data))
}

#[test]
fn multi_hasher_gives_the_standard_digests() {
    let mut h = MultiHasher::new(&ALL);
    h.update(b"a");
    h.update(b"bc");
    let d = h.finalize();
    assert_eq!(d.get(HashAlgorithm::MD5).unwrap(), MD5_ABC);
    assert_eq!(d.get(HashAlgorithm::SHA1).unwrap(), SHA1_ABC);
    assert_eq!(d.get(HashAlgorithm::SHA256).unwrap(), SHA256_ABC);
    assert_eq!(d.get(HashAlgorithm::SHA512).unwrap(), SHA512_ABC);
    assert_eq!(d.len(), 4);
}

#[test]
fn multi_hasher_computes_only_what_was_asked() {
    let mut h = MultiHasher::new(&[HashAlgorithm::SHA1]);
    h.update(b"abc");
    let d = h.finalize();
    assert_eq!(d.len(), 1);
    assert_eq!(d.get(HashAlgorithm::SHA1).unwrap(), SHA1_ABC);
    assert!(d.get(HashAlgorithm::MD5).is_none());
}

#[test]
fn digital_signature_is_sha256_of_report_case_salt_and_workstation() {
    let sig = generate_digital_signature("report body", "CASE-42");
    let mut all = Vec::new();
    all.extend_from_slice(b"report body");
    all.extend_from_slice(b"CASE-42");
    all.extend_from_slice(SIGNING_SALT.as_bytes());
    all.extend_from_slice(b"WORKSTATION-STN-01");
    assert_eq!(sig, hex_sha256(&all));
    assert_eq!(WORKSTATION_ID, "WORKSTATION-STN-01");
    assert_eq!(sig.len(), 64);
    assert_ne!(sig, generate_digital_signature("report body", "CASE-43"));
}

#[test]
fn search_is_case_insensitive_and_finds_the_first_match() {
    assert_eq!(search_bytes(b"xxPassWORD and password", b"password"), Some(2));
    assert_eq!(search_bytes(b"abc", b"abcd"), None);
    assert_eq!(search_bytes(b"abcabc", b"CA"), Some(2));
    assert_eq!(search_bytes(b"", b"a"), None);
}

#[test]
fn keyword_hits_carry_absolute_offsets() {
    let kws = vec!["secret".to_string(), "absent".to_string(), "KEY".to_string()];
    let hits = scan_keywords(b"the SECRET key, the secret key", 4096, &kws);
    assert_eq!(hits, vec![("secret".to_string(), 4100), ("KEY".to_string(), 4107)]);
}

#[test]
fn session_hashes_exactly_the_blocks_handed_on() {
    let cfg = config(2, &["bc"]);
    let mut s = AcquisitionSession::new(&cfg, 3, 0);
    assert_eq!(s.next_block_len(), Some(2));
    s.accept_block(b"ab");
    assert_eq!(s.next_block_len(), Some(1));
    s.accept_block(b"c");
    assert_eq!(s.next_block_len(), None);
    assert_eq!(s.bytes_read(), 3);
    let (result, map) = s.finish();
    assert_eq!(result.bytes_read, 3);
    assert_eq!(result.bad_sectors, 0);
    assert_eq!(result.hashes.get(HashAlgorithm::MD5).unwrap(), MD5_ABC);
    assert_eq!(result.hashes.get(HashAlgorithm::SHA256).unwrap(), SHA256_ABC);
    assert!(map.sectors.is_empty());
    // The keyword straddles two blocks: each block is scanned alone.
    assert!(result.keyword_hits.is_empty());
    assert!(result.plugin_results.is_empty());
}

#[test]
fn session_stops_on_an_empty_read() {
    let cfg = config(4, &[]);
    let mut s = AcquisitionSession::new(&cfg, 100, 10);
    assert_eq!(s.bytes_read(), 10);
    assert_eq!(s.prefix_pending(), Some(10));
    s.accept_prefix_unreadable();
    assert_eq!(s.prefix_pending(), None);
    s.accept_block(b"");
    assert_eq!(s.next_block_len(), None);
    let (result, _) = s.finish();
    assert_eq!(result.bytes_read, 10);
    assert_eq!(result.hashes.get(HashAlgorithm::SHA256).unwrap(), &hex_sha256(&[0u8; 10]));
}

#[test]
fn resumed_session_hashes_the_whole_source() {
    let cfg = config(3, &[]);
    let mut whole = AcquisitionSession::new(&cfg, 6, 0);
    assert_eq!(whole.prefix_pending(), None);
    whole.accept_block(b"abc");
    whole.accept_block(b"def");
    let (uninterrupted, _) = whole.finish();

    let mut resumed = AcquisitionSession::new(&cfg, 6, 3);
    assert_eq!(resumed.prefix_pending(), Some(3));
    resumed.accept_prefix(b"ab");
    assert_eq!(resumed.prefix_pending(), Some(1));
    resumed.accept_prefix(b"c");
    assert_eq!(resumed.prefix_pending(), None);
    assert_eq!(resumed.bytes_read(), 3);
    assert_eq!(resumed.next_block_len(), Some(3));
    resumed.accept_block(b"def");
    let (result, _) = resumed.finish();
    assert_eq!(result.bytes_read, 6);
    assert!(openforensic::acquisition::digests_equal(&result.hashes, &uninterrupted.hashes));
    assert_eq!(result.hashes.get(HashAlgorithm::SHA256).unwrap(), &hex_sha256(b"abcdef"));
}

#[test]
fn pre_hash_matches_the_acquisition_hashes() {
    let mut p = PreHashSession::new(6, &ALL);
    p.accept_read(b"abcdef");
    let pre = p.finish();
    let cfg = config(4, &[]);
    let mut s = AcquisitionSession::new(&cfg, 6, 0);
    s.accept_block(b"abcd");
    s.accept_block(b"ef");
    let (post, _) = s.finish();
    assert!(openforensic::acquisition::digests_equal(&pre, &post.hashes));
}

#[test]
fn logical_hash_matches_the_copy_hashes() {
    let mut h = MultiHasher::new(&ALL);
    h.update(b"a");
    h.update(b"bc");
    let direct = h.finalize();
    let mut l = LogicalAcquisition::new(&ALL);
    l.copied_chunk(b"ab");
    l.file_done();
    l.copied_chunk(b"c");
    l.file_done();
    let (_, copied) = l.finish();
    assert!(openforensic::acquisition::digests_equal(&direct, &copied.hashes));
    assert_eq!(direct.get(HashAlgorithm::SHA1).unwrap(), SHA1_ABC);
}

#[test]
fn sector_isolation_retries_then_zero_fills() {
    let mut iso = SectorIsolation::new(1024, 1024);
    assert_eq!(iso.pending(), Some(512));
    let step = iso.record(SectorRead::Bytes { data: vec![7u8; 512], count: 512 });
    assert_eq!(step, IsolationStep::Next);
    assert_eq!(iso.pending(), Some(512));
    let step = iso.record(SectorRead::Failed { message: "bad".to_string() });
    assert_eq!(step, IsolationStep::Retry { seek_to: 1536 });
    let step = iso.record(SectorRead::Bytes { data: vec![1u8; 512], count: 100 });
    assert_eq!(step, IsolationStep::Retry { seek_to: 1536 });
    let step = iso.record(SectorRead::Failed { message: "still bad".to_string() });
    assert_eq!(step, IsolationStep::GiveUp { seek_to: 1536, skip: 512 });
    assert_eq!(iso.pending(), None);
    let (block, bad) = iso.into_parts();
    assert_eq!(&block[..512], &[7u8; 512][..]);
    assert_eq!(&block[512..], &[0u8; 512][..]);
    assert_eq!(bad.len(), 1);
    assert_eq!(bad[0].lba, 3);
    assert_eq!(bad[0].retries, 3);
    assert_eq!(bad[0].error_msg, "I/O Error: still bad");
}

#[test]
fn isolated_block_joins_the_bad_sector_map() {
    let cfg = config(512, &[]);
    let mut s = AcquisitionSession::new(&cfg, 512, 0);
    let mut iso = SectorIsolation::new(0, 512);
    for _ in 0..2 {
        assert!(matches!(iso.record(SectorRead::Bytes { data: vec![0u8; 512], count: 3 }), IsolationStep::Retry { .. }));
    }
    assert_eq!(
        iso.record(SectorRead::Bytes { data: vec![0u8; 512], count: 3 }),
        IsolationStep::GiveUp { seek_to: 0, skip: 512 }
    );
    s.accept_isolated(iso);
    assert_eq!(s.bad_sectors(), 1);
    let (result, map) = s.finish();
    assert_eq!(result.bad_sectors, 1);
    assert_eq!(result.hashes.get(HashAlgorithm::SHA256).unwrap(), &hex_sha256(&[0u8; 512]));
    assert_eq!(map.sectors[0].error_msg, "Partial read: 3");
    let log = bad_sector_log(&map);
    assert_eq!(
        log,
        "=== OPENFORENSIC BAD SECTOR MAP ===\nLBA\t\tRETRIES\t\tERROR\n0\t\t3\t\tPartial read: 3\nTotal Bad Sectors: 1\n"
    );
}

#[test]
fn empty_bad_sector_log() {
    let map = BadSectorMap::new();
    assert_eq!(bad_sector_log(&map), "=== OPENFORENSIC BAD SECTOR MAP ===\nLBA\t\tRETRIES\t\tERROR\nTotal Bad Sectors: 0\n");
    let entry = BadSectorEntry { lba: 9, retries: 3, error_msg: "x".to_string() };
    let map = BadSectorMap { sectors: vec![entry.clone(), entry] };
    assert!(bad_sector_log(&map).ends_with("Total Bad Sectors: 2\n"));
}

#[test]
fn progress_is_due_by_time_or_by_bytes() {
    assert!(progress_due(250, 0, 0));
    assert!(!progress_due(249, 4_999_999, 0));
    assert!(progress_due(0, 5_000_000, 0));
    assert!(!progress_due(0, 10, 20));
}

#[test]
fn pre_hash_hashes_unreadable_blocks_as_zeros() {
    let mut p = PreHashSession::new(6, &[HashAlgorithm::SHA256]);
    assert_eq!(p.next_block_len(), Some(6));
    p.accept_read(b"abc");
    assert_eq!(p.next_block_len(), Some(3));
    p.accept_unreadable();
    assert_eq!(p.next_block_len(), None);
    let d = p.finish();
    assert_eq!(d.get(HashAlgorithm::SHA256).unwrap(), &hex_sha256(b"abc\0\0\0"));
}

#[test]
fn logical_acquisition_hashes_all_files_in_order() {
    let mut l = LogicalAcquisition::new(&[HashAlgorithm::MD5]);
    l.copied_chunk(b"a");
    l.file_done();
    l.copied_chunk(b"bc");
    l.file_done();
    assert_eq!(l.bytes_read(), 3);
    let (files, result) = l.finish();
    assert_eq!(files, 2);
    assert_eq!(result.bytes_read, 3);
    assert_eq!(result.hashes.get(HashAlgorithm::MD5).unwrap(), MD5_ABC);
}

#[test]
fn imager_zero_fills_without_hashing() {
    let mut s = ImagingSession::new(&[HashAlgorithm::MD5], 3, BadSectorAction::ZeroFill, 6, 0);
    assert_eq!(s.next_block_len(), Some(3));
    s.block_read(b"abc");
    assert_eq!(s.block_failed(), FailedRead::ZeroFill(3));
    assert_eq!(s.next_block_len(), None);
    let r = s.finish();
    assert_eq!(r.bytes_read, 6);
    assert_eq!(r.bad_sectors, 1);
    assert_eq!(r.hashes.get(HashAlgorithm::MD5).unwrap(), MD5_ABC);
}

#[test]
fn imager_retries_the_configured_number_of_times() {
    let mut s = ImagingSession::new(&ALL, 4, BadSectorAction::Retry(2), 4, 0);
    assert_eq!(s.block_failed(), FailedRead::ReadAgain);
    assert_eq!(s.block_failed(), FailedRead::ReadAgain);
    assert_eq!(s.bad_sectors(), 1);
    s.block_read(b"abc");
    assert_eq!(s.bytes_read(), 3);
    assert_eq!(s.next_block_len(), Some(1));
    assert_eq!(s.block_failed(), FailedRead::ReadAgain);
    assert_eq!(s.block_failed(), FailedRead::ReadAgain);
    assert_eq!(s.block_failed(), FailedRead::ZeroFill(1));
    let r = s.finish();
    assert_eq!(r.bad_sectors, 2);
    assert_eq!(r.bytes_read, 4);
    assert_eq!(r.hashes.get(HashAlgorithm::SHA512).unwrap(), SHA512_ABC);
}

#[test]
fn imager_skip_gives_up_at_once() {
    let mut s = ImagingSession::new(&[], 8, BadSectorAction::Skip, 5, 2);
    assert_eq!(s.prefix_pending(), Some(2));
    s.accept_prefix(b"ab");
    assert_eq!(s.prefix_pending(), None);
    assert_eq!(s.block_failed(), FailedRead::ZeroFill(3));
    assert_eq!(s.bytes_read(), 5);
    assert_eq!(s.next_block_len(), None);
    assert_eq!(BadSectorAction::Retry(7).retries(), 7);
    assert_eq!(BadSectorAction::Skip.retries(), 0);
}

#[test]
fn resumed_imager_run_hashes_the_whole_source() {
    let mut s = ImagingSession::new(&[HashAlgorithm::MD5], 2, BadSectorAction::Skip, 3, 1);
    assert_eq!(s.prefix_pending(), Some(1));
    s.accept_prefix(b"a");
    assert_eq!(s.bytes_read(), 1);
    assert_eq!(s.next_block_len(), Some(2));
    s.block_read(b"bc");
    let r = s.finish();
    assert_eq!(r.bytes_read, 3);
    assert_eq!(r.hashes.get(HashAlgorithm::MD5).unwrap(), MD5_ABC);
}

#[test]
fn digests_compare_by_algorithm() {
    let mut a = HashDigests::new();
    a.insert(HashAlgorithm::MD5, MD5_ABC.to_string());
    let mut b = HashDigests::new();
    b.insert(HashAlgorithm::MD5, MD5_ABC.to_string());
    assert!(openforensic::acquisition::digests_equal(&a, &b));
    b.insert(HashAlgorithm::SHA1, SHA1_ABC.to_string());
    assert!(!openforensic::acquisition::digests_equal(&a, &b));
    assert_eq!(b.entries(), vec![(HashAlgorithm::MD5, MD5_ABC.to_string()), (HashAlgorithm::SHA1, SHA1_ABC.to_string())]);
}
