use openforensic::hasher::{HashAlgorithm, HashDigests};
use openforensic::html::generate_html_report;
use openforensic::imager;
use openforensic::pdf::{pdf_report_target, PdfTarget};
use openforensic::report::{
    duration_string, generate_csv_report, generate_txt_report, seconds_between, signature_seal, ReportData,
    ReportFigures, Timestamp,
};

const T0: i64 = 1_700_000_000; // Tue, 14 Nov 2023 22:13:20 +0000

fn at(secs: i64) -> Timestamp {
    Timestamp { secs, nanos: 0 }
}

fn digests(pairs: &[(HashAlgorithm, &str)]) -> HashDigests {
    let mut d = HashDigests::new();
    for (a, h) in pairs {
        d.insert(*a, h.to_string());
    }
    d
}

fn data() -> ReportData {
    ReportData {
        case_number: "CASE-7".to_string(),
        examiner: "A. Examiner".to_string(),
        evidence_id: "EV-9".to_string(),
        notes: "laptop".to_string(),
        imaging_mode: "Physical".to_string(),
        format: "Raw (.dd)".to_string(),
        source_device: "/dev/sdb".to_string(),
        source_size: 2_000_000_000,
        source_model: "Disk".to_string(),
        source_serial: "SN1".to_string(),
        dest_file: "/cases/ev9.dd".to_string(),
        start_time: at(T0),
        end_time: at(T0 + 3725),
        bad_sectors: 0,
        pre_hashes: digests(&[(HashAlgorithm::MD5, "aa")]),
        hashes: digests(&[(HashAlgorithm::MD5, "aa"), (HashAlgorithm::SHA1, "bb")]),
        post_hashes: None,
        vss_snapshot_id: None,
        ram_dump_path: None,
        ram_dump_size: None,
        ram_dump_hash: None,
        locked_files_copied: vec![],
        consistency_blocks_checked: None,
        consistency_blocks_matched: None,
        consistency_mismatches: vec![],
        plugin_results: vec![],
    }
}

fn figures() -> ReportFigures {
    ReportFigures {
        source_size_gb: "2.00".to_string(),
        ram_dump_size_gb: String::new(),
        consistency_percent: String::new(),
        speed_mb: "120.5".to_string(),
    }
}

#[test]
fn durations_are_split_into_hours_minutes_seconds() {
    assert_eq!(seconds_between(at(T0), at(T0 + 3725)), 3725);
    assert_eq!(duration_string(at(T0), at(T0 + 3725)), "1h 2m 5s");
    assert_eq!(duration_string(at(T0 + 3725), at(T0)), "-1h -2m -5s");
    assert_eq!(duration_string(Timestamp { secs: T0, nanos: 900_000_000 }, at(T0 + 1)), "0h 0m 0s");
}

#[test]
fn text_report_lists_case_hashes_and_verdict() {
    let r = generate_txt_report(&data(), at(T0), &figures());
    assert!(r.starts_with("==================================================\n              OPENFORENSIC REPORT                 \n"));
    assert!(r.contains("Case Number:     CASE-7\n"));
    assert!(r.contains("Report Date:     Wed, 15 Nov 2023 03:43:20 +0530\n"));
    assert!(r.contains("  Total Size:    2000000000 bytes (2.00 GB)\n"));
    assert!(r.contains("  Duration:      1h 2m 5s\n"));
    assert!(r.contains("PRE-ACQUISITION HASHES\n  MD5: aa\n"));
    assert!(r.contains("ACQUISITION HASHES (STREAM VERIFICATION)\n  MD5: aa\n  SHA1: bb\n"));
    assert!(r.contains("INTEGRITY VERIFICATION LOG\n  MD5: MATCHED (Pre-Hash: MATCHED)\n  SHA1: MATCHED (Integrity Confirmed)\n"));
    assert!(r.contains("Acquisition Status: COMPLETED / VERIFIED\n"));
    assert!(!r.contains("LIVE ACQUISITION"));
    assert!(r.ends_with("==================================================\n"));
}

#[test]
fn text_report_warns_on_a_mismatch() {
    let mut d = data();
    d.pre_hashes = digests(&[(HashAlgorithm::MD5, "zz")]);
    let r = generate_txt_report(&d, at(T0), &figures());
    assert!(r.contains("  MD5: MISMATCHED (Pre-Hash: MISMATCH)\n"));
    assert!(r.contains("Acquisition Status: WARNING - HASH MISMATCH\n"));
}

#[test]
fn logical_report_checks_the_final_hashes() {
    let mut d = data();
    d.imaging_mode = "Logical".to_string();
    d.pre_hashes = HashDigests::new();
    d.post_hashes = Some(digests(&[(HashAlgorithm::MD5, "aa"), (HashAlgorithm::SHA1, "cc")]));
    let r = generate_txt_report(&d, at(T0), &figures());
    assert!(r.contains("FINAL HASHES (DESTINATION FOLDER HASH)\n  MD5: aa\n  SHA1: cc\n"));
    assert!(r.contains("  MD5: MATCHED (Final-Hash: MATCHED)\n  SHA1: MISMATCHED (Final-Hash: MISMATCH)\n"));
    assert!(r.contains("Acquisition Status: WARNING - HASH MISMATCH\n"));
}

#[test]
fn live_section_lists_offsets_in_upper_hex() {
    let mut d = data();
    d.vss_snapshot_id = Some("{ABC}".to_string());
    d.locked_files_copied = vec!["Windows/System32/config/SAM".to_string()];
    d.consistency_blocks_checked = Some(10);
    d.consistency_blocks_matched = Some(8);
    d.consistency_mismatches = vec![4096, 255];
    d.plugin_results = vec![("entropy.max".to_string(), "7.99".to_string())];
    let mut f = figures();
    f.consistency_percent = "80.00".to_string();
    let r = generate_txt_report(&d, at(T0), &f);
    assert!(r.contains("          LIVE ACQUISITION DETAILS                \n"));
    assert!(r.contains("  Shadow Copy ID: {ABC}\n"));
    assert!(r.contains("  ✓ Windows/System32/config/SAM\n"));
    assert!(r.contains("  Blocks Mismatch: 2\n  Consistency:     80.00%\n"));
    assert!(r.contains("  Status:          FAILED — 2 blocks differ\n    Offset: 0x1000\n    Offset: 0xFF\n"));
    assert!(r.contains("--- Plugin Results & Custom Hashes ---\n  entropy.max: 7.99\n"));
}

#[test]
fn csv_report_logs_events_in_ist() {
    let r = generate_csv_report(&data(), at(T0));
    let lines: Vec<&str> = r.lines().collect();
    assert_eq!(lines[0], "Timestamp,Event,Details");
    assert_eq!(lines[1], "\"Wed, 15 Nov 2023 03:43:20 +0530\",\"Acquisition Started\",\"Source: /dev/sdb\"");
    assert_eq!(lines[2], "\"Wed, 15 Nov 2023 04:45:25 +0530\",\"Acquisition Finished\",\"Destination: /cases/ev9.dd\"");
    assert_eq!(lines[3], "\"Wed, 15 Nov 2023 04:45:25 +0530\",\"Acquisition Hash Computed\",\"MD5: aa\"");
    assert_eq!(lines[4], "\"Wed, 15 Nov 2023 04:45:25 +0530\",\"Acquisition Hash Computed\",\"SHA1: bb\"");
    assert_eq!(lines.len(), 5);
}

#[test]
fn html_report_fills_the_template() {
    let r = generate_html_report(&data(), at(T0), &figures());
    assert!(r.starts_with("<!DOCTYPE html>"));
    assert!(r.contains("CASE-7"));
    assert!(r.contains("/dev/sdb"));
    assert!(r.contains("<span class=\"badge success\">MATCHED</span>"));
    assert!(!r.contains("{{CASE_NUMBER}}"));
}

#[test]
fn html_verdict_agrees_with_the_text_verdict() {
    let good = data();
    let mut bad = data();
    bad.pre_hashes = digests(&[(HashAlgorithm::MD5, "zz")]);
    for (d, verified) in [(good, true), (bad, false)] {
        let txt = generate_txt_report(&d, at(T0), &figures());
        let html = generate_html_report(&d, at(T0), &figures());
        assert_eq!(txt.contains("Acquisition Status: COMPLETED / VERIFIED"), verified);
        assert_eq!(html.contains("COMPLETED & VERIFIED"), verified);
    }
}

#[test]
fn seal_names_signature_and_utc_time() {
    assert_eq!(
        signature_seal("abc123", at(T0)),
        "=== FORGELENS FORENSIC SEAL ===\nSignature: abc123\nWorkstation ID: WORKSTATION-STN-01\nTimestamp: Tue, 14 Nov 2023 22:13:20 +0000\n"
    );
}

fn imager_data() -> imager::ReportData {
    imager::ReportData {
        case_number: "C1".to_string(),
        examiner: "E".to_string(),
        evidence_id: "V".to_string(),
        notes: "n".to_string(),
        imaging_mode: "Physical".to_string(),
        format: "Raw".to_string(),
        source_device: "/dev/sdc".to_string(),
        source_size: 512,
        source_model: "M".to_string(),
        source_serial: "S".to_string(),
        dest_file: "/out.dd".to_string(),
        start_time: at(T0),
        end_time: at(T0 + 61),
        bad_sectors: 1,
        pre_hashes: digests(&[(HashAlgorithm::SHA256, "x1")]),
        hashes: digests(&[(HashAlgorithm::MD5, "m"), (HashAlgorithm::SHA256, "x2")]),
    }
}

#[test]
fn imager_report_flags_a_changed_digest() {
    let r = imager::generate_txt_report(&imager_data(), at(T0), "0.00");
    assert!(r.contains("          FORGELENS DISK IMAGER REPORT            \n"));
    assert!(r.contains("Report Date:     Tue, 14 Nov 2023 22:13:20 +0000\n"));
    assert!(r.contains("  Duration:      0h 1m 1s\n"));
    assert!(r.contains("VERIFICATION HASHES (POST-ACQUISITION)\n  MD5: m\n  SHA256: x2\n"));
    assert!(r.contains("INTEGRITY VERIFICATION LOG\n  SHA256: MISMATCHED (WARNING: Integrity Compromised!)\n"));
    assert!(r.contains("Acquisition Status: WARNING - HASH MISMATCH\n"));
}

#[test]
fn imager_report_without_pre_hashes_is_verified() {
    let mut d = imager_data();
    d.pre_hashes = HashDigests::new();
    let r = imager::generate_txt_report(&d, at(T0), "0.00");
    assert!(!r.contains("INTEGRITY VERIFICATION LOG"));
    assert!(!r.contains("PRE-ACQUISITION HASHES"));
    assert!(r.contains("Acquisition Status: COMPLETED / VERIFIED\n==================================================\n"));
}

fn acq_config() -> openforensic::acquisition::AcquisitionConfig {
    openforensic::acquisition::AcquisitionConfig {
        hash_algorithms: vec![HashAlgorithm::MD5],
        block_size: 512,
        split_size: None,
        compression: openforensic::output::CompressionFormat::Uncompressed,
        case_number: "C-1".to_string(),
        examiner: "Ex".to_string(),
        evidence_id: "EV".to_string(),
        notes: "none".to_string(),
        pre_hash: Some("abc".to_string()),
        imaging_mode: "Physical".to_string(),
        format: "Raw".to_string(),
        read_verification: false,
        keywords: vec![],
        yara_rules_path: None,
    }
}

fn acq_result(hits: usize) -> openforensic::acquisition::AcquisitionResult {
    openforensic::acquisition::AcquisitionResult {
        bytes_read: 4096,
        bad_sectors: 2,
        hashes: digests(&[(HashAlgorithm::MD5, "m5"), (HashAlgorithm::SHA256, "s2")]),
        keyword_hits: (0..hits).map(|i| ("pw".to_string(), i as u64 * 10)).collect(),
        yara_hits: vec![("Rule1".to_string(), vec!["a".to_string(), "b".to_string()], 7)],
        plugin_results: openforensic::plugins::StringMap::new(),
    }
}

#[test]
fn pdf_page_lines_and_positions() {
    let lines = openforensic::pdf::pdf_report_lines(&acq_config(), &acq_result(1), at(T0), at(T0 + 10), at(T0));
    let texts: Vec<(&str, i64)> = lines.iter().map(|l| (l.text.as_str(), l.y)).collect();
    assert_eq!(texts[0], ("OpenForensic Acquisition Report", 280));
    assert!(lines[0].bold && lines[0].size == 18 && lines[0].x == 20);
    assert_eq!(texts[1], ("Case Information", 265));
    assert_eq!(texts[2], ("Case Number: C-1", 259));
    assert_eq!(texts[5], ("Notes: none", 244));
    assert_eq!(texts[6], ("Acquisition Details", 234));
    assert_eq!(texts[7], ("Start Time (UTC): 2023-11-14 22:13:20", 228));
    assert_eq!(texts[8], ("End Time (UTC): 2023-11-14 22:13:30", 223));
    assert_eq!(texts[10], ("Total Bytes Processed: 4096", 213));
    assert_eq!(texts[11], ("Bad Sectors Encountered: 2", 208));
    assert_eq!(texts[12], ("Chain of Custody (Cryptographic Hashes)", 198));
    assert_eq!(texts[13], ("Pre-Acquisition Hash: abc", 192));
    assert_eq!(texts[14], ("MD5 Hash: m5", 187));
    assert_eq!(texts[15], ("SHA256 Hash: s2", 182));
    assert_eq!(texts[16], ("Keyword Hits", 172));
    assert_eq!(texts[17], ("1. 'pw' at offset 0", 166));
    assert_eq!(lines[17].size, 9);
    assert_eq!(lines[17].x, 25);
    assert_eq!(texts[18], ("YARA Rule Hits", 157));
    assert_eq!(texts[19], ("1. Rule 'Rule1' [a, b] at offset 7", 151));
    assert_eq!(texts[20], ("Examiner Signature: _________________________________", 132));
    assert_eq!(texts[21], ("Date: 2023-11-14", 126));
    assert_eq!(lines.len(), 22);
}

#[test]
fn pdf_lists_show_twenty_entries_then_a_count() {
    let lines = openforensic::pdf::pdf_report_lines(&acq_config(), &acq_result(25), at(T0), at(T0), at(T0));
    let hits: Vec<&str> = lines.iter().map(|l| l.text.as_str()).filter(|t| t.contains("' at offset")).collect();
    assert_eq!(hits.len(), 20);
    assert_eq!(hits[19], "20. 'pw' at offset 190");
    assert!(lines.iter().any(|l| l.text == "... and 5 more hits."));
}

#[test]
fn same_bytes_before_and_during_imaging_verify() {
    let algorithms = [HashAlgorithm::MD5, HashAlgorithm::SHA1, HashAlgorithm::SHA256, HashAlgorithm::SHA512];
    let mut pre = openforensic::hasher::MultiHasher::new(&algorithms[..2]);
    pre.update(b"evidence bytes");
    let mut during = openforensic::hasher::MultiHasher::new(&algorithms);
    during.update(b"evidence ");
    during.update(b"bytes");
    let mut d = data();
    d.pre_hashes = pre.finalize();
    d.hashes = during.finalize();
    let r = generate_txt_report(&d, at(T0), &figures());
    assert!(r.contains("  MD5: MATCHED (Pre-Hash: MATCHED)\n  SHA1: MATCHED (Pre-Hash: MATCHED)\n  SHA256: MATCHED (Integrity Confirmed)\n"));
    assert!(r.contains("Acquisition Status: COMPLETED / VERIFIED\n"));
    let mut i = imager_data();
    i.pre_hashes = d.pre_hashes.clone();
    i.hashes = d.hashes.clone();
    assert!(imager::generate_txt_report(&i, at(T0), "0.00").contains("Acquisition Status: COMPLETED / VERIFIED\n"));
}

#[test]
fn pdf_report_goes_beside_the_destination() {
    assert!(matches!(pdf_report_target(true, Some("dd")), PdfTarget::InFolder(n) if n == "report.pdf"));
    assert!(matches!(pdf_report_target(false, Some("dd")), PdfTarget::Extension(e) if e == "dd_report.pdf"));
    assert!(matches!(pdf_report_target(false, None), PdfTarget::Extension(e) if e == "report.pdf"));
}
