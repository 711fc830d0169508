use openforensic::config::{
    algorithm_from_name, block_size_bytes, checkpoint_candidate, ensure_extension, filter_name, format_short,
    image_extension, is_logical_mode, parse_compression, parse_hash_algorithms, pre_hash_wanted,
    selected_algorithms, split_size_bytes,
};
use openforensic::hasher::HashAlgorithm;
use openforensic::locked_files::{build_source_path, default_locked_files, safe_name, CopiedFileInfo, TargetOs};
use openforensic::output::CompressionFormat;
use openforensic::platform::WindowsBackend;
use openforensic::request::{check_request, default_extension, gigabyte_passed, header_name};
use openforensic::text::{decode_utf16, hex_encode, lines, parse_u32, parse_u64, replace_all, split_whitespace, trim};
use openforensic::vss::{
    delete_shadow_argument, device_path_from_vssadmin, device_path_from_wmic, normalize_volume,
    shadow_id_in_wmic_output, wmic_output_readable, VssSnapshot,
};

fn strings(v: &[&str]) -> Vec<String> {
    v.iter().map(|s| s.to_string()).collect()
}

#[test]
fn unsigned_numbers_parse_as_rust_does() {
    assert_eq!(parse_u64("0"), Some(0));
    assert_eq!(parse_u64("+42"), Some(42));
    assert_eq!(parse_u64("18446744073709551615"), Some(u64::MAX));
    assert_eq!(parse_u64("18446744073709551616"), None);
    assert_eq!(parse_u64(""), None);
    assert_eq!(parse_u64("+"), None);
    assert_eq!(parse_u64("-1"), None);
    assert_eq!(parse_u64(" 1"), None);
    assert_eq!(parse_u32("4294967295"), Some(u32::MAX));
    assert_eq!(parse_u32("4294967296"), None);
}

#[test]
fn lines_and_words_split_as_std_does() {
    let text = "a b\r\n\n  c\td  \nlast";
    assert_eq!(lines(text), text.lines().map(String::from).collect::<Vec<_>>());
    assert_eq!(split_whitespace("  x\ty  z\n"), strings(&["x", "y", "z"]));
    assert!(split_whitespace("   ").is_empty());
    assert_eq!(replace_all("a/b/c", "/", "_"), "a_b_c");
    assert_eq!(hex_encode(&[0x00, 0xAB, 0x7F]), "00ab7f");
    assert_eq!(WindowsBackend::parse_null_str(b"ok\xFF\0rest", 0), "ok\u{FFFD}");
    assert_eq!(WindowsBackend::parse_null_str(b"xxDisk\0", 2), "Disk");
}

#[test]
fn hash_algorithms_are_chosen_by_name() {
    assert_eq!(algorithm_from_name("SHA256"), Some(HashAlgorithm::SHA256));
    assert_eq!(algorithm_from_name("sha256"), None);
    assert_eq!(
        parse_hash_algorithms(&strings(&["SHA1", "bogus", "MD5"])),
        vec![HashAlgorithm::SHA1, HashAlgorithm::MD5]
    );
    assert_eq!(selected_algorithms(&strings(&["CRC"])), Err("At least one hash algorithm must be enabled.".to_string()));
    assert_eq!(selected_algorithms(&strings(&["SHA512"])), Ok(vec![HashAlgorithm::SHA512]));
}

#[test]
fn acquisition_options_are_read() {
    assert_eq!(parse_compression("Zstd"), CompressionFormat::Zstd);
    assert_eq!(parse_compression("None"), CompressionFormat::Uncompressed);
    assert_eq!(image_extension("Expert Witness (E01)"), "e01");
    assert_eq!(image_extension("Raw"), "dd");
    assert_eq!(format_short("AFF4"), "AFF");
    assert_eq!(split_size_bytes(Some(2)), Some(2 * 1048576));
    assert_eq!(split_size_bytes(None), None);
    assert_eq!(block_size_bytes(64), 65536);
    assert!(pre_hash_wanted("Pre & Post-Acquisition", 0));
    assert!(!pre_hash_wanted("Pre & Post-Acquisition", 512));
    assert!(!pre_hash_wanted("Post-Acquisition", 0));
    assert!(is_logical_mode("Logical"));
    assert!(!checkpoint_candidate("   "));
    assert!(checkpoint_candidate(" /x "));
    assert_eq!(filter_name("aff"), "Advanced Forensic Format (.aff)");
    assert_eq!(ensure_extension("/img/case", "dd"), "/img/case.dd");
    assert_eq!(ensure_extension("/img/case.dd", "dd"), "/img/case.dd");
}

#[test]
fn shadow_copies_are_read_from_tool_output() {
    let wmic = "Executing (Win32_ShadowCopy)->create()\r\nMethod execution successful.\r\nOut Parameters:\r\ninstance of __PARAMETERS\r\n{\r\n\tReturnValue = 0;\r\n\tShadowID = \"{5C5A1F2E-1111-2222-3333-444455556666}\";\r\n};\r\n";
    assert!(wmic_output_readable(wmic));
    assert_eq!(
        VssSnapshot::parse_shadow_id_from_wmic(wmic),
        Some("{5C5A1F2E-1111-2222-3333-444455556666}".to_string())
    );
    assert_eq!(
        shadow_id_in_wmic_output(wmic),
        Some("{5C5A1F2E-1111-2222-3333-444455556666}".to_string())
    );
    assert_eq!(shadow_id_in_wmic_output("  ShadowID = }x{  \n"), None);
    assert_eq!(shadow_id_in_wmic_output("  ShadowID = {x}  \n"), Some("{x}".to_string()));
    let listing = "Contents of shadow copy set ID: {aaa}\n   Contained 1 shadow copies at creation time\n      Shadow Copy ID: {id-1}\n         Original Volume: (C:)\\\\?\\Volume{v}\\\n         Shadow Copy Volume: \\\\?\\GLOBALROOT\\Device\\HarddiskVolumeShadowCopy3\n";
    assert_eq!(
        device_path_from_vssadmin(listing, "{id-1}"),
        Some("\\\\?\\GLOBALROOT\\Device\\HarddiskVolumeShadowCopy3".to_string())
    );
    assert_eq!(device_path_from_vssadmin(listing, "{id-2}"), None);
    let list = "\r\n\r\nDeviceObject=\\\\?\\GLOBALROOT\\Device\\HarddiskVolumeShadowCopy7\r\nID={id-7}\r\n\r\n";
    assert_eq!(
        device_path_from_wmic(list, "{id-7}"),
        Some("\\\\?\\GLOBALROOT\\Device\\HarddiskVolumeShadowCopy7".to_string())
    );
    assert_eq!(normalize_volume("C"), "C:\\");
    assert_eq!(normalize_volume("D:"), "D:\\");
    assert_eq!(delete_shadow_argument("{x}"), "/Shadow={x}");
    let snap = VssSnapshot {
        shadow_id: "{x}".to_string(),
        device_path: "\\\\?\\GLOBALROOT\\Device\\HarddiskVolumeShadowCopy1\\".to_string(),
        volume: "C:\\".to_string(),
    };
    assert_eq!(
        snap.file_path("\\Windows\\System32\\config\\SAM"),
        "\\\\?\\GLOBALROOT\\Device\\HarddiskVolumeShadowCopy1\\Windows\\System32\\config\\SAM"
    );
}

#[test]
fn locked_files_are_found_and_named_flat() {
    let files = default_locked_files(TargetOs::Windows);
    assert!(files.iter().any(|f| f.contains("SAM")));
    let name = safe_name("Windows\\System32/config\\SAM");
    assert!(!name.contains('\\') && !name.contains('/'));
    assert_eq!(name, "Windows_System32_config_SAM");
    let dev = Some("\\\\?\\GLOBALROOT\\Device\\HarddiskVolumeShadowCopy1".to_string());
    assert_eq!(
        build_source_path(&dev, "Windows\\System32\\config\\SAM", TargetOs::Windows),
        "\\\\?\\GLOBALROOT\\Device\\HarddiskVolumeShadowCopy1\\Windows\\System32\\config\\SAM"
    );
}

#[test]
fn imaging_requests_are_checked_in_order() {
    assert_eq!(check_request("Physical", false, "", "", 0), Some("No source device selected.".to_string()));
    assert_eq!(check_request("Logical", false, "  ", "/x", 1), Some("No logical source path specified.".to_string()));
    assert_eq!(check_request("Physical", true, "", " ", 1), Some("No destination path specified.".to_string()));
    assert_eq!(check_request("Logical", false, "/src", "/x", 0), Some("At least one hash algorithm must be enabled.".to_string()));
    assert_eq!(check_request("Physical", true, "", "/x.dd", 2), None);
    assert_eq!(default_extension("Logical", "E01"), None);
    assert_eq!(default_extension("Physical", "AFF image"), Some("aff".to_string()));
    assert_eq!(default_extension("Physical", "Raw"), Some("dd".to_string()));
    assert_eq!(header_name("E01 (EnCase)"), "E01");
    assert_eq!(header_name("SMART"), "DD");
    assert!(gigabyte_passed(999_999_999, 1_000_000_000));
    assert!(!gigabyte_passed(1_000_000_000, 1_999_999_999));
}

#[test]
fn utf16_names_decode_with_surrogate_pairs() {
    assert_eq!(decode_utf16(&[0x48, 0x69]), Some("Hi".to_string()));
    assert_eq!(decode_utf16(&[0x48, 0xD83D, 0xDE00]), Some("H\u{1F600}".to_string()));
    assert_eq!(decode_utf16(&[0xD83D]), None);
    assert_eq!(decode_utf16(&[0xDE00, 0x41]), None);
    assert_eq!(decode_utf16(&[]), Some(String::new()));
}

#[test]
fn trim_removes_unicode_white_space_at_both_ends() {
    assert_eq!(trim("  a b \t\r\n"), "a b");
    assert_eq!(trim("\u{3000}x\u{2009}"), "x");
    assert_eq!(trim(" \n "), "");
    assert_eq!(trim("a"), "a");
}

#[test]
fn only_uncompressed_images_resume_at_their_checkpoint() {
    assert_eq!(openforensic::config::resume_offset(4096, CompressionFormat::Uncompressed), 4096);
    assert_eq!(openforensic::config::resume_offset(4096, CompressionFormat::Gzip), 0);
    assert_eq!(openforensic::config::resume_offset(4096, CompressionFormat::Zstd), 0);
}

#[test]
fn copy_records_keep_size_and_digests_or_the_error() {
    let mut d = openforensic::hasher::HashDigests::new();
    d.insert(HashAlgorithm::SHA256, "ab".to_string());
    let ok = CopiedFileInfo::from_outcome("C:\\a".to_string(), "/out/a".to_string(), Ok((12, d)));
    assert!(ok.success && ok.size == 12 && ok.error.is_none());
    assert_eq!(ok.hashes.get(HashAlgorithm::SHA256).unwrap(), "ab");
    let bad = CopiedFileInfo::from_outcome("C:\\b".to_string(), "/out/b".to_string(), Err("denied".to_string()));
    assert!(!bad.success && bad.size == 0 && bad.hashes.is_empty());
    assert_eq!(bad.error.as_deref(), Some("denied"));
    assert_eq!(bad.dest_path, "/out/b");
}
