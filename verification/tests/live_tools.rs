use openforensic::locked_files::TargetOs;
use openforensic::output::{part_extension, CompressionFormat, HeaderFormat, OutputWriter, WriteOp};
use openforensic::platform::{LinuxBackend, MacosBackend, WindowsBackend};
use openforensic::ram::{
    abuse_result_line, abuse_summary, address_to_check, enrichment_target, execution_line, volatility_call,
    VolatilityConfig,
};
use openforensic::report::Timestamp;
use openforensic::triage::{
    command_failed_message, executing_message, failed_status_line, history_sources, loaded_modules_call,
    netstat_call, parse_netstat_output, parse_netstat_row, registry_export_call, registry_exports,
    process_list_call, system_info_call, triage_audit_manifest, triage_summary, ProfileBase,
};
use openforensic::hasher::{HashAlgorithm, HashDigests};

fn vol(path: &str) -> VolatilityConfig {
    VolatilityConfig {
        image_path: "/mem.raw".to_string(),
        vol_path: path.to_string(),
        profile: "windows.pslist".to_string(),
        enrich_vt: false,
        enrich_mb: false,
        enrich_abuseip: true,
        vt_key: String::new(),
        mb_key: String::new(),
        abuseip_key: "k".to_string(),
    }
}

#[test]
fn netstat_rows_after_the_header_are_read() {
    let out = "\nActive Connections\n\n  Proto  Local Address          Foreign Address        State           PID\n  TCP    0.0.0.0:135            0.0.0.0:0              LISTENING       1040\n  UDP    0.0.0.0:5353           *:*                                    2212\n  short line\n  TCP    1.2.3.4:80             5.6.7.8:999            ESTABLISHED     x12\n";
    let rows = parse_netstat_output(out);
    assert_eq!(rows.len(), 3);
    assert_eq!(rows[0].protocol, "TCP");
    assert_eq!(rows[0].local_address, "0.0.0.0:135");
    assert_eq!(rows[0].state, "LISTENING");
    assert_eq!(rows[0].pid, 1040);
    assert_eq!(rows[1].foreign_address, "*:*");
    assert_eq!(rows[1].state, "");
    assert_eq!(rows[1].pid, 2212);
    assert_eq!(rows[2].pid, 0);
    assert!(parse_netstat_row("a b c").is_none());
    assert!(parse_netstat_output("one\ntwo\nthree\nTCP a b c 1").is_empty());
}

#[test]
fn triage_programs_depend_on_the_system() {
    assert_eq!(netstat_call(TargetOs::Windows).args, vec!["-ano".to_string()]);
    assert_eq!(netstat_call(TargetOs::Linux).args, vec!["-an".to_string()]);
    assert_eq!(loaded_modules_call(TargetOs::MacOs).program, "kextstat");
    assert_eq!(loaded_modules_call(TargetOs::Linux).program, "lsmod");
    let u = system_info_call(TargetOs::Linux);
    assert_eq!((u.program.as_str(), u.args.clone()), ("uname", vec!["-a".to_string()]));
    let reg = registry_export_call("HKLM\\SAM", "C:\\out\\sam_hive.reg");
    assert_eq!(reg.args, vec!["export", "HKLM\\SAM", "C:\\out\\sam_hive.reg", "/y"]);
    assert_eq!(registry_exports()[2].log_file, "run_keys_export_log.txt");
    let h = history_sources(TargetOs::Windows);
    assert_eq!(h.len(), 2);
    assert_eq!(h[1].label, "Edge");
    assert_eq!(h[1].base, ProfileBase::LocalAppData);
    assert_eq!(history_sources(TargetOs::MacOs)[0].label, "macOS Chrome");
}

#[test]
fn triage_messages() {
    let call = registry_export_call("HKLM\\SYSTEM", "x.reg");
    assert_eq!(executing_message(&call), "[TRIAGE] Executing command: reg export HKLM\\SYSTEM x.reg /y");
    assert_eq!(executing_message(&loaded_modules_call(TargetOs::Linux)), "[TRIAGE] Executing command: lsmod ");
    assert_eq!(failed_status_line(Some(2)), "=== ERROR: Command returned non-zero status 2 ===");
    assert_eq!(failed_status_line(None), "=== ERROR: Command returned non-zero status -1 ===");
    assert_eq!(command_failed_message("reg", "  denied\n"), "[TRIAGE] Warning: Command 'reg' failed: denied");
    let s = triage_summary("/cases/t1", Timestamp { secs: 1_700_000_000, nanos: 5 }, "linux", "x86_64");
    assert_eq!(
        s,
        "==================================================\n        FORGELENS FORENSIC TRIAGE REPORT          \n==================================================\nTriage Location: /cases/t1\nExecution Date:  Tue, 14 Nov 2023 22:13:20 +0000\nStatus:          SUCCESS / TRIAGED\nOperating System:linux\nArchitecture:    x86_64\n==================================================\n"
    );
}

#[test]
fn triage_lists_processes_and_writes_an_audit_manifest() {
    let ps = process_list_call(TargetOs::Linux);
    assert_eq!((ps.program.as_str(), ps.args.clone()), ("ps", vec!["ax".to_string()]));
    let tl = process_list_call(TargetOs::Windows);
    assert_eq!((tl.program.as_str(), tl.args.len()), ("tasklist", 0));
    let mut d = HashDigests::new();
    d.insert(HashAlgorithm::MD5, "m1".to_string());
    d.insert(HashAlgorithm::SHA256, "s1".to_string());
    let entries = vec![("processes.txt".to_string(), d)];
    let m = triage_audit_manifest("/cases/t1", Timestamp { secs: 1_700_000_000, nanos: 0 }, &entries);
    let rule = "==================================================\n";
    assert_eq!(
        m,
        format!(
            "{rule}        FORGELENS TRIAGE AUDIT MANIFEST           \n{rule}Triage Location: /cases/t1\nGenerated:       Tue, 14 Nov 2023 22:13:20 +0000\n{rule}File: processes.txt\n  MD5: m1\n  SHA256: s1\n{rule}Files Hashed:    1\n"
        )
    );
}

#[test]
fn volatility_runs_scripts_through_python() {
    let c = volatility_call(&vol("/opt/vol/vol.py"));
    assert_eq!(c.program, "python");
    assert_eq!(c.args, vec!["/opt/vol/vol.py", "-f", "/mem.raw", "windows.pslist"]);
    let c = volatility_call(&vol("vol"));
    assert_eq!(c.program, "vol");
    assert_eq!(c.args, vec!["-f", "/mem.raw", "windows.pslist"]);
    assert_eq!(execution_line(&vol("vol")), "Executing: vol -f /mem.raw windows.pslist");
}

#[test]
fn public_addresses_are_enriched() {
    let cfg = vol("vol");
    assert_eq!(
        enrichment_target("conn 0x1 8.8.8.8:53 10.0.0.1:5000", cfg.enrich_abuseip, &cfg.abuseip_key),
        Some("8.8.8.8".to_string())
    );
    assert_eq!(enrichment_target("from 192.168.1.5 to 8.8.8.8", true, "k"), None);
    assert_eq!(enrichment_target("8.8.8.8", true, ""), None);
    assert_eq!(enrichment_target("no address here", true, "k"), None);
    assert_eq!(address_to_check(Some("172.16.0.9".to_string())), None);
    assert_eq!(address_to_check(Some("172.17.0.9".to_string())), Some("172.17.0.9".to_string()));
    assert_eq!(abuse_summary(&Some((Some(87), Some("RU".to_string())))), "Confidence Score: 87%, Country: RU");
    assert_eq!(abuse_summary(&Some((None, None))), "Confidence Score: 0%, Country: Unknown");
    assert_eq!(abuse_summary(&None), "No data");
    assert_eq!(abuse_result_line("8.8.8.8", "No data"), "  [AbuseIPDB] Result for 8.8.8.8: No data");
}

#[test]
fn platform_details() {
    assert_eq!(LinuxBackend::device_type("nvme0n1", "0"), "NVMe SSD");
    assert_eq!(LinuxBackend::device_type("sda", "1"), "HDD");
    assert!(LinuxBackend::is_virtual_device("loop3"));
    assert_eq!(LinuxBackend::size_from_sysfs("  2048\n"), 1_048_576);
    assert_eq!(LinuxBackend::size_from_sysfs("junk"), 0);
    assert_eq!(
        LinuxBackend::mount_points("/dev/sda1 / ext4 rw 0 0\n/dev/sdb1 /mnt vfat rw 0 0\n/dev/sda2 /home ext4 rw 0 0\n", "/dev/sda"),
        vec!["/".to_string(), "/home".to_string()]
    );
    let mut buf = b"PhysicalDrive0\0junk".to_vec();
    buf.extend_from_slice(&[0u8; 4]);
    assert_eq!(WindowsBackend::parse_null_str(&buf, 0), "PhysicalDrive0");
    assert_eq!(WindowsBackend::drive_path(2), "\\\\.\\PhysicalDrive2");
    assert_eq!(MacosBackend::raw_disk_node(4), "/dev/rdisk4");
    assert_eq!(MacosBackend::disk_size(1000, 4096), 4_096_000);
}

#[test]
fn split_counts_follow_the_total_over_many_writes() {
    let mut w = OutputWriter::new(Some(4), CompressionFormat::Uncompressed, false);
    let mut total = 0usize;
    for buf in [&b"abc"[..], &b"defgh"[..], &b"ij"[..], &b"klmn"[..]] {
        let ops = w.write_all(buf);
        total += buf.len();
        // A new part begins only after a full one.
        assert!(ops.iter().all(|o| !matches!(o, WriteOp::NextPart { .. })) || w.current_part() > 1);
        assert_eq!(w.bytes_written_part() as usize, (total - 1) % 4 + 1);
        assert_eq!(w.current_part() as usize, (total - 1) / 4 + 1);
    }
    assert_eq!(total, 14);
    assert_eq!(w.bytes_written_part(), 2);
    assert_eq!(w.current_part(), 4);
}

#[test]
fn resumed_writer_stands_where_the_uninterrupted_one_did() {
    let bufs: [&[u8]; 4] = [b"abc", b"defgh", b"ij", b"klmnop"];
    let mut whole = OutputWriter::new(Some(4), CompressionFormat::Uncompressed, false);
    whole.write_format_header("AFF", "C1", "Ex", "EV", "none");
    let header_bytes = whole.bytes_written_part();
    let mut before = Vec::new();
    for b in bufs {
        before.push((whole.bytes_written_part(), whole.current_part()));
        assert!(whole.can_write(b.len() as u64));
        whole.write_all(b);
    }
    // Interrupted after the first two writes (8 bytes of the source).
    let mut resumed = OutputWriter::new(Some(4), CompressionFormat::Uncompressed, false);
    assert!(resumed.header_fits("AFF", "C1", "Ex", "EV", "none"));
    resumed.write_format_header("AFF", "C1", "Ex", "EV", "none");
    assert_eq!(resumed.bytes_written_part(), header_bytes);
    assert!(resumed.can_write(8));
    resumed.skip_written(8);
    for (i, b) in bufs.iter().enumerate().skip(2) {
        assert_eq!((resumed.bytes_written_part(), resumed.current_part()), before[i]);
        resumed.write_all(b);
    }
    assert_eq!(
        (resumed.bytes_written_part(), resumed.current_part()),
        (whole.bytes_written_part(), whole.current_part())
    );
}

#[test]
fn write_limits_are_checked_before_writing() {
    let w = OutputWriter::new(Some(0), CompressionFormat::Uncompressed, false);
    assert!(!w.can_write(1));
    let w = OutputWriter::new(Some(1), CompressionFormat::Uncompressed, false);
    assert!(w.can_write(u32::MAX as u64));
    assert!(!w.can_write(u32::MAX as u64 + 1));
    let mut u = OutputWriter::new(None, CompressionFormat::Uncompressed, false);
    u.skip_written(u64::MAX - 3);
    assert!(u.can_write(3));
    assert!(!u.can_write(4));
    assert!(!u.header_fits("E01", "", "", "", ""));
    assert!(u.header_fits("DD", "", "", "", ""));
}

#[test]
fn writer_splits_parts_and_leaves_holes() {
    let mut w = OutputWriter::new(Some(4), CompressionFormat::Uncompressed, false);
    let ops = w.write_all(b"abcdef");
    assert_eq!(ops, vec![WriteOp::Data { start: 0, len: 4 }, WriteOp::NextPart { part: 2 }, WriteOp::Data { start: 4, len: 2 }]);
    assert_eq!(w.current_part(), 2);
    assert_eq!(w.bytes_written_part(), 2);
    let mut s = OutputWriter::new(Some(4), CompressionFormat::Uncompressed, true);
    let ops = s.write_all(&[0, 0, 0, 0, 1, 0]);
    assert_eq!(ops, vec![WriteOp::Hole { len: 4 }, WriteOp::NextPart { part: 2 }, WriteOp::Data { start: 4, len: 2 }]);
    let mut z = OutputWriter::new(None, CompressionFormat::Gzip, true);
    let ops = z.write_zeros(10);
    let total: usize = ops
        .iter()
        .map(|o| match o {
            WriteOp::Zeros { len } => *len,
            _ => panic!("compressed output writes its zeros"),
        })
        .sum();
    assert_eq!(total, 10);
    assert_eq!(part_extension(7), "007");
    assert_eq!(part_extension(1234), "1234");
}

#[test]
fn container_headers() {
    let mut w = OutputWriter::new(None, CompressionFormat::Uncompressed, false);
    assert_eq!(HeaderFormat::from_name("DD"), None);
    assert_eq!(w.write_format_header("DD", "c", "e", "i", "n"), None);
    assert_eq!(w.bytes_written_part(), 0);
    let t = w.write_format_header("AFF", "C1", "Ex", "EV", "none").unwrap();
    assert_eq!(
        t,
        "=== ADVANCED FORENSIC FORMAT HEADER (AFF) ===\nCase Number: C1\nExaminer:    Ex\nEvidence ID: EV\nNotes:       none\nAcquisition: AFF Staged Metadata Block\n=============================================\n"
    );
    assert_eq!(w.bytes_written_part(), t.len() as u64);
    assert_eq!(w.bytes_written_part(), 197);
    let t2 = w.write_format_header("E01", "", "", "", "").unwrap();
    assert_eq!(t2.len(), 202);
    assert_eq!(w.bytes_written_part(), 197 + 202);
}

#[test]
fn storage_descriptor_strings_are_read_by_offset() {
    let mut buf = vec![0u8; 1024];
    buf[12..16].copy_from_slice(&100u32.to_le_bytes());
    buf[16..20].copy_from_slice(&200u32.to_le_bytes());
    buf[24..28].copy_from_slice(&300u32.to_le_bytes());
    buf[100..108].copy_from_slice(b"  ACME \0");
    buf[200..210].copy_from_slice(b"Disk 9000\0");
    buf[300..308].copy_from_slice(b" SN123 \0");
    let (model, serial, vendor) = WindowsBackend::descriptor_strings(&buf, 400);
    assert_eq!((model.as_str(), serial.as_str(), vendor.as_str()), ("Disk 9000", "SN123", "ACME"));
    let (_, serial, _) = WindowsBackend::descriptor_strings(&buf, 250);
    assert_eq!(serial, "");
    assert_eq!(WindowsBackend::descriptor_string(&buf, 0, 400), "");
    assert_eq!(WindowsBackend::drive_name(3), "PhysicalDrive3");
}
