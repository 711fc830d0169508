use openforensic::partition::{
    mbr_type_name, parse_gpt_header, parse_mbr, read_le_u32, FileSystem, GptPartitionKind, MbrScan, PartitionInfo,
    BASIC_DATA_GUID, EFI_SYSTEM_GUID,
};
use openforensic::probe::{detect_partitions, PartitionProbe, ProbeAction};

/// Runs detection over an in-memory disk: a read past the end fails.
fn detect(disk: &[u8]) -> Vec<PartitionInfo> {
    let mut probe = PartitionProbe::new();
    let mut req = probe.pending().expect("a first read");
    loop {
        let end = req.offset as usize + req.len;
        let outcome = if end <= disk.len() { Some(disk[req.offset as usize..end].to_vec()) } else { None };
        if !probe.accepts_outcome(&outcome) {
            return Vec::new();
        }
        match detect_partitions(&mut probe, outcome) {
            ProbeAction::Read(q) => req = q,
            ProbeAction::Finished(v) => return v,
        }
    }
}

fn mbr_entry(disk: &mut [u8], slot: usize, ptype: u8, lba: u32, sectors: u32) {
    let o = 446 + slot * 16;
    disk[o + 4] = ptype;
    disk[o + 8..o + 12].copy_from_slice(&lba.to_le_bytes());
    disk[o + 12..o + 16].copy_from_slice(&sectors.to_le_bytes());
    disk[510] = 0x55;
    disk[511] = 0xAA;
}

#[test]
fn no_boot_signature_means_no_partitions() {
    let disk = vec![0u8; 4096];
    assert!(matches!(parse_mbr(&disk[..512]), MbrScan::NoSignature));
    assert!(detect(&disk).is_empty());
}

#[test]
fn mbr_partition_with_ntfs_boot_sector() {
    let mut disk = vec![0u8; 8 * 512];
    mbr_entry(&mut disk, 0, 0x07, 2, 4);
    disk[2 * 512 + 3..2 * 512 + 11].copy_from_slice(b"NTFS    ");
    let parts = detect(&disk);
    assert_eq!(parts.len(), 1);
    assert_eq!(parts[0].name, "Partition 1");
    assert_eq!(parts[0].size, 2048);
    assert_eq!(parts[0].fs_type, "NTFS");
}

#[test]
fn mbr_partition_falls_back_to_the_table_type() {
    let mut disk = vec![0u8; 8 * 512];
    mbr_entry(&mut disk, 1, 0x83, 1, 2);
    mbr_entry(&mut disk, 2, 0x9F, 3, 1);
    let parts = detect(&disk);
    assert_eq!(parts.len(), 2);
    assert_eq!(parts[0].name, "Partition 2");
    assert_eq!(parts[0].fs_type, "Linux ext");
    assert_eq!(parts[0].size, 1024);
    assert_eq!(parts[1].name, "Partition 3");
    assert_eq!(parts[1].fs_type, "MBR Partition Type 0x9F");
    assert_eq!(mbr_type_name(0x0C), "FAT32");
    assert_eq!(mbr_type_name(0x0E), "FAT16/FAT12");
}

#[test]
fn ext_superblock_is_found_past_the_boot_sector() {
    let mut disk = vec![0u8; 16 * 512];
    mbr_entry(&mut disk, 0, 0x83, 4, 8);
    let sb = 4 * 512 + 1024;
    disk[sb + 56] = 0x53;
    disk[sb + 57] = 0xEF;
    let parts = detect(&disk);
    assert_eq!(parts[0].fs_type, "ext2/3/4");
}

fn gpt_disk() -> Vec<u8> {
    let mut disk = vec![0u8; 64 * 512];
    mbr_entry(&mut disk, 0, 0xEE, 1, 63);
    let h = 512;
    disk[h..h + 8].copy_from_slice(b"EFI PART");
    disk[h + 72..h + 80].copy_from_slice(&2u64.to_le_bytes());
    disk[h + 80..h + 84].copy_from_slice(&4u32.to_le_bytes());
    disk[h + 84..h + 88].copy_from_slice(&128u32.to_le_bytes());
    let e0 = 2 * 512;
    disk[e0..e0 + 16].copy_from_slice(&BASIC_DATA_GUID);
    disk[e0 + 32..e0 + 40].copy_from_slice(&34u64.to_le_bytes());
    disk[e0 + 40..e0 + 48].copy_from_slice(&41u64.to_le_bytes());
    for (i, u) in " DATA ".encode_utf16().enumerate() {
        disk[e0 + 56 + 2 * i..e0 + 58 + 2 * i].copy_from_slice(&u.to_le_bytes());
    }
    let e1 = e0 + 128;
    disk[e1..e1 + 16].copy_from_slice(&EFI_SYSTEM_GUID);
    disk[e1 + 32..e1 + 40].copy_from_slice(&42u64.to_le_bytes());
    disk[e1 + 40..e1 + 48].copy_from_slice(&43u64.to_le_bytes());
    disk[34 * 512 + 3..34 * 512 + 11].copy_from_slice(b"EXFAT   ");
    disk
}

#[test]
fn gpt_partitions_are_named_and_probed() {
    let disk = gpt_disk();
    assert!(matches!(parse_mbr(&disk[..512]), MbrScan::Protective));
    let h = parse_gpt_header(&disk[512..1024]).expect("EFI PART header");
    assert_eq!(read_le_u32(&disk[512..1024], 80), 4);
    let _ = h;
    let parts = detect(&disk);
    assert_eq!(parts.len(), 2);
    assert_eq!(parts[0].name, "DATA");
    assert_eq!(parts[0].size, 8 * 512);
    assert_eq!(parts[0].fs_type, "exFAT");
    assert_eq!(parts[1].name, "Partition 2");
    assert_eq!(parts[1].size, 1024);
    assert_eq!(parts[1].fs_type, "EFI System Partition");
}

#[test]
fn an_undecodable_gpt_name_falls_back_to_the_slot_number() {
    let mut disk = gpt_disk();
    let e0 = 2 * 512;
    for b in disk[e0 + 56..e0 + 128].iter_mut() {
        *b = 0;
    }
    disk[e0 + 56..e0 + 58].copy_from_slice(&0xD800u16.to_le_bytes());
    let parts = detect(&disk);
    assert_eq!(parts[0].name, "Partition 1");
}

#[test]
fn a_failed_header_read_gives_no_partitions() {
    let disk = gpt_disk();
    assert!(detect(&disk[..512]).is_empty());
}

#[test]
fn partition_kinds_and_file_systems_have_labels() {
    assert_eq!(GptPartitionKind::from_guid(&BASIC_DATA_GUID).label(), "Basic Data");
    assert_eq!(GptPartitionKind::from_guid(&[1u8; 16]).label(), "Generic Data");
    assert!(!GptPartitionKind::from_guid(&EFI_SYSTEM_GUID).probes_file_system());
    let mut vbr = vec![0u8; 512];
    vbr[3..11].copy_from_slice(b"-FVE-FS-");
    assert_eq!(FileSystem::from_boot_sector(&vbr).map(|f| f.label()), Some("BitLocker Encrypted".to_string()));
    let mut blk = vec![0u8; 128];
    blk[64..72].copy_from_slice(b"_BHRfS_M");
    assert_eq!(FileSystem::from_btrfs_block(&blk).map(|f| f.label()), Some("Btrfs".to_string()));
}
