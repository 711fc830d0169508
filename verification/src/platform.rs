//! What the platform back-ends decide from what the system reports: the
//! kind of a Linux block device, its mount points, its size from sysfs,
//! the strings of a Windows storage descriptor, device names and paths,
//! and the read buffer of the desktop imager.

use vstd::prelude::*;
use crate::partition::{le_bytes, read_le_u32};
use crate::text::{
    push_str, push_decimal, decimal, lines, lines_of, split_whitespace, words_of, starts_with,
    starts_with_str, trim, trimmed, parse_u64, parsed_unsigned, decode_utf8_lossy, utf8_lossy, str_eq,
};

verus! {

/// The Linux back-end (sysfs, /proc and block-device ioctls).
pub struct LinuxBackend;

/// The macOS back-end (/dev/disk nodes and disk ioctls).
pub struct MacosBackend;

/// The Windows back-end (physical drives and storage ioctls).
pub struct WindowsBackend;

// ---------------------------------------------------------------------
// Linux
// ---------------------------------------------------------------------

/// The kind of a Linux block device: not rotational ("0") means solid
/// state, "NVMe SSD" when the device is an NVMe one; anything else is a
/// hard disk.
pub open spec fn device_type_of(name: Seq<char>, rotational: Seq<char>) -> Seq<char> {
    if rotational == "0"@ {
        if starts_with(name, "nvme"@) {
            "NVMe SSD"@
        } else {
            "SSD"@
        }
    } else {
        "HDD"@
    }
}

impl LinuxBackend {
    /// The kind of block device `name` whose queue/rotational file reads
    /// `rotational` (trimmed).
    pub fn device_type(name: &str, rotational: &str) -> (t: String)
        ensures
            t@ == device_type_of(name@, rotational@),
    {
        let mut t = String::new();
        if str_eq(rotational, "0") {
            if starts_with_str(name, "nvme") {
                push_str(&mut t, "NVMe SSD");
            } else {
                push_str(&mut t, "SSD");
            }
        } else {
            push_str(&mut t, "HDD");
        }
        t
    }

    /// Whether a block device is left out of the device list (loop and
    /// RAM disks).
    pub fn is_virtual_device(name: &str) -> (b: bool)
        ensures
            b == (starts_with(name@, "loop"@) || starts_with(name@, "ram"@)),
    {
        starts_with_str(name, "loop") || starts_with_str(name, "ram")
    }

    /// The device's size from its sysfs "size" file: the sector count it
    /// holds (0 when it does not parse) times 512, wrapping at 64 bits.
    pub fn size_from_sysfs(size_text: &str) -> (size: u64)
        ensures
            size == (match parsed_unsigned(trimmed(size_text@), u64::MAX as nat) {
                Some(n) => n as u64,
                None => 0u64,
            }).wrapping_mul(512),
    {
        let t = trim(size_text);
        let blocks = match parse_u64(t.as_str()) {
            Some(n) => n,
            None => 0,
        };
        blocks.wrapping_mul(512)
    }

    /// The mount points of `dev_path` in /proc/mounts: the second field of
    /// each line of two fields or more whose first field starts with it.
    pub fn mount_points(mounts: &str, dev_path: &str) -> (v: Vec<String>)
        ensures
            v@.len() == mount_points_of(lines_of(mounts@), dev_path@, lines_of(mounts@).len() as int).len(),
            forall|i: int|
                0 <= i < v@.len() ==> (#[trigger] v@[i])@ == mount_points_of(
                    lines_of(mounts@),
                    dev_path@,
                    lines_of(mounts@).len() as int,
                )[i],
    {
        let ls = lines(mounts);
        let ghost all = lines_of(mounts@);
        let mut v: Vec<String> = Vec::new();
        let mut i: usize = 0;
        while i < ls.len()
            invariant
                i <= ls@.len(),
                all == lines_of(mounts@),
                ls@.len() == all.len(),
                forall|k: int| 0 <= k < ls@.len() ==> (#[trigger] ls@[k])@ == all[k],
                v@.len() == mount_points_of(all, dev_path@, i as int).len(),
                forall|k: int| 0 <= k < v@.len() ==> (#[trigger] v@[k])@ == mount_points_of(all, dev_path@, i as int)[k],
            decreases ls@.len() - i,
        {
            let parts = split_whitespace(ls[i].as_str());
            proof {
                assert(ls@[i as int]@ == all[i as int]);
            }
            let ghost before = v@;
            if parts.len() >= 2 && starts_with_str(parts[0].as_str(), dev_path) {
                v.push(parts[1].clone());
            }
            proof {
                assert forall|k: int| 0 <= k < v@.len() implies (#[trigger] v@[k])@ == mount_points_of(
                    all,
                    dev_path@,
                    i + 1,
                )[k] by {
                    if k < before.len() {
                        assert(v@[k] == before[k]);
                    }
                }
            }
            i += 1;
        }
        v
    }
}

/// The mount points of `dev_path` among the first `k` lines of /proc/mounts.
pub open spec fn mount_points_of(lines: Seq<Seq<char>>, dev_path: Seq<char>, k: int) -> Seq<Seq<char>>
    decreases k,
{
    if k <= 0 {
        Seq::empty()
    } else {
        let prev = mount_points_of(lines, dev_path, k - 1);
        let parts = words_of(lines[k - 1]);
        if parts.len() >= 2 && starts_with(parts[0], dev_path) {
            prev.push(parts[1])
        } else {
            prev
        }
    }
}

// ---------------------------------------------------------------------
// Windows
// ---------------------------------------------------------------------

/// The bytes from `offset` up to the first zero byte (or the end).
pub open spec fn bytes_until_nul(buffer: Seq<u8>, offset: int) -> Seq<u8>
    decreases buffer.len() - offset,
{
    if offset < 0 || offset >= buffer.len() || buffer[offset] == 0 {
        Seq::empty()
    } else {
        seq![buffer[offset]] + bytes_until_nul(buffer, offset + 1)
    }
}

/// A string of a storage descriptor: the text at `offset` up to its
/// first zero byte, trimmed, when `offset` lies past the start and inside
/// the `returned` bytes; empty otherwise.
pub open spec fn descriptor_text(buffer: Seq<u8>, offset: nat, returned: nat) -> Seq<char> {
    if 0 < offset && offset < returned {
        trimmed(utf8_lossy(bytes_until_nul(buffer, offset as int)))
    } else {
        Seq::empty()
    }
}

impl WindowsBackend {
    /// The string stored at `offset` of a storage descriptor: the bytes up
    /// to the first zero byte, decoded as UTF-8 with invalid sequences
    /// replaced.
    pub fn parse_null_str(buffer: &[u8], offset: usize) -> (s: String)
        ensures
            s@ == utf8_lossy(bytes_until_nul(buffer@, offset as int)),
    {
        let mut bytes: Vec<u8> = Vec::new();
        let mut i = offset;
        let ghost start = offset as int;
        while i < buffer.len() && buffer[i] != 0
            invariant
                offset <= i,
                bytes@ + bytes_until_nul(buffer@, i as int) == bytes_until_nul(buffer@, start),
                start == offset,
            decreases buffer@.len() - i,
        {
            proof {
                assert(bytes_until_nul(buffer@, i as int) == seq![buffer@[i as int]] + bytes_until_nul(
                    buffer@,
                    i + 1,
                ));
                assert(bytes@.push(buffer@[i as int]) + bytes_until_nul(buffer@, i + 1) =~= bytes@ + (seq![
                    buffer@[i as int],
                ] + bytes_until_nul(buffer@, i + 1)));
            }
            bytes.push(buffer[i]);
            i += 1;
        }
        proof {
            assert(bytes_until_nul(buffer@, i as int) == Seq::<u8>::empty());
            assert(bytes@ + Seq::<u8>::empty() =~= bytes@);
        }
        decode_utf8_lossy(bytes.as_slice())
    }

    /// A string of a storage device descriptor whose offset field holds
    /// `offset`: the trimmed text there when the offset lies past the
    /// start and inside the `returned` bytes; empty otherwise.
    pub fn descriptor_string(buffer: &[u8], offset: u32, returned: u32) -> (s: String)
        ensures
            s@ == descriptor_text(buffer@, offset as nat, returned as nat),
    {
        if offset > 0 && offset < returned {
            let raw = Self::parse_null_str(buffer, offset as usize);
            trim(raw.as_str())
        } else {
            String::new()
        }
    }

    /// Model, serial number and vendor of a storage device descriptor
    /// (STORAGE_DEVICE_DESCRIPTOR, read little-endian): the strings whose
    /// offsets stand at bytes 16, 24 and 12 of the `returned` bytes.
    pub fn descriptor_strings(buffer: &[u8], returned: u32) -> (r: (String, String, String))
        requires
            28 <= buffer@.len(),
        ensures
            r.0@ == descriptor_text(buffer@, le_bytes(buffer@, 16, 4), returned as nat),
            r.1@ == descriptor_text(buffer@, le_bytes(buffer@, 24, 4), returned as nat),
            r.2@ == descriptor_text(buffer@, le_bytes(buffer@, 12, 4), returned as nat),
    {
        let product = read_le_u32(buffer, 16);
        let serial = read_le_u32(buffer, 24);
        let vendor = read_le_u32(buffer, 12);
        (
            Self::descriptor_string(buffer, product, returned),
            Self::descriptor_string(buffer, serial, returned),
            Self::descriptor_string(buffer, vendor, returned),
        )
    }

    /// Name of physical drive `i` ("PhysicalDrive<i>").
    pub fn drive_name(i: u32) -> (s: String)
        ensures
            s@ == "PhysicalDrive"@ + decimal(i as nat),
    {
        let mut s = String::new();
        push_str(&mut s, "PhysicalDrive");
        push_decimal(&mut s, i as u64);
        s
    }

    /// Device path of physical drive `i` ("\\.\PhysicalDrive<i>").
    pub fn drive_path(i: u32) -> (s: String)
        ensures
            s@ == "\\\\.\\PhysicalDrive"@ + decimal(i as nat),
    {
        let mut s = String::new();
        push_str(&mut s, "\\\\.\\PhysicalDrive");
        push_decimal(&mut s, i as u64);
        s
    }
}

// ---------------------------------------------------------------------
// macOS
// ---------------------------------------------------------------------

impl MacosBackend {
    /// Name of disk `i` ("disk<i>").
    pub fn disk_name(i: u32) -> (s: String)
        ensures
            s@ == "disk"@ + decimal(i as nat),
    {
        let mut s = String::new();
        push_str(&mut s, "disk");
        push_decimal(&mut s, i as u64);
        s
    }

    /// Block node of disk `i` ("/dev/disk<i>"), probed for existence.
    pub fn disk_node(i: u32) -> (s: String)
        ensures
            s@ == "/dev/disk"@ + decimal(i as nat),
    {
        let mut s = String::new();
        push_str(&mut s, "/dev/disk");
        push_decimal(&mut s, i as u64);
        s
    }

    /// Raw node of disk `i` ("/dev/rdisk<i>"), read when imaging.
    pub fn raw_disk_node(i: u32) -> (s: String)
        ensures
            s@ == "/dev/rdisk"@ + decimal(i as nat),
    {
        let mut s = String::new();
        push_str(&mut s, "/dev/rdisk");
        push_decimal(&mut s, i as u64);
        s
    }

    /// A disk's size from its block count and block size (wrapping at 64 bits).
    pub fn disk_size(sector_count: u64, sector_size: u32) -> (n: u64)
        ensures
            n == sector_count.wrapping_mul(sector_size as u64),
    {
        sector_count.wrapping_mul(sector_size as u64)
    }
}

} // verus!
