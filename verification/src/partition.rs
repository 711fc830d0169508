//! Recognition of partition tables (MBR and GPT) and of the file systems
//! found at the start of a partition, from the raw sectors read off a
//! device.

use vstd::prelude::*;
use crate::text::{decimal, hex_digit_upper, push_char, push_str, push_decimal, hex_char_upper, utf16_decoded, trimmed, decode_utf16, trim};
use vstd::string::StrSliceExecFns;

verus! {

/// Size of a logical sector in bytes.
pub const SECTOR_SIZE: u64 = 512;

/// A partition found on a device.
#[derive(Clone, Debug)]
pub struct PartitionInfo {
    pub name: String,
    pub size: u64,
    pub fs_type: String,
}

/// A block device as the platform back-ends report it.
#[derive(Clone, Debug)]
pub struct DeviceInfo {
    pub name: String,
    pub path: String,
    pub size: u64,
    pub model: String,
    pub serial: String,
    pub vendor: String,
    pub device_type: String,
    pub is_mounted: bool,
    pub mount_points: Vec<String>,
    pub partitions: Vec<PartitionInfo>,
    pub smart_health: String,
}

/// Little-endian value of `n` bytes of `b` starting at `off`.
pub open spec fn le_bytes(b: Seq<u8>, off: int, n: nat) -> nat
    decreases n,
{
    if n == 0 {
        0
    } else {
        b[off] as nat + 256 * le_bytes(b, off + 1, (n - 1) as nat)
    }
}

/// Whether `b` holds `pat` starting at `off`.
pub open spec fn holds_at(b: Seq<u8>, off: int, pat: Seq<u8>) -> bool {
    &&& 0 <= off
    &&& off + pat.len() <= b.len()
    &&& b.subrange(off, off + pat.len()) == pat
}

/// Whether `b` holds `pat` starting at `off`.
pub fn bytes_at(b: &[u8], off: usize, pat: &[u8]) -> (r: bool)
    ensures
        r == holds_at(b@, off as int, pat@),
{
    if off > b.len() || pat.len() > b.len() - off {
        return false;
    }
    let mut i: usize = 0;
    while i < pat.len()
        invariant
            i <= pat.len(),
            off + pat.len() <= b.len(),
            forall|k: int| 0 <= k < i ==> b@[off + k] == pat@[k],
        decreases pat.len() - i,
    {
        if b[off + i] != pat[i] {
            proof {
                assert(b@.subrange(off as int, off + pat.len())[i as int] != pat@[i as int]);
            }
            return false;
        }
        i += 1;
    }
    proof {
        assert(b@.subrange(off as int, off + pat.len()) =~= pat@);
    }
    true
}

/// Little-endian 16-bit value at `off`.
pub fn read_le_u16(b: &[u8], off: usize) -> (v: u16)
    requires
        off + 2 <= b@.len(),
    ensures
        v as nat == le_bytes(b@, off as int, 2),
{
    let v = (b[off] as u16) + 256 * (b[off + 1] as u16);
    proof {
        reveal_with_fuel(le_bytes, 3);
    }
    v
}

/// Little-endian 32-bit value at `off`.
pub fn read_le_u32(b: &[u8], off: usize) -> (v: u32)
    requires
        off + 4 <= b@.len(),
    ensures
        v as nat == le_bytes(b@, off as int, 4),
{
    let v = (b[off] as u32) + 256 * ((b[off + 1] as u32) + 256 * ((b[off + 2] as u32) + 256 * (
    b[off + 3] as u32)));
    proof {
        reveal_with_fuel(le_bytes, 5);
    }
    v
}

/// Little-endian 64-bit value at `off`.
pub fn read_le_u64(b: &[u8], off: usize) -> (v: u64)
    requires
        off + 8 <= b@.len(),
    ensures
        v as nat == le_bytes(b@, off as int, 8),
{
    let n = b.len();
    let lo = read_le_u32(b, off) as u64;
    let hi = read_le_u32(b, off + 4) as u64;
    proof {
        lemma_le_split(b@, off as int, 4, 4);
        reveal_with_fuel(pow256, 5);
        assert(pow256(4) == 4294967296);
    }
    lo + 4294967296 * hi
}

/// A little-endian value splits into its low and high parts.
pub proof fn lemma_le_split(b: Seq<u8>, off: int, m: nat, n: nat)
    ensures
        le_bytes(b, off, m + n) == le_bytes(b, off, m) + pow256(m) * le_bytes(b, off + m, n),
    decreases m,
{
    if m > 0 {
        let m1 = (m - 1) as nat;
        lemma_le_split(b, off + 1, m1, n);
        assert((m + n - 1) as nat == m1 + n);
        let x = le_bytes(b, off + 1, m1) as int;
        let y = pow256(m1) as int;
        let z = le_bytes(b, off + m, n) as int;
        assert(off + 1 + m1 == off + m);
        assert(256 * (x + y * z) == 256 * x + (256 * y) * z) by (nonlinear_arith);
        assert(le_bytes(b, off, m + n) == b[off] as nat + 256 * le_bytes(b, off + 1, m1 + n));
        assert(le_bytes(b, off + 1, m1 + n) == x + y * z);
        assert(le_bytes(b, off, m) == b[off] as nat + 256 * x);
        assert(pow256(m) == 256 * y);
        assert(pow256(m) * z == (256 * y) * z);
    } else {
        assert(le_bytes(b, off, 0) == 0);
        assert(pow256(0) == 1);
        assert(off + m == off);
    }
}

/// 256 to the power `n`.
pub open spec fn pow256(n: nat) -> nat
    decreases n,
{
    if n == 0 {
        1
    } else {
        256 * pow256((n - 1) as nat)
    }
}

// ---------------------------------------------------------------------
// MBR
// ---------------------------------------------------------------------

/// A primary partition entry of a DOS partition table.
#[derive(Clone, Copy, Debug, PartialEq, Eq, Structural)]
pub struct MbrPartition {
    /// 1-based slot number in the table.
    pub index: u64,
    pub part_type: u8,
    pub starting_lba: u64,
    pub size_bytes: u64,
}

/// What sector 0 of a device holds.
#[derive(Clone, Debug)]
pub enum MbrScan {
    /// No 0x55AA boot signature: no partition table.
    NoSignature,
    /// A protective entry (type 0xEE): the device uses a GUID partition table.
    Protective,
    /// The used primary entries, in table order.
    Primary(Vec<MbrPartition>),
}

/// Offset of the `i`-th partition entry in sector 0.
pub open spec fn mbr_entry_offset(i: int) -> int {
    446 + 16 * i
}

/// The `i`-th primary entry as it would be listed.
pub open spec fn mbr_entry(s: Seq<u8>, i: int) -> MbrPartition {
    MbrPartition {
        index: (i + 1) as u64,
        part_type: s[mbr_entry_offset(i) + 4],
        starting_lba: le_bytes(s, mbr_entry_offset(i) + 8, 4) as u64,
        size_bytes: (le_bytes(s, mbr_entry_offset(i) + 12, 4) * 512) as u64,
    }
}

/// Whether the `i`-th primary entry is in use (non-zero type and size).
pub open spec fn mbr_entry_used(s: Seq<u8>, i: int) -> bool {
    s[mbr_entry_offset(i) + 4] != 0 && le_bytes(s, mbr_entry_offset(i) + 12, 4) > 0
}

/// Used entries among the first `k` slots, in slot order.
pub open spec fn mbr_used_entries(s: Seq<u8>, k: int) -> Seq<MbrPartition>
    decreases k,
{
    if k <= 0 {
        Seq::empty()
    } else if mbr_entry_used(s, k - 1) {
        mbr_used_entries(s, k - 1).push(mbr_entry(s, k - 1))
    } else {
        mbr_used_entries(s, k - 1)
    }
}

/// Whether sector 0 ends with the boot signature 0x55 0xAA.
pub open spec fn has_boot_signature(s: Seq<u8>) -> bool {
    s[510] == 0x55 && s[511] == 0xAA
}

/// Whether one of the four primary entries is a GPT protective entry.
pub open spec fn has_protective_entry(s: Seq<u8>) -> bool {
    exists|i: int| 0 <= i < 4 && s[mbr_entry_offset(i) + 4] == 0xEE
}

/// Reads the DOS partition table of sector 0.
pub fn parse_mbr(sector0: &[u8]) -> (r: MbrScan)
    requires
        sector0@.len() >= 512,
    ensures
        !has_boot_signature(sector0@) ==> r is NoSignature,
        has_boot_signature(sector0@) && has_protective_entry(sector0@) ==> r is Protective,
        has_boot_signature(sector0@) && !has_protective_entry(sector0@) ==> (r matches MbrScan::Primary(v)
            && v@ == mbr_used_entries(sector0@, 4)),
{
    if sector0[510] != 0x55 || sector0[511] != 0xAA {
        return MbrScan::NoSignature;
    }
    let mut parts: Vec<MbrPartition> = Vec::new();
    let mut i: usize = 0;
    while i < 4
        invariant
            i <= 4,
            sector0@.len() >= 512,
            has_boot_signature(sector0@),
            forall|j: int| 0 <= j < i ==> sector0@[mbr_entry_offset(j) + 4] != 0xEE,
            parts@ == mbr_used_entries(sector0@, i as int),
        decreases 4 - i,
    {
        let offset = 446 + i * 16;
        let part_type = sector0[offset + 4];
        let starting_lba = read_le_u32(sector0, offset + 8) as u64;
        let size_sectors = read_le_u32(sector0, offset + 12) as u64;
        if part_type == 0xEE {
            proof {
                assert(sector0@[mbr_entry_offset(i as int) + 4] == 0xEE);
            }
            return MbrScan::Protective;
        }
        if part_type != 0 && size_sectors > 0 {
            parts.push(MbrPartition {
                index: (i + 1) as u64,
                part_type,
                starting_lba,
                size_bytes: size_sectors * 512,
            });
        }
        i += 1;
    }
    MbrScan::Primary(parts)
}

/// Label of a DOS partition type byte.
pub open spec fn mbr_type_label(t: u8) -> Seq<char> {
    if t == 0x07 {
        "NTFS/exFAT"@
    } else if t == 0x0B || t == 0x0C {
        "FAT32"@
    } else if t == 0x01 || t == 0x04 || t == 0x06 || t == 0x0E {
        "FAT16/FAT12"@
    } else if t == 0x83 {
        "Linux ext"@
    } else if t == 0x82 {
        "Linux swap"@
    } else if t == 0x27 {
        "Windows Recovery (NTFS Hidden)"@
    } else {
        "MBR Partition Type 0x"@ + seq![hex_digit_upper((t / 16) as nat), hex_digit_upper((t % 16) as nat)]
    }
}

/// Label of a DOS partition type byte (used until the file system is recognised).
pub fn mbr_type_name(t: u8) -> (s: String)
    ensures
        s@ == mbr_type_label(t),
{
    let mut s = String::new();
    if t == 0x07 {
        push_str(&mut s, "NTFS/exFAT");
    } else if t == 0x0B || t == 0x0C {
        push_str(&mut s, "FAT32");
    } else if t == 0x01 || t == 0x04 || t == 0x06 || t == 0x0E {
        push_str(&mut s, "FAT16/FAT12");
    } else if t == 0x83 {
        push_str(&mut s, "Linux ext");
    } else if t == 0x82 {
        push_str(&mut s, "Linux swap");
    } else if t == 0x27 {
        push_str(&mut s, "Windows Recovery (NTFS Hidden)");
    } else {
        push_str(&mut s, "MBR Partition Type 0x");
        push_char(&mut s, hex_char_upper(t / 16));
        push_char(&mut s, hex_char_upper(t % 16));
    }
    s
}

/// "Partition <n>", the default name of the `n`-th partition.
pub open spec fn default_partition_name(n: nat) -> Seq<char> {
    "Partition "@ + decimal(n)
}

/// "Partition <n>".
pub fn default_partition_label(n: u64) -> (s: String)
    ensures
        s@ == default_partition_name(n as nat),
{
    let mut s = String::new();
    push_str(&mut s, "Partition ");
    push_decimal(&mut s, n);
    s
}

} // verus!

verus! {

// ---------------------------------------------------------------------
// GPT
// ---------------------------------------------------------------------

/// Signature at the start of a GPT header.
pub const GPT_SIGNATURE: [u8; 8] = [0x45, 0x46, 0x49, 0x20, 0x50, 0x41, 0x52, 0x54];

/// Where the partition entry array of a GPT lies.
#[derive(Clone, Copy, Debug, PartialEq, Eq, Structural)]
pub struct GptHeader {
    pub partition_entries_lba: u64,
    pub num_entries: u32,
    pub entry_size: u32,
}

/// Reads a GPT header (LBA 1); `None` unless it starts with "EFI PART".
pub fn parse_gpt_header(header: &[u8]) -> (r: Option<GptHeader>)
    requires
        header@.len() >= 512,
    ensures
        r is Some <==> holds_at(header@, 0, GPT_SIGNATURE@),
        r matches Some(h) ==> {
            &&& h.partition_entries_lba as nat == le_bytes(header@, 72, 8)
            &&& h.num_entries as nat == le_bytes(header@, 80, 4)
            &&& h.entry_size as nat == le_bytes(header@, 84, 4)
        },
{
    let sig = GPT_SIGNATURE;
    if !bytes_at(header, 0, &sig) {
        return None;
    }
    Some(GptHeader {
        partition_entries_lba: read_le_u64(header, 72),
        num_entries: read_le_u32(header, 80),
        entry_size: read_le_u32(header, 84),
    })
}

/// Byte offset of the partition entry array: the entry LBA times the
/// sector size, wrapping at 64 bits as the device offset arithmetic does.
pub fn gpt_entries_offset(h: &GptHeader) -> (off: u64)
    ensures
        off == h.partition_entries_lba.wrapping_mul(SECTOR_SIZE),
{
    h.partition_entries_lba.wrapping_mul(SECTOR_SIZE)
}

/// Byte length of the partition entry array, when it fits in memory
/// addressing.
pub fn gpt_entries_len(h: &GptHeader) -> (len: Option<usize>)
    ensures
        len matches Some(n) ==> n == h.num_entries as int * h.entry_size as int,
        len is None ==> h.num_entries as int * h.entry_size as int > usize::MAX,
{
    let a = h.num_entries as u64;
    let b = h.entry_size as u64;
    proof {
        assert(a * b <= 0xFFFF_FFFF * 0xFFFF_FFFF) by (nonlinear_arith)
            requires a <= 0xFFFF_FFFF, b <= 0xFFFF_FFFF;
    }
    let n = a * b;
    if n > usize::MAX as u64 {
        None
    } else {
        Some(n as usize)
    }
}

/// A used entry of the GPT partition entry array.
#[derive(Clone, Debug)]
pub struct GptEntry {
    /// 1-based position in the entry array.
    pub number: u64,
    pub type_guid: Vec<u8>,
    pub starting_lba: u64,
    pub ending_lba: u64,
    /// UTF-16 code units of the name, up to (excluding) the first NUL.
    pub name_units: Vec<u16>,
}

/// Offset of entry `e` in the entry array.
pub open spec fn gpt_entry_offset(e: int, entry_size: int) -> int {
    e * entry_size
}

/// Whether the 16 type-GUID bytes at `off` are all zero (an unused entry).
pub open spec fn guid_is_zero(b: Seq<u8>, off: int) -> bool {
    forall|k: int| 0 <= k < 16 ==> #[trigger] b.subrange(off, off + 16)[k] == 0
}

/// Whether entry `e` of the array is listed: a non-zero type GUID and an
/// ending LBA not below the starting LBA.
pub open spec fn gpt_entry_listed(b: Seq<u8>, e: int, entry_size: int) -> bool {
    let off = gpt_entry_offset(e, entry_size);
    !guid_is_zero(b, off) && le_bytes(b, off + 40, 8) >= le_bytes(b, off + 32, 8)
}

/// Indices of the listed entries among the first `k`, in order.
pub open spec fn gpt_listed_indices(b: Seq<u8>, entry_size: int, k: int) -> Seq<int>
    decreases k,
{
    if k <= 0 {
        Seq::empty()
    } else if gpt_entry_listed(b, k - 1, entry_size) {
        gpt_listed_indices(b, entry_size, k - 1).push(k - 1)
    } else {
        gpt_listed_indices(b, entry_size, k - 1)
    }
}

/// The 16-bit little-endian code units of a name field of `n` units at
/// `off`, up to the first zero unit.
pub open spec fn utf16_units_until_nul(b: Seq<u8>, off: int, n: nat) -> Seq<u16>
    decreases n,
{
    if n == 0 {
        Seq::empty()
    } else {
        let u = le_bytes(b, off, 2) as u16;
        if u == 0 {
            Seq::empty()
        } else {
            seq![u] + utf16_units_until_nul(b, off + 2, (n - 1) as nat)
        }
    }
}

/// Whether `g` describes entry `e` of the array `b`.
pub open spec fn gpt_entry_matches(g: GptEntry, b: Seq<u8>, e: int, entry_size: int) -> bool {
    let off = gpt_entry_offset(e, entry_size);
    &&& g.number == e + 1
    &&& g.type_guid@ == b.subrange(off, off + 16)
    &&& g.starting_lba as nat == le_bytes(b, off + 32, 8)
    &&& g.ending_lba as nat == le_bytes(b, off + 40, 8)
    &&& g.name_units@ == utf16_units_until_nul(b, off + 56, 36)
}

/// Whether reading entry `e` of the array stays inside `b`: its type GUID
/// always, its LBAs when the GUID is not zero, and its name when it is
/// listed.
pub open spec fn gpt_entry_in_bounds(b: Seq<u8>, e: int, entry_size: int) -> bool {
    let off = gpt_entry_offset(e, entry_size);
    &&& 0 <= off
    &&& off + 16 <= b.len()
    &&& !guid_is_zero(b, off) ==> off + 48 <= b.len()
    &&& gpt_entry_listed(b, e, entry_size) ==> off + 128 <= b.len()
}

/// Whether reading the first `num_entries` entries stays inside `b`.
pub open spec fn gpt_entries_in_bounds(b: Seq<u8>, num_entries: int, entry_size: int) -> bool {
    forall|e: int| 0 <= e < num_entries ==> #[trigger] gpt_entry_in_bounds(b, e, entry_size)
}

/// Entries of at least 128 bytes, all inside the array, are always read
/// inside it.
pub proof fn lemma_full_entries_in_bounds(b: Seq<u8>, num_entries: nat, entry_size: nat)
    requires
        entry_size >= 128,
        num_entries * entry_size <= b.len(),
    ensures
        gpt_entries_in_bounds(b, num_entries as int, entry_size as int),
{
    assert forall|e: int| 0 <= e < num_entries implies #[trigger] gpt_entry_in_bounds(b, e, entry_size as int) by {
        assert((e + 1) * entry_size <= num_entries * entry_size) by (nonlinear_arith)
            requires 0 <= e, e + 1 <= num_entries;
        assert((e + 1) * entry_size == e * entry_size + entry_size) by (nonlinear_arith);
        assert(e * entry_size >= 0) by (nonlinear_arith) requires 0 <= e;
    }
}

/// Whether reading the first `num_entries` entries of `entry_size` bytes
/// stays inside `buf`.
pub fn gpt_entries_readable(buf: &[u8], num_entries: usize, entry_size: usize) -> (r: bool)
    ensures
        r == gpt_entries_in_bounds(buf@, num_entries as int, entry_size as int),
{
    let blen = buf.len();
    let mut e: usize = 0;
    while e < num_entries
        invariant
            e <= num_entries,
            blen == buf@.len(),
            forall|k: int| 0 <= k < e ==> #[trigger] gpt_entry_in_bounds(buf@, k, entry_size as int),
        decreases num_entries - e,
    {
        let off = match e.checked_mul(entry_size) {
            Some(o) => o,
            None => {
                proof {
                    assert(!gpt_entry_in_bounds(buf@, e as int, entry_size as int));
                }
                return false;
            },
        };
        if off > blen || blen - off < 16 {
            proof {
                assert(!gpt_entry_in_bounds(buf@, e as int, entry_size as int));
            }
            return false;
        }
        if !zero_guid(buf, off) {
            if blen - off < 48 {
                proof {
                    assert(!gpt_entry_in_bounds(buf@, e as int, entry_size as int));
                }
                return false;
            }
            let starting_lba = read_le_u64(buf, off + 32);
            let ending_lba = read_le_u64(buf, off + 40);
            if ending_lba >= starting_lba && blen - off < 128 {
                proof {
                    assert(gpt_entry_listed(buf@, e as int, entry_size as int));
                    assert(!gpt_entry_in_bounds(buf@, e as int, entry_size as int));
                }
                return false;
            }
        }
        proof {
            assert(gpt_entry_in_bounds(buf@, e as int, entry_size as int));
        }
        e += 1;
    }
    true
}

/// Whether 16 bytes at `off` are all zero.
fn zero_guid(b: &[u8], off: usize) -> (r: bool)
    requires
        off + 16 <= b@.len(),
    ensures
        r == guid_is_zero(b@, off as int),
{
    let blen = b.len();
    let mut k: usize = 0;
    while k < 16
        invariant
            k <= 16,
            blen == b@.len(),
            off + 16 <= b@.len(),
            forall|j: int| 0 <= j < k ==> #[trigger] b@.subrange(off as int, off + 16)[j] == 0,
        decreases 16 - k,
    {
        proof { assert(b@.subrange(off as int, off + 16)[k as int] == b@[off + k]); }
        if b[off + k] != 0 {
            return false;
        }
        k += 1;
    }
    true
}

/// The name code units of a GPT entry: up to 36 units at `off`, stopping
/// at the first zero unit.
fn name_units_at(b: &[u8], off: usize) -> (v: Vec<u16>)
    requires
        off + 72 <= b@.len(),
    ensures
        v@ == utf16_units_until_nul(b@, off as int, 36),
{
    let blen = b.len();
    let mut v: Vec<u16> = Vec::new();
    let mut k: usize = 0;
    while k < 36
        invariant
            k <= 36,
            blen == b@.len(),
            off + 72 <= b@.len(),
            v@ + utf16_units_until_nul(b@, off + 2 * k, (36 - k) as nat) == utf16_units_until_nul(b@, off as int, 36),
        decreases 36 - k,
    {
        let u = read_le_u16(b, off + 2 * k);
        if u == 0 {
            proof {
                assert(utf16_units_until_nul(b@, off + 2 * k, (36 - k) as nat) == Seq::<u16>::empty());
                assert(v@ + Seq::<u16>::empty() =~= v@);
            }
            return v;
        }
        proof {
            let rest = utf16_units_until_nul(b@, off + 2 * (k + 1), (36 - k - 1) as nat);
            assert(off + 2 * k + 2 == off + 2 * (k + 1));
            assert(utf16_units_until_nul(b@, off + 2 * k, (36 - k) as nat) == seq![u] + rest);
            assert(v@.push(u) + rest =~= v@ + (seq![u] + rest));
        }
        v.push(u);
        k += 1;
    }
    proof {
        assert(v@ + Seq::<u16>::empty() =~= v@);
    }
    v
}

/// The listed entries of a GPT partition entry array of `num_entries`
/// entries of `entry_size` bytes each, in array order.
pub fn parse_gpt_entries(buf: &[u8], num_entries: usize, entry_size: usize) -> (v: Vec<GptEntry>)
    requires
        gpt_entries_in_bounds(buf@, num_entries as int, entry_size as int),
    ensures
        v@.len() == gpt_listed_indices(buf@, entry_size as int, num_entries as int).len(),
        forall|j: int|
            0 <= j < v@.len() ==> gpt_entry_matches(
                #[trigger] v@[j],
                buf@,
                gpt_listed_indices(buf@, entry_size as int, num_entries as int)[j],
                entry_size as int,
            ),
{
    let blen = buf.len();
    let mut v: Vec<GptEntry> = Vec::new();
    let mut e: usize = 0;
    while e < num_entries
        invariant
            e <= num_entries,
            blen == buf@.len(),
            gpt_entries_in_bounds(buf@, num_entries as int, entry_size as int),
            v@.len() == gpt_listed_indices(buf@, entry_size as int, e as int).len(),
            forall|j: int|
                0 <= j < v@.len() ==> gpt_entry_matches(
                    #[trigger] v@[j],
                    buf@,
                    gpt_listed_indices(buf@, entry_size as int, e as int)[j],
                    entry_size as int,
                ),
        decreases num_entries - e,
    {
        proof {
            assert(gpt_entry_in_bounds(buf@, e as int, entry_size as int));
        }
        let off = e * entry_size;
        let ghost prev = gpt_listed_indices(buf@, entry_size as int, e as int);
        if zero_guid(buf, off) {
            e += 1;
            continue;
        }
        let starting_lba = read_le_u64(buf, off + 32);
        let ending_lba = read_le_u64(buf, off + 40);
        if ending_lba < starting_lba {
            e += 1;
            continue;
        }
        let mut guid: Vec<u8> = Vec::new();
        let mut k: usize = 0;
        while k < 16
            invariant
                k <= 16,
                blen == buf@.len(),
                off + 128 <= buf@.len(),
                guid@ == buf@.subrange(off as int, off + k),
            decreases 16 - k,
        {
            guid.push(buf[off + k]);
            proof {
                assert(buf@.subrange(off as int, off + k + 1) =~= buf@.subrange(off as int, off + k).push(buf@[off + k]));
            }
            k += 1;
        }
        let name_units = name_units_at(buf, off + 56);
        let entry = GptEntry { number: (e + 1) as u64, type_guid: guid, starting_lba, ending_lba, name_units };
        v.push(entry);
        proof {
            let cur = gpt_listed_indices(buf@, entry_size as int, e + 1);
            assert(cur == prev.push(e as int));
            assert forall|j: int| 0 <= j < v@.len() implies gpt_entry_matches(
                #[trigger] v@[j], buf@, cur[j], entry_size as int) by {
                if j < v@.len() - 1 {
                    assert(cur[j] == prev[j]);
                } else {
                    assert(cur[j] == e as int);
                }
            }
        }
        e += 1;
    }
    v
}

/// A GPT partition type this tool names.
#[derive(Clone, Copy, Debug, PartialEq, Eq, Structural)]
pub enum GptPartitionKind {
    BasicData,
    EfiSystem,
    MicrosoftReserved,
    WindowsRecovery,
    Generic,
}

/// Basic data partition type GUID (on-disk byte order).
pub const BASIC_DATA_GUID: [u8; 16] = [
    0xA2, 0xA0, 0xD0, 0xEB, 0xE5, 0xB9, 0x33, 0x44, 0x87, 0xC0, 0x68, 0xB6, 0xB7, 0x26, 0x99, 0xC7,
];

/// EFI system partition type GUID (on-disk byte order).
pub const EFI_SYSTEM_GUID: [u8; 16] = [
    0x28, 0x73, 0x2A, 0xC1, 0x1F, 0xF8, 0xD2, 0x11, 0xBA, 0x4B, 0x00, 0xA0, 0xC9, 0x3E, 0xC9, 0x3B,
];

/// Microsoft reserved partition type GUID (on-disk byte order).
pub const MS_RESERVED_GUID: [u8; 16] = [
    0x16, 0xE3, 0xC9, 0xE3, 0x5C, 0x0B, 0xB8, 0x4D, 0x81, 0x7D, 0xF9, 0x2D, 0xF0, 0x02, 0x15, 0xAE,
];

/// Windows recovery partition type GUID (on-disk byte order).
pub const RECOVERY_GUID: [u8; 16] = [
    0xA4, 0xBB, 0x94, 0xDE, 0xD1, 0x06, 0x40, 0x4D, 0xA1, 0x6A, 0xBF, 0xD5, 0x01, 0x79, 0xD6, 0xAC,
];

/// The kind a type GUID denotes.
pub open spec fn gpt_kind_of(guid: Seq<u8>) -> GptPartitionKind {
    if guid == BASIC_DATA_GUID@ {
        GptPartitionKind::BasicData
    } else if guid == EFI_SYSTEM_GUID@ {
        GptPartitionKind::EfiSystem
    } else if guid == MS_RESERVED_GUID@ {
        GptPartitionKind::MicrosoftReserved
    } else if guid == RECOVERY_GUID@ {
        GptPartitionKind::WindowsRecovery
    } else {
        GptPartitionKind::Generic
    }
}

/// Law of GPT type GUIDs: each known kind is given by exactly its own
/// type GUID (basic data, EFI system, Microsoft reserved, Windows
/// recovery), any other GUID is generic data; a Microsoft reserved
/// partition is listed as "Microsoft Reserved" and its file system is not
/// probed.
pub proof fn lemma_gpt_kind_by_guid(guid: Seq<u8>)
    ensures
        (gpt_kind_of(guid) == GptPartitionKind::BasicData) <==> guid == BASIC_DATA_GUID@,
        (gpt_kind_of(guid) == GptPartitionKind::EfiSystem) <==> guid == EFI_SYSTEM_GUID@,
        (gpt_kind_of(guid) == GptPartitionKind::MicrosoftReserved) <==> guid == MS_RESERVED_GUID@,
        (gpt_kind_of(guid) == GptPartitionKind::WindowsRecovery) <==> guid == RECOVERY_GUID@,
        (gpt_kind_of(guid) == GptPartitionKind::Generic) <==> (guid != BASIC_DATA_GUID@ && guid
            != EFI_SYSTEM_GUID@ && guid != MS_RESERVED_GUID@ && guid != RECOVERY_GUID@),
        guid == MS_RESERVED_GUID@ ==> gpt_kind_label(gpt_kind_of(guid)) == "Microsoft Reserved"@,
{
    assert(BASIC_DATA_GUID@[0] == 0xA2);
    assert(EFI_SYSTEM_GUID@[0] == 0x28);
    assert(MS_RESERVED_GUID@[0] == 0x16);
    assert(RECOVERY_GUID@[0] != 0xA2 && RECOVERY_GUID@[0] != 0x28 && RECOVERY_GUID@[0] != 0x16);
}

/// Label of a GPT partition kind.
pub open spec fn gpt_kind_label(k: GptPartitionKind) -> Seq<char> {
    match k {
        GptPartitionKind::BasicData => "Basic Data"@,
        GptPartitionKind::EfiSystem => "EFI System Partition"@,
        GptPartitionKind::MicrosoftReserved => "Microsoft Reserved"@,
        GptPartitionKind::WindowsRecovery => "Windows Recovery (Hidden)"@,
        GptPartitionKind::Generic => "Generic Data"@,
    }
}

impl GptPartitionKind {
    /// The kind a type GUID denotes.
    pub fn from_guid(guid: &[u8]) -> (k: Self)
        ensures
            k == gpt_kind_of(guid@),
    {
        let basic = BASIC_DATA_GUID;
        let efi = EFI_SYSTEM_GUID;
        let msr = MS_RESERVED_GUID;
        let rec = RECOVERY_GUID;
        if guid.len() == 16 && bytes_at(guid, 0, &basic) {
            proof { assert(guid@.subrange(0, 16) =~= guid@); }
            GptPartitionKind::BasicData
        } else if guid.len() == 16 && bytes_at(guid, 0, &efi) {
            proof { assert(guid@.subrange(0, 16) =~= guid@); }
            GptPartitionKind::EfiSystem
        } else if guid.len() == 16 && bytes_at(guid, 0, &msr) {
            proof { assert(guid@.subrange(0, 16) =~= guid@); }
            GptPartitionKind::MicrosoftReserved
        } else if guid.len() == 16 && bytes_at(guid, 0, &rec) {
            proof { assert(guid@.subrange(0, 16) =~= guid@); }
            GptPartitionKind::WindowsRecovery
        } else {
            proof {
                if guid.len() == 16 {
                    assert(guid@.subrange(0, 16) =~= guid@);
                }
            }
            GptPartitionKind::Generic
        }
    }

    /// The kind's label.
    pub fn label(&self) -> (s: String)
        ensures
            s@ == gpt_kind_label(*self),
    {
        let mut s = String::new();
        match self {
            GptPartitionKind::BasicData => push_str(&mut s, "Basic Data"),
            GptPartitionKind::EfiSystem => push_str(&mut s, "EFI System Partition"),
            GptPartitionKind::MicrosoftReserved => push_str(&mut s, "Microsoft Reserved"),
            GptPartitionKind::WindowsRecovery => push_str(&mut s, "Windows Recovery (Hidden)"),
            GptPartitionKind::Generic => push_str(&mut s, "Generic Data"),
        }
        s
    }

    /// Whether the file system inside is worth probing (basic and generic data).
    pub fn probes_file_system(&self) -> (b: bool)
        ensures
            b <==> (*self == GptPartitionKind::BasicData || *self == GptPartitionKind::Generic),
    {
        match self {
            GptPartitionKind::BasicData | GptPartitionKind::Generic => true,
            _ => false,
        }
    }
}

/// Size in bytes of the LBA range [start, end], wrapping at 64 bits as
/// the device size arithmetic does.
pub fn gpt_partition_size(start: u64, end: u64) -> (size: u64)
    requires
        start <= end,
    ensures
        size == ((end - start) as u64).wrapping_add(1).wrapping_mul(SECTOR_SIZE),
{
    (end - start).wrapping_add(1).wrapping_mul(SECTOR_SIZE)
}

} // verus!

verus! {

// ---------------------------------------------------------------------
// File-system signatures
// ---------------------------------------------------------------------

/// A file system (or encryption container) recognised from its on-disk signature.
#[derive(Clone, Copy, Debug, PartialEq, Eq, Structural)]
pub enum FileSystem {
    BitLocker,
    Luks,
    Ntfs,
    ExFat,
    Fat32,
    Fat16,
    ReFS,
    Apfs,
    Xfs,
    HfsPlus,
    Hfs,
    Ext,
    Btrfs,
}

/// "-FVE-FS-" at byte 3 of a BitLocker volume.
pub const BITLOCKER_SIG: [u8; 8] = [0x2D, 0x46, 0x56, 0x45, 0x2D, 0x46, 0x53, 0x2D];
/// LUKS magic at byte 0.
pub const LUKS_SIG: [u8; 6] = [0x4C, 0x55, 0x4B, 0x53, 0xBA, 0xBE];
/// "NTFS    " at byte 3.
pub const NTFS_SIG: [u8; 8] = [0x4E, 0x54, 0x46, 0x53, 0x20, 0x20, 0x20, 0x20];
/// "EXFAT   " at byte 3.
pub const EXFAT_SIG: [u8; 8] = [0x45, 0x58, 0x46, 0x41, 0x54, 0x20, 0x20, 0x20];
/// "FAT32   " at byte 82.
pub const FAT32_SIG: [u8; 8] = [0x46, 0x41, 0x54, 0x33, 0x32, 0x20, 0x20, 0x20];
/// "FAT16   " at byte 54.
pub const FAT16_SIG: [u8; 8] = [0x46, 0x41, 0x54, 0x31, 0x36, 0x20, 0x20, 0x20];
/// "ReFS" at byte 3.
pub const REFS_SIG: [u8; 4] = [0x52, 0x65, 0x46, 0x53];
/// "NXSB" at byte 32 of an APFS container.
pub const APFS_SIG: [u8; 4] = [0x4E, 0x58, 0x53, 0x42];
/// "XFSB" at byte 0.
pub const XFS_SIG: [u8; 4] = [0x58, 0x46, 0x53, 0x42];
/// "H+" of an HFS+ volume header.
pub const HFS_PLUS_SIG: [u8; 2] = [0x48, 0x2B];
/// "HX" of an HFSX volume header.
pub const HFSX_SIG: [u8; 2] = [0x48, 0x58];
/// "BD" of an HFS master directory block.
pub const HFS_SIG: [u8; 2] = [0x42, 0x44];
/// "_BHRfS_M" at byte 64 of a Btrfs superblock.
pub const BTRFS_SIG: [u8; 8] = [0x5F, 0x42, 0x48, 0x52, 0x66, 0x53, 0x5F, 0x4D];

/// File system named by the first sector of a partition, tried in the
/// order BitLocker, LUKS, NTFS, exFAT, FAT32, FAT16, ReFS, APFS, XFS.
pub open spec fn boot_sector_fs(v: Seq<u8>) -> Option<FileSystem> {
    if holds_at(v, 3, BITLOCKER_SIG@) {
        Some(FileSystem::BitLocker)
    } else if holds_at(v, 0, LUKS_SIG@) {
        Some(FileSystem::Luks)
    } else if holds_at(v, 3, NTFS_SIG@) {
        Some(FileSystem::Ntfs)
    } else if holds_at(v, 3, EXFAT_SIG@) {
        Some(FileSystem::ExFat)
    } else if holds_at(v, 82, FAT32_SIG@) {
        Some(FileSystem::Fat32)
    } else if holds_at(v, 54, FAT16_SIG@) {
        Some(FileSystem::Fat16)
    } else if holds_at(v, 3, REFS_SIG@) {
        Some(FileSystem::ReFS)
    } else if holds_at(v, 32, APFS_SIG@) {
        Some(FileSystem::Apfs)
    } else if holds_at(v, 0, XFS_SIG@) {
        Some(FileSystem::Xfs)
    } else {
        None
    }
}

/// File system named by the 1024 bytes at offset 1024 of a partition
/// (HFS+/HFSX volume header, HFS master directory block, ext2/3/4
/// superblock magic 0xEF53 at byte 56).
pub open spec fn superblock_fs(v: Seq<u8>) -> Option<FileSystem> {
    if holds_at(v, 0, HFS_PLUS_SIG@) || holds_at(v, 0, HFSX_SIG@) {
        Some(FileSystem::HfsPlus)
    } else if holds_at(v, 0, HFS_SIG@) {
        Some(FileSystem::Hfs)
    } else if v.len() >= 58 && le_bytes(v, 56, 2) == 0xEF53 {
        Some(FileSystem::Ext)
    } else {
        None
    }
}

/// File system named by the 128 bytes at offset 64 KiB of a partition.
pub open spec fn btrfs_block_fs(v: Seq<u8>) -> Option<FileSystem> {
    if holds_at(v, 64, BTRFS_SIG@) {
        Some(FileSystem::Btrfs)
    } else {
        None
    }
}

/// Label of a recognised file system.
pub open spec fn fs_label(f: FileSystem) -> Seq<char> {
    match f {
        FileSystem::BitLocker => "BitLocker Encrypted"@,
        FileSystem::Luks => "LUKS Encrypted"@,
        FileSystem::Ntfs => "NTFS"@,
        FileSystem::ExFat => "exFAT"@,
        FileSystem::Fat32 => "FAT32"@,
        FileSystem::Fat16 => "FAT16"@,
        FileSystem::ReFS => "ReFS"@,
        FileSystem::Apfs => "APFS"@,
        FileSystem::Xfs => "XFS"@,
        FileSystem::HfsPlus => "HFS+"@,
        FileSystem::Hfs => "HFS"@,
        FileSystem::Ext => "ext2/3/4"@,
        FileSystem::Btrfs => "Btrfs"@,
    }
}

impl FileSystem {
    /// Recognises the file system from the first sector of a partition.
    pub fn from_boot_sector(v: &[u8]) -> (r: Option<FileSystem>)
        ensures
            r == boot_sector_fs(v@),
    {
        let bitlocker = BITLOCKER_SIG;
        let luks = LUKS_SIG;
        let ntfs = NTFS_SIG;
        let exfat = EXFAT_SIG;
        let fat32 = FAT32_SIG;
        let fat16 = FAT16_SIG;
        let refs = REFS_SIG;
        let apfs = APFS_SIG;
        let xfs = XFS_SIG;
        if bytes_at(v, 3, &bitlocker) {
            Some(FileSystem::BitLocker)
        } else if bytes_at(v, 0, &luks) {
            Some(FileSystem::Luks)
        } else if bytes_at(v, 3, &ntfs) {
            Some(FileSystem::Ntfs)
        } else if bytes_at(v, 3, &exfat) {
            Some(FileSystem::ExFat)
        } else if bytes_at(v, 82, &fat32) {
            Some(FileSystem::Fat32)
        } else if bytes_at(v, 54, &fat16) {
            Some(FileSystem::Fat16)
        } else if bytes_at(v, 3, &refs) {
            Some(FileSystem::ReFS)
        } else if bytes_at(v, 32, &apfs) {
            Some(FileSystem::Apfs)
        } else if bytes_at(v, 0, &xfs) {
            Some(FileSystem::Xfs)
        } else {
            None
        }
    }

    /// Recognises the file system from the 1024 bytes at offset 1024.
    pub fn from_superblock(v: &[u8]) -> (r: Option<FileSystem>)
        ensures
            r == superblock_fs(v@),
    {
        let hp = HFS_PLUS_SIG;
        let hx = HFSX_SIG;
        let hfs = HFS_SIG;
        if bytes_at(v, 0, &hp) || bytes_at(v, 0, &hx) {
            Some(FileSystem::HfsPlus)
        } else if bytes_at(v, 0, &hfs) {
            Some(FileSystem::Hfs)
        } else if v.len() >= 58 && read_le_u16(v, 56) == 0xEF53 {
            Some(FileSystem::Ext)
        } else {
            None
        }
    }

    /// Recognises Btrfs from the 128 bytes at offset 64 KiB.
    pub fn from_btrfs_block(v: &[u8]) -> (r: Option<FileSystem>)
        ensures
            r == btrfs_block_fs(v@),
    {
        let sig = BTRFS_SIG;
        if bytes_at(v, 64, &sig) {
            Some(FileSystem::Btrfs)
        } else {
            None
        }
    }

    /// The label shown for the file system.
    pub fn label(&self) -> (s: String)
        ensures
            s@ == fs_label(*self),
    {
        let mut s = String::new();
        match self {
            FileSystem::BitLocker => push_str(&mut s, "BitLocker Encrypted"),
            FileSystem::Luks => push_str(&mut s, "LUKS Encrypted"),
            FileSystem::Ntfs => push_str(&mut s, "NTFS"),
            FileSystem::ExFat => push_str(&mut s, "exFAT"),
            FileSystem::Fat32 => push_str(&mut s, "FAT32"),
            FileSystem::Fat16 => push_str(&mut s, "FAT16"),
            FileSystem::ReFS => push_str(&mut s, "ReFS"),
            FileSystem::Apfs => push_str(&mut s, "APFS"),
            FileSystem::Xfs => push_str(&mut s, "XFS"),
            FileSystem::HfsPlus => push_str(&mut s, "HFS+"),
            FileSystem::Hfs => push_str(&mut s, "HFS"),
            FileSystem::Ext => push_str(&mut s, "ext2/3/4"),
            FileSystem::Btrfs => push_str(&mut s, "Btrfs"),
        }
        s
    }
}

/// Byte offsets probed for a file-system signature in a partition that
/// starts at `starting_lba`: its first sector, 1024 bytes in, and 64 KiB
/// in (each wrapping at 64 bits as the device offset arithmetic does).
pub fn fs_probe_offsets(starting_lba: u64) -> (r: (u64, u64, u64))
    ensures
        r.0 == starting_lba.wrapping_mul(SECTOR_SIZE),
        r.1 == r.0.wrapping_add(1024),
        r.2 == r.0.wrapping_add(65536),
{
    let base = starting_lba.wrapping_mul(SECTOR_SIZE);
    (base, base.wrapping_add(1024), base.wrapping_add(65536))
}

/// The type shown for a partition: the recognised file system's label
/// when there is one, else the label of the table entry.
pub fn partition_fs_type(table_label: String, detected: Option<FileSystem>) -> (s: String)
    ensures
        s@ == match detected {
            Some(f) => fs_label(f),
            None => table_label@,
        },
{
    match detected {
        Some(f) => f.label(),
        None => table_label,
    }
}

} // verus!

verus! {

/// Name shown for a GPT partition: its UTF-16 name decoded and trimmed
/// (an invalid name decodes to the empty string), or "Partition <n>"
/// when that leaves nothing.
pub open spec fn gpt_partition_name(units: Seq<u16>, number: nat) -> Seq<char> {
    let decoded = match utf16_decoded(units) {
        Some(s) => s,
        None => Seq::empty(),
    };
    let name = trimmed(decoded);
    if name.len() == 0 {
        default_partition_name(number)
    } else {
        name
    }
}

impl GptEntry {
    /// The name shown for the partition.
    pub fn display_name(&self) -> (s: String)
        ensures
            s@ == gpt_partition_name(self.name_units@, self.number as nat),
    {
        let decoded = match decode_utf16(self.name_units.as_slice()) {
            Some(d) => d,
            None => String::new(),
        };
        let name = trim(decoded.as_str());
        if name.unicode_len() == 0 {
            default_partition_label(self.number)
        } else {
            name
        }
    }

    /// Size of the partition in bytes.
    pub fn size_bytes(&self) -> (size: u64)
        requires
            self.starting_lba <= self.ending_lba,
        ensures
            size == ((self.ending_lba - self.starting_lba) as u64).wrapping_add(1).wrapping_mul(SECTOR_SIZE),
    {
        gpt_partition_size(self.starting_lba, self.ending_lba)
    }

    /// Kind of the partition, from its type GUID.
    pub fn kind(&self) -> (k: GptPartitionKind)
        ensures
            k == gpt_kind_of(self.type_guid@),
    {
        GptPartitionKind::from_guid(self.type_guid.as_slice())
    }
}

impl MbrPartition {
    /// Name shown for the partition: "Partition <slot>".
    pub fn display_name(&self) -> (s: String)
        ensures
            s@ == default_partition_name(self.index as nat),
    {
        default_partition_label(self.index)
    }
}

} // verus!
