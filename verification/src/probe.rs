//! Partition detection on a device, as a sequence of reads: sector 0,
//! then either the GPT header and entry array or nothing more, then the
//! file-system probes of each partition. The device is read by the
//! caller; `detect_partitions` consumes each read's outcome and names the
//! next read, until the partition list is complete.

use vstd::prelude::*;
use crate::partition::{
    PartitionInfo, MbrScan, MbrPartition, GptHeader, GptEntry, GptPartitionKind, FileSystem,
    parse_mbr, parse_gpt_header, gpt_entries_offset, gpt_entries_len, parse_gpt_entries,
    gpt_entries_readable, gpt_entries_in_bounds, mbr_type_name, mbr_type_label, fs_probe_offsets,
    partition_fs_type, has_boot_signature, has_protective_entry, mbr_used_entries, holds_at,
    le_bytes, GPT_SIGNATURE, SECTOR_SIZE, default_partition_name, gpt_listed_indices,
    gpt_entry_matches, gpt_entry_offset, gpt_kind_of, gpt_kind_label, gpt_partition_name,
    utf16_units_until_nul, boot_sector_fs, superblock_fs, btrfs_block_fs, fs_label,
};

verus! {

/// A read the device is asked for: `len` bytes at byte `offset`.
#[derive(Clone, Copy, Debug, PartialEq, Eq, Structural)]
pub struct ReadRequest {
    pub offset: u64,
    pub len: usize,
}

/// What detection asks of the caller next.
#[derive(Clone, Debug)]
pub enum ProbeAction {
    /// Read the bytes described and hand the outcome to `detect_partitions`.
    Read(ReadRequest),
    /// Detection is over; these are the partitions, in table order.
    Finished(Vec<PartitionInfo>),
}

/// A device as detection sees it: what reading `len` bytes at `offset`
/// gives (`None` when the seek or the read fails).
pub type DeviceReads = spec_fn(u64, nat) -> Option<Seq<u8>>;

/// A partition by its shown name, size in bytes and type.
pub type PartView = (Seq<char>, u64, Seq<char>);

/// The view of a partition record.
pub open spec fn part_view(p: PartitionInfo) -> PartView {
    (p.name@, p.size, p.fs_type@)
}

/// The views of a partition list.
pub open spec fn views(v: Seq<PartitionInfo>) -> Seq<PartView> {
    v.map_values(|p: PartitionInfo| part_view(p))
}

/// Type shown for a partition: the recognised file system, else the label
/// of its table entry.
pub open spec fn shown_type(label: Seq<char>, detected: Option<FileSystem>) -> Seq<char> {
    match detected {
        Some(f) => fs_label(f),
        None => label,
    }
}

/// Offset of the first sector of a partition starting at `lba`.
pub open spec fn boot_offset(lba: u64) -> u64 {
    lba.wrapping_mul(SECTOR_SIZE)
}

/// Offset of the superblock area (1024 bytes in) of a partition.
pub open spec fn superblock_offset(lba: u64) -> u64 {
    boot_offset(lba).wrapping_add(1024)
}

/// Offset of the Btrfs superblock area (64 KiB in) of a partition.
pub open spec fn btrfs_offset(lba: u64) -> u64 {
    boot_offset(lba).wrapping_add(65536)
}

/// File system named by one probe read (nothing when the read failed).
pub open spec fn probe_fs(read: Option<Seq<u8>>, kind: nat) -> Option<FileSystem> {
    match read {
        None => None,
        Some(v) => if kind == 0 {
            boot_sector_fs(v)
        } else if kind == 1 {
            superblock_fs(v)
        } else {
            btrfs_block_fs(v)
        },
    }
}

/// File system recognised in the partition at `lba`, probing from stage
/// `from` on (0: first sector, 1: superblock area, 2: Btrfs area): the
/// first probe that names one.
pub open spec fn fs_from(reads: DeviceReads, lba: u64, from: nat) -> Option<FileSystem> {
    let a = if from <= 0 { probe_fs(reads(boot_offset(lba), 512), 0) } else { None };
    let b = if from <= 1 { probe_fs(reads(superblock_offset(lba), 1024), 1) } else { None };
    let c = probe_fs(reads(btrfs_offset(lba), 128), 2);
    if a is Some {
        a
    } else if b is Some {
        b
    } else {
        c
    }
}

/// The partition described by a used DOS table entry.
pub open spec fn mbr_view(reads: DeviceReads, p: MbrPartition) -> PartView {
    (
        default_partition_name(p.index as nat),
        p.size_bytes,
        shown_type(mbr_type_label(p.part_type), fs_from(reads, p.starting_lba, 0)),
    )
}

/// Size in bytes of the LBA range [start, end] (wrapping at 64 bits).
pub open spec fn lba_range_size(start: u64, end: u64) -> u64 {
    ((end - start) as u64).wrapping_add(1).wrapping_mul(SECTOR_SIZE)
}

/// The partition described by listed entry `e` of a GPT entry array.
pub open spec fn gpt_view(reads: DeviceReads, buf: Seq<u8>, e: int, entry_size: int) -> PartView {
    let off = gpt_entry_offset(e, entry_size);
    let kind = gpt_kind_of(buf.subrange(off, off + 16));
    let start = le_bytes(buf, off + 32, 8) as u64;
    let end = le_bytes(buf, off + 40, 8) as u64;
    let probed = kind == GptPartitionKind::BasicData || kind == GptPartitionKind::Generic;
    (
        gpt_partition_name(utf16_units_until_nul(buf, off + 56, 36), (e + 1) as nat),
        lba_range_size(start, end),
        shown_type(gpt_kind_label(kind), if probed { fs_from(reads, start, 0) } else { None }),
    )
}

/// Partitions listed by a GPT entry array read at `buf`.
pub open spec fn gpt_views(reads: DeviceReads, buf: Seq<u8>, num: int, entry_size: int) -> Seq<PartView> {
    gpt_listed_indices(buf, entry_size, num).map_values(|e: int| gpt_view(reads, buf, e, entry_size))
}

/// Partitions of a GPT device from its entry array on: the array of
/// `num * entry_size` bytes at `offset`.
pub open spec fn gpt_from_entries(reads: DeviceReads, offset: u64, num: nat, entry_size: nat) -> Seq<PartView> {
    match reads(offset, num * entry_size) {
        None => Seq::empty(),
        Some(buf) => gpt_views(reads, buf, num as int, entry_size as int),
    }
}

/// Partitions of a GPT device from its header (LBA 1) on.
pub open spec fn gpt_from_header(reads: DeviceReads) -> Seq<PartView> {
    match reads(512, 512) {
        None => Seq::empty(),
        Some(h) => if !holds_at(h, 0, GPT_SIGNATURE@) {
            Seq::empty()
        } else {
            let lba = le_bytes(h, 72, 8) as u64;
            let num = le_bytes(h, 80, 4);
            let size = le_bytes(h, 84, 4);
            if num * size > usize::MAX {
                Seq::empty()
            } else {
                gpt_from_entries(reads, lba.wrapping_mul(SECTOR_SIZE), num, size)
            }
        },
    }
}

/// The partitions detected on a device: none without a boot signature;
/// the GPT entries when sector 0 holds a protective entry; else the used
/// DOS entries. Each entry whose file system is probed shows the file
/// system recognised at its start, when one is.
pub open spec fn detected_partitions(reads: DeviceReads) -> Seq<PartView> {
    match reads(0, 512) {
        None => Seq::empty(),
        Some(s0) => if !has_boot_signature(s0) {
            Seq::empty()
        } else if has_protective_entry(s0) {
            gpt_from_header(reads)
        } else {
            mbr_used_entries(s0, 4).map_values(|p: MbrPartition| mbr_view(reads, p))
        },
    }
}

/// One read made: its offset, its length and its outcome.
pub type ReadRecord = (u64, nat, Option<Seq<u8>>);

/// Whether `reads` agrees with every read made.
pub open spec fn consistent(history: Seq<ReadRecord>, reads: DeviceReads) -> bool {
    forall|i: int| 0 <= i < history.len() ==> #[trigger] reads(history[i].0, history[i].1) == history[i].2
}

/// A partition whose table entry is read and whose file system may still
/// be probed.
#[derive(Clone, Debug)]
struct Candidate {
    name: String,
    size: u64,
    label: String,
    lba: u64,
    probed: bool,
}

/// Where detection stands.
#[derive(Clone, Copy, Debug)]
enum Stage {
    Mbr,
    GptHeader,
    GptEntries { offset: u64, num: usize, size: usize },
    /// Probing candidate `next` at probe stage `step` (0, 1 or 2).
    Probe { step: u8 },
    Done,
}

/// Partition detection in progress.
pub struct PartitionProbe {
    stage: Stage,
    candidates: Vec<Candidate>,
    next: usize,
    found: Vec<PartitionInfo>,
    history: Ghost<Seq<ReadRecord>>,
}

/// View of a candidate once probed from stage `from` on.
spec fn candidate_view(reads: DeviceReads, c: Candidate, from: nat) -> PartView {
    (c.name@, c.size, shown_type(c.label@, if c.probed { fs_from(reads, c.lba, from) } else { None }))
}

impl PartitionProbe {
    /// The reads made so far, in order.
    pub closed spec fn history(&self) -> Seq<ReadRecord> {
        self.history@
    }

    /// Whether detection is over.
    pub closed spec fn done(&self) -> bool {
        self.stage is Done
    }

    /// The read asked for now (meaningless when done).
    pub closed spec fn request(&self) -> ReadRequest {
        match self.stage {
            Stage::Mbr => ReadRequest { offset: 0, len: 512 },
            Stage::GptHeader => ReadRequest { offset: 512, len: 512 },
            Stage::GptEntries { offset, num, size } => ReadRequest { offset, len: (num * size) as usize },
            Stage::Probe { step } => {
                let lba = self.candidates@[self.next as int].lba;
                if step == 0 {
                    ReadRequest { offset: boot_offset(lba), len: 512 }
                } else if step == 1 {
                    ReadRequest { offset: superblock_offset(lba), len: 1024 }
                } else {
                    ReadRequest { offset: btrfs_offset(lba), len: 128 }
                }
            },
            Stage::Done => ReadRequest { offset: 0, len: 0 },
        }
    }

    /// Whether an outcome of the pending read can be consumed: detection
    /// would read outside a GPT entry array whose entries are shorter than
    /// what it reads of them.
    pub closed spec fn accepts(&self, outcome: Option<Seq<u8>>) -> bool {
        match self.stage {
            Stage::GptEntries { offset, num, size } => match outcome {
                Some(buf) => gpt_entries_in_bounds(buf, num as int, size as int),
                None => true,
            },
            _ => true,
        }
    }

    /// What remains to be listed, under `reads`.
    spec fn remaining(&self, reads: DeviceReads) -> Seq<PartView> {
        match self.stage {
            Stage::Mbr => detected_partitions(reads),
            Stage::GptHeader => gpt_from_header(reads),
            Stage::GptEntries { offset, num, size } => gpt_from_entries(reads, offset, num as nat, size as nat),
            Stage::Probe { step } => {
                let rest = self.candidates@.subrange(self.next + 1, self.candidates@.len() as int);
                seq![candidate_view(reads, self.candidates@[self.next as int], step as nat)]
                    + rest.map_values(|c: Candidate| candidate_view(reads, c, 0))
            },
            Stage::Done => Seq::empty(),
        }
    }

    /// How far detection is from its end, ordered lexicographically (see
    /// `progress_below`): the stage (reading the MBR, the GPT header, the
    /// GPT entries, probing file systems, done), then within the probing
    /// stage the probe reads left at most.
    pub closed spec fn progress(&self) -> (nat, nat) {
        match self.stage {
            Stage::Mbr => (4, 0),
            Stage::GptHeader => (3, 0),
            Stage::GptEntries { .. } => (2, 0),
            Stage::Probe { step } => (1, (3 * (self.candidates@.len() - self.next) - step) as nat),
            Stage::Done => (0, 0),
        }
    }

    /// The partitions listed so far.
    pub closed spec fn found(&self) -> Seq<PartView> {
        views(self.found@)
    }

    /// Internal consistency: under every device that agrees with the reads
    /// made, what is listed and what remains make up the detected list.
    pub closed spec fn wf(&self) -> bool {
        &&& match self.stage {
            Stage::Probe { step } => self.next < self.candidates@.len() && step <= 2
                && self.candidates@[self.next as int].probed,
            Stage::GptEntries { offset, num, size } => num * size <= usize::MAX,
            _ => true,
        }
        &&& forall|reads: DeviceReads|
            consistent(self.history@, reads) ==> self.found() + #[trigger] self.remaining(reads)
                == detected_partitions(reads)
    }

    /// Detection before any read: sector 0 is asked for first.
    pub fn new() -> (p: Self)
        ensures
            p.wf(),
            !p.done(),
            p.history() == Seq::<ReadRecord>::empty(),
            p.request() == (ReadRequest { offset: 0, len: 512 }),
    {
        let p = PartitionProbe {
            stage: Stage::Mbr,
            candidates: Vec::new(),
            next: 0,
            found: Vec::new(),
            history: Ghost(Seq::empty()),
        };
        proof {
            assert forall|reads: DeviceReads| consistent(p.history@, reads) implies p.found() + #[trigger] p.remaining(
                reads,
            ) == detected_partitions(reads) by {
                assert(p.found() =~= Seq::<PartView>::empty());
                assert(p.found() + p.remaining(reads) =~= p.remaining(reads));
            }
        }
        p
    }

    /// Whether an outcome of the pending read can be consumed (see
    /// `accepts`); detection stops short of such an outcome, where reading
    /// the entries as the table describes them would overrun the array.
    pub fn accepts_outcome(&self, outcome: &Option<Vec<u8>>) -> (r: bool)
        requires
            self.wf(),
        ensures
            r == self.accepts(outcome_bytes(*outcome)),
    {
        match self.stage {
            Stage::GptEntries { offset, num, size } => match outcome {
                Some(buf) => gpt_entries_readable(buf.as_slice(), num, size),
                None => true,
            },
            _ => true,
        }
    }

    /// The read asked for now, or `None` when detection is over.
    pub fn pending(&self) -> (r: Option<ReadRequest>)
        requires
            self.wf(),
        ensures
            r matches Some(q) ==> !self.done() && q == self.request(),
            r is None ==> self.done(),
    {
        match self.stage {
            Stage::Mbr => Some(ReadRequest { offset: 0, len: 512 }),
            Stage::GptHeader => Some(ReadRequest { offset: 512, len: 512 }),
            Stage::GptEntries { offset, num, size } => Some(ReadRequest { offset, len: num * size }),
            Stage::Probe { step } => {
                let (boot, sb, bt) = fs_probe_offsets(self.candidates[self.next].lba);
                if step == 0 {
                    Some(ReadRequest { offset: boot, len: 512 })
                } else if step == 1 {
                    Some(ReadRequest { offset: sb, len: 1024 })
                } else {
                    Some(ReadRequest { offset: bt, len: 128 })
                }
            },
            Stage::Done => None,
        }
    }
}


/// Views of the candidates from `from` on, none of them probed yet.
spec fn tail_views(reads: DeviceReads, cands: Seq<Candidate>, from: int) -> Seq<PartView> {
    cands.subrange(from, cands.len() as int).map_values(|c: Candidate| candidate_view(reads, c, 0))
}

/// Whether `c` stands for the used DOS entry `p`.
spec fn mbr_candidate(c: Candidate, p: MbrPartition) -> bool {
    &&& c.name@ == default_partition_name(p.index as nat)
    &&& c.size == p.size_bytes
    &&& c.label@ == mbr_type_label(p.part_type)
    &&& c.lba == p.starting_lba
    &&& c.probed
}

/// Whether `c` stands for listed entry `e` of the GPT entry array `buf`.
spec fn gpt_candidate(c: Candidate, buf: Seq<u8>, e: int, entry_size: int) -> bool {
    let off = gpt_entry_offset(e, entry_size);
    let kind = gpt_kind_of(buf.subrange(off, off + 16));
    let start = le_bytes(buf, off + 32, 8) as u64;
    let end = le_bytes(buf, off + 40, 8) as u64;
    &&& c.name@ == gpt_partition_name(utf16_units_until_nul(buf, off + 56, 36), (e + 1) as nat)
    &&& c.size == lba_range_size(start, end)
    &&& c.label@ == gpt_kind_label(kind)
    &&& c.lba == start
    &&& c.probed == (kind == GptPartitionKind::BasicData || kind == GptPartitionKind::Generic)
}

/// The listed entries are listed, and lie among the first `k`.
proof fn lemma_listed(b: Seq<u8>, entry_size: int, k: int)
    ensures
        forall|j: int|
            0 <= j < gpt_listed_indices(b, entry_size, k).len() ==> {
                let e = #[trigger] gpt_listed_indices(b, entry_size, k)[j];
                &&& 0 <= e < k
                &&& crate::partition::gpt_entry_listed(b, e, entry_size)
            },
    decreases k,
{
    if k > 0 {
        lemma_listed(b, entry_size, k - 1);
        let prev = gpt_listed_indices(b, entry_size, k - 1);
        let cur = gpt_listed_indices(b, entry_size, k);
        assert forall|j: int| 0 <= j < cur.len() implies {
            let e = #[trigger] cur[j];
            &&& 0 <= e < k
            &&& crate::partition::gpt_entry_listed(b, e, entry_size)
        } by {
            if j < prev.len() {
                assert(cur[j] == prev[j]);
            }
        }
    }
}

/// A candidate from a DOS entry shows as the entry does.
proof fn lemma_mbr_candidate_view(reads: DeviceReads, c: Candidate, p: MbrPartition)
    requires
        mbr_candidate(c, p),
    ensures
        candidate_view(reads, c, 0) == mbr_view(reads, p),
{
}

/// A candidate from a GPT entry shows as the entry does.
proof fn lemma_gpt_candidate_view(reads: DeviceReads, c: Candidate, buf: Seq<u8>, e: int, entry_size: int)
    requires
        gpt_candidate(c, buf, e, entry_size),
    ensures
        candidate_view(reads, c, 0) == gpt_view(reads, buf, e, entry_size),
{
}

impl PartitionProbe {
    /// Lists the candidates from `next` on that are not probed, up to the
    /// first that is; probes that one next, or ends detection.
    fn settle(&mut self)
        requires
            old(self).next <= old(self).candidates@.len(),
        ensures
            final(self).history@ == old(self).history@,
            final(self).candidates@ == old(self).candidates@,
            final(self).next <= final(self).candidates@.len(),
            final(self).next >= old(self).next,
            final(self).stage is Done || (final(self).stage == Stage::Probe { step: 0 } && final(self).next
                < final(self).candidates@.len() && final(self).candidates@[final(self).next as int].probed),
            final(self).stage is Done ==> final(self).next == final(self).candidates@.len(),
            forall|reads: DeviceReads|
                #[trigger] final(self).remaining(reads) == tail_views(
                    reads,
                    final(self).candidates@,
                    final(self).next as int,
                ) && final(self).found() + tail_views(reads, final(self).candidates@, final(self).next as int)
                    == old(self).found() + tail_views(reads, old(self).candidates@, old(self).next as int),
    {
        let ghost found0 = self.found();
        let ghost next0 = self.next;
        while self.next < self.candidates.len() && !self.candidates[self.next].probed
            invariant
                next0 <= self.next <= self.candidates@.len(),
                self.history@ == old(self).history@,
                self.candidates@ == old(self).candidates@,
                found0 == old(self).found(),
                next0 == old(self).next,
                forall|reads: DeviceReads|
                    #[trigger] tail_views(reads, self.candidates@, self.next as int) == tail_views(
                        reads,
                        self.candidates@,
                        self.next as int,
                    ) && self.found() + tail_views(reads, self.candidates@, self.next as int) == found0
                        + tail_views(reads, self.candidates@, next0 as int),
            decreases self.candidates@.len() - self.next,
        {
            let c = &self.candidates[self.next];
            let info = PartitionInfo { name: c.name.clone(), size: c.size, fs_type: c.label.clone() };
            let ghost before = self.found();
            let ghost n = self.next;
            self.found.push(info);
            self.next = self.next + 1;
            proof {
                assert(self.found() =~= before.push(part_view(info)));
                assert forall|reads: DeviceReads| #[trigger] tail_views(reads, self.candidates@, self.next as int)
                    == tail_views(reads, self.candidates@, self.next as int) && self.found() + tail_views(
                    reads,
                    self.candidates@,
                    self.next as int,
                ) == found0 + tail_views(reads, self.candidates@, next0 as int) by {
                    let t0 = tail_views(reads, self.candidates@, n as int);
                    let t1 = tail_views(reads, self.candidates@, self.next as int);
                    assert(t0 =~= seq![candidate_view(reads, self.candidates@[n as int], 0)] + t1);
                    assert(candidate_view(reads, self.candidates@[n as int], 0) == part_view(info));
                    assert(before + t0 =~= before.push(part_view(info)) + t1);
                }
            }
        }
        if self.next < self.candidates.len() {
            self.stage = Stage::Probe { step: 0 };
            proof {
                assert forall|reads: DeviceReads| #[trigger] self.remaining(reads) == tail_views(
                    reads,
                    self.candidates@,
                    self.next as int,
                ) by {
                    let t = tail_views(reads, self.candidates@, self.next as int);
                    assert(self.remaining(reads) =~= t);
                }
            }
        } else {
            self.stage = Stage::Done;
            proof {
                assert forall|reads: DeviceReads| #[trigger] self.remaining(reads) == tail_views(
                    reads,
                    self.candidates@,
                    self.next as int,
                ) by {
                    assert(tail_views(reads, self.candidates@, self.next as int) =~= Seq::<PartView>::empty());
                }
            }
        }
    }
}


/// Whether progress `a` is strictly closer to the end than `b`: an earlier
/// stage, or the same stage with fewer reads left (a well-founded order,
/// so detection always finishes).
pub open spec fn progress_below(a: (nat, nat), b: (nat, nat)) -> bool {
    a.0 < b.0 || (a.0 == b.0 && a.1 < b.1)
}

/// The bytes of a read outcome.
pub open spec fn outcome_bytes(outcome: Option<Vec<u8>>) -> Option<Seq<u8>> {
    match outcome {
        Some(d) => Some(d@),
        None => None,
    }
}

/// A device that agrees with the reads made and one more agrees with the
/// reads made, and gives the last outcome.
proof fn lemma_consistent_push(h: Seq<ReadRecord>, rec: ReadRecord)
    ensures
        forall|reads: DeviceReads|
            #[trigger] consistent(h.push(rec), reads) ==> consistent(h, reads) && reads(rec.0, rec.1) == rec.2,
{
    assert forall|reads: DeviceReads| #[trigger] consistent(h.push(rec), reads) implies consistent(h, reads)
        && reads(rec.0, rec.1) == rec.2 by {
        assert forall|i: int| 0 <= i < h.len() implies #[trigger] reads(h[i].0, h[i].1) == h[i].2 by {
            assert(h.push(rec)[i] == h[i]);
        }
        assert(h.push(rec)[h.len() as int] == rec);
    }
}

/// A copy of a partition list.
fn copy_partitions(v: &Vec<PartitionInfo>) -> (c: Vec<PartitionInfo>)
    ensures
        views(c@) == views(v@),
{
    let mut c: Vec<PartitionInfo> = Vec::new();
    let mut i: usize = 0;
    while i < v.len()
        invariant
            i <= v@.len(),
            c@.map_values(|p: PartitionInfo| part_view(p)) == v@.take(i as int).map_values(
                |p: PartitionInfo| part_view(p),
            ),
        decreases v@.len() - i,
    {
        let p = &v[i];
        let q = PartitionInfo { name: p.name.clone(), size: p.size, fs_type: p.fs_type.clone() };
        let ghost before = c@;
        c.push(q);
        proof {
            assert(v@.take(i + 1) =~= v@.take(i as int).push(v@[i as int]));
            assert(c@ =~= before.push(q));
            assert(c@.map_values(|p: PartitionInfo| part_view(p)) =~= before.map_values(
                |p: PartitionInfo| part_view(p),
            ).push(part_view(q)));
            assert(v@.take(i + 1).map_values(|p: PartitionInfo| part_view(p)) =~= v@.take(i as int).map_values(
                |p: PartitionInfo| part_view(p),
            ).push(part_view(v@[i as int])));
        }
        i += 1;
    }
    proof {
        assert(v@.take(v@.len() as int) =~= v@);
    }
    c
}

/// The candidates of the used DOS entries, in table order.
fn mbr_candidates(parts: &Vec<MbrPartition>) -> (c: Vec<Candidate>)
    ensures
        c@.len() == parts@.len(),
        forall|j: int| 0 <= j < parts@.len() ==> mbr_candidate(#[trigger] c@[j], parts@[j]),
{
    let mut c: Vec<Candidate> = Vec::new();
    let mut i: usize = 0;
    while i < parts.len()
        invariant
            i <= parts@.len(),
            c@.len() == i,
            forall|j: int| 0 <= j < i ==> mbr_candidate(#[trigger] c@[j], parts@[j]),
        decreases parts@.len() - i,
    {
        let p = &parts[i];
        c.push(Candidate {
            name: p.display_name(),
            size: p.size_bytes,
            label: mbr_type_name(p.part_type),
            lba: p.starting_lba,
            probed: true,
        });
        i += 1;
    }
    c
}

/// The candidates of the listed GPT entries, in array order.
fn gpt_candidates(entries: &Vec<GptEntry>, Ghost(buf): Ghost<Seq<u8>>, Ghost(num): Ghost<int>, Ghost(size): Ghost<int>) -> (c: Vec<Candidate>)
    requires
        entries@.len() == gpt_listed_indices(buf, size, num).len(),
        forall|j: int|
            0 <= j < entries@.len() ==> gpt_entry_matches(
                #[trigger] entries@[j],
                buf,
                gpt_listed_indices(buf, size, num)[j],
                size,
            ),
    ensures
        c@.len() == entries@.len(),
        forall|j: int|
            0 <= j < entries@.len() ==> gpt_candidate(
                #[trigger] c@[j],
                buf,
                gpt_listed_indices(buf, size, num)[j],
                size,
            ),
{
    proof {
        lemma_listed(buf, size, num);
    }
    let mut c: Vec<Candidate> = Vec::new();
    let mut i: usize = 0;
    while i < entries.len()
        invariant
            i <= entries@.len(),
            c@.len() == i,
            entries@.len() == gpt_listed_indices(buf, size, num).len(),
            forall|j: int|
                0 <= j < entries@.len() ==> gpt_entry_matches(
                    #[trigger] entries@[j],
                    buf,
                    gpt_listed_indices(buf, size, num)[j],
                    size,
                ),
            forall|j: int|
                0 <= j < gpt_listed_indices(buf, size, num).len() ==> {
                    let e = #[trigger] gpt_listed_indices(buf, size, num)[j];
                    &&& 0 <= e < num
                    &&& crate::partition::gpt_entry_listed(buf, e, size)
                },
            forall|j: int|
                0 <= j < i ==> gpt_candidate(#[trigger] c@[j], buf, gpt_listed_indices(buf, size, num)[j], size),
        decreases entries@.len() - i,
    {
        let g = &entries[i];
        proof {
            let e = gpt_listed_indices(buf, size, num)[i as int];
            assert(gpt_entry_matches(entries@[i as int], buf, e, size));
            assert(crate::partition::gpt_entry_listed(buf, e, size));
        }
        let kind = g.kind();
        c.push(Candidate {
            name: g.display_name(),
            size: g.size_bytes(),
            label: kind.label(),
            lba: g.starting_lba,
            probed: kind.probes_file_system(),
        });
        i += 1;
    }
    c
}

/// Consumes the outcome of the pending read (`None` when the seek or the
/// read failed; else the buffer of the length asked for) and says what to
/// do next: the next read, or the detected partitions.
///
/// Whatever the device, as long as every outcome handed in is what it
/// gives for the read asked for, the list finally returned is
/// `detected_partitions` of that device.
pub fn detect_partitions(probe: &mut PartitionProbe, outcome: Option<Vec<u8>>) -> (action: ProbeAction)
    requires
        old(probe).wf(),
        !old(probe).done(),
        outcome matches Some(d) ==> d@.len() == old(probe).request().len,
        old(probe).accepts(outcome_bytes(outcome)),
    ensures
        final(probe).wf(),
        progress_below(final(probe).progress(), old(probe).progress()),
        final(probe).history() == old(probe).history().push(
            (
                old(probe).request().offset,
                old(probe).request().len as nat,
                outcome_bytes(outcome),
            ),
        ),
        match action {
            ProbeAction::Read(q) => !final(probe).done() && q == final(probe).request(),
            ProbeAction::Finished(v) => {
                &&& final(probe).done()
                &&& forall|reads: DeviceReads|
                    consistent(final(probe).history(), reads) ==> views(v@) == #[trigger] detected_partitions(
                        reads,
                    )
            },
        },
{
    let ghost req = probe.request();
    let ghost out = outcome_bytes(outcome);
    let ghost rec: ReadRecord = (req.offset, req.len as nat, out);
    let ghost found0 = probe.found();
    let ghost h0 = probe.history@;
    let ghost old_probe = *probe;
    proof {
        probe.history@ = probe.history@.push(rec);
    }
    proof {
        lemma_consistent_push(h0, rec);
    }
    match probe.stage {
        Stage::Mbr => {
            match outcome {
                None => {
                    probe.stage = Stage::Done;
                    proof {
                        assert forall|reads: DeviceReads| consistent(probe.history@, reads) implies probe.found()
                            + #[trigger] probe.remaining(reads) == detected_partitions(reads) by {
                            assert(old_probe.found() + old_probe.remaining(reads) == detected_partitions(reads));
                            assert(found0 + detected_partitions(reads) == detected_partitions(reads));
                            assert(probe.found() + probe.remaining(reads) =~= probe.found());
                        }
                    }
                },
                Some(s0) => {
                    let scan = parse_mbr(s0.as_slice());
                    match scan {
                        MbrScan::NoSignature => {
                            probe.stage = Stage::Done;
                            proof {
                                assert forall|reads: DeviceReads| consistent(probe.history@, reads) implies probe.found()
                                    + #[trigger] probe.remaining(reads) == detected_partitions(reads) by {
                                    assert(old_probe.found() + old_probe.remaining(reads) == detected_partitions(reads));
                                    assert(found0 + detected_partitions(reads) == detected_partitions(reads));
                                    assert(probe.found() + probe.remaining(reads) =~= probe.found());
                                }
                            }
                        },
                        MbrScan::Protective => {
                            probe.stage = Stage::GptHeader;
                            proof {
                                assert forall|reads: DeviceReads| consistent(probe.history@, reads) implies probe.found()
                                    + #[trigger] probe.remaining(reads) == detected_partitions(reads) by {
                                    assert(old_probe.found() + old_probe.remaining(reads) == detected_partitions(reads));
                                    assert(found0.len() == 0);
                                    assert(found0 =~= Seq::<PartView>::empty());
                                    assert(found0 + gpt_from_header(reads) =~= gpt_from_header(reads));
                                }
                            }
                        },
                        MbrScan::Primary(parts) => {
                            let cands = mbr_candidates(&parts);
                            probe.candidates = cands;
                            probe.next = 0;
                            let ghost mid = *probe;
                            probe.settle();
                            proof {
                                assert forall|reads: DeviceReads| consistent(probe.history@, reads) implies probe.found()
                                    + #[trigger] probe.remaining(reads) == detected_partitions(reads) by {
                                    assert(old_probe.found() + old_probe.remaining(reads) == detected_partitions(reads));
                                    assert(found0.len() == 0);
                                    assert(found0 =~= Seq::<PartView>::empty());
                                    let t = tail_views(reads, mid.candidates@, 0);
                                    assert(mid.candidates@.subrange(0, mid.candidates@.len() as int) =~= mid.candidates@);
                                    assert forall|j: int| 0 <= j < t.len() implies #[trigger] t[j]
                                        == parts@.map_values(|p: MbrPartition| mbr_view(reads, p))[j] by {
                                        lemma_mbr_candidate_view(reads, mid.candidates@[j], parts@[j]);
                                    }
                                    assert(t =~= parts@.map_values(|p: MbrPartition| mbr_view(reads, p)));
                                    assert(probe.found() + probe.remaining(reads) == found0 + t);
                                    assert(found0 + t =~= t);
                                }
                            }
                        },
                    }
                },
            }
        },
        Stage::GptHeader => {
            match outcome {
                None => {
                    probe.stage = Stage::Done;
                },
                Some(h) => {
                    match parse_gpt_header(h.as_slice()) {
                        None => {
                            probe.stage = Stage::Done;
                        },
                        Some(hdr) => {
                            match gpt_entries_len(&hdr) {
                                None => {
                                    probe.stage = Stage::Done;
                                },
                                Some(n) => {
                                    let offset = gpt_entries_offset(&hdr);
                                    probe.stage = Stage::GptEntries {
                                        offset,
                                        num: hdr.num_entries as usize,
                                        size: hdr.entry_size as usize,
                                    };
                                },
                            }
                        },
                    }
                },
            }
            proof {
                assert forall|reads: DeviceReads| consistent(probe.history@, reads) implies probe.found()
                    + #[trigger] probe.remaining(reads) == detected_partitions(reads) by {
                    assert(old_probe.found() + old_probe.remaining(reads) == detected_partitions(reads));
                    assert(found0 + gpt_from_header(reads) == detected_partitions(reads));
                    if probe.stage is Done {
                        assert(gpt_from_header(reads) =~= Seq::<PartView>::empty());
                        assert(probe.found() + probe.remaining(reads) =~= probe.found());
                        assert(old_probe.found() + old_probe.remaining(reads) == detected_partitions(reads));
                        assert(found0 + gpt_from_header(reads) =~= found0);
                    }
                }
            }
        },
        Stage::GptEntries { offset, num, size } => {
            match outcome {
                None => {
                    probe.stage = Stage::Done;
                    proof {
                        assert forall|reads: DeviceReads| consistent(probe.history@, reads) implies probe.found()
                            + #[trigger] probe.remaining(reads) == detected_partitions(reads) by {
                            assert(old_probe.found() + old_probe.remaining(reads) == detected_partitions(reads));
                            assert(found0 + gpt_from_entries(reads, offset, num as nat, size as nat)
                                == detected_partitions(reads));
                            assert(gpt_from_entries(reads, offset, num as nat, size as nat) =~= Seq::<
                                PartView,
                            >::empty());
                            assert(probe.found() + probe.remaining(reads) =~= probe.found());
                            assert(old_probe.found() + old_probe.remaining(reads) == detected_partitions(reads));
                            assert(found0 + Seq::<PartView>::empty() =~= found0);
                        }
                    }
                },
                Some(buf) => {
                    let entries = parse_gpt_entries(buf.as_slice(), num, size);
                    let cands = gpt_candidates(&entries, Ghost(buf@), Ghost(num as int), Ghost(size as int));
                    probe.candidates = cands;
                    probe.next = 0;
                    let ghost mid = *probe;
                    probe.settle();
                    proof {
                        assert forall|reads: DeviceReads| consistent(probe.history@, reads) implies probe.found()
                            + #[trigger] probe.remaining(reads) == detected_partitions(reads) by {
                            assert(old_probe.found() + old_probe.remaining(reads) == detected_partitions(reads));
                            assert(found0 + gpt_from_entries(reads, offset, num as nat, size as nat)
                                == detected_partitions(reads));
                            let t = tail_views(reads, mid.candidates@, 0);
                            let g = gpt_views(reads, buf@, num as int, size as int);
                            assert(mid.candidates@.subrange(0, mid.candidates@.len() as int) =~= mid.candidates@);
                            assert forall|j: int| 0 <= j < t.len() implies #[trigger] t[j] == g[j] by {
                                lemma_gpt_candidate_view(
                                    reads,
                                    mid.candidates@[j],
                                    buf@,
                                    gpt_listed_indices(buf@, size as int, num as int)[j],
                                    size as int,
                                );
                            }
                            assert(t =~= g);
                        }
                    }
                },
            }
        },
        Stage::Probe { step } => {
            let n = probe.next;
            let total = probe.candidates.len();
            proof {
                assert(n < total);
            }
            let c = &probe.candidates[n];
            let detected = match &outcome {
                None => None,
                Some(v) => if step == 0 {
                    FileSystem::from_boot_sector(v.as_slice())
                } else if step == 1 {
                    FileSystem::from_superblock(v.as_slice())
                } else {
                    FileSystem::from_btrfs_block(v.as_slice())
                },
            };
            let ghost cg = *c;
            if detected.is_some() || step >= 2 {
                let info = PartitionInfo {
                    name: c.name.clone(),
                    size: c.size,
                    fs_type: partition_fs_type(c.label.clone(), detected),
                };
                let ghost before = probe.found();
                probe.found.push(info);
                probe.next = n + 1;
                let ghost mid = *probe;
                probe.settle();
                proof {
                    assert(mid.found() =~= before.push(part_view(info)));
                    assert forall|reads: DeviceReads| consistent(probe.history@, reads) implies probe.found()
                        + #[trigger] probe.remaining(reads) == detected_partitions(reads) by {
                        let rest = old_probe.candidates@.subrange(n + 1, old_probe.candidates@.len() as int);
                        let r0 = old_probe.remaining(reads);
                        assert(r0 == seq![candidate_view(reads, cg, step as nat)] + rest.map_values(
                            |c: Candidate| candidate_view(reads, c, 0),
                        ));
                        assert(candidate_view(reads, cg, step as nat) == part_view(info));
                        let t = tail_views(reads, mid.candidates@, mid.next as int);
                        assert(t =~= rest.map_values(|c: Candidate| candidate_view(reads, c, 0)));
                        assert(before + r0 =~= before.push(part_view(info)) + t);
                    }
                }
            } else {
                probe.stage = Stage::Probe { step: step + 1 };
                proof {
                    assert forall|reads: DeviceReads| consistent(probe.history@, reads) implies probe.found()
                        + #[trigger] probe.remaining(reads) == detected_partitions(reads) by {
                        assert(candidate_view(reads, cg, (step + 1) as nat) == candidate_view(
                            reads,
                            cg,
                            step as nat,
                        ));
                        assert(probe.remaining(reads) =~= old_probe.remaining(reads));
                    }
                }
            }
        },
        Stage::Done => {},
    }
    let next = probe.pending();
    let action = match next {
        Some(q) => ProbeAction::Read(q),
        None => {
            let v = copy_partitions(&probe.found);
            proof {
                assert forall|reads: DeviceReads| consistent(probe.history@, reads) implies views(v@)
                    == #[trigger] detected_partitions(reads) by {
                    assert(probe.found() + probe.remaining(reads) == detected_partitions(reads));
                    assert(probe.found() + probe.remaining(reads) =~= probe.found());
                }
            }
            ProbeAction::Finished(v)
        },
    };
    action
}

} // verus!
