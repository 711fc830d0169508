//! The imaging session: block sizing, bad-sector isolation with retries
//! and zero fill, keyword scanning of each block, and stream hashing of
//! exactly the bytes handed to the image writer.

use vstd::prelude::*;
use crate::hasher::{HashAlgorithm, HashDigests, MultiHasher, hex_digest_of};
use crate::output::CompressionFormat;
use crate::plugins::StringMap;
use crate::text::{push_str, push_decimal, decimal, chars_of};
use crate::report::{hash_lines, push_hash_lines, ln, push_line, Timestamp, utc_rfc2822_text, to_utc_rfc2822};

verus! {

/// One unreadable sector.
#[derive(Clone, Debug)]
pub struct BadSectorEntry {
    pub lba: u64,
    pub retries: u32,
    pub error_msg: String,
}

/// The unreadable sectors met during an acquisition, in the order met.
#[derive(Clone, Debug)]
pub struct BadSectorMap {
    pub sectors: Vec<BadSectorEntry>,
}

impl BadSectorMap {
    /// An empty map.
    pub fn new() -> (m: Self)
        ensures
            m.sectors@.len() == 0,
    {
        BadSectorMap { sectors: Vec::new() }
    }
}

/// What to do with a block that cannot be read (desktop imager).
#[derive(Clone, Copy, Debug, PartialEq, Eq, Structural)]
pub enum BadSectorAction {
    Skip,
    Retry(u32),
    ZeroFill,
}

impl BadSectorAction {
    /// How many more times a failed block is read before it is given up.
    pub open spec fn retries_spec(&self) -> nat {
        match *self {
            BadSectorAction::Retry(r) => r as nat,
            _ => 0,
        }
    }

    /// How many more times a failed block is read before it is given up.
    pub fn retries(&self) -> (n: u32)
        ensures
            n == self.retries_spec(),
    {
        match self {
            BadSectorAction::Retry(r) => *r,
            _ => 0,
        }
    }
}

/// Settings of a physical acquisition.
#[derive(Clone, Debug)]
pub struct AcquisitionConfig {
    pub hash_algorithms: Vec<HashAlgorithm>,
    pub block_size: usize,
    pub split_size: Option<u64>,
    pub compression: CompressionFormat,
    pub case_number: String,
    pub examiner: String,
    pub evidence_id: String,
    pub notes: String,
    pub pre_hash: Option<String>,
    pub imaging_mode: String,
    pub format: String,
    pub read_verification: bool,
    pub keywords: Vec<String>,
    pub yara_rules_path: Option<String>,
}

/// Outcome of an acquisition.
#[derive(Debug)]
pub struct AcquisitionResult {
    pub bytes_read: u64,
    pub bad_sectors: u64,
    pub hashes: HashDigests,
    pub keyword_hits: Vec<(String, u64)>,
    pub yara_hits: Vec<(String, Vec<String>, u64)>,
    pub plugin_results: StringMap,
}

// ---------------------------------------------------------------------
// Keyword search
// ---------------------------------------------------------------------

/// ASCII lower-case of a byte.
pub open spec fn ascii_lower(b: u8) -> u8 {
    if 65 <= b <= 90 {
        (b + 32) as u8
    } else {
        b
    }
}

/// Whether `h` holds `n` at `i`, ignoring ASCII case.
pub open spec fn ci_match_at(h: Seq<u8>, n: Seq<u8>, i: int) -> bool {
    &&& 0 <= i
    &&& i + n.len() <= h.len()
    &&& forall|k: int| 0 <= k < n.len() ==> #[trigger] ascii_lower(h[i + k]) == ascii_lower(n[k])
}

/// First position at which `h` holds `n`, ignoring ASCII case.
pub open spec fn first_ci_match(h: Seq<u8>, n: Seq<u8>) -> Option<nat> {
    if exists|i: int| ci_match_at(h, n, i) {
        Some(choose|i: nat| ci_match_at(h, n, i as int) && forall|j: int| 0 <= j < i ==> !ci_match_at(h, n, j))
    } else {
        None
    }
}

/// A match, if any, has a first one.
proof fn lemma_first_match_exists(h: Seq<u8>, n: Seq<u8>, i: int)
    requires
        ci_match_at(h, n, i),
    ensures
        exists|p: nat| ci_match_at(h, n, p as int) && forall|j: int| 0 <= j < p ==> !ci_match_at(h, n, j),
    decreases i,
{
    if exists|j: int| 0 <= j < i && ci_match_at(h, n, j) {
        let j = choose|j: int| 0 <= j < i && ci_match_at(h, n, j);
        lemma_first_match_exists(h, n, j);
    } else {
        assert(ci_match_at(h, n, (i as nat) as int));
    }
}

/// What the first case-insensitive match is: present exactly when the
/// needle occurs, and then an occurrence with none before it.
pub proof fn lemma_first_ci_match(h: Seq<u8>, n: Seq<u8>)
    ensures
        first_ci_match(h, n) is Some <==> exists|i: int| ci_match_at(h, n, i),
        first_ci_match(h, n) matches Some(p) ==> ci_match_at(h, n, p as int) && forall|j: int|
            0 <= j < p ==> !ci_match_at(h, n, j),
{
    if exists|i: int| ci_match_at(h, n, i) {
        let i = choose|i: int| ci_match_at(h, n, i);
        lemma_first_match_exists(h, n, i);
    }
}

/// ASCII lower-case of a byte.
fn to_ascii_lower(b: u8) -> (r: u8)
    ensures
        r == ascii_lower(b),
{
    if 65 <= b && b <= 90 {
        b + 32
    } else {
        b
    }
}

/// Whether `h` holds `n` at `i`, ignoring ASCII case.
fn matches_ci_at(h: &[u8], n: &[u8], i: usize) -> (r: bool)
    requires
        i + n@.len() <= h@.len(),
    ensures
        r == ci_match_at(h@, n@, i as int),
{
    let hlen = h.len();
    let mut k: usize = 0;
    while k < n.len()
        invariant
            k <= n@.len(),
            hlen == h@.len(),
            i + n@.len() <= h@.len(),
            forall|j: int| 0 <= j < k ==> #[trigger] ascii_lower(h@[i + j]) == ascii_lower(n@[j]),
        decreases n@.len() - k,
    {
        if to_ascii_lower(h[i + k]) != to_ascii_lower(n[k]) {
            return false;
        }
        k += 1;
    }
    true
}

/// Position of the first occurrence of `needle` in `haystack`, ignoring
/// ASCII case.
pub fn search_bytes(haystack: &[u8], needle: &[u8]) -> (r: Option<usize>)
    requires
        needle@.len() > 0,
    ensures
        match r {
            Some(p) => first_ci_match(haystack@, needle@) == Some(p as nat) && p + needle@.len()
                <= haystack@.len(),
            None => first_ci_match(haystack@, needle@) is None,
        },
        match r {
            Some(p) => ci_match_at(haystack@, needle@, p as int) && forall|j: int|
                0 <= j < p ==> !ci_match_at(haystack@, needle@, j),
            None => forall|j: int| !ci_match_at(haystack@, needle@, j),
        },
{
    if needle.len() > haystack.len() {
        proof {
            assert(!exists|i: int| ci_match_at(haystack@, needle@, i));
        }
        return None;
    }
    let hlen = haystack.len();
    let last = hlen - needle.len();
    let mut i: usize = 0;
    while i <= last
        invariant
            hlen == haystack@.len(),
            needle@.len() > 0,
            last == haystack@.len() - needle@.len(),
            needle@.len() <= haystack@.len(),
            forall|j: int| 0 <= j < i ==> !ci_match_at(haystack@, needle@, j),
        decreases last + 1 - i,
    {
        if matches_ci_at(haystack, needle, i) {
            proof {
                let p = choose|p: nat| ci_match_at(haystack@, needle@, p as int) && forall|j: int|
                    0 <= j < p ==> !ci_match_at(haystack@, needle@, j);
                assert(ci_match_at(haystack@, needle@, i as int));
                if p < i {
                } else if p > i {
                    assert(!ci_match_at(haystack@, needle@, i as int));
                }
            }
            return Some(i);
        }
        i += 1;
    }
    proof {
        assert forall|j: int| !ci_match_at(haystack@, needle@, j) by {
            if 0 <= j < i {
            }
        }
    }
    None
}

/// Keyword hits of one block: for each keyword, in order, its first
/// occurrence in the block (ignoring ASCII case), at its absolute offset.
pub open spec fn keyword_hits_of(block: Seq<u8>, base: nat, keywords: Seq<Seq<u8>>) -> Seq<(Seq<u8>, nat)>
    decreases keywords.len(),
{
    if keywords.len() == 0 {
        Seq::empty()
    } else {
        let rest = keyword_hits_of(block, base, keywords.drop_last());
        match first_ci_match(block, keywords.last()) {
            Some(p) => rest.push((keywords.last(), base + p)),
            None => rest,
        }
    }
}

/// UTF-8 bytes of each keyword.
pub open spec fn keyword_bytes(keywords: Seq<String>) -> Seq<Seq<u8>> {
    keywords.map_values(|k: String| crate::text::utf8_of(k@))
}

/// One more keyword extends the hits by that keyword's first match, if any.
proof fn lemma_hits_step(block: Seq<u8>, base: nat, kb: Seq<Seq<u8>>, i: int)
    requires
        0 <= i < kb.len(),
    ensures
        keyword_hits_of(block, base, kb.take(i + 1)) == match first_ci_match(block, kb[i]) {
            Some(p) => keyword_hits_of(block, base, kb.take(i)).push((kb[i], base + p)),
            None => keyword_hits_of(block, base, kb.take(i)),
        },
{
    assert(kb.take(i + 1).drop_last() =~= kb.take(i));
    assert(kb.take(i + 1).last() == kb[i]);
}

/// Whether each hit stands for the hit of the model at the same index.
pub open spec fn hits_agree(hits: Seq<(String, u64)>, model: Seq<(Seq<u8>, nat)>) -> bool {
    &&& hits.len() == model.len()
    &&& forall|j: int|
        0 <= j < hits.len() ==> {
            &&& crate::text::utf8_of((#[trigger] hits[j]).0@) == model[j].0
            &&& hits[j].1 as nat == model[j].1
        }
}

/// The hits of `keywords` in a block read at `offset_base`: for each
/// keyword, in order, its first case-insensitive occurrence, with the
/// absolute offset of the match.
pub fn scan_keywords(block: &[u8], offset_base: u64, keywords: &Vec<String>) -> (hits: Vec<(String, u64)>)
    requires
        offset_base + block@.len() <= u64::MAX,
        forall|i: int| 0 <= i < keywords@.len() ==> #[trigger] keywords@[i]@.len() > 0,
    ensures
        hits_agree(hits@, keyword_hits_of(block@, offset_base as nat, keyword_bytes(keywords@))),
{
    let ghost kb = keyword_bytes(keywords@);
    let mut hits: Vec<(String, u64)> = Vec::new();
    let mut i: usize = 0;
    while i < keywords.len()
        invariant
            i <= keywords@.len(),
            kb == keyword_bytes(keywords@),
            kb.len() == keywords@.len(),
            offset_base + block@.len() <= u64::MAX,
            forall|i: int| 0 <= i < keywords@.len() ==> #[trigger] keywords@[i]@.len() > 0,
            hits_agree(hits@, keyword_hits_of(block@, offset_base as nat, kb.take(i as int))),
        decreases keywords@.len() - i,
    {
        let kw = &keywords[i];
        let needle = kw.as_str().as_bytes();
        let ghost old_hits = hits@;
        proof {
            crate::text::lemma_utf8_len_positive(kw@);
            assert(kb[i as int] == crate::text::utf8_of(keywords@[i as int]@));
            lemma_hits_step(block@, offset_base as nat, kb, i as int);
        }
        match search_bytes(block, needle) {
            Some(pos) => {
                hits.push((kw.clone(), offset_base + pos as u64));
                proof {
                    let model = keyword_hits_of(block@, offset_base as nat, kb.take(i + 1));
                    assert forall|j: int| 0 <= j < hits@.len() implies {
                        &&& crate::text::utf8_of((#[trigger] hits@[j]).0@) == model[j].0
                        &&& hits@[j].1 as nat == model[j].1
                    } by {
                        if j < old_hits.len() {
                            assert(hits@[j] == old_hits[j]);
                        }
                    }
                }
            },
            None => {},
        }
        i += 1;
    }
    proof {
        assert(kb.take(keywords@.len() as int) =~= kb);
    }
    hits
}


// ---------------------------------------------------------------------
// Sector isolation of an unreadable block
// ---------------------------------------------------------------------

/// Bytes per sector of the bad-sector map.
pub const ISOLATION_SECTOR: usize = 512;

/// Reads of one sector made before it is given up and zero filled.
pub const SECTOR_ATTEMPTS: u32 = 3;

/// What one read of a sector gave.
#[derive(Clone, Debug)]
pub enum SectorRead {
    /// The read returned `count`; `data` is the sector buffer after it.
    Bytes { data: Vec<u8>, count: usize },
    /// The read failed; `message` is the error's text.
    Failed { message: String },
}

/// What the device must do after a sector read was recorded.
#[derive(Clone, Copy, Debug, PartialEq, Eq, Structural)]
pub enum IsolationStep {
    /// The sector was read; go on with the next one.
    Next,
    /// The read fell short or failed: seek back to `seek_to` and read the
    /// sector again.
    Retry { seek_to: u64 },
    /// The sector is given up and zero filled: seek to `seek_to`, then
    /// skip `skip` bytes forward.
    GiveUp { seek_to: u64, skip: u64 },
}

/// Zero bytes.
pub open spec fn zeros(n: nat) -> Seq<u8> {
    Seq::new(n, |i: int| 0u8)
}

/// Length of the sector that starts `offset` bytes into a block of `len`.
pub open spec fn sector_len(len: nat, offset: nat) -> nat {
    if len - offset < 512 {
        (len - offset) as nat
    } else {
        512
    }
}

/// Whether a read returned the whole sector of `sz` bytes.
pub open spec fn read_complete(read: SectorRead, sz: nat) -> bool {
    read matches SectorRead::Bytes { data, count } && count == sz
}

/// Error text recorded for a read that returned fewer bytes than the sector.
pub open spec fn partial_read_text(count: nat) -> Seq<char> {
    "Partial read: "@ + decimal(count)
}

/// Error text recorded for a read that failed.
pub open spec fn io_error_text(message: Seq<char>) -> Seq<char> {
    "I/O Error: "@ + message
}

/// The sector-by-sector re-read of a block whose block-sized read failed:
/// each 512-byte sector is read up to three times, and a sector that never
/// reads in full is zero filled and entered in the bad-sector map.
pub struct SectorIsolation {
    block_start: u64,
    block_len: usize,
    offset: usize,
    attempts: u32,
    last_error: String,
    recovered: Vec<u8>,
    bad: Vec<BadSectorEntry>,
}

impl SectorIsolation {
    /// Device offset of the block.
    pub closed spec fn start(&self) -> nat {
        self.block_start as nat
    }

    /// Length of the block.
    pub closed spec fn len(&self) -> nat {
        self.block_len as nat
    }

    /// Offset in the block of the sector being read.
    pub closed spec fn offset(&self) -> nat {
        self.offset as nat
    }

    /// Failed reads of the current sector so far.
    pub closed spec fn attempts(&self) -> nat {
        self.attempts as nat
    }

    /// The block's bytes up to the current sector.
    pub closed spec fn recovered(&self) -> Seq<u8> {
        self.recovered@
    }

    /// The sectors given up so far, in block order.
    pub closed spec fn bad(&self) -> Seq<BadSectorEntry> {
        self.bad@
    }

    /// Internal consistency.
    pub closed spec fn wf(&self) -> bool {
        &&& self.offset <= self.block_len
        &&& self.recovered@.len() == self.offset
        &&& self.bad@.len() <= self.offset
        &&& self.attempts < 3
        &&& self.block_start + self.block_len <= u64::MAX
    }

    /// Whether every sector has been read or given up.
    pub open spec fn done(&self) -> bool {
        self.offset() >= self.len()
    }

    /// Starts isolating the block of `block_len` bytes at `block_start`;
    /// the device is to be positioned at `block_start` first.
    pub fn new(block_start: u64, block_len: usize) -> (iso: Self)
        requires
            block_start + block_len <= u64::MAX,
        ensures
            iso.wf(),
            iso.start() == block_start,
            iso.len() == block_len,
            iso.offset() == 0,
            iso.attempts() == 0,
            iso.recovered() == Seq::<u8>::empty(),
            iso.bad() == Seq::<BadSectorEntry>::empty(),
    {
        SectorIsolation {
            block_start,
            block_len,
            offset: 0,
            attempts: 0,
            last_error: String::new(),
            recovered: Vec::new(),
            bad: Vec::new(),
        }
    }

    /// The block's bytes recovered so far (read sectors as read, given-up
    /// sectors as zeros).
    pub fn recovered_bytes(&self) -> (v: &Vec<u8>)
        ensures
            v@ == self.recovered(),
    {
        &self.recovered
    }

    /// Length of the sector to read next, or `None` when the block is done.
    pub fn pending(&self) -> (r: Option<usize>)
        requires
            self.wf(),
        ensures
            r matches Some(n) ==> !self.done() && n == sector_len(self.len(), self.offset()),
            r is None ==> self.done(),
    {
        if self.offset < self.block_len {
            let rest = self.block_len - self.offset;
            if rest < ISOLATION_SECTOR {
                Some(rest)
            } else {
                Some(ISOLATION_SECTOR)
            }
        } else {
            None
        }
    }

    /// Records one read of the pending sector and says what the device
    /// must do next.
    pub fn record(&mut self, read: SectorRead) -> (step: IsolationStep)
        requires
            old(self).wf(),
            !old(self).done(),
            read matches SectorRead::Bytes { data, count } ==> data@.len() == sector_len(
                old(self).len(),
                old(self).offset(),
            ),
        ensures
            final(self).wf(),
            final(self).start() == old(self).start(),
            final(self).len() == old(self).len(),
            ({
                let sz = sector_len(old(self).len(), old(self).offset());
                let pos = old(self).start() + old(self).offset();
                let message = match read {
                    SectorRead::Bytes { data, count } => partial_read_text(count as nat),
                    SectorRead::Failed { message } => io_error_text(message@),
                };
                if read_complete(read, sz) {
                    &&& step == IsolationStep::Next
                    &&& final(self).offset() == old(self).offset() + sz
                    &&& final(self).attempts() == 0
                    &&& final(self).recovered() == old(self).recovered() + read->data@
                    &&& final(self).bad() == old(self).bad()
                } else if old(self).attempts() + 1 < 3 {
                    &&& step == IsolationStep::Retry { seek_to: pos as u64 }
                    &&& final(self).offset() == old(self).offset()
                    &&& final(self).attempts() == old(self).attempts() + 1
                    &&& final(self).recovered() == old(self).recovered()
                    &&& final(self).bad() == old(self).bad()
                } else {
                    &&& step == IsolationStep::GiveUp { seek_to: pos as u64, skip: sz as u64 }
                    &&& final(self).offset() == old(self).offset() + sz
                    &&& final(self).attempts() == 0
                    &&& final(self).recovered() == old(self).recovered() + zeros(sz)
                    &&& final(self).bad().len() == old(self).bad().len() + 1
                    &&& final(self).bad().drop_last() == old(self).bad()
                    &&& final(self).bad().last().lba == pos / 512
                    &&& final(self).bad().last().retries == 3
                    &&& final(self).bad().last().error_msg@ == message
                }
            }),
    {
        let rest = self.block_len - self.offset;
        let sz = if rest < ISOLATION_SECTOR { rest } else { ISOLATION_SECTOR };
        let pos = self.block_start + self.offset as u64;
        let ghost old_rec = self.recovered@;
        let ghost old_bad = self.bad@;
        let ghost old_att = self.attempts;
        let ghost old_start = self.block_start;
        let ghost old_len = self.block_len;
        let ghost old_off = self.offset;
        match read {
            SectorRead::Bytes { data, count } => {
                if count == sz {
                    let mut i: usize = 0;
                    while i < sz
                        invariant
                            i <= sz,
                            data@.len() == sz,
                            self.offset + sz <= self.block_len,
                            self.block_start == old_start,
                            self.block_len == old_len,
                            self.offset == old_off,
                            self.block_start + self.block_len <= u64::MAX,
                            self.attempts == old_att,
                            old_att < 3,
                            old_rec.len() == self.offset,
                            self.bad@ == old_bad,
                            self.recovered@ == old_rec + data@.take(i as int),
                        decreases sz - i,
                    {
                        self.recovered.push(data[i]);
                        proof {
                            assert(data@.take(i + 1) =~= data@.take(i as int).push(data@[i as int]));
                        }
                        i += 1;
                    }
                    proof {
                        assert(data@.take(sz as int) =~= data@);
                    }
                    self.offset = self.offset + sz;
                    self.attempts = 0;
                    return IsolationStep::Next;
                }
                let mut msg = String::new();
                push_str(&mut msg, "Partial read: ");
                push_decimal(&mut msg, count as u64);
                self.last_error = msg;
            },
            SectorRead::Failed { message } => {
                let mut msg = String::new();
                push_str(&mut msg, "I/O Error: ");
                push_str(&mut msg, message.as_str());
                self.last_error = msg;
            },
        }
        if self.attempts + 1 < SECTOR_ATTEMPTS {
            self.attempts = self.attempts + 1;
            return IsolationStep::Retry { seek_to: pos };
        }
        let ghost err = self.last_error@;
        let mut i: usize = 0;
        while i < sz
            invariant
                i <= sz,
                self.offset + sz <= self.block_len,
                self.block_start == old_start,
                self.block_len == old_len,
                self.offset == old_off,
                self.block_start + self.block_len <= u64::MAX,
                old_rec.len() == self.offset,
                self.bad@ == old_bad,
                self.last_error@ == err,
                self.recovered@ == old_rec + zeros(i as nat),
            decreases sz - i,
        {
            self.recovered.push(0u8);
            proof {
                assert(zeros((i + 1) as nat) =~= zeros(i as nat).push(0u8));
            }
            i += 1;
        }
        let entry = BadSectorEntry { lba: pos / 512, retries: SECTOR_ATTEMPTS, error_msg: self.last_error.clone() };
        self.bad.push(entry);
        self.offset = self.offset + sz;
        self.attempts = 0;
        IsolationStep::GiveUp { seek_to: pos, skip: sz as u64 }
    }

    /// The recovered block (read sectors as read, given-up sectors as
    /// zeros) and the bad-sector entries of the given-up sectors.
    pub fn into_parts(self) -> (r: (Vec<u8>, Vec<BadSectorEntry>))
        requires
            self.wf(),
            self.done(),
        ensures
            r.0@ == self.recovered(),
            r.0@.len() == self.len(),
            r.1@ == self.bad(),
            r.1@.len() <= r.0@.len(),
    {
        (self.recovered, self.bad)
    }
}


/// Appends the hits of `src` to `dst`.
fn append_hits(dst: &mut Vec<(String, u64)>, src: &Vec<(String, u64)>)
    ensures
        final(dst)@ == old(dst)@ + src@,
{
    let ghost start = dst@;
    let mut i: usize = 0;
    while i < src.len()
        invariant
            i <= src@.len(),
            dst@ == start + src@.take(i as int),
        decreases src@.len() - i,
    {
        let (k, o) = &src[i];
        dst.push((k.clone(), *o));
        proof {
            assert(src@.take(i + 1) =~= src@.take(i as int).push(src@[i as int]));
        }
        i += 1;
    }
    proof {
        assert(src@.take(src@.len() as int) =~= src@);
    }
}

// ---------------------------------------------------------------------
// The imaging session
// ---------------------------------------------------------------------

/// Keyword hits of a run of blocks: the hits of each block, block after
/// block, each block scanned at its absolute offset.
pub open spec fn block_hits(block: Seq<u8>, base: nat, keywords: Seq<String>) -> Seq<(Seq<u8>, nat)> {
    keyword_hits_of(block, base, keyword_bytes(keywords))
}

/// Length of the block read at `pos` of a source of `total` bytes with
/// blocks of `block_size`: a whole block, or what is left.
pub open spec fn block_len_at(total: nat, block_size: nat, pos: nat) -> nat {
    if block_size > total - pos {
        (total - pos) as nat
    } else {
        block_size
    }
}

/// The state of a physical acquisition: where it stands on the source,
/// the bytes it has handed to the image writer, the running digests of
/// the whole source read so far, the keyword hits and the bad-sector map.
/// A session resumed at an offset first re-reads the source before that
/// offset (the prefix), so that its digests cover the source from its
/// first byte, as those of an uninterrupted acquisition do.
pub struct AcquisitionSession {
    total_size: u64,
    block_size: usize,
    start_offset: u64,
    prefix_read: u64,
    prefix: Ghost<Seq<u8>>,
    bytes_read: u64,
    at_end: bool,
    bad_map: Vec<BadSectorEntry>,
    hasher: MultiHasher,
    keywords: Vec<String>,
    hits: Vec<(String, u64)>,
    imaged: Ghost<Seq<u8>>,
    hit_model: Ghost<Seq<(Seq<u8>, nat)>>,
}

impl AcquisitionSession {
    /// Size of the source.
    pub closed spec fn total(&self) -> nat {
        self.total_size as nat
    }

    /// Configured block size.
    pub closed spec fn block_size(&self) -> nat {
        self.block_size as nat
    }

    /// Offset at which the session started (a resumed acquisition starts
    /// past the bytes imaged before).
    pub closed spec fn start(&self) -> nat {
        self.start_offset as nat
    }

    /// Offset of the next block on the source.
    pub closed spec fn position(&self) -> nat {
        self.bytes_read as nat
    }

    /// Whether a read returned no data.
    pub closed spec fn at_end(&self) -> bool {
        self.at_end
    }

    /// The bytes handed to the writer, in order.
    pub closed spec fn imaged(&self) -> Seq<u8> {
        self.imaged@
    }

    /// The bytes before the start offset re-read for the digests so far.
    pub closed spec fn prefix(&self) -> Seq<u8> {
        self.prefix@
    }

    /// Whether the bytes before the start offset have all been re-read.
    pub open spec fn prefix_complete(&self) -> bool {
        self.prefix().len() == self.start()
    }

    /// Length of the next piece of the prefix to re-read.
    pub open spec fn prefix_next_len(&self) -> nat {
        block_len_at(self.start(), PRE_HASH_BLOCK as nat, self.prefix().len())
    }

    /// The bytes the digests cover: the prefix re-read, then the bytes
    /// handed to the writer.
    pub open spec fn hashed(&self) -> Seq<u8> {
        self.prefix() + self.imaged()
    }

    /// The bad-sector entries recorded so far.
    pub closed spec fn bad_map(&self) -> Seq<BadSectorEntry> {
        self.bad_map@
    }

    /// The keywords scanned for.
    pub closed spec fn keywords(&self) -> Seq<String> {
        self.keywords@
    }

    /// The keyword hits so far, by the keyword's bytes and the absolute offset.
    pub closed spec fn hit_model(&self) -> Seq<(Seq<u8>, nat)> {
        self.hit_model@
    }

    /// Whether the session computes a digest under `a`.
    pub closed spec fn computes(&self, a: HashAlgorithm) -> bool {
        self.hasher.computes(a)
    }

    /// Internal consistency.
    pub closed spec fn wf(&self) -> bool {
        &&& self.hasher.wf()
        &&& self.hasher.data() == self.prefix@ + self.imaged@
        &&& self.prefix@.len() == self.prefix_read
        &&& self.prefix_read <= self.start_offset
        &&& (self.imaged@.len() > 0 ==> self.prefix_read == self.start_offset)
        &&& self.bytes_read == self.start_offset + self.imaged@.len()
        &&& (self.imaged@.len() > 0 ==> self.bytes_read <= self.total_size)
        &&& self.bad_map@.len() <= self.imaged@.len()
        &&& forall|i: int| 0 <= i < self.keywords@.len() ==> #[trigger] self.keywords@[i]@.len() > 0
        &&& hits_agree(self.hits@, self.hit_model@)
    }

    /// Whether the imaging loop is over: the source is exhausted or a
    /// read returned no data.
    pub open spec fn finished(&self) -> bool {
        self.at_end() || self.position() >= self.total()
    }

    /// Length of the next block to read.
    pub open spec fn next_len(&self) -> nat {
        block_len_at(self.total(), self.block_size(), self.position())
    }

    /// A session over a source of `total_size` bytes, imaging from
    /// `start_offset` (after re-reading the bytes before it for the
    /// digests), hashing with the configured algorithms and scanning for
    /// the configured keywords.
    pub fn new(config: &AcquisitionConfig, total_size: u64, start_offset: u64) -> (s: Self)
        requires
            forall|i: int| 0 <= i < config.keywords@.len() ==> #[trigger] config.keywords@[i]@.len() > 0,
        ensures
            s.wf(),
            s.total() == total_size,
            s.block_size() == config.block_size,
            s.start() == start_offset,
            s.position() == start_offset,
            !s.at_end(),
            s.imaged() == Seq::<u8>::empty(),
            s.prefix() == Seq::<u8>::empty(),
            s.bad_map() == Seq::<BadSectorEntry>::empty(),
            s.keywords() == config.keywords@,
            s.hit_model() == Seq::<(Seq<u8>, nat)>::empty(),
            forall|a: HashAlgorithm| s.computes(a) <==> config.hash_algorithms@.contains(a),
    {
        let hasher = MultiHasher::new(config.hash_algorithms.as_slice());
        let s = AcquisitionSession {
            total_size,
            block_size: config.block_size,
            start_offset,
            prefix_read: 0,
            prefix: Ghost(Seq::empty()),
            bytes_read: start_offset,
            at_end: false,
            bad_map: Vec::new(),
            hasher,
            keywords: config.keywords.clone(),
            hits: Vec::new(),
            imaged: Ghost(Seq::empty()),
            hit_model: Ghost(Seq::empty()),
        };
        proof {
            assert(s.keywords@ == config.keywords@);
        }
        s
    }

    /// Offset of the next block on the source.
    pub fn bytes_read(&self) -> (n: u64)
        ensures
            n == self.position(),
    {
        self.bytes_read
    }

    /// The keyword hits so far, in the order found.
    pub fn keyword_hits(&self) -> (v: &Vec<(String, u64)>)
        requires
            self.wf(),
        ensures
            hits_agree(v@, self.hit_model()),
    {
        &self.hits
    }

    /// Number of bad sectors recorded.
    pub fn bad_sectors(&self) -> (n: u64)
        requires
            self.wf(),
        ensures
            n == self.bad_map().len(),
    {
        proof {
            assert(self.bad_map@.len() <= self.imaged@.len());
        }
        self.bad_map.len() as u64
    }

    /// Length of the next piece of the prefix to re-read, or `None` once
    /// the prefix is complete and imaging can go on.
    pub fn prefix_pending(&self) -> (r: Option<usize>)
        requires
            self.wf(),
        ensures
            r matches Some(n) ==> !self.prefix_complete() && n == self.prefix_next_len() && n > 0,
            r is None ==> self.prefix_complete(),
    {
        if self.prefix_read >= self.start_offset {
            return None;
        }
        let remaining = self.start_offset - self.prefix_read;
        if PRE_HASH_BLOCK as u64 > remaining {
            Some(remaining as usize)
        } else {
            Some(PRE_HASH_BLOCK)
        }
    }

    /// Records the next piece of the prefix as read from the source
    /// (`data` is what the read returned, at least one byte).
    pub fn accept_prefix(&mut self, data: &[u8])
        requires
            old(self).wf(),
            !old(self).prefix_complete(),
            0 < data@.len() <= old(self).prefix_next_len(),
        ensures
            final(self).wf(),
            final(self).prefix() == old(self).prefix() + data@,
            final(self).imaged() == old(self).imaged(),
            final(self).position() == old(self).position(),
            final(self).at_end() == old(self).at_end(),
            final(self).hit_model() == old(self).hit_model(),
            final(self).bad_map() == old(self).bad_map(),
            final(self).total() == old(self).total(),
            final(self).block_size() == old(self).block_size(),
            final(self).start() == old(self).start(),
            final(self).keywords() == old(self).keywords(),
            forall|a: HashAlgorithm| final(self).computes(a) == old(self).computes(a),
    {
        self.hasher.update(data);
        self.prefix_read = self.prefix_read + data.len() as u64;
        proof {
            self.prefix@ = self.prefix@ + data@;
            assert(self.hasher.data() =~= self.prefix@ + self.imaged@);
        }
    }

    /// Records that the next piece of the prefix could not be read (or
    /// the source ended before it): it is hashed as zeros, as the image
    /// holds zeros for what could not be read.
    pub fn accept_prefix_unreadable(&mut self)
        requires
            old(self).wf(),
            !old(self).prefix_complete(),
        ensures
            final(self).wf(),
            final(self).prefix() == old(self).prefix() + zeros(old(self).prefix_next_len()),
            final(self).imaged() == old(self).imaged(),
            final(self).position() == old(self).position(),
            final(self).at_end() == old(self).at_end(),
            final(self).hit_model() == old(self).hit_model(),
            final(self).bad_map() == old(self).bad_map(),
            final(self).total() == old(self).total(),
            final(self).block_size() == old(self).block_size(),
            final(self).start() == old(self).start(),
            final(self).keywords() == old(self).keywords(),
            forall|a: HashAlgorithm| final(self).computes(a) == old(self).computes(a),
    {
        let remaining = self.start_offset - self.prefix_read;
        let n: usize = if PRE_HASH_BLOCK as u64 > remaining { remaining as usize } else { PRE_HASH_BLOCK };
        let z: Vec<u8> = vec![0u8; n];
        proof {
            assert(z@ =~= zeros(n as nat));
        }
        self.accept_prefix(z.as_slice());
    }

    /// Length of the next block to read, or `None` when the loop is over.
    pub fn next_block_len(&self) -> (r: Option<usize>)
        requires
            self.wf(),
        ensures
            r matches Some(n) ==> !self.finished() && n == self.next_len(),
            r is None ==> self.finished(),
    {
        if self.at_end || self.bytes_read >= self.total_size {
            return None;
        }
        let remaining = self.total_size - self.bytes_read;
        if self.block_size as u64 > remaining {
            Some(remaining as usize)
        } else {
            Some(self.block_size)
        }
    }

    /// Hands `block` on: feeds it to the digests and the keyword scan and
    /// advances past it.
    fn take_block(&mut self, block: &[u8])
        requires
            old(self).wf(),
            old(self).prefix_complete(),
            !old(self).finished(),
            0 < block@.len() <= old(self).next_len(),
        ensures
            final(self).wf(),
            final(self).imaged() == old(self).imaged() + block@,
            final(self).prefix() == old(self).prefix(),
            final(self).position() == old(self).position() + block@.len(),
            final(self).hit_model() == old(self).hit_model() + block_hits(
                block@,
                old(self).position(),
                old(self).keywords(),
            ),
            final(self).bad_map() == old(self).bad_map(),
            final(self).at_end() == old(self).at_end(),
            final(self).total() == old(self).total(),
            final(self).block_size() == old(self).block_size(),
            final(self).start() == old(self).start(),
            final(self).keywords() == old(self).keywords(),
            forall|a: HashAlgorithm| final(self).computes(a) == old(self).computes(a),
    {
        let base = self.bytes_read;
        self.hasher.update(block);
        let found = scan_keywords(block, base, &self.keywords);
        let ghost old_hits = self.hits@;
        let ghost found_model = block_hits(block@, base as nat, self.keywords@);
        append_hits(&mut self.hits, &found);
        self.bytes_read = base + block.len() as u64;
        proof {
            let new_model = self.hit_model@ + found_model;
            assert forall|j: int| 0 <= j < self.hits@.len() implies {
                &&& crate::text::utf8_of((#[trigger] self.hits@[j]).0@) == new_model[j].0
                &&& self.hits@[j].1 as nat == new_model[j].1
            } by {
                if j < old_hits.len() {
                    assert(self.hits@[j] == old_hits[j]);
                } else {
                    assert(self.hits@[j] == found@[j - old_hits.len()]);
                }
            }
            self.hit_model@ = new_model;
            self.imaged@ = self.imaged@ + block@;
            assert(self.hasher.data() =~= self.prefix@ + self.imaged@);
        }
    }

    /// Records a block read from the source: `block` is what the read
    /// returned (no more than the block asked for). An empty read ends
    /// the loop; any other block is handed on.
    pub fn accept_block(&mut self, block: &[u8])
        requires
            old(self).wf(),
            old(self).prefix_complete(),
            !old(self).finished(),
            block@.len() <= old(self).next_len(),
        ensures
            final(self).wf(),
            final(self).total() == old(self).total(),
            final(self).block_size() == old(self).block_size(),
            final(self).start() == old(self).start(),
            final(self).prefix() == old(self).prefix(),
            final(self).keywords() == old(self).keywords(),
            final(self).bad_map() == old(self).bad_map(),
            forall|a: HashAlgorithm| final(self).computes(a) == old(self).computes(a),
            block@.len() == 0 ==> {
                &&& final(self).at_end()
                &&& final(self).imaged() == old(self).imaged()
                &&& final(self).position() == old(self).position()
                &&& final(self).hit_model() == old(self).hit_model()
            },
            block@.len() > 0 ==> {
                &&& !final(self).at_end()
                &&& final(self).imaged() == old(self).imaged() + block@
                &&& final(self).position() == old(self).position() + block@.len()
                &&& final(self).hit_model() == old(self).hit_model() + block_hits(
                    block@,
                    old(self).position(),
                    old(self).keywords(),
                )
            },
    {
        if block.len() == 0 {
            self.at_end = true;
        } else {
            self.take_block(block);
        }
    }

    /// Records a block recovered sector by sector after its read failed:
    /// its bad sectors join the map and the recovered bytes (zeros for the
    /// given-up sectors) are handed on.
    pub fn accept_isolated(&mut self, iso: SectorIsolation)
        requires
            old(self).wf(),
            old(self).prefix_complete(),
            !old(self).finished(),
            iso.wf(),
            iso.done(),
            iso.start() == old(self).position(),
            iso.len() == old(self).next_len(),
        ensures
            final(self).wf(),
            final(self).total() == old(self).total(),
            final(self).block_size() == old(self).block_size(),
            final(self).start() == old(self).start(),
            final(self).prefix() == old(self).prefix(),
            final(self).keywords() == old(self).keywords(),
            forall|a: HashAlgorithm| final(self).computes(a) == old(self).computes(a),
            final(self).bad_map() == old(self).bad_map() + iso.bad(),
            iso.len() == 0 ==> {
                &&& final(self).at_end()
                &&& final(self).imaged() == old(self).imaged()
                &&& final(self).position() == old(self).position()
                &&& final(self).hit_model() == old(self).hit_model()
            },
            iso.len() > 0 ==> {
                &&& !final(self).at_end()
                &&& final(self).imaged() == old(self).imaged() + iso.recovered()
                &&& final(self).position() == old(self).position() + iso.len()
                &&& final(self).hit_model() == old(self).hit_model() + block_hits(
                    iso.recovered(),
                    old(self).position(),
                    old(self).keywords(),
                )
            },
    {
        let (block, entries) = iso.into_parts();
        let mut entries = entries;
        if block.len() == 0 {
            self.at_end = true;
        } else {
            self.take_block(block.as_slice());
        }
        self.bad_map.append(&mut entries);
    }

    /// Ends the session: the outcome (bytes read, bad-sector count, the
    /// digests of the prefix re-read and the bytes handed on, the keyword
    /// hits) and the bad-sector map.
    pub fn finish(self) -> (r: (AcquisitionResult, BadSectorMap))
        requires
            self.wf(),
        ensures
            r.0.bytes_read == self.position(),
            r.0.bytes_read == self.start() + self.imaged().len(),
            r.0.bad_sectors == self.bad_map().len(),
            forall|a: HashAlgorithm|
                #[trigger] r.0.hashes.lookup(a) == if self.computes(a) {
                    Some(hex_digest_of(a, self.hashed()))
                } else {
                    None
                },
            hits_agree(r.0.keyword_hits@, self.hit_model()),
            r.0.yara_hits@.len() == 0,
            r.0.plugin_results.wf(),
            r.0.plugin_results@ == Map::<Seq<char>, Seq<char>>::empty(),
            r.1.sectors@ == self.bad_map(),
    {
        proof {
            assert(self.bad_map@.len() <= self.imaged@.len());
        }
        let bad_sectors = self.bad_map.len() as u64;
        let hashes = self.hasher.finalize();
        let result = AcquisitionResult {
            bytes_read: self.bytes_read,
            bad_sectors,
            hashes,
            keyword_hits: self.hits,
            yara_hits: Vec::new(),
            plugin_results: StringMap::new(),
        };
        (result, BadSectorMap { sectors: self.bad_map })
    }
}


// ---------------------------------------------------------------------
// Progress reports and the bad-sector log
// ---------------------------------------------------------------------

/// Milliseconds between two progress reports of the imaging loop.
pub const PROGRESS_INTERVAL_MS: u64 = 250;

/// Bytes imaged between two progress reports when reads are fast.
pub const PROGRESS_INTERVAL_BYTES: u64 = 5_000_000;

/// Whether the imaging loop reports progress (and saves a checkpoint):
/// when 250 ms have passed since the last report, or 5 000 000 bytes were
/// imaged since then.
pub fn progress_due(ms_since_last: u64, bytes_read: u64, last_reported: u64) -> (due: bool)
    ensures
        due <==> ms_since_last >= 250 || (bytes_read >= last_reported && bytes_read - last_reported >= 5_000_000),
{
    ms_since_last >= PROGRESS_INTERVAL_MS || bytes_read.saturating_sub(last_reported) >= PROGRESS_INTERVAL_BYTES
}

/// One line of the bad-sector log.
pub open spec fn bad_sector_line(e: BadSectorEntry) -> Seq<char> {
    decimal(e.lba as nat) + "\t\t"@ + decimal(e.retries as nat) + "\t\t"@ + e.error_msg@ + "\n"@
}

/// The lines of the bad-sector log for `entries`, in order.
pub open spec fn bad_sector_lines(entries: Seq<BadSectorEntry>) -> Seq<char>
    decreases entries.len(),
{
    if entries.len() == 0 {
        Seq::empty()
    } else {
        bad_sector_lines(entries.drop_last()) + bad_sector_line(entries.last())
    }
}

/// The bad-sector log written beside the image: a title, a column header,
/// one line per entry and the total.
pub open spec fn bad_sector_log_text(entries: Seq<BadSectorEntry>) -> Seq<char> {
    "=== OPENFORENSIC BAD SECTOR MAP ===\n"@ + "LBA\t\tRETRIES\t\tERROR\n"@ + bad_sector_lines(entries)
        + "Total Bad Sectors: "@ + decimal(entries.len()) + "\n"@
}

/// Text of the bad-sector log of `map`.
pub fn bad_sector_log(map: &BadSectorMap) -> (s: String)
    ensures
        s@ == bad_sector_log_text(map.sectors@),
{
    let mut s = String::new();
    push_str(&mut s, "=== OPENFORENSIC BAD SECTOR MAP ===\n");
    push_str(&mut s, "LBA\t\tRETRIES\t\tERROR\n");
    let ghost head = s@;
    let mut i: usize = 0;
    while i < map.sectors.len()
        invariant
            i <= map.sectors@.len(),
            s@ == head + bad_sector_lines(map.sectors@.take(i as int)),
        decreases map.sectors@.len() - i,
    {
        let e = &map.sectors[i];
        let ghost before = s@;
        push_decimal(&mut s, e.lba);
        push_str(&mut s, "\t\t");
        push_decimal(&mut s, e.retries as u64);
        push_str(&mut s, "\t\t");
        push_str(&mut s, e.error_msg.as_str());
        push_str(&mut s, "\n");
        proof {
            let t = map.sectors@.take(i + 1);
            assert(t.drop_last() =~= map.sectors@.take(i as int));
            assert(t.last() == map.sectors@[i as int]);
            assert(s@ =~= before + bad_sector_line(map.sectors@[i as int]));
        }
        i += 1;
    }
    proof {
        assert(map.sectors@.take(map.sectors@.len() as int) =~= map.sectors@);
    }
    push_str(&mut s, "Total Bad Sectors: ");
    push_decimal(&mut s, map.sectors.len() as u64);
    push_str(&mut s, "\n");
    proof {
        assert(s@ =~= bad_sector_log_text(map.sectors@));
    }
    s
}

// ---------------------------------------------------------------------
// Pre-acquisition hashing
// ---------------------------------------------------------------------

/// Block size of the pre-acquisition hashing pass (1 MiB).
pub const PRE_HASH_BLOCK: usize = 1048576;

/// The pre-acquisition hashing pass over the source: blocks are hashed as
/// read, and a block whose read fails is hashed as zeros.
pub struct PreHashSession {
    size: u64,
    hashed: u64,
    at_end: bool,
    hasher: MultiHasher,
}

impl PreHashSession {
    /// Size of the source.
    pub closed spec fn size(&self) -> nat {
        self.size as nat
    }

    /// Bytes hashed so far (the offset of the next block).
    pub closed spec fn hashed(&self) -> nat {
        self.hashed as nat
    }

    /// Whether a read returned no data.
    pub closed spec fn at_end(&self) -> bool {
        self.at_end
    }

    /// The bytes hashed so far.
    pub closed spec fn data(&self) -> Seq<u8> {
        self.hasher.data()
    }

    /// Whether the pass computes a digest under `a`.
    pub closed spec fn computes(&self, a: HashAlgorithm) -> bool {
        self.hasher.computes(a)
    }

    /// Internal consistency.
    pub closed spec fn wf(&self) -> bool {
        &&& self.hasher.wf()
        &&& self.hasher.data().len() == self.hashed
        &&& self.hashed <= self.size
    }

    /// Whether the pass is over.
    pub open spec fn finished(&self) -> bool {
        self.at_end() || self.hashed() >= self.size()
    }

    /// Length of the next block.
    pub open spec fn next_len(&self) -> nat {
        block_len_at(self.size(), PRE_HASH_BLOCK as nat, self.hashed())
    }

    /// A pass over a source of `size` bytes with the given algorithms.
    pub fn new(size: u64, algorithms: &[HashAlgorithm]) -> (s: Self)
        ensures
            s.wf(),
            s.size() == size,
            s.hashed() == 0,
            !s.at_end(),
            s.data() == Seq::<u8>::empty(),
            forall|a: HashAlgorithm| s.computes(a) <==> algorithms@.contains(a),
    {
        PreHashSession { size, hashed: 0, at_end: false, hasher: MultiHasher::new(algorithms) }
    }

    /// Length of the next block to read, or `None` when the pass is over.
    pub fn next_block_len(&self) -> (r: Option<usize>)
        requires
            self.wf(),
        ensures
            r matches Some(n) ==> !self.finished() && n == self.next_len(),
            r is None ==> self.finished(),
    {
        if self.at_end || self.hashed >= self.size {
            return None;
        }
        let remaining = self.size - self.hashed;
        if PRE_HASH_BLOCK as u64 > remaining {
            Some(remaining as usize)
        } else {
            Some(PRE_HASH_BLOCK)
        }
    }

    /// Records a successful read of the next block: an empty read ends the
    /// pass, any other is hashed.
    pub fn accept_read(&mut self, data: &[u8])
        requires
            old(self).wf(),
            !old(self).finished(),
            data@.len() <= old(self).next_len(),
        ensures
            final(self).wf(),
            final(self).size() == old(self).size(),
            forall|a: HashAlgorithm| final(self).computes(a) == old(self).computes(a),
            data@.len() == 0 ==> final(self).at_end() && final(self).data() == old(self).data(),
            data@.len() > 0 ==> !final(self).at_end() && final(self).data() == old(self).data() + data@,
    {
        if data.len() == 0 {
            self.at_end = true;
        } else {
            self.hasher.update(data);
            self.hashed = self.hashed + data.len() as u64;
        }
    }

    /// Records a failed read of the next block: the block is hashed as
    /// zeros (the device is then to skip past it).
    pub fn accept_unreadable(&mut self)
        requires
            old(self).wf(),
            !old(self).finished(),
        ensures
            final(self).wf(),
            final(self).size() == old(self).size(),
            !final(self).at_end(),
            forall|a: HashAlgorithm| final(self).computes(a) == old(self).computes(a),
            final(self).data() == old(self).data() + zeros(old(self).next_len()),
    {
        let remaining = self.size - self.hashed;
        let n: usize = if PRE_HASH_BLOCK as u64 > remaining { remaining as usize } else { PRE_HASH_BLOCK };
        let z: Vec<u8> = vec![0u8; n];
        proof {
            assert(z@ =~= zeros(n as nat));
        }
        self.hasher.update(z.as_slice());
        self.hashed = self.hashed + n as u64;
    }

    /// The lower-case hexadecimal digests of the bytes hashed.
    pub fn finish(self) -> (d: HashDigests)
        requires
            self.wf(),
        ensures
            forall|a: HashAlgorithm|
                #[trigger] d.lookup(a) == if self.computes(a) {
                    Some(hex_digest_of(a, self.data()))
                } else {
                    None
                },
    {
        self.hasher.finalize()
    }
}


// ---------------------------------------------------------------------
// Logical acquisition
// ---------------------------------------------------------------------

/// A folder copy in progress: the bytes copied so far (all files, in
/// order), the number of files copied, and the running digests of all
/// bytes copied.
pub struct LogicalAcquisition {
    bytes_read: u64,
    files_copied: u64,
    global: MultiHasher,
}

impl LogicalAcquisition {
    /// All bytes copied so far, in order.
    pub closed spec fn copied(&self) -> Seq<u8> {
        self.global.data()
    }

    /// Files copied so far.
    pub closed spec fn files(&self) -> nat {
        self.files_copied as nat
    }

    /// Whether the digests of all bytes include `a`.
    pub closed spec fn computes(&self, a: HashAlgorithm) -> bool {
        self.global.computes(a)
    }

    /// Internal consistency.
    pub closed spec fn wf(&self) -> bool {
        self.global.wf() && self.global.data().len() == self.bytes_read
    }

    /// A copy that has copied nothing.
    pub fn new(algorithms: &[HashAlgorithm]) -> (l: Self)
        ensures
            l.wf(),
            l.copied() == Seq::<u8>::empty(),
            l.files() == 0,
            forall|a: HashAlgorithm| l.computes(a) <==> algorithms@.contains(a),
    {
        LogicalAcquisition { bytes_read: 0, files_copied: 0, global: MultiHasher::new(algorithms) }
    }

    /// Bytes copied so far.
    pub fn bytes_read(&self) -> (n: u64)
        requires
            self.wf(),
        ensures
            n == self.copied().len(),
    {
        self.bytes_read
    }

    /// Records a chunk copied.
    pub fn copied_chunk(&mut self, data: &[u8])
        requires
            old(self).wf(),
            old(self).copied().len() + data@.len() <= u64::MAX,
        ensures
            final(self).wf(),
            final(self).copied() == old(self).copied() + data@,
            final(self).files() == old(self).files(),
            forall|a: HashAlgorithm| final(self).computes(a) == old(self).computes(a),
    {
        self.global.update(data);
        self.bytes_read = self.bytes_read + data.len() as u64;
    }

    /// Records a file copied.
    pub fn file_done(&mut self)
        requires
            old(self).wf(),
            old(self).files() < u64::MAX,
        ensures
            final(self).wf(),
            final(self).copied() == old(self).copied(),
            final(self).files() == old(self).files() + 1,
            forall|a: HashAlgorithm| final(self).computes(a) == old(self).computes(a),
    {
        self.files_copied = self.files_copied + 1;
    }

    /// The number of files copied, and the outcome: the bytes copied and
    /// the digests of all of them (no bad sectors, hits or plugin results).
    pub fn finish(self) -> (r: (u64, AcquisitionResult))
        requires
            self.wf(),
        ensures
            r.0 == self.files(),
            r.1.bytes_read == self.copied().len(),
            r.1.bad_sectors == 0,
            forall|a: HashAlgorithm|
                #[trigger] r.1.hashes.lookup(a) == if self.computes(a) {
                    Some(hex_digest_of(a, self.copied()))
                } else {
                    None
                },
            r.1.keyword_hits@.len() == 0,
            r.1.yara_hits@.len() == 0,
            r.1.plugin_results.wf(),
            r.1.plugin_results@ == Map::<Seq<char>, Seq<char>>::empty(),
    {
        let files = self.files_copied;
        let result = AcquisitionResult {
            bytes_read: self.bytes_read,
            bad_sectors: 0,
            hashes: self.global.finalize(),
            keyword_hits: Vec::new(),
            yara_hits: Vec::new(),
            plugin_results: StringMap::new(),
        };
        (files, result)
    }
}

// ---------------------------------------------------------------------
// Laws relating the hashing passes
// ---------------------------------------------------------------------

/// A resumed acquisition hashes what an uninterrupted one hashes: when a
/// session resumed at `s.start()` has re-read, as its prefix, the first
/// `s.start()` bytes that an uninterrupted session `t` imaged, and has
/// imaged the rest of them, both cover the same bytes, and so report the
/// same digest under every algorithm.
pub proof fn lemma_resumed_session_hashes_like_uninterrupted(s: AcquisitionSession, t: AcquisitionSession)
    requires
        s.wf(),
        t.wf(),
        t.start() == 0,
        s.start() <= t.imaged().len(),
        s.prefix() == t.imaged().subrange(0, s.start() as int),
        s.imaged() == t.imaged().subrange(s.start() as int, t.imaged().len() as int),
    ensures
        s.prefix_complete(),
        s.hashed() == t.hashed(),
        t.hashed() == t.imaged(),
        forall|a: HashAlgorithm| #[trigger] hex_digest_of(a, s.hashed()) == hex_digest_of(a, t.hashed()),
{
    assert(t.prefix@.len() == 0);
    assert(t.hashed() =~= t.imaged());
    assert(s.hashed() =~= t.imaged());
}

/// Pre- and post-acquisition hashes agree: a pre-hash pass `p` and an
/// acquisition `s` computing the same algorithms over the same bytes
/// report the same digests (`pre` and `post` being what their `finish`
/// returns).
pub proof fn lemma_pre_hash_matches_acquisition(
    p: PreHashSession,
    s: AcquisitionSession,
    pre: HashDigests,
    post: HashDigests,
)
    requires
        p.wf(),
        s.wf(),
        p.data() == s.hashed(),
        forall|a: HashAlgorithm| p.computes(a) == s.computes(a),
        forall|a: HashAlgorithm|
            #[trigger] pre.lookup(a) == if p.computes(a) {
                Some(hex_digest_of(a, p.data()))
            } else {
                None
            },
        forall|a: HashAlgorithm|
            #[trigger] post.lookup(a) == if s.computes(a) {
                Some(hex_digest_of(a, s.hashed()))
            } else {
                None
            },
    ensures
        same_digests(pre, post),
{
    assert forall|a: HashAlgorithm| #[trigger] pre.lookup(a) == post.lookup(a) by {
        assert(p.computes(a) == s.computes(a));
    }
}

/// The hash of a folder equals the hashes of its copy: a hasher `h` fed
/// the same bytes, with the same algorithms, as a folder copy `l` gives
/// the digests the copy reports (`direct` and `copied` being what
/// `h.finalize` and `l.finish` return).
pub proof fn lemma_logical_hash_matches_copy(
    h: MultiHasher,
    l: LogicalAcquisition,
    direct: HashDigests,
    copied: HashDigests,
)
    requires
        h.wf(),
        l.wf(),
        h.data() == l.copied(),
        forall|a: HashAlgorithm| h.computes(a) == l.computes(a),
        forall|a: HashAlgorithm|
            #[trigger] direct.lookup(a) == if h.computes(a) {
                Some(hex_digest_of(a, h.data()))
            } else {
                None
            },
        forall|a: HashAlgorithm|
            #[trigger] copied.lookup(a) == if l.computes(a) {
                Some(hex_digest_of(a, l.copied()))
            } else {
                None
            },
    ensures
        same_digests(direct, copied),
{
    assert forall|a: HashAlgorithm| #[trigger] direct.lookup(a) == copied.lookup(a) by {
        assert(h.computes(a) == l.computes(a));
    }
}

/// Whether two maps of digests hold the same digests.
pub open spec fn same_digests(a: HashDigests, b: HashDigests) -> bool {
    forall|x: HashAlgorithm| #[trigger] a.lookup(x) == b.lookup(x)
}

/// Whether two maps of digests hold the same digests.
pub fn digests_equal(a: &HashDigests, b: &HashDigests) -> (r: bool)
    ensures
        r == same_digests(*a, *b),
{
    let r = opt_str_eq(&a.md5, &b.md5) && opt_str_eq(&a.sha1, &b.sha1) && opt_str_eq(&a.sha256, &b.sha256)
        && opt_str_eq(&a.sha512, &b.sha512);
    proof {
        if !r {
            if crate::hasher::opt_view(a.md5) != crate::hasher::opt_view(b.md5) {
                assert(a.lookup(HashAlgorithm::MD5) != b.lookup(HashAlgorithm::MD5));
            } else if crate::hasher::opt_view(a.sha1) != crate::hasher::opt_view(b.sha1) {
                assert(a.lookup(HashAlgorithm::SHA1) != b.lookup(HashAlgorithm::SHA1));
            } else if crate::hasher::opt_view(a.sha256) != crate::hasher::opt_view(b.sha256) {
                assert(a.lookup(HashAlgorithm::SHA256) != b.lookup(HashAlgorithm::SHA256));
            } else {
                assert(a.lookup(HashAlgorithm::SHA512) != b.lookup(HashAlgorithm::SHA512));
            }
        }
    }
    r
}

/// Whether two optional strings are equal by their characters.
fn opt_str_eq(a: &Option<String>, b: &Option<String>) -> (r: bool)
    ensures
        r == (crate::hasher::opt_view(*a) == crate::hasher::opt_view(*b)),
{
    match (a, b) {
        (Some(x), Some(y)) => crate::text::str_eq(x.as_str(), y.as_str()),
        (None, None) => true,
        _ => false,
    }
}

/// What re-hashing a copied file gave.
#[derive(Debug)]
pub enum VerifyOutcome {
    /// The digests of the copy.
    Hashes(HashDigests),
    /// Reading the copy failed with this error.
    Error(String),
}

/// The verification status of a copied file: "Passed" when the copy's
/// digests equal the source's, "FAILED (Hash Mismatch)" when they differ,
/// "Error (<error>)" when the copy could not be read.
pub open spec fn verification_status_text(expected: HashDigests, outcome: VerifyOutcome) -> Seq<char> {
    match outcome {
        VerifyOutcome::Hashes(h) => if same_digests(h, expected) {
            "Passed"@
        } else {
            "FAILED (Hash Mismatch)"@
        },
        VerifyOutcome::Error(e) => "Error ("@ + e@ + ")"@,
    }
}

/// Law of copy verification: a copy whose re-hashed digests are the ones
/// it was copied with (the same digest, or none, under every algorithm)
/// is "Passed"; one whose digests differ under some algorithm is
/// "FAILED (Hash Mismatch)"; a copy that could not be re-read is neither.
pub proof fn lemma_verification_status_reflects_digests(expected: HashDigests, rehashed: HashDigests)
    ensures
        (forall|a: HashAlgorithm| rehashed.lookup(a) == expected.lookup(a)) ==> verification_status_text(
            expected,
            VerifyOutcome::Hashes(rehashed),
        ) == "Passed"@,
        (exists|a: HashAlgorithm| rehashed.lookup(a) != expected.lookup(a)) ==> verification_status_text(
            expected,
            VerifyOutcome::Hashes(rehashed),
        ) == "FAILED (Hash Mismatch)"@,
        forall|e: String|
            #![trigger verification_status_text(expected, VerifyOutcome::Error(e))]
            verification_status_text(expected, VerifyOutcome::Error(e)) != "Passed"@
                && verification_status_text(expected, VerifyOutcome::Error(e)) != "FAILED (Hash Mismatch)"@,
{
    reveal_strlit("Passed");
    reveal_strlit("Error (");
    assert forall|e: String|
        #![trigger verification_status_text(expected, VerifyOutcome::Error(e))]
        verification_status_text(expected, VerifyOutcome::Error(e)) != "Passed"@
            && verification_status_text(expected, VerifyOutcome::Error(e)) != "FAILED (Hash Mismatch)"@ by {
        reveal_strlit("FAILED (Hash Mismatch)");
        reveal_strlit("Passed");
        reveal_strlit("Error (");
        let t = verification_status_text(expected, VerifyOutcome::Error(e));
        assert(t == "Error ("@ + e@ + ")"@);
        assert(t[0] == 'E');
        assert("Passed"@[0] == 'P');
        assert("FAILED (Hash Mismatch)"@[0] == 'F');
        assert(t != "Passed"@);
        assert(t != "FAILED (Hash Mismatch)"@);
    }
    reveal_strlit("FAILED (Hash Mismatch)");
    if exists|a: HashAlgorithm| rehashed.lookup(a) != expected.lookup(a) {
        let a = choose|a: HashAlgorithm| rehashed.lookup(a) != expected.lookup(a);
        assert(!same_digests(rehashed, expected));
    }
}

/// The verification status of a copied file.
pub fn verification_status(expected: &HashDigests, outcome: &VerifyOutcome) -> (s: String)
    ensures
        s@ == verification_status_text(*expected, *outcome),
{
    let mut s = String::new();
    match outcome {
        VerifyOutcome::Hashes(h) => {
            if digests_equal(h, expected) {
                push_str(&mut s, "Passed");
            } else {
                push_str(&mut s, "FAILED (Hash Mismatch)");
            }
        },
        VerifyOutcome::Error(e) => {
            push_str(&mut s, "Error (");
            push_str(&mut s, e.as_str());
            push_str(&mut s, ")");
        },
    }
    s
}

/// The head of the logical acquisition manifest.
pub open spec fn logical_manifest_head_text(
    source_dir: Seq<char>,
    case_number: Seq<char>,
    examiner: Seq<char>,
    now: Timestamp,
) -> Seq<char> {
    ln("=== OPENFORENSIC LOGICAL ACQUISITION MANIFEST ==="@) + ln("Source Directory: "@ + source_dir) + ln(
        "Case Number:      "@ + case_number,
    ) + ln("Examiner:         "@ + examiner) + ln("Date:             "@ + utc_rfc2822_text(now.secs, now.nanos))
        + ln("--------------------------------------------------"@)
}

/// The head of the logical acquisition manifest written at `now`.
pub fn logical_manifest_head(source_dir: &str, case_number: &str, examiner: &str, now: Timestamp) -> (s: String)
    requires
        now.printable(),
    ensures
        s@ == logical_manifest_head_text(source_dir@, case_number@, examiner@, now),
{
    let mut s = String::new();
    push_line(&mut s, "=== OPENFORENSIC LOGICAL ACQUISITION MANIFEST ===");
    push_str(&mut s, "Source Directory: ");
    push_line(&mut s, source_dir);
    push_str(&mut s, "Case Number:      ");
    push_line(&mut s, case_number);
    push_str(&mut s, "Examiner:         ");
    push_line(&mut s, examiner);
    let date = to_utc_rfc2822(now);
    push_str(&mut s, "Date:             ");
    push_line(&mut s, date.as_str());
    push_line(&mut s, "--------------------------------------------------");
    proof {
        assert(s@ =~= logical_manifest_head_text(source_dir@, case_number@, examiner@, now));
    }
    s
}

/// The manifest entry of one copied file: its path, its digests and,
/// when copies are verified, the verification status; then a blank line.
pub open spec fn logical_entry_text(relative_path: Seq<char>, hashes: HashDigests, status: Option<Seq<char>>) -> Seq<char> {
    ln("File: "@ + relative_path) + hash_lines(hashes) + (match status {
        Some(st) => ln("  Verification: "@ + st),
        None => Seq::empty(),
    }) + ln(""@)
}

/// The manifest entry of one copied file.
pub fn logical_manifest_entry(relative_path: &str, hashes: &HashDigests, status: &Option<String>) -> (s: String)
    ensures
        s@ == logical_entry_text(relative_path@, *hashes, crate::hasher::opt_view(*status)),
{
    let mut s = String::new();
    push_str(&mut s, "File: ");
    push_line(&mut s, relative_path);
    push_hash_lines(&mut s, hashes);
    let ghost a = s@;
    match status {
        Some(st) => {
            push_str(&mut s, "  Verification: ");
            push_line(&mut s, st.as_str());
        },
        None => {},
    }
    let ghost b = s@;
    push_line(&mut s, "");
    proof {
        assert(s@ =~= logical_entry_text(relative_path@, *hashes, crate::hasher::opt_view(*status)));
    }
    s
}

/// The foot of the logical acquisition manifest.
pub open spec fn logical_manifest_footer_text(files: nat, bytes: nat) -> Seq<char> {
    ln("--------------------------------------------------"@) + ln("Total Files Copied: "@ + decimal(files)) + ln(
        "Total Size:         "@ + decimal(bytes) + " bytes"@,
    ) + ln("=== END OF MANIFEST ==="@)
}

/// The foot of the logical acquisition manifest.
pub fn logical_manifest_footer(files: u64, bytes: u64) -> (s: String)
    ensures
        s@ == logical_manifest_footer_text(files as nat, bytes as nat),
{
    let mut s = String::new();
    push_line(&mut s, "--------------------------------------------------");
    push_str(&mut s, "Total Files Copied: ");
    push_decimal(&mut s, files);
    push_str(&mut s, "\n");
    push_str(&mut s, "Total Size:         ");
    push_decimal(&mut s, bytes);
    push_str(&mut s, " bytes");
    push_str(&mut s, "\n");
    push_line(&mut s, "=== END OF MANIFEST ===");
    proof {
        assert(s@ =~= logical_manifest_footer_text(files as nat, bytes as nat));
    }
    s
}

} // verus!
