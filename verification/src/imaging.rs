//! The desktop imager's acquisition loop, as a state machine: the caller
//! reads each block the session asks for and reports what came back; the
//! session decides whether a failed block is read again or skipped as
//! zeros, and keeps the digests of the bytes actually read.

use vstd::prelude::*;
use crate::hasher::{HashAlgorithm, HashDigests, MultiHasher, hex_digest_of};
use crate::acquisition::{BadSectorAction, block_len_at, zeros, PRE_HASH_BLOCK};

verus! {

/// Outcome of an imaging run.
#[derive(Debug)]
pub struct AcquisitionResult {
    pub bytes_read: u64,
    pub bad_sectors: u64,
    pub hashes: HashDigests,
}

/// What to do after a failed read of the current block.
#[derive(Clone, Copy, Debug, PartialEq, Eq, Structural)]
pub enum FailedRead {
    /// Read the same block again.
    ReadAgain,
    /// Give the block up: skip this many bytes on the source and write as
    /// many zeros to the image.
    ZeroFill(usize),
}

/// An imaging run in progress. A run resumed at an offset first re-reads
/// the source before that offset (the prefix) for its digests, so that
/// they cover the source from its first byte.
pub struct ImagingSession {
    total_size: u64,
    block_size: usize,
    action: BadSectorAction,
    start_offset: u64,
    prefix_read: u64,
    prefix: Ghost<Seq<u8>>,
    bytes_read: u64,
    bad_sectors: u64,
    failures: u32,
    at_end: bool,
    hasher: MultiHasher,
    written: Ghost<Seq<u8>>,
}

impl ImagingSession {
    /// Size of the source.
    pub closed spec fn total(&self) -> nat {
        self.total_size as nat
    }

    /// Block size.
    pub closed spec fn block_size(&self) -> nat {
        self.block_size as nat
    }

    /// What is done with a block that cannot be read.
    pub closed spec fn action(&self) -> BadSectorAction {
        self.action
    }

    /// Offset at which the run started.
    pub closed spec fn start(&self) -> nat {
        self.start_offset as nat
    }

    /// Offset of the next block on the source.
    pub closed spec fn position(&self) -> nat {
        self.bytes_read as nat
    }

    /// Blocks whose first read failed.
    pub closed spec fn bad(&self) -> nat {
        self.bad_sectors as nat
    }

    /// Failed reads of the current block so far.
    pub closed spec fn failures(&self) -> nat {
        self.failures as nat
    }

    /// Whether a read returned no data.
    pub closed spec fn at_end(&self) -> bool {
        self.at_end
    }

    /// The bytes written to the image: what was read, and zeros for the
    /// blocks given up.
    pub closed spec fn written(&self) -> Seq<u8> {
        self.written@
    }

    /// The bytes hashed: the prefix re-read, then what was read.
    pub closed spec fn hashed(&self) -> Seq<u8> {
        self.hasher.data()
    }

    /// The bytes before the start offset re-read so far.
    pub closed spec fn prefix(&self) -> Seq<u8> {
        self.prefix@
    }

    /// Whether the bytes before the start offset have all been re-read.
    pub open spec fn prefix_complete(&self) -> bool {
        self.prefix().len() == self.start()
    }

    /// Length of the next piece of the prefix to re-read.
    pub open spec fn prefix_next_len(&self) -> nat {
        block_len_at(self.start(), PRE_HASH_BLOCK as nat, self.prefix().len())
    }

    /// Whether the run computes a digest under `a`.
    pub closed spec fn computes(&self, a: HashAlgorithm) -> bool {
        self.hasher.computes(a)
    }

    /// Internal consistency.
    pub closed spec fn wf(&self) -> bool {
        &&& self.hasher.wf()
        &&& self.block_size > 0
        &&& self.prefix@.len() == self.prefix_read
        &&& self.prefix_read <= self.start_offset
        &&& (self.prefix_read < self.start_offset ==> self.written@.len() == 0 && self.bad_sectors == 0
            && self.failures == 0 && !self.at_end)
        &&& self.bytes_read == self.start_offset + self.written@.len()
        &&& (self.written@.len() > 0 ==> self.bytes_read <= self.total_size)
        &&& self.failures <= self.action.retries_spec()
        &&& (self.failures > 0 ==> !self.at_end && self.bytes_read < self.total_size && self.bad_sectors >= 1)
        &&& self.bad_sectors <= self.written@.len() + (if self.failures > 0 || self.at_end {
            1int
        } else {
            0int
        })
        &&& (self.bad_sectors == 0 ==> self.hasher.data() == self.prefix@ + self.written@)
    }

    /// Whether the loop is over: the source is exhausted or a read
    /// returned no data.
    pub open spec fn finished(&self) -> bool {
        self.at_end() || self.position() >= self.total()
    }

    /// Length of the next block to read.
    pub open spec fn next_len(&self) -> nat {
        block_len_at(self.total(), self.block_size(), self.position())
    }

    /// A run over a source of `total_size` bytes imaging from
    /// `start_offset` (after re-reading the bytes before it for the
    /// digests), with blocks of `block_size` bytes.
    pub fn new(
        algorithms: &[HashAlgorithm],
        block_size: usize,
        action: BadSectorAction,
        total_size: u64,
        start_offset: u64,
    ) -> (s: Self)
        requires
            block_size > 0,
        ensures
            s.wf(),
            s.total() == total_size,
            s.block_size() == block_size,
            s.action() == action,
            s.start() == start_offset,
            s.position() == start_offset,
            s.bad() == 0,
            s.failures() == 0,
            !s.at_end(),
            s.written() == Seq::<u8>::empty(),
            s.hashed() == Seq::<u8>::empty(),
            s.prefix() == Seq::<u8>::empty(),
            forall|a: HashAlgorithm| s.computes(a) <==> algorithms@.contains(a),
    {
        let s = ImagingSession {
            total_size,
            block_size,
            action,
            start_offset,
            prefix_read: 0,
            prefix: Ghost(Seq::empty()),
            bytes_read: start_offset,
            bad_sectors: 0,
            failures: 0,
            at_end: false,
            hasher: MultiHasher::new(algorithms),
            written: Ghost(Seq::empty()),
        };
        proof {
            assert(s.prefix@ + s.written@ =~= Seq::<u8>::empty());
        }
        s
    }

    /// Length of the next piece of the prefix to re-read, or `None` once
    /// the prefix is complete and imaging can go on.
    pub fn prefix_pending(&self) -> (r: Option<usize>)
        requires
            self.wf(),
        ensures
            r matches Some(n) ==> !self.prefix_complete() && n == self.prefix_next_len() && n > 0,
            r is None ==> self.prefix_complete(),
    {
        if self.prefix_read >= self.start_offset {
            return None;
        }
        let remaining = self.start_offset - self.prefix_read;
        if PRE_HASH_BLOCK as u64 > remaining {
            Some(remaining as usize)
        } else {
            Some(PRE_HASH_BLOCK)
        }
    }

    /// Records the next piece of the prefix as read from the source
    /// (`data`, at least one byte); it is hashed.
    pub fn accept_prefix(&mut self, data: &[u8])
        requires
            old(self).wf(),
            !old(self).prefix_complete(),
            0 < data@.len() <= old(self).prefix_next_len(),
        ensures
            final(self).wf(),
            final(self).prefix() == old(self).prefix() + data@,
            final(self).hashed() == old(self).hashed() + data@,
            final(self).written() == old(self).written(),
            final(self).position() == old(self).position(),
            final(self).total() == old(self).total(),
            final(self).block_size() == old(self).block_size(),
            final(self).action() == old(self).action(),
            final(self).start() == old(self).start(),
            final(self).bad() == old(self).bad(),
            final(self).failures() == old(self).failures(),
            final(self).at_end() == old(self).at_end(),
            forall|a: HashAlgorithm| final(self).computes(a) == old(self).computes(a),
    {
        self.hasher.update(data);
        self.prefix_read = self.prefix_read + data.len() as u64;
        proof {
            self.prefix@ = self.prefix@ + data@;
            assert(self.hasher.data() =~= self.prefix@ + self.written@);
        }
    }

    /// Records that the next piece of the prefix could not be read (or
    /// the source ended before it): it is hashed as zeros.
    pub fn accept_prefix_unreadable(&mut self)
        requires
            old(self).wf(),
            !old(self).prefix_complete(),
        ensures
            final(self).wf(),
            final(self).prefix() == old(self).prefix() + zeros(old(self).prefix_next_len()),
            final(self).hashed() == old(self).hashed() + zeros(old(self).prefix_next_len()),
            final(self).written() == old(self).written(),
            final(self).position() == old(self).position(),
            final(self).total() == old(self).total(),
            final(self).block_size() == old(self).block_size(),
            final(self).action() == old(self).action(),
            final(self).start() == old(self).start(),
            final(self).bad() == old(self).bad(),
            final(self).failures() == old(self).failures(),
            final(self).at_end() == old(self).at_end(),
            forall|a: HashAlgorithm| final(self).computes(a) == old(self).computes(a),
    {
        let remaining = self.start_offset - self.prefix_read;
        let n: usize = if PRE_HASH_BLOCK as u64 > remaining { remaining as usize } else { PRE_HASH_BLOCK };
        let z: Vec<u8> = vec![0u8; n];
        proof {
            assert(z@ =~= zeros(n as nat));
        }
        self.accept_prefix(z.as_slice());
    }

    /// Offset of the next block on the source.
    pub fn bytes_read(&self) -> (n: u64)
        ensures
            n == self.position(),
    {
        self.bytes_read
    }

    /// Blocks whose first read failed.
    pub fn bad_sectors(&self) -> (n: u64)
        ensures
            n == self.bad(),
    {
        self.bad_sectors
    }

    /// Length of the next block to read, or `None` when the loop is over.
    pub fn next_block_len(&self) -> (r: Option<usize>)
        requires
            self.wf(),
        ensures
            r matches Some(n) ==> !self.finished() && n == self.next_len() && n > 0,
            r is None ==> self.finished(),
    {
        if self.at_end || self.bytes_read >= self.total_size {
            return None;
        }
        let remaining = self.total_size - self.bytes_read;
        if self.block_size as u64 > remaining {
            Some(remaining as usize)
        } else {
            Some(self.block_size)
        }
    }

    /// Records a successful read of the current block: an empty read ends
    /// the loop; other data is hashed and written.
    pub fn block_read(&mut self, data: &[u8])
        requires
            old(self).wf(),
            old(self).prefix_complete(),
            !old(self).finished(),
            data@.len() <= old(self).next_len(),
        ensures
            final(self).wf(),
            final(self).total() == old(self).total(),
            final(self).block_size() == old(self).block_size(),
            final(self).action() == old(self).action(),
            final(self).start() == old(self).start(),
            final(self).prefix() == old(self).prefix(),
            final(self).bad() == old(self).bad(),
            final(self).failures() == 0,
            forall|a: HashAlgorithm| final(self).computes(a) == old(self).computes(a),
            data@.len() == 0 ==> {
                &&& final(self).at_end()
                &&& final(self).position() == old(self).position()
                &&& final(self).written() == old(self).written()
                &&& final(self).hashed() == old(self).hashed()
            },
            data@.len() > 0 ==> {
                &&& !final(self).at_end()
                &&& final(self).position() == old(self).position() + data@.len()
                &&& final(self).written() == old(self).written() + data@
                &&& final(self).hashed() == old(self).hashed() + data@
            },
    {
        self.failures = 0;
        if data.len() == 0 {
            self.at_end = true;
        } else {
            self.hasher.update(data);
            self.bytes_read = self.bytes_read + data.len() as u64;
            proof {
                self.written@ = self.written@ + data@;
                assert(self.bad_sectors == 0 ==> self.hasher.data() =~= self.prefix@ + self.written@);
            }
        }
    }

    /// Records a failed read of the current block. The first failure of a
    /// block counts it bad. With `Retry(n)` the block is read again until
    /// it has failed `n` more times; then, and at once with `Skip` or
    /// `ZeroFill`, it is given up as zeros, which are written but not
    /// hashed.
    pub fn block_failed(&mut self) -> (step: FailedRead)
        requires
            old(self).wf(),
            old(self).prefix_complete(),
            !old(self).finished(),
        ensures
            final(self).wf(),
            final(self).total() == old(self).total(),
            final(self).block_size() == old(self).block_size(),
            final(self).action() == old(self).action(),
            final(self).start() == old(self).start(),
            final(self).prefix() == old(self).prefix(),
            !final(self).at_end(),
            final(self).hashed() == old(self).hashed(),
            forall|a: HashAlgorithm| final(self).computes(a) == old(self).computes(a),
            final(self).bad() == old(self).bad() + (if old(self).failures() == 0 {
                1int
            } else {
                0int
            }),
            old(self).failures() < old(self).action().retries_spec() ==> {
                &&& step == FailedRead::ReadAgain
                &&& final(self).failures() == old(self).failures() + 1
                &&& final(self).position() == old(self).position()
                &&& final(self).written() == old(self).written()
            },
            old(self).failures() >= old(self).action().retries_spec() ==> {
                &&& step == FailedRead::ZeroFill(old(self).next_len() as usize)
                &&& final(self).failures() == 0
                &&& final(self).position() == old(self).position() + old(self).next_len()
                &&& final(self).written() == old(self).written() + zeros(old(self).next_len())
            },
    {
        if self.failures == 0 {
            self.bad_sectors = self.bad_sectors + 1;
        }
        let retries = self.action.retries();
        if self.failures < retries {
            self.failures = self.failures + 1;
            FailedRead::ReadAgain
        } else {
            let remaining = self.total_size - self.bytes_read;
            let n: usize = if self.block_size as u64 > remaining {
                remaining as usize
            } else {
                self.block_size
            };
            self.failures = 0;
            self.bytes_read = self.bytes_read + n as u64;
            proof {
                self.written@ = self.written@ + zeros(n as nat);
            }
            FailedRead::ZeroFill(n)
        }
    }

    /// Ends the run: bytes read, blocks counted bad, and the digests of the
    /// bytes read. Without bad blocks those are the digests of the prefix
    /// re-read and the bytes written.
    pub fn finish(self) -> (r: AcquisitionResult)
        requires
            self.wf(),
        ensures
            r.bytes_read == self.position(),
            r.bytes_read == self.start() + self.written().len(),
            r.bad_sectors == self.bad(),
            forall|a: HashAlgorithm|
                #[trigger] r.hashes.lookup(a) == if self.computes(a) {
                    Some(hex_digest_of(a, self.hashed()))
                } else {
                    None
                },
            self.bad() == 0 ==> self.hashed() == self.prefix() + self.written(),
    {
        AcquisitionResult { bytes_read: self.bytes_read, bad_sectors: self.bad_sectors, hashes: self.hasher.finalize() }
    }
}

/// A resumed run hashes what an uninterrupted one hashes: when a run
/// resumed at `s.start()` has re-read, as its prefix, the first
/// `s.start()` bytes that an uninterrupted run `t` wrote, and has written
/// the rest of them, neither meeting a bad block, both hash the same bytes.
pub proof fn lemma_resumed_run_hashes_like_uninterrupted(s: ImagingSession, t: ImagingSession)
    requires
        s.wf(),
        t.wf(),
        t.start() == 0,
        s.bad() == 0,
        t.bad() == 0,
        s.start() <= t.written().len(),
        s.prefix() == t.written().subrange(0, s.start() as int),
        s.written() == t.written().subrange(s.start() as int, t.written().len() as int),
    ensures
        s.hashed() == t.hashed(),
        t.hashed() == t.written(),
{
    assert(t.prefix@.len() == 0);
    assert(t.hashed() =~= t.written());
    assert(s.hashed() =~= t.written());
}

} // verus!
