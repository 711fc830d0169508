//! Accounting and planning for the image writer: how a stream of blocks
//! is laid out over split parts, where zero runs become holes in sparse
//! raw images, and the textual container headers.

use vstd::prelude::*;
use crate::text::{push_str, push_zero_padded, zero_padded, str_eq};

verus! {

/// Compression applied to the image stream.
#[derive(Clone, Copy, Debug, PartialEq, Eq, Structural)]
pub enum CompressionFormat {
    Uncompressed,
    Gzip,
    Zstd,
}

/// One step the image writer performs.
#[allow(inconsistent_fields)]
#[derive(Clone, Copy, Debug, PartialEq, Eq, Structural)]
pub enum WriteOp {
    /// Flush the current part and continue in a new part file with this number.
    NextPart { part: u32 },
    /// Write `len` bytes of the caller's buffer starting at `start`.
    Data { start: usize, len: usize },
    /// Leave `len` zero bytes as a hole (seek forward in the raw file).
    Hole { len: u64 },
    /// Write `len` zero bytes.
    Zeros { len: usize },
}

/// Whether every byte of `s` is zero.
pub open spec fn all_zero(s: Seq<u8>) -> bool {
    forall|i: int| 0 <= i < s.len() ==> #[trigger] s[i] == 0
}

/// Bytes the image receives from `ops`, given the caller's buffer (holes
/// read back as zeros).
pub open spec fn content(ops: Seq<WriteOp>, buf: Seq<u8>) -> Seq<u8>
    decreases ops.len(),
{
    if ops.len() == 0 {
        Seq::empty()
    } else {
        op_content(ops[0], buf) + content(ops.drop_first(), buf)
    }
}

/// Bytes one operation puts into the image.
pub open spec fn op_content(op: WriteOp, buf: Seq<u8>) -> Seq<u8> {
    match op {
        WriteOp::NextPart { .. } => Seq::empty(),
        WriteOp::Data { start, len } => buf.subrange(start as int, start + len),
        WriteOp::Hole { len } => Seq::new(len as nat, |i: int| 0u8),
        WriteOp::Zeros { len } => Seq::new(len as nat, |i: int| 0u8),
    }
}

/// Number of image bytes an operation accounts for.
pub open spec fn op_len(op: WriteOp) -> nat {
    match op {
        WriteOp::NextPart { .. } => 0,
        WriteOp::Data { len, .. } => len as nat,
        WriteOp::Hole { len } => len as nat,
        WriteOp::Zeros { len } => len as nat,
    }
}

/// Layout of `buf[offset..]` over parts of at most `max` bytes, starting
/// with `written` bytes in part `part`: the operations, then the bytes in
/// the last part and its number. Zero runs become holes when `holes`;
/// data becomes zero writes when `zero_fill`.
pub open spec fn split_plan(
    buf: Seq<u8>,
    offset: nat,
    max: nat,
    written: nat,
    part: nat,
    holes: bool,
    zero_fill: bool,
) -> (Seq<WriteOp>, nat, nat)
    decreases (if offset <= buf.len() { buf.len() - offset } else { 0 }) * 2 + (if written >= max {
        1int
    } else {
        0int
    }),
    when max > 0
{
    if offset >= buf.len() {
        (Seq::empty(), written, part)
    } else if written >= max {
        let r = split_plan(buf, offset, max, 0, part + 1, holes, zero_fill);
        (seq![WriteOp::NextPart { part: (part + 1) as u32 }] + r.0, r.1, r.2)
    } else {
        let left = (max - written) as nat;
        let rest = (buf.len() - offset) as nat;
        let chunk: nat = if rest < left { rest } else { left };
        let op = if holes && all_zero(buf.subrange(offset as int, (offset + chunk) as int)) {
            WriteOp::Hole { len: chunk as u64 }
        } else if zero_fill {
            WriteOp::Zeros { len: chunk as usize }
        } else {
            WriteOp::Data { start: offset as usize, len: chunk as usize }
        };
        let r = split_plan(buf, offset + chunk, max, written + chunk, part, holes, zero_fill);
        (seq![op] + r.0, r.1, r.2)
    }
}

/// Layout of a whole buffer written to an unsplit image.
pub open spec fn single_plan(buf: Seq<u8>, holes: bool, zero_fill: bool) -> Seq<WriteOp> {
    if holes && all_zero(buf) {
        seq![WriteOp::Hole { len: buf.len() as u64 }]
    } else if zero_fill {
        seq![WriteOp::Zeros { len: buf.len() as usize }]
    } else {
        seq![WriteOp::Data { start: 0, len: buf.len() as usize }]
    }
}

/// The part numbers a split plan passes through never decrease.
pub proof fn lemma_split_plan_part_grows(
    buf: Seq<u8>,
    offset: nat,
    max: nat,
    written: nat,
    part: nat,
    holes: bool,
    zero_fill: bool,
)
    requires
        max > 0,
    ensures
        split_plan(buf, offset, max, written, part, holes, zero_fill).2 >= part,
    decreases (if offset <= buf.len() { buf.len() - offset } else { 0 }) * 2 + (if written >= max {
        1int
    } else {
        0int
    }),
{
    if offset >= buf.len() {
    } else if written >= max {
        lemma_split_plan_part_grows(buf, offset, max, 0, part + 1, holes, zero_fill);
    } else {
        let left = (max - written) as nat;
        let rest = (buf.len() - offset) as nat;
        let chunk: nat = if rest < left { rest } else { left };
        lemma_split_plan_part_grows(buf, offset + chunk, max, written + chunk, part, holes, zero_fill);
    }
}

/// Part-file extension of a split image: the part number zero-padded to
/// three digits ("001", "002", ...).
pub fn part_extension(part: u32) -> (s: String)
    ensures
        s@ == zero_padded(part as nat, 3),
{
    let mut s = String::new();
    push_zero_padded(&mut s, part as u64, 3);
    s
}

/// Whether every byte of `buf[start..start+len]` is zero.
fn range_all_zero(buf: &[u8], start: usize, len: usize) -> (r: bool)
    requires
        start + len <= buf@.len(),
    ensures
        r == all_zero(buf@.subrange(start as int, start + len)),
{
    let blen = buf.len();
    let mut i: usize = 0;
    while i < len
        invariant
            i <= len,
            blen == buf@.len(),
            start + len <= buf@.len(),
            forall|k: int| 0 <= k < i ==> #[trigger] buf@.subrange(start as int, start + len)[k] == 0,
        decreases len - i,
    {
        proof {
            assert(buf@.subrange(start as int, start + len)[i as int] == buf@[start + i]);
        }
        if buf[start + i] != 0 {
            return false;
        }
        i += 1;
    }
    true
}

/// Position of the image writer in its output: split size, compression,
/// current part and the bytes accounted to it.
pub struct OutputWriter {
    pub split_size: Option<u64>,
    pub compression: CompressionFormat,
    pub current_part: u32,
    pub bytes_written_part: u64,
    pub sparse: bool,
}

impl OutputWriter {
    /// Whether zero runs are left as holes: sparse output that is not compressed.
    pub open spec fn makes_holes(&self) -> bool {
        self.sparse && self.compression == CompressionFormat::Uncompressed
    }

    /// A writer positioned at the start of part 1.
    pub fn new(split_size: Option<u64>, compression: CompressionFormat, sparse: bool) -> (w: Self)
        ensures
            w.split_size == split_size,
            w.compression == compression,
            w.sparse == sparse,
            w.current_part == 1,
            w.bytes_written_part == 0,
    {
        OutputWriter { split_size, compression, current_part: 1, bytes_written_part: 0, sparse }
    }

    /// Bytes accounted to the current part.
    pub fn bytes_written_part(&self) -> (n: u64)
        ensures
            n == self.bytes_written_part,
    {
        self.bytes_written_part
    }

    /// Number of the current part (1-based).
    pub fn current_part(&self) -> (n: u32)
        ensures
            n == self.current_part,
    {
        self.current_part
    }

    /// Lays out `buf` after what was written so far (zero bytes become
    /// zero writes when `zero_fill`), appending the operations to `ops`
    /// and advancing the position.
    fn plan(&mut self, buf: &[u8], zero_fill: bool, ops: &mut Vec<WriteOp>)
        requires
            old(self).split_size matches Some(m) ==> {
                &&& m > 0
                &&& split_plan(buf@, 0, m as nat, old(self).bytes_written_part as nat,
                    old(self).current_part as nat, old(self).makes_holes(), zero_fill).2 <= u32::MAX
            },
            old(self).split_size is None ==> old(self).bytes_written_part + buf@.len() <= u64::MAX,
        ensures
            final(self).split_size == old(self).split_size,
            final(self).compression == old(self).compression,
            final(self).sparse == old(self).sparse,
            ({
                let holes = old(self).makes_holes();
                match old(self).split_size {
                    Some(m) => {
                        let r = split_plan(buf@, 0, m as nat, old(self).bytes_written_part as nat,
                            old(self).current_part as nat, holes, zero_fill);
                        &&& final(ops)@ == old(ops)@ + r.0
                        &&& final(self).bytes_written_part == r.1
                        &&& final(self).current_part == r.2
                    },
                    None => {
                        &&& final(ops)@ == old(ops)@ + single_plan(buf@, holes, zero_fill)
                        &&& final(self).bytes_written_part == old(self).bytes_written_part + buf@.len()
                        &&& final(self).current_part == old(self).current_part
                    },
                }
            }),
    {
        let holes = self.sparse && self.compression == CompressionFormat::Uncompressed;
        let total_len = buf.len();
        match self.split_size {
            Some(max_size) => {
                let ghost m = max_size as nat;
                let ghost full = split_plan(buf@, 0, m, self.bytes_written_part as nat,
                    self.current_part as nat, holes, zero_fill);
                let ghost ops0 = ops@;
                let mut offset: usize = 0;
                let ghost c0 = self.compression;
                let ghost s0 = self.sparse;
                proof {
                    lemma_split_plan_part_grows(buf@, 0, m, self.bytes_written_part as nat,
                        self.current_part as nat, holes, zero_fill);
                }
                while offset < total_len
                    invariant
                        total_len == buf@.len(),
                        offset <= total_len,
                        self.split_size == Some(max_size),
                        self.compression == c0,
                        self.sparse == s0,
                        max_size > 0,
                        m == max_size as nat,
                        full.2 <= u32::MAX,
                        ({
                            let r = split_plan(buf@, offset as nat, m, self.bytes_written_part as nat,
                                self.current_part as nat, holes, zero_fill);
                            &&& ops0 + full.0 == ops@ + r.0
                            &&& r.1 == full.1
                            &&& r.2 == full.2
                        }),
                        self.current_part <= full.2,
                    decreases (total_len - offset) * 2 + (if self.bytes_written_part >= max_size {
                        1int
                    } else {
                        0int
                    }),
                {
                    let ghost before = split_plan(buf@, offset as nat, m, self.bytes_written_part as nat,
                        self.current_part as nat, holes, zero_fill);
                    let left = max_size.saturating_sub(self.bytes_written_part);
                    if left == 0 {
                        proof {
                            let r = split_plan(buf@, offset as nat, m, 0, (self.current_part + 1) as nat,
                                holes, zero_fill);
                            lemma_split_plan_part_grows(buf@, offset as nat, m, 0,
                                (self.current_part + 1) as nat, holes, zero_fill);
                            assert(before.0 == seq![WriteOp::NextPart { part: (self.current_part + 1) as u32 }] + r.0);
                            assert(ops@.push(WriteOp::NextPart { part: (self.current_part + 1) as u32 }) + r.0
                                =~= ops@ + before.0);
                        }
                        self.current_part = self.current_part + 1;
                        ops.push(WriteOp::NextPart { part: self.current_part });
                        self.bytes_written_part = 0;
                        continue;
                    }
                    let rest = (total_len - offset) as u64;
                    let chunk: usize = if rest < left { rest as usize } else { left as usize };
                    let zero = holes && range_all_zero(buf, offset, chunk);
                    let op = if zero {
                        WriteOp::Hole { len: chunk as u64 }
                    } else if zero_fill {
                        WriteOp::Zeros { len: chunk }
                    } else {
                        WriteOp::Data { start: offset, len: chunk }
                    };
                    proof {
                        let r = split_plan(buf@, (offset + chunk) as nat, m,
                            (self.bytes_written_part + chunk) as nat, self.current_part as nat, holes, zero_fill);
                        assert(before.0 == seq![op] + r.0);
                        assert(ops@.push(op) + r.0 =~= ops@ + before.0);
                    }
                    ops.push(op);
                    self.bytes_written_part = self.bytes_written_part + chunk as u64;
                    offset = offset + chunk;
                }
                proof {
                    assert(ops@ + Seq::<WriteOp>::empty() =~= ops@);
                }
            },
            None => {
                let zero = holes && range_all_zero(buf, 0, total_len);
                proof {
                    assert(buf@.subrange(0, total_len as int) =~= buf@);
                }
                if zero {
                    ops.push(WriteOp::Hole { len: total_len as u64 });
                } else if zero_fill {
                    ops.push(WriteOp::Zeros { len: total_len });
                } else {
                    ops.push(WriteOp::Data { start: 0, len: total_len });
                }
                self.bytes_written_part = self.bytes_written_part + total_len as u64;
            },
        }
    }

    /// Whether `n` more bytes can be laid out: with a split size, a
    /// positive one and a last part number that fits its type; without,
    /// a byte count that fits its type.
    pub open spec fn write_fits(&self, n: nat) -> bool {
        match self.split_size {
            Some(m) => m > 0 && split_advance(
                m as nat,
                self.bytes_written_part as nat,
                self.current_part as nat,
                n,
            ).1 <= u32::MAX,
            None => self.bytes_written_part + n <= u64::MAX,
        }
    }

    /// Whether `n` more bytes can be laid out (see `write_fits`): what
    /// `write_all` and `write_zeros` ask of their length.
    pub fn can_write(&self, n: u64) -> (r: bool)
        ensures
            r == self.write_fits(n as nat),
    {
        match self.split_size {
            Some(m) => {
                if m == 0 {
                    return false;
                }
                if n == 0 {
                    return true;
                }
                let w = self.bytes_written_part as u128;
                let mm = m as u128;
                let w0: u128 = if w >= mm { 0 } else { w };
                let p0: u128 = if w >= mm { self.current_part as u128 + 1 } else { self.current_part as u128 };
                let last = p0 + (w0 + n as u128 - 1) / mm;
                last <= u32::MAX as u128
            },
            None => self.bytes_written_part.checked_add(n).is_some(),
        }
    }

    /// Accounts `n` bytes already in the image (written before an
    /// interruption) without writing them: the writer moves to the
    /// position they reach, ready to append after them.
    pub fn skip_written(&mut self, n: u64)
        requires
            old(self).write_fits(n as nat),
        ensures
            final(self).split_size == old(self).split_size,
            final(self).compression == old(self).compression,
            final(self).sparse == old(self).sparse,
            match old(self).split_size {
                Some(m) => (final(self).bytes_written_part as nat, final(self).current_part as nat)
                    == split_advance(m as nat, old(self).bytes_written_part as nat, old(self).current_part as nat, n as nat),
                None => final(self).bytes_written_part == old(self).bytes_written_part + n
                    && final(self).current_part == old(self).current_part,
            },
    {
        match self.split_size {
            Some(m) => {
                if n > 0 {
                    let w = self.bytes_written_part as u128;
                    let mm = m as u128;
                    let w0: u128 = if w >= mm { 0 } else { w };
                    let p0: u128 = if w >= mm { self.current_part as u128 + 1 } else { self.current_part as u128 };
                    let x = w0 + n as u128 - 1;
                    let last = p0 + x / mm;
                    let rem = x % mm + 1;
                    self.bytes_written_part = rem as u64;
                    self.current_part = last as u32;
                }
            },
            None => {
                self.bytes_written_part = self.bytes_written_part + n;
            },
        }
    }

    /// Lays out `buf` after what was written so far: the operations that
    /// write it, part by part, with all-zero chunks of a sparse raw image
    /// left as holes.
    pub fn write_all(&mut self, buf: &[u8]) -> (ops: Vec<WriteOp>)
        requires
            old(self).write_fits(buf@.len()),
        ensures
            final(self).split_size == old(self).split_size,
            final(self).compression == old(self).compression,
            final(self).sparse == old(self).sparse,
            ({
                let holes = old(self).makes_holes();
                match old(self).split_size {
                    Some(m) => {
                        let r = split_plan(buf@, 0, m as nat, old(self).bytes_written_part as nat,
                            old(self).current_part as nat, holes, false);
                        &&& ops@ == r.0
                        &&& final(self).bytes_written_part == r.1
                        &&& final(self).current_part == r.2
                    },
                    None => {
                        &&& ops@ == single_plan(buf@, holes, false)
                        &&& final(self).bytes_written_part == old(self).bytes_written_part + buf@.len()
                        &&& final(self).current_part == old(self).current_part
                    },
                }
            }),
    {
        let len = buf.len();
        proof {
            vstd::slice::axiom_spec_len(buf);
            if let Some(m) = self.split_size {
                lemma_split_plan_ends_at(buf@, m as nat, self.bytes_written_part as nat,
                    self.current_part as nat, self.makes_holes(), false);
            }
        }
        let mut ops: Vec<WriteOp> = Vec::new();
        self.plan(buf, false, &mut ops);
        proof {
            assert(Seq::<WriteOp>::empty() + ops@ =~= ops@);
        }
        ops
    }
}

} // verus!

verus! {

/// Layout of `buf` for a writer with split size `split`, hole-making
/// `holes`, `written` bytes in part `part`: operations, bytes in the last
/// part, its number.
pub open spec fn layout(
    split: Option<u64>,
    holes: bool,
    written: nat,
    part: nat,
    buf: Seq<u8>,
    zero_fill: bool,
) -> (Seq<WriteOp>, nat, nat) {
    match split {
        Some(m) => split_plan(buf, 0, m as nat, written, part, holes, zero_fill),
        None => (single_plan(buf, holes, zero_fill), written + buf.len(), part),
    }
}

/// Size of the zero pieces written for a run of zeros.
pub const ZERO_PIECE: usize = 65536;

/// Layout of `remaining` zero bytes, written in pieces of at most
/// `ZERO_PIECE` bytes.
pub open spec fn zeros_layout(split: Option<u64>, holes: bool, written: nat, part: nat, remaining: nat) -> (
    Seq<WriteOp>,
    nat,
    nat,
)
    decreases remaining,
{
    if remaining == 0 {
        (Seq::empty(), written, part)
    } else {
        let piece: nat = if remaining < ZERO_PIECE { remaining } else { ZERO_PIECE as nat };
        let r1 = layout(split, holes, written, part, Seq::new(piece, |i: int| 0u8), true);
        let r2 = zeros_layout(split, holes, r1.1, r1.2, (remaining - piece) as nat);
        (r1.0 + r2.0, r2.1, r2.2)
    }
}

/// Zero bytes accounted by `zeros_layout` never shrink the part number.
pub proof fn lemma_zeros_layout_part_grows(split: Option<u64>, holes: bool, written: nat, part: nat, remaining: nat)
    requires
        split matches Some(m) ==> m > 0,
    ensures
        zeros_layout(split, holes, written, part, remaining).2 >= part,
        split is None ==> zeros_layout(split, holes, written, part, remaining).1 == written + remaining,
    decreases remaining,
{
    if remaining > 0 {
        let piece: nat = if remaining < ZERO_PIECE { remaining } else { ZERO_PIECE as nat };
        let r1 = layout(split, holes, written, part, Seq::new(piece, |i: int| 0u8), true);
        if let Some(m) = split {
            lemma_split_plan_part_grows(Seq::new(piece, |i: int| 0u8), 0, m as nat, written, part, holes, true);
        }
        lemma_zeros_layout_part_grows(split, holes, r1.1, r1.2, (remaining - piece) as nat);
    }
}

impl OutputWriter {
    /// Lays out `count` zero bytes after what was written so far, in pieces
    /// of at most 64 KiB: holes in a sparse raw image, zero writes otherwise.
    pub fn write_zeros(&mut self, count: usize) -> (ops: Vec<WriteOp>)
        requires
            old(self).write_fits(count as nat),
        ensures
            final(self).split_size == old(self).split_size,
            final(self).compression == old(self).compression,
            final(self).sparse == old(self).sparse,
            ({
                let r = zeros_layout(old(self).split_size, old(self).makes_holes(),
                    old(self).bytes_written_part as nat, old(self).current_part as nat, count as nat);
                &&& ops@ == r.0
                &&& final(self).bytes_written_part == r.1
                &&& final(self).current_part == r.2
            }),
    {
        let ghost split = self.split_size;
        let ghost holes = self.makes_holes();
        let ghost full = zeros_layout(split, holes, self.bytes_written_part as nat,
            self.current_part as nat, count as nat);
        let ghost c0 = self.compression;
        let ghost s0 = self.sparse;
        proof {
            if let Some(m) = split {
                lemma_zeros_layout_ends_at(m, holes, self.bytes_written_part as nat, self.current_part as nat,
                    count as nat);
            }
        }
        let first = if count < ZERO_PIECE { count } else { ZERO_PIECE };
        let zeros: Vec<u8> = vec![0u8; first];
        let mut ops: Vec<WriteOp> = Vec::new();
        let mut remaining = count;
        proof {
            lemma_zeros_layout_part_grows(split, holes, self.bytes_written_part as nat,
                self.current_part as nat, count as nat);
        }
        while remaining > 0
            invariant
                self.split_size == split,
                self.compression == c0,
                self.sparse == s0,
                holes == self.makes_holes(),
                split matches Some(m) ==> m > 0,
                zeros@.len() == first,
                remaining <= count,
                first == (if count < ZERO_PIECE { count } else { ZERO_PIECE }),
                forall|i: int| 0 <= i < zeros@.len() ==> zeros@[i] == 0,
                split is Some ==> full.2 <= u32::MAX,
                split is None ==> self.bytes_written_part + remaining <= u64::MAX,
                ({
                    let r = zeros_layout(split, holes, self.bytes_written_part as nat,
                        self.current_part as nat, remaining as nat);
                    &&& full.0 == ops@ + r.0
                    &&& r.1 == full.1
                    &&& r.2 == full.2
                }),
                self.current_part <= full.2,
            decreases remaining,
        {
            let piece = if remaining < ZERO_PIECE { remaining } else { ZERO_PIECE };
            let ghost bw = self.bytes_written_part as nat;
            let ghost pt = self.current_part as nat;
            proof {
                assert(piece <= zeros@.len());
                assert(zeros@.subrange(0, piece as int) =~= Seq::new(piece as nat, |i: int| 0u8));
                let r1 = layout(split, holes, bw, pt, Seq::new(piece as nat, |i: int| 0u8), true);
                lemma_zeros_layout_part_grows(split, holes, r1.1, r1.2, (remaining - piece) as nat);
            }
            let slice = vstd::slice::slice_subrange(zeros.as_slice(), 0, piece);
            self.plan(slice, true, &mut ops);
            proof {
                let r1 = layout(split, holes, bw, pt, Seq::new(piece as nat, |i: int| 0u8), true);
                let r2 = zeros_layout(split, holes, r1.1, r1.2, (remaining - piece) as nat);
                assert(slice@ == Seq::new(piece as nat, |i: int| 0u8));
                assert(zeros_layout(split, holes, bw, pt, remaining as nat) == (r1.0 + r2.0, r2.1, r2.2));
            }
            remaining = remaining - piece;
        }
        proof {
            assert(ops@ + Seq::<WriteOp>::empty() =~= ops@);
        }
        ops
    }
}


} // verus!

verus! {

/// Content of one operation followed by others.
proof fn lemma_content_cons(op: WriteOp, rest: Seq<WriteOp>, buf: Seq<u8>)
    ensures
        content(seq![op] + rest, buf) == op_content(op, buf) + content(rest, buf),
{
    let s = seq![op] + rest;
    assert(s[0] == op);
    assert(s.drop_first() =~= rest);
}

/// Content of two operation sequences one after the other.
pub proof fn lemma_content_append(a: Seq<WriteOp>, b: Seq<WriteOp>, buf: Seq<u8>)
    ensures
        content(a + b, buf) == content(a, buf) + content(b, buf),
    decreases a.len(),
{
    if a.len() == 0 {
        assert(a + b =~= b);
        assert(content(a, buf) + content(b, buf) =~= content(b, buf));
    } else {
        lemma_content_append(a.drop_first(), b, buf);
        assert((a + b).drop_first() =~= a.drop_first() + b);
        assert((a + b)[0] == a[0]);
    }
}

/// Whether, starting with `written` bytes in the current part, no part
/// ever receives more than `max` bytes from `ops`.
pub open spec fn parts_within(ops: Seq<WriteOp>, written: nat, max: nat) -> bool
    decreases ops.len(),
{
    if ops.len() == 0 {
        true
    } else {
        match ops[0] {
            WriteOp::NextPart { .. } => parts_within(ops.drop_first(), 0, max),
            _ => written + op_len(ops[0]) <= max && parts_within(
                ops.drop_first(),
                written + op_len(ops[0]),
                max,
            ),
        }
    }
}

/// A split layout writes exactly the buffer (holes only where it is
/// zero), and no part of the image grows beyond the split size.
#[verifier::rlimit(60)]
pub proof fn lemma_split_plan_faithful(
    buf: Seq<u8>,
    offset: nat,
    max: nat,
    written: nat,
    part: nat,
    holes: bool,
    zero_fill: bool,
)
    requires
        max > 0,
        offset <= buf.len(),
        buf.len() <= usize::MAX,
        zero_fill ==> all_zero(buf),
    ensures
        content(split_plan(buf, offset, max, written, part, holes, zero_fill).0, buf) == buf.subrange(
            offset as int,
            buf.len() as int,
        ),
        written <= max ==> parts_within(split_plan(buf, offset, max, written, part, holes, zero_fill).0, written, max),
        written <= max ==> split_plan(buf, offset, max, written, part, holes, zero_fill).1 <= max,
    decreases (buf.len() - offset) * 2 + (if written >= max { 1int } else { 0int }),
{
    let r = split_plan(buf, offset, max, written, part, holes, zero_fill);
    if offset >= buf.len() {
        assert(buf.subrange(offset as int, buf.len() as int) =~= Seq::<u8>::empty());
    } else if written >= max {
        let op = WriteOp::NextPart { part: (part + 1) as u32 };
        let r1 = split_plan(buf, offset, max, 0, part + 1, holes, zero_fill);
        lemma_split_plan_faithful(buf, offset, max, 0, part + 1, holes, zero_fill);
        lemma_content_cons(op, r1.0, buf);
        assert(op_content(op, buf) + content(r1.0, buf) =~= content(r1.0, buf));
        assert(r.0 == seq![op] + r1.0);
        assert((seq![op] + r1.0)[0] == op);
        assert((seq![op] + r1.0).drop_first() =~= r1.0);
    } else {
        let left = (max - written) as nat;
        let rest = (buf.len() - offset) as nat;
        let chunk: nat = if rest < left { rest } else { left };
        let piece = buf.subrange(offset as int, (offset + chunk) as int);
        let op = if holes && all_zero(piece) {
            WriteOp::Hole { len: chunk as u64 }
        } else if zero_fill {
            WriteOp::Zeros { len: chunk as usize }
        } else {
            WriteOp::Data { start: offset as usize, len: chunk as usize }
        };
        let r1 = split_plan(buf, offset + chunk, max, written + chunk, part, holes, zero_fill);
        lemma_split_plan_faithful(buf, offset + chunk, max, written + chunk, part, holes, zero_fill);
        lemma_content_cons(op, r1.0, buf);
        if holes && all_zero(piece) {
            assert forall|i: int| 0 <= i < chunk implies op_content(op, buf)[i] == piece[i] by {
                assert(piece[i] == 0);
            }
            assert(op_content(op, buf) =~= piece);
        } else if zero_fill {
            assert forall|i: int| 0 <= i < chunk implies op_content(op, buf)[i] == piece[i] by {
                assert(buf[offset + i] == 0);
            }
            assert(op_content(op, buf) =~= piece);
        } else {
            assert(op_content(op, buf) =~= piece);
        }
        assert(r.0 == seq![op] + r1.0);
        assert(buf.subrange(offset as int, buf.len() as int) =~= piece + buf.subrange(
            (offset + chunk) as int,
            buf.len() as int,
        ));
        assert((seq![op] + r1.0)[0] == op);
        assert((seq![op] + r1.0).drop_first() =~= r1.0);
    }
}

/// Law of the image writer: whatever the split size and sparseness, the
/// bytes a `write_all` layout puts into the image (holes reading as
/// zeros) are exactly the buffer, and with a split size no part receives
/// more than that many bytes.
pub proof fn lemma_write_all_faithful(
    split: Option<u64>,
    holes: bool,
    written: nat,
    part: nat,
    buf: Seq<u8>,
)
    requires
        split matches Some(m) ==> m > 0,
        buf.len() <= usize::MAX,
    ensures
        content(layout(split, holes, written, part, buf, false).0, buf) == buf,
        split matches Some(m) ==> (written <= m ==> parts_within(
            layout(split, holes, written, part, buf, false).0,
            written,
            m as nat,
        )),
{
    match split {
        Some(m) => {
            lemma_split_plan_faithful(buf, 0, m as nat, written, part, holes, false);
            assert(buf.subrange(0, buf.len() as int) =~= buf);
        },
        None => {
            let op = single_plan(buf, holes, false)[0];
            assert(single_plan(buf, holes, false) =~= seq![op]);
            assert(seq![op].drop_first() =~= Seq::<WriteOp>::empty());
            if holes && all_zero(buf) {
                assert forall|i: int| 0 <= i < buf.len() implies Seq::new(buf.len() as nat, |i: int| 0u8)[i]
                    == buf[i] by {
                    assert(buf[i] == 0);
                }
                assert(Seq::new(buf.len() as nat, |i: int| 0u8) =~= buf);
            } else {
                assert(buf.subrange(0, buf.len() as int) =~= buf);
            }
            lemma_content_cons(op, Seq::<WriteOp>::empty(), buf);
            assert(seq![op] + Seq::<WriteOp>::empty() =~= seq![op]);
            assert(op_content(op, buf) + Seq::<u8>::empty() =~= op_content(op, buf));
        },
    }
}

/// Whether every part that `ops` closes (with `NextPart`) was full: it
/// held exactly `max` bytes when the next one began.
pub open spec fn parts_filled(ops: Seq<WriteOp>, written: nat, max: nat) -> bool
    decreases ops.len(),
{
    if ops.len() == 0 {
        true
    } else {
        match ops[0] {
            WriteOp::NextPart { .. } => written == max && parts_filled(ops.drop_first(), 0, max),
            _ => parts_filled(ops.drop_first(), written + op_len(ops[0]), max),
        }
    }
}

/// A split layout moves the writer's position by exactly the bytes laid
/// out (part `p` with `w` bytes standing at offset `p * max + w`), closes
/// only full parts, and leaves a non-empty current part when it laid out
/// any byte.
pub proof fn lemma_split_plan_advances(
    buf: Seq<u8>,
    offset: nat,
    max: nat,
    written: nat,
    part: nat,
    holes: bool,
    zero_fill: bool,
)
    requires
        max > 0,
        offset <= buf.len(),
        buf.len() <= usize::MAX,
        written <= max,
    ensures
        ({
            let r = split_plan(buf, offset, max, written, part, holes, zero_fill);
            &&& r.2 * max + r.1 == part * max + written + (buf.len() - offset)
            &&& parts_filled(r.0, written, max)
            &&& (offset < buf.len() ==> 0 < r.1)
            &&& r.1 <= max
        }),
    decreases (buf.len() - offset) * 2 + (if written >= max { 1int } else { 0int }),
{
    let r = split_plan(buf, offset, max, written, part, holes, zero_fill);
    if offset >= buf.len() {
    } else if written >= max {
        let op = WriteOp::NextPart { part: (part + 1) as u32 };
        let r1 = split_plan(buf, offset, max, 0, part + 1, holes, zero_fill);
        lemma_split_plan_advances(buf, offset, max, 0, part + 1, holes, zero_fill);
        assert((part + 1) * max == part * max + max) by (nonlinear_arith);
        assert(r.0 == seq![op] + r1.0);
        assert((seq![op] + r1.0)[0] == op);
        assert((seq![op] + r1.0).drop_first() =~= r1.0);
    } else {
        let left = (max - written) as nat;
        let rest = (buf.len() - offset) as nat;
        let chunk: nat = if rest < left { rest } else { left };
        let piece = buf.subrange(offset as int, (offset + chunk) as int);
        let op = if holes && all_zero(piece) {
            WriteOp::Hole { len: chunk as u64 }
        } else if zero_fill {
            WriteOp::Zeros { len: chunk as usize }
        } else {
            WriteOp::Data { start: offset as usize, len: chunk as usize }
        };
        let r1 = split_plan(buf, offset + chunk, max, written + chunk, part, holes, zero_fill);
        lemma_split_plan_advances(buf, offset + chunk, max, written + chunk, part, holes, zero_fill);
        assert(r.0 == seq![op] + r1.0);
        assert((seq![op] + r1.0)[0] == op);
        assert((seq![op] + r1.0).drop_first() =~= r1.0);
        assert(op_len(op) == chunk);
    }
}

/// Bytes in all of `bufs`.
pub open spec fn total_len(bufs: Seq<Seq<u8>>) -> nat
    decreases bufs.len(),
{
    if bufs.len() == 0 {
        0
    } else {
        total_len(bufs.drop_last()) + bufs.last().len()
    }
}

/// Position (bytes in the current part, its number) of a writer with
/// split size `max` after writing `bufs` one after the other, starting
/// fresh (part 1, nothing written).
pub open spec fn split_position_after(max: nat, holes: bool, bufs: Seq<Seq<u8>>) -> (nat, nat)
    decreases bufs.len(),
{
    if bufs.len() == 0 {
        (0, 1)
    } else {
        let p = split_position_after(max, holes, bufs.drop_last());
        let r = split_plan(bufs.last(), 0, max, p.0, p.1, holes, false);
        (r.1, r.2)
    }
}

/// The writer's position after `bufs` is the offset of their end: part
/// `p` holding `w` bytes stands at `(p - 1) * max + w`, with `w` at most
/// `max`, and above zero once anything was written.
proof fn lemma_split_position_offset(max: nat, holes: bool, bufs: Seq<Seq<u8>>)
    requires
        max > 0,
        forall|i: int| 0 <= i < bufs.len() ==> (#[trigger] bufs[i]).len() <= usize::MAX,
    ensures
        ({
            let p = split_position_after(max, holes, bufs);
            &&& p.1 >= 1
            &&& (p.1 - 1) * max + p.0 == total_len(bufs)
            &&& p.0 <= max
            &&& (total_len(bufs) > 0 ==> p.0 > 0)
        }),
    decreases bufs.len(),
{
    if bufs.len() > 0 {
        let q = split_position_after(max, holes, bufs.drop_last());
        assert forall|i: int| 0 <= i < bufs.drop_last().len() implies (#[trigger] bufs.drop_last()[i]).len()
            <= usize::MAX by {
            assert(bufs.drop_last()[i] == bufs[i]);
        }
        assert(bufs.last() == bufs[bufs.len() - 1]);
        lemma_split_position_offset(max, holes, bufs.drop_last());
        lemma_split_plan_advances(bufs.last(), 0, max, q.0, q.1, holes, false);
        lemma_split_plan_part_grows(bufs.last(), 0, max, q.0, q.1, holes, false);
        lemma_split_plan_faithful(bufs.last(), 0, max, q.0, q.1, holes, false);
        let p = split_position_after(max, holes, bufs);
        assert((p.1 - 1) * max == p.1 * max - max) by (nonlinear_arith)
            requires
                p.1 >= 1,
        ;
        assert((q.1 - 1) * max == q.1 * max - max) by (nonlinear_arith)
            requires
                q.1 >= 1,
        ;
    }
}

/// Whether the `i`-th of `bufs`, written after the ones before it,
/// closes only full parts.
pub open spec fn write_closes_full_parts(max: nat, holes: bool, bufs: Seq<Seq<u8>>, i: int) -> bool {
    let p = split_position_after(max, holes, bufs.take(i));
    parts_filled(split_plan(bufs[i], 0, max, p.0, p.1, holes, false).0, p.0, max)
}

/// Law of split images over many writes: after a fresh writer with split
/// size `max` has written `bufs` (`n` bytes in all, `n > 0`, each buffer
/// within memory's bounds), the current
/// part holds `(n - 1) % max + 1` bytes and is part `(n - 1) / max + 1`;
/// every part before it holds exactly `max` bytes (each write closes only
/// full parts).
pub proof fn lemma_split_counts_over_writes(max: nat, holes: bool, bufs: Seq<Seq<u8>>)
    requires
        max > 0,
        forall|i: int| 0 <= i < bufs.len() ==> (#[trigger] bufs[i]).len() <= usize::MAX,
        total_len(bufs) > 0,
    ensures
        split_position_after(max, holes, bufs).0 == (total_len(bufs) - 1) % (max as int) + 1,
        split_position_after(max, holes, bufs).1 == (total_len(bufs) - 1) / (max as int) + 1,
        forall|i: int| 0 <= i < bufs.len() ==> #[trigger] write_closes_full_parts(max, holes, bufs, i),
{
    let p = split_position_after(max, holes, bufs);
    lemma_split_position_offset(max, holes, bufs);
    let n1 = total_len(bufs) - 1;
    assert(n1 == (p.1 - 1) * max + (p.0 - 1));
    vstd::arithmetic::div_mod::lemma_fundamental_div_mod_converse_mod(n1, max as int, p.1 - 1, p.0 - 1);
    vstd::arithmetic::div_mod::lemma_fundamental_div_mod_converse_div(n1, max as int, p.1 - 1, p.0 - 1);
    assert forall|i: int| 0 <= i < bufs.len() implies #[trigger] write_closes_full_parts(max, holes, bufs, i) by {
        let q = split_position_after(max, holes, bufs.take(i));
        assert forall|k: int| 0 <= k < bufs.take(i).len() implies (#[trigger] bufs.take(i)[k]).len()
            <= usize::MAX by {
            assert(bufs.take(i)[k] == bufs[k]);
        }
        lemma_split_position_offset(max, holes, bufs.take(i));
        lemma_split_plan_advances(bufs[i], 0, max, q.0, q.1, holes, false);
    }
}

/// Position (bytes in the current part, its number) of a writer with
/// split size `max` standing at `written` bytes of part `part` after `n`
/// more bytes: a full (or overfull) current part is closed first, then the
/// bytes fill parts of `max` bytes, the last one holding at least one.
pub open spec fn split_advance(max: nat, written: nat, part: nat, n: nat) -> (nat, nat) {
    if n == 0 {
        (written, part)
    } else {
        let w0: nat = if written >= max { 0 } else { written };
        let p0: nat = if written >= max { part + 1 } else { part };
        (((w0 + n - 1) % (max as int) + 1) as nat, (p0 + (w0 + n - 1) / (max as int)) as nat)
    }
}

/// After at least one byte the writer stands within a part, `max` bytes
/// per part past the (normalized) start.
proof fn lemma_split_advance_offset(max: nat, written: nat, part: nat, n: nat)
    requires
        max > 0,
        n > 0,
    ensures
        ({
            let r = split_advance(max, written, part, n);
            let w0: int = if written >= max { 0 } else { written as int };
            let p0: int = if written >= max { part + 1int } else { part as int };
            &&& 0 < r.0 <= max
            &&& r.1 >= p0
            &&& r.1 * max + r.0 == p0 * max + w0 + n
        }),
{
    let w0: int = if written >= max { 0 } else { written as int };
    let p0: int = if written >= max { part + 1int } else { part as int };
    let x: int = w0 + n - 1;
    let q = x / (max as int);
    let m = x % (max as int);
    vstd::arithmetic::div_mod::lemma_fundamental_div_mod(x, max as int);
    assert(0 <= m < max);
    assert(q >= 0) by {
        vstd::arithmetic::div_mod::lemma_div_pos_is_pos(x, max as int);
    }
    assert((p0 + q) * max == p0 * max + q * max) by (nonlinear_arith);
    assert(q * max == max * q) by (nonlinear_arith);
}

/// A position is fixed by its offset: two positions within a part that
/// stand `max` bytes per part at the same offset are the same.
proof fn lemma_split_position_unique(max: nat, w1: nat, p1: nat, w2: nat, p2: nat)
    requires
        max > 0,
        0 < w1 <= max,
        0 < w2 <= max,
        p1 * max + w1 == p2 * max + w2,
    ensures
        w1 == w2,
        p1 == p2,
{
    let x: int = p1 * max + w1 - 1;
    vstd::arithmetic::div_mod::lemma_fundamental_div_mod_converse_mod(x, max as int, p1 as int, w1 - 1);
    vstd::arithmetic::div_mod::lemma_fundamental_div_mod_converse_div(x, max as int, p1 as int, w1 - 1);
    vstd::arithmetic::div_mod::lemma_fundamental_div_mod_converse_mod(x, max as int, p2 as int, w2 - 1);
    vstd::arithmetic::div_mod::lemma_fundamental_div_mod_converse_div(x, max as int, p2 as int, w2 - 1);
}

/// Advancing by `a` bytes and then by `b` is advancing by `a + b`.
pub proof fn lemma_split_advance_compose(max: nat, written: nat, part: nat, a: nat, b: nat)
    requires
        max > 0,
    ensures
        ({
            let r1 = split_advance(max, written, part, a);
            split_advance(max, r1.0, r1.1, b) == split_advance(max, written, part, a + b)
        }),
{
    if a > 0 && b > 0 {
        let r1 = split_advance(max, written, part, a);
        let r2 = split_advance(max, r1.0, r1.1, b);
        let r3 = split_advance(max, written, part, a + b);
        lemma_split_advance_offset(max, written, part, a);
        lemma_split_advance_offset(max, r1.0, r1.1, b);
        lemma_split_advance_offset(max, written, part, a + b);
        if r1.0 >= max {
            assert((r1.1 + 1) * max == r1.1 * max + max) by (nonlinear_arith);
        }
        lemma_split_position_unique(max, r2.0, r2.1, r3.0, r3.1);
    }
}

/// A split layout of `buf` ends where advancing by its length says,
/// whatever the bytes are.
pub proof fn lemma_split_plan_ends_at(buf: Seq<u8>, max: nat, written: nat, part: nat, holes: bool, zero_fill: bool)
    requires
        max > 0,
        buf.len() <= usize::MAX,
    ensures
        ({
            let r = split_plan(buf, 0, max, written, part, holes, zero_fill);
            (r.1, r.2) == split_advance(max, written, part, buf.len())
        }),
{
    let r = split_plan(buf, 0, max, written, part, holes, zero_fill);
    if buf.len() > 0 {
        let a = split_advance(max, written, part, buf.len());
        lemma_split_advance_offset(max, written, part, buf.len());
        if written >= max {
            let r1 = split_plan(buf, 0, max, 0, part + 1, holes, zero_fill);
            lemma_split_plan_advances(buf, 0, max, 0, part + 1, holes, zero_fill);
            assert(r.1 == r1.1 && r.2 == r1.2);
            lemma_split_position_unique(max, r.1, r.2, a.0, a.1);
        } else {
            lemma_split_plan_advances(buf, 0, max, written, part, holes, zero_fill);
            lemma_split_position_unique(max, r.1, r.2, a.0, a.1);
        }
    }
}

/// A layout of zeros ends where advancing by their number says.
proof fn lemma_zeros_layout_ends_at(max: u64, holes: bool, written: nat, part: nat, remaining: nat)
    requires
        max > 0,
    ensures
        ({
            let r = zeros_layout(Some(max), holes, written, part, remaining);
            (r.1, r.2) == split_advance(max as nat, written, part, remaining)
        }),
    decreases remaining,
{
    if remaining > 0 {
        let piece: nat = if remaining < ZERO_PIECE { remaining } else { ZERO_PIECE as nat };
        let z = Seq::new(piece, |i: int| 0u8);
        let r1 = layout(Some(max), holes, written, part, z, true);
        lemma_split_plan_ends_at(z, max as nat, written, part, holes, true);
        lemma_zeros_layout_ends_at(max, holes, r1.1, r1.2, (remaining - piece) as nat);
        lemma_split_advance_compose(max as nat, written, part, piece, (remaining - piece) as nat);
    }
}

/// Position of a writer with split size `max` after writing `bufs` one
/// after the other from `start`.
pub open spec fn split_position_from(max: nat, holes: bool, start: (nat, nat), bufs: Seq<Seq<u8>>) -> (nat, nat)
    decreases bufs.len(),
{
    if bufs.len() == 0 {
        start
    } else {
        let p = split_position_from(max, holes, start, bufs.drop_last());
        let r = split_plan(bufs.last(), 0, max, p.0, p.1, holes, false);
        (r.1, r.2)
    }
}

/// Writing `bufs` from `start` ends where advancing by their total says.
proof fn lemma_split_position_from_total(max: nat, holes: bool, start: (nat, nat), bufs: Seq<Seq<u8>>)
    requires
        max > 0,
        forall|i: int| 0 <= i < bufs.len() ==> (#[trigger] bufs[i]).len() <= usize::MAX,
    ensures
        split_position_from(max, holes, start, bufs) == split_advance(max, start.0, start.1, total_len(bufs)),
    decreases bufs.len(),
{
    if bufs.len() > 0 {
        let w = bufs.drop_last();
        assert forall|i: int| 0 <= i < w.len() implies (#[trigger] w[i]).len() <= usize::MAX by {
            assert(w[i] == bufs[i]);
        }
        assert(bufs.last() == bufs[bufs.len() - 1]);
        lemma_split_position_from_total(max, holes, start, w);
        let p = split_position_from(max, holes, start, w);
        lemma_split_plan_ends_at(bufs.last(), max, p.0, p.1, holes, false);
        lemma_split_advance_compose(max, start.0, start.1, total_len(w), bufs.last().len());
    }
}

/// Bytes of the buffers `a` then `b`.
proof fn lemma_total_len_append(a: Seq<Seq<u8>>, b: Seq<Seq<u8>>)
    ensures
        total_len(a + b) == total_len(a) + total_len(b),
    decreases b.len(),
{
    if b.len() > 0 {
        lemma_total_len_append(a, b.drop_last());
        assert((a + b).drop_last() =~= a + b.drop_last());
        assert((a + b).last() == b.last());
    }
}

/// Position before the `i`-th of `bufs` in a run that wrote all of them
/// from `start`.
pub open spec fn position_before_write(max: nat, holes: bool, start: (nat, nat), bufs: Seq<Seq<u8>>, i: int) -> (nat, nat) {
    split_position_from(max, holes, start, bufs.take(i))
}

/// Position before the `i`-th of `bufs` in a run resumed after the first
/// `j` of them: the writer reopened at the position their bytes reach,
/// then writing the ones from `j` on.
pub open spec fn position_before_resumed_write(
    max: nat,
    holes: bool,
    start: (nat, nat),
    bufs: Seq<Seq<u8>>,
    j: int,
    i: int,
) -> (nat, nat) {
    split_position_from(
        max,
        holes,
        split_advance(max, start.0, start.1, total_len(bufs.take(j))),
        bufs.subrange(j, i),
    )
}

/// Law of resumed images: a writer with split size `max` reopened after
/// `j` of the writes `bufs` at the position their bytes reach
/// (`OutputWriter::skip_written`) stands, before every later write, where
/// a writer that was never interrupted stands; each later write is then
/// laid out into the same parts by the same operations, so the image is
/// the one an uninterrupted run writes.
pub proof fn lemma_resumed_writer_continues(max: nat, holes: bool, start: (nat, nat), bufs: Seq<Seq<u8>>, j: int)
    requires
        max > 0,
        0 <= j <= bufs.len(),
        forall|i: int| 0 <= i < bufs.len() ==> (#[trigger] bufs[i]).len() <= usize::MAX,
    ensures
        forall|i: int|
            j <= i <= bufs.len() ==> #[trigger] position_before_resumed_write(max, holes, start, bufs, j, i)
                == position_before_write(max, holes, start, bufs, i),
{
    assert forall|i: int| j <= i <= bufs.len() implies #[trigger] position_before_resumed_write(
        max,
        holes,
        start,
        bufs,
        j,
        i,
    ) == position_before_write(max, holes, start, bufs, i) by {
        let a = bufs.take(j);
        let b = bufs.subrange(j, i);
        let c = bufs.take(i);
        assert(a + b =~= c);
        lemma_total_len_append(a, b);
        assert forall|k: int| 0 <= k < b.len() implies (#[trigger] b[k]).len() <= usize::MAX by {
            assert(b[k] == bufs[j + k]);
        }
        assert forall|k: int| 0 <= k < c.len() implies (#[trigger] c[k]).len() <= usize::MAX by {
            assert(c[k] == bufs[k]);
        }
        let s1 = split_advance(max, start.0, start.1, total_len(a));
        lemma_split_position_from_total(max, holes, s1, b);
        lemma_split_position_from_total(max, holes, start, c);
        lemma_split_advance_compose(max, start.0, start.1, total_len(a), total_len(b));
    }
}

} // verus!

verus! {

/// Container formats that get a textual header.
#[derive(Clone, Copy, Debug, PartialEq, Eq, Structural)]
pub enum HeaderFormat {
    E01,
    EX01,
    AFF,
    SMART,
}

/// The container format a short format name asks for a header in.
pub open spec fn header_format_of(format: Seq<char>) -> Option<HeaderFormat> {
    if format == "E01"@ {
        Some(HeaderFormat::E01)
    } else if format == "EX01"@ {
        Some(HeaderFormat::EX01)
    } else if format == "AFF"@ {
        Some(HeaderFormat::AFF)
    } else if format == "SMART"@ {
        Some(HeaderFormat::SMART)
    } else {
        None
    }
}

/// First line of a container header.
pub open spec fn header_title(f: HeaderFormat) -> Seq<char> {
    match f {
        HeaderFormat::E01 => "=== EXPERT WITNESS COMPRESSION FORMAT HEADER (E01) ==="@,
        HeaderFormat::EX01 => "=== EXPERT WITNESS INTEGRATION FORMAT HEADER (EX01) ==="@,
        HeaderFormat::AFF => "=== ADVANCED FORENSIC FORMAT HEADER (AFF) ==="@,
        HeaderFormat::SMART => "=== SMART FORENSIC IMAGE HEADER (SMART) ==="@,
    }
}

/// "Acquisition:" value of a container header.
pub open spec fn header_acquisition(f: HeaderFormat) -> Seq<char> {
    match f {
        HeaderFormat::E01 => "EWF-E01 Staged Archive"@,
        HeaderFormat::EX01 => "EWF-EX01 Staged Archive"@,
        HeaderFormat::AFF => "AFF Staged Metadata Block"@,
        HeaderFormat::SMART => "SMART Staged Volume"@,
    }
}

/// Closing rule of a container header.
pub open spec fn header_rule(f: HeaderFormat) -> Seq<char> {
    match f {
        HeaderFormat::E01 => "======================================================"@,
        HeaderFormat::EX01 => "======================================================="@,
        HeaderFormat::AFF => "============================================="@,
        HeaderFormat::SMART => "==========================================="@,
    }
}

/// The text of a container header: seven newline-terminated lines.
pub open spec fn header_text(
    f: HeaderFormat,
    case: Seq<char>,
    examiner: Seq<char>,
    evidence_id: Seq<char>,
    notes: Seq<char>,
) -> Seq<char> {
    header_title(f) + "\n"@ + "Case Number: "@ + case + "\n"@ + "Examiner:    "@ + examiner + "\n"@
        + "Evidence ID: "@ + evidence_id + "\n"@ + "Notes:       "@ + notes + "\n"@ + "Acquisition: "@
        + header_acquisition(f) + "\n"@ + header_rule(f) + "\n"@
}

/// Law of container headers: exactly the four container format names
/// "E01", "EX01", "AFF" and "SMART" get a header, and the header opens
/// with a title line that names that same format, ending in
/// " (<name>) ===".
pub proof fn lemma_header_names_its_format(
    format: Seq<char>,
    case: Seq<char>,
    examiner: Seq<char>,
    evidence_id: Seq<char>,
    notes: Seq<char>,
)
    ensures
        (header_format_of(format) is Some) <==> (format == "E01"@ || format == "EX01"@ || format == "AFF"@
            || format == "SMART"@),
        header_format_of(format) matches Some(f) ==> {
            let t = header_title(f);
            let h = header_text(f, case, examiner, evidence_id, notes);
            &&& t.len() >= format.len() + 7
            &&& t.subrange(t.len() - format.len() - 7, t.len() as int) == " ("@ + format + ") ==="@
            &&& h.subrange(0, t.len() + 1int) == t.push('\n')
        },
{
    reveal_strlit("E01");
    reveal_strlit("EX01");
    reveal_strlit("AFF");
    reveal_strlit("SMART");
    reveal_strlit(" (");
    reveal_strlit(") ===");
    reveal_strlit("\n");
    reveal_strlit("=== EXPERT WITNESS COMPRESSION FORMAT HEADER (E01) ===");
    reveal_strlit("=== EXPERT WITNESS INTEGRATION FORMAT HEADER (EX01) ===");
    reveal_strlit("=== ADVANCED FORENSIC FORMAT HEADER (AFF) ===");
    reveal_strlit("=== SMART FORENSIC IMAGE HEADER (SMART) ===");
    reveal_strlit("=== EXPERT WITNESS COMPRESSION FORMAT HEADER");
    reveal_strlit("=== EXPERT WITNESS INTEGRATION FORMAT HEADER");
    reveal_strlit("=== ADVANCED FORENSIC FORMAT HEADER");
    reveal_strlit("=== SMART FORENSIC IMAGE HEADER");
    if let Some(f) = header_format_of(format) {
        let t = header_title(f);
        let h = header_text(f, case, examiner, evidence_id, notes);
        let pre: Seq<char> = if format == "E01"@ {
            "=== EXPERT WITNESS COMPRESSION FORMAT HEADER"@
        } else if format == "EX01"@ {
            "=== EXPERT WITNESS INTEGRATION FORMAT HEADER"@
        } else if format == "AFF"@ {
            "=== ADVANCED FORENSIC FORMAT HEADER"@
        } else {
            "=== SMART FORENSIC IMAGE HEADER"@
        };
        let tail = " ("@ + format + ") ==="@;
        assert(t =~= pre + tail);
        assert((pre + tail).subrange(pre.len() as int, (pre + tail).len() as int) =~= tail);
        assert(h.subrange(0, t.len() + 1int) =~= t.push('\n'));
    }
}

/// Bytes a container header takes in the image: its text in UTF-8.
pub open spec fn header_byte_len(
    f: HeaderFormat,
    case: Seq<char>,
    examiner: Seq<char>,
    evidence_id: Seq<char>,
    notes: Seq<char>,
) -> nat {
    crate::text::utf8_of(header_text(f, case, examiner, evidence_id, notes)).len()
}

impl HeaderFormat {
    /// The container format a short format name ("E01", "EX01", "AFF",
    /// "SMART") asks for a header in; `None` for any other (raw images).
    pub fn from_name(format: &str) -> (r: Option<HeaderFormat>)
        ensures
            r == header_format_of(format@),
    {
        if str_eq(format, "E01") {
            Some(HeaderFormat::E01)
        } else if str_eq(format, "EX01") {
            Some(HeaderFormat::EX01)
        } else if str_eq(format, "AFF") {
            Some(HeaderFormat::AFF)
        } else if str_eq(format, "SMART") {
            Some(HeaderFormat::SMART)
        } else {
            None
        }
    }
}

/// The header text of container format `f`.
fn header_for(f: HeaderFormat, case: &str, examiner: &str, evidence_id: &str, notes: &str) -> (t: String)
    ensures
        t@ == header_text(f, case@, examiner@, evidence_id@, notes@),
{
        let mut t = String::new();
        match f {
            HeaderFormat::E01 => push_str(&mut t, "=== EXPERT WITNESS COMPRESSION FORMAT HEADER (E01) ==="),
            HeaderFormat::EX01 => push_str(&mut t, "=== EXPERT WITNESS INTEGRATION FORMAT HEADER (EX01) ==="),
            HeaderFormat::AFF => push_str(&mut t, "=== ADVANCED FORENSIC FORMAT HEADER (AFF) ==="),
            HeaderFormat::SMART => push_str(&mut t, "=== SMART FORENSIC IMAGE HEADER (SMART) ==="),
        }
        push_str(&mut t, "\n");
        push_str(&mut t, "Case Number: ");
        push_str(&mut t, case);
        push_str(&mut t, "\n");
        push_str(&mut t, "Examiner:    ");
        push_str(&mut t, examiner);
        push_str(&mut t, "\n");
        push_str(&mut t, "Evidence ID: ");
        push_str(&mut t, evidence_id);
        push_str(&mut t, "\n");
        push_str(&mut t, "Notes:       ");
        push_str(&mut t, notes);
        push_str(&mut t, "\n");
        push_str(&mut t, "Acquisition: ");
        match f {
            HeaderFormat::E01 => push_str(&mut t, "EWF-E01 Staged Archive"),
            HeaderFormat::EX01 => push_str(&mut t, "EWF-EX01 Staged Archive"),
            HeaderFormat::AFF => push_str(&mut t, "AFF Staged Metadata Block"),
            HeaderFormat::SMART => push_str(&mut t, "SMART Staged Volume"),
        }
        push_str(&mut t, "\n");
        match f {
            HeaderFormat::E01 => push_str(&mut t, "======================================================"),
            HeaderFormat::EX01 => push_str(&mut t, "======================================================="),
            HeaderFormat::AFF => push_str(&mut t, "============================================="),
            HeaderFormat::SMART => push_str(&mut t, "==========================================="),
        }
        push_str(&mut t, "\n");
        proof {
            assert(t@ =~= header_text(f, case@, examiner@, evidence_id@, notes@));
        }
    t
}

impl OutputWriter {
    /// The container header for `format`, if it takes one; the header's
    /// bytes are accounted to the current part, so that the part's count
    /// stays the offset of the next byte in its file.
    pub fn write_format_header(
        &mut self,
        format: &str,
        case: &str,
        examiner: &str,
        evidence_id: &str,
        notes: &str,
    ) -> (text: Option<String>)
        requires
            header_format_of(format@) matches Some(f) ==> old(self).bytes_written_part + header_byte_len(
                f,
                case@,
                examiner@,
                evidence_id@,
                notes@,
            ) <= u64::MAX,
        ensures
            final(self).split_size == old(self).split_size,
            final(self).compression == old(self).compression,
            final(self).sparse == old(self).sparse,
            final(self).current_part == old(self).current_part,
            match header_format_of(format@) {
                Some(f) => {
                    &&& text matches Some(t) && t@ == header_text(f, case@, examiner@, evidence_id@, notes@)
                    &&& final(self).bytes_written_part == old(self).bytes_written_part + header_byte_len(
                        f,
                        case@,
                        examiner@,
                        evidence_id@,
                        notes@,
                    )
                },
                None => {
                    &&& text is None
                    &&& final(self).bytes_written_part == old(self).bytes_written_part
                },
            },
    {
        let f = match HeaderFormat::from_name(format) {
            Some(f) => f,
            None => return None,
        };
        let t = header_for(f, case, examiner, evidence_id, notes);
        let n: usize = t.as_str().as_bytes().len();
        self.bytes_written_part = self.bytes_written_part + n as u64;
        Some(t)
    }

    /// Whether the header of `format` fits the part's byte count: what
    /// `write_format_header` asks.
    pub fn header_fits(&self, format: &str, case: &str, examiner: &str, evidence_id: &str, notes: &str) -> (r: bool)
        ensures
            r == (header_format_of(format@) matches Some(f) ==> self.bytes_written_part + header_byte_len(
                f,
                case@,
                examiner@,
                evidence_id@,
                notes@,
            ) <= u64::MAX),
    {
        match HeaderFormat::from_name(format) {
            None => true,
            Some(f) => {
                let t = header_for(f, case, examiner, evidence_id, notes);
                let n: usize = t.as_str().as_bytes().len();
                self.bytes_written_part.checked_add(n as u64).is_some()
            },
        }
    }
}

} // verus!
