//! A single commit log file on disk.
//!
//! Mutations are appended to an in-memory buffer.  When the buffer is sent
//! to disk ("cycled") it is padded to the disk alignment, its first bytes are
//! replaced by a chunk header (preceded by the file header in the file's
//! first chunk), and it is written at the current end of the file.  Flushes
//! make written data durable up to a position.
use vstd::prelude::*;
use crate::crc::{crc32_ieee, checksum_ieee};
use crate::descriptor::Descriptor;
use crate::flush_queue::{FlushQueue, well_ordered, registered};

verus! {

/// Commit log entry overhead in bytes: length, head checksum, tail checksum.
pub const ENTRY_OVERHEAD_SIZE: u64 = 12;

/// Chunk header size in bytes: end of chunk offset and checksum.
pub const SEGMENT_OVERHEAD_SIZE: u64 = 8;

/// File header size in bytes: magic, version, segment id, checksum.
pub const DESCRIPTOR_HEADER_SIZE: u64 = 20;

/// `SCLC` in ASCII, big-endian.
pub const SEGMENT_MAGIC: u32 = 0x53434c43;

/// Disk alignment of writes, in bytes.
pub const ALIGNMENT: usize = 4096;

/// The size of a segment's buffer, in bytes: 128 KiB.
pub const DEFAULT_SIZE: usize = 131072;

/// `x` as four bytes, most significant first.
pub open spec fn be_u32(x: u32) -> Seq<u8> {
    seq![(x >> 24) as u8, (x >> 16) as u8, (x >> 8) as u8, x as u8]
}

/// `x` as eight bytes, most significant first.
pub open spec fn be_u64(x: u64) -> Seq<u8> {
    be_u32((x >> 32) as u32) + be_u32(x as u32)
}

/// The header at the start of a segment file: magic, version, segment id,
/// and the checksum of version and segment id.
pub open spec fn file_header_bytes(version: u32, segment_id: u64) -> Seq<u8> {
    be_u32(SEGMENT_MAGIC) + be_u32(version) + be_u64(segment_id) + be_u32(
        crc32_ieee(be_u32(version) + be_u64(segment_id)),
    )
}

/// The header at the start of a chunk: the file offset where the chunk ends,
/// and the checksum of the segment id and the offset of the chunk's data.
pub open spec fn chunk_header_bytes(segment_id: u64, data_offset: u32, end_of_chunk_offset: u32) -> Seq<u8> {
    be_u32(end_of_chunk_offset) + be_u32(crc32_ieee(be_u64(segment_id) + be_u32(data_offset)))
}

fn put_u32_be(buf: &mut Vec<u8>, x: u32)
    ensures
        final(buf)@ == old(buf)@ + be_u32(x),
{
    buf.push((x >> 24) as u8);
    buf.push((x >> 16) as u8);
    buf.push((x >> 8) as u8);
    buf.push(x as u8);
    proof {
        assert(buf@ =~= old(buf)@ + be_u32(x));
    }
}

fn put_u64_be(buf: &mut Vec<u8>, x: u64)
    ensures
        final(buf)@ == old(buf)@ + be_u64(x),
{
    put_u32_be(buf, (x >> 32) as u32);
    put_u32_be(buf, x as u32);
    proof {
        assert(buf@ =~= old(buf)@ + be_u64(x));
    }
}

/// Appends the file header of `descriptor`'s segment to `buf`.
pub fn write_file_header(buf: &mut Vec<u8>, descriptor: &Descriptor)
    ensures
        final(buf)@ == old(buf)@ + file_header_bytes(1, descriptor.spec_segment_id()),
{
    let version: u32 = descriptor.version().number();
    let segment_id: u64 = descriptor.segment_id();
    put_u32_be(buf, SEGMENT_MAGIC);
    put_u32_be(buf, version);
    put_u64_be(buf, segment_id);
    let mut checked: Vec<u8> = Vec::new();
    put_u32_be(&mut checked, version);
    put_u64_be(&mut checked, segment_id);
    proof {
        assert(checked@ =~= be_u32(version) + be_u64(segment_id));
    }
    let crc = checksum_ieee(checked.as_slice());
    put_u32_be(buf, crc);
    proof {
        assert(buf@ =~= old(buf)@ + file_header_bytes(1, segment_id));
    }
}

/// Appends a chunk header to `buf`: the chunk ends at
/// `end_of_chunk_offset`, and its data starts at `data_offset`.
pub fn write_chunk_header(buf: &mut Vec<u8>, descriptor: &Descriptor, data_offset: u32, end_of_chunk_offset: u32)
    ensures
        final(buf)@ == old(buf)@ + chunk_header_bytes(
            descriptor.spec_segment_id(),
            data_offset,
            end_of_chunk_offset,
        ),
{
    let segment_id: u64 = descriptor.segment_id();
    let mut checked: Vec<u8> = Vec::new();
    put_u64_be(&mut checked, segment_id);
    put_u32_be(&mut checked, data_offset);
    proof {
        assert(checked@ =~= be_u64(segment_id) + be_u32(data_offset));
    }
    let crc = checksum_ieee(checked.as_slice());
    put_u32_be(buf, end_of_chunk_offset);
    put_u32_be(buf, crc);
    proof {
        assert(buf@ =~= old(buf)@ + chunk_header_bytes(segment_id, data_offset, end_of_chunk_offset));
    }
}

/// The length of `buf` rounded up to a multiple of `align`.
pub fn align_buf_up(buf: &[u8], align: usize) -> (r: usize)
    requires
        align >= 1,
        buf@.len() + align - 1 <= usize::MAX,
    ensures
        r == ((buf@.len() + align - 1) as usize) & !((align - 1) as usize),
        crate::align::is_power_of_two(align) ==> {
            &&& r == crate::align::round_up(buf@.len() as int, align as int)
            &&& r % align == 0
            &&& buf@.len() <= r < buf@.len() + align
        },
{
    crate::align::align_up(buf.len(), align)
}

/// Pads `buf` with zeros up to a multiple of `ALIGNMENT`; returns the
/// number of bytes added.
pub fn clear_buffer_slack(buf: &mut Vec<u8>) -> (slack: usize)
    requires
        old(buf)@.len() + ALIGNMENT - 1 <= usize::MAX,
    ensures
        final(buf)@ == old(buf)@ + Seq::new(slack as nat, |i: int| 0u8),
        final(buf)@.len() % (ALIGNMENT as nat) == 0,
        final(buf)@.len() == crate::align::round_up(old(buf)@.len() as int, ALIGNMENT as int),
        slack < ALIGNMENT,
{
    proof {
        lemma_alignment_is_power_of_two();
    }
    let new_size = align_buf_up(buf.as_slice(), ALIGNMENT);
    let slack_size = new_size - buf.len();
    let ghost b0 = buf@;
    let mut i: usize = 0;
    while i < slack_size
        invariant
            i <= slack_size,
            buf@ == b0 + Seq::new(i as nat, |j: int| 0u8),
        decreases slack_size - i,
    {
        buf.push(0u8);
        i = i + 1;
        proof {
            assert(buf@ =~= b0 + Seq::new(i as nat, |j: int| 0u8));
        }
    }
    slack_size
}

proof fn lemma_alignment_is_power_of_two()
    ensures
        crate::align::is_power_of_two(ALIGNMENT),
{
    vstd::arithmetic::power2::lemma2_to64();
    assert(vstd::arithmetic::power2::pow2(12) == 4096);
}


/// The errors of the commit log.
#[derive(Debug, Clone, Copy, PartialEq, Eq, Structural)]
pub enum CommitlogError {
    /// The commit log has been shut down.
    Closed,
    /// A mutation of `size` bytes exceeds the `max_size` that one may have.
    MutationTooLarge { size: u64, max_size: u64 },
    /// Appending failed: the request controller was broken.
    FailedToAppend,
    /// Flushing failed: the flush semaphore was broken.
    FailedToFlush,
    /// A file operation failed.
    IO,
}

/// What `Segment::allocate` decided.
#[derive(Debug, Clone, Copy, PartialEq, Eq, Structural)]
pub enum Allocation {
    /// The mutation is taken by this segment.
    Accepted,
    /// This segment is full and now closed: sync it, and allocate the
    /// mutation in the active segment.
    NeedsNewSegment,
}

/// The work that cycling a segment calls for.
#[derive(Debug)]
pub enum CycleAction {
    /// Nothing to write or flush.
    Done,
    /// Nothing to write; flush the file from its start.
    FlushFromStart,
    /// Write `data` at file offset `offset`, registered in the pending
    /// operations at `offset`; once every earlier write has finished, flush
    /// up to `flush_to` if one is given.  `slack` zero bytes padded the data.
    Write { offset: u64, data: Vec<u8>, flush_to: Option<u64>, slack: usize },
}

/// The chunk as it goes to disk: `buf`, whose first bytes are replaced by
/// the headers, the file header first when the chunk opens the file.
pub open spec fn chunk_bytes(buf: Seq<u8>, segment_id: u64, off: u64, top: u64) -> Seq<u8> {
    let header = if off == 0 {
        file_header_bytes(1, segment_id) + chunk_header_bytes(
            segment_id,
            (off + DESCRIPTOR_HEADER_SIZE) as u32,
            top as u32,
        )
    } else {
        chunk_header_bytes(segment_id, off as u32, top as u32)
    };
    header + buf.skip(header.len() as int)
}

/// `a` is `b`, but for whether it is closed.
pub open spec fn same_but_closed(a: Segment, b: Segment) -> bool {
    &&& a.spec_segment_id() == b.spec_segment_id()
    &&& a.spec_file_pos() == b.spec_file_pos()
    &&& a.spec_flush_pos() == b.spec_flush_pos()
    &&& a.spec_buffer() == b.spec_buffer()
    &&& a.spec_pending() == b.spec_pending()
    &&& a.spec_num_allocs() == b.spec_num_allocs()
}

pub struct Segment {
    descriptor: Descriptor,
    closed: bool,
    file_pos: u64,
    flush_pos: u64,
    buffer: Vec<u8>,
    pending_ops: FlushQueue,
    num_allocs: u64,
}

impl Segment {
    pub closed spec fn spec_segment_id(&self) -> u64 {
        self.descriptor.spec_segment_id()
    }

    pub closed spec fn spec_closed(&self) -> bool {
        self.closed
    }

    /// Bytes handed to the file so far.
    pub closed spec fn spec_file_pos(&self) -> u64 {
        self.file_pos
    }

    /// Bytes known to be durable.
    pub closed spec fn spec_flush_pos(&self) -> u64 {
        self.flush_pos
    }

    /// Bytes waiting in memory.
    pub closed spec fn spec_buffer(&self) -> Seq<u8> {
        self.buffer@
    }

    /// Writes not yet finished, by file offset.
    pub closed spec fn spec_pending(&self) -> Seq<(u64, usize)> {
        self.pending_ops.entries()
    }

    pub closed spec fn spec_num_allocs(&self) -> u64 {
        self.num_allocs
    }

    /// Pending writes are ordered and none lies at or past the end of what
    /// was handed to the file, which ends on the disk alignment.
    pub open spec fn wf(&self) -> bool {
        &&& self.spec_file_pos() as int % (ALIGNMENT as int) == 0
        &&& well_ordered(self.spec_pending())
        &&& forall|i: int| 0 <= i < self.spec_pending().len() ==> #[trigger] self.spec_pending()[i].0 < self.spec_file_pos()
    }

    /// The end of the segment's data: what was handed to the file plus what
    /// waits in memory.
    pub open spec fn spec_position(&self) -> int {
        self.spec_file_pos() + self.spec_buffer().len()
    }

    /// An open, empty segment.
    pub fn create(descriptor: Descriptor) -> (s: Segment)
        ensures
            s.spec_segment_id() == descriptor.spec_segment_id(),
            !s.spec_closed(),
            s.spec_file_pos() == 0,
            s.spec_flush_pos() == 0,
            s.spec_buffer().len() == 0,
            s.spec_pending().len() == 0,
            s.spec_num_allocs() == 0,
            s.wf(),
    {
        Segment {
            descriptor,
            closed: false,
            file_pos: 0,
            flush_pos: 0,
            buffer: Vec::new(),
            pending_ops: FlushQueue::new(),
            num_allocs: 0,
        }
    }

    pub fn descriptor(&self) -> (d: &Descriptor)
        ensures
            d.spec_segment_id() == self.spec_segment_id(),
    {
        &self.descriptor
    }

    pub fn position(&self) -> (p: u64)
        requires
            self.spec_position() <= u64::MAX,
        ensures
            p == self.spec_position(),
    {
        self.file_pos + self.buffer.len() as u64
    }

    pub fn size_on_disk(&self) -> (n: u64)
        ensures
            n == self.spec_file_pos(),
    {
        self.file_pos
    }

    /// The segment is open and not yet `max_size` bytes long.
    pub fn is_still_allocating(&self, max_size: u64) -> (b: bool)
        requires
            self.spec_position() <= u64::MAX,
        ensures
            b == (!self.spec_closed() && self.spec_position() < max_size),
    {
        !self.closed && self.position() < max_size
    }

    /// Decides where a mutation of `size` bytes goes.  With its entry
    /// overhead it may not exceed `max_mutation_size`; when it does not fit
    /// in this segment's `max_size` bytes, or the segment no longer takes
    /// mutations, the segment closes and the mutation goes to a new one.
    pub fn allocate(&mut self, size: u64, max_size: u64, max_mutation_size: u64) -> (r: Result<Allocation, CommitlogError>)
        requires
            size + ENTRY_OVERHEAD_SIZE <= u64::MAX,
            size + ENTRY_OVERHEAD_SIZE <= max_mutation_size ==> old(self).spec_position() + size
                + ENTRY_OVERHEAD_SIZE <= u64::MAX,
        ensures
            size + ENTRY_OVERHEAD_SIZE > max_mutation_size ==> r == Err::<Allocation, CommitlogError>(
                CommitlogError::MutationTooLarge { size: (size + ENTRY_OVERHEAD_SIZE) as u64, max_size: max_mutation_size },
            ) && final(self).spec_closed() == old(self).spec_closed(),
            size + ENTRY_OVERHEAD_SIZE <= max_mutation_size ==> {
                let full = old(self).spec_closed() || old(self).spec_position() >= max_size
                    || old(self).spec_position() + size + ENTRY_OVERHEAD_SIZE > max_size;
                &&& full ==> r == Ok::<Allocation, CommitlogError>(Allocation::NeedsNewSegment) && final(self).spec_closed()
                &&& !full ==> r == Ok::<Allocation, CommitlogError>(Allocation::Accepted) && !final(self).spec_closed()
            },
            final(self).spec_segment_id() == old(self).spec_segment_id(),
            final(self).spec_file_pos() == old(self).spec_file_pos(),
            final(self).spec_flush_pos() == old(self).spec_flush_pos(),
            final(self).spec_buffer() == old(self).spec_buffer(),
            final(self).spec_pending() == old(self).spec_pending(),
            final(self).spec_num_allocs() == old(self).spec_num_allocs(),
    {
        let total_size = size + ENTRY_OVERHEAD_SIZE;
        if total_size > max_mutation_size {
            return Err(CommitlogError::MutationTooLarge { size: total_size, max_size: max_mutation_size });
        }
        if !self.is_still_allocating(max_size) || self.position() + total_size > max_size {
            self.closed = true;
            return Ok(Allocation::NeedsNewSegment);
        }
        Ok(Allocation::Accepted)
    }

    /// Whether flushing up to `pos` has anything to do: `pos` lies past
    /// what is already durable.
    pub fn needs_flush(&self, pos: u64) -> (b: bool)
        ensures
            b == (pos > self.spec_flush_pos()),
    {
        pos > self.flush_pos
    }

    /// A flush up to `pos` has completed.
    pub fn record_flush(&mut self, pos: u64)
        ensures
            final(self).spec_flush_pos() == if pos > old(self).spec_flush_pos() { pos } else { old(self).spec_flush_pos() },
            final(self).spec_segment_id() == old(self).spec_segment_id(),
            final(self).spec_closed() == old(self).spec_closed(),
            final(self).spec_file_pos() == old(self).spec_file_pos(),
            final(self).spec_buffer() == old(self).spec_buffer(),
            final(self).spec_pending() == old(self).spec_pending(),
            final(self).spec_num_allocs() == old(self).spec_num_allocs(),
    {
        if pos > self.flush_pos {
            self.flush_pos = pos;
        }
    }

    /// The file flush that `pos` called for (see `needs_flush`) has ended:
    /// on success the durable position becomes `pos` when that is later; on
    /// failure it stays, and the flush fails with `IO`.
    pub fn flush_outcome(&mut self, pos: u64, flushed: bool) -> (r: Result<(), CommitlogError>)
        ensures
            flushed ==> r is Ok && final(self).spec_flush_pos() == if pos > old(self).spec_flush_pos() {
                pos
            } else {
                old(self).spec_flush_pos()
            },
            !flushed ==> r == Err::<(), CommitlogError>(CommitlogError::IO) && final(self).spec_flush_pos()
                == old(self).spec_flush_pos(),
            final(self).spec_segment_id() == old(self).spec_segment_id(),
            final(self).spec_closed() == old(self).spec_closed(),
            final(self).spec_file_pos() == old(self).spec_file_pos(),
            final(self).spec_buffer() == old(self).spec_buffer(),
            final(self).spec_pending() == old(self).spec_pending(),
            final(self).spec_num_allocs() == old(self).spec_num_allocs(),
    {
        if flushed {
            self.record_flush(pos);
            Ok(())
        } else {
            Err(CommitlogError::IO)
        }
    }

    /// Sends the buffer to disk, if it holds anything: pads it to the disk
    /// alignment, moves the file position past it, writes the headers over
    /// its first bytes and registers the write at its offset.  With
    /// `flush_after`, the write is to be followed by a flush up to its end.
    pub fn cycle(&mut self, flush_after: bool) -> (a: CycleAction)
        requires
            old(self).wf(),
            old(self).spec_buffer().len() > 0 ==> old(self).spec_buffer().len() + ALIGNMENT - 1 <= usize::MAX,
            old(self).spec_buffer().len() > 0 ==> old(self).spec_file_pos() + crate::align::round_up(
                old(self).spec_buffer().len() as int,
                ALIGNMENT as int,
            ) <= u64::MAX,
        ensures
            final(self).wf(),
            final(self).spec_segment_id() == old(self).spec_segment_id(),
            final(self).spec_closed() == old(self).spec_closed(),
            final(self).spec_flush_pos() == old(self).spec_flush_pos(),
            final(self).spec_buffer().len() == 0,
            old(self).spec_buffer().len() == 0 ==> {
                &&& a is Done <==> !flush_after
                &&& a is FlushFromStart <==> flush_after
                &&& final(self).spec_file_pos() == old(self).spec_file_pos()
                &&& final(self).spec_pending() == old(self).spec_pending()
                &&& final(self).spec_num_allocs() == old(self).spec_num_allocs()
            },
            old(self).spec_buffer().len() > 0 ==> {
                let off = old(self).spec_file_pos();
                let size = crate::align::round_up(old(self).spec_buffer().len() as int, ALIGNMENT as int);
                let top = (off + size) as u64;
                let padded = old(self).spec_buffer() + Seq::new((size - old(self).spec_buffer().len()) as nat, |i: int| 0u8);
                &&& a matches CycleAction::Write { offset, data, flush_to, slack }
                    && offset == off
                    && data@ == chunk_bytes(padded, old(self).spec_segment_id(), off, top)
                    && data@.len() == size
                    && slack == size - old(self).spec_buffer().len()
                    && flush_to == (if flush_after { Some(top) } else { None::<u64> })
                &&& final(self).spec_file_pos() == top
                &&& final(self).spec_num_allocs() == 0
                &&& final(self).spec_pending() == registered(old(self).spec_pending(), off)
            },
    {
        if self.buffer.len() == 0 {
            return if flush_after {
                CycleAction::FlushFromStart
            } else {
                CycleAction::Done
            };
        }
        let slack = clear_buffer_slack(&mut self.buffer);
        let size = self.buffer.len() as u64;
        let mut buf: Vec<u8> = Vec::new();
        std::mem::swap(&mut buf, &mut self.buffer);
        let off = self.file_pos;
        let top = off + size;
        self.file_pos = top;
        self.num_allocs = 0;
        let mut header: Vec<u8> = Vec::new();
        let mut header_size: u64 = 0;
        if off == 0 {
            write_file_header(&mut header, &self.descriptor);
            header_size = DESCRIPTOR_HEADER_SIZE;
        }
        write_chunk_header(
            &mut header,
            &self.descriptor,
            #[verifier::truncate] ((off + header_size) as u32),
            #[verifier::truncate] (top as u32),
        );
        let ghost padded = buf@;
        let hlen = header.len();
        let mut i: usize = 0;
        while i < hlen
            invariant
                i <= hlen,
                hlen == header@.len(),
                hlen <= 28,
                buf@.len() == padded.len(),
                padded.len() >= ALIGNMENT,
                forall|j: int| 0 <= j < i ==> buf@[j] == header@[j],
                forall|j: int| i <= j < buf@.len() ==> buf@[j] == padded[j],
            decreases hlen - i,
        {
            buf.set(i, header[i]);
            i = i + 1;
        }
        proof {
            assert(buf@ =~= header@ + padded.skip(hlen as int));
        }
        self.pending_ops.register(off);
        let flush_to = if flush_after { Some(top) } else { None };
        CycleAction::Write { offset: off, data: buf, flush_to, slack }
    }

    /// The write that a write at `offset` must wait for before its flush:
    /// the latest earlier write still pending.
    pub fn write_waits_for(&self, offset: u64) -> (r: Option<u64>)
        requires
            self.wf(),
        ensures
            match r {
                Some(p) => crate::flush_queue::greatest_with(self.spec_pending(), p, |k: u64| k < offset),
                None => crate::flush_queue::none_with(self.spec_pending(), |k: u64| k < offset),
            },
    {
        self.pending_ops.waits_for(offset)
    }

    /// The write at `offset` has finished, its flush included.  Returns
    /// `true` when no other operation remains at that offset.
    pub fn write_finished(&mut self, offset: u64) -> (done: bool)
        requires
            old(self).wf(),
            crate::flush_queue::has_position(old(self).spec_pending(), offset),
        ensures
            final(self).wf(),
            final(self).spec_file_pos() == old(self).spec_file_pos(),
            final(self).spec_buffer() == old(self).spec_buffer(),
            exists|i: int| 0 <= i < old(self).spec_pending().len() && old(self).spec_pending()[i].0 == offset
                && final(self).spec_pending() == crate::flush_queue::finished_at(old(self).spec_pending(), i)
                && done == (old(self).spec_pending()[i].1 == 1),
    {
        let ghost s0 = self.pending_ops.entries();
        let done = self.pending_ops.finish(offset);
        proof {
            assert forall|i: int| 0 <= i < self.spec_pending().len() implies #[trigger] self.spec_pending()[i].0 < self.spec_file_pos() by {
                let k = choose|k: int| 0 <= k < s0.len() && s0[k].0 == offset
                    && self.spec_pending() == crate::flush_queue::finished_at(s0, k);
                if s0[k].1 == 1 {
                    if i < k {
                        assert(self.spec_pending()[i] == s0[i]);
                    } else {
                        assert(self.spec_pending()[i] == s0[i + 1]);
                    }
                } else {
                    assert(self.spec_pending()[i].0 == s0[i].0);
                }
            }
        }
        done
    }
}

} // verus!
