//! Bookkeeping of the segments of a commit log: their size limits, the
//! choice of the segment that takes new mutations, segment ids, statistics,
//! and the decisions of the periodic timer.
use vstd::prelude::*;
use crate::commitlog::{Config, SegmentId};
use crate::segment::{same_but_closed, Allocation, CommitlogError, Segment, DEFAULT_SIZE, ENTRY_OVERHEAD_SIZE};

verus! {

/// One mebibyte.
pub const MIB: u64 = 1048576;

/// Counters of the segment manager's work.
#[derive(Debug, Clone, Copy, PartialEq, Eq, Structural)]
pub struct Stats {
    pub cycle_count: u64,
    pub flush_count: u64,
    pub allocation_count: u64,
    pub bytes_written: u64,
    pub bytes_slack: u64,
    pub segments_created: u64,
    pub segments_destroyed: u64,
    pub pending_flushes: u64,
    pub flush_limit_exceeded: u64,
    pub total_size: u64,
    pub buffer_list_bytes: u64,
    pub total_size_on_disk: u64,
    pub requests_blocked_memory: u64,
}

/// Every counter at zero.
pub open spec fn zero_stats() -> Stats {
    Stats {
        cycle_count: 0,
        flush_count: 0,
        allocation_count: 0,
        bytes_written: 0,
        bytes_slack: 0,
        segments_created: 0,
        segments_destroyed: 0,
        pending_flushes: 0,
        flush_limit_exceeded: 0,
        total_size: 0,
        buffer_list_bytes: 0,
        total_size_on_disk: 0,
        requests_blocked_memory: 0,
    }
}

impl Default for Stats {
    fn default() -> (s: Stats)
        ensures
            s == zero_stats(),
    {
        Stats {
            cycle_count: 0,
            flush_count: 0,
            allocation_count: 0,
            bytes_written: 0,
            bytes_slack: 0,
            segments_created: 0,
            segments_destroyed: 0,
            pending_flushes: 0,
            flush_limit_exceeded: 0,
            total_size: 0,
            buffer_list_bytes: 0,
            total_size_on_disk: 0,
            requests_blocked_memory: 0,
        }
    }
}

/// The size of a segment: the configured number of MiB, at least one, but
/// no more than a 32-bit position can address.
pub open spec fn segment_max_size(segment_size_in_mb: u64) -> int {
    let wanted = (if segment_size_in_mb >= 1 { segment_size_in_mb as int } else { 1 }) * MIB;
    if wanted < u32::MAX { wanted } else { u32::MAX as int }
}

pub struct SegmentManager {
    cfg: Config,
    segments: Vec<Segment>,
    max_size: u64,
    max_mutation_size: u64,
    max_disk_size: u64,
    max_request_controller_units: usize,
    new_counter: u64,
    next_segment_id: SegmentId,
    stats: Stats,
    shutdown: bool,
}

impl SegmentManager {
    pub closed spec fn spec_max_size(&self) -> u64 {
        self.max_size
    }

    pub closed spec fn spec_max_mutation_size(&self) -> u64 {
        self.max_mutation_size
    }

    pub closed spec fn spec_max_disk_size(&self) -> u64 {
        self.max_disk_size
    }

    pub closed spec fn spec_max_request_controller_units(&self) -> usize {
        self.max_request_controller_units
    }

    pub closed spec fn spec_max_active_flushes(&self) -> usize {
        self.cfg.max_active_flushes
    }

    pub closed spec fn spec_sync_period_in_ms(&self) -> u64 {
        self.cfg.commitlog_sync_period_in_ms
    }

    pub closed spec fn spec_new_counter(&self) -> u64 {
        self.new_counter
    }

    pub closed spec fn spec_next_segment_id(&self) -> SegmentId {
        self.next_segment_id
    }

    pub closed spec fn spec_stats(&self) -> Stats {
        self.stats
    }

    pub closed spec fn spec_shutdown(&self) -> bool {
        self.shutdown
    }

    pub closed spec fn spec_segments(&self) -> Seq<Segment> {
        self.segments@
    }

    /// Segments are no longer than a 32-bit position addresses, and a
    /// mutation may take half of one.
    pub open spec fn wf(&self) -> bool {
        &&& self.spec_max_size() <= u32::MAX
        &&& self.spec_max_mutation_size() == self.spec_max_size() / 2
    }

    /// The newest segment still takes mutations.
    pub open spec fn has_current_segment(&self) -> bool {
        &&& self.spec_segments().len() > 0
        &&& !self.spec_segments().last().spec_closed()
        &&& self.spec_segments().last().spec_position() < self.spec_max_size()
    }

    /// Everything but the segments is as in `other`.
    pub open spec fn same_but_segments(&self, other: &SegmentManager) -> bool {
        &&& self.spec_max_size() == other.spec_max_size()
        &&& self.spec_max_mutation_size() == other.spec_max_mutation_size()
        &&& self.spec_max_disk_size() == other.spec_max_disk_size()
        &&& self.spec_max_request_controller_units() == other.spec_max_request_controller_units()
        &&& self.spec_max_active_flushes() == other.spec_max_active_flushes()
        &&& self.spec_sync_period_in_ms() == other.spec_sync_period_in_ms()
        &&& self.spec_new_counter() == other.spec_new_counter()
        &&& self.spec_next_segment_id() == other.spec_next_segment_id()
        &&& self.spec_shutdown() == other.spec_shutdown()
        &&& self.spec_stats() == other.spec_stats()
    }

    /// Everything but the statistics is as in `other`.
    pub open spec fn same_but_stats(&self, other: &SegmentManager) -> bool {
        &&& self.spec_max_size() == other.spec_max_size()
        &&& self.spec_max_mutation_size() == other.spec_max_mutation_size()
        &&& self.spec_max_disk_size() == other.spec_max_disk_size()
        &&& self.spec_max_request_controller_units() == other.spec_max_request_controller_units()
        &&& self.spec_max_active_flushes() == other.spec_max_active_flushes()
        &&& self.spec_sync_period_in_ms() == other.spec_sync_period_in_ms()
        &&& self.spec_new_counter() == other.spec_new_counter()
        &&& self.spec_next_segment_id() == other.spec_next_segment_id()
        &&& self.spec_shutdown() == other.spec_shutdown()
        &&& self.spec_segments() == other.spec_segments()
    }

    /// A manager with no segment yet.  Segments are `segment_max_size` bytes
    /// long; a mutation may take half of that; the request controller admits
    /// the largest mutation plus one buffer; and the segments may take the
    /// configured total space on disk (this process being one shard).
    pub fn create(cfg: Config) -> (m: SegmentManager)
        requires
            cfg.commitlog_segment_size_in_mb * MIB <= u64::MAX,
            cfg.commitlog_total_space_in_mb * MIB <= u64::MAX,
        ensures
            m.spec_max_size() == segment_max_size(cfg.commitlog_segment_size_in_mb),
            m.spec_max_mutation_size() == m.spec_max_size() / 2,
            m.spec_max_request_controller_units() == m.spec_max_mutation_size() + DEFAULT_SIZE,
            m.spec_max_disk_size() == cfg.commitlog_total_space_in_mb * MIB,
            m.spec_max_active_flushes() == cfg.max_active_flushes,
            m.spec_sync_period_in_ms() == cfg.commitlog_sync_period_in_ms,
            m.spec_new_counter() == 0,
            m.spec_next_segment_id() == 0,
            m.spec_stats() == zero_stats(),
            !m.spec_shutdown(),
            m.spec_segments().len() == 0,
            m.wf(),
    {
        let size_in_mb = if cfg.commitlog_segment_size_in_mb >= 1 { cfg.commitlog_segment_size_in_mb } else { 1 };
        let wanted = size_in_mb * MIB;
        let max_size = if wanted < u32::MAX as u64 { wanted } else { u32::MAX as u64 };
        let max_mutation_size = max_size >> 1;
        proof {
            assert(max_size >> 1 == max_size / 2) by (bit_vector);
        }
        let max_request_controller_units = max_mutation_size as usize + DEFAULT_SIZE;
        let max_disk_size = cfg.commitlog_total_space_in_mb * MIB;
        SegmentManager {
            cfg,
            segments: Vec::new(),
            max_size,
            max_mutation_size,
            max_disk_size,
            max_request_controller_units,
            new_counter: 0,
            next_segment_id: 0,
            stats: Stats::default(),
            shutdown: false,
        }
    }

    pub fn max_size(&self) -> (n: u64)
        ensures
            n == self.spec_max_size(),
    {
        self.max_size
    }

    /// Refuses a mutation larger than a mutation may be.
    pub fn sanity_check_size(&self, size: u64) -> (r: Result<(), CommitlogError>)
        ensures
            size > self.spec_max_mutation_size() ==> r == Err::<(), CommitlogError>(
                CommitlogError::MutationTooLarge { size, max_size: self.spec_max_mutation_size() },
            ),
            size <= self.spec_max_mutation_size() ==> r is Ok,
    {
        let max_size = self.max_mutation_size;
        if size > max_size {
            return Err(CommitlogError::MutationTooLarge { size, max_size });
        }
        Ok(())
    }

    /// Admits a mutation of `size` bytes and allocates it in the active
    /// segment.  It is first checked against the mutation size limit.  With
    /// no segment still allocating, a new one is needed.  Otherwise the
    /// newest segment takes it, or, when it would grow past the segment
    /// size, closes; a new segment is then needed.  The caller takes the
    /// new segment from the reserve (`begin_new_segment`, `add_segment`) and
    /// asks again.
    pub fn allocate_when_possible(&mut self, size: u64) -> (r: Result<Allocation, CommitlogError>)
        requires
            old(self).wf(),
            old(self).spec_segments().len() > 0 ==> old(self).spec_segments().last().spec_position() <= u64::MAX,
        ensures
            final(self).same_but_segments(&*old(self)),
            final(self).spec_segments().len() == old(self).spec_segments().len(),
            size > old(self).spec_max_mutation_size() ==> r == Err::<Allocation, CommitlogError>(
                CommitlogError::MutationTooLarge { size, max_size: old(self).spec_max_mutation_size() },
            ) && final(self).spec_segments() == old(self).spec_segments(),
            size <= old(self).spec_max_mutation_size() && !old(self).has_current_segment() ==> r == Ok::<
                Allocation,
                CommitlogError,
            >(Allocation::NeedsNewSegment) && final(self).spec_segments() == old(self).spec_segments(),
            size <= old(self).spec_max_mutation_size() && old(self).has_current_segment() ==> {
                let n = old(self).spec_segments().len() - 1;
                let last = old(self).spec_segments()[n];
                let total = size + ENTRY_OVERHEAD_SIZE;
                &&& forall|i: int| 0 <= i < n ==> #[trigger] final(self).spec_segments()[i] == old(self).spec_segments()[i]
                &&& same_but_closed(final(self).spec_segments()[n], last)
                &&& total > old(self).spec_max_mutation_size() ==> r == Err::<Allocation, CommitlogError>(
                    CommitlogError::MutationTooLarge { size: total as u64, max_size: old(self).spec_max_mutation_size() },
                ) && !final(self).spec_segments()[n].spec_closed()
                &&& total <= old(self).spec_max_mutation_size() && last.spec_position() + total > old(self).spec_max_size()
                    ==> r == Ok::<Allocation, CommitlogError>(Allocation::NeedsNewSegment)
                    && final(self).spec_segments()[n].spec_closed()
                &&& total <= old(self).spec_max_mutation_size() && last.spec_position() + total <= old(self).spec_max_size()
                    ==> r == Ok::<Allocation, CommitlogError>(Allocation::Accepted)
                    && !final(self).spec_segments()[n].spec_closed()
            },
    {
        match self.sanity_check_size(size) {
            Ok(()) => {},
            Err(e) => return Err(e),
        }
        match self.current_segment() {
            None => Ok(Allocation::NeedsNewSegment),
            Some(_) => {
                let ghost s0 = self.segments@;
                let mut segment = self.segments.pop().unwrap();
                let r = segment.allocate(size, self.max_size, self.max_mutation_size);
                self.segments.push(segment);
                proof {
                    assert forall|i: int| 0 <= i < s0.len() - 1 implies #[trigger] self.segments@[i] == s0[i] by {}
                }
                r
            },
        }
    }

    /// `slack` bytes of padding went to disk.
    pub fn record_slack(&mut self, slack: usize)
        requires
            old(self).spec_stats().bytes_slack + slack <= u64::MAX,
        ensures
            final(self).spec_stats() == (Stats { bytes_slack: (old(self).spec_stats().bytes_slack + slack) as u64, ..old(self).spec_stats() }),
            final(self).same_but_stats(&*old(self)),
    {
        self.stats.bytes_slack = self.stats.bytes_slack + slack as u64;
    }

    pub fn record_flush_success(&mut self)
        requires
            old(self).spec_stats().flush_count < u64::MAX,
        ensures
            final(self).spec_stats() == (Stats { flush_count: (old(self).spec_stats().flush_count + 1) as u64, ..old(self).spec_stats() }),
            final(self).same_but_stats(&*old(self)),
    {
        self.stats.flush_count = self.stats.flush_count + 1;
    }

    /// A chunk of `bytes` bytes went to disk.
    pub fn record_cycle_success(&mut self, bytes: usize)
        requires
            old(self).spec_stats().bytes_written + bytes <= u64::MAX,
            old(self).spec_stats().total_size_on_disk + bytes <= u64::MAX,
            old(self).spec_stats().cycle_count < u64::MAX,
        ensures
            final(self).spec_stats() == (Stats {
                bytes_written: (old(self).spec_stats().bytes_written + bytes) as u64,
                total_size_on_disk: (old(self).spec_stats().total_size_on_disk + bytes) as u64,
                cycle_count: (old(self).spec_stats().cycle_count + 1) as u64,
                ..old(self).spec_stats()
            }),
            final(self).same_but_stats(&*old(self)),
    {
        self.stats.bytes_written = self.stats.bytes_written + bytes as u64;
        self.stats.total_size_on_disk = self.stats.total_size_on_disk + bytes as u64;
        self.stats.cycle_count = self.stats.cycle_count + 1;
    }

    /// A flush begins.  Returns `true` when the flushes in flight reach the
    /// configured limit, which is counted as the limit being exceeded.
    pub fn begin_flush(&mut self) -> (over_limit: bool)
        requires
            old(self).spec_stats().pending_flushes < u64::MAX,
            old(self).spec_stats().flush_limit_exceeded < u64::MAX,
        ensures
            over_limit == (old(self).spec_stats().pending_flushes + 1 >= old(self).spec_max_active_flushes()),
            final(self).spec_stats() == (Stats {
                pending_flushes: (old(self).spec_stats().pending_flushes + 1) as u64,
                flush_limit_exceeded: if over_limit {
                    (old(self).spec_stats().flush_limit_exceeded + 1) as u64
                } else {
                    old(self).spec_stats().flush_limit_exceeded
                },
                ..old(self).spec_stats()
            }),
            final(self).same_but_stats(&*old(self)),
    {
        self.stats.pending_flushes = self.stats.pending_flushes + 1;
        let over_limit = self.stats.pending_flushes >= self.cfg.max_active_flushes as u64;
        if over_limit {
            self.stats.flush_limit_exceeded = self.stats.flush_limit_exceeded + 1;
        }
        over_limit
    }

    /// A flush has ended.
    pub fn end_flush(&mut self)
        requires
            old(self).spec_stats().pending_flushes > 0,
        ensures
            final(self).spec_stats() == (Stats { pending_flushes: (old(self).spec_stats().pending_flushes - 1) as u64, ..old(self).spec_stats() }),
            final(self).same_but_stats(&*old(self)),
    {
        self.stats.pending_flushes = self.stats.pending_flushes - 1;
    }

    /// Hands out the next segment id.
    pub fn next_segment_id(&mut self) -> (id: SegmentId)
        requires
            old(self).spec_next_segment_id() < u64::MAX,
        ensures
            id == old(self).spec_next_segment_id(),
            final(self).spec_next_segment_id() == id + 1,
            final(self).spec_stats() == old(self).spec_stats(),
            final(self).spec_segments() == old(self).spec_segments(),
            final(self).spec_new_counter() == old(self).spec_new_counter(),
            final(self).spec_shutdown() == old(self).spec_shutdown(),
            old(self).wf() ==> final(self).wf(),
    {
        let id = self.next_segment_id;
        self.next_segment_id = self.next_segment_id + 1;
        id
    }

    /// A segment was created for the reserve.
    pub fn record_segment_created(&mut self)
        requires
            old(self).spec_stats().segments_created < u64::MAX,
        ensures
            final(self).spec_stats() == (Stats { segments_created: (old(self).spec_stats().segments_created + 1) as u64, ..old(self).spec_stats() }),
            final(self).same_but_stats(&*old(self)),
    {
        self.stats.segments_created = self.stats.segments_created + 1;
    }

    /// The index of the segment that takes new mutations: the newest one,
    /// while it is still allocating.
    pub fn current_segment(&self) -> (r: Option<usize>)
        requires
            self.spec_segments().len() > 0 ==> self.spec_segments().last().spec_position() <= u64::MAX,
        ensures
            match r {
                Some(i) => {
                    &&& i + 1 == self.spec_segments().len()
                    &&& !self.spec_segments()[i as int].spec_closed()
                    &&& self.spec_segments()[i as int].spec_position() < self.spec_max_size()
                },
                None => self.spec_segments().len() == 0 || {
                    let last = self.spec_segments().last();
                    last.spec_closed() || last.spec_position() >= self.spec_max_size()
                },
            },
    {
        let n = self.segments.len();
        if n == 0 {
            return None;
        }
        if self.segments[n - 1].is_still_allocating(self.max_size) {
            Some(n - 1)
        } else {
            None
        }
    }

    /// A new segment is about to be taken from the reserve; refused once the
    /// manager is shut down.
    pub fn begin_new_segment(&mut self) -> (r: Result<(), CommitlogError>)
        requires
            old(self).spec_new_counter() < u64::MAX,
        ensures
            old(self).spec_shutdown() ==> r == Err::<(), CommitlogError>(CommitlogError::Closed)
                && final(self).spec_new_counter() == old(self).spec_new_counter(),
            !old(self).spec_shutdown() ==> r is Ok && final(self).spec_new_counter() == old(self).spec_new_counter() + 1,
            final(self).spec_stats() == old(self).spec_stats(),
            final(self).spec_segments() == old(self).spec_segments(),
            final(self).spec_shutdown() == old(self).spec_shutdown(),
            final(self).spec_max_size() == old(self).spec_max_size(),
            old(self).wf() ==> final(self).wf(),
    {
        if self.shutdown {
            return Err(CommitlogError::Closed);
        }
        self.new_counter = self.new_counter + 1;
        Ok(())
    }

    /// The segment taken from the reserve becomes the newest one.
    pub fn add_segment(&mut self, segment: Segment)
        ensures
            final(self).spec_segments() == old(self).spec_segments().push(segment),
            final(self).spec_stats() == old(self).spec_stats(),
            final(self).spec_new_counter() == old(self).spec_new_counter(),
            final(self).spec_shutdown() == old(self).spec_shutdown(),
            final(self).spec_max_size() == old(self).spec_max_size(),
            old(self).wf() ==> final(self).wf(),
    {
        self.segments.push(segment);
    }

    /// The timer's decision: when segments were put in use since the last
    /// check and the data on disk reaches the size limit, the counter of
    /// new segments is reset and segments must be flushed (`true`).
    pub fn on_timer(&mut self) -> (flush: bool)
        ensures
            flush == (old(self).spec_new_counter() > 0 && old(self).spec_max_disk_size() != 0
                && old(self).spec_stats().total_size_on_disk >= old(self).spec_max_disk_size()),
            final(self).spec_new_counter() == if flush { 0 } else { old(self).spec_new_counter() },
            final(self).spec_stats() == old(self).spec_stats(),
            final(self).spec_segments() == old(self).spec_segments(),
            final(self).spec_shutdown() == old(self).spec_shutdown(),
            final(self).spec_max_disk_size() == old(self).spec_max_disk_size(),
            old(self).wf() ==> final(self).wf(),
    {
        if self.new_counter > 0 {
            let max = self.max_disk_size;
            let cur = self.stats.total_size_on_disk;
            if max != 0 && cur >= max {
                self.new_counter = 0;
                return true;
            }
        }
        false
    }
}

} // verus!
