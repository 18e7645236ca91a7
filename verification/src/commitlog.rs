//! Settings of the commit log.
use vstd::prelude::*;

verus! {

/// When the commit log makes its writes durable.
#[derive(Debug, Clone, Copy, PartialEq, Eq, Structural)]
pub enum SyncMode {
    /// Flush on a timer.
    Periodic,
    /// Flush with every write.
    Batch,
}

pub type SegmentId = u64;

pub type Position = u32;

#[derive(Debug)]
pub struct Config {
    pub commit_log_location: String,
    pub commitlog_total_space_in_mb: u64,
    pub commitlog_segment_size_in_mb: u64,
    pub commitlog_sync_period_in_ms: u64,
    /// Segments kept allocated ahead of use.
    pub max_reserve_segments: usize,
    /// Flushes allowed in flight; zero lets the commit log decide.
    pub max_active_flushes: usize,
    pub sync_mode: SyncMode,
}

/// Why a `Config` could not be built.
#[derive(Debug, Clone, Copy, PartialEq, Eq, Structural)]
pub enum ConfigError {
    /// The location of the commit log was not given.
    MissingCommitLogLocation,
}

/// Builds a `Config`; every setting but the location has a default.
#[derive(Debug)]
pub struct ConfigBuilder {
    commit_log_location: Option<String>,
    commitlog_total_space_in_mb: Option<u64>,
    commitlog_segment_size_in_mb: Option<u64>,
    commitlog_sync_period_in_ms: Option<u64>,
    max_reserve_segments: Option<usize>,
    max_active_flushes: Option<usize>,
    sync_mode: Option<SyncMode>,
}

impl ConfigBuilder {
    pub closed spec fn spec_location(&self) -> Option<Seq<char>> {
        match self.commit_log_location {
            Some(s) => Some(s@),
            None => None,
        }
    }

    pub closed spec fn spec_total_space_in_mb(&self) -> Option<u64> {
        self.commitlog_total_space_in_mb
    }

    pub closed spec fn spec_segment_size_in_mb(&self) -> Option<u64> {
        self.commitlog_segment_size_in_mb
    }

    pub closed spec fn spec_sync_period_in_ms(&self) -> Option<u64> {
        self.commitlog_sync_period_in_ms
    }

    pub closed spec fn spec_max_reserve_segments(&self) -> Option<usize> {
        self.max_reserve_segments
    }

    pub closed spec fn spec_max_active_flushes(&self) -> Option<usize> {
        self.max_active_flushes
    }

    pub closed spec fn spec_sync_mode(&self) -> Option<SyncMode> {
        self.sync_mode
    }

    /// Nothing set yet.
    pub fn new() -> (b: ConfigBuilder)
        ensures
            b.spec_location() is None,
            b.spec_total_space_in_mb() is None,
            b.spec_segment_size_in_mb() is None,
            b.spec_sync_period_in_ms() is None,
            b.spec_max_reserve_segments() is None,
            b.spec_max_active_flushes() is None,
            b.spec_sync_mode() is None,
    {
        ConfigBuilder {
            commit_log_location: None,
            commitlog_total_space_in_mb: None,
            commitlog_segment_size_in_mb: None,
            commitlog_sync_period_in_ms: None,
            max_reserve_segments: None,
            max_active_flushes: None,
            sync_mode: None,
        }
    }

    pub fn commit_log_location(&mut self, v: String)
        ensures
            final(self).spec_location() == Some(v@),
            final(self).spec_total_space_in_mb() == old(self).spec_total_space_in_mb(),
            final(self).spec_segment_size_in_mb() == old(self).spec_segment_size_in_mb(),
            final(self).spec_sync_period_in_ms() == old(self).spec_sync_period_in_ms(),
            final(self).spec_max_reserve_segments() == old(self).spec_max_reserve_segments(),
            final(self).spec_max_active_flushes() == old(self).spec_max_active_flushes(),
            final(self).spec_sync_mode() == old(self).spec_sync_mode(),
    {
        self.commit_log_location = Some(v);
    }

    pub fn commitlog_total_space_in_mb(&mut self, v: u64)
        ensures
            final(self).spec_location() == old(self).spec_location(),
            final(self).spec_total_space_in_mb() == Some(v),
            final(self).spec_segment_size_in_mb() == old(self).spec_segment_size_in_mb(),
            final(self).spec_sync_period_in_ms() == old(self).spec_sync_period_in_ms(),
            final(self).spec_max_reserve_segments() == old(self).spec_max_reserve_segments(),
            final(self).spec_max_active_flushes() == old(self).spec_max_active_flushes(),
            final(self).spec_sync_mode() == old(self).spec_sync_mode(),
    {
        self.commitlog_total_space_in_mb = Some(v);
    }

    pub fn commitlog_segment_size_in_mb(&mut self, v: u64)
        ensures
            final(self).spec_location() == old(self).spec_location(),
            final(self).spec_total_space_in_mb() == old(self).spec_total_space_in_mb(),
            final(self).spec_segment_size_in_mb() == Some(v),
            final(self).spec_sync_period_in_ms() == old(self).spec_sync_period_in_ms(),
            final(self).spec_max_reserve_segments() == old(self).spec_max_reserve_segments(),
            final(self).spec_max_active_flushes() == old(self).spec_max_active_flushes(),
            final(self).spec_sync_mode() == old(self).spec_sync_mode(),
    {
        self.commitlog_segment_size_in_mb = Some(v);
    }

    pub fn commitlog_sync_period_in_ms(&mut self, v: u64)
        ensures
            final(self).spec_location() == old(self).spec_location(),
            final(self).spec_total_space_in_mb() == old(self).spec_total_space_in_mb(),
            final(self).spec_segment_size_in_mb() == old(self).spec_segment_size_in_mb(),
            final(self).spec_sync_period_in_ms() == Some(v),
            final(self).spec_max_reserve_segments() == old(self).spec_max_reserve_segments(),
            final(self).spec_max_active_flushes() == old(self).spec_max_active_flushes(),
            final(self).spec_sync_mode() == old(self).spec_sync_mode(),
    {
        self.commitlog_sync_period_in_ms = Some(v);
    }

    pub fn max_reserve_segments(&mut self, v: usize)
        ensures
            final(self).spec_location() == old(self).spec_location(),
            final(self).spec_total_space_in_mb() == old(self).spec_total_space_in_mb(),
            final(self).spec_segment_size_in_mb() == old(self).spec_segment_size_in_mb(),
            final(self).spec_sync_period_in_ms() == old(self).spec_sync_period_in_ms(),
            final(self).spec_max_reserve_segments() == Some(v),
            final(self).spec_max_active_flushes() == old(self).spec_max_active_flushes(),
            final(self).spec_sync_mode() == old(self).spec_sync_mode(),
    {
        self.max_reserve_segments = Some(v);
    }

    pub fn max_active_flushes(&mut self, v: usize)
        ensures
            final(self).spec_location() == old(self).spec_location(),
            final(self).spec_total_space_in_mb() == old(self).spec_total_space_in_mb(),
            final(self).spec_segment_size_in_mb() == old(self).spec_segment_size_in_mb(),
            final(self).spec_sync_period_in_ms() == old(self).spec_sync_period_in_ms(),
            final(self).spec_max_reserve_segments() == old(self).spec_max_reserve_segments(),
            final(self).spec_max_active_flushes() == Some(v),
            final(self).spec_sync_mode() == old(self).spec_sync_mode(),
    {
        self.max_active_flushes = Some(v);
    }

    pub fn sync_mode(&mut self, v: SyncMode)
        ensures
            final(self).spec_location() == old(self).spec_location(),
            final(self).spec_total_space_in_mb() == old(self).spec_total_space_in_mb(),
            final(self).spec_segment_size_in_mb() == old(self).spec_segment_size_in_mb(),
            final(self).spec_sync_period_in_ms() == old(self).spec_sync_period_in_ms(),
            final(self).spec_max_reserve_segments() == old(self).spec_max_reserve_segments(),
            final(self).spec_max_active_flushes() == old(self).spec_max_active_flushes(),
            final(self).spec_sync_mode() == Some(v),
    {
        self.sync_mode = Some(v);
    }

    /// The configuration: the location must have been set; the other
    /// settings default to 100 MiB of total space, 32 MiB segments, a sync
    /// period of 10 s, 12 reserve segments, no flush limit of one's own
    /// (0) and batch syncing.
    pub fn build(&self) -> (r: Result<Config, ConfigError>)
        ensures
            match r {
                Ok(c) => {
                    &&& self.spec_location() == Some(c.commit_log_location@)
                    &&& c.commitlog_total_space_in_mb == (match self.spec_total_space_in_mb() { Some(v) => v, None => 100 })
                    &&& c.commitlog_segment_size_in_mb == (match self.spec_segment_size_in_mb() { Some(v) => v, None => 32 })
                    &&& c.commitlog_sync_period_in_ms == (match self.spec_sync_period_in_ms() { Some(v) => v, None => 10000 })
                    &&& c.max_reserve_segments == (match self.spec_max_reserve_segments() { Some(v) => v, None => 12 })
                    &&& c.max_active_flushes == (match self.spec_max_active_flushes() { Some(v) => v, None => 0 })
                    &&& c.sync_mode == (match self.spec_sync_mode() { Some(v) => v, None => SyncMode::Batch })
                },
                Err(e) => e == ConfigError::MissingCommitLogLocation && self.spec_location() is None,
            },
    {
        let location = match &self.commit_log_location {
            Some(l) => l.clone(),
            None => return Err(ConfigError::MissingCommitLogLocation),
        };
        Ok(Config {
            commit_log_location: location,
            commitlog_total_space_in_mb: match self.commitlog_total_space_in_mb { Some(v) => v, None => 100 },
            commitlog_segment_size_in_mb: match self.commitlog_segment_size_in_mb { Some(v) => v, None => 32 },
            commitlog_sync_period_in_ms: match self.commitlog_sync_period_in_ms { Some(v) => v, None => 10 * 1000 },
            max_reserve_segments: match self.max_reserve_segments { Some(v) => v, None => 12 },
            max_active_flushes: match self.max_active_flushes { Some(v) => v, None => 0 },
            sync_mode: match self.sync_mode { Some(v) => v, None => SyncMode::Batch },
        })
    }
}

} // verus!
