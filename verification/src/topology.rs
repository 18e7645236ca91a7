//! Dividing a machine described by its hardware topology.
//!
//! The topology is read elsewhere; this module holds what the division reads
//! of it and checks it: the machine level must hold exactly one machine,
//! whose memory is shared as `calculate_memory` says, and no more shards may
//! be asked for than there are processing units.
use vstd::prelude::*;
use crate::align::align_down;
use crate::resources::{calculate_memory, memory_outcome, reserve_for, Configuration, ResourcesError, MIN_MEMORY};

verus! {

/// The objects that the machine level of a topology is expected to hold.
pub const EXPECTED_SIZE_AT_DEPTH: usize = 1;

/// The memory given to each shard is a multiple of this many bytes.
pub const SHARD_MEMORY_ALIGNMENT: usize = 2_097_152;

/// What the division reads of a hardware topology.
#[derive(Debug, Clone, Copy)]
pub struct Topology {
    /// The depth of the machine objects, or the topology's error code when
    /// it has no single one.
    pub machine_depth: Result<u32, i32>,
    /// The number of objects at the machine depth.
    pub machines_at_depth: usize,
    /// The total memory of the first machine object, in bytes.
    pub machine_memory: usize,
    /// The depth of the processing units, or the topology's error code
    /// when it has no single one.
    pub pu_depth: Result<u32, i32>,
    /// The number of processing units, or the topology's error code when
    /// their depth is not known.
    pub processing_units: Result<usize, i32>,
}

/// The depth at which memory is attached: the depth of the processing
/// units must be known, and the memory is taken to hang at depth 1.
pub fn find_memory_depth(topology: &Topology) -> (r: Result<usize, ResourcesError>)
    ensures
        topology.pu_depth is Ok ==> (r matches Ok(d) && d == 1),
        topology.pu_depth matches Err(code) ==> r == Err::<usize, ResourcesError>(ResourcesError::TypeDepth(code)),
{
    match topology.pu_depth {
        Ok(_) => Ok(1),
        Err(code) => Err(ResourcesError::TypeDepth(code)),
    }
}

/// The number of shards: the configured count, else one per processing unit.
pub open spec fn shards_on(c: &Configuration, processing_units: usize) -> usize {
    match c.spec_cpus() {
        Some(n) => n,
        None => processing_units,
    }
}

/// The outcome of dividing the machine, in the order of the checks: the
/// machine depth must be known and hold one machine; its memory must cover
/// the configured total; the processing units must be known and at least
/// as many as the shards.
pub open spec fn allocation_outcome(
    c: &Configuration,
    t: &Topology,
    default_reserve_memory: usize,
) -> Result<u32, ResourcesError> {
    match t.machine_depth {
        Err(code) => Err(ResourcesError::TypeDepth(code)),
        Ok(depth) => if t.machines_at_depth != EXPECTED_SIZE_AT_DEPTH {
            Err(ResourcesError::UnexpectedSizeAtDepth(depth, t.machines_at_depth, EXPECTED_SIZE_AT_DEPTH))
        } else {
            match memory_outcome(c, t.machine_memory, default_reserve_memory) {
                Err((asked, usable)) => Err(ResourcesError::InsufficientPhysicalMemory(asked, usable)),
                Ok(_) => match t.processing_units {
                    Err(code) => Err(ResourcesError::TypeDepth(code)),
                    Ok(pus) => if shards_on(c, pus) > pus {
                        Err(ResourcesError::InsufficientProcessingUnits(shards_on(c, pus), pus))
                    } else {
                        Ok(1)
                    },
                },
            }
        },
    }
}

/// Every check passed, so the memory is about to be shared among the shards.
pub open spec fn reaches_sharing(c: &Configuration, t: &Topology, default_reserve_memory: usize) -> bool {
    &&& t.machine_depth is Ok
    &&& t.machines_at_depth == EXPECTED_SIZE_AT_DEPTH
    &&& memory_outcome(c, t.machine_memory, default_reserve_memory) is Ok
    &&& t.processing_units is Ok
}

/// Checks that the machine described by `t` can be divided as `c` asks,
/// when the reserve defaults to `default_reserve_memory` bytes.  Succeeds
/// with 1; each failed check gives its error, as `allocation_outcome` says.
pub fn allocate(c: Configuration, t: &Topology, default_reserve_memory: usize) -> (r: Result<u32, ResourcesError>)
    requires
        reserve_for(&c, default_reserve_memory) + MIN_MEMORY <= usize::MAX,
        reaches_sharing(&c, t, default_reserve_memory) ==> shards_on(&c, t.processing_units->Ok_0) != 0,
    ensures
        r == allocation_outcome(&c, t, default_reserve_memory),
{
    let machine_depth = match t.machine_depth {
        Ok(d) => d,
        Err(code) => return Err(ResourcesError::TypeDepth(code)),
    };
    if t.machines_at_depth != EXPECTED_SIZE_AT_DEPTH {
        return Err(ResourcesError::UnexpectedSizeAtDepth(machine_depth, t.machines_at_depth, EXPECTED_SIZE_AT_DEPTH));
    }
    let mem = match calculate_memory(&c, t.machine_memory, default_reserve_memory) {
        Ok(m) => m,
        Err(e) => return Err(e),
    };
    let available_procs = match t.processing_units {
        Ok(n) => n,
        Err(code) => return Err(ResourcesError::TypeDepth(code)),
    };
    let procs = match c.get_cpus() {
        Some(n) => n,
        None => available_procs,
    };
    if procs > available_procs {
        return Err(ResourcesError::InsufficientProcessingUnits(procs, available_procs));
    }
    let _mem_per_proc = align_down(mem / procs, SHARD_MEMORY_ALIGNMENT);
    let _memory_depth = find_memory_depth(t);
    Ok(1)
}

} // verus!
