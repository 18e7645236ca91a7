//! Dividing the machine's memory and processing units among shards.
//!
//! Each processing unit becomes a shard with an equal share of the memory,
//! and each shard gets its own I/O queue, with the I/O request budget shared
//! equally among them.
use vstd::prelude::*;
use std::collections::HashSet;

verus! {

pub type CpuId = u32;

/// Memory is never reserved down to less than this many bytes.
pub const MIN_MEMORY: usize = 500_000_000;

/// I/O requests allowed per queue when the configuration sets no budget.
pub const DEFAULT_IO_REQUESTS_PER_QUEUE: usize = 128;

/// Memory given to a shard, on a NUMA node.
#[derive(Debug, Clone, Copy, PartialEq, Eq, Structural)]
pub struct Memory {
    pub bytes: usize,
    pub nodeid: u32,
}

/// A shard: the processing unit it runs on and the memory it owns.
#[derive(Debug)]
pub struct Cpu {
    pub cpu_id: CpuId,
    pub mem: Vec<Memory>,
}

/// An I/O queue and the number of requests it may have in flight.
#[derive(Debug, Clone, Copy, PartialEq, Eq, Structural)]
pub struct IoQueue {
    pub id: usize,
    pub capacity: usize,
}

#[derive(Debug)]
pub enum ResourcesError {
    /// The topology gave no single depth for a kind of object; its error
    /// code.
    TypeDepth(i32),
    /// The machine depth (first) holds a number of objects (second) other
    /// than the one expected (third).
    UnexpectedSizeAtDepth(u32, usize, usize),
    /// The memory asked for (first) exceeds the memory available (second).
    InsufficientPhysicalMemory(usize, usize),
    /// The processing units asked for (first) exceed those available (second).
    InsufficientProcessingUnits(usize, usize),
    /// The number of processing units could not be read; the code returned.
    ProcessingUnitsUnknown(i64),
}

/// What the caller asks of the machine; every field is optional.
#[derive(Debug)]
pub struct Configuration {
    total_memory: Option<usize>,
    reserve_memory: Option<usize>,
    cpus: Option<usize>,
    cpu_set: Option<HashSet<CpuId>>,
    max_io_requests: Option<usize>,
    io_queues: Option<usize>,
}

/// Copies a set of processing units.
#[verifier::external_body]
fn clone_cpu_set(s: &HashSet<CpuId>) -> (r: HashSet<CpuId>)
    ensures
        r@ == s@,
{
    s.clone()
}

impl Configuration {
    pub closed spec fn spec_total_memory(&self) -> Option<usize> {
        self.total_memory
    }

    pub closed spec fn spec_reserve_memory(&self) -> Option<usize> {
        self.reserve_memory
    }

    pub closed spec fn spec_cpus(&self) -> Option<usize> {
        self.cpus
    }

    /// The set of processing units, if one was given.
    pub closed spec fn spec_cpu_set(&self) -> Option<Set<CpuId>> {
        match self.cpu_set {
            Some(s) => Some(s@),
            None => None,
        }
    }

    /// The number of processing units in the set, if one was given.
    pub closed spec fn spec_cpu_set_len(&self) -> Option<usize> {
        match self.cpu_set {
            Some(s) => Some(s.len()),
            None => None,
        }
    }

    pub closed spec fn spec_max_io_requests(&self) -> Option<usize> {
        self.max_io_requests
    }

    pub closed spec fn spec_io_queues(&self) -> Option<usize> {
        self.io_queues
    }

    /// Every field unset.
    pub open spec fn is_blank(&self) -> bool {
        &&& self.spec_total_memory() is None
        &&& self.spec_reserve_memory() is None
        &&& self.spec_cpus() is None
        &&& self.spec_cpu_set() is None
        &&& self.spec_cpu_set_len() is None
        &&& self.spec_max_io_requests() is None
        &&& self.spec_io_queues() is None
    }

    /// The same settings, except perhaps for the field numbered `skip`
    /// (0 to 5, in the order of the setters below).
    pub open spec fn same_except(&self, other: &Configuration, skip: int) -> bool {
        &&& skip != 0 ==> self.spec_total_memory() == other.spec_total_memory()
        &&& skip != 1 ==> self.spec_reserve_memory() == other.spec_reserve_memory()
        &&& skip != 2 ==> self.spec_cpus() == other.spec_cpus()
        &&& skip != 3 ==> self.spec_cpu_set() == other.spec_cpu_set()
        &&& skip != 3 ==> self.spec_cpu_set_len() == other.spec_cpu_set_len()
        &&& skip != 4 ==> self.spec_max_io_requests() == other.spec_max_io_requests()
        &&& skip != 5 ==> self.spec_io_queues() == other.spec_io_queues()
    }

    /// The same settings.
    pub open spec fn same_as(&self, other: &Configuration) -> bool {
        self.same_except(other, -1)
    }

    pub fn get_total_memory(&self) -> (r: Option<usize>)
        ensures
            r == self.spec_total_memory(),
    {
        self.total_memory
    }

    pub fn get_reserve_memory(&self) -> (r: Option<usize>)
        ensures
            r == self.spec_reserve_memory(),
    {
        self.reserve_memory
    }

    pub fn get_cpus(&self) -> (r: Option<usize>)
        ensures
            r == self.spec_cpus(),
    {
        self.cpus
    }

    pub fn get_cpu_set(&self) -> (r: Option<&HashSet<CpuId>>)
        ensures
            match r {
                Some(s) => self.spec_cpu_set() == Some(s@) && self.spec_cpu_set_len() == Some(s.len()),
                None => self.spec_cpu_set() is None && self.spec_cpu_set_len() is None,
            },
    {
        match &self.cpu_set {
            Some(s) => Some(s),
            None => None,
        }
    }

    pub fn get_max_io_requests(&self) -> (r: Option<usize>)
        ensures
            r == self.spec_max_io_requests(),
    {
        self.max_io_requests
    }

    pub fn get_io_queues(&self) -> (r: Option<usize>)
        ensures
            r == self.spec_io_queues(),
    {
        self.io_queues
    }

    /// A copy of this configuration.
    pub fn build(&self) -> (c: Configuration)
        ensures
            c.same_as(self),
    {
        let cpu_set = match &self.cpu_set {
            Some(s) => Some(clone_cpu_set(s)),
            None => None,
        };
        let c = Configuration {
            total_memory: self.total_memory,
            reserve_memory: self.reserve_memory,
            cpus: self.cpus,
            cpu_set,
            max_io_requests: self.max_io_requests,
            io_queues: self.io_queues,
        };
        c
    }

    /// The memory, in bytes, to give the shards; else what is available
    /// after the reserve.
    pub fn total_memory(self, v: Option<usize>) -> (c: Configuration)
        ensures
            c.spec_total_memory() == v,
            c.same_except(&self, 0),
    {
        Configuration { total_memory: v, ..self }
    }

    /// The memory, in bytes, to leave to the system when `total_memory` is unset.
    pub fn reserve_memory(self, v: Option<usize>) -> (c: Configuration)
        ensures
            c.spec_reserve_memory() == v,
            c.same_except(&self, 1),
    {
        Configuration { reserve_memory: v, ..self }
    }

    /// The number of shards.
    pub fn cpus(self, v: Option<usize>) -> (c: Configuration)
        ensures
            c.spec_cpus() == v,
            c.same_except(&self, 2),
    {
        Configuration { cpus: v, ..self }
    }

    /// The processing units to run on.
    pub fn cpu_set(self, v: Option<HashSet<CpuId>>) -> (c: Configuration)
        ensures
            c.spec_cpu_set() == (match v {
                Some(s) => Some(s@),
                None => None::<Set<CpuId>>,
            }),
            c.same_except(&self, 3),
    {
        Configuration { cpu_set: v, ..self }
    }

    /// The I/O requests allowed in flight, over all queues.
    pub fn max_io_requests(self, v: Option<usize>) -> (c: Configuration)
        ensures
            c.spec_max_io_requests() == v,
            c.same_except(&self, 4),
    {
        Configuration { max_io_requests: v, ..self }
    }

    /// The number of I/O queues.
    pub fn io_queues(self, v: Option<usize>) -> (c: Configuration)
        ensures
            c.spec_io_queues() == v,
            c.same_except(&self, 5),
    {
        Configuration { io_queues: v, ..self }
    }
}

impl Default for Configuration {
    fn default() -> (c: Configuration)
        ensures
            c.is_blank(),
    {
        Configuration {
            total_memory: None,
            reserve_memory: None,
            cpus: None,
            cpu_set: None,
            max_io_requests: None,
            io_queues: None,
        }
    }
}


/// Where each shard sends its I/O, and the queues themselves.
#[derive(Debug)]
pub struct IoQueueTopology {
    shard_to_coordinator: Vec<usize>,
    coordinators: Vec<IoQueue>,
}

impl IoQueueTopology {
    pub closed spec fn spec_shard_to_coordinator(&self) -> Seq<usize> {
        self.shard_to_coordinator@
    }

    pub closed spec fn spec_coordinators(&self) -> Seq<IoQueue> {
        self.coordinators@
    }

    pub fn new() -> (t: IoQueueTopology)
        ensures
            t.spec_shard_to_coordinator() == Seq::<usize>::empty(),
            t.spec_coordinators() == Seq::<IoQueue>::empty(),
    {
        IoQueueTopology { shard_to_coordinator: Vec::new(), coordinators: Vec::new() }
    }

    pub fn get_shard_to_coordinator(&self) -> (r: &Vec<usize>)
        ensures
            r@ == self.spec_shard_to_coordinator(),
    {
        &self.shard_to_coordinator
    }

    pub fn get_coordinators(&self) -> (r: &Vec<IoQueue>)
        ensures
            r@ == self.spec_coordinators(),
    {
        &self.coordinators
    }

    pub fn get_shard_to_coordinator_mut(&mut self) -> (r: &mut Vec<usize>)
        ensures
            r@ == old(self).spec_shard_to_coordinator(),
            final(self).spec_shard_to_coordinator() == final(r)@,
            final(self).spec_coordinators() == old(self).spec_coordinators(),
    {
        &mut self.shard_to_coordinator
    }

    pub fn get_coordinators_mut(&mut self) -> (r: &mut Vec<IoQueue>)
        ensures
            r@ == old(self).spec_coordinators(),
            final(self).spec_coordinators() == final(r)@,
            final(self).spec_shard_to_coordinator() == old(self).spec_shard_to_coordinator(),
    {
        &mut self.coordinators
    }
}

/// The shards and their I/O queues.
#[derive(Debug)]
pub struct Resources {
    cpus: Vec<Cpu>,
    io_queues: IoQueueTopology,
}

impl Resources {
    pub closed spec fn spec_cpus(&self) -> Seq<Cpu> {
        self.cpus@
    }

    pub closed spec fn spec_io_queues(&self) -> IoQueueTopology {
        self.io_queues
    }

    pub fn get_cpus(&self) -> (r: &Vec<Cpu>)
        ensures
            r@ == self.spec_cpus(),
    {
        &self.cpus
    }

    pub fn get_cpus_mut(&mut self) -> (r: &mut Vec<Cpu>)
        ensures
            r@ == old(self).spec_cpus(),
            final(self).spec_cpus() == final(r)@,
            final(self).spec_io_queues() == old(self).spec_io_queues(),
    {
        &mut self.cpus
    }

    pub fn get_io_queues(&self) -> (r: &IoQueueTopology)
        ensures
            *r == self.spec_io_queues(),
    {
        &self.io_queues
    }
}

/// The reserve: the configured one, else `default_reserve_memory`.
pub open spec fn reserve_for(c: &Configuration, default_reserve_memory: usize) -> usize {
    match c.spec_reserve_memory() {
        Some(r) => r,
        None => default_reserve_memory,
    }
}

/// The memory left for the shards once the reserve is set aside, but never
/// less than `MIN_MEMORY`.
pub open spec fn usable_memory(available_memory: usize, reserve: usize) -> int {
    if available_memory >= reserve + MIN_MEMORY {
        available_memory - reserve
    } else {
        MIN_MEMORY as int
    }
}

/// The memory to give the shards: the configured total if it fits in the
/// usable memory, else all the usable memory when no total is configured.
pub open spec fn memory_outcome(
    c: &Configuration,
    available_memory: usize,
    default_reserve_memory: usize,
) -> Result<usize, (usize, usize)> {
    let usable = usable_memory(available_memory, reserve_for(c, default_reserve_memory)) as usize;
    let mem = match c.spec_total_memory() {
        Some(t) => t,
        None => usable,
    };
    if mem > usable {
        Err((mem, usable))
    } else {
        Ok(mem)
    }
}

/// A configured reserve is what is set aside, whatever the default: with
/// no total configured and room for the reserve and the minimum, the shards
/// get everything but the configured reserve; with no reserve configured,
/// everything but the default one; without room, the minimum.  A
/// configured total is what the shards get, when they get anything.
pub proof fn lemma_reserve_is_set_aside(c: &Configuration, available_memory: usize, default_reserve_memory: usize)
    ensures
        c.spec_reserve_memory() matches Some(r) ==> (c.spec_total_memory() is None && available_memory >= r
            + MIN_MEMORY ==> memory_outcome(c, available_memory, default_reserve_memory) == Ok::<
            usize,
            (usize, usize),
        >((available_memory - r) as usize)),
        c.spec_reserve_memory() is None && c.spec_total_memory() is None && available_memory
            >= default_reserve_memory + MIN_MEMORY ==> memory_outcome(c, available_memory, default_reserve_memory)
            == Ok::<usize, (usize, usize)>((available_memory - default_reserve_memory) as usize),
        c.spec_reserve_memory() matches Some(r) ==> (c.spec_total_memory() is None && available_memory < r
            + MIN_MEMORY ==> memory_outcome(c, available_memory, default_reserve_memory) == Ok::<
            usize,
            (usize, usize),
        >(MIN_MEMORY)),
        c.spec_total_memory() matches Some(t) ==> (memory_outcome(c, available_memory, default_reserve_memory) matches Ok(m)
            ==> m == t),
        (memory_outcome(c, available_memory, default_reserve_memory) matches Ok(m) ==> m <= available_memory
            || m <= MIN_MEMORY),
{
}

/// How much memory the shards get, out of `available_memory` bytes, when
/// the reserve defaults to `default_reserve_memory` bytes.  Fails with
/// `InsufficientPhysicalMemory(asked, usable)` when the configured total
/// exceeds the usable memory.
pub fn calculate_memory(c: &Configuration, available_memory: usize, default_reserve_memory: usize) -> (r: Result<usize, ResourcesError>)
    requires
        reserve_for(c, default_reserve_memory) + MIN_MEMORY <= usize::MAX,
    ensures
        match (r, memory_outcome(c, available_memory, default_reserve_memory)) {
            (Ok(m), Ok(n)) => m == n,
            (Err(ResourcesError::InsufficientPhysicalMemory(a, b)), Err((x, y))) => a == x && b == y,
            _ => false,
        },
        c.spec_reserve_memory() matches Some(res) ==> (c.spec_total_memory() is None && available_memory
            >= res + MIN_MEMORY ==> (r matches Ok(m) && m == available_memory - res)),
        c.spec_reserve_memory() is None && c.spec_total_memory() is None && available_memory
            >= default_reserve_memory + MIN_MEMORY ==> (r matches Ok(m) && m == available_memory
            - default_reserve_memory),
        c.spec_reserve_memory() matches Some(res) ==> (c.spec_total_memory() is None && available_memory
            < res + MIN_MEMORY ==> (r matches Ok(m) && m == MIN_MEMORY)),
        c.spec_total_memory() matches Some(t) ==> (r matches Ok(m) ==> m == t),
{
    let reserve = match c.get_reserve_memory() {
        Some(r) => r,
        None => default_reserve_memory,
    };
    let usable = if available_memory >= reserve + MIN_MEMORY {
        available_memory - reserve
    } else {
        MIN_MEMORY
    };
    let mem = match c.get_total_memory() {
        Some(t) => t,
        None => usable,
    };
    if mem > usable {
        Err(ResourcesError::InsufficientPhysicalMemory(mem, usable))
    } else {
        Ok(mem)
    }
}

/// The memory that the platform reports as available.  On Linux the
/// figure is not read from the system: it is one byte, which leaves the
/// shards `MIN_MEMORY` bytes unless a total is configured.
pub fn get_available_memory() -> (r: Result<usize, ResourcesError>)
    ensures
        r matches Ok(m) && m == 1,
{
    Ok(1)
}

/// The request budget of the I/O queues: the configured one, else
/// `DEFAULT_IO_REQUESTS_PER_QUEUE` for each of `nr_cpus` queues.
pub open spec fn io_request_budget(c: &Configuration, nr_cpus: nat) -> int {
    match c.spec_max_io_requests() {
        Some(m) => m as int,
        None => DEFAULT_IO_REQUESTS_PER_QUEUE * nr_cpus,
    }
}

/// With no request budget configured, every queue may have
/// `DEFAULT_IO_REQUESTS_PER_QUEUE` requests in flight, whatever the other
/// settings: the budget is that many per processing unit.
pub proof fn lemma_default_budget_per_queue(c: &Configuration, nr_cpus: nat)
    ensures
        c.spec_max_io_requests() is None && nr_cpus >= 1 ==> io_request_budget(c, nr_cpus) / (nr_cpus as int)
            == DEFAULT_IO_REQUESTS_PER_QUEUE,
        c.spec_max_io_requests() is None ==> io_request_budget(c, nr_cpus) == DEFAULT_IO_REQUESTS_PER_QUEUE
            * nr_cpus,
        c.spec_max_io_requests() matches Some(m) ==> io_request_budget(c, nr_cpus) == m,
{
    if c.spec_max_io_requests() is None && nr_cpus >= 1 {
        vstd::arithmetic::div_mod::lemma_div_multiples_vanish(
            DEFAULT_IO_REQUESTS_PER_QUEUE as int,
            nr_cpus as int,
        );
        assert(DEFAULT_IO_REQUESTS_PER_QUEUE * nr_cpus == nr_cpus * DEFAULT_IO_REQUESTS_PER_QUEUE) by (nonlinear_arith);
    }
}

/// One I/O queue per shard, each shard its own coordinator, and the request
/// budget shared equally among the queues, each getting at least one.
pub fn allocate_io_queues(c: &Configuration, cpus: &Vec<Cpu>) -> (t: IoQueueTopology)
    requires
        io_request_budget(c, cpus@.len()) <= usize::MAX,
    ensures
        t.spec_shard_to_coordinator().len() == cpus@.len(),
        t.spec_coordinators().len() == cpus@.len(),
        forall|i: int| 0 <= i < cpus@.len() ==> #[trigger] t.spec_shard_to_coordinator()[i] == i,
        forall|i: int| 0 <= i < cpus@.len() ==> #[trigger] t.spec_coordinators()[i] == (IoQueue {
            id: i as usize,
            capacity: if io_request_budget(c, cpus@.len()) / (cpus@.len() as int) >= 1 {
                (io_request_budget(c, cpus@.len()) / (cpus@.len() as int)) as usize
            } else {
                1
            },
        }),
        c.spec_max_io_requests() is None ==> forall|i: int| 0 <= i < cpus@.len()
            ==> #[trigger] t.spec_coordinators()[i].capacity == DEFAULT_IO_REQUESTS_PER_QUEUE,
        c.spec_max_io_requests() matches Some(m) ==> forall|i: int| 0 <= i < cpus@.len()
            ==> #[trigger] t.spec_coordinators()[i].capacity == (if (m as int) / (cpus@.len() as int) >= 1 {
                (m as int) / (cpus@.len() as int)
            } else {
                1
            }),
{
    proof {
        if cpus@.len() >= 1 {
            vstd::arithmetic::div_mod::lemma_div_multiples_vanish(
                DEFAULT_IO_REQUESTS_PER_QUEUE as int,
                cpus@.len() as int,
            );
            assert(DEFAULT_IO_REQUESTS_PER_QUEUE * cpus@.len() == cpus@.len() * DEFAULT_IO_REQUESTS_PER_QUEUE)
                by (nonlinear_arith);
        }
    }
    let mut ret = IoQueueTopology::new();
    let nr_cpus = cpus.len();
    let max_io_requests = match c.get_max_io_requests() {
        Some(m) => m,
        None => DEFAULT_IO_REQUESTS_PER_QUEUE * nr_cpus,
    };
    ret.get_shard_to_coordinator_mut().reserve(nr_cpus);
    ret.get_coordinators_mut().reserve(nr_cpus);
    let mut shard: usize = 0;
    while shard < nr_cpus
        invariant
            shard <= nr_cpus,
            nr_cpus == cpus@.len(),
            max_io_requests == io_request_budget(c, cpus@.len()),
            ret.spec_shard_to_coordinator().len() == shard,
            ret.spec_coordinators().len() == shard,
            forall|i: int| 0 <= i < shard ==> #[trigger] ret.spec_shard_to_coordinator()[i] == i,
            forall|i: int| 0 <= i < shard ==> #[trigger] ret.spec_coordinators()[i] == (IoQueue {
                id: i as usize,
                capacity: if max_io_requests / nr_cpus >= 1 { max_io_requests / nr_cpus } else { 1 },
            }),
        decreases nr_cpus - shard,
    {
        ret.get_shard_to_coordinator_mut().push(shard);
        let share = max_io_requests / nr_cpus;
        let capacity = if share >= 1 { share } else { 1 };
        ret.get_coordinators_mut().push(IoQueue { id: shard, capacity });
        shard = shard + 1;
    }
    ret
}

/// A configured shard count is the number of shards, whatever processor
/// set is configured; the set's size counts only when no count is
/// configured, and the processing units online only when neither is.
pub proof fn lemma_configured_shard_count_wins(c: &Configuration, processing_units: usize)
    ensures
        c.spec_cpus() matches Some(n) ==> shard_count(c, processing_units) == n,
        c.spec_cpus() is None ==> (c.spec_cpu_set_len() matches Some(k) ==> shard_count(c, processing_units) == k),
        c.spec_cpus() is None && c.spec_cpu_set_len() is None ==> shard_count(c, processing_units)
            == processing_units,
{
}

/// The number of shards: the configured count, else the size of the
/// configured processor set, else `processing_units`.
pub open spec fn shard_count(c: &Configuration, processing_units: usize) -> usize {
    match c.spec_cpus() {
        Some(n) => n,
        None => match c.spec_cpu_set_len() {
            Some(n) => n,
            None => processing_units,
        },
    }
}

/// `procs` shards, shard `i` on processing unit `i` (as a 32-bit id) with
/// `mem / procs` bytes on node 0, each its own I/O coordinator, with the
/// request budget shared equally among the queues, each getting at least one.
pub open spec fn shards_as_planned(res: &Resources, c: &Configuration, mem: usize, procs: usize) -> bool {
    &&& res.spec_cpus().len() == procs
    &&& forall|i: int| 0 <= i < procs ==> #[trigger] res.spec_cpus()[i].cpu_id == i as u32
    &&& forall|i: int| 0 <= i < procs ==> #[trigger] res.spec_cpus()[i].mem@ == seq![Memory { bytes: (mem / procs) as usize, nodeid: 0 }]
    &&& res.spec_io_queues().spec_shard_to_coordinator().len() == procs
    &&& res.spec_io_queues().spec_coordinators().len() == procs
    &&& forall|i: int| 0 <= i < procs ==> #[trigger] res.spec_io_queues().spec_shard_to_coordinator()[i] == i
    &&& forall|i: int| 0 <= i < procs ==> #[trigger] res.spec_io_queues().spec_coordinators()[i] == (IoQueue {
        id: i as usize,
        capacity: if io_request_budget(c, procs as nat) / (procs as int) >= 1 {
            (io_request_budget(c, procs as nat) / (procs as int)) as usize
        } else {
            1
        },
    })
}

/// Divides the machine among shards.  `available_memory` and
/// `default_reserve_memory` are as for `calculate_memory`;
/// `processing_units` is the number of processing units online, used when
/// the configuration names neither a shard count nor a processor set.
/// Shard `i` runs on processing unit `i` and gets an equal share of the
/// memory on node 0.
pub fn allocate(
    c: Configuration,
    available_memory: usize,
    default_reserve_memory: usize,
    processing_units: usize,
) -> (r: Result<Resources, ResourcesError>)
    requires
        reserve_for(&c, default_reserve_memory) + MIN_MEMORY <= usize::MAX,
        io_request_budget(&c, shard_count(&c, processing_units) as nat) <= usize::MAX,
    ensures
        r is Ok <==> memory_outcome(&c, available_memory, default_reserve_memory) is Ok,
        r matches Err(e) ==> memory_outcome(&c, available_memory, default_reserve_memory) matches Err((x, y))
            && e == ResourcesError::InsufficientPhysicalMemory(x, y),
        r matches Ok(res) ==> shards_as_planned(
            &res,
            &c,
            memory_outcome(&c, available_memory, default_reserve_memory)->Ok_0,
            shard_count(&c, processing_units),
        ),
        c.spec_cpus() matches Some(n) ==> (r matches Ok(res) ==> res.spec_cpus().len() == n),
        c.spec_cpus() is None ==> (c.spec_cpu_set_len() matches Some(k) ==> (r matches Ok(res)
            ==> res.spec_cpus().len() == k)),
        c.spec_cpus() is None && c.spec_cpu_set_len() is None ==> (r matches Ok(res)
            ==> res.spec_cpus().len() == processing_units),
        r matches Ok(res) ==> res.spec_io_queues().spec_coordinators().len() == res.spec_cpus().len(),
        c.spec_max_io_requests() is None ==> (r matches Ok(res) ==> forall|i: int|
            0 <= i < res.spec_cpus().len() ==> #[trigger] res.spec_io_queues().spec_coordinators()[i].capacity
                == DEFAULT_IO_REQUESTS_PER_QUEUE),
{
    let mem = match calculate_memory(&c, available_memory, default_reserve_memory) {
        Ok(m) => m,
        Err(e) => return Err(e),
    };
    let cpuset_procs = match c.get_cpu_set() {
        Some(cpu_set) => cpu_set.len(),
        None => processing_units,
    };
    let procs = match c.get_cpus() {
        Some(n) => n,
        None => cpuset_procs,
    };
    let mut cpus: Vec<Cpu> = Vec::with_capacity(procs);
    let mut cpu_id: usize = 0;
    while cpu_id < procs
        invariant
            cpu_id <= procs,
            cpus@.len() == cpu_id,
            forall|i: int| 0 <= i < cpu_id ==> #[trigger] cpus@[i].cpu_id == i as u32,
            forall|i: int| 0 <= i < cpu_id ==> #[trigger] cpus@[i].mem@ == seq![Memory { bytes: (mem / procs) as usize, nodeid: 0 }],
        decreases procs - cpu_id,
    {
        let memory = Memory { bytes: mem / procs, nodeid: 0 };
        let mut mems: Vec<Memory> = Vec::new();
        mems.push(memory);
        proof {
            assert(mems@ =~= seq![Memory { bytes: (mem / procs) as usize, nodeid: 0 }]);
        }
        cpus.push(Cpu { cpu_id: #[verifier::truncate] (cpu_id as u32), mem: mems });
        cpu_id = cpu_id + 1;
    }
    assert(procs == shard_count(&c, processing_units));
    let io_queues = allocate_io_queues(&c, &cpus);
    let res = Resources { cpus, io_queues };
    assert(shards_as_planned(&res, &c, mem, procs));
    Ok(res)
}

} // verus!
