# starfish

Building blocks of a shard-per-core runtime and of a commit log, written in
Verus: every function in `src/` carries a contract, and Verus proves each of
them but two trusted wrappers of outside functions, `crc::checksum_ieee` and
the copy of a processor set in `resources`, whose contracts it takes on trust.

`src/` holds the verified library:

- `align`: rounding sizes to powers of two.
- `semaphore`: a counted semaphore that serves waiters in FIFO order and can
  be broken.
- `admission`: counts the requests in flight and refuses new ones once
  closed, waking the closer when the last one leaves.
- `executor`: the run queue of a single-threaded executor.
- `smp`: routing work between shards and the plan of the channels that link
  them.
- `reactor`: a reactor's start-up, once every shard has reported.
- `resources`, `topology`: dividing memory, processing units and I/O queues
  among shards.
- `commitlog`, `descriptor`, `segment`, `segment_manager`, `flush_queue`,
  `crc`: the commit log's configuration, file names, on-disk framing,
  segment bookkeeping and the ordering of flushes.

`app/` holds what runs around it: the thread-local executor that polls
futures, the futures-facing semaphore, the floating-point default memory
reserve and the system calls that read the machine.

`tests/` exercises the library on concrete values.
