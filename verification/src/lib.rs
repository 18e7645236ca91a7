pub mod align;
pub mod semaphore;
pub mod flush_queue;
pub mod descriptor;
pub mod resources;
pub mod admission;
pub mod crc;
pub mod segment;
pub mod commitlog;
pub mod segment_manager;
pub mod executor;
pub mod smp;
pub mod reactor;
pub mod topology;
