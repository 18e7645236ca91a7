use starfish::resources::{
    allocate, allocate_io_queues, calculate_memory, get_available_memory, Configuration, Cpu, IoQueue,
    Memory, ResourcesError, MIN_MEMORY,
};
use std::collections::HashSet;

const GIB: usize = 1 << 30;

#[test]
fn configuration_setters_and_getters() {
    let set: HashSet<u32> = vec![0, 1].into_iter().collect();
    let c = Configuration::default()
        .cpu_set(Some(set.clone()))
        .cpus(Some(2))
        .total_memory(Some(17))
        .reserve_memory(Some(3))
        .max_io_requests(Some(64))
        .io_queues(Some(4));
    assert_eq!(c.get_cpus(), Some(2));
    assert_eq!(c.get_cpu_set(), Some(&set));
    assert_eq!(c.get_total_memory(), Some(17));
    assert_eq!(c.get_reserve_memory(), Some(3));
    assert_eq!(c.get_max_io_requests(), Some(64));
    assert_eq!(c.get_io_queues(), Some(4));
    let copy = c.build();
    assert_eq!(copy.get_cpu_set(), Some(&set));
    assert_eq!(copy.get_total_memory(), Some(17));
    let blank = Configuration::default();
    assert_eq!(blank.get_cpus(), None);
    assert_eq!(blank.get_cpu_set(), None);
}

#[test]
fn memory_after_the_reserve() {
    let c = Configuration::default();
    // 4 GiB available, 1 GiB reserved.
    assert_eq!(calculate_memory(&c, 4 * GIB, GIB).unwrap(), 3 * GIB);
    // Too little for the reserve: the minimum is used.
    assert_eq!(calculate_memory(&c, GIB, GIB).unwrap(), MIN_MEMORY);
    assert_eq!(calculate_memory(&c, 1, GIB).unwrap(), MIN_MEMORY);
    // A configured reserve wins over the default.
    let c = Configuration::default().reserve_memory(Some(0));
    assert_eq!(calculate_memory(&c, 4 * GIB, GIB).unwrap(), 4 * GIB);
}

#[test]
fn configured_total_memory() {
    let c = Configuration::default().total_memory(Some(2 * GIB));
    assert_eq!(calculate_memory(&c, 4 * GIB, GIB).unwrap(), 2 * GIB);
    match calculate_memory(&c, 2 * GIB, GIB) {
        Err(ResourcesError::InsufficientPhysicalMemory(asked, usable)) => {
            assert_eq!(asked, 2 * GIB);
            assert_eq!(usable, GIB);
        }
        other => panic!("unexpected {:?}", other),
    }
}

#[test]
fn available_memory_on_linux() {
    assert_eq!(get_available_memory().unwrap(), 1);
}

fn cpus(n: u32) -> Vec<Cpu> {
    (0..n).map(|i| Cpu { cpu_id: i, mem: vec![] }).collect()
}

#[test]
fn io_queues_share_the_budget() {
    let t = allocate_io_queues(&Configuration::default(), &cpus(4));
    assert_eq!(t.get_shard_to_coordinator(), &vec![0, 1, 2, 3]);
    assert_eq!(
        t.get_coordinators(),
        &vec![
            IoQueue { id: 0, capacity: 128 },
            IoQueue { id: 1, capacity: 128 },
            IoQueue { id: 2, capacity: 128 },
            IoQueue { id: 3, capacity: 128 },
        ]
    );
    let c = Configuration::default().max_io_requests(Some(10));
    let t = allocate_io_queues(&c, &cpus(4));
    assert!(t.get_coordinators().iter().all(|q| q.capacity == 2));
    let c = Configuration::default().max_io_requests(Some(2));
    let t = allocate_io_queues(&c, &cpus(4));
    assert!(t.get_coordinators().iter().all(|q| q.capacity == 1));
    let t = allocate_io_queues(&c, &cpus(0));
    assert!(t.get_coordinators().is_empty());
}

#[test]
fn allocate_gives_each_shard_a_share() {
    let set: HashSet<u32> = vec![0, 1].into_iter().collect();
    let c = Configuration::default().cpu_set(Some(set)).cpus(Some(2));
    let r = allocate(c, 1, GIB, 8).unwrap();
    let cpus = r.get_cpus();
    assert_eq!(cpus.len(), 2);
    for (i, cpu) in cpus.iter().enumerate() {
        assert_eq!(cpu.cpu_id, i as u32);
        assert_eq!(cpu.mem, vec![Memory { bytes: MIN_MEMORY / 2, nodeid: 0 }]);
    }
    assert_eq!(r.get_io_queues().get_shard_to_coordinator(), &vec![0, 1]);
    assert_eq!(r.get_io_queues().get_coordinators()[1], IoQueue { id: 1, capacity: 128 });
}

#[test]
fn allocate_counts_the_cpu_set_then_the_machine() {
    let set: HashSet<u32> = vec![3, 5, 7].into_iter().collect();
    let r = allocate(Configuration::default().cpu_set(Some(set)), 1, GIB, 8).unwrap();
    assert_eq!(r.get_cpus().len(), 3);
    let r = allocate(Configuration::default(), 1, GIB, 8).unwrap();
    assert_eq!(r.get_cpus().len(), 8);
    assert_eq!(r.get_cpus()[7].mem[0].bytes, MIN_MEMORY / 8);
}

#[test]
fn allocate_refuses_too_much_memory() {
    let c = Configuration::default().total_memory(Some(MIN_MEMORY + 1));
    match allocate(c, 1, GIB, 8) {
        Err(ResourcesError::InsufficientPhysicalMemory(a, b)) => {
            assert_eq!(a, MIN_MEMORY + 1);
            assert_eq!(b, MIN_MEMORY);
        }
        other => panic!("unexpected {:?}", other),
    }
}

#[test]
fn resources_can_be_edited() {
    let mut r = allocate(Configuration::default().cpus(Some(1)), 1, GIB, 8).unwrap();
    r.get_cpus_mut().push(Cpu { cpu_id: 9, mem: vec![] });
    assert_eq!(r.get_cpus().len(), 2);
    let mut t = allocate_io_queues(&Configuration::default(), &cpus(1));
    t.get_shard_to_coordinator_mut().push(0);
    t.get_coordinators_mut().clear();
    assert_eq!(t.get_shard_to_coordinator().len(), 2);
    assert!(t.get_coordinators().is_empty());
}
