use starfish::resources::{Configuration, ResourcesError};
use starfish::topology::{allocate, find_memory_depth, Topology};

const GIB: usize = 1 << 30;

fn machine(memory: usize, pus: usize) -> Topology {
    Topology {
        machine_depth: Ok(0),
        machines_at_depth: 1,
        machine_memory: memory,
        pu_depth: Ok(3),
        processing_units: Ok(pus),
    }
}

#[test]
fn one_machine_with_enough_of_everything() {
    assert_eq!(allocate(Configuration::default(), &machine(8 * GIB, 4), GIB).unwrap(), 1);
    let c = Configuration::default().cpus(Some(4)).total_memory(Some(7 * GIB));
    assert_eq!(allocate(c, &machine(8 * GIB, 4), GIB).unwrap(), 1);
}

#[test]
fn machine_level_must_hold_one_machine() {
    let t = Topology { machines_at_depth: 2, machine_depth: Ok(1), ..machine(8 * GIB, 4) };
    match allocate(Configuration::default(), &t, GIB) {
        Err(ResourcesError::UnexpectedSizeAtDepth(depth, actual, expected)) => {
            assert_eq!((depth, actual, expected), (1, 2, 1));
        }
        other => panic!("unexpected {:?}", other),
    }
    let t = Topology { machine_depth: Err(-2), ..machine(8 * GIB, 4) };
    assert!(matches!(allocate(Configuration::default(), &t, GIB), Err(ResourcesError::TypeDepth(-2))));
}

#[test]
fn memory_is_checked_before_processing_units() {
    let c = Configuration::default().total_memory(Some(8 * GIB)).cpus(Some(9));
    match allocate(c, &machine(8 * GIB, 4), GIB) {
        Err(ResourcesError::InsufficientPhysicalMemory(asked, usable)) => {
            assert_eq!((asked, usable), (8 * GIB, 7 * GIB));
        }
        other => panic!("unexpected {:?}", other),
    }
}

#[test]
fn no_more_shards_than_processing_units() {
    let c = Configuration::default().cpus(Some(5));
    match allocate(c, &machine(8 * GIB, 4), GIB) {
        Err(ResourcesError::InsufficientProcessingUnits(asked, available)) => {
            assert_eq!((asked, available), (5, 4));
        }
        other => panic!("unexpected {:?}", other),
    }
    let t = Topology { processing_units: Err(-1), ..machine(8 * GIB, 4) };
    assert!(matches!(allocate(Configuration::default(), &t, GIB), Err(ResourcesError::TypeDepth(-1))));
}

#[test]
fn memory_depth_needs_the_processing_unit_depth() {
    assert_eq!(find_memory_depth(&machine(GIB, 1)).unwrap(), 1);
    let t = Topology { pu_depth: Err(-1), ..machine(GIB, 1) };
    assert!(matches!(find_memory_depth(&t), Err(ResourcesError::TypeDepth(-1))));
}
