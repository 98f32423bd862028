use parts::gpt::{Gpt, Partition, TableError};

const MIB: u64 = 1024 * 1024;

fn part(uuid: u128, start: u64, end: u64) -> Partition {
    Partition { uuid, name: String::from("data"), part_type: 7, start, end }
}

#[test]
fn new_table_is_empty() {
    let gpt = Gpt::new(42, 100 * MIB, 512);
    assert_eq!(gpt.uuid(), 42);
    assert_eq!(gpt.disk_size(), 100 * MIB);
    assert_eq!(gpt.block_size(), 512);
    assert!(gpt.partitions().is_empty());
}

#[test]
fn add_partition_appends_in_order() {
    let mut gpt = Gpt::new(1, 100 * MIB, 512);
    assert_eq!(gpt.add_partition(part(10, 4096, 8191)), Ok(()));
    assert_eq!(gpt.add_partition(part(11, 2048, 4095)), Ok(()));
    let parts = gpt.partitions();
    assert_eq!(parts.len(), 2);
    assert_eq!(parts[0], part(10, 4096, 8191));
    assert_eq!(parts[1], part(11, 2048, 4095));
}

#[test]
fn add_partition_refuses_an_end_before_the_start() {
    let mut gpt = Gpt::new(1, 100 * MIB, 512);
    assert_eq!(gpt.add_partition(part(10, 4096, 4095)), Err(TableError::InvalidRange));
    assert!(gpt.partitions().is_empty());
}

#[test]
fn add_partition_refuses_a_start_off_the_block_boundary() {
    let mut gpt = Gpt::new(1, 100 * MIB, 512);
    assert_eq!(gpt.add_partition(part(10, 2049, 4095)), Err(TableError::Misaligned));
    assert!(gpt.partitions().is_empty());
}

#[test]
fn add_partition_refuses_an_end_inside_a_block() {
    let mut gpt = Gpt::new(1, 100 * MIB, 512);
    assert_eq!(gpt.add_partition(part(10, 2048, 4096)), Err(TableError::Misaligned));
    assert_eq!(gpt.add_partition(part(10, 2048, 4094)), Err(TableError::Misaligned));
}

#[test]
fn add_partition_refuses_what_lies_past_the_device() {
    let mut gpt = Gpt::new(1, 100 * MIB, 512);
    assert_eq!(
        gpt.add_partition(part(10, 99 * MIB, 100 * MIB + 511)),
        Err(TableError::OutOfBounds)
    );
    assert_eq!(gpt.add_partition(part(10, 99 * MIB, 100 * MIB - 1)), Ok(()));
}

#[test]
fn add_partition_refuses_a_second_use_of_an_identifier() {
    let mut gpt = Gpt::new(1, 100 * MIB, 512);
    assert_eq!(gpt.add_partition(part(10, 2048, 4095)), Ok(()));
    assert_eq!(gpt.add_partition(part(10, 8192, 12287)), Err(TableError::DuplicateId));
    assert_eq!(gpt.partitions().len(), 1);
}

#[test]
fn add_partition_refuses_an_overlap() {
    let mut gpt = Gpt::new(1, 100 * MIB, 512);
    assert_eq!(gpt.add_partition(part(10, 2048, 4095)), Ok(()));
    assert_eq!(gpt.add_partition(part(11, 3584, 8191)), Err(TableError::Overlap));
    assert_eq!(gpt.add_partition(part(12, 0, 2047)), Ok(()));
    assert_eq!(gpt.add_partition(part(13, 0, 512 * 1024 - 1)), Err(TableError::Overlap));
    assert_eq!(gpt.partitions().len(), 2);
}

#[test]
fn duplicate_identifier_is_reported_before_overlap() {
    let mut gpt = Gpt::new(1, 100 * MIB, 512);
    assert_eq!(gpt.add_partition(part(10, 2048, 4095)), Ok(()));
    assert_eq!(gpt.add_partition(part(10, 2048, 4095)), Err(TableError::DuplicateId));
}

#[test]
fn remaining_from_runs_to_the_end_of_the_device() {
    let gpt = Gpt::new(1, 100 * MIB, 512);
    assert_eq!(gpt.remaining_from(MIB), 99 * MIB);
    assert_eq!(gpt.remaining_from(0), 100 * MIB);
    assert_eq!(gpt.remaining_from(100 * MIB), 0);
    assert_eq!(gpt.remaining_from(200 * MIB), 0);
}

#[test]
fn remaining_from_leaves_out_a_last_partial_block() {
    let gpt = Gpt::new(1, 10 * 512 + 100, 512);
    assert_eq!(gpt.remaining_from(512), 9 * 512);
}

#[test]
fn remaining_from_stops_at_the_next_partition() {
    let mut gpt = Gpt::new(1, 100 * MIB, 512);
    assert_eq!(gpt.add_partition(part(10, 8192, 16383)), Ok(()));
    assert_eq!(gpt.add_partition(part(11, 2048, 4095)), Ok(()));
    assert_eq!(gpt.remaining_from(0), 2048);
    assert_eq!(gpt.remaining_from(4096), 4096);
    assert_eq!(gpt.remaining_from(16384), 100 * MIB - 16384);
}

#[test]
fn remaining_from_is_zero_inside_a_partition() {
    let mut gpt = Gpt::new(1, 100 * MIB, 512);
    assert_eq!(gpt.add_partition(part(10, 2048, 4095)), Ok(()));
    assert_eq!(gpt.remaining_from(2048), 0);
    assert_eq!(gpt.remaining_from(3000), 0);
    assert_eq!(gpt.remaining_from(4095), 0);
}

#[test]
fn partition_clone_is_equal() {
    let p = part(10, 2048, 4095);
    assert_eq!(p.clone(), p);
}
