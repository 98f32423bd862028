use parts::gpt::{Gpt, Partition};
use parts::placement::{resolve, End, HintError, Placement, PlacementHint, MIN_START};

const MIB: u64 = 1024 * 1024;

fn part(uuid: u128, start: u64, end: u64) -> Partition {
    Partition { uuid, name: String::new(), part_type: 7, start, end }
}

fn table_with(parts: &[(u64, u64)], disk_size: u64, block_size: u64) -> Gpt {
    let mut gpt = Gpt::new(1, disk_size, block_size);
    let mut id: u128 = 100;
    for (start, end) in parts {
        assert_eq!(gpt.add_partition(part(id, *start, *end)), Ok(()));
        id += 1;
    }
    gpt
}

#[test]
fn minimum_start_is_one_mebibyte() {
    assert_eq!(MIN_START, 1_048_576);
}

#[test]
fn empty_table_starts_at_the_minimum() {
    let gpt = Gpt::new(1, 100 * MIB, 512);
    let placement = resolve(&gpt, &PlacementHint { start: None, end: None });
    assert_eq!(placement, Placement { start: MIB, end: 100 * MIB - 1 });
}

#[test]
fn start_follows_the_last_partition() {
    let gpt = table_with(&[(2048, 4095)], 100 * MIB, 512);
    let placement = resolve(&gpt, &PlacementHint { start: None, end: None });
    assert_eq!(placement.start, 4096);
    assert_eq!(placement.end, 100 * MIB - 1);
}

#[test]
fn start_follows_the_partition_added_last_not_the_highest() {
    let gpt = table_with(&[(8192, 16383), (2048, 4095)], 100 * MIB, 512);
    let placement = resolve(&gpt, &PlacementHint { start: None, end: None });
    assert_eq!(placement.start, 4096);
    assert_eq!(placement.end, 8191);
}

#[test]
fn start_is_strictly_after_the_last_end_and_aligned() {
    for block_size in [512u64, 4096, 520] {
        let gpt = table_with(
            &[(block_size * 4, block_size * 9 - 1)],
            block_size * 1000,
            block_size,
        );
        let placement = resolve(&gpt, &PlacementHint { start: None, end: None });
        assert!(placement.start > block_size * 9 - 1);
        assert_eq!(placement.start % block_size, 0);
        assert_eq!(placement.start, block_size * 9);
    }
}

#[test]
fn explicit_start_is_taken_verbatim() {
    let gpt = table_with(&[(2048, 4095)], 100 * MIB, 512);
    let placement = resolve(&gpt, &PlacementHint { start: Some(12345), end: Some(End::Abs(99999)) });
    assert_eq!(placement, Placement { start: 12345, end: 99999 });
}

#[test]
fn relative_size_ends_at_start_plus_size_less_one() {
    let gpt = Gpt::new(1, 100 * MIB, 512);
    let placement = resolve(&gpt, &PlacementHint { start: None, end: Some(End::Rel(10 * MIB)) });
    assert_eq!(placement, Placement { start: MIB, end: 11 * MIB - 1 });
    let placement = resolve(&gpt, &PlacementHint { start: Some(4096), end: Some(End::Rel(1)) });
    assert_eq!(placement, Placement { start: 4096, end: 4096 });
}

#[test]
fn relative_size_of_zero_ends_before_the_start() {
    let gpt = Gpt::new(1, 100 * MIB, 512);
    let placement = resolve(&gpt, &PlacementHint { start: Some(4096), end: Some(End::Rel(0)) });
    assert_eq!(placement, Placement { start: 4096, end: 4095 });
}

#[test]
fn end_saturates_at_the_ends_of_the_range() {
    let gpt = Gpt::new(1, 100 * MIB, 512);
    let placement = resolve(&gpt, &PlacementHint { start: Some(0), end: Some(End::Rel(0)) });
    assert_eq!(placement, Placement { start: 0, end: 0 });
    let placement =
        resolve(&gpt, &PlacementHint { start: Some(u64::MAX), end: Some(End::Rel(2)) });
    assert_eq!(placement, Placement { start: u64::MAX, end: u64::MAX });
    let placement =
        resolve(&gpt, &PlacementHint { start: Some(u64::MAX), end: Some(End::Rel(1)) });
    assert_eq!(placement, Placement { start: u64::MAX, end: u64::MAX });
}

#[test]
fn no_end_takes_all_free_space_from_the_start() {
    let gpt = table_with(&[(8192, 16383)], 100 * MIB, 512);
    let placement = resolve(&gpt, &PlacementHint { start: Some(2048), end: None });
    assert_eq!(placement, Placement { start: 2048, end: 8191 });
}

#[test]
fn no_end_with_nothing_free_ends_before_the_start() {
    let gpt = table_with(&[(MIB, 100 * MIB - 1)], 100 * MIB, 512);
    let placement = resolve(&gpt, &PlacementHint { start: None, end: None });
    assert_eq!(placement, Placement { start: 100 * MIB, end: 100 * MIB - 1 });
}

#[test]
fn from_options_refuses_end_together_with_size() {
    assert_eq!(
        PlacementHint::from_options(None, Some(4095), Some(2048)),
        Err(HintError::EndAndSize)
    );
    assert_eq!(
        PlacementHint::from_options(Some(2048), Some(4095), Some(2048)),
        Err(HintError::EndAndSize)
    );
}

#[test]
fn from_options_takes_everything_else() {
    assert_eq!(
        PlacementHint::from_options(None, None, None),
        Ok(PlacementHint { start: None, end: None })
    );
    assert_eq!(
        PlacementHint::from_options(Some(2048), Some(4095), None),
        Ok(PlacementHint { start: Some(2048), end: Some(End::Abs(4095)) })
    );
    assert_eq!(
        PlacementHint::from_options(Some(2048), None, Some(10)),
        Ok(PlacementHint { start: Some(2048), end: Some(End::Rel(10)) })
    );
    assert_eq!(
        PlacementHint::from_options(None, None, Some(0)),
        Ok(PlacementHint { start: None, end: Some(End::Rel(0)) })
    );
}

#[test]
fn hint_error_message() {
    assert_eq!(HintError::EndAndSize.message(), "an end and a size cannot both be given");
}
