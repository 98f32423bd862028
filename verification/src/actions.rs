//! What can be done to a table, whatever the interface: create one, add a
//! partition, take a portable snapshot of table and device, rebuild a table
//! from a snapshot, and turn what was read from a device into a table and
//! back.

use vstd::prelude::*;
use crate::blocks::{block_end, lemma_block_end_of};
use crate::device::Info;
use crate::gpt::{Gpt, GptView, Partition, PartitionView, TableError};
use crate::ids::{is_random, or_fresh};
use crate::placement::{
    end_of, resolve, saturated, span_end, start_of, End, PlacementHint,
};

pub use crate::entries::{Entry, ReadError};
use crate::entries::{entries_of, lemma_loaded_stops, loaded};
pub use crate::snapshot::{DeviceInfo, Format, PartInfo, PartitionInfoVersion, RestoreError};
use crate::snapshot::{restore_block_size, restored, snapshot_of};

verus! {

/// The end of a new partition as the table is asked to hold it: the last
/// byte of the block that holds `raw_end`. An end before the start is no
/// range, and an end whose block no `u64` offset reaches is past every
/// device.
pub open spec fn planned_end(start: u64, raw_end: int, block_size: u64) -> Result<u64, TableError> {
    if raw_end < start {
        Err(TableError::InvalidRange)
    } else if block_end(raw_end, block_size as int) > u64::MAX {
        Err(TableError::OutOfBounds)
    } else {
        Ok(block_end(raw_end, block_size as int) as u64)
    }
}

/// The table after an attempt to add an unnamed partition from `start` to
/// the end of the block that holds `raw_end`.
pub open spec fn added(
    table: GptView,
    block_size: u64,
    uuid: u128,
    part_type: u128,
    start: u64,
    raw_end: int,
) -> Result<GptView, TableError> {
    match planned_end(start, raw_end, block_size) {
        Ok(end) => table.inserted(
            PartitionView { uuid, name: Seq::empty(), part_type, start, end },
        ),
        Err(e) => Err(e),
    }
}

/// The partition that was added lies where [`resolve`] places it: it starts
/// at the resolved start, and ends on the last byte of the block that holds
/// the resolved end.
pub proof fn lemma_added_where_resolved(
    table: GptView,
    block_size: u64,
    uuid: u128,
    part_type: u128,
    hint: PlacementHint,
)
    requires
        block_size > 0,
        0 <= start_of(table, hint.start) <= u64::MAX,
        added(
            table,
            block_size,
            uuid,
            part_type,
            start_of(table, hint.start) as u64,
            end_of(table, start_of(table, hint.start), hint.end),
        ) is Ok,
    ensures
        ({
            let start = start_of(table, hint.start);
            let end = end_of(table, start, hint.end);
            let grown = added(table, block_size, uuid, part_type, start as u64, end)->Ok_0;
            &&& grown.partitions == table.partitions.push(grown.partitions.last())
            &&& grown.partitions.last().uuid == uuid
            &&& grown.partitions.last().part_type == part_type
            &&& grown.partitions.last().start == start
            &&& grown.partitions.last().end == block_end(saturated(end) as int, block_size as int)
            &&& end <= grown.partitions.last().end < end + block_size
        }),
{
    let start = start_of(table, hint.start);
    let end = end_of(table, start, hint.end);
    lemma_block_end_of(end, block_size as int);
}

/// `res` and `after` are what an attempt gives that should give `expected`:
/// on success the new table, on failure the error and the table as it was.
pub open spec fn outcome_is(
    res: Result<(), TableError>,
    before: GptView,
    after: GptView,
    expected: Result<GptView, TableError>,
) -> bool {
    match expected {
        Ok(t) => res is Ok && after == t,
        Err(e) => res == Err::<(), TableError>(e) && after == before,
    }
}

/// `id` is the identifier asked for, or a random one where none was.
pub open spec fn id_is(id: u128, asked: Option<u128>) -> bool {
    match asked {
        Some(u) => id == u,
        None => is_random(id),
    }
}

/// A new empty table for the device, with the identifier `uuid` or, where
/// none is given, a fresh random one.
pub fn new_gpt(uuid: Option<u128>, info: &Info) -> (gpt: Gpt)
    requires
        info.wf(),
    ensures
        gpt@ == GptView::empty(gpt@.uuid, info.disk_size, info.block_size),
        id_is(gpt@.uuid, uuid),
        gpt@.wf(),
{
    Gpt::new(or_fresh(uuid), info.disk_size, info.block_size)
}

/// Adds an unnamed partition with the identifier `uuid` that starts at
/// `start`, which is taken as it is. Its end is rounded up to the last byte
/// of its block, in blocks of the device's size. The table is left as it was
/// where the range is empty, reaches past what a `u64` holds, or is refused
/// by the table.
pub fn add_part_with(
    gpt: &mut Gpt,
    info: &Info,
    uuid: u128,
    partition_type: u128,
    start: u64,
    end: End,
) -> (res: Result<(), TableError>)
    requires
        info.wf(),
    ensures
        outcome_is(
            res,
            old(gpt)@,
            final(gpt)@,
            added(old(gpt)@, info.block_size, uuid, partition_type, start, span_end(start as int, end)),
        ),
        final(gpt)@.wf(),
{
    add_range(gpt, info.block_size, uuid, partition_type, start, end)
}

/// Adds an unnamed partition as [`add_part_with`] does, rounding its end in
/// blocks of `block_size` bytes.
pub(crate) fn add_range(
    gpt: &mut Gpt,
    block_size: u64,
    uuid: u128,
    partition_type: u128,
    start: u64,
    end: End,
) -> (res: Result<(), TableError>)
    requires
        block_size > 0,
    ensures
        outcome_is(
            res,
            old(gpt)@,
            final(gpt)@,
            added(old(gpt)@, block_size, uuid, partition_type, start, span_end(start as int, end)),
        ),
        final(gpt)@.wf(),
{
    proof {
        use_type_invariant(&*gpt);
    }
    let bs = block_size;
    let raw: u64 = match end {
        End::Abs(e) => e,
        End::Rel(size) => {
            if size == 0 {
                return Err(TableError::InvalidRange);
            }
            match start.checked_add(size - 1) {
                Some(e) => e,
                None => {
                    proof {
                        lemma_block_end_of(start + size - 1, bs as int);
                    }
                    return Err(TableError::OutOfBounds);
                },
            }
        },
    };
    if raw < start {
        return Err(TableError::InvalidRange);
    }
    proof {
        lemma_block_end_of(raw as int, bs as int);
        crate::blocks::lemma_round_down_block(raw as int, bs as int);
    }
    let floor = (raw / bs) * bs;
    let rounded = match floor.checked_add(bs - 1) {
        Some(r) => r,
        None => {
            return Err(TableError::OutOfBounds);
        },
    };
    let part = Partition { uuid, name: String::new(), part_type: partition_type, start, end: rounded };
    gpt.add_partition(part)
}

/// Adds an unnamed partition as [`add_part_with`] does, with the identifier
/// `uuid` or, where none is given, a fresh random one.
pub fn add_part(
    gpt: &mut Gpt,
    info: &Info,
    uuid: Option<u128>,
    partition_type: u128,
    start: u64,
    end: End,
) -> (res: Result<(), TableError>)
    requires
        info.wf(),
    ensures
        exists|id: u128|
            id_is(id, uuid) && #[trigger] outcome_is(
                res,
                old(gpt)@,
                final(gpt)@,
                added(
                    old(gpt)@,
                    info.block_size,
                    id,
                    partition_type,
                    start,
                    span_end(start as int, end),
                ),
            ),
        final(gpt)@.wf(),
{
    let id = or_fresh(uuid);
    add_part_with(gpt, info, id, partition_type, start, end)
}

/// Adds an unnamed partition where `hint` places it in the table as it
/// stands: from the start that [`resolve`] gives to the end that it gives,
/// rounded up to the last byte of its block.
pub fn place_part_with(
    gpt: &mut Gpt,
    info: &Info,
    uuid: u128,
    partition_type: u128,
    hint: &PlacementHint,
) -> (res: Result<(), TableError>)
    requires
        info.wf(),
    ensures
        outcome_is(
            res,
            old(gpt)@,
            final(gpt)@,
            added(
                old(gpt)@,
                info.block_size,
                uuid,
                partition_type,
                start_of(old(gpt)@, hint.start) as u64,
                end_of(old(gpt)@, start_of(old(gpt)@, hint.start), hint.end),
            ),
        ),
        final(gpt)@.wf(),
{
    let placement = resolve(gpt, hint);
    let end = match hint.end {
        Some(e) => e,
        None => End::Rel(gpt.remaining_from(placement.start)),
    };
    add_part_with(gpt, info, uuid, partition_type, placement.start, end)
}

/// Adds an unnamed partition as [`place_part_with`] does, with the
/// identifier `uuid` or, where none is given, a fresh random one.
pub fn place_part(
    gpt: &mut Gpt,
    info: &Info,
    uuid: Option<u128>,
    partition_type: u128,
    hint: &PlacementHint,
) -> (res: Result<(), TableError>)
    requires
        info.wf(),
    ensures
        exists|id: u128|
            id_is(id, uuid) && #[trigger] outcome_is(
                res,
                old(gpt)@,
                final(gpt)@,
                added(
                    old(gpt)@,
                    info.block_size,
                    id,
                    partition_type,
                    start_of(old(gpt)@, hint.start) as u64,
                    end_of(old(gpt)@, start_of(old(gpt)@, hint.start), hint.end),
                ),
            ),
        final(gpt)@.wf(),
{
    let id = or_fresh(uuid);
    place_part_with(gpt, info, id, partition_type, hint)
}

/// The snapshot that a dump of `gpt` on the device writes, in the first
/// version of the format.
pub fn dump(gpt: &Gpt, info: &Info) -> (snapshot: DeviceInfo)
    ensures
        snapshot@ == snapshot_of(
            gpt@,
            info.block_size,
            info.disk_size,
            info.model@,
            PartitionInfoVersion::V1,
        ),
{
    DeviceInfo::new(
        gpt,
        info.block_size,
        info.disk_size,
        info.model.clone(),
        PartitionInfoVersion::V1,
    )
}

/// The table that a snapshot gives, laid out in blocks of `override_block`
/// bytes where that is given and of the recorded size where not.
pub fn restore(snapshot: DeviceInfo, override_block: Option<u64>) -> (res: Result<
    Gpt,
    RestoreError,
>)
    ensures
        match res {
            Ok(gpt) => {
                &&& restored(snapshot@, override_block) == Ok::<GptView, RestoreError>(gpt@)
                &&& gpt@.wf()
                &&& gpt@.block_size == restore_block_size(snapshot@, override_block)
                &&& gpt@.partitions == snapshot@.partitions
            },
            Err(e) => restored(snapshot@, override_block) == Err::<GptView, RestoreError>(e),
        },
{
    snapshot.into_gpt_with(override_block)
}

/// The table that was read from a device: an empty table for the device
/// with the identifier `uuid`, into which the entries found are inserted in
/// their order, each from the first byte of its first block to the last byte
/// of its last block. An entry that the table refuses, or that reaches
/// further than a `u64` counts, gives no table.
pub fn read_gpt(uuid: u128, entries: Vec<Entry>, info: &Info) -> (res: Result<Gpt, ReadError>)
    requires
        info.wf(),
    ensures
        match res {
            Ok(gpt) => loaded(
                GptView::empty(uuid, info.disk_size, info.block_size),
                entries@.map_values(|e: Entry| e@),
            ) == Ok::<GptView, ReadError>(gpt@) && gpt@.wf(),
            Err(e) => loaded(
                GptView::empty(uuid, info.disk_size, info.block_size),
                entries@.map_values(|e: Entry| e@),
            ) == Err::<GptView, ReadError>(e),
        },
{
    let ghost start = GptView::empty(uuid, info.disk_size, info.block_size);
    let ghost records = entries@.map_values(|e: Entry| e@);
    let bs = info.block_size;
    let mut gpt = Gpt::new(uuid, info.disk_size, bs);
    let mut items = entries;
    let n = items.len();
    let mut i: usize = 0;
    assert(records.take(0) =~= Seq::empty());
    while i < n
        invariant
            i <= n,
            n == items@.len(),
            n == records.len(),
            bs == info.block_size,
            bs > 0,
            start == GptView::empty(uuid, info.disk_size, info.block_size),
            records == entries@.map_values(|e: Entry| e@),
            forall|j: int| i <= j < n ==> (#[trigger] items@[j])@ == records[j],
            loaded(start, records.take(i as int)) == Ok::<GptView, ReadError>(gpt@),
            gpt@.wf(),
        decreases n - i,
    {
        let mut taken = Entry {
            uuid: 0,
            name: String::new(),
            part_type: 0,
            first_block: 0,
            last_block: 0,
        };
        core::mem::swap(&mut items[i], &mut taken);
        proof {
            assert(taken@ == records[i as int]);
            assert(records.take(i + 1).drop_last() =~= records.take(i as int));
            assert(records.take(i + 1).last() == taken@);
        }
        assert((taken.last_block + 1) * bs <= 0x1_0000_0000_0000_0000 * 0xffff_ffff_ffff_ffff
            && (taken.last_block + 1) * bs >= 1) by (nonlinear_arith)
            requires
                0 < bs <= 0xffff_ffff_ffff_ffff,
                0 <= taken.last_block <= 0xffff_ffff_ffff_ffff,
        ;
        let past: u128 = (taken.last_block as u128 + 1) * (bs as u128);
        let range = match taken.first_block.checked_mul(bs) {
            Some(first) => if past - 1 <= u64::MAX as u128 {
                Some((first, (past - 1) as u64))
            } else {
                None
            },
            None => None,
        };
        let (first, last) = match range {
            Some(r) => r,
            None => {
                proof {
                    assert(loaded(start, records.take(i + 1)) == Err::<GptView, ReadError>(
                        ReadError::TooFar,
                    ));
                    lemma_loaded_stops(start, records, i + 1);
                }
                return Err(ReadError::TooFar);
            },
        };
        let part = Partition {
            uuid: taken.uuid,
            name: taken.name,
            part_type: taken.part_type,
            start: first,
            end: last,
        };
        assert(taken@.in_bytes(bs) == Some(part@));
        match gpt.add_partition(part) {
            Ok(()) => {},
            Err(e) => {
                proof {
                    assert(loaded(start, records.take(i + 1)) == Err::<GptView, ReadError>(
                        ReadError::Refused(e),
                    ));
                    lemma_loaded_stops(start, records, i + 1);
                }
                return Err(ReadError::Refused(e));
            },
        }
        i += 1;
    }
    proof {
        assert(records.take(n as int) =~= records);
    }
    Ok(gpt)
}

/// The entries that are written to a device for the table, in its order:
/// each partition from the block of its first byte to the block of its
/// last.
pub fn write_gpt(gpt: &Gpt) -> (entries: Vec<Entry>)
    ensures
        entries@.map_values(|e: Entry| e@) == entries_of(gpt@),
{
    let parts = gpt.partitions();
    let bs = gpt.block_size();
    let mut entries: Vec<Entry> = Vec::new();
    let n = parts.len();
    let mut i: usize = 0;
    while i < n
        invariant
            i <= n,
            n == parts@.len(),
            n == gpt@.partitions.len(),
            bs == gpt@.block_size,
            bs > 0,
            forall|j: int| 0 <= j < n ==> (#[trigger] parts@[j])@ == gpt@.partitions[j],
            entries@.len() == i,
            forall|j: int|
                0 <= j < i ==> (#[trigger] entries@[j])@ == gpt@.partitions[j].in_blocks(bs),
        decreases n - i,
    {
        let p = &parts[i];
        entries.push(
            Entry {
                uuid: p.uuid,
                name: p.name.clone(),
                part_type: p.part_type,
                first_block: p.start / bs,
                last_block: p.end / bs,
            },
        );
        i += 1;
    }
    assert(entries@.map_values(|e: Entry| e@) =~= entries_of(gpt@));
    entries
}

} // verus!
