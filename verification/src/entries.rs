//! Partitions as a table on a device records them, in blocks, and the
//! table that such entries give.

use vstd::prelude::*;
use crate::gpt::{GptView, PartitionView, TableError};
use crate::snapshot::lemma_refill;

verus! {

/// A partition as a table on a device records it: its range in blocks, from
/// the first block to the last.
#[derive(Debug, PartialEq, Eq)]
pub struct Entry {
    pub uuid: u128,
    pub name: String,
    pub part_type: u128,
    pub first_block: u64,
    pub last_block: u64,
}

/// What an [`Entry`] holds, as plain values.
pub struct EntryView {
    pub uuid: u128,
    pub name: Seq<char>,
    pub part_type: u128,
    pub first_block: u64,
    pub last_block: u64,
}

impl View for Entry {
    type V = EntryView;

    open spec fn view(&self) -> EntryView {
        EntryView {
            uuid: self.uuid,
            name: self.name@,
            part_type: self.part_type,
            first_block: self.first_block,
            last_block: self.last_block,
        }
    }
}

/// Why the entries read from a device give no table.
#[derive(Debug, Clone, Copy, PartialEq, Eq, Structural)]
pub enum ReadError {
    /// An entry reaches further than a `u64` counts bytes.
    TooFar,
    /// The table refused an entry, for this reason.
    Refused(TableError),
}

impl ReadError {
    /// What went wrong, in words.
    pub open spec fn message_text(self) -> Seq<char> {
        match self {
            ReadError::TooFar => "an entry reaches further than bytes can be counted"@,
            ReadError::Refused(e) => e.message_text(),
        }
    }

    /// What went wrong, in words.
    pub fn message(self) -> (text: &'static str)
        ensures
            text@ == self.message_text(),
    {
        match self {
            ReadError::TooFar => "an entry reaches further than bytes can be counted",
            ReadError::Refused(e) => e.message(),
        }
    }
}

impl EntryView {
    /// The entry as a partition, in bytes: from the first byte of its first
    /// block to the last byte of its last block, if a `u64` holds both.
    pub open spec fn in_bytes(self, block_size: u64) -> Option<PartitionView> {
        if (self.last_block + 1) * block_size - 1 > u64::MAX || self.first_block * block_size
            > u64::MAX {
            None
        } else {
            Some(
                PartitionView {
                    uuid: self.uuid,
                    name: self.name,
                    part_type: self.part_type,
                    start: (self.first_block * block_size) as u64,
                    end: ((self.last_block + 1) * block_size - 1) as u64,
                },
            )
        }
    }
}

impl PartitionView {
    /// The partition as an entry, in blocks: the blocks that hold its first
    /// and its last byte.
    pub open spec fn in_blocks(self, block_size: u64) -> EntryView {
        EntryView {
            uuid: self.uuid,
            name: self.name,
            part_type: self.part_type,
            first_block: self.start / block_size,
            last_block: self.end / block_size,
        }
    }
}

/// `table` after `entries` were inserted one by one, in order, each taken in
/// bytes; the first that cannot be taken in bytes, or that the table
/// refuses, ends it.
pub open spec fn loaded(table: GptView, entries: Seq<EntryView>) -> Result<GptView, ReadError>
    decreases entries.len(),
{
    if entries.len() == 0 {
        Ok(table)
    } else {
        match loaded(table, entries.drop_last()) {
            Ok(t) => match entries.last().in_bytes(table.block_size) {
                Some(p) => match t.inserted(p) {
                    Ok(u) => Ok(u),
                    Err(e) => Err(ReadError::Refused(e)),
                },
                None => Err(ReadError::TooFar),
            },
            Err(e) => Err(e),
        }
    }
}

/// The entries of a table, in its order.
pub open spec fn entries_of(table: GptView) -> Seq<EntryView> {
    table.partitions.map_values(|p: PartitionView| p.in_blocks(table.block_size))
}

/// Once an entry fails, the entries after it change nothing.
pub proof fn lemma_loaded_stops(table: GptView, entries: Seq<EntryView>, k: int)
    requires
        0 <= k <= entries.len(),
        loaded(table, entries.take(k)) is Err,
    ensures
        loaded(table, entries) == loaded(table, entries.take(k)),
    decreases entries.len() - k,
{
    if k < entries.len() {
        assert(entries.take(k + 1).drop_last() =~= entries.take(k));
        lemma_loaded_stops(table, entries, k + 1);
    } else {
        assert(entries.take(k) =~= entries);
    }
}

/// A partition of whole blocks is, taken in blocks and in bytes again, what
/// it was.
pub proof fn lemma_blocks_and_back(p: PartitionView, block_size: u64)
    requires
        block_size > 0,
        p.aligned(block_size),
    ensures
        p.in_blocks(block_size).in_bytes(block_size) == Some(p),
{
    let bs = block_size as int;
    crate::blocks::lemma_round_down_block(p.start as int, bs);
    crate::blocks::lemma_block_end(p.end as int, bs);
}

/// The entries that are written for a well-formed table read back as that
/// very table.
pub proof fn lemma_written_reads_back(table: GptView)
    requires
        table.wf(),
    ensures
        loaded(
            GptView::empty(table.uuid, table.disk_size, table.block_size),
            entries_of(table),
        ) == Ok::<GptView, ReadError>(table),
{
    lemma_reload(table, table.partitions.len() as int);
    assert(table.partitions.take(table.partitions.len() as int) =~= table.partitions);
    assert(entries_of(table).take(table.partitions.len() as int) =~= entries_of(table));
}

proof fn lemma_reload(table: GptView, k: int)
    requires
        table.wf(),
        0 <= k <= table.partitions.len(),
    ensures
        loaded(
            GptView::empty(table.uuid, table.disk_size, table.block_size),
            entries_of(table).take(k),
        ) == Ok::<GptView, ReadError>(GptView { partitions: table.partitions.take(k), ..table }),
    decreases k,
{
    let start = GptView::empty(table.uuid, table.disk_size, table.block_size);
    if k == 0 {
        assert(table.partitions.take(0) =~= Seq::empty());
        assert(entries_of(table).take(0) =~= Seq::empty());
    } else {
        lemma_reload(table, k - 1);
        lemma_refill(table, k - 1);
        lemma_refill(table, k);
        let p = table.partitions[k - 1];
        assert(table.fits(p));
        lemma_blocks_and_back(p, table.block_size);
        assert(entries_of(table).take(k).drop_last() =~= entries_of(table).take(k - 1));
        assert(entries_of(table).take(k).last() == p.in_blocks(table.block_size));
        assert(table.partitions.take(k).drop_last() =~= table.partitions.take(k - 1));
        assert(table.partitions.take(k).last() == p);
    }
}

} // verus!
