//! Where a new partition goes: from what the user gave of start, end and
//! size, and from the table as it stands, to a concrete range of bytes.
//!
//! A partition that is given no start begins on the first block boundary
//! after the block that holds the last byte of the table's last partition.
//! In a well-formed table every partition ends on the last byte of a block,
//! so this is the byte after that partition's end.

use vstd::prelude::*;
use crate::blocks::{lemma_before_boundary, lemma_block_end};
use crate::gpt::{Gpt, GptView, PartitionView};

verus! {

/// Where the first partition of an empty table starts: 1 MiB, which leaves
/// room for what precedes the partitions on a device.
pub const MIN_START: u64 = 1048576;

/// The end of a new partition: an absolute offset of its last byte, or its
/// size in bytes from its start.
#[derive(Debug, Clone, Copy, PartialEq, Eq, Structural)]
pub enum End {
    Abs(u64),
    Rel(u64),
}

/// What the user gave for a new partition. A missing start means "after the
/// last partition"; a missing end means "all the free space from there".
#[derive(Debug, Clone, Copy, PartialEq, Eq, Structural)]
pub struct PlacementHint {
    pub start: Option<u64>,
    pub end: Option<End>,
}

/// Why options do not make a [`PlacementHint`].
#[derive(Debug, Clone, Copy, PartialEq, Eq, Structural)]
pub enum HintError {
    /// Both an absolute end and a size were given.
    EndAndSize,
}

impl HintError {
    /// What went wrong, in words.
    pub open spec fn message_text(self) -> Seq<char> {
        match self {
            HintError::EndAndSize => "an end and a size cannot both be given"@,
        }
    }

    /// What went wrong, in words.
    pub fn message(self) -> (text: &'static str)
        ensures
            text@ == self.message_text(),
    {
        match self {
            HintError::EndAndSize => "an end and a size cannot both be given",
        }
    }
}

/// A resolved range of bytes, `end` being its last byte.
#[derive(Debug, Clone, Copy, PartialEq, Eq, Structural)]
pub struct Placement {
    pub start: u64,
    pub end: u64,
}

/// The end that the options `end` and `size` describe, where at most one of
/// them is given.
pub open spec fn end_option(end: Option<u64>, size: Option<u64>) -> Option<End> {
    match (end, size) {
        (Some(e), _) => Some(End::Abs(e)),
        (None, Some(n)) => Some(End::Rel(n)),
        (None, None) => None,
    }
}

impl PlacementHint {
    /// A hint from the three options of the command line. An end together
    /// with a size is refused; everything else is taken as given.
    pub fn from_options(start: Option<u64>, end: Option<u64>, size: Option<u64>) -> (res: Result<
        PlacementHint,
        HintError,
    >)
        ensures
            res is Err <==> (end is Some && size is Some),
            res matches Err(e) ==> e == HintError::EndAndSize,
            res matches Ok(hint) ==> hint.start == start && hint.end == end_option(end, size),
    {
        match (end, size) {
            (Some(_), Some(_)) => Err(HintError::EndAndSize),
            (Some(e), None) => Ok(PlacementHint { start, end: Some(End::Abs(e)) }),
            (None, Some(n)) => Ok(PlacementHint { start, end: Some(End::Rel(n)) }),
            (None, None) => Ok(PlacementHint { start, end: None }),
        }
    }
}

/// The first block boundary after the block that holds byte `end`.
pub open spec fn next_block(end: u64, block_size: u64) -> int {
    (end / block_size + 1) * block_size
}

/// Where a partition starts that is given no start.
pub open spec fn default_start(table: GptView) -> int {
    if table.partitions.len() == 0 {
        MIN_START as int
    } else {
        next_block(table.partitions.last().end, table.block_size)
    }
}

/// Where the partition starts.
pub open spec fn start_of(table: GptView, start: Option<u64>) -> int {
    match start {
        Some(s) => s as int,
        None => default_start(table),
    }
}

/// The last byte of a partition that starts at `start` and ends as `end`
/// says. It lies before `start` where the size is zero.
pub open spec fn span_end(start: int, end: End) -> int {
    match end {
        End::Abs(e) => e as int,
        End::Rel(size) => start + size - 1,
    }
}

/// The last byte of a partition that starts at `start`. It lies before
/// `start` where the size is zero, or where nothing is free at `start`.
pub open spec fn end_of(table: GptView, start: int, end: Option<End>) -> int {
    match end {
        Some(e) => span_end(start, e),
        None => start + table.free_from(start) - 1,
    }
}

/// `x`, or the nearest offset that a `u64` holds.
pub open spec fn saturated(x: int) -> u64 {
    if x < 0 {
        0
    } else if x > u64::MAX {
        u64::MAX
    } else {
        x as u64
    }
}

/// In a well-formed table the default start is the byte after the last
/// partition, on a block boundary, and on the device or just at its end.
pub proof fn lemma_default_start(table: GptView)
    requires
        table.wf(),
        table.partitions.len() > 0,
    ensures
        default_start(table) == table.partitions.last().end + 1,
        default_start(table) > table.partitions.last().end,
        default_start(table) % (table.block_size as int) == 0,
        default_start(table) <= table.disk_size,
{
    let last = table.partitions.last();
    assert(table.fits(table.partitions[table.partitions.len() - 1]));
    lemma_block_end(last.end as int, table.block_size as int);
}

/// Resolves a hint against the table. The start is the one given, as it is,
/// or else the default start. The end is the one given; or the start plus the
/// size given, less one; or, with neither, the start plus the free space
/// found there, less one. An end that no `u64` holds is replaced by the
/// nearest one that does.
pub fn resolve(gpt: &Gpt, hint: &PlacementHint) -> (p: Placement)
    ensures
        p.start == start_of(gpt@, hint.start),
        p.end == saturated(end_of(gpt@, p.start as int, hint.end)),
        hint.start is None && gpt@.partitions.len() > 0 ==> {
            &&& p.start > gpt@.partitions.last().end
            &&& p.start % gpt@.block_size == 0
        },
        hint.start is None && gpt@.partitions.len() == 0 ==> p.start == MIN_START,
{
    let parts = gpt.partitions();
    let start: u64 = match hint.start {
        Some(s) => s,
        None => {
            if parts.len() == 0 {
                MIN_START
            } else {
                let last = &parts[parts.len() - 1];
                let bs = gpt.block_size();
                proof {
                    assert(last@ == gpt@.partitions.last());
                    lemma_default_start(gpt@);
                    lemma_block_end(last.end as int, bs as int);
                }
                (last.end / bs + 1) * bs
            }
        },
    };
    let end: u64 = match hint.end {
        Some(End::Abs(e)) => e,
        Some(End::Rel(size)) => last_of(start, size),
        None => last_of(start, gpt.remaining_from(start)),
    };
    Placement { start, end }
}

/// The last of `size` bytes that begin at `start`, or the nearest offset
/// that a `u64` holds.
pub(crate) fn last_of(start: u64, size: u64) -> (end: u64)
    ensures
        end == saturated(start + size - 1),
{
    if size == 0 {
        if start == 0 {
            0
        } else {
            start - 1
        }
    } else {
        match start.checked_add(size - 1) {
            Some(e) => e,
            None => u64::MAX,
        }
    }
}

/// A well-formed table accepts the range that [`resolve`] gives for a hint
/// without an end, whenever the start is a block boundary with at least one
/// free byte and the identifier is not in the table yet.
pub proof fn lemma_free_space_is_accepted(
    table: GptView,
    start: u64,
    uuid: u128,
    name: Seq<char>,
    part_type: u128,
)
    requires
        table.wf(),
        start % table.block_size == 0,
        table.free_from(start as int) > 0,
        !table.has_id(uuid),
    ensures
        end_of(table, start as int, None) == saturated(end_of(table, start as int, None)),
        table.rejection(
            PartitionView {
                uuid,
                name,
                part_type,
                start,
                end: saturated(end_of(table, start as int, None)),
            },
        ) is None,
{
    let bs = table.block_size as int;
    let free = table.free_from(start as int);
    let end = start + free - 1;
    table.lemma_free_from(start as int);
    table.lemma_free_from_aligned(start as int);
    lemma_before_boundary(start + free, bs);
    let p = PartitionView { uuid, name, part_type, start, end: saturated(end) };
    assert(p.end == end);
    assert(!table.collides(p)) by {
        if table.collides(p) {
            let i = choose|i: int|
                0 <= i < table.partitions.len() && (#[trigger] table.partitions[i]).overlaps(p);
            let q = table.partitions[i];
            assert(table.fits(q));
            let b = if q.start > start {
                q.start as int
            } else {
                start as int
            };
            assert(q.covers(b));
            assert(table.is_free(b));
        }
    }
}

} // verus!
