//! The partition table: an ordered list of partitions on a device of known
//! size and logical block size, in which no two partitions share a byte or an
//! identifier.

use vstd::prelude::*;

verus! {

/// One partition of a table. Offsets are in bytes; `end` is the last byte of
/// the partition.
#[derive(Debug, PartialEq, Eq)]
pub struct Partition {
    pub uuid: u128,
    pub name: String,
    pub part_type: u128,
    pub start: u64,
    pub end: u64,
}

/// What a [`Partition`] holds, as plain values.
pub struct PartitionView {
    pub uuid: u128,
    pub name: Seq<char>,
    pub part_type: u128,
    pub start: u64,
    pub end: u64,
}

impl View for Partition {
    type V = PartitionView;

    open spec fn view(&self) -> PartitionView {
        PartitionView {
            uuid: self.uuid,
            name: self.name@,
            part_type: self.part_type,
            start: self.start,
            end: self.end,
        }
    }
}

impl Clone for Partition {
    fn clone(&self) -> (res: Self)
        ensures
            res == *self,
    {
        Partition {
            uuid: self.uuid,
            name: self.name.clone(),
            part_type: self.part_type,
            start: self.start,
            end: self.end,
        }
    }
}

impl PartitionView {
    /// The range starts on a block boundary and ends on the last byte of a
    /// block.
    pub open spec fn aligned(self, block_size: u64) -> bool {
        self.start % block_size == 0 && self.end % block_size == block_size - 1
    }

    /// The two ranges share at least one byte.
    pub open spec fn overlaps(self, other: PartitionView) -> bool {
        self.start <= other.end && other.start <= self.end
    }

    /// Byte `b` lies inside the partition.
    pub open spec fn covers(self, b: int) -> bool {
        self.start <= b <= self.end
    }

    /// The number of bytes in the range; zero where `end` lies before `start`.
    pub open spec fn size(self) -> int {
        if self.start <= self.end {
            self.end - self.start + 1
        } else {
            0
        }
    }
}

/// Why a table refuses a partition.
#[derive(Debug, Clone, Copy, PartialEq, Eq, Structural)]
pub enum TableError {
    /// The partition ends before it starts.
    InvalidRange,
    /// The partition does not start and end on block boundaries.
    Misaligned,
    /// The partition reaches past the end of the device.
    OutOfBounds,
    /// Another partition of the table has the same identifier.
    DuplicateId,
    /// The partition shares bytes with another partition of the table.
    Overlap,
}

impl TableError {
    /// What went wrong, in words.
    pub open spec fn message_text(self) -> Seq<char> {
        match self {
            TableError::InvalidRange => "the partition ends before it starts"@,
            TableError::Misaligned => "the partition does not start and end on block boundaries"@,
            TableError::OutOfBounds => "the partition reaches past the end of the device"@,
            TableError::DuplicateId => "another partition has the same identifier"@,
            TableError::Overlap => "the partition overlaps another partition"@,
        }
    }

    /// What went wrong, in words.
    pub fn message(self) -> (text: &'static str)
        ensures
            text@ == self.message_text(),
    {
        match self {
            TableError::InvalidRange => "the partition ends before it starts",
            TableError::Misaligned => "the partition does not start and end on block boundaries",
            TableError::OutOfBounds => "the partition reaches past the end of the device",
            TableError::DuplicateId => "another partition has the same identifier",
            TableError::Overlap => "the partition overlaps another partition",
        }
    }
}

/// What a [`Gpt`] holds, as plain values.
pub struct GptView {
    pub uuid: u128,
    pub disk_size: u64,
    pub block_size: u64,
    pub partitions: Seq<PartitionView>,
}

impl GptView {
    /// A table without partitions.
    pub open spec fn empty(uuid: u128, disk_size: u64, block_size: u64) -> GptView {
        GptView { uuid, disk_size, block_size, partitions: Seq::empty() }
    }

    /// `p` is a range of whole blocks that lies on the device.
    pub open spec fn fits(self, p: PartitionView) -> bool {
        &&& p.start <= p.end
        &&& p.aligned(self.block_size)
        &&& p.end < self.disk_size
    }

    /// Some partition of the table has the identifier `uuid`.
    pub open spec fn has_id(self, uuid: u128) -> bool {
        exists|i: int| 0 <= i < self.partitions.len() && #[trigger] self.partitions[i].uuid == uuid
    }

    /// Some partition of the table shares bytes with `p`.
    pub open spec fn collides(self, p: PartitionView) -> bool {
        exists|i: int| 0 <= i < self.partitions.len() && #[trigger] self.partitions[i].overlaps(p)
    }

    /// Every partition fits the device, and no two of them share a byte or an
    /// identifier.
    pub open spec fn wf(self) -> bool {
        &&& self.block_size > 0
        &&& forall|i: int| 0 <= i < self.partitions.len() ==> self.fits(#[trigger] self.partitions[i])
        &&& forall|i: int, j: int|
            0 <= i < j < self.partitions.len() ==> {
                &&& !(#[trigger] self.partitions[i]).overlaps(#[trigger] self.partitions[j])
                &&& self.partitions[i].uuid != self.partitions[j].uuid
            }
    }

    /// The reason for which the table refuses `p`, if it does. Where several
    /// apply, the first in the order of [`TableError`] is given.
    pub open spec fn rejection(self, p: PartitionView) -> Option<TableError> {
        if p.start > p.end {
            Some(TableError::InvalidRange)
        } else if !p.aligned(self.block_size) {
            Some(TableError::Misaligned)
        } else if p.end >= self.disk_size {
            Some(TableError::OutOfBounds)
        } else if self.has_id(p.uuid) {
            Some(TableError::DuplicateId)
        } else if self.collides(p) {
            Some(TableError::Overlap)
        } else {
            None
        }
    }

    /// The table with `p` appended.
    pub open spec fn with(self, p: PartitionView) -> GptView {
        GptView { partitions: self.partitions.push(p), ..self }
    }

    /// The table after an attempt to insert `p`: unchanged where `p` is
    /// refused.
    pub open spec fn inserted(self, p: PartitionView) -> Result<GptView, TableError> {
        match self.rejection(p) {
            Some(e) => Err(e),
            None => Ok(self.with(p)),
        }
    }

    /// The first byte past the last whole block of the device.
    pub open spec fn usable_end(self) -> int {
        (self.disk_size / self.block_size) * self.block_size
    }

    /// Byte `b` lies inside some partition.
    pub open spec fn occupied(self, b: int) -> bool {
        exists|i: int| 0 <= i < self.partitions.len() && (#[trigger] self.partitions[i]).covers(b)
    }

    /// Byte `b` lies in a whole block of the device and in no partition.
    pub open spec fn is_free(self, b: int) -> bool {
        0 <= b < self.usable_end() && !self.occupied(b)
    }

    /// The number of free bytes in a row that begin at `start`.
    pub open spec fn free_from(self, start: int) -> int {
        barrier(self.partitions, start, self.usable_end()) - start
    }
}

/// The first position at or after `start` that is at `bound`, beyond it, or
/// inside one of `parts`. A range that ends before it starts holds no byte.
pub open spec fn barrier(parts: Seq<PartitionView>, start: int, bound: int) -> int
    decreases parts.len(),
{
    if parts.len() == 0 {
        if bound > start {
            bound
        } else {
            start
        }
    } else {
        let rest = barrier(parts.drop_last(), start, bound);
        let p = parts.last();
        if p.end < start || p.end < p.start {
            rest
        } else if p.start <= start {
            start
        } else if p.start < rest {
            p.start as int
        } else {
            rest
        }
    }
}

/// A partition table on a device of `disk_size` bytes in blocks of
/// `block_size` bytes.
#[derive(Debug, PartialEq, Eq)]
pub struct Gpt {
    uuid: u128,
    disk_size: u64,
    block_size: u64,
    partitions: Vec<Partition>,
}

impl View for Gpt {
    type V = GptView;

    closed spec fn view(&self) -> GptView {
        GptView {
            uuid: self.uuid,
            disk_size: self.disk_size,
            block_size: self.block_size,
            partitions: self.partitions@.map_values(|p: Partition| p@),
        }
    }
}

impl Clone for Gpt {
    fn clone(&self) -> (res: Self)
        ensures
            res@ == self@,
    {
        proof {
            use_type_invariant(self);
        }
        let mut partitions: Vec<Partition> = Vec::new();
        let n = self.partitions.len();
        let mut i: usize = 0;
        while i < n
            invariant
                i <= n,
                n == self.partitions.len(),
                partitions@.len() == i,
                forall|j: int| 0 <= j < i ==> partitions@[j] == self.partitions@[j],
            decreases n - i,
        {
            partitions.push(self.partitions[i].clone());
            i += 1;
        }
        assert(partitions@ =~= self.partitions@);
        Gpt {
            uuid: self.uuid,
            disk_size: self.disk_size,
            block_size: self.block_size,
            partitions,
        }
    }
}

impl Gpt {
    /// Every table is well-formed, at all times.
    #[verifier::type_invariant]
    pub open spec fn inv(self) -> bool {
        self@.wf()
    }

    /// An empty table with the identifier `uuid`.
    pub fn new(uuid: u128, disk_size: u64, block_size: u64) -> (gpt: Gpt)
        requires
            block_size > 0,
        ensures
            gpt@ == GptView::empty(uuid, disk_size, block_size),
            gpt@.wf(),
    {
        let gpt = Gpt { uuid, disk_size, block_size, partitions: Vec::new() };
        assert(gpt@.partitions =~= Seq::empty());
        gpt
    }

    /// The table's identifier.
    pub fn uuid(&self) -> (uuid: u128)
        ensures
            uuid == self@.uuid,
    {
        self.uuid
    }

    /// The size of the device, in bytes.
    pub fn disk_size(&self) -> (size: u64)
        ensures
            size == self@.disk_size,
    {
        self.disk_size
    }

    /// The logical block size of the device, in bytes.
    pub fn block_size(&self) -> (size: u64)
        ensures
            size == self@.block_size,
            size > 0,
    {
        proof {
            use_type_invariant(self);
        }
        self.block_size
    }

    /// The partitions, in the order in which they were added.
    pub fn partitions(&self) -> (parts: &Vec<Partition>)
        ensures
            parts@.len() == self@.partitions.len(),
            forall|i: int| 0 <= i < parts@.len() ==> (#[trigger] parts@[i])@ == self@.partitions[i],
            self@.wf(),
    {
        proof {
            use_type_invariant(self);
        }
        &self.partitions
    }

    /// Adds `part` at the end of the table, unless the table refuses it: then
    /// the table stays as it was.
    pub fn add_partition(&mut self, part: Partition) -> (res: Result<(), TableError>)
        ensures
            match res {
                Ok(()) => old(self)@.inserted(part@) == Ok::<GptView, TableError>(final(self)@),
                Err(e) => old(self)@.inserted(part@) == Err::<GptView, TableError>(e) && final(self)@
                    == old(self)@,
            },
            final(self)@.wf(),
    {
        proof {
            use_type_invariant(&*self);
        }
        let bs = self.block_size;
        if part.start > part.end {
            return Err(TableError::InvalidRange);
        }
        if part.start % bs != 0 || part.end % bs != bs - 1 {
            return Err(TableError::Misaligned);
        }
        if part.end >= self.disk_size {
            return Err(TableError::OutOfBounds);
        }
        let ghost t = self@;
        let ghost p = part@;
        let n = self.partitions.len();
        let mut duplicate = false;
        let mut collision = false;
        let mut i: usize = 0;
        while i < n
            invariant
                i <= n,
                n == self.partitions.len(),
                t == self@,
                p == part@,
                duplicate <==> exists|j: int|
                    #![trigger t.partitions[j]]
                    0 <= j < i && t.partitions[j].uuid == p.uuid,
                collision <==> exists|j: int|
                    #![trigger t.partitions[j]]
                    0 <= j < i && t.partitions[j].overlaps(p),
            decreases n - i,
        {
            let q = &self.partitions[i];
            assert(q@ == t.partitions[i as int]);
            if q.uuid == part.uuid {
                duplicate = true;
            }
            if q.start <= part.end && part.start <= q.end {
                collision = true;
            }
            i += 1;
        }
        if duplicate {
            return Err(TableError::DuplicateId);
        }
        if collision {
            return Err(TableError::Overlap);
        }
        assert(t.rejection(p) is None);
        let mut table = Gpt {
            uuid: self.uuid,
            disk_size: self.disk_size,
            block_size: bs,
            partitions: Vec::new(),
        };
        assert(table@.partitions =~= Seq::empty());
        core::mem::swap(self, &mut table);
        let Gpt { uuid, disk_size, block_size, mut partitions } = table;
        partitions.push(part);
        proof {
            let grown = partitions@.map_values(|q: Partition| q@);
            assert(grown =~= t.partitions.push(p));
            lemma_inserted_wf(t, p);
        }
        *self = Gpt { uuid, disk_size, block_size, partitions };
        Ok(())
    }

    /// The number of free bytes in a row that begin at `start`: up to the
    /// next partition, or to the end of the last whole block of the device.
    pub fn remaining_from(&self, start: u64) -> (free: u64)
        ensures
            free == self@.free_from(start as int),
    {
        proof {
            use_type_invariant(self);
        }
        let bs = self.block_size;
        assert((self.disk_size / bs) * bs <= self.disk_size) by (nonlinear_arith)
            requires
                bs > 0,
        ;
        let usable = (self.disk_size / bs) * bs;
        let mut limit = if usable > start {
            usable
        } else {
            start
        };
        let ghost t = self@;
        let n = self.partitions.len();
        let mut i: usize = 0;
        assert(t.partitions.take(0) =~= Seq::empty());
        while i < n
            invariant
                i <= n,
                n == self.partitions.len(),
                t == self@,
                usable == t.usable_end(),
                limit == barrier(t.partitions.take(i as int), start as int, usable as int),
                limit >= start,
            decreases n - i,
        {
            let q = &self.partitions[i];
            assert(q@ == t.partitions[i as int]);
            assert(t.partitions.take(i + 1).drop_last() =~= t.partitions.take(i as int));
            assert(t.partitions.take(i + 1).last() == t.partitions[i as int]);
            if q.end < start || q.end < q.start {
            } else if q.start <= start {
                limit = start;
            } else if q.start < limit {
                limit = q.start;
            }
            i += 1;
        }
        assert(t.partitions.take(n as int) =~= t.partitions);
        limit - start
    }
}

/// A well-formed table is well-formed after every attempt to insert.
pub proof fn lemma_inserted_wf(table: GptView, p: PartitionView)
    requires
        table.wf(),
    ensures
        table.inserted(p) matches Ok(t) ==> t.wf(),
{
    if table.rejection(p) is None {
        let next = table.with(p);
        assert forall|a: int, b: int| 0 <= a < b < next.partitions.len() implies {
            &&& !(#[trigger] next.partitions[a]).overlaps(#[trigger] next.partitions[b])
            &&& next.partitions[a].uuid != next.partitions[b].uuid
        } by {
            if b == table.partitions.len() {
                assert(!table.partitions[a].overlaps(p));
                assert(table.partitions[a].uuid != p.uuid);
            }
        }
    }
}

/// Between `start` and the barrier every byte is below `bound` and outside
/// all of `parts`; the barrier itself is at `bound`, beyond it, or inside one
/// of `parts`.
pub proof fn lemma_barrier(parts: Seq<PartitionView>, start: int, bound: int)
    ensures
        start <= barrier(parts, start, bound),
        barrier(parts, start, bound) <= bound || barrier(parts, start, bound) == start,
        forall|b: int, i: int|
            start <= b < barrier(parts, start, bound) && 0 <= i < parts.len()
                ==> !#[trigger] parts[i].covers(b),
        barrier(parts, start, bound) < bound ==> exists|i: int|
            0 <= i < parts.len() && (#[trigger] parts[i]).covers(barrier(parts, start, bound)),
        barrier(parts, start, bound) == start || barrier(parts, start, bound) == bound
            || exists|i: int|
            0 <= i < parts.len() && (#[trigger] parts[i]).start == barrier(parts, start, bound),
    decreases parts.len(),
{
    if parts.len() > 0 {
        let rest = parts.drop_last();
        let r = barrier(rest, start, bound);
        let p = parts.last();
        let now = barrier(parts, start, bound);
        lemma_barrier(rest, start, bound);
        assert forall|b: int, i: int| start <= b < now && 0 <= i < parts.len() implies
            !#[trigger] parts[i].covers(b) by {
            if i < rest.len() {
                assert(rest[i] == parts[i]);
            }
        }
        if p.end < start || p.end < p.start || (p.start > start && p.start >= r) {
            assert(now == r);
            if now < bound {
                let i = choose|i: int| 0 <= i < rest.len() && (#[trigger] rest[i]).covers(r);
                assert(parts[i] == rest[i]);
                assert(parts[i].covers(now));
            }
            if now != start && now != bound {
                let i = choose|i: int| 0 <= i < rest.len() && (#[trigger] rest[i]).start == r;
                assert(parts[i] == rest[i]);
                assert(parts[i].start == now);
            }
        } else {
            assert(parts[parts.len() - 1].covers(now));
            assert(now == start || parts[parts.len() - 1].start == now);
        }
    }
}

impl GptView {
    /// Every byte of the free run that begins at `start` is free, and the
    /// byte after the run is not.
    pub proof fn lemma_free_from(self, start: int)
        requires
            0 <= start,
        ensures
            0 <= self.free_from(start),
            forall|b: int| start <= b < start + self.free_from(start) ==> self.is_free(b),
            !self.is_free(start + self.free_from(start)),
    {
        lemma_barrier(self.partitions, start, self.usable_end());
    }

    /// In a well-formed table the free run that begins on a block boundary
    /// is a whole number of blocks.
    pub proof fn lemma_free_from_aligned(self, start: int)
        requires
            self.wf(),
            0 <= start,
            start % (self.block_size as int) == 0,
        ensures
            self.free_from(start) % (self.block_size as int) == 0,
            (start + self.free_from(start)) % (self.block_size as int) == 0,
            self.free_from(start) > 0 ==> start + self.free_from(start) <= self.disk_size,
    {
        let bs = self.block_size as int;
        let end = barrier(self.partitions, start, self.usable_end());
        lemma_barrier(self.partitions, start, self.usable_end());
        crate::blocks::lemma_round_down_block(self.disk_size as int, bs);
        assert(end % bs == 0);
        crate::blocks::lemma_multiples_differ_by_multiple(end, start, bs);
    }
}

} // verus!
