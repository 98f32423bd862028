//! Portable snapshots of a table and of the device it was taken from, and
//! the table that a snapshot gives back.

use vstd::prelude::*;
use crate::gpt::{Gpt, GptView, Partition, PartitionView, TableError};
use crate::text::{chars_of, eq_ignoring_case, same_ignoring_case};

verus! {

/// The formats that a snapshot can be written in and read from.
#[derive(Debug, Clone, Copy, PartialEq, Eq, Structural)]
pub enum Format {
    Json,
}

impl Format {
    /// The name of the format.
    pub open spec fn name_text(self) -> Seq<char> {
        match self {
            Format::Json => "Json"@,
        }
    }

    /// The format that `text` names, whatever the case of its letters.
    pub open spec fn named(text: Seq<char>) -> Option<Format> {
        if same_ignoring_case(text, Format::Json.name_text()) {
            Some(Format::Json)
        } else {
            None
        }
    }

    /// The name of the format.
    pub fn name(self) -> (name: &'static str)
        ensures
            name@ == self.name_text(),
    {
        match self {
            Format::Json => "Json",
        }
    }

    /// Every format, in the order in which they are offered.
    pub fn variants() -> (all: Vec<Format>)
        ensures
            all@ == seq![Format::Json],
    {
        let mut all: Vec<Format> = Vec::new();
        all.push(Format::Json);
        assert(all@ =~= seq![Format::Json]);
        all
    }

    /// The format that `name` names, whatever the case of its letters.
    pub fn from_name(name: &str) -> (format: Option<Format>)
        ensures
            format == Format::named(name@),
    {
        let given = chars_of(name);
        let json = chars_of(Format::Json.name());
        if eq_ignoring_case(given.as_slice(), json.as_slice()) {
            Some(Format::Json)
        } else {
            None
        }
    }
}

/// The versions of the snapshot format.
#[derive(Debug, Clone, Copy, PartialEq, Eq, Structural)]
pub enum PartitionInfoVersion {
    /// The first version.
    V1,
}

impl Default for PartitionInfoVersion {
    /// The earliest version, which a snapshot without a version is read as.
    fn default() -> (version: Self)
        ensures
            version == PartitionInfoVersion::V1,
    {
        PartitionInfoVersion::V1
    }
}

impl PartitionInfoVersion {
    /// The name that a snapshot records the version under.
    pub open spec fn name_text(self) -> Seq<char> {
        match self {
            PartitionInfoVersion::V1 => "V1"@,
        }
    }

    /// The earliest version.
    pub open spec fn earliest() -> PartitionInfoVersion {
        PartitionInfoVersion::V1
    }

    /// The version that a snapshot is read as which records `name` as its
    /// version, or none: the version of that name, and the earliest version
    /// where there is none of that name.
    pub open spec fn recorded(name: Option<Seq<char>>) -> PartitionInfoVersion {
        match name {
            Some(n) => if n == PartitionInfoVersion::V1.name_text() {
                PartitionInfoVersion::V1
            } else {
                PartitionInfoVersion::earliest()
            },
            None => PartitionInfoVersion::earliest(),
        }
    }

    /// The name that a snapshot records the version under.
    pub fn name(self) -> (name: &'static str)
        ensures
            name@ == self.name_text(),
    {
        match self {
            PartitionInfoVersion::V1 => "V1",
        }
    }

    /// The version that a snapshot is read as which records `name` as its
    /// version, or none.
    pub fn read(name: Option<&str>) -> (version: Self)
        ensures
            version == PartitionInfoVersion::recorded(
                match name {
                    Some(n) => Some(n@),
                    None => None,
                },
            ),
    {
        match name {
            Some(n) => {
                if String::from_str(n) == String::from_str(PartitionInfoVersion::V1.name()) {
                    PartitionInfoVersion::V1
                } else {
                    PartitionInfoVersion::default()
                }
            },
            None => PartitionInfoVersion::default(),
        }
    }
}

/// One partition in a snapshot.
#[derive(Debug, PartialEq, Eq)]
pub struct PartInfo {
    pub name: String,
    pub part_type: u128,
    pub uuid: u128,
    pub start: u64,
    pub end: u64,
}

impl View for PartInfo {
    type V = PartitionView;

    open spec fn view(&self) -> PartitionView {
        PartitionView {
            uuid: self.uuid,
            name: self.name@,
            part_type: self.part_type,
            start: self.start,
            end: self.end,
        }
    }
}

/// A portable snapshot of a table and of the device it was taken from.
#[derive(Debug, PartialEq, Eq)]
pub struct DeviceInfo {
    pub version: PartitionInfoVersion,
    pub uuid: u128,
    pub model: String,
    pub block_size: u64,
    pub device_size: u64,
    pub partitions: Vec<PartInfo>,
}

/// What a [`DeviceInfo`] holds, as plain values.
pub struct DeviceInfoView {
    pub version: PartitionInfoVersion,
    pub uuid: u128,
    pub model: Seq<char>,
    pub block_size: u64,
    pub device_size: u64,
    pub partitions: Seq<PartitionView>,
}

impl View for DeviceInfo {
    type V = DeviceInfoView;

    open spec fn view(&self) -> DeviceInfoView {
        DeviceInfoView {
            version: self.version,
            uuid: self.uuid,
            model: self.model@,
            block_size: self.block_size,
            device_size: self.device_size,
            partitions: self.partitions@.map_values(|p: PartInfo| p@),
        }
    }
}

/// Why a snapshot does not give a table.
#[derive(Debug, Clone, Copy, PartialEq, Eq, Structural)]
pub enum RestoreError {
    /// The block size to restore with is zero.
    NoBlockSize,
    /// The table refused one of the partitions, for this reason.
    Refused(TableError),
}

impl RestoreError {
    /// What went wrong, in words.
    pub open spec fn message_text(self) -> Seq<char> {
        match self {
            RestoreError::NoBlockSize => "the block size is zero"@,
            RestoreError::Refused(e) => e.message_text(),
        }
    }

    /// What went wrong, in words.
    pub fn message(self) -> (text: &'static str)
        ensures
            text@ == self.message_text(),
    {
        match self {
            RestoreError::NoBlockSize => "the block size is zero",
            RestoreError::Refused(e) => e.message(),
        }
    }
}

/// The snapshot of `table` on a device with the given block size, size and
/// model.
pub open spec fn snapshot_of(
    table: GptView,
    block_size: u64,
    device_size: u64,
    model: Seq<char>,
    version: PartitionInfoVersion,
) -> DeviceInfoView {
    DeviceInfoView {
        version,
        uuid: table.uuid,
        model,
        block_size,
        device_size,
        partitions: table.partitions,
    }
}

/// `table` after `parts` were inserted one by one, in order; the first
/// refusal ends it.
pub open spec fn filled(table: GptView, parts: Seq<PartitionView>) -> Result<GptView, TableError>
    decreases parts.len(),
{
    if parts.len() == 0 {
        Ok(table)
    } else {
        match filled(table, parts.drop_last()) {
            Ok(t) => t.inserted(parts.last()),
            Err(e) => Err(e),
        }
    }
}

/// The block size that a snapshot is restored with.
pub open spec fn restore_block_size(snapshot: DeviceInfoView, override_block: Option<u64>) -> u64 {
    match override_block {
        Some(b) => b,
        None => snapshot.block_size,
    }
}

/// The table that a snapshot gives: an empty table with the snapshot's
/// identifier and device size, and with its block size unless another is
/// given in its place, into which the partitions are inserted as recorded.
pub open spec fn restored(snapshot: DeviceInfoView, override_block: Option<u64>) -> Result<
    GptView,
    RestoreError,
> {
    let block_size = restore_block_size(snapshot, override_block);
    if block_size == 0 {
        Err(RestoreError::NoBlockSize)
    } else {
        match filled(
            GptView::empty(snapshot.uuid, snapshot.device_size, block_size),
            snapshot.partitions,
        ) {
            Ok(t) => Ok(t),
            Err(e) => Err(RestoreError::Refused(e)),
        }
    }
}

/// Once a partition is refused, the partitions after it change nothing.
pub proof fn lemma_filled_stops(table: GptView, parts: Seq<PartitionView>, k: int)
    requires
        0 <= k <= parts.len(),
        filled(table, parts.take(k)) is Err,
    ensures
        filled(table, parts) == filled(table, parts.take(k)),
    decreases parts.len() - k,
{
    if k < parts.len() {
        assert(parts.take(k + 1).drop_last() =~= parts.take(k));
        lemma_filled_stops(table, parts, k + 1);
    } else {
        assert(parts.take(k) =~= parts);
    }
}

/// Where all of `parts` are accepted, the table holds them after those it
/// had, exactly as they were given, and is otherwise unchanged.
pub proof fn lemma_filled_keeps_records(table: GptView, parts: Seq<PartitionView>)
    requires
        filled(table, parts) is Ok,
    ensures
        filled(table, parts)->Ok_0 == (GptView {
            partitions: table.partitions + parts,
            ..table
        }),
    decreases parts.len(),
{
    if parts.len() == 0 {
        assert(table.partitions + parts =~= table.partitions);
    } else {
        lemma_filled_keeps_records(table, parts.drop_last());
        assert((table.partitions + parts.drop_last()).push(parts.last()) =~= table.partitions
            + parts);
    }
}

/// A well-formed table accepts its own partitions again, in their order,
/// from its first `k` partitions on.
pub(crate) proof fn lemma_refill(table: GptView, k: int)
    requires
        table.wf(),
        0 <= k <= table.partitions.len(),
    ensures
        filled(
            GptView::empty(table.uuid, table.disk_size, table.block_size),
            table.partitions.take(k),
        ) == Ok::<GptView, TableError>(GptView { partitions: table.partitions.take(k), ..table }),
    decreases k,
{
    let start = GptView::empty(table.uuid, table.disk_size, table.block_size);
    if k == 0 {
        assert(table.partitions.take(0) =~= Seq::empty());
    } else {
        lemma_refill(table, k - 1);
        let before = GptView { partitions: table.partitions.take(k - 1), ..table };
        let p = table.partitions[k - 1];
        assert(table.partitions.take(k).drop_last() =~= table.partitions.take(k - 1));
        assert(table.partitions.take(k).last() == p);
        assert(table.fits(p));
        assert(!before.has_id(p.uuid)) by {
            if before.has_id(p.uuid) {
                let i = choose|i: int|
                    0 <= i < before.partitions.len() && #[trigger] before.partitions[i].uuid
                        == p.uuid;
                assert(table.partitions[i].uuid != table.partitions[k - 1].uuid);
            }
        }
        assert(!before.collides(p)) by {
            if before.collides(p) {
                let i = choose|i: int|
                    0 <= i < before.partitions.len() && (#[trigger] before.partitions[i]).overlaps(
                        p,
                    );
                assert(!table.partitions[i].overlaps(table.partitions[k - 1]));
            }
        }
        assert(before.rejection(p) is None);
        assert(table.partitions.take(k - 1).push(p) =~= table.partitions.take(k));
    }
}

/// A snapshot of a well-formed table, taken on the device that the table
/// was made for, restores to that very table: the same identifier, and the
/// same partitions with their names, types, identifiers and offsets, in the
/// same order. This holds for every version and every model text.
pub proof fn lemma_round_trip(table: GptView, model: Seq<char>, version: PartitionInfoVersion)
    requires
        table.wf(),
    ensures
        restored(snapshot_of(table, table.block_size, table.disk_size, model, version), None)
            == Ok::<GptView, RestoreError>(table),
{
    lemma_refill(table, table.partitions.len() as int);
    assert(table.partitions.take(table.partitions.len() as int) =~= table.partitions);
}

/// A snapshot that restores, with or without another block size, gives a
/// table of that block size whose partitions are those recorded, offsets
/// included, in the recorded order.
pub proof fn lemma_restore_keeps_offsets(snapshot: DeviceInfoView, override_block: Option<u64>)
    requires
        restored(snapshot, override_block) is Ok,
    ensures
        restored(snapshot, override_block)->Ok_0 == (GptView {
            uuid: snapshot.uuid,
            disk_size: snapshot.device_size,
            block_size: restore_block_size(snapshot, override_block),
            partitions: snapshot.partitions,
        }),
{
    let start = GptView::empty(
        snapshot.uuid,
        snapshot.device_size,
        restore_block_size(snapshot, override_block),
    );
    lemma_filled_keeps_records(start, snapshot.partitions);
    assert(start.partitions + snapshot.partitions =~= snapshot.partitions);
}

impl DeviceInfo {
    /// The snapshot of `gpt` on a device with the given block size, size
    /// and model.
    pub fn new(
        gpt: &Gpt,
        block_size: u64,
        device_size: u64,
        model: String,
        version: PartitionInfoVersion,
    ) -> (info: Self)
        ensures
            info@ == snapshot_of(gpt@, block_size, device_size, model@, version),
    {
        let parts = gpt.partitions();
        let mut partitions: Vec<PartInfo> = Vec::new();
        let n = parts.len();
        let mut i: usize = 0;
        while i < n
            invariant
                i <= n,
                n == parts@.len(),
                n == gpt@.partitions.len(),
                forall|j: int| 0 <= j < n ==> (#[trigger] parts@[j])@ == gpt@.partitions[j],
                partitions@.len() == i,
                forall|j: int| 0 <= j < i ==> (#[trigger] partitions@[j])@ == gpt@.partitions[j],
            decreases n - i,
        {
            let p = &parts[i];
            partitions.push(
                PartInfo {
                    name: p.name.clone(),
                    part_type: p.part_type,
                    uuid: p.uuid,
                    start: p.start,
                    end: p.end,
                },
            );
            i += 1;
        }
        let info = DeviceInfo { version, uuid: gpt.uuid(), model, block_size, device_size, partitions };
        assert(info@.partitions =~= gpt@.partitions);
        info
    }

    /// The table that the snapshot gives, with the block size recorded in
    /// it.
    pub fn into_gpt(self) -> (res: Result<Gpt, RestoreError>)
        ensures
            match res {
                Ok(gpt) => restored(self@, None) == Ok::<GptView, RestoreError>(gpt@) && gpt@.wf(),
                Err(e) => restored(self@, None) == Err::<GptView, RestoreError>(e),
            },
    {
        self.into_gpt_with(None)
    }

    /// The table that the snapshot gives. With `override_block` the table is
    /// laid out in blocks of that size in place of the recorded one; the
    /// recorded offsets are inserted as they are, and refused where they do
    /// not fall on the boundaries of such blocks.
    pub fn into_gpt_with(self, override_block: Option<u64>) -> (res: Result<Gpt, RestoreError>)
        ensures
            match res {
                Ok(gpt) => {
                    &&& restored(self@, override_block) == Ok::<GptView, RestoreError>(gpt@)
                    &&& gpt@.wf()
                    &&& gpt@.block_size == restore_block_size(self@, override_block)
                    &&& gpt@.partitions == self@.partitions
                },
                Err(e) => restored(self@, override_block) == Err::<GptView, RestoreError>(e),
            },
    {
        let block_size = match override_block {
            Some(b) => b,
            None => self.block_size,
        };
        if block_size == 0 {
            return Err(RestoreError::NoBlockSize);
        }
        let ghost snapshot = self@;
        let gpt = Gpt::new(self.uuid, self.device_size, block_size);
        match fill(gpt, self.partitions) {
            Ok(gpt) => {
                proof {
                    lemma_restore_keeps_offsets(snapshot, override_block);
                }
                Ok(gpt)
            },
            Err(e) => Err(RestoreError::Refused(e)),
        }
    }
}

/// Inserts `parts` into `gpt` one by one, in order, up to the first that the
/// table refuses.
fn fill(table: Gpt, items: Vec<PartInfo>) -> (res: Result<Gpt, TableError>)
    ensures
        match res {
            Ok(full) => filled(table@, items@.map_values(|p: PartInfo| p@)) == Ok::<
                GptView,
                TableError,
            >(full@) && full@.wf(),
            Err(e) => filled(table@, items@.map_values(|p: PartInfo| p@)) == Err::<
                GptView,
                TableError,
            >(e),
        },
{
    let ghost start = table@;
    let ghost records = items@.map_values(|p: PartInfo| p@);
    let mut gpt = table;
    let mut parts = items;
    let n = parts.len();
    let mut i: usize = 0;
    assert(records.take(0) =~= Seq::empty());
    proof {
        use_type_invariant(&gpt);
    }
    while i < n
        invariant
            i <= n,
            n == parts@.len(),
            n == records.len(),
            forall|j: int| i <= j < n ==> (#[trigger] parts@[j])@ == records[j],
            filled(start, records.take(i as int)) == Ok::<GptView, TableError>(gpt@),
            gpt@.wf(),
            start == table@,
            records == items@.map_values(|p: PartInfo| p@),
        decreases n - i,
    {
        let mut taken = PartInfo { name: String::new(), part_type: 0, uuid: 0, start: 0, end: 0 };
        core::mem::swap(&mut parts[i], &mut taken);
        let part = Partition {
            uuid: taken.uuid,
            name: taken.name,
            part_type: taken.part_type,
            start: taken.start,
            end: taken.end,
        };
        proof {
            assert(part@ == records[i as int]);
            assert(records.take(i + 1).drop_last() =~= records.take(i as int));
            assert(records.take(i + 1).last() == part@);
        }
        match gpt.add_partition(part) {
            Ok(()) => {},
            Err(e) => {
                proof {
                    assert(filled(start, records.take(i + 1)) == Err::<GptView, TableError>(e));
                    lemma_filled_stops(start, records, i + 1);
                }
                return Err(e);
            },
        }
        i += 1;
    }
    proof {
        assert(records.take(n as int) =~= records);
    }
    Ok(gpt)
}

} // verus!
