//! The texts of the two lists and of the detail panel.

use vstd::prelude::*;
use vstd::string::*;
use crate::gpt::{Partition, PartitionView};
use crate::text::{
    appropriate_unit, decimal, decimal_text, hyphenated, size_text, uuid_text,
};

verus! {

/// The lines of the detail panel.
#[derive(Debug, PartialEq, Eq)]
pub struct Details {
    pub name: String,
    pub start: String,
    pub size: String,
    pub uuid: String,
    pub part_type: String,
}

/// The size of a record in bytes as it is shown: what a `u64` holds of it.
pub open spec fn shown_size(record: PartitionView) -> u64 {
    if record.size() > u64::MAX {
        u64::MAX
    } else {
        record.size() as u64
    }
}

/// The size of a record in bytes as it is shown.
pub fn size_of(record: &Partition) -> (size: u64)
    ensures
        size == shown_size(record@),
{
    if record.start <= record.end {
        let span = record.end - record.start;
        if span == u64::MAX {
            u64::MAX
        } else {
            span + 1
        }
    } else {
        0
    }
}

/// `label` followed by `value`.
fn line(label: &str, value: &str) -> (text: String)
    ensures
        text@ == label@ + value@,
{
    let mut text = String::from_str(label);
    text.append(value);
    text
}

/// The lines of the detail panel for a record, be it a partition or the
/// preview of the free space: its name, its start in bytes, its size in the
/// unit that suits it, its identifier and its type.
pub fn details(record: &Partition) -> (shown: Details)
    ensures
        shown.name@ == "Name: "@ + record@.name,
        shown.start@ == "Start: "@ + decimal_text(record@.start as nat),
        shown.size@ == "Size: "@ + appropriate_unit(shown_size(record@)),
        shown.uuid@ == "UUID: "@ + hyphenated(record@.uuid),
        shown.part_type@ == "Type: "@ + hyphenated(record@.part_type),
{
    Details {
        name: line("Name: ", record.name.as_str()),
        start: line("Start: ", decimal(record.start as u128).as_str()),
        size: line("Size: ", size_text(size_of(record)).as_str()),
        uuid: line("UUID: ", uuid_text(record.uuid).as_str()),
        part_type: line("Type: ", uuid_text(record.part_type).as_str()),
    }
}

/// The label of the partition at `index` of the list, which counts from
/// one.
pub fn partition_label(index: usize) -> (label: String)
    ensures
        label@ == "Partition "@ + decimal_text((index + 1) as nat),
{
    line("Partition ", decimal(index as u128 + 1).as_str())
}

/// The label of the row that stands for the free space.
pub fn free_space_label() -> (label: &'static str)
    ensures
        label@ == "Free Space"@,
{
    "Free Space"
}

/// The title of the partition list of the device called `name`.
pub fn partitions_title(name: &str) -> (title: String)
    ensures
        title@ == "Partitions ("@ + name@ + ")"@,
{
    let mut title = line("Partitions (", name);
    title.append(")");
    title
}

/// The model as the device list shows it: `None` where the device reports
/// none.
pub open spec fn model_shown(model: Option<&str>) -> Seq<char> {
    match model {
        Some(m) => m@,
        None => "None"@,
    }
}

/// The label of a device in the device list: its name, its size in the unit
/// that suits it, and its model.
pub fn disk_label(name: &str, size: u64, model: Option<&str>) -> (label: String)
    ensures
        label@ == "Disk "@ + name@ + " - "@ + appropriate_unit(size) + " - Model: "@
            + model_shown(model),
{
    let mut label = line("Disk ", name);
    label.append(" - ");
    label.append(size_text(size).as_str());
    label.append(" - Model: ");
    match model {
        Some(m) => label.append(m),
        None => label.append("None"),
    }
    label
}

/// The label of a partition as the system knows it: its number and the name
/// of its device file.
pub fn system_partition_label(number: u64, name: &str) -> (label: String)
    ensures
        label@ == "Partition "@ + decimal_text(number as nat) + " (/dev/"@ + name@ + ")"@,
{
    let mut label = line("Partition ", decimal(number as u128).as_str());
    label.append(" (/dev/");
    label.append(name);
    label.append(")");
    label
}

/// The lines that describe where a partition lies, as the system knows it.
#[derive(Debug, PartialEq, Eq)]
pub struct Extent {
    pub start: String,
    pub end: String,
    pub size: String,
}

/// `value`, or zero where the system does not say.
pub open spec fn or_zero(value: Option<u64>) -> u64 {
    match value {
        Some(v) => v,
        None => 0,
    }
}

/// The byte right after a partition of `size` bytes at `start`, or the
/// highest offset where a `u64` does not hold it.
pub open spec fn past_end(start: u64, size: u64) -> u64 {
    if start + size > u64::MAX {
        u64::MAX
    } else {
        (start + size) as u64
    }
}

/// The lines that describe where a partition lies, from its start and its
/// size in bytes as the system reports them: the start, the byte right after
/// its end, and the size in the unit that suits it. What the system does not
/// say counts as zero.
pub fn system_partition_extent(start: Option<u64>, size: Option<u64>) -> (shown: Extent)
    ensures
        shown.start@ == "Start: "@ + decimal_text(or_zero(start) as nat) + " bytes"@,
        shown.end@ == "End: "@ + decimal_text(past_end(or_zero(start), or_zero(size)) as nat)
            + " bytes"@,
        shown.size@ == "Size: "@ + appropriate_unit(or_zero(size)),
{
    let from = match start {
        Some(v) => v,
        None => 0,
    };
    let bytes = match size {
        Some(v) => v,
        None => 0,
    };
    let to = match from.checked_add(bytes) {
        Some(v) => v,
        None => u64::MAX,
    };
    let mut first = line("Start: ", decimal(from as u128).as_str());
    first.append(" bytes");
    let mut second = line("End: ", decimal(to as u128).as_str());
    second.append(" bytes");
    Extent { start: first, end: second, size: line("Size: ", size_text(bytes).as_str()) }
}

} // verus!
