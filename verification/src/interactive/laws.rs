//! What holds of every session, whatever the events.

use vstd::prelude::*;
use crate::actions::planned_end;
use crate::blocks::{lemma_block_end, lemma_round_down_block};
use crate::device::Info;
use crate::gpt::{lemma_barrier, lemma_inserted_wf, GptView, PartitionView};
use crate::interactive::machine::{initial, preview, preview_start, rows_of};
use crate::interactive::{
    ActionView, ErrAction, EventView, ModalView, RowView, SessionErrorView, SessionStateView,
};
use crate::placement::next_block;

verus! {

/// A session that has ended stays as it is and asks for nothing.
pub proof fn lemma_ended_stays(state: SessionStateView, event: EventView)
    requires
        !state.running,
    ensures
        state.step(event) == (state, ActionView::Nothing),
{
}

/// The table is replaced only when one was read, when a new one was
/// confirmed, or when a partition was added: no other event touches it. In
/// particular a selection does not, so the preview of the free space gets
/// into no table by being selected or shown.
pub proof fn lemma_table_changes_only_on_request(state: SessionStateView, event: EventView)
    requires
        !(event is TableRead),
        !(event is ConfirmCreate),
        !(event is AddPartition),
    ensures
        state.step(event).0.current_table == state.current_table,
{
}

/// The last selected record is replaced only by a selection, or together
/// with the table.
pub proof fn lemma_last_selected_changes_only_on_selection(
    state: SessionStateView,
    event: EventView,
)
    requires
        !(event is SelectPartition),
        !(event is TableRead),
        !(event is ConfirmCreate),
        !(event is AddPartition),
    ensures
        state.step(event).0.last_selected_record == state.last_selected_record,
{
}

/// Selecting a row of the partition list shows what the row stands for: the
/// partition of a partition row, which then is the last selected record, and
/// the preview of the free space for the free-space row.
pub proof fn lemma_selection_shows_row(state: SessionStateView, index: usize)
    requires
        state.running,
        state.modals.len() == 0,
        state.screen is PartitionList,
        state.current_table is Some,
        index < rows_of(state.current_table->0).len(),
    ensures
        ({
            let table = state.current_table->0;
            let next = state.step(EventView::SelectPartition(index)).0;
            match rows_of(table)[index as int] {
                RowView::Real(p) => next.detail == Some(p) && next.last_selected_record == Some(p),
                RowView::FreeSpacePreview => {
                    &&& next.detail == Some(preview(state.last_selected_record, table))
                    &&& next.last_selected_record == state.last_selected_record
                },
            }
        }),
{
}

/// Selecting the free-space row, or a row that is not there, keeps the last
/// selected record, whatever was selected before.
pub proof fn lemma_preview_keeps_last_selected(state: SessionStateView, index: usize)
    requires
        state.current_table is Some,
        index >= state.current_table->0.partitions.len(),
    ensures
        state.step(EventView::SelectPartition(index)).0.last_selected_record
            == state.last_selected_record,
{
}

/// A session that is well-formed stays so through every event that brings
/// no ill-formed table: its table stays well-formed, and its last selected
/// record stays a partition of its table.
pub proof fn lemma_step_keeps_wf(state: SessionStateView, event: EventView)
    requires
        state.wf(),
        event.wf(),
    ensures
        state.step(event).0.wf(),
{
    let next = state.step(event).0;
    if state.running && !(event is Quit) {
        if state.modals.len() > 0 {
            if let (ModalView::CreateConfirmation { .. }, EventView::ConfirmCreate { uuid }) = (
                state.modals.last(),
                event,
            ) {
                if let Some(d) = state.device {
                    if d.block_size > 0 {
                        let table = GptView::empty(uuid, d.disk_size, d.block_size);
                        lemma_entered_wf(state.popped(), table);
                    }
                }
            }
        } else if state.screen is DeviceList {
            if let EventView::TableRead(Ok(table)) = event {
                lemma_entered_wf(state, table);
            }
        } else if let Some(table) = state.current_table {
            match event {
                EventView::AddPartition { uuid, partition_type } => {
                    let start = preview_start(state.last_selected_record, table);
                    let raw = start + table.free_from(start as int) - 1;
                    if let Ok(end) = planned_end(start, raw, table.block_size) {
                        let p = PartitionView {
                            uuid,
                            name: Seq::empty(),
                            part_type: partition_type,
                            start,
                            end,
                        };
                        lemma_inserted_wf(table, p);
                        if table.rejection(p) is None {
                            let grown = table.with(p);
                            assert(grown.partitions[grown.partitions.len() - 1]
                                == grown.partitions.last());
                        }
                    }
                },
                EventView::SelectPartition(index) => {
                    if index < table.partitions.len() {
                        assert(table.partitions[index as int] == table.partitions[index as int]);
                    }
                },
                _ => {},
            }
        }
    }
}

/// Entering the partition list of a well-formed table gives a well-formed
/// session.
proof fn lemma_entered_wf(state: SessionStateView, table: GptView)
    requires
        table.wf(),
    ensures
        state.entered(table).wf(),
{
    if table.partitions.len() > 0 {
        assert(table.partitions[0] == table.partitions[0]);
    }
}

/// In a well-formed session the preview of the free space starts right
/// after the last selected record, on a block boundary of the device.
pub proof fn lemma_preview_start(state: SessionStateView)
    requires
        state.wf(),
        state.current_table is Some,
        state.last_selected_record is Some,
    ensures
        ({
            let table = state.current_table->0;
            let last = state.last_selected_record->0;
            let start = preview_start(Some(last), table);
            &&& start == last.end + 1
            &&& start % table.block_size == 0
            &&& start <= table.disk_size
        }),
{
    let table = state.current_table->0;
    let last = state.last_selected_record->0;
    let i = choose|i: int| 0 <= i < table.partitions.len() && table.partitions[i] == last;
    assert(table.fits(table.partitions[i]));
    lemma_block_end(last.end as int, table.block_size as int);
}

/// After a partition of a well-formed table was selected, the free-space
/// row shows a preview that starts on the block boundary right after that
/// partition and is as large as the free space there. Neither selection
/// changes the table.
pub proof fn lemma_preview_after_selection(state: SessionStateView, index: usize)
    requires
        state.running,
        state.modals.len() == 0,
        state.screen is PartitionList,
        state.current_table is Some,
        state.current_table->0.wf(),
        index < state.current_table->0.partitions.len(),
        state.current_table->0.partitions.len() <= usize::MAX,
    ensures
        ({
            let table = state.current_table->0;
            let chosen = table.partitions[index as int];
            let first = state.step(EventView::SelectPartition(index)).0;
            let second = first.step(
                EventView::SelectPartition(table.partitions.len() as usize),
            ).0;
            &&& first.detail == Some(chosen)
            &&& first.last_selected_record == Some(chosen)
            &&& second.last_selected_record == Some(chosen)
            &&& second.current_table == Some(table)
            &&& second.detail is Some
            &&& second.detail->0 == preview(Some(chosen), table)
            &&& second.detail->0.start == chosen.end + 1
            &&& second.detail->0.start == next_block(chosen.end, table.block_size)
            &&& second.detail->0.start % table.block_size == 0
            &&& second.detail->0.size() == table.free_from(second.detail->0.start as int)
        }),
{
    let table = state.current_table->0;
    let chosen = table.partitions[index as int];
    assert(table.fits(chosen));
    lemma_block_end(chosen.end as int, table.block_size as int);
    let start = preview_start(Some(chosen), table);
    assert(start == chosen.end + 1);
    table.lemma_free_from(start as int);
    lemma_barrier(table.partitions, start as int, table.usable_end());
    lemma_round_down_block(table.disk_size as int, table.block_size as int);
}

/// A dump that could not be written leaves the partition list as it was:
/// the failure is shown over the dialog that asked for the file, and
/// dismissing it returns to that dialog with everything else unchanged.
pub proof fn lemma_failed_dump_keeps_state(state: SessionStateView, message: Seq<char>)
    requires
        state.running,
        state.modals.len() > 0,
        state.modals.last() is DumpTarget,
    ensures
        ({
            let (shown, action) = state.step(EventView::DumpWritten(Err(message)));
            &&& action == ActionView::Nothing
            &&& shown == state.pushed(
                ModalView::Error {
                    error: SessionErrorView::Io(message),
                    on_dismiss: ErrAction::Dismiss,
                },
            )
            &&& shown.step(EventView::Dismiss) == (state, ActionView::Nothing)
        }),
{
    let shown = state.step(EventView::DumpWritten(Err(message))).0;
    assert(shown.modals.drop_last() =~= state.modals);
}

/// A partition that the table refuses is not added: the table stays as it
/// was, the refusal is shown, and dismissing it returns to the partition
/// list unchanged.
pub proof fn lemma_refused_add_keeps_state(
    state: SessionStateView,
    uuid: u128,
    partition_type: u128,
)
    requires
        state.running,
        state.modals.len() == 0,
        state.screen is PartitionList,
        state.current_table is Some,
    ensures
        ({
            let (next, action) = state.step(EventView::AddPartition { uuid, partition_type });
            action != ActionView::WriteTable ==> {
                &&& next.current_table == state.current_table
                &&& next.modals.len() == 1
                &&& next.modals[0] is Error
                &&& next.step(EventView::Dismiss) == (state, ActionView::Nothing)
            }
        }),
{
    let next = state.step(EventView::AddPartition { uuid, partition_type }).0;
    if next.modals.len() == 1 {
        assert(next.modals.drop_last() =~= state.modals);
    }
}

/// What the dialog does that reports a device without a valid table, when
/// it is dismissed: a session that was opened on one device ends; a session
/// that came from the device list is back on the list.
pub proof fn lemma_recovery_dismissal(state: SessionStateView, message: Seq<char>)
    requires
        state.running,
        state.modals.len() == 0,
        state.screen is DeviceList,
    ensures
        ({
            let reported = state.step(EventView::TableRead(Err(message))).0;
            let (after, action) = reported.step(EventView::Dismiss);
            &&& reported.modals.len() == 1
            &&& reported.modals[0] is ErrorRecovery
            &&& state.on_failure is Quit ==> !after.running && action == ActionView::Quit
            &&& state.on_failure is Dismiss ==> after == state && action == ActionView::Nothing
        }),
{
    let reported = state.step(EventView::TableRead(Err(message))).0;
    assert(reported.modals.drop_last() =~= state.modals);
}

/// Every session starts well-formed.
pub proof fn lemma_initial_wf(info: Option<Info>, devices: Result<Vec<Info>, String>)
    ensures
        initial(info, devices).0.wf(),
        initial(info, devices).0.running,
{
}

} // verus!
