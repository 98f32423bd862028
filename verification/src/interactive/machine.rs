//! The transitions of the session, over plain values.

use vstd::prelude::*;
use crate::actions::added;
use crate::device::Info;
use crate::gpt::{GptView, PartitionView};
use crate::ids::{NIL, UNUSED};
use crate::interactive::{
    ActionView, ErrAction, EventView, ModalView, RowView, Screen, SessionErrorView,
    SessionStateView,
};
use crate::placement::{next_block, saturated, MIN_START};

verus! {

/// The name under which the preview of the free space is shown.
pub open spec fn preview_name() -> Seq<char> {
    "None"@
}

/// Where the preview of the free space starts: on the first block boundary
/// after the partition that was last selected, or at the minimum start
/// where none was selected yet. An offset that no `u64` holds is replaced
/// by the nearest one that does.
pub open spec fn preview_start(last: Option<PartitionView>, table: GptView) -> u64 {
    match last {
        Some(p) => saturated(next_block(p.end, table.block_size)),
        None => MIN_START,
    }
}

/// The preview of the free space: a record that is in no table, without
/// identifier and type, from [`preview_start`] over all that is free there.
/// Where nothing is free there its end lies before its start.
pub open spec fn preview(last: Option<PartitionView>, table: GptView) -> PartitionView {
    let start = preview_start(last, table);
    PartitionView {
        uuid: NIL,
        name: preview_name(),
        part_type: UNUSED,
        start,
        end: saturated(start + table.free_from(start as int) - 1),
    }
}

/// The rows of the partition list: the partitions in their order, then the
/// free-space row.
pub open spec fn rows_of(table: GptView) -> Seq<RowView> {
    table.partitions.map_values(|p: PartitionView| RowView::Real(p)).push(
        RowView::FreeSpacePreview,
    )
}

impl SessionStateView {
    /// The state with the topmost dialog closed.
    pub open spec fn popped(self) -> SessionStateView {
        SessionStateView { modals: self.modals.drop_last(), ..self }
    }

    /// The state with `modal` over everything else.
    pub open spec fn pushed(self, modal: ModalView) -> SessionStateView {
        SessionStateView { modals: self.modals.push(modal), ..self }
    }

    /// The state with `modal` in place of the topmost dialog.
    pub open spec fn replaced(self, modal: ModalView) -> SessionStateView {
        SessionStateView { modals: self.modals.drop_last().push(modal), ..self }
    }

    /// The state after the session has ended.
    pub open spec fn ended(self) -> SessionStateView {
        SessionStateView { running: false, ..self }
    }

    /// What dismissing a dialog gives.
    pub open spec fn dismissed(self, on_dismiss: ErrAction) -> (SessionStateView, ActionView) {
        match on_dismiss {
            ErrAction::Quit => (self.ended(), ActionView::Quit),
            ErrAction::Dismiss => (self.popped(), ActionView::Nothing),
        }
    }

    /// The state after the row at `index` was selected in the list of
    /// `table`. A partition becomes the last selected record and is shown;
    /// the free-space row shows the preview and leaves the last selected
    /// record as it is; an index past the rows changes nothing.
    pub open spec fn selected(self, table: GptView, index: usize) -> SessionStateView {
        if index < table.partitions.len() {
            SessionStateView {
                last_selected_record: Some(table.partitions[index as int]),
                detail: Some(table.partitions[index as int]),
                ..self
            }
        } else if index == table.partitions.len() {
            SessionStateView { detail: Some(preview(self.last_selected_record, table)), ..self }
        } else {
            self
        }
    }

    /// The state that shows the partition list of `table`, with nothing over
    /// it and its first row selected.
    pub open spec fn entered(self, table: GptView) -> SessionStateView {
        (SessionStateView {
            screen: Screen::PartitionList,
            current_table: Some(table),
            last_selected_record: None,
            detail: None,
            ..self
        }).selected(table, 0)
    }

    /// The transition while a dialog is open: `modal` is the topmost one.
    pub open spec fn modal_step(self, modal: ModalView, event: EventView) -> (
        SessionStateView,
        ActionView,
    ) {
        match (modal, event) {
            (ModalView::ErrorRecovery { on_dismiss, .. }, EventView::CreateTable) => (
                self.replaced(ModalView::CreateConfirmation { on_dismiss }),
                ActionView::Nothing,
            ),
            (ModalView::ErrorRecovery { on_dismiss, .. }, EventView::Dismiss) => self.dismissed(
                on_dismiss,
            ),
            (ModalView::CreateConfirmation { on_dismiss }, EventView::ConfirmCreate { uuid }) => {
                match self.device {
                    Some(d) if d.block_size > 0 => (
                        self.popped().entered(GptView::empty(uuid, d.disk_size, d.block_size)),
                        ActionView::WriteTable,
                    ),
                    _ => (
                        self.replaced(
                            ModalView::Error { error: SessionErrorView::NoBlockSize, on_dismiss },
                        ),
                        ActionView::Nothing,
                    ),
                }
            },
            (ModalView::CreateConfirmation { on_dismiss }, EventView::Dismiss) => self.dismissed(
                on_dismiss,
            ),
            (ModalView::DumpFormat, EventView::SelectFormat(format)) => (
                self.replaced(ModalView::DumpTarget { format }),
                ActionView::Nothing,
            ),
            (ModalView::DumpFormat, EventView::Dismiss) => (self.popped(), ActionView::Nothing),
            (ModalView::DumpTarget { format }, EventView::SubmitDump(path)) => (
                self,
                ActionView::WriteDump { path, format },
            ),
            (ModalView::DumpTarget { .. }, EventView::DumpWritten(Ok(()))) => (
                self.popped(),
                ActionView::Nothing,
            ),
            (ModalView::DumpTarget { .. }, EventView::DumpWritten(Err(message))) => (
                self.pushed(
                    ModalView::Error {
                        error: SessionErrorView::Io(message),
                        on_dismiss: ErrAction::Dismiss,
                    },
                ),
                ActionView::Nothing,
            ),
            (ModalView::DumpTarget { .. }, EventView::Dismiss) => (self.popped(), ActionView::Nothing),
            (ModalView::Error { on_dismiss, .. }, EventView::Dismiss) => self.dismissed(on_dismiss),
            _ => (self, ActionView::Nothing),
        }
    }

    /// The transition on the device list with no dialog open.
    pub open spec fn device_list_step(self, event: EventView) -> (SessionStateView, ActionView) {
        match event {
            EventView::SelectDevice(index) => if index < self.devices.len() {
                (
                    SessionStateView { device: Some(self.devices[index as int]), ..self },
                    ActionView::ReadTable(self.devices[index as int]),
                )
            } else {
                (self, ActionView::Nothing)
            },
            EventView::TableRead(Ok(table)) => (self.entered(table), ActionView::Nothing),
            EventView::TableRead(Err(message)) => (
                self.pushed(ModalView::ErrorRecovery { message, on_dismiss: self.on_failure }),
                ActionView::Nothing,
            ),
            _ => (self, ActionView::Nothing),
        }
    }

    /// The transition on the partition list of `table` with no dialog open.
    pub open spec fn partition_list_step(self, table: GptView, event: EventView) -> (
        SessionStateView,
        ActionView,
    ) {
        match event {
            EventView::SelectPartition(index) => (self.selected(table, index), ActionView::Nothing),
            EventView::AddPartition { uuid, partition_type } => {
                let start = preview_start(self.last_selected_record, table);
                match added(
                    table,
                    table.block_size,
                    uuid,
                    partition_type,
                    start,
                    start + table.free_from(start as int) - 1,
                ) {
                    Ok(grown) => (
                        SessionStateView {
                            current_table: Some(grown),
                            last_selected_record: Some(grown.partitions.last()),
                            detail: Some(grown.partitions.last()),
                            ..self
                        },
                        ActionView::WriteTable,
                    ),
                    Err(e) => (
                        self.pushed(
                            ModalView::Error {
                                error: SessionErrorView::Table(e),
                                on_dismiss: ErrAction::Dismiss,
                            },
                        ),
                        ActionView::Nothing,
                    ),
                }
            },
            EventView::RequestDump => (self.pushed(ModalView::DumpFormat), ActionView::Nothing),
            EventView::TableWritten(Err(message)) => (
                self.pushed(
                    ModalView::Error {
                        error: SessionErrorView::Io(message),
                        on_dismiss: ErrAction::Dismiss,
                    },
                ),
                ActionView::Nothing,
            ),
            _ => (self, ActionView::Nothing),
        }
    }

    /// The transition: the state after `event`, and what is to be done.
    ///
    /// A session that has ended stays as it is. A running one ends on
    /// [`Event::Quit`], whatever it shows. Otherwise the topmost dialog
    /// takes the event, or the screen where no dialog is open; an event that
    /// means nothing there changes nothing.
    pub open spec fn step(self, event: EventView) -> (SessionStateView, ActionView) {
        if !self.running {
            (self, ActionView::Nothing)
        } else if event is Quit {
            (self.ended(), ActionView::Quit)
        } else if self.modals.len() > 0 {
            self.modal_step(self.modals.last(), event)
        } else {
            match (self.screen, self.current_table) {
                (Screen::DeviceList, _) => self.device_list_step(event),
                (Screen::PartitionList, Some(table)) => self.partition_list_step(table, event),
                (Screen::PartitionList, None) => (self, ActionView::Nothing),
            }
        }
    }

    /// The table of the session, if there is one, is well-formed, and the
    /// last selected record, if there is one, is a partition of that table.
    pub open spec fn wf(self) -> bool {
        &&& self.current_table matches Some(t) ==> t.wf()
        &&& self.last_selected_record matches Some(p) ==> {
            &&& self.current_table is Some
            &&& self.current_table->0.partitions.contains(p)
        }
    }
}

impl EventView {
    /// A table that the event brings is well-formed.
    pub open spec fn wf(self) -> bool {
        self matches EventView::TableRead(Ok(t)) ==> t.wf()
    }
}

/// The state that a session starts in, and what it asks for first.
pub open spec fn initial(info: Option<Info>, devices: Result<Vec<Info>, String>) -> (
    SessionStateView,
    ActionView,
) {
    let blank = SessionStateView {
        running: true,
        screen: Screen::DeviceList,
        modals: Seq::empty(),
        devices: Seq::empty(),
        device: None,
        on_failure: ErrAction::Quit,
        current_table: None,
        last_selected_record: None,
        detail: None,
    };
    match (info, devices) {
        (Some(device), _) => (
            SessionStateView { device: Some(device@), ..blank },
            ActionView::ReadTable(device@),
        ),
        (None, Ok(list)) => (
            SessionStateView {
                devices: list@.map_values(|d: Info| d@),
                on_failure: ErrAction::Dismiss,
                ..blank
            },
            ActionView::Nothing,
        ),
        (None, Err(message)) => (
            blank.pushed(
                ModalView::Error {
                    error: SessionErrorView::Io(message@),
                    on_dismiss: ErrAction::Quit,
                },
            ),
            ActionView::Nothing,
        ),
    }
}

} // verus!
