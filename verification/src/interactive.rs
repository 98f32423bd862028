//! The interactive session as a state machine: which screen is shown, which
//! dialogs lie over it, what is selected, and what each event changes.
//!
//! The machine does no input or output. Where an event calls for some, the
//! transition names it as an [`Action`]; whoever runs the session performs
//! the action and hands its outcome back as the next event.

use vstd::prelude::*;
use crate::actions::add_range;
use crate::device::{Info, InfoView};
use crate::gpt::{Gpt, GptView, Partition, PartitionView, TableError};
use crate::ids::{NIL, UNUSED};
use crate::interactive::machine::{initial, preview, preview_start, rows_of};
use crate::placement::{last_of, End, MIN_START};
use crate::snapshot::Format;

pub mod laws;
pub mod machine;
pub mod views;

verus! {

/// What dismissing a dialog does: end the session, or return to what lies
/// under the dialog.
#[derive(Debug, Clone, Copy, PartialEq, Eq, Structural)]
pub enum ErrAction {
    Quit,
    Dismiss,
}

/// The screen under the dialogs.
#[derive(Debug, Clone, Copy, PartialEq, Eq, Structural)]
pub enum Screen {
    DeviceList,
    PartitionList,
}

/// What went wrong, as an error dialog shows it.
#[derive(Debug, PartialEq, Eq)]
pub enum SessionError {
    /// Reading or writing failed, with the message of the failure.
    Io(String),
    /// The table refused a partition.
    Table(TableError),
    /// The device's block size is not known, so no table can be laid out.
    NoBlockSize,
}

/// What a [`SessionError`] holds, as plain values.
pub enum SessionErrorView {
    Io(Seq<char>),
    Table(TableError),
    NoBlockSize,
}

impl SessionErrorView {
    /// What went wrong, in words.
    pub open spec fn message_text(self) -> Seq<char> {
        match self {
            SessionErrorView::Io(m) => m,
            SessionErrorView::Table(e) => e.message_text(),
            SessionErrorView::NoBlockSize => "the block size of the device is not known"@,
        }
    }
}

impl SessionError {
    /// What went wrong, in words.
    pub fn message(&self) -> (text: String)
        ensures
            text@ == self@.message_text(),
    {
        match self {
            SessionError::Io(m) => m.clone(),
            SessionError::Table(e) => String::from_str(e.message()),
            SessionError::NoBlockSize => String::from_str(
                "the block size of the device is not known",
            ),
        }
    }
}

impl View for SessionError {
    type V = SessionErrorView;

    open spec fn view(&self) -> SessionErrorView {
        match self {
            SessionError::Io(m) => SessionErrorView::Io(m@),
            SessionError::Table(e) => SessionErrorView::Table(*e),
            SessionError::NoBlockSize => SessionErrorView::NoBlockSize,
        }
    }
}

/// A dialog that lies over the screen.
#[derive(Debug, PartialEq, Eq)]
pub enum Modal {
    /// No valid table was found on the device: offers to create one.
    ErrorRecovery { message: String, on_dismiss: ErrAction },
    /// Asks whether a new table shall be written to the device.
    CreateConfirmation { on_dismiss: ErrAction },
    /// Asks for the format of a dump.
    DumpFormat,
    /// Asks for the file that a dump goes to.
    DumpTarget { format: Format },
    /// Shows an error.
    Error { error: SessionError, on_dismiss: ErrAction },
}

/// What a [`Modal`] holds, as plain values.
pub enum ModalView {
    ErrorRecovery { message: Seq<char>, on_dismiss: ErrAction },
    CreateConfirmation { on_dismiss: ErrAction },
    DumpFormat,
    DumpTarget { format: Format },
    Error { error: SessionErrorView, on_dismiss: ErrAction },
}

impl View for Modal {
    type V = ModalView;

    open spec fn view(&self) -> ModalView {
        match self {
            Modal::ErrorRecovery { message, on_dismiss } => ModalView::ErrorRecovery {
                message: message@,
                on_dismiss: *on_dismiss,
            },
            Modal::CreateConfirmation { on_dismiss } => ModalView::CreateConfirmation {
                on_dismiss: *on_dismiss,
            },
            Modal::DumpFormat => ModalView::DumpFormat,
            Modal::DumpTarget { format } => ModalView::DumpTarget { format: *format },
            Modal::Error { error, on_dismiss } => ModalView::Error {
                error: error@,
                on_dismiss: *on_dismiss,
            },
        }
    }
}

/// A row of the partition list: a partition of the table, or the row that
/// stands for the free space, which is no partition.
#[derive(Debug, PartialEq, Eq)]
pub enum Row {
    Real(Partition),
    FreeSpacePreview,
}

/// What a [`Row`] holds, as plain values.
pub enum RowView {
    Real(PartitionView),
    FreeSpacePreview,
}

impl View for Row {
    type V = RowView;

    open spec fn view(&self) -> RowView {
        match self {
            Row::Real(p) => RowView::Real(p@),
            Row::FreeSpacePreview => RowView::FreeSpacePreview,
        }
    }
}

/// What happened: a choice of the user, or the outcome of an [`Action`].
#[derive(Debug, PartialEq, Eq)]
pub enum Event {
    /// The device at this index of the device list was chosen.
    SelectDevice(usize),
    /// The table of the device was read and parsed, or was not.
    TableRead(Result<Gpt, String>),
    /// "Create New Table" was chosen in the error recovery dialog.
    CreateTable,
    /// The creation of a new table with this identifier was confirmed.
    ConfirmCreate { uuid: u128 },
    /// The table was written to the device, or was not.
    TableWritten(Result<(), String>),
    /// The topmost dialog was dismissed.
    Dismiss,
    /// The row at this index of the partition list was selected.
    SelectPartition(usize),
    /// A partition with this identifier and type shall fill the free space
    /// that the free-space row previews.
    AddPartition { uuid: u128, partition_type: u128 },
    /// A dump of the table was asked for.
    RequestDump,
    /// The format of the dump was chosen.
    SelectFormat(Format),
    /// The file for the dump was entered.
    SubmitDump(String),
    /// The dump was written to the file, or was not.
    DumpWritten(Result<(), String>),
    /// The session shall end.
    Quit,
}

/// What an [`Event`] holds, as plain values.
pub enum EventView {
    SelectDevice(usize),
    TableRead(Result<GptView, Seq<char>>),
    CreateTable,
    ConfirmCreate { uuid: u128 },
    TableWritten(Result<(), Seq<char>>),
    Dismiss,
    SelectPartition(usize),
    AddPartition { uuid: u128, partition_type: u128 },
    RequestDump,
    SelectFormat(Format),
    SubmitDump(Seq<char>),
    DumpWritten(Result<(), Seq<char>>),
    Quit,
}

/// The outcome of an input or output, with the message as plain text.
pub open spec fn outcome_view(outcome: Result<(), String>) -> Result<(), Seq<char>> {
    match outcome {
        Ok(()) => Ok(()),
        Err(m) => Err(m@),
    }
}

impl View for Event {
    type V = EventView;

    open spec fn view(&self) -> EventView {
        match self {
            Event::SelectDevice(i) => EventView::SelectDevice(*i),
            Event::TableRead(Ok(gpt)) => EventView::TableRead(Ok(gpt@)),
            Event::TableRead(Err(m)) => EventView::TableRead(Err(m@)),
            Event::CreateTable => EventView::CreateTable,
            Event::ConfirmCreate { uuid } => EventView::ConfirmCreate { uuid: *uuid },
            Event::TableWritten(outcome) => EventView::TableWritten(outcome_view(*outcome)),
            Event::Dismiss => EventView::Dismiss,
            Event::SelectPartition(i) => EventView::SelectPartition(*i),
            Event::AddPartition { uuid, partition_type } => EventView::AddPartition {
                uuid: *uuid,
                partition_type: *partition_type,
            },
            Event::RequestDump => EventView::RequestDump,
            Event::SelectFormat(f) => EventView::SelectFormat(*f),
            Event::SubmitDump(path) => EventView::SubmitDump(path@),
            Event::DumpWritten(outcome) => EventView::DumpWritten(outcome_view(*outcome)),
            Event::Quit => EventView::Quit,
        }
    }
}

/// What the one who runs the session has to do after a transition.
#[derive(Debug, PartialEq, Eq)]
pub enum Action {
    Nothing,
    /// Read the table of this device and answer with [`Event::TableRead`].
    ReadTable(Info),
    /// Write the current table to the current device and answer with
    /// [`Event::TableWritten`].
    WriteTable,
    /// Write a dump of the current table to this file in this format and
    /// answer with [`Event::DumpWritten`].
    WriteDump { path: String, format: Format },
    /// End the session.
    Quit,
}

/// What an [`Action`] holds, as plain values.
pub enum ActionView {
    Nothing,
    ReadTable(InfoView),
    WriteTable,
    WriteDump { path: Seq<char>, format: Format },
    Quit,
}

impl View for Action {
    type V = ActionView;

    open spec fn view(&self) -> ActionView {
        match self {
            Action::Nothing => ActionView::Nothing,
            Action::ReadTable(info) => ActionView::ReadTable(info@),
            Action::WriteTable => ActionView::WriteTable,
            Action::WriteDump { path, format } => ActionView::WriteDump {
                path: path@,
                format: *format,
            },
            Action::Quit => ActionView::Quit,
        }
    }
}

/// The state of a session.
#[derive(Debug, PartialEq, Eq)]
pub struct SessionState {
    /// Whether the session goes on. Once it has ended nothing changes any
    /// more.
    pub running: bool,
    pub screen: Screen,
    /// The dialogs over the screen, the topmost last.
    pub modals: Vec<Modal>,
    /// The devices that the device list offers.
    pub devices: Vec<Info>,
    /// The device that was chosen.
    pub device: Option<Info>,
    /// What dismissing the dialog does that reports a device without a
    /// valid table.
    pub on_failure: ErrAction,
    /// The table of the chosen device.
    pub current_table: Option<Gpt>,
    /// The partition that was last selected in the partition list. The
    /// free-space row is placed after it.
    pub last_selected_record: Option<Partition>,
    /// What the detail panel shows: the selected partition, or the preview
    /// of the free space.
    pub detail: Option<Partition>,
}

/// What a [`SessionState`] holds, as plain values.
pub struct SessionStateView {
    pub running: bool,
    pub screen: Screen,
    pub modals: Seq<ModalView>,
    pub devices: Seq<InfoView>,
    pub device: Option<InfoView>,
    pub on_failure: ErrAction,
    pub current_table: Option<GptView>,
    pub last_selected_record: Option<PartitionView>,
    pub detail: Option<PartitionView>,
}

/// The view of a table that may be missing.
pub open spec fn table_view(table: Option<Gpt>) -> Option<GptView> {
    match table {
        Some(t) => Some(t@),
        None => None,
    }
}

/// The view of a partition that may be missing.
pub open spec fn record_view(record: Option<Partition>) -> Option<PartitionView> {
    match record {
        Some(p) => Some(p@),
        None => None,
    }
}

/// The view of a device that may be missing.
pub open spec fn device_view(device: Option<Info>) -> Option<InfoView> {
    match device {
        Some(d) => Some(d@),
        None => None,
    }
}

impl View for SessionState {
    type V = SessionStateView;

    open spec fn view(&self) -> SessionStateView {
        SessionStateView {
            running: self.running,
            screen: self.screen,
            modals: self.modals@.map_values(|m: Modal| m@),
            devices: self.devices@.map_values(|d: Info| d@),
            device: device_view(self.device),
            on_failure: self.on_failure,
            current_table: table_view(self.current_table),
            last_selected_record: record_view(self.last_selected_record),
            detail: record_view(self.detail),
        }
    }
}

/// The state that a session starts in, and what it asks for first. With a
/// device the session opens its table, and ends when the report of a
/// failure is dismissed. Without one it shows `devices` to pick from, or
/// else why they could not be listed; that report ends the session when it
/// is dismissed.
pub fn handle_tui(info: Option<Info>, devices: Result<Vec<Info>, String>) -> (start: (
    SessionState,
    Action,
))
    ensures
        start.0@ == initial(info, devices).0,
        start.1@ == initial(info, devices).1,
{
    match info {
        Some(device) => SessionState::open(device),
        None => match devices {
            Ok(list) => (SessionState::new(list), Action::Nothing),
            Err(message) => {
                let state = SessionState::failed(message);
                assert(state@.modals =~= Seq::<ModalView>::empty().push(
                    ModalView::Error {
                        error: SessionErrorView::Io(message@),
                        on_dismiss: ErrAction::Quit,
                    },
                ));
                (state, Action::Nothing)
            },
        },
    }
}

/// Where the preview of the free space starts.
fn preview_start_of(last: &Option<Partition>, gpt: &Gpt) -> (start: u64)
    ensures
        start == preview_start(record_view(*last), gpt@),
{
    match last {
        Some(p) => {
            let bs = gpt.block_size();
            let blocks = p.end / bs;
            assert((blocks + 1) * bs >= blocks + 1) by (nonlinear_arith)
                requires
                    bs >= 1,
                    blocks >= 0,
            ;
            match blocks.checked_add(1) {
                Some(next) => match next.checked_mul(bs) {
                    Some(start) => start,
                    None => u64::MAX,
                },
                None => u64::MAX,
            }
        },
        None => MIN_START,
    }
}

/// The preview of the free space after `last` in the table.
pub fn preview_of(last: &Option<Partition>, gpt: &Gpt) -> (record: Partition)
    ensures
        record@ == preview(record_view(*last), gpt@),
{
    let start = preview_start_of(last, gpt);
    let end = last_of(start, gpt.remaining_from(start));
    Partition { uuid: NIL, name: String::from_str("None"), part_type: UNUSED, start, end }
}

/// The rows of the partition list: the partitions in their order, then the
/// free-space row.
pub fn rows(gpt: &Gpt) -> (rows: Vec<Row>)
    ensures
        rows@.map_values(|r: Row| r@) == rows_of(gpt@),
{
    let parts = gpt.partitions();
    let mut rows: Vec<Row> = Vec::new();
    let n = parts.len();
    let mut i: usize = 0;
    while i < n
        invariant
            i <= n,
            n == parts@.len(),
            n == gpt@.partitions.len(),
            forall|j: int| 0 <= j < n ==> (#[trigger] parts@[j])@ == gpt@.partitions[j],
            rows@.len() == i,
            forall|j: int| 0 <= j < i ==> (#[trigger] rows@[j])@ == RowView::Real(gpt@.partitions[j]),
        decreases n - i,
    {
        rows.push(Row::Real(parts[i].clone()));
        i += 1;
    }
    rows.push(Row::FreeSpacePreview);
    assert(rows@.map_values(|r: Row| r@) =~= rows_of(gpt@));
    rows
}

impl SessionState {
    /// A session that starts on the list of `devices`. Dismissing the report
    /// of a device without a valid table returns to the list.
    pub fn new(devices: Vec<Info>) -> (state: SessionState)
        ensures
            state@ == (SessionStateView {
                running: true,
                screen: Screen::DeviceList,
                modals: Seq::empty(),
                devices: devices@.map_values(|d: Info| d@),
                device: None,
                on_failure: ErrAction::Dismiss,
                current_table: None,
                last_selected_record: None,
                detail: None,
            }),
    {
        let state = SessionState {
            running: true,
            screen: Screen::DeviceList,
            modals: Vec::new(),
            devices,
            device: None,
            on_failure: ErrAction::Dismiss,
            current_table: None,
            last_selected_record: None,
            detail: None,
        };
        assert(state@.modals =~= Seq::empty());
        state
    }

    /// A session for the one device `info`, and the action that reads its
    /// table. There is no list to return to: dismissing the report of a
    /// device without a valid table ends the session.
    pub fn open(info: Info) -> (start: (SessionState, Action))
        ensures
            start.0@ == (SessionStateView {
                running: true,
                screen: Screen::DeviceList,
                modals: Seq::empty(),
                devices: Seq::empty(),
                device: Some(info@),
                on_failure: ErrAction::Quit,
                current_table: None,
                last_selected_record: None,
                detail: None,
            }),
            start.1@ == ActionView::ReadTable(info@),
    {
        let state = SessionState {
            running: true,
            screen: Screen::DeviceList,
            modals: Vec::new(),
            devices: Vec::new(),
            device: Some(info.clone()),
            on_failure: ErrAction::Quit,
            current_table: None,
            last_selected_record: None,
            detail: None,
        };
        assert(state@.modals =~= Seq::empty());
        assert(state@.devices =~= Seq::empty());
        (state, Action::ReadTable(info))
    }

    /// A session that could not list the devices: it shows the failure, and
    /// ends when that is dismissed.
    pub fn failed(message: String) -> (state: SessionState)
        ensures
            state@ == (SessionStateView {
                running: true,
                screen: Screen::DeviceList,
                modals: seq![
                    ModalView::Error {
                        error: SessionErrorView::Io(message@),
                        on_dismiss: ErrAction::Quit,
                    },
                ],
                devices: Seq::empty(),
                device: None,
                on_failure: ErrAction::Quit,
                current_table: None,
                last_selected_record: None,
                detail: None,
            }),
    {
        let mut modals: Vec<Modal> = Vec::new();
        modals.push(Modal::Error { error: SessionError::Io(message), on_dismiss: ErrAction::Quit });
        let state = SessionState {
            running: true,
            screen: Screen::DeviceList,
            modals,
            devices: Vec::new(),
            device: None,
            on_failure: ErrAction::Quit,
            current_table: None,
            last_selected_record: None,
            detail: None,
        };
        assert(state@.modals =~= seq![
            ModalView::Error {
                error: SessionErrorView::Io(message@),
                on_dismiss: ErrAction::Quit,
            },
        ]);
        assert(state@.devices =~= Seq::empty());
        state
    }

    fn popped(self) -> (next: SessionState)
        requires
            self.modals@.len() > 0,
        ensures
            next@ == self@.popped(),
    {
        let mut next = self;
        next.modals.pop();
        assert(next@.modals =~= self@.modals.drop_last());
        next
    }

    fn pushed(self, modal: Modal) -> (next: SessionState)
        ensures
            next@ == self@.pushed(modal@),
    {
        let mut next = self;
        next.modals.push(modal);
        assert(next@.modals =~= self@.modals.push(modal@));
        next
    }

    fn replaced(self, modal: Modal) -> (next: SessionState)
        requires
            self.modals@.len() > 0,
        ensures
            next@ == self@.replaced(modal@),
    {
        self.popped().pushed(modal)
    }

    fn dismissed(self, on_dismiss: ErrAction) -> (next: (SessionState, Action))
        requires
            self.modals@.len() > 0,
        ensures
            next.0@ == self@.dismissed(on_dismiss).0,
            next.1@ == self@.dismissed(on_dismiss).1,
    {
        match on_dismiss {
            ErrAction::Quit => {
                let mut next = self;
                next.running = false;
                (next, Action::Quit)
            },
            ErrAction::Dismiss => (self.popped(), Action::Nothing),
        }
    }

    fn selected(self, index: usize) -> (next: SessionState)
        requires
            self.current_table is Some,
        ensures
            next@ == self@.selected(self@.current_table->0, index),
    {
        let mut next = self;
        match &next.current_table {
            Some(gpt) => {
                let parts = gpt.partitions();
                if index < parts.len() {
                    let record = parts[index].clone();
                    let shown = parts[index].clone();
                    next.last_selected_record = Some(record);
                    next.detail = Some(shown);
                } else if index == parts.len() {
                    let shown = preview_of(&next.last_selected_record, gpt);
                    next.detail = Some(shown);
                }
            },
            None => {},
        }
        next
    }

    fn entered(self, table: Gpt) -> (next: SessionState)
        ensures
            next@ == self@.entered(table@),
    {
        let mut next = self;
        next.screen = Screen::PartitionList;
        next.current_table = Some(table);
        next.last_selected_record = None;
        next.detail = None;
        next.selected(0)
    }

    fn modal_step(self, event: Event) -> (next: (SessionState, Action))
        requires
            self.modals@.len() > 0,
        ensures
            next.0@ == self@.modal_step(self@.modals.last(), event@).0,
            next.1@ == self@.modal_step(self@.modals.last(), event@).1,
    {
        let top = self.modals.len() - 1;
        assert(self@.modals.last() == self.modals@[top as int]@);
        match &self.modals[top] {
            Modal::ErrorRecovery { on_dismiss, .. } => {
                let on_dismiss = *on_dismiss;
                match event {
                    Event::CreateTable => (
                        self.replaced(Modal::CreateConfirmation { on_dismiss }),
                        Action::Nothing,
                    ),
                    Event::Dismiss => self.dismissed(on_dismiss),
                    _ => (self, Action::Nothing),
                }
            },
            Modal::CreateConfirmation { on_dismiss } => {
                let on_dismiss = *on_dismiss;
                match event {
                    Event::ConfirmCreate { uuid } => {
                        let size = match &self.device {
                            Some(d) => if d.block_size > 0 {
                                Some((d.disk_size, d.block_size))
                            } else {
                                None
                            },
                            None => None,
                        };
                        match size {
                            Some((disk_size, block_size)) => {
                                let table = Gpt::new(uuid, disk_size, block_size);
                                (self.popped().entered(table), Action::WriteTable)
                            },
                            None => (
                                self.replaced(
                                    Modal::Error { error: SessionError::NoBlockSize, on_dismiss },
                                ),
                                Action::Nothing,
                            ),
                        }
                    },
                    Event::Dismiss => self.dismissed(on_dismiss),
                    _ => (self, Action::Nothing),
                }
            },
            Modal::DumpFormat => match event {
                Event::SelectFormat(format) => (
                    self.replaced(Modal::DumpTarget { format }),
                    Action::Nothing,
                ),
                Event::Dismiss => (self.popped(), Action::Nothing),
                _ => (self, Action::Nothing),
            },
            Modal::DumpTarget { format } => {
                let format = *format;
                match event {
                    Event::SubmitDump(path) => (self, Action::WriteDump { path, format }),
                    Event::DumpWritten(Ok(())) => (self.popped(), Action::Nothing),
                    Event::DumpWritten(Err(message)) => (
                        self.pushed(
                            Modal::Error {
                                error: SessionError::Io(message),
                                on_dismiss: ErrAction::Dismiss,
                            },
                        ),
                        Action::Nothing,
                    ),
                    Event::Dismiss => (self.popped(), Action::Nothing),
                    _ => (self, Action::Nothing),
                }
            },
            Modal::Error { on_dismiss, .. } => {
                let on_dismiss = *on_dismiss;
                match event {
                    Event::Dismiss => self.dismissed(on_dismiss),
                    _ => (self, Action::Nothing),
                }
            },
        }
    }

    fn device_list_step(self, event: Event) -> (next: (SessionState, Action))
        ensures
            next.0@ == self@.device_list_step(event@).0,
            next.1@ == self@.device_list_step(event@).1,
    {
        match event {
            Event::SelectDevice(index) => {
                if index < self.devices.len() {
                    let chosen = self.devices[index].clone();
                    let asked = self.devices[index].clone();
                    let mut next = self;
                    next.device = Some(chosen);
                    (next, Action::ReadTable(asked))
                } else {
                    (self, Action::Nothing)
                }
            },
            Event::TableRead(Ok(table)) => (self.entered(table), Action::Nothing),
            Event::TableRead(Err(message)) => {
                let on_dismiss = self.on_failure;
                (self.pushed(Modal::ErrorRecovery { message, on_dismiss }), Action::Nothing)
            },
            _ => (self, Action::Nothing),
        }
    }

    fn partition_list_step(self, event: Event) -> (next: (SessionState, Action))
        requires
            self.current_table is Some,
        ensures
            next.0@ == self@.partition_list_step(self@.current_table->0, event@).0,
            next.1@ == self@.partition_list_step(self@.current_table->0, event@).1,
    {
        match event {
            Event::SelectPartition(index) => (self.selected(index), Action::Nothing),
            Event::AddPartition { uuid, partition_type } => {
                let mut next = self;
                let mut table = next.current_table.take().unwrap();
                let start = preview_start_of(&next.last_selected_record, &table);
                let free = table.remaining_from(start);
                let block_size = table.block_size();
                match add_range(&mut table, block_size, uuid, partition_type, start, End::Rel(free)) {
                    Ok(()) => {
                        let parts = table.partitions();
                        let record = parts[parts.len() - 1].clone();
                        let shown = parts[parts.len() - 1].clone();
                        next.current_table = Some(table);
                        next.last_selected_record = Some(record);
                        next.detail = Some(shown);
                        (next, Action::WriteTable)
                    },
                    Err(e) => {
                        next.current_table = Some(table);
                        (
                            next.pushed(
                                Modal::Error {
                                    error: SessionError::Table(e),
                                    on_dismiss: ErrAction::Dismiss,
                                },
                            ),
                            Action::Nothing,
                        )
                    },
                }
            },
            Event::RequestDump => (self.pushed(Modal::DumpFormat), Action::Nothing),
            Event::TableWritten(Err(message)) => (
                self.pushed(
                    Modal::Error {
                        error: SessionError::Io(message),
                        on_dismiss: ErrAction::Dismiss,
                    },
                ),
                Action::Nothing,
            ),
            _ => (self, Action::Nothing),
        }
    }

    /// The state after `event`, and what is to be done now.
    pub fn transition(self, event: Event) -> (next: (SessionState, Action))
        ensures
            next.0@ == self@.step(event@).0,
            next.1@ == self@.step(event@).1,
    {
        if !self.running {
            return (self, Action::Nothing);
        }
        if let Event::Quit = event {
            let mut next = self;
            next.running = false;
            return (next, Action::Quit);
        }
        if self.modals.len() > 0 {
            return self.modal_step(event);
        }
        match self.screen {
            Screen::DeviceList => self.device_list_step(event),
            Screen::PartitionList => {
                if self.current_table.is_some() {
                    self.partition_list_step(event)
                } else {
                    (self, Action::Nothing)
                }
            },
        }
    }
}

} // verus!
