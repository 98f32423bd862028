use parts::actions::Format;
use parts::gpt::{Gpt, Partition, TableError};
use parts::interactive::{
    handle_tui, preview_of, rows, Action, ErrAction, Event, Modal, Row, Screen, SessionError,
    SessionState,
};
use parts::Info;

const MIB: u64 = 1024 * 1024;

fn info(name: &str) -> Info {
    Info {
        path: format!("/dev/{}", name),
        block_size: 512,
        disk_size: 100 * MIB,
        model: String::from("Model"),
        name: String::from(name),
    }
}

fn part(uuid: u128, start: u64, end: u64) -> Partition {
    Partition { uuid, name: String::from("data"), part_type: 7, start, end }
}

fn table() -> Gpt {
    let mut gpt = Gpt::new(1, 100 * MIB, 512);
    assert_eq!(gpt.add_partition(part(10, 2048, 4095)), Ok(()));
    assert_eq!(gpt.add_partition(part(11, 8192, 16383)), Ok(()));
    gpt
}

fn preview(start: u64, end: u64) -> Partition {
    Partition { uuid: 0, name: String::from("None"), part_type: 0, start, end }
}

fn step(state: SessionState, event: Event) -> SessionState {
    state.transition(event).0
}

fn on_partitions() -> SessionState {
    let state = SessionState::new(vec![info("sda"), info("sdb")]);
    let state = step(state, Event::SelectDevice(1));
    step(state, Event::TableRead(Ok(table())))
}

#[test]
fn session_starts_on_the_device_list() {
    let state = SessionState::new(vec![info("sda"), info("sdb")]);
    assert!(state.running);
    assert_eq!(state.screen, Screen::DeviceList);
    assert!(state.modals.is_empty());
    assert_eq!(state.devices.len(), 2);
    assert_eq!(state.device, None);
    assert_eq!(state.current_table, None);
    assert_eq!(state.last_selected_record, None);
    assert_eq!(state.detail, None);
    assert_eq!(state.on_failure, ErrAction::Dismiss);
}

#[test]
fn selecting_a_device_asks_for_its_table() {
    let state = SessionState::new(vec![info("sda"), info("sdb")]);
    let (state, action) = state.transition(Event::SelectDevice(1));
    assert_eq!(action, Action::ReadTable(info("sdb")));
    assert_eq!(state.device, Some(info("sdb")));
    assert_eq!(state.screen, Screen::DeviceList);
}

#[test]
fn selecting_no_device_changes_nothing() {
    let state = SessionState::new(vec![info("sda")]);
    let (state, action) = state.transition(Event::SelectDevice(1));
    assert_eq!(action, Action::Nothing);
    assert_eq!(state, SessionState::new(vec![info("sda")]));
}

#[test]
fn a_table_that_was_read_opens_the_partition_list() {
    let state = on_partitions();
    assert_eq!(state.screen, Screen::PartitionList);
    assert_eq!(state.current_table, Some(table()));
    assert_eq!(state.last_selected_record, Some(part(10, 2048, 4095)));
    assert_eq!(state.detail, Some(part(10, 2048, 4095)));
    assert!(state.modals.is_empty());
}

#[test]
fn an_empty_table_opens_on_the_free_space() {
    let state = SessionState::new(vec![info("sda")]);
    let state = step(state, Event::SelectDevice(0));
    let state = step(state, Event::TableRead(Ok(Gpt::new(1, 100 * MIB, 512))));
    assert_eq!(state.last_selected_record, None);
    assert_eq!(state.detail, Some(preview(MIB, 100 * MIB - 1)));
}

#[test]
fn rows_are_the_partitions_and_then_the_free_space() {
    assert_eq!(
        rows(&table()),
        vec![
            Row::Real(part(10, 2048, 4095)),
            Row::Real(part(11, 8192, 16383)),
            Row::FreeSpacePreview
        ]
    );
    assert_eq!(rows(&Gpt::new(1, 100 * MIB, 512)), vec![Row::FreeSpacePreview]);
}

#[test]
fn selecting_a_partition_shows_it() {
    let state = on_partitions();
    let (state, action) = state.transition(Event::SelectPartition(1));
    assert_eq!(action, Action::Nothing);
    assert_eq!(state.last_selected_record, Some(part(11, 8192, 16383)));
    assert_eq!(state.detail, Some(part(11, 8192, 16383)));
    assert_eq!(state.current_table, Some(table()));
}

#[test]
fn free_space_after_a_selected_partition() {
    let state = on_partitions();
    let state = step(state, Event::SelectPartition(0));
    let state = step(state, Event::SelectPartition(2));
    assert_eq!(state.detail, Some(preview(4096, 8191)));
    assert_eq!(state.last_selected_record, Some(part(10, 2048, 4095)));
    assert_eq!(state.current_table, Some(table()));
    let state = step(state, Event::SelectPartition(1));
    let state = step(state, Event::SelectPartition(2));
    assert_eq!(state.detail, Some(preview(16384, 100 * MIB - 1)));
    assert_eq!(state.current_table, Some(table()));
}

#[test]
fn free_space_selected_twice_is_the_same() {
    let state = on_partitions();
    let state = step(state, Event::SelectPartition(1));
    let state = step(state, Event::SelectPartition(2));
    let first = state.detail.clone();
    let state = step(state, Event::SelectPartition(2));
    assert_eq!(state.detail, first);
    assert_eq!(state.last_selected_record, Some(part(11, 8192, 16383)));
}

#[test]
fn preview_without_a_selection_starts_at_the_minimum() {
    assert_eq!(preview_of(&None, &table()), preview(MIB, 100 * MIB - 1));
}

#[test]
fn preview_with_nothing_free() {
    let mut gpt = Gpt::new(1, 100 * MIB, 512);
    assert_eq!(gpt.add_partition(part(10, MIB, 100 * MIB - 1)), Ok(()));
    let last = Some(part(10, MIB, 100 * MIB - 1));
    assert_eq!(preview_of(&last, &gpt), preview(100 * MIB, 100 * MIB - 1));
}

#[test]
fn selecting_past_the_rows_changes_nothing() {
    let state = step(on_partitions(), Event::SelectPartition(3));
    assert_eq!(state, on_partitions());
}

#[test]
fn adding_a_partition_fills_the_free_space_and_asks_for_a_write() {
    let state = on_partitions();
    let state = step(state, Event::SelectPartition(0));
    let state = step(state, Event::SelectPartition(2));
    assert_eq!(state.current_table.as_ref().unwrap().partitions().len(), 2);
    let (state, action) = state.transition(Event::AddPartition { uuid: 12, partition_type: 9 });
    assert_eq!(action, Action::WriteTable);
    let added = Partition { uuid: 12, name: String::new(), part_type: 9, start: 4096, end: 8191 };
    let gpt = state.current_table.as_ref().unwrap();
    assert_eq!(gpt.partitions().len(), 3);
    assert_eq!(gpt.partitions()[2], added);
    assert_eq!(state.last_selected_record, Some(added.clone()));
    assert_eq!(state.detail, Some(added));
    assert!(state.modals.is_empty());
}

fn full_table() -> Gpt {
    let mut gpt = Gpt::new(1, 100 * MIB, 512);
    assert_eq!(gpt.add_partition(part(10, MIB, 100 * MIB - 1)), Ok(()));
    gpt
}

fn on_full_table() -> SessionState {
    let (state, _) = SessionState::open(info("sda"));
    step(state, Event::TableRead(Ok(full_table())))
}

#[test]
fn a_refused_partition_is_not_added() {
    let (state, action) =
        on_full_table().transition(Event::AddPartition { uuid: 12, partition_type: 9 });
    assert_eq!(action, Action::Nothing);
    assert_eq!(state.current_table, Some(full_table()));
    assert_eq!(
        state.modals,
        vec![Modal::Error {
            error: SessionError::Table(TableError::InvalidRange),
            on_dismiss: ErrAction::Dismiss
        }]
    );
    let (state, action) = state.transition(Event::Dismiss);
    assert_eq!(action, Action::Nothing);
    assert_eq!(state, on_full_table());
}

#[test]
fn a_duplicate_identifier_is_not_added() {
    let state = step(on_partitions(), Event::SelectPartition(1));
    let (state, action) = state.transition(Event::AddPartition { uuid: 10, partition_type: 9 });
    assert_eq!(action, Action::Nothing);
    assert_eq!(state.current_table, Some(table()));
    assert_eq!(
        state.modals,
        vec![Modal::Error {
            error: SessionError::Table(TableError::DuplicateId),
            on_dismiss: ErrAction::Dismiss
        }]
    );
}

#[test]
fn a_failed_write_is_shown() {
    let state = step(on_partitions(), Event::SelectPartition(1));
    let state = step(state, Event::AddPartition { uuid: 12, partition_type: 9 });
    let (state, action) =
        state.transition(Event::TableWritten(Err(String::from("read-only device"))));
    assert_eq!(action, Action::Nothing);
    assert_eq!(
        state.modals,
        vec![Modal::Error {
            error: SessionError::Io(String::from("read-only device")),
            on_dismiss: ErrAction::Dismiss
        }]
    );
    assert_eq!(state.current_table.as_ref().unwrap().partitions().len(), 3);
    let state = step(state, Event::Dismiss);
    assert!(state.modals.is_empty());
    assert!(state.running);
}

#[test]
fn a_write_that_went_well_changes_nothing() {
    let (state, action) = on_partitions().transition(Event::TableWritten(Ok(())));
    assert_eq!(action, Action::Nothing);
    assert_eq!(state, on_partitions());
}

#[test]
fn a_device_without_a_table_offers_to_create_one() {
    let state = SessionState::new(vec![info("sda")]);
    let state = step(state, Event::SelectDevice(0));
    let (state, action) = state.transition(Event::TableRead(Err(String::from("no table"))));
    assert_eq!(action, Action::Nothing);
    assert_eq!(
        state.modals,
        vec![Modal::ErrorRecovery {
            message: String::from("no table"),
            on_dismiss: ErrAction::Dismiss
        }]
    );
    assert_eq!(state.screen, Screen::DeviceList);
    let (state, action) = state.transition(Event::CreateTable);
    assert_eq!(action, Action::Nothing);
    assert_eq!(state.modals, vec![Modal::CreateConfirmation { on_dismiss: ErrAction::Dismiss }]);
    let (state, action) = state.transition(Event::ConfirmCreate { uuid: 99 });
    assert_eq!(action, Action::WriteTable);
    assert!(state.modals.is_empty());
    assert_eq!(state.screen, Screen::PartitionList);
    assert_eq!(state.current_table, Some(Gpt::new(99, 100 * MIB, 512)));
    assert_eq!(state.last_selected_record, None);
    assert_eq!(state.detail, Some(preview(MIB, 100 * MIB - 1)));
}

#[test]
fn dismissing_the_recovery_returns_to_the_device_list() {
    let state = SessionState::new(vec![info("sda")]);
    let state = step(state, Event::SelectDevice(0));
    let before = step(SessionState::new(vec![info("sda")]), Event::SelectDevice(0));
    let state = step(state, Event::TableRead(Err(String::from("no table"))));
    let (state, action) = state.transition(Event::Dismiss);
    assert_eq!(action, Action::Nothing);
    assert_eq!(state, before);
}

#[test]
fn dismissing_the_recovery_of_a_given_device_ends_the_session() {
    let (state, action) = SessionState::open(info("sda"));
    assert_eq!(action, Action::ReadTable(info("sda")));
    let state = step(state, Event::TableRead(Err(String::from("no table"))));
    assert_eq!(
        state.modals,
        vec![Modal::ErrorRecovery { message: String::from("no table"), on_dismiss: ErrAction::Quit }]
    );
    let (state, action) = state.transition(Event::Dismiss);
    assert_eq!(action, Action::Quit);
    assert!(!state.running);
}

#[test]
fn dismissing_the_confirmation_follows_the_entry_too() {
    let (state, _) = SessionState::open(info("sda"));
    let state = step(state, Event::TableRead(Err(String::from("no table"))));
    let state = step(state, Event::CreateTable);
    let (state, action) = state.transition(Event::Dismiss);
    assert_eq!(action, Action::Quit);
    assert!(!state.running);

    let state = SessionState::new(vec![info("sda")]);
    let state = step(state, Event::SelectDevice(0));
    let state = step(state, Event::TableRead(Err(String::from("no table"))));
    let state = step(state, Event::CreateTable);
    let (state, action) = state.transition(Event::Dismiss);
    assert_eq!(action, Action::Nothing);
    assert!(state.running);
    assert!(state.modals.is_empty());
    assert_eq!(state.current_table, None);
}

#[test]
fn no_table_is_created_without_a_block_size() {
    let mut device = info("sda");
    device.block_size = 0;
    let (state, _) = SessionState::open(device);
    let state = step(state, Event::TableRead(Err(String::from("no table"))));
    let state = step(state, Event::CreateTable);
    let (state, action) = state.transition(Event::ConfirmCreate { uuid: 99 });
    assert_eq!(action, Action::Nothing);
    assert_eq!(state.current_table, None);
    assert_eq!(
        state.modals,
        vec![Modal::Error { error: SessionError::NoBlockSize, on_dismiss: ErrAction::Quit }]
    );
}

#[test]
fn a_given_device_with_a_table_opens_the_partition_list() {
    let (state, _) = SessionState::open(info("sda"));
    let state = step(state, Event::TableRead(Ok(table())));
    assert_eq!(state.screen, Screen::PartitionList);
    assert_eq!(state.device, Some(info("sda")));
    assert_eq!(state.detail, Some(part(10, 2048, 4095)));
}

#[test]
fn a_dump_asks_for_format_and_file_and_is_written() {
    let (state, action) = on_partitions().transition(Event::RequestDump);
    assert_eq!(action, Action::Nothing);
    assert_eq!(state.modals, vec![Modal::DumpFormat]);
    let (state, action) = state.transition(Event::SelectFormat(Format::Json));
    assert_eq!(action, Action::Nothing);
    assert_eq!(state.modals, vec![Modal::DumpTarget { format: Format::Json }]);
    let (state, action) = state.transition(Event::SubmitDump(String::from("/tmp/dump.json")));
    assert_eq!(
        action,
        Action::WriteDump { path: String::from("/tmp/dump.json"), format: Format::Json }
    );
    assert_eq!(state.modals, vec![Modal::DumpTarget { format: Format::Json }]);
    let (state, action) = state.transition(Event::DumpWritten(Ok(())));
    assert_eq!(action, Action::Nothing);
    assert_eq!(state, on_partitions());
}

#[test]
fn a_dump_that_fails_keeps_the_partition_list() {
    let state = step(on_partitions(), Event::SelectPartition(1));
    let state = step(state, Event::RequestDump);
    let state = step(state, Event::SelectFormat(Format::Json));
    let state = step(state, Event::SubmitDump(String::from("/nowhere/dump.json")));
    let (state, action) =
        state.transition(Event::DumpWritten(Err(String::from("No such file or directory"))));
    assert_eq!(action, Action::Nothing);
    assert_eq!(
        state.modals,
        vec![
            Modal::DumpTarget { format: Format::Json },
            Modal::Error {
                error: SessionError::Io(String::from("No such file or directory")),
                on_dismiss: ErrAction::Dismiss
            }
        ]
    );
    assert_eq!(state.screen, Screen::PartitionList);
    assert_eq!(state.current_table, Some(table()));
    assert_eq!(state.last_selected_record, Some(part(11, 8192, 16383)));
    assert_eq!(state.detail, Some(part(11, 8192, 16383)));
    let state = step(state, Event::Dismiss);
    assert_eq!(state.modals, vec![Modal::DumpTarget { format: Format::Json }]);
    let state = step(state, Event::Dismiss);
    assert_eq!(state, step(on_partitions(), Event::SelectPartition(1)));
}

#[test]
fn the_dump_dialogs_can_be_dismissed() {
    let state = step(on_partitions(), Event::RequestDump);
    assert_eq!(step(state, Event::Dismiss), on_partitions());
    let state = step(on_partitions(), Event::RequestDump);
    let state = step(state, Event::SelectFormat(Format::Json));
    assert_eq!(step(state, Event::Dismiss), on_partitions());
}

#[test]
fn a_dialog_keeps_the_list_from_events() {
    let state = step(on_partitions(), Event::RequestDump);
    let (state, action) = state.transition(Event::SelectPartition(1));
    assert_eq!(action, Action::Nothing);
    assert_eq!(state, step(on_partitions(), Event::RequestDump));
    let (state, action) = state.transition(Event::AddPartition { uuid: 12, partition_type: 9 });
    assert_eq!(action, Action::Nothing);
    assert_eq!(state, step(on_partitions(), Event::RequestDump));
}

#[test]
fn quit_ends_the_session_from_every_screen() {
    let (state, action) = SessionState::new(vec![info("sda")]).transition(Event::Quit);
    assert_eq!(action, Action::Quit);
    assert!(!state.running);
    let (state, action) = on_partitions().transition(Event::Quit);
    assert_eq!(action, Action::Quit);
    assert!(!state.running);
    let (state, action) = step(on_partitions(), Event::RequestDump).transition(Event::Quit);
    assert_eq!(action, Action::Quit);
    assert!(!state.running);
}

#[test]
fn nothing_happens_after_the_end() {
    let ended = step(on_partitions(), Event::Quit);
    let (state, action) = ended.transition(Event::SelectPartition(1));
    assert_eq!(action, Action::Nothing);
    assert_eq!(state, step(on_partitions(), Event::Quit));
    let (state, action) = state.transition(Event::Quit);
    assert_eq!(action, Action::Nothing);
    assert!(!state.running);
}

#[test]
fn a_session_that_cannot_list_devices_shows_why_and_ends() {
    let (state, action) = handle_tui(None, Err(String::from("permission denied")));
    assert_eq!(action, Action::Nothing);
    assert_eq!(state, SessionState::failed(String::from("permission denied")));
    assert_eq!(
        state.modals,
        vec![Modal::Error {
            error: SessionError::Io(String::from("permission denied")),
            on_dismiss: ErrAction::Quit
        }]
    );
    let (state, action) = state.transition(Event::Dismiss);
    assert_eq!(action, Action::Quit);
    assert!(!state.running);
}

#[test]
fn handle_tui_starts_on_the_list_or_on_the_device() {
    let (state, action) = handle_tui(None, Ok(vec![info("sda")]));
    assert_eq!(action, Action::Nothing);
    assert_eq!(state, SessionState::new(vec![info("sda")]));
    let (state, action) = handle_tui(Some(info("sdb")), Ok(vec![info("sda")]));
    assert_eq!(action, Action::ReadTable(info("sdb")));
    assert_eq!(state, SessionState::open(info("sdb")).0);
}

#[test]
fn session_error_messages() {
    assert_eq!(SessionError::Io(String::from("disk on fire")).message(), "disk on fire");
    assert_eq!(
        SessionError::Table(TableError::Overlap).message(),
        "the partition overlaps another partition"
    );
    assert_eq!(
        SessionError::NoBlockSize.message(),
        "the block size of the device is not known"
    );
}
