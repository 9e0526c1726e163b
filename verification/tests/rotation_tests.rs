use monitor::date::{save_file, Date};
use monitor::http::{Add, Device, DeviceData};
use monitor::rotation::{LiveStore, PersistenceError};
use monitor::store::Store;
use monitor::{ActiveProgram, Program};

fn date(year: i32, month: u32, day: u32) -> Date {
    Date::new(year, month, day).unwrap()
}

fn batch(device: u16, program: &str, secs: u32) -> Add {
    let mut add = Add::new(device);
    add.active.insert(ActiveProgram { program: program.to_string(), subprogram: None }, secs);
    add.open.insert(Program { program: program.to_string() }, secs);
    add
}

fn focused(store: &Store, account: &str, device: u16, program: &str) -> Option<u32> {
    let user = store.read_account(account)?;
    let data = user.monitor.get(&device)?;
    data.active.get(&ActiveProgram { program: program.to_string(), subprogram: None }).copied()
}

#[test]
fn cold_start_takes_what_was_loaded() {
    let mut saved = Store::new();
    saved.merge_usage("ann", &batch(1, "A", 5));
    let live = LiveStore::cold_start(date(2024, 3, 9), Ok(saved)).unwrap();
    assert_eq!(live.date(), date(2024, 3, 9));
    assert_eq!(focused(&live.snapshot().store, "ann", 1, "A"), Some(5));
}

#[test]
fn cold_start_without_a_snapshot_is_empty() {
    let live = LiveStore::cold_start(date(2024, 3, 9), Err(PersistenceError::LoadNotFound)).unwrap();
    assert_eq!(live.date(), date(2024, 3, 9));
    assert!(live.read_account("ann").is_none());
}

#[test]
fn cold_start_on_a_corrupt_snapshot_fails() {
    let r = LiveStore::cold_start(date(2024, 3, 9), Err(PersistenceError::LoadCorrupt));
    assert_eq!(r.err(), Some(PersistenceError::LoadCorrupt));
    let w = LiveStore::cold_start(date(2024, 3, 9), Err(PersistenceError::WriteFailure));
    assert_eq!(w.err(), Some(PersistenceError::WriteFailure));
}

#[test]
fn only_a_corrupt_snapshot_is_fatal() {
    assert!(PersistenceError::LoadCorrupt.is_fatal());
    assert!(!PersistenceError::LoadNotFound.is_fatal());
    assert!(!PersistenceError::WriteFailure.is_fatal());
}

#[test]
fn tick_on_the_same_day_keeps_the_state() {
    let today = date(2024, 3, 9);
    let mut live = LiveStore::cold_start(today, Err(PersistenceError::LoadNotFound)).unwrap();
    live.merge_usage("ann", &batch(1, "A", 5));
    let flush = live.snapshot();
    assert_eq!(flush.date, today);
    assert_eq!(focused(&flush.store, "ann", 1, "A"), Some(5));
    assert!(!live.finish_tick(Ok(()), today));
    assert_eq!(live.date(), today);
    assert_eq!(focused(&live.snapshot().store, "ann", 1, "A"), Some(5));
}

#[test]
fn rotation_flushes_the_old_day_once_and_starts_afresh() {
    let day = date(2024, 12, 31);
    let next = date(2025, 1, 1);
    let mut live = LiveStore::cold_start(day, Err(PersistenceError::LoadNotFound)).unwrap();
    live.merge_usage("ann", &batch(1, "A", 5));
    live.set_device_info("ann", Device { id: 1, data: DeviceData::default() });

    let flush = live.snapshot();
    assert_eq!(flush.date, day);
    assert_eq!(focused(&flush.store, "ann", 1, "A"), Some(5));
    assert!(live.finish_tick(Ok(()), next));
    assert_eq!(live.date(), next);
    assert!(live.read_account("ann").is_none());

    live.merge_usage("ann", &batch(1, "A", 2));
    assert_eq!(live.date(), next);
    assert_eq!(focused(&live.snapshot().store, "ann", 1, "A"), Some(2));
    assert_eq!(focused(&flush.store, "ann", 1, "A"), Some(5));
    assert_eq!(live.read_account("ann").unwrap().devices.len(), 0);

    let second = live.snapshot();
    assert_eq!(second.date, next);
    assert!(!live.finish_tick(Ok(()), next));
    assert_eq!(focused(&live.snapshot().store, "ann", 1, "A"), Some(2));
}

#[test]
fn failed_flush_keeps_the_state_for_the_next_tick() {
    let day = date(2024, 3, 9);
    let next = date(2024, 3, 10);
    let mut live = LiveStore::cold_start(day, Err(PersistenceError::LoadNotFound)).unwrap();
    live.merge_usage("ann", &batch(1, "A", 5));
    assert!(!live.finish_tick(Err(PersistenceError::WriteFailure), next));
    assert_eq!(live.date(), day);
    assert_eq!(focused(&live.snapshot().store, "ann", 1, "A"), Some(5));
    let retry = live.snapshot();
    assert_eq!(retry.date, day);
    assert!(live.finish_tick(Ok(()), next));
    assert_eq!(live.date(), next);
    assert!(live.read_account("ann").is_none());
}

#[test]
fn rotation_goes_by_any_change_of_date() {
    let day = date(2024, 3, 9);
    let mut live = LiveStore::cold_start(day, Err(PersistenceError::LoadNotFound)).unwrap();
    live.merge_usage("ann", &batch(1, "A", 5));
    assert!(live.finish_tick(Ok(()), date(2024, 3, 8)));
    assert_eq!(live.date(), date(2024, 3, 8));
    assert!(live.read_account("ann").is_none());
}

#[test]
fn live_store_tests_whether_a_batch_fits() {
    let day = date(2024, 3, 9);
    let mut live = LiveStore::cold_start(day, Err(PersistenceError::LoadNotFound)).unwrap();
    live.merge_usage("ann", &batch(1, "A", u32::MAX));
    assert!(!live.can_merge_usage("ann", &batch(1, "A", 1)));
    assert!(live.can_merge_usage("ann", &batch(1, "B", 1)));
}

#[test]
fn dates_are_days_of_the_calendar() {
    let d = date(2024, 2, 29);
    assert_eq!((d.year(), d.month(), d.day()), (2024, 2, 29));
    assert!(Date::new(2023, 2, 29).is_none());
    assert!(Date::new(2023, 4, 31).is_none());
    assert!(Date::new(2023, 4, 30).is_some());
    assert!(Date::new(2023, 0, 1).is_none());
    assert!(Date::new(2023, 13, 1).is_none());
    assert!(Date::new(2023, 1, 0).is_none());
    assert!(Date::new(2023, 1, 32).is_none());
    assert!(Date::new(2023, 12, 31).is_some());
    assert!(Date::new(1900, 2, 29).is_none());
    assert!(Date::new(2000, 2, 29).is_some());
    assert!(Date::new(0, 2, 29).is_some());
    assert!(Date::new(-4, 2, 29).is_some());
    assert!(Date::new(-1, 2, 29).is_none());
    assert!(Date::new(-100, 2, 29).is_none());
    assert!(Date::new(-400, 2, 29).is_some());
}

#[test]
fn dates_have_a_first_and_a_last_year() {
    assert!(Date::new(262142, 12, 31).is_some());
    assert!(Date::new(262143, 1, 1).is_none());
    assert!(Date::new(-262143, 1, 1).is_some());
    assert!(Date::new(-262144, 12, 31).is_none());
    assert!(Date::new(400000, 1, 1).is_none());
    assert!(Date::new(i32::MAX, 1, 1).is_none());
    assert!(Date::new(i32::MIN, 1, 1).is_none());
    assert!(Date::new(2023, u32::MAX, 1).is_none());
    assert!(Date::new(2023, 1, u32::MAX).is_none());
}

#[test]
fn every_month_has_its_days() {
    let lengths = [31, 28, 31, 30, 31, 30, 31, 31, 30, 31, 30, 31];
    for (index, length) in lengths.iter().enumerate() {
        let month = index as u32 + 1;
        assert!(Date::new(2023, month, *length).is_some());
        assert!(Date::new(2023, month, *length + 1).is_none());
    }
}

#[test]
fn dates_are_written_with_hyphens() {
    assert_eq!(date(2024, 3, 9).text(), "2024-03-09");
    assert_eq!(date(1999, 12, 31).text(), "1999-12-31");
    assert_eq!(date(987, 1, 2).text(), "0987-01-02");
    assert_eq!(date(0, 1, 1).text(), "0000-01-01");
    assert_eq!(date(9999, 10, 20).text(), "9999-10-20");
}

#[test]
fn save_file_is_named_by_the_date() {
    assert_eq!(save_file(date(2024, 3, 9)), "data-2024-03-09.json");
    assert_eq!(save_file(date(2021, 11, 30)), "data-2021-11-30.json");
}

#[test]
fn dates_are_equal_by_their_parts() {
    assert_eq!(date(2024, 3, 9), date(2024, 3, 9));
    assert_ne!(date(2024, 3, 9), date(2024, 3, 10));
    assert_ne!(date(2024, 3, 9), date(2024, 4, 9));
    assert_ne!(date(2024, 3, 9), date(2023, 3, 9));
}
