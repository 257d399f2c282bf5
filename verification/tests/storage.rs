//! The storage model: overwrite semantics, day isolation, and the
//! equivalence of backends under one operation sequence.

use diary::day::Day;
use diary::memory::Memory;
use diary::store::{content_from_read, replay, Op, Store};

#[test]
fn fresh_store_reads_empty() {
    let today = Day::new(2026, 10, 11).unwrap();
    let mut store = Memory::new();
    assert_eq!(store.retrieve_latest(&today), "");
}

#[test]
fn store_same_content_twice_is_idempotent() {
    let today = Day::new(2026, 10, 11).unwrap();
    let mut store = Memory::new();
    store.store(&today, "X").unwrap();
    store.store(&today, "X").unwrap();
    assert_eq!(store.retrieve_latest(&today), "X");
}

#[test]
fn last_write_wins_without_merging() {
    let today = Day::new(2026, 10, 11).unwrap();
    let mut store = Memory::new();
    store.store(&today, "X").unwrap();
    store.store(&today, "Y").unwrap();
    assert_eq!(store.retrieve_latest(&today), "Y");
}

#[test]
fn entries_do_not_carry_over_to_the_next_day() {
    let day_d = Day::new(2026, 10, 11).unwrap();
    let day_after = Day::new(2026, 10, 12).unwrap();
    let mut store = Memory::new();
    store.store(&day_d, "written on day D").unwrap();
    assert_eq!(store.retrieve_latest(&day_after), "");
    assert_eq!(store.retrieve_latest(&day_d), "written on day D");
}

#[test]
fn entries_are_kept_per_day() {
    let first = Day::new(2026, 10, 11).unwrap();
    let second = Day::new(2026, 10, 12).unwrap();
    let mut store = Memory::new();
    store.store(&first, "first day").unwrap();
    store.store(&second, "second day").unwrap();
    assert_eq!(store.retrieve_latest(&first), "first day");
    assert_eq!(store.retrieve_latest(&second), "second day");
}

#[test]
fn identical_operation_sequences_observe_identical_results() {
    let today = Day::new(2026, 10, 11).unwrap();
    let ops = || {
        vec![
            Op::Store("A".to_string()),
            Op::RetrieveLatest,
            Op::Store("B".to_string()),
            Op::RetrieveLatest,
        ]
    };
    let mut one = Memory::new();
    let mut other = Memory::new();
    let outputs_one = replay(&mut one, &today, ops()).unwrap();
    let outputs_other = replay(&mut other, &today, ops()).unwrap();
    assert_eq!(outputs_one, vec!["A".to_string(), "B".to_string()]);
    assert_eq!(outputs_one, outputs_other);
}

#[test]
fn missing_and_failed_reads_count_as_no_content() {
    assert_eq!(content_from_read(None), "");
    assert_eq!(content_from_read(Some("kept".to_string())), "kept");
}
