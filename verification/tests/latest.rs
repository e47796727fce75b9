use std::sync::Arc;

use crossbeam::atomic::ArcCell;
use latest::reader::copy_out;
use latest::reader::hold;
use latest::ring::next_index;
use latest::writer::store;
use latest::ConstructionError;
use latest::Latest;
use latest::LatestReader;

fn writer_of(cap: usize) -> Latest<u64> {
    match Latest::new(cap) {
        Ok(writer) => writer,
        Err(_) => panic!("capacity {} was refused", cap),
    }
}

#[test]
fn capacity_below_two_is_refused() {
    assert!(matches!(Latest::<u64>::new(0), Err(ConstructionError::InvalidCapacity)));
    assert!(matches!(Latest::<u64>::new(1), Err(ConstructionError::InvalidCapacity)));
}

#[test]
fn capacity_two_is_the_smallest_pool() {
    let writer = writer_of(2);
    assert_eq!(writer.capacity(), 2);
    assert_eq!(writer.cursor(), 1);
}

#[test]
fn capacity_is_what_was_asked_for() {
    let mut writer = writer_of(7);
    assert_eq!(writer.capacity(), 7);
    for v in 0..20u64 {
        assert_eq!(writer.set(v), Ok(()));
        assert_eq!(writer.capacity(), 7);
    }
}

#[test]
fn reader_made_before_any_set_sees_default() {
    for cap in 2..10usize {
        let writer = writer_of(cap);
        let reader = writer.reader();
        assert_eq!(reader.get(), Some(0));
    }
    let words: Latest<String> = Latest::new(4).unwrap();
    assert_eq!(words.reader().get(), Some(String::new()));
}

#[test]
fn last_value_wins() {
    for cap in 2..6usize {
        let mut writer = writer_of(cap);
        let reader = writer.reader();
        for v in 1..=25u64 {
            assert_eq!(writer.set(v), Ok(()));
        }
        assert_eq!(reader.get(), Some(25));
    }
}

#[test]
fn every_value_is_seen_when_read_at_once() {
    let mut writer: Latest<String> = Latest::new(3).unwrap();
    let reader = writer.reader();
    for word in ["a", "bb", "ccc", "dddd", "eeeee"] {
        assert_eq!(writer.set(word.to_string()), Ok(()));
        assert_eq!(reader.get(), Some(word.to_string()));
    }
}

#[test]
fn three_slots_four_values() {
    let mut writer: Latest<char> = Latest::new(3).unwrap();
    let reader = writer.reader();
    assert_eq!(writer.set('A'), Ok(()));
    assert_eq!(writer.set('B'), Ok(()));
    assert_eq!(writer.set('C'), Ok(()));
    assert_eq!(reader.get(), Some('C'));
    assert_eq!(writer.set('D'), Ok(()));
    assert_eq!(reader.get(), Some('D'));
    for _ in 0..10 {
        let seen = reader.get();
        assert_ne!(seen, Some('A'));
        assert_ne!(seen, Some('B'));
        assert_eq!(seen, Some('D'));
    }
}

#[test]
fn two_slots_and_a_snapshot_across_one_set() {
    let mut writer: Latest<String> = Latest::new(2).unwrap();
    let reader = writer.reader();
    let copy = reader.get().unwrap();
    let held = reader.snapshot().unwrap();
    // Slot 0 is held twice over; the search has to pass it by.
    assert_eq!(writer.set("next".to_string()), Ok(()));
    assert_eq!(writer.cursor(), 1);
    assert_eq!(*held, String::new());
    assert_eq!(copy, String::new());
    assert_eq!(reader.get(), Some("next".to_string()));
}

#[test]
fn held_snapshot_outlives_one_set() {
    let mut writer = writer_of(2);
    let reader = writer.reader();
    assert_eq!(writer.set(11), Ok(()));
    let copy = reader.get();
    let held = reader.snapshot().unwrap();
    assert_eq!(*held, 11);
    assert_eq!(writer.set(22), Ok(()));
    assert_eq!(*held, 11);
    assert_eq!(copy, Some(11));
    assert_eq!(reader.get(), Some(22));
}

#[test]
fn writer_routes_round_a_held_slot() {
    let mut writer = writer_of(3);
    let reader = writer.reader();
    // The snapshot holds slot 0, the one published at the start.
    let held = reader.snapshot().unwrap();
    assert_eq!(writer.cursor(), 1);
    assert_eq!(writer.set(1), Ok(()));
    assert_eq!(writer.cursor(), 2);
    // Slot 0 comes next in the ring but is held: slot 1 is taken instead.
    assert_eq!(writer.set(2), Ok(()));
    assert_eq!(writer.cursor(), 1);
    assert_eq!(writer.set(3), Ok(()));
    assert_eq!(writer.cursor(), 2);
    assert_eq!(writer.set(4), Ok(()));
    assert_eq!(writer.cursor(), 1);
    assert_eq!(*held, 0);
    assert_eq!(reader.get(), Some(4));
    drop(held);
    assert_eq!(writer.set(5), Ok(()));
    assert_eq!(writer.cursor(), 2);
    assert_eq!(writer.set(6), Ok(()));
    assert_eq!(writer.cursor(), 0);
    assert_eq!(reader.get(), Some(6));
}

#[test]
fn set_gives_the_value_back_when_every_slot_is_busy() {
    let mut writer: Latest<String> = Latest::new(2).unwrap();
    let reader = writer.reader();
    let held = reader.snapshot().unwrap();
    assert_eq!(writer.set("one".to_string()), Ok(()));
    assert_eq!(writer.cursor(), 1);
    // Slot 0 is held by the snapshot and slot 1 is published.
    assert_eq!(writer.set("two".to_string()), Err("two".to_string()));
    assert_eq!(writer.cursor(), 1);
    assert_eq!(writer.capacity(), 2);
    assert_eq!(reader.get(), Some("one".to_string()));
    assert_eq!(*held, String::new());
    drop(held);
    assert_eq!(writer.set("two".to_string()), Ok(()));
    assert_eq!(writer.cursor(), 0);
    assert_eq!(reader.get(), Some("two".to_string()));
}

#[test]
fn a_spare_slot_is_always_found() {
    // Three readers hold three different slots; with five slots one is
    // always left besides the published one.
    let mut writer = writer_of(5);
    let reader = writer.reader();
    let mut held = Vec::new();
    for v in 1..=3u64 {
        held.push(reader.snapshot().unwrap());
        assert_eq!(writer.set(v), Ok(()));
    }
    for v in 4..=40u64 {
        assert_eq!(writer.set(v), Ok(()));
        assert_eq!(reader.get(), Some(v));
    }
    assert_eq!(*held[0], 0);
    assert_eq!(*held[1], 1);
    assert_eq!(*held[2], 2);
}

#[test]
fn cursor_walks_the_ring() {
    let mut writer = writer_of(3);
    assert_eq!(writer.cursor(), 1);
    let expected = [2usize, 0, 1, 2, 0, 1];
    for (v, at) in expected.iter().enumerate() {
        assert_eq!(writer.set(v as u64), Ok(()));
        assert_eq!(writer.cursor(), *at);
    }
    // With two slots the first probe meets the published slot.
    let mut small = writer_of(2);
    assert_eq!(small.cursor(), 1);
    assert_eq!(small.set(1), Ok(()));
    assert_eq!(small.cursor(), 1);
    assert_eq!(small.set(2), Ok(()));
    assert_eq!(small.cursor(), 0);
    assert_eq!(small.set(3), Ok(()));
    assert_eq!(small.cursor(), 1);
}

#[test]
fn dropping_the_writer_closes_every_reader() {
    let mut writer = writer_of(3);
    let reader = writer.reader();
    let twin = reader.clone();
    assert_eq!(writer.set(9), Ok(()));
    assert_eq!(reader.get(), Some(9));
    assert_eq!(twin.get(), Some(9));
    drop(writer);
    assert_eq!(reader.get(), None);
    assert_eq!(twin.get(), None);
    assert!(reader.snapshot().is_none());
    let late = reader.clone();
    assert_eq!(late.get(), None);
    assert_eq!(reader.get(), None);
}

#[test]
fn snapshot_taken_before_the_drop_stays_valid() {
    let mut writer = writer_of(2);
    let reader = writer.reader();
    assert_eq!(writer.set(5), Ok(()));
    let held = reader.snapshot().unwrap();
    drop(writer);
    assert_eq!(*held, 5);
    assert_eq!(reader.get(), None);
}

#[test]
fn readers_are_independent() {
    let mut writer = writer_of(4);
    let first = writer.reader();
    let second = writer.reader();
    let third = first.clone();
    assert_eq!(writer.set(1), Ok(()));
    assert_eq!(first.get(), Some(1));
    drop(first);
    assert_eq!(writer.set(2), Ok(()));
    assert_eq!(second.get(), Some(2));
    assert_eq!(third.get(), Some(2));
    drop(second);
    assert_eq!(writer.set(3), Ok(()));
    assert_eq!(third.get(), Some(3));
}

#[test]
fn reads_never_go_back() {
    let mut writer = writer_of(3);
    let reader = writer.reader();
    let mut newest = 0u64;
    for v in 1..=200u64 {
        if v % 3 != 0 {
            assert_eq!(writer.set(v), Ok(()));
        }
        let seen = reader.get().unwrap();
        assert!(seen >= newest);
        newest = seen;
    }
    assert_eq!(newest, 200);
}

#[test]
fn reads_never_go_back_across_threads() {
    let mut writer = writer_of(4);
    let reader: LatestReader<u64> = writer.reader();
    let last = 20_000u64;
    let seen_last = crossbeam::thread::scope(|scope| {
        let poller = scope.spawn(|_| {
            let mut newest = 0u64;
            loop {
                match reader.get() {
                    Some(seen) => {
                        assert!(seen >= newest);
                        newest = seen;
                        if seen == last {
                            return newest;
                        }
                    }
                    None => return newest,
                }
            }
        });
        for v in 1..=last {
            let mut pending = v;
            loop {
                match writer.set(pending) {
                    Ok(()) => break,
                    Err(back) => pending = back,
                }
            }
        }
        poller.join().unwrap()
    })
    .unwrap();
    assert_eq!(seen_last, last);
}

#[test]
fn next_index_wraps() {
    assert_eq!(next_index(0, 3), 1);
    assert_eq!(next_index(1, 3), 2);
    assert_eq!(next_index(2, 3), 0);
    assert_eq!(next_index(0, 1), 0);
    assert_eq!(next_index(1, 2), 0);
    assert_eq!(next_index(7, 3), 2);
}

#[test]
fn store_writes_or_returns() {
    let mut place = 1u64;
    assert_eq!(store(Some(&mut place), 5), Ok(()));
    assert_eq!(place, 5);
    assert_eq!(store(None, 6u64), Err(6));
    let mut word = String::from("old");
    assert_eq!(store(Some(&mut word), String::from("new")), Ok(()));
    assert_eq!(word, "new");
}

#[test]
fn copy_out_copies_what_is_held() {
    let held = Arc::new(String::from("kept"));
    assert_eq!(copy_out(Some(held.clone())), Some(String::from("kept")));
    assert_eq!(*held, "kept");
    assert_eq!(copy_out::<u64>(None), None);
    assert_eq!(copy_out(Some(Arc::new(3u64))), Some(3));
}

#[test]
fn hold_takes_what_the_pointer_refers_to() {
    let pointer = Arc::new(ArcCell::new(Arc::new(String::from("shown"))));
    let held = hold(Some(pointer.clone())).unwrap();
    assert_eq!(*held, "shown");
    pointer.set(Arc::new(String::from("next")));
    assert_eq!(*held, "shown");
    assert_eq!(*hold(Some(pointer)).unwrap(), "next");
    assert!(hold::<u64>(None).is_none());
}

#[test]
fn nothing_is_handed_out_for_an_unresolved_link() {
    assert_eq!(copy_out(hold::<String>(None)), None);
}
