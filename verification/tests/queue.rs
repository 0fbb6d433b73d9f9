use std::sync::Mutex;

use pg_otel_tracer::shared::{
    init_queue, queue_pop, queue_push, queue_stats, QueueCounters, QueueStats, SharedQueue,
    BUFFER_SIZE, MAX_PAYLOAD_SIZE, QUEUE_SIZE,
};

const EMPTY: SharedQueue = SharedQueue {
    write_idx: 0,
    read_idx: 0,
    dropped: 0,
    buffer: [0; BUFFER_SIZE],
    lengths: [0; QUEUE_SIZE],
};

static FIFO: Mutex<SharedQueue> = Mutex::new(EMPTY);
static FULL: Mutex<SharedQueue> = Mutex::new(EMPTY);
static LONG: Mutex<SharedQueue> = Mutex::new(EMPTY);
static WRAP: Mutex<SharedQueue> = Mutex::new(EMPTY);
static TURNS: Mutex<SharedQueue> = Mutex::new(EMPTY);
static FRESH: Mutex<SharedQueue> = Mutex::new(EMPTY);

#[test]
fn ring_has_1024_slots_of_8_kilobytes() {
    assert_eq!(QUEUE_SIZE, 1024);
    assert_eq!(MAX_PAYLOAD_SIZE, 8192);
    assert_eq!(BUFFER_SIZE, 8_388_608);
}

#[test]
fn batches_come_out_in_order() {
    let mut q = FIFO.lock().unwrap();
    assert_eq!(queue_pop(Some(&mut q)), None);
    assert!(queue_push(Some(&mut q), b"one"));
    assert!(queue_push(Some(&mut q), b""));
    assert!(queue_push(Some(&mut q), b"three"));
    assert_eq!(queue_pop(Some(&mut q)), Some(b"one".to_vec()));
    assert!(queue_push(Some(&mut q), b"four"));
    assert_eq!(queue_pop(Some(&mut q)), Some(Vec::new()));
    assert_eq!(queue_pop(Some(&mut q)), Some(b"three".to_vec()));
    assert_eq!(queue_pop(Some(&mut q)), Some(b"four".to_vec()));
    assert_eq!(queue_pop(Some(&mut q)), None);
}

#[test]
fn full_queue_drops_and_counts() {
    let mut q = FULL.lock().unwrap();
    for i in 0..QUEUE_SIZE {
        let data = vec![(i % 251) as u8; i % 10];
        assert!(queue_push(Some(&mut q), &data));
    }
    assert!(!queue_push(Some(&mut q), b"no room"));
    assert!(!queue_push(Some(&mut q), b"no room"));
    // Too long for any slot: refused without being counted.
    assert!(!queue_push(Some(&mut q), &vec![0; MAX_PAYLOAD_SIZE + 1]));
    assert_eq!(queue_stats(Some(q.counters())), QueueStats { size: QUEUE_SIZE, dropped: 2 });
    for i in 0..QUEUE_SIZE {
        let data = vec![(i % 251) as u8; i % 10];
        assert_eq!(queue_pop(Some(&mut q)), Some(data));
    }
    assert_eq!(queue_pop(Some(&mut q)), None);
    assert_eq!(queue_stats(Some(q.counters())), QueueStats { size: 0, dropped: 2 });
}

#[test]
fn longest_batch_fills_its_slot_and_no_other() {
    let mut q = LONG.lock().unwrap();
    let long: Vec<u8> = (0..MAX_PAYLOAD_SIZE).map(|i| (i % 253) as u8).collect();
    assert!(queue_push(Some(&mut q), &long));
    assert!(queue_push(Some(&mut q), b"behind"));
    let mut too_long = long.clone();
    too_long.push(0);
    assert!(!queue_push(Some(&mut q), &too_long));
    assert_eq!(queue_stats(Some(q.counters())), QueueStats { size: 2, dropped: 0 });
    assert_eq!(queue_pop(Some(&mut q)), Some(long));
    assert_eq!(queue_pop(Some(&mut q)), Some(b"behind".to_vec()));
}

#[test]
fn indices_wrap_around() {
    let mut q = WRAP.lock().unwrap();
    q.write_idx = usize::MAX - 1;
    q.read_idx = usize::MAX - 1;
    q.dropped = usize::MAX;
    for i in 0..5u8 {
        assert!(queue_push(Some(&mut q), &[i, i]));
    }
    assert_eq!(q.write_idx, 3);
    assert_eq!(queue_stats(Some(q.counters())), QueueStats { size: 5, dropped: usize::MAX });
    for i in 0..5u8 {
        assert_eq!(queue_pop(Some(&mut q)), Some(vec![i, i]));
    }
    assert_eq!(queue_pop(Some(&mut q)), None);
    for _ in 0..QUEUE_SIZE {
        assert!(queue_push(Some(&mut q), b"x"));
    }
    assert!(!queue_push(Some(&mut q), b"x"));
    assert_eq!(q.dropped, 0);
}

#[test]
fn missing_queue_takes_and_gives_nothing() {
    assert!(!queue_push(None, b"data"));
    assert_eq!(queue_pop(None), None);
    assert_eq!(queue_stats(None), QueueStats { size: 0, dropped: 0 });
}

#[test]
fn stats_are_read_off_the_counters() {
    let counters = QueueCounters { write_idx: 12, read_idx: 5, dropped: 3 };
    assert_eq!(queue_stats(Some(counters)), QueueStats { size: 7, dropped: 3 });
}

#[test]
fn only_fresh_memory_is_initialised() {
    let mut q = FRESH.lock().unwrap();
    q.write_idx = 77;
    q.read_idx = 3;
    q.dropped = 9;
    q.lengths[5] = usize::MAX;
    init_queue(&mut q, false);
    assert_eq!((q.write_idx, q.read_idx), (0, 0));
    assert_eq!(queue_stats(Some(q.counters())), QueueStats { size: 0, dropped: 0 });
    assert!(queue_push(Some(&mut q), b"kept"));
    init_queue(&mut q, true);
    assert_eq!(queue_pop(Some(&mut q)), Some(b"kept".to_vec()));
}

#[test]
fn order_is_kept_however_pushes_and_pops_take_turns() {
    let mut q = TURNS.lock().unwrap();
    let mut accepted: Vec<Vec<u8>> = Vec::new();
    let mut popped: Vec<Vec<u8>> = Vec::new();
    for i in 0..5000usize {
        if (i / 1300) % 2 == 0 && i % 7 != 3 {
            let data = i.to_le_bytes()[..i % 8].to_vec();
            if queue_push(Some(&mut q), &data) {
                accepted.push(data);
            }
        } else {
            popped.extend(queue_pop(Some(&mut q)));
        }
    }
    while let Some(data) = queue_pop(Some(&mut q)) {
        popped.push(data);
    }
    assert!(popped.len() > QUEUE_SIZE);
    assert_eq!(accepted, popped);
}
