use crossbeam::channel::RecvError;
use mappy_rs::aligner::Aligner;
use mappy_rs::collector::Collector;
use mappy_rs::dispatch::{DispatchPhase, Dispatcher};
use mappy_rs::items::{ResultItem, WorkItem};
use mappy_rs::record::{BatchError, Field, Record, Value};
use mappy_rs::results::{AlignmentBatchResultIter, BatchNext, EndReason};
use mappy_rs::worker::{EngineError, Worker, WorkerAction};

type Meta = Vec<Field<u32>>;

fn record(name: &str, seq: &str) -> Record<u32> {
    Record::Mapping(vec![
        Field { key: String::from("read_id"), value: Value::Text(String::from(name)) },
        Field { key: String::from("seq"), value: Value::Text(String::from(seq)) },
        Field { key: String::from("channel"), value: Value::Other(7) },
    ])
}

fn records(count: usize) -> Vec<Record<u32>> {
    (0..count).map(|i| record(&format!("read{}", i), "ACGT")).collect()
}

fn name_of(meta: &Meta) -> String {
    match &meta[0].value {
        Value::Text(name) => name.clone(),
        Value::Other(_) => panic!("the first field holds the name"),
    }
}

/// Feeds the records to the dispatcher until it has ended. Every pause that
/// falls due is noted and then spent by `during_pause`.
fn dispatch(
    aligner: &Aligner,
    res: &mut AlignmentBatchResultIter<Meta>,
    dispatcher: &mut Dispatcher,
    records: Vec<Record<u32>>,
    pauses: &mut Vec<u64>,
    during_pause: &dyn Fn(&Aligner),
) -> Result<(), BatchError> {
    let mut records = records.into_iter();
    loop {
        match dispatcher.phase() {
            DispatchPhase::Accepting => match records.next() {
                Some(record) => dispatcher.offer(res.pending_mut(), record),
                None => dispatcher.close(),
            },
            DispatchPhase::Pushing => {
                if let Some(ms) = dispatcher.pump(aligner.work_queue()) {
                    pauses.push(ms);
                    during_pause(aligner);
                }
            }
            DispatchPhase::Finished => return dispatcher.outcome().unwrap(),
        }
    }
}

fn dispatch_plainly(
    aligner: &Aligner,
    res: &mut AlignmentBatchResultIter<Meta>,
    dispatcher: &mut Dispatcher,
    records: Vec<Record<u32>>,
) -> Result<(), BatchError> {
    let mut pauses = Vec::new();
    dispatch(aligner, res, dispatcher, records, &mut pauses, &|_| {})
}

/// Runs a worker until it finds no work or has seen its sentinel. Sequences
/// that start with `N` fail to align.
fn run_worker(aligner: &Aligner, worker: &mut Worker) -> bool {
    loop {
        match worker.step(aligner.work_queue(), aligner.results_queue()) {
            WorkerAction::Pause(_) => return false,
            WorkerAction::Align(id, seq) => {
                if seq.starts_with('N') {
                    worker.complete(id, Err(EngineError));
                } else {
                    worker.complete(id, Ok(aligner.no_op_map()));
                }
            }
            WorkerAction::Continue => {}
            WorkerAction::Retire => return true,
        }
    }
}

fn run_collector(aligner: &Aligner, res: &AlignmentBatchResultIter<Meta>, collector: &mut Collector) {
    while !collector.finished() {
        if collector.step(aligner.results_queue(), res.sender()).is_some() {
            return;
        }
    }
}

/// Pulls until the sequence ends; returns the names handed out and why it
/// ended.
fn drain(res: &mut AlignmentBatchResultIter<Meta>) -> (Vec<String>, EndReason) {
    let mut names = Vec::new();
    loop {
        match res.next_result() {
            BatchNext::Yield(mappings, meta) => {
                assert_eq!(mappings.len(), 1);
                names.push(name_of(&meta));
            }
            BatchNext::Return(reason) => return (names, reason),
            BatchNext::Unmatched(id) => panic!("no side data for {}", id),
        }
    }
}

#[test]
fn a_batch_is_delivered_with_its_side_data() {
    let mut aligner = Aligner::new();
    let mut workers = aligner.enable_threading(2);
    let (mut res, mut dispatcher, mut collector) = aligner.map_batch(false).unwrap();
    let batch = vec![record("a", "ACGT"), record("b", "GGCC"), record("c", "TTAA")];
    assert_eq!(dispatch_plainly(&aligner, &mut res, &mut dispatcher, batch), Ok(()));
    assert_eq!(res.pending().next_id(), 3);
    for worker in workers.iter_mut() {
        assert!(run_worker(&aligner, worker));
    }
    run_collector(&aligner, &res, &mut collector);
    assert!(collector.finished());
    let (mut names, reason) = drain(&mut res);
    assert_eq!(reason, EndReason::Finished);
    names.sort();
    assert_eq!(names, vec!["a", "b", "c"]);
    assert!(res.pending().is_empty());
}

#[test]
fn the_side_data_comes_back_whole() {
    let mut aligner = Aligner::new();
    let mut workers = aligner.enable_threading(1);
    let (mut res, mut dispatcher, mut collector) = aligner.map_batch::<Meta>(false).unwrap();
    assert_eq!(dispatch_plainly(&aligner, &mut res, &mut dispatcher, vec![record("a", "ACGT")]), Ok(()));
    assert!(run_worker(&aligner, &mut workers[0]));
    run_collector(&aligner, &res, &mut collector);
    match res.next_result() {
        BatchNext::Yield(mappings, meta) => {
            assert_eq!(mappings, aligner.no_op_map());
            assert_eq!(meta.len(), 3);
            assert_eq!(meta[0].key, "read_id");
            assert_eq!(meta[1].key, "seq");
            assert!(matches!(&meta[1].value, Value::Text(seq) if seq == "ACGT"));
            assert_eq!(meta[2].key, "channel");
            assert!(matches!(meta[2].value, Value::Other(7)));
        }
        _ => panic!("a result was due"),
    }
}

#[test]
fn work_items_carry_ids_in_input_order() {
    let mut aligner = Aligner::new();
    aligner.enable_threading(2);
    let (mut res, mut dispatcher, _collector) = aligner.map_batch(false).unwrap();
    let batch = vec![record("a", "AAAA"), record("b", "CCCC"), record("c", "GGGG")];
    assert_eq!(dispatch_plainly(&aligner, &mut res, &mut dispatcher, batch), Ok(()));
    let queue = aligner.work_queue();
    assert_eq!(queue.pop(), Some(WorkItem::Work(0, String::from("AAAA"))));
    assert_eq!(queue.pop(), Some(WorkItem::Work(1, String::from("CCCC"))));
    assert_eq!(queue.pop(), Some(WorkItem::Work(2, String::from("GGGG"))));
    assert_eq!(queue.pop(), Some(WorkItem::Done));
    assert_eq!(queue.pop(), Some(WorkItem::Done));
    assert_eq!(queue.pop(), None);
    assert_eq!(dispatcher.sentinels(), 2);
}

#[test]
fn results_may_arrive_in_any_order() {
    let mut aligner = Aligner::new();
    aligner.enable_threading(2);
    let (mut res, mut dispatcher, mut collector) = aligner.map_batch(false).unwrap();
    assert_eq!(dispatch_plainly(&aligner, &mut res, &mut dispatcher, records(4)), Ok(()));
    // The slower worker holds on to the first item while the faster one
    // works through the rest.
    let mut slow = Worker::new(0);
    let mut fast = Worker::new(1);
    let held_back = match slow.step(aligner.work_queue(), aligner.results_queue()) {
        WorkerAction::Align(id, _) => id,
        _ => panic!("work was due"),
    };
    assert_eq!(held_back, 0);
    assert!(run_worker(&aligner, &mut fast));
    slow.complete(held_back, Ok(aligner.no_op_map()));
    assert!(run_worker(&aligner, &mut slow));
    run_collector(&aligner, &res, &mut collector);
    let (names, reason) = drain(&mut res);
    assert_eq!(reason, EndReason::Finished);
    assert_eq!(names, vec!["read1", "read2", "read3", "read0"]);
    let mut sorted = names.clone();
    sorted.sort();
    assert_eq!(sorted, vec!["read0", "read1", "read2", "read3"]);
    assert!(res.pending().is_empty());
}

#[test]
fn an_empty_batch_completes_at_once() {
    let mut aligner = Aligner::new();
    let mut workers = aligner.enable_threading(3);
    let (mut res, mut dispatcher, mut collector) = aligner.map_batch(true).unwrap();
    assert_eq!(dispatch_plainly(&aligner, &mut res, &mut dispatcher, Vec::new()), Ok(()));
    assert_eq!(dispatcher.sentinels(), 3);
    assert_eq!(aligner.work_queue().len(), 3);
    for worker in workers.iter_mut() {
        assert!(run_worker(&aligner, worker));
    }
    assert_eq!(aligner.results_queue().len(), 3);
    assert_eq!(collector.step(aligner.results_queue(), res.sender()), None);
    assert_eq!(collector.n_finished(), 1);
    assert!(res.sender().is_empty());
    assert_eq!(collector.step(aligner.results_queue(), res.sender()), None);
    assert!(!collector.finished());
    assert!(res.sender().is_empty());
    assert_eq!(collector.step(aligner.results_queue(), res.sender()), None);
    assert!(collector.finished());
    assert_eq!(res.sender().len(), 1);
    assert_eq!(res.next_result(), BatchNext::Return(EndReason::Finished));
    assert!(res.pending().is_empty());
}

#[test]
fn without_workers_a_batch_is_refused() {
    let aligner = Aligner::new();
    assert_eq!(aligner.n_threads(), 0);
    let made = aligner.map_batch::<Meta>(false);
    assert!(matches!(made, Err(BatchError::ConfigurationError)));
    let mut res = AlignmentBatchResultIter::<Meta>::new();
    let made = aligner._map_batch(&mut res, true);
    assert!(matches!(made, Err(BatchError::ConfigurationError)));
    assert!(aligner.work_queue().is_empty());
    assert!(res.pending().is_empty());
    assert_eq!(res.pending().next_id(), 0);
    assert!(matches!(Dispatcher::new(0, false), Err(BatchError::ConfigurationError)));
    assert!(Collector::new(0).is_none());
}

#[test]
fn a_full_queue_fails_the_batch_at_once_without_back_off() {
    let mut aligner = Aligner::with_capacities(2, 8).unwrap();
    aligner.enable_threading(1);
    let (mut res, mut dispatcher, _collector) = aligner.map_batch(false).unwrap();
    let mut pauses = Vec::new();
    let outcome = dispatch(&aligner, &mut res, &mut dispatcher, records(5), &mut pauses, &|_| {});
    assert_eq!(outcome, Err(BatchError::QueueFull { item: Some(2) }));
    assert!(pauses.is_empty());
    // The third record was registered before its push; the last two were
    // never looked at.
    assert_eq!(res.pending().next_id(), 3);
    assert_eq!(aligner.work_queue().len(), 2);
    assert_eq!(dispatcher.sentinels(), 0);
}

#[test]
fn back_off_gives_up_after_its_window() {
    let mut aligner = Aligner::with_capacities(2, 8).unwrap();
    aligner.enable_threading(1);
    let (mut res, mut dispatcher, _collector) = aligner.map_batch(true).unwrap();
    let mut records = records(5).into_iter();
    let mut pauses = Vec::new();
    let mut known_after = None;
    let outcome = loop {
        match dispatcher.phase() {
            DispatchPhase::Accepting => match records.next() {
                Some(record) => dispatcher.offer(res.pending_mut(), record),
                None => dispatcher.close(),
            },
            DispatchPhase::Pushing => {
                if let Some(ms) = dispatcher.pump(aligner.work_queue()) {
                    pauses.push(ms);
                }
                if known_after.is_none() && dispatcher.failure().is_some() {
                    known_after = Some(pauses.clone());
                }
            }
            DispatchPhase::Finished => break dispatcher.outcome().unwrap(),
        }
    };
    assert_eq!(outcome, Err(BatchError::QueueFull { item: Some(2) }));
    // The failure is known once the work item's window has run out.
    let window: Vec<u64> = vec![50, 100, 200, 400, 800, 1600];
    assert_eq!(known_after, Some(window.clone()));
    assert_eq!(window.iter().sum::<u64>(), 3150);
    // The first sentinel is then waited for on the same schedule; the queue
    // turns it down as well, and the batch ends without any.
    assert_eq!(pauses[..6], window[..]);
    assert_eq!(pauses[6..], window[..]);
    assert_eq!(aligner.work_queue().len(), 2);
    assert_eq!(dispatcher.sentinels(), 0);
}

#[test]
fn sentinels_follow_a_work_item_that_was_given_up() {
    let mut aligner = Aligner::with_capacities(2, 8).unwrap();
    let mut workers = aligner.enable_threading(2);
    let (mut res, mut dispatcher, mut collector) = aligner.map_batch(true).unwrap();
    let mut pauses = Vec::new();
    let worker = std::cell::RefCell::new(Worker::new(7));
    let waited = std::cell::Cell::new(0);
    // Nothing is taken off the queue until the third item has been given
    // up; then the queue drains.
    let outcome = dispatch(&aligner, &mut res, &mut dispatcher, records(5), &mut pauses, &|aligner| {
        waited.set(waited.get() + 1);
        if waited.get() > 6 {
            run_worker(aligner, &mut worker.borrow_mut());
        }
    });
    assert_eq!(outcome, Err(BatchError::QueueFull { item: Some(2) }));
    assert_eq!(pauses, vec![50, 100, 200, 400, 800, 1600, 50]);
    assert_eq!(dispatcher.sentinels(), 2);
    for worker in workers.iter_mut() {
        run_worker(&aligner, worker);
    }
    run_worker(&aligner, &mut worker.borrow_mut());
    run_collector(&aligner, &res, &mut collector);
    let (mut names, reason) = drain(&mut res);
    names.sort();
    assert_eq!(names, vec!["read0", "read1"]);
    assert_eq!(reason, EndReason::Finished);
}

#[test]
fn back_off_succeeds_once_the_queue_drains() {
    let mut aligner = Aligner::with_capacities(2, 64).unwrap();
    aligner.enable_threading(1);
    let (mut res, mut dispatcher, mut collector) = aligner.map_batch(true).unwrap();
    let mut pauses = Vec::new();
    let worker = std::cell::RefCell::new(Worker::new(0));
    let retired = std::cell::Cell::new(false);
    let outcome = dispatch(&aligner, &mut res, &mut dispatcher, records(5), &mut pauses, &|aligner| {
        if run_worker(aligner, &mut worker.borrow_mut()) {
            retired.set(true);
        }
    });
    assert_eq!(outcome, Ok(()));
    assert!(!pauses.is_empty());
    assert!(pauses.iter().all(|ms| *ms == 50));
    if !retired.get() {
        assert!(run_worker(&aligner, &mut worker.borrow_mut()));
    }
    run_collector(&aligner, &res, &mut collector);
    let (mut names, reason) = drain(&mut res);
    assert_eq!(reason, EndReason::Finished);
    names.sort();
    assert_eq!(names, vec!["read0", "read1", "read2", "read3", "read4"]);
    assert!(res.pending().is_empty());
}

#[test]
fn a_record_without_seq_aborts_the_batch() {
    let mut aligner = Aligner::new();
    let mut workers = aligner.enable_threading(2);
    let (mut res, mut dispatcher, mut collector) = aligner.map_batch(false).unwrap();
    let batch = vec![
        record("a", "ACGT"),
        Record::Mapping(vec![Field { key: String::from("read_id"), value: Value::Text(String::from("b")) }]),
        record("c", "TTAA"),
    ];
    let outcome = dispatch_plainly(&aligner, &mut res, &mut dispatcher, batch);
    assert_eq!(outcome, Err(BatchError::MissingField { id: 1 }));
    assert_eq!(dispatcher.sentinels(), 2);
    for worker in workers.iter_mut() {
        assert!(run_worker(&aligner, worker));
    }
    run_collector(&aligner, &res, &mut collector);
    let (names, reason) = drain(&mut res);
    assert_eq!(names, vec!["a"]);
    assert_eq!(reason, EndReason::Finished);
    // The record without a sequence was kept as side data before it was
    // found wanting; nothing ever asks for it.
    assert!(!res.pending().is_empty());
    assert_eq!(res.pending().next_id(), 2);
}

#[test]
fn a_record_that_is_no_mapping_aborts_the_batch() {
    let mut aligner = Aligner::new();
    aligner.enable_threading(1);
    let (mut res, mut dispatcher, _collector) = aligner.map_batch(false).unwrap();
    let batch = vec![record("a", "ACGT"), record("b", "ACGT"), Record::NotMapping, record("d", "ACGT")];
    let outcome = dispatch_plainly(&aligner, &mut res, &mut dispatcher, batch);
    assert_eq!(outcome, Err(BatchError::MalformedRecord { id: 2 }));
    assert_eq!(res.pending().next_id(), 2);
    assert_eq!(aligner.work_queue().len(), 3);
}

#[test]
fn a_seq_that_is_no_text_aborts_the_batch() {
    let mut aligner = Aligner::new();
    aligner.enable_threading(1);
    let (mut res, mut dispatcher, _collector) = aligner.map_batch(false).unwrap();
    let batch = vec![Record::Mapping(vec![Field { key: String::from("seq"), value: Value::Other(5u32) }])];
    let outcome = dispatch_plainly(&aligner, &mut res, &mut dispatcher, batch);
    assert_eq!(outcome, Err(BatchError::InvalidSeq { id: 0 }));
    assert_eq!(aligner.work_queue().pop(), Some(WorkItem::Done));
}

#[test]
fn a_failed_alignment_leaves_a_gap() {
    let mut aligner = Aligner::new();
    let mut workers = aligner.enable_threading(1);
    let (mut res, mut dispatcher, mut collector) = aligner.map_batch(false).unwrap();
    let batch = vec![record("a", "ACGT"), record("b", "NNNN"), record("c", "TTAA")];
    assert_eq!(dispatch_plainly(&aligner, &mut res, &mut dispatcher, batch), Ok(()));
    assert!(run_worker(&aligner, &mut workers[0]));
    run_collector(&aligner, &res, &mut collector);
    let (names, reason) = drain(&mut res);
    assert_eq!(names, vec!["a", "c"]);
    assert_eq!(reason, EndReason::Finished);
    assert!(!res.pending().is_empty());
}

#[test]
fn an_abandoned_batch_is_still_drained() {
    let mut aligner = Aligner::new();
    let mut workers = aligner.enable_threading(1);
    let (mut res, mut dispatcher, mut collector) = aligner.map_batch(false).unwrap();
    assert_eq!(dispatch_plainly(&aligner, &mut res, &mut dispatcher, records(3)), Ok(()));
    assert!(run_worker(&aligner, &mut workers[0]));
    let tx = res.sender().clone();
    drop(res);
    while !collector.finished() {
        assert_eq!(collector.step(aligner.results_queue(), &tx), None);
    }
    assert!(!collector.forwarding());
    assert!(aligner.results_queue().is_empty());
}

#[test]
fn a_pull_tells_the_messages_apart() {
    let mut res = AlignmentBatchResultIter::<Meta>::new();
    assert_eq!(res.ended(), None);
    assert_eq!(res.accept(Ok(ResultItem::Finished)), BatchNext::Return(EndReason::Finished));
    assert_eq!(res.ended(), Some(EndReason::Finished));
    let mut res = AlignmentBatchResultIter::<Meta>::new();
    assert_eq!(res.accept(Ok(ResultItem::Done)), BatchNext::Return(EndReason::WrongVariant));
    let mut res = AlignmentBatchResultIter::<Meta>::new();
    assert_eq!(res.accept(Err(RecvError)), BatchNext::Return(EndReason::ChannelClosed));
    assert_eq!(res.ended(), Some(EndReason::ChannelClosed));
}

#[test]
fn a_result_without_side_data_ends_the_sequence() {
    let mut res = AlignmentBatchResultIter::<String>::new();
    assert_eq!(res.pending_mut().register(String::from("first")), 0);
    assert_eq!(res.accept(Ok(ResultItem::Result(4, Vec::new()))), BatchNext::Unmatched(4));
    assert_eq!(res.ended(), Some(EndReason::Unmatched));
    // Nothing is handed out after that, and nothing is waited for.
    assert_eq!(res.accept(Ok(ResultItem::Result(0, Vec::new()))), BatchNext::Return(EndReason::Unmatched));
    assert_eq!(res.accept(Ok(ResultItem::Finished)), BatchNext::Return(EndReason::Unmatched));
    assert_eq!(res.next_result(), BatchNext::Return(EndReason::Unmatched));
    assert_eq!(res.pending().next_id(), 1);
    assert!(!res.pending().is_empty());
}

#[test]
fn a_sequence_that_has_ended_stays_ended() {
    let mut res = AlignmentBatchResultIter::<String>::new();
    assert_eq!(res.pending_mut().register(String::from("first")), 0);
    assert_eq!(res.accept(Ok(ResultItem::Finished)), BatchNext::Return(EndReason::Finished));
    assert_eq!(res.accept(Ok(ResultItem::Result(0, Vec::new()))), BatchNext::Return(EndReason::Finished));
    assert_eq!(res.accept(Err(RecvError)), BatchNext::Return(EndReason::Finished));
    // Nothing is waited for: the channel is empty.
    assert_eq!(res.next_result(), BatchNext::Return(EndReason::Finished));
    assert!(!res.pending().is_empty());
}

#[test]
fn no_id_is_handed_out_twice() {
    let mut res = AlignmentBatchResultIter::<String>::new();
    assert_eq!(res.pending_mut().register(String::from("first")), 0);
    assert_eq!(res.pending_mut().register(String::from("second")), 1);
    assert_eq!(
        res.accept(Ok(ResultItem::Result(1, Vec::new()))),
        BatchNext::Yield(Vec::new(), String::from("second"))
    );
    assert!(!res.pending().is_empty());
    assert_eq!(
        res.accept(Ok(ResultItem::Result(0, Vec::new()))),
        BatchNext::Yield(Vec::new(), String::from("first"))
    );
    assert!(res.pending().is_empty());
    // A second result under an id that was handed out breaks the sequence
    // off.
    assert_eq!(res.accept(Ok(ResultItem::Result(1, Vec::new()))), BatchNext::Unmatched(1));
    assert_eq!(res.accept(Ok(ResultItem::Result(1, Vec::new()))), BatchNext::Return(EndReason::Unmatched));
}
