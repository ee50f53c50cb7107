use mappy_rs::aligner::{Aligner, NotImplemented};
use mappy_rs::backoff::{Backoff, INITIAL_DELAY_MS, RETRY_LIMIT};
use mappy_rs::collector::{Collector, CollectorAction, COLLECTOR_POLL_MS};
use mappy_rs::dispatch::{DispatchPhase, Dispatcher};
use mappy_rs::index_seq::{check_index, check_reference, clamp_span, decode_bases, IndexSeqError, Span};
use mappy_rs::items::{ResultItem, WorkItem};
use mappy_rs::mapping::{InvalidCigar, Mapping, Strand};
use mappy_rs::options::{
    index_request, scoring_wanted, tune, IndexOptions, MapOptions, NewError, Overrides,
};
use mappy_rs::record::{find_payload, BatchError, Field, Record, RecordFault, Value};
use mappy_rs::results::{AlignmentBatchResultIter, EndReason};
use mappy_rs::state::{batch_state, BatchState};
use mappy_rs::store::PendingStore;
use mappy_rs::text::{push_decimal, push_signed_decimal};
use mappy_rs::worker::{
    mark_done, round_flags, wait_as_done, EngineError, Worker, WorkerAction, ROUND_POLL_MS, WORKER_POLL_MS,
};

fn text(key: &str, value: &str) -> Field<u8> {
    Field { key: String::from(key), value: Value::Text(String::from(value)) }
}

fn mapping() -> Mapping {
    Mapping {
        query_start: 32,
        query_end: 33,
        strand: Strand::Forward,
        target_name: String::from("Shark_bait"),
        target_len: 10,
        target_start: 10,
        target_end: 11,
        match_len: 10,
        block_len: 10,
        mapq: 69,
        is_primary: true,
        cigar: vec![(10, 11)],
        NM: 10,
        MD: None,
        cs: None,
    }
}

#[test]
fn store_gives_out_ids_in_order() {
    let mut store = PendingStore::new();
    assert!(store.is_empty());
    assert_eq!(store.next_id(), 0);
    assert_eq!(store.register("zero"), 0);
    assert_eq!(store.register("one"), 1);
    assert_eq!(store.register("two"), 2);
    assert_eq!(store.next_id(), 3);
    assert!(!store.is_empty());
}

#[test]
fn store_hands_each_entry_back_once() {
    let mut store = PendingStore::new();
    store.register("zero");
    store.register("one");
    assert_eq!(store.take(1), Some("one"));
    assert_eq!(store.take(1), None);
    assert_eq!(store.take(7), None);
    assert!(!store.is_empty());
    assert_eq!(store.take(0), Some("zero"));
    assert!(store.is_empty());
    // Ids are not used again.
    assert_eq!(store.register("two"), 2);
    assert_eq!(store.take(2), Some("two"));
}

#[test]
fn payload_is_the_first_seq_field() {
    let fields = vec![text("name", "r1"), text("seq", "ACGT"), text("seq", "TTTT")];
    assert_eq!(find_payload(&fields), Ok(String::from("ACGT")));
    assert_eq!(Record::Mapping(fields).payload(), Ok(String::from("ACGT")));
}

#[test]
fn payload_tells_what_is_wrong() {
    assert_eq!(find_payload::<u8>(&Vec::new()), Err(RecordFault::MissingSeq));
    assert_eq!(find_payload(&vec![text("Seq", "ACGT"), text("sequence", "ACGT")]), Err(RecordFault::MissingSeq));
    let other = vec![Field { key: String::from("seq"), value: Value::Other(3u8) }, text("seq", "ACGT")];
    assert_eq!(find_payload(&other), Err(RecordFault::SeqNotText));
    assert_eq!(Record::<u8>::NotMapping.payload(), Err(RecordFault::NotMapping));
}

#[test]
fn faults_become_errors_under_the_records_id() {
    assert_eq!(RecordFault::NotMapping.at(4), BatchError::MalformedRecord { id: 4 });
    assert_eq!(RecordFault::MissingSeq.at(5), BatchError::MissingField { id: 5 });
    assert_eq!(RecordFault::SeqNotText.at(6), BatchError::InvalidSeq { id: 6 });
}

#[test]
fn errors_have_their_messages() {
    assert_eq!(
        BatchError::ConfigurationError.message(),
        "Multi threading not enabled on this instance. Please call `.enable_threading()`"
    );
    assert_eq!(BatchError::MalformedRecord { id: 1 }.message(), "Element in iterable is not a dictionary");
    assert_eq!(BatchError::MissingField { id: 1 }.message(), "Key `seq` not found in iterated dictionary");
    assert_eq!(BatchError::InvalidSeq { id: 1 }.message(), "`seq` must be a string");
    assert_eq!(
        BatchError::QueueFull { item: Some(50000) }.message(),
        "Internal error adding data to work queue: no room for work item 50000"
    );
    assert_eq!(
        BatchError::QueueFull { item: None }.message(),
        "Internal error adding data to work queue: no room for a termination sentinel"
    );
}

#[test]
fn retry_pauses_double_from_fifty() {
    assert_eq!(RETRY_LIMIT, 6);
    assert_eq!(INITIAL_DELAY_MS, 50);
    let mut backoff = Backoff::new();
    let mut pauses = Vec::new();
    while !backoff.exhausted() {
        pauses.push(backoff.fail().unwrap());
    }
    assert_eq!(pauses, vec![50, 100, 200, 400, 800, 1600]);
    assert_eq!(backoff.attempts(), 6);
    assert_eq!(backoff.fail(), None);
    assert_eq!(backoff.attempts(), 6);
}

#[test]
fn a_rejected_item_stays_in_hand() {
    let aligner = Aligner::with_capacities(1, 1).unwrap();
    assert!(aligner.work_queue().push(WorkItem::Done).is_ok());
    let mut dispatcher = Dispatcher::new(1, true).unwrap();
    let mut store = PendingStore::new();
    dispatcher.offer(&mut store, Record::Mapping(vec![text("seq", "ACGT")]));
    assert_eq!(dispatcher.phase(), DispatchPhase::Pushing);
    assert_eq!(dispatcher.pending(), Some(&WorkItem::Work(0, String::from("ACGT"))));
    // The first rejection is followed by a retry at once.
    assert_eq!(dispatcher.pump(aligner.work_queue()), None);
    assert_eq!(dispatcher.pending(), Some(&WorkItem::Work(0, String::from("ACGT"))));
    assert_eq!(dispatcher.pump(aligner.work_queue()), Some(50));
    assert_eq!(dispatcher.pump(aligner.work_queue()), Some(100));
    assert_eq!(dispatcher.pending(), Some(&WorkItem::Work(0, String::from("ACGT"))));
    assert_eq!(aligner.work_queue().pop(), Some(WorkItem::Done));
    assert_eq!(dispatcher.pump(aligner.work_queue()), None);
    assert_eq!(dispatcher.phase(), DispatchPhase::Accepting);
    assert_eq!(dispatcher.pending(), None);
    assert_eq!(aligner.work_queue().pop(), Some(WorkItem::Work(0, String::from("ACGT"))));
}

#[test]
fn settle_follows_the_queues_answers() {
    let mut dispatcher = Dispatcher::new(2, false).unwrap();
    let mut store = PendingStore::new();
    assert_eq!(dispatcher.settle(true), None);
    assert_eq!(dispatcher.phase(), DispatchPhase::Accepting);
    dispatcher.offer(&mut store, Record::Mapping(vec![text("seq", "ACGT")]));
    assert_eq!(dispatcher.settle(true), None);
    assert_eq!(dispatcher.phase(), DispatchPhase::Accepting);
    assert_eq!(dispatcher.outcome(), None);
    dispatcher.close();
    assert_eq!(dispatcher.pending(), Some(&WorkItem::Done));
    assert_eq!(dispatcher.settle(true), None);
    assert_eq!(dispatcher.sentinels(), 1);
    assert_eq!(dispatcher.settle(true), None);
    assert_eq!(dispatcher.sentinels(), 2);
    assert_eq!(dispatcher.phase(), DispatchPhase::Finished);
    assert_eq!(dispatcher.outcome(), Some(Ok(())));
    // Nothing moves a dispatcher that has ended.
    dispatcher.offer(&mut store, Record::Mapping(vec![text("seq", "ACGT")]));
    dispatcher.close();
    assert_eq!(dispatcher.settle(false), None);
    assert_eq!(dispatcher.outcome(), Some(Ok(())));
    assert_eq!(store.next_id(), 1);
}

#[test]
fn a_sentinel_that_is_turned_down_ends_the_batch() {
    let mut dispatcher = Dispatcher::new(2, false).unwrap();
    dispatcher.close();
    assert_eq!(dispatcher.settle(true), None);
    assert_eq!(dispatcher.settle(false), None);
    assert_eq!(dispatcher.outcome(), Some(Err(BatchError::QueueFull { item: None })));
    assert_eq!(dispatcher.sentinels(), 1);
}

#[test]
fn an_offer_to_a_busy_dispatcher_changes_nothing() {
    let mut dispatcher = Dispatcher::new(1, false).unwrap();
    let mut store = PendingStore::new();
    dispatcher.offer(&mut store, Record::Mapping(vec![text("seq", "AAAA")]));
    dispatcher.offer(&mut store, Record::Mapping(vec![text("seq", "CCCC")]));
    dispatcher.close();
    assert_eq!(dispatcher.pending(), Some(&WorkItem::Work(0, String::from("AAAA"))));
    assert_eq!(store.next_id(), 1);
}

#[test]
fn worker_reacts_to_what_it_pops() {
    let mut worker = Worker::new(3);
    assert_eq!(worker.thread_number(), 3);
    assert_eq!(WORKER_POLL_MS, 10);
    assert_eq!(worker.react(None), WorkerAction::Pause(10));
    assert_eq!(
        worker.react(Some(WorkItem::Work(9, String::from("ACGT")))),
        WorkerAction::Align(9, String::from("ACGT"))
    );
    assert!(!worker.holding());
    worker.complete(9, Err(EngineError));
    assert!(!worker.holding());
    worker.complete(9, Ok(Vec::new()));
    assert!(worker.holding());
    assert_eq!(worker.published(false), WorkerAction::Pause(10));
    assert!(worker.holding());
    assert_eq!(worker.published(true), WorkerAction::Continue);
    assert!(!worker.holding());
    assert_eq!(worker.published(true), WorkerAction::Continue);
    assert_eq!(worker.react(Some(WorkItem::Done)), WorkerAction::Continue);
    assert!(worker.holding());
    assert_eq!(worker.published(true), WorkerAction::Retire);
}

#[test]
fn worker_keeps_its_result_while_the_results_queue_is_full() {
    let aligner = Aligner::with_capacities(4, 1).unwrap();
    assert!(aligner.results_queue().push(ResultItem::Done).is_ok());
    let mut worker = Worker::new(0);
    worker.complete(5, Ok(aligner.no_op_map()));
    assert_eq!(worker.step(aligner.work_queue(), aligner.results_queue()), WorkerAction::Pause(10));
    assert!(worker.holding());
    assert_eq!(aligner.results_queue().pop(), Some(ResultItem::Done));
    assert_eq!(worker.step(aligner.work_queue(), aligner.results_queue()), WorkerAction::Continue);
    assert!(!worker.holding());
    assert_eq!(aligner.results_queue().pop(), Some(ResultItem::Result(5, aligner.no_op_map())));
    assert_eq!(worker.step(aligner.work_queue(), aligner.results_queue()), WorkerAction::Pause(10));
}

#[test]
fn round_flags_start_unset() {
    assert_eq!(round_flags(0), Vec::<bool>::new());
    assert_eq!(round_flags(3), vec![false, false, false]);
    assert_eq!(ROUND_POLL_MS, 1);
}

#[test]
fn a_worker_waits_for_its_peers() {
    let mut dones = round_flags(3);
    assert!(!wait_as_done(&mut dones, 0));
    mark_done(&mut dones, 0);
    assert_eq!(dones, vec![true, false, false]);
    assert!(wait_as_done(&mut dones, 0));
    assert!(!wait_as_done(&mut dones, 1));
    assert_eq!(dones, vec![true, false, false]);
    mark_done(&mut dones, 2);
    mark_done(&mut dones, 1);
    assert_eq!(dones, vec![true, true, true]);
    // The first to ask once all are done starts the next round.
    assert!(!wait_as_done(&mut dones, 2));
    assert_eq!(dones, vec![false, false, false]);
    assert!(!wait_as_done(&mut dones, 0));
}

#[test]
fn collector_counts_sentinels() {
    let mut collector = Collector::new(2).unwrap();
    assert_eq!(COLLECTOR_POLL_MS, 5);
    assert_eq!(collector.react(None), CollectorAction::Pause(5));
    assert_eq!(
        collector.react(Some(ResultItem::Result(1, Vec::new()))),
        CollectorAction::Send(ResultItem::Result(1, Vec::new()))
    );
    assert_eq!(collector.react(Some(ResultItem::Finished)), CollectorAction::Skip);
    assert_eq!(collector.react(Some(ResultItem::Done)), CollectorAction::Skip);
    assert_eq!(collector.n_finished(), 1);
    assert!(!collector.finished());
    assert_eq!(collector.react(Some(ResultItem::Done)), CollectorAction::Send(ResultItem::Finished));
    assert!(collector.finished());
    assert_eq!(collector.react(Some(ResultItem::Done)), CollectorAction::Skip);
    assert_eq!(collector.react(Some(ResultItem::Result(2, Vec::new()))), CollectorAction::Skip);
    assert_eq!(collector.react(None), CollectorAction::Skip);
    assert_eq!(collector.n_finished(), 2);
}

#[test]
fn collector_stops_forwarding_once_a_send_fails() {
    let mut collector = Collector::new(1).unwrap();
    assert!(collector.forwarding());
    collector.sent(true);
    assert!(collector.forwarding());
    collector.sent(false);
    assert!(!collector.forwarding());
    assert_eq!(collector.react(Some(ResultItem::Result(1, Vec::new()))), CollectorAction::Skip);
    assert_eq!(collector.react(Some(ResultItem::Done)), CollectorAction::Send(ResultItem::Finished));
}

#[test]
fn batch_states_follow_the_dispatcher_and_the_marker() {
    let mut res = AlignmentBatchResultIter::<u8>::new();
    assert_eq!(batch_state(None, &res), BatchState::Idle);
    let mut dispatcher = Dispatcher::new(1, false).unwrap();
    assert_eq!(batch_state(Some(&dispatcher), &res), BatchState::Dispatching);
    dispatcher.close();
    assert_eq!(batch_state(Some(&dispatcher), &res), BatchState::Dispatching);
    dispatcher.settle(true);
    assert_eq!(batch_state(Some(&dispatcher), &res), BatchState::Draining);
    res.accept(Ok(ResultItem::Finished));
    assert_eq!(res.ended(), Some(EndReason::Finished));
    assert_eq!(batch_state(Some(&dispatcher), &res), BatchState::Finished);

    let res = AlignmentBatchResultIter::<u8>::new();
    let mut failed = Dispatcher::new(1, false).unwrap();
    failed.close();
    failed.settle(false);
    assert_eq!(batch_state(Some(&failed), &res), BatchState::Aborted);

    let mut closed = AlignmentBatchResultIter::<u8>::default();
    closed.accept(Err(crossbeam::channel::RecvError));
    assert_eq!(batch_state(Some(&dispatcher), &closed), BatchState::Draining);
}

#[test]
fn aligner_starts_without_workers() {
    let mut aligner = Aligner::new();
    assert_eq!(aligner.n_threads(), 0);
    assert_eq!(aligner.work_queue().capacity(), 50_000);
    assert_eq!(aligner.results_queue().capacity(), 20_000);
    let workers = aligner.enable_threading(4);
    assert_eq!(aligner.n_threads(), 4);
    assert_eq!(workers.iter().map(|worker| worker.thread_number()).collect::<Vec<usize>>(), vec![0, 1, 2, 3]);
    let res = AlignmentBatchResultIter::<u8>::new();
    assert_eq!(res.n_threads(), 0);
    assert_eq!(res.sender().capacity(), Some(20_000));
    let (res, _dispatcher, collector) = aligner.map_batch::<u8>(true).unwrap();
    assert_eq!(res.n_threads(), 4);
    assert_eq!(collector.n_finished(), 0);
}

#[test]
fn set_n_threads_sets_the_number() {
    let mut res = AlignmentBatchResultIter::<u8>::new();
    res.set_n_threads(8);
    assert_eq!(res.n_threads(), 8);
}

#[test]
fn queues_have_the_sizes_asked_for() {
    let aligner = Aligner::with_capacities(3, 5).unwrap();
    assert_eq!(aligner.work_queue().capacity(), 3);
    assert_eq!(aligner.results_queue().capacity(), 5);
    assert!(Aligner::with_capacities(0, 5).is_none());
    assert!(Aligner::with_capacities(3, 0).is_none());
    assert!(Aligner::with_capacities(16_777_217, 5).is_none());
    assert!(Aligner::with_capacities(3, 16_777_217).is_none());
}

#[test]
fn no_op_map_gives_the_placeholder() {
    let aligner = Aligner::new();
    let expected = Mapping {
        query_start: 0,
        query_end: 1000,
        strand: Strand::Forward,
        target_name: String::from("Hello"),
        target_len: 101010,
        target_start: 10,
        target_end: 1010,
        match_len: 1000,
        block_len: 1000,
        mapq: 60,
        is_primary: true,
        cigar: vec![],
        NM: 0,
        MD: None,
        cs: Some(String::from("Cigar string")),
    };
    assert_eq!(aligner.no_op_map(), vec![expected.clone()]);
    assert_eq!(aligner.map_no_op(String::from("ACGT"), None, true, false), Ok(vec![expected]));
    assert_eq!(
        aligner.map_no_op(String::from("ACGT"), Some(String::from("TTTT")), false, false),
        Err(NotImplemented)
    );
}

#[test]
fn mapping_fields_can_be_read() {
    let m = mapping();
    assert!(m.target_start == 10);
    assert_eq!(m.get_target_name(), "Shark_bait");
    assert_eq!(m.get_target_len(), 10);
    assert_eq!(m.get_target_start(), 10);
    assert_eq!(m.get_target_end(), 11);
    assert_eq!(m.get_query_start(), 32);
    assert_eq!(m.get_query_end(), 33);
    assert_eq!(m.get_block_len(), 10);
    assert_eq!(m.get_match_len(), 10);
    assert!(m.get_is_primary());
    assert_eq!(m.get_strand(), 1);
    let mut reverse = mapping();
    reverse.strand = Strand::Reverse;
    assert_eq!(reverse.get_strand(), -1);
    assert_eq!(Strand::Forward.symbol(), "+");
    assert_eq!(Strand::Reverse.symbol(), "-");
}

#[test]
fn cigar_is_written_as_lengths_and_letters() {
    let mut m = mapping();
    m.cigar = vec![(10, 0), (2, 1), (3, 2), (400, 3), (5, 4), (6, 5), (7, 6), (8, 7), (4294967295, 8), (0, 0)];
    assert_eq!(m.get_cigar_str(), Ok(String::from("10M2I3D400N5S6H7P8=4294967295X0M")));
    m.cigar = Vec::new();
    assert_eq!(m.get_cigar_str(), Ok(String::new()));
}

#[test]
fn an_unknown_cigar_operation_is_reported() {
    let m = mapping();
    assert_eq!(m.get_cigar_str(), Err(InvalidCigar { index: 0, op: 11 }));
    assert_eq!(m.paf(), Err(InvalidCigar { index: 0, op: 11 }));
    let mut later = mapping();
    later.cigar = vec![(1, 8), (2, 9), (3, 200)];
    assert_eq!(later.get_cigar_str(), Err(InvalidCigar { index: 1, op: 9 }));
}

#[test]
fn a_mapping_is_written_as_paf() {
    let mut m = mapping();
    m.cigar = vec![(10, 0), (1, 2)];
    assert_eq!(m.paf(), Ok(String::from("32\t33\t+\tShark_bait\t10\t10\t11\t10\t10\t69\ttp:A:P\tcg:Z:10M1D")));
    m.strand = Strand::Reverse;
    m.is_primary = false;
    m.query_start = -1;
    m.target_len = 2147483647;
    m.match_len = -2147483648;
    m.mapq = 4294967295;
    assert_eq!(
        m.paf(),
        Ok(String::from(
            "-1\t33\t-\tShark_bait\t2147483647\t10\t11\t-2147483648\t10\t4294967295\ttp:A:S\tcg:Z:10M1D"
        ))
    );
}

#[test]
fn numbers_are_written_in_decimal() {
    let mut out = String::from("n=");
    push_decimal(&mut out, 0);
    out.push(',');
    push_decimal(&mut out, 9);
    out.push(',');
    push_decimal(&mut out, 10);
    out.push(',');
    push_decimal(&mut out, 18446744073709551615);
    out.push(',');
    push_signed_decimal(&mut out, -7);
    out.push(',');
    push_signed_decimal(&mut out, 120);
    assert_eq!(out, "n=0,9,10,18446744073709551615,-7,120");
}

#[test]
fn overrides_replace_the_defaults() {
    let defaults_index = IndexOptions { k: 15, w: 10, batch_size: 4_000_000_000 };
    let defaults_map = MapOptions {
        flag: 0x20,
        min_cnt: 3,
        min_chain_score: 40,
        min_dp_max: 80,
        bw: 500,
        best_n: 5,
        max_frag_len: 800,
        a: 2,
        b: 4,
        q: 4,
        e: 2,
        q2: 24,
        e2: 1,
        sc_ambi: 1,
    };
    let nothing = Overrides {
        k: None,
        w: None,
        min_cnt: None,
        min_chain_score: None,
        min_dp_score: None,
        bw: None,
        best_n: None,
        max_frag_len: None,
        extra_flags: None,
        scoring: None,
    };
    let (mut index, mut map) = (defaults_index, defaults_map);
    tune(&nothing, &mut index, &mut map);
    assert_eq!(index, IndexOptions { batch_size: 0x7fff_ffff_ffff_ffff, ..defaults_index });
    assert_eq!(map, MapOptions { flag: 0x24, ..defaults_map });

    let all = Overrides {
        k: Some(21),
        w: Some(11),
        min_cnt: Some(2),
        min_chain_score: Some(30),
        min_dp_score: Some(60),
        bw: Some(400),
        best_n: Some(1),
        max_frag_len: Some(1000),
        extra_flags: Some(0x100),
        scoring: Some(vec![1, 2, 3, 4, 5, 6, 7, 8]),
    };
    let (mut index, mut map) = (defaults_index, defaults_map);
    tune(&all, &mut index, &mut map);
    assert_eq!(index, IndexOptions { k: 21, w: 11, batch_size: 0x7fff_ffff_ffff_ffff });
    assert_eq!(
        map,
        MapOptions {
            flag: 0x124,
            min_cnt: 2,
            min_chain_score: 30,
            min_dp_max: 60,
            bw: 400,
            best_n: 1,
            max_frag_len: 1000,
            a: 1,
            b: 2,
            q: 3,
            e: 4,
            q2: 5,
            e2: 6,
            sc_ambi: 7,
        }
    );

    let (mut index, mut map) = (defaults_index, defaults_map);
    tune(&Overrides { scoring: Some(vec![9, 8, 7, 6, 5]), ..nothing.clone() }, &mut index, &mut map);
    assert_eq!(map, MapOptions { flag: 0x24, a: 9, b: 8, q: 7, e: 6, q2: 7, e2: 6, ..defaults_map });
    let (mut index, mut map) = (defaults_index, defaults_map);
    tune(&Overrides { scoring: Some(vec![9, 8, 7]), ..nothing.clone() }, &mut index, &mut map);
    assert_eq!(map, MapOptions { flag: 0x24, ..defaults_map });
    let (mut index, mut map) = (defaults_index, defaults_map);
    tune(&Overrides { scoring: Some(vec![9, 8, 7, 6, 5, 4]), ..nothing.clone() }, &mut index, &mut map);
    assert_eq!(map, MapOptions { flag: 0x24, a: 9, b: 8, q: 7, e: 6, q2: 5, e2: 4, ..defaults_map });
    let (mut index, mut map) = (defaults_index, defaults_map);
    tune(&Overrides { k: Some(65536 + 19), ..nothing }, &mut index, &mut map);
    assert_eq!(index.k, 19);
}

#[test]
fn only_the_scores_that_count_are_read() {
    let wanted: Vec<usize> = (0..10).map(scoring_wanted).collect();
    assert_eq!(wanted, vec![0, 0, 0, 0, 4, 4, 6, 7, 7, 7]);
}

#[test]
fn a_second_sequence_is_turned_down() {
    assert_eq!(Aligner::single_read(&None), Ok(()));
    assert_eq!(Aligner::single_read(&Some(String::from("ACGT"))), Err(NotImplemented));
}

#[test]
fn a_failure_is_known_before_the_batch_has_wound_down() {
    let mut dispatcher = Dispatcher::new(2, false).unwrap();
    let mut store = PendingStore::new();
    assert_eq!(dispatcher.failure(), None);
    dispatcher.offer(&mut store, Record::<u8>::NotMapping);
    assert_eq!(dispatcher.failure(), Some(BatchError::MalformedRecord { id: 0 }));
    assert_eq!(dispatcher.outcome(), None);
    assert_eq!(dispatcher.settle(true), None);
    assert_eq!(dispatcher.settle(true), None);
    assert_eq!(dispatcher.outcome(), Some(Err(BatchError::MalformedRecord { id: 0 })));
    assert_eq!(dispatcher.sentinels(), 2);
}

#[test]
fn an_aligner_needs_an_index_to_read() {
    assert_eq!(index_request(false, false, true), Ok(()));
    assert_eq!(index_request(true, false, true), Err(NewError::NotImplemented));
    assert_eq!(index_request(false, true, true), Err(NewError::NotImplemented));
    assert_eq!(index_request(false, true, false), Err(NewError::NotImplemented));
    assert_eq!(index_request(false, false, false), Err(NewError::NoIndex));
}

#[test]
fn an_index_without_sequences_gives_none_back() {
    assert_eq!(check_index(false, 4, 2), Err(IndexSeqError::NoIndex));
    assert_eq!(check_index(true, 4, 2), Err(IndexSeqError::NoSequence));
    assert_eq!(check_index(true, 0x24, 3), Err(IndexSeqError::NoSequence));
    assert_eq!(check_index(true, 0x20, 2), Ok(()));
    assert_eq!(check_index(true, 4, 1), Ok(()));
}

#[test]
fn a_reference_must_be_in_the_index() {
    assert_eq!(check_reference(-1, 4), Err(IndexSeqError::UnknownReference));
    assert_eq!(check_reference(4, 4), Err(IndexSeqError::UnknownReference));
    assert_eq!(check_reference(0, 4), Ok(0));
    assert_eq!(check_reference(3, 4), Ok(3));
}

#[test]
fn a_span_is_cut_to_the_reference() {
    assert_eq!(clamp_span(0, 2147483647, 400), Ok(Span { start: 0, end: 400 }));
    assert_eq!(clamp_span(10, 20, 400), Ok(Span { start: 10, end: 20 }));
    assert_eq!(clamp_span(10, 400, 400), Ok(Span { start: 10, end: 400 }));
    assert_eq!(clamp_span(400, 500, 400), Err(IndexSeqError::BadCoordinates));
    assert_eq!(clamp_span(20, 20, 400), Err(IndexSeqError::BadCoordinates));
    assert_eq!(clamp_span(20, 10, 400), Err(IndexSeqError::BadCoordinates));
    assert_eq!(clamp_span(-5, -1, 400), Ok(Span { start: -5, end: 400 }));
    assert_eq!(Span { start: 10, end: 400 }.len(), 390);
    assert_eq!(Span { start: -2147483648, end: 2147483647 }.len(), 4294967295);
    assert_eq!(Span { start: 5, end: 5 }.len(), 0);
}

#[test]
fn codes_are_read_as_bases() {
    assert_eq!(decode_bases(&vec![0, 1, 2, 3, 4, 0]), Ok(String::from("ACGTNA")));
    assert_eq!(decode_bases(&Vec::new()), Ok(String::new()));
    assert_eq!(decode_bases(&vec![0, 1, 5]), Err(IndexSeqError::UnknownBase));
    assert_eq!(IndexSeqError::NoIndex.message(), "No index");
    assert_eq!(IndexSeqError::NoSequence.message(), "No sequence in this index");
    assert_eq!(IndexSeqError::UnknownReference.message(), "Could not find reference in index");
    assert_eq!(IndexSeqError::BadCoordinates.message(), "Funky start and end coords");
    assert_eq!(IndexSeqError::UnknownBase.message(), "Got an unknown char, not {ACGTN}");
}
