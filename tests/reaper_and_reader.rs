use shard_lease::lease::{ClaimOutcome, Lease, LeaseTable};
use shard_lease::reader::{batch_tail, get_back_off_milli, ReaderCommand, ShardReader, StopReason};
use shard_lease::reaper::{idle_shards, owned_sequence_number, take_snapshot, Checkpointed};

fn s(x: &str) -> String {
    x.to_string()
}

fn fetch(it: &str) -> ReaderCommand {
    ReaderCommand::Fetch { shard_iterator: s(it), limit: 1000 }
}

fn owned(shard: &str, owner: &str, seq: &str) -> Option<Lease> {
    Some(Lease {
        shard_id: s(shard),
        owner_id: Some(s(owner)),
        sequence_number: Some(s(seq)),
        number_of_owners_switched: 1,
    })
}

#[test]
fn reaper_releases_only_the_stalled_shard() {
    let mut t = LeaseTable::new();
    let a = s("sh-000");
    let b = s("sh-001");
    t.claim_for_read(&a, &s("W1"));
    t.checkpoint(&a, &s("seq-5"));
    t.claim_for_read(&b, &s("W2"));
    t.checkpoint(&b, &s("seq-5"));
    let shards = vec![a.clone(), b.clone(), s("sh-002")];
    let snap = t.snapshot(&shards);
    assert_eq!(snap.len(), 2);
    // during the window only sh-001 makes progress
    t.checkpoint(&b, &s("seq-7"));
    let released = t.reap(&snap);
    assert_eq!(released, vec![a.clone()]);
    assert_eq!(t.read(&a).unwrap().owner_id, None);
    assert_eq!(t.read(&a).unwrap().sequence_number, Some(s("seq-5")));
    assert_eq!(t.read(&b).unwrap().owner_id, Some(s("W2")));
    assert_eq!(t.read(&s("sh-002")), None);
}

#[test]
fn reaper_skips_leases_without_owner_or_checkpoint() {
    let mut t = LeaseTable::new();
    let a = s("a");
    let b = s("b");
    t.claim_for_read(&a, &s("W1"));
    t.checkpoint(&b, &s("seq-1"));
    let snap = t.snapshot(&vec![a.clone(), b.clone()]);
    assert!(snap.is_empty());
    assert!(t.reap(&snap).is_empty());
}

#[test]
fn reaper_leaves_a_lease_released_during_the_window() {
    let mut t = LeaseTable::new();
    let a = s("a");
    t.claim_for_read(&a, &s("W1"));
    t.checkpoint(&a, &s("seq-3"));
    let snap = t.snapshot(&vec![a.clone()]);
    t.release_owner(&a);
    assert!(t.reap(&snap).is_empty());
}

#[test]
fn snapshot_and_idle_over_reads() {
    let shards = vec![s("x"), s("y"), s("z")];
    let before = vec![
        owned("x", "W1", "seq-1"),
        Some(Lease { shard_id: s("y"), owner_id: None, sequence_number: Some(s("seq-2")), number_of_owners_switched: 2 }),
        owned("z", "W3", "seq-3"),
    ];
    let snap = take_snapshot(&shards, &before);
    assert_eq!(snap.len(), 2);
    assert_eq!(snap[0].shard_id, s("x"));
    assert_eq!(snap[1].sequence_number, s("seq-3"));
    let after = vec![owned("x", "W1", "seq-1"), owned("z", "W3", "seq-4")];
    assert_eq!(idle_shards(&snap, &after), vec![s("x")]);
    let entry = Checkpointed { shard_id: s("q"), sequence_number: s("seq-1") };
    assert_eq!(idle_shards(&vec![entry], &vec![None]), Vec::<String>::new());
    assert_eq!(owned_sequence_number(&owned("x", "W", "seq-9")), Some(s("seq-9")));
    assert_eq!(owned_sequence_number(&None), None);
}

fn start_reading(r: &mut ShardReader, outcome: ClaimOutcome) -> ReaderCommand {
    assert_eq!(r.on_claimed(&outcome), ReaderCommand::ValidateOwnership);
    r.on_validated(true)
}

#[test]
fn resumed_reader_ships_and_checkpoints_batch_tail() {
    let mut t = LeaseTable::new();
    let shard = s("sh-000");
    t.claim_for_read(&shard, &s("W0"));
    t.checkpoint(&shard, &s("seq-50"));
    t.release_owner(&shard);
    let outcome = t.claim_for_read(&shard, &s("W1"));
    assert_eq!(outcome, ClaimOutcome::Resumed(s("seq-50")));
    let mut r = ShardReader::new();
    assert_eq!(start_reading(&mut r, outcome), ReaderCommand::OpenIterator(Some(s("seq-50"))));
    assert_eq!(r.on_opened(Some(s("it-0"))), fetch("it-0"));
    let tail = batch_tail(&vec![s("seq-50"), s("seq-70"), s("seq-99")]);
    assert_eq!(r.on_fetched(&tail, Some(s("it-1"))), ReaderCommand::Ship);
    let c = r.on_shipped(true);
    assert_eq!(c, ReaderCommand::Advance(s("seq-99")));
    if let ReaderCommand::Advance(q) = c {
        assert!(t.checkpoint(&shard, &q));
    }
    assert_eq!(t.read(&shard).unwrap().sequence_number, Some(s("seq-99")));
    assert_eq!(r.on_advanced(), fetch("it-1"));
}

#[test]
fn ten_fetch_failures_back_off_then_release() {
    let mut r = ShardReader::new();
    start_reading(&mut r, ClaimOutcome::Fresh);
    assert_eq!(r.on_opened(Some(s("it-0"))), fetch("it-0"));
    let mut sleeps = Vec::new();
    let mut last = fetch("it-0");
    for _ in 0..10 {
        match r.on_fetch_failed() {
            ReaderCommand::Sleep(ms) => {
                sleeps.push(ms);
                let next = r.on_ready();
                if next == ReaderCommand::ValidateOwnership {
                    assert_eq!(r.on_validated(true), fetch("it-0"));
                }
            }
            other => last = other,
        }
    }
    assert_eq!(sleeps, vec![200, 400, 800, 1600, 3200, 6400, 12800, 25600, 51200]);
    assert_eq!(last, ReaderCommand::Release);
    assert!(r.is_done());
}

#[test]
fn success_resets_retries() {
    let mut r = ShardReader::new();
    start_reading(&mut r, ClaimOutcome::Fresh);
    r.on_opened(Some(s("it-0")));
    assert_eq!(r.on_fetch_failed(), ReaderCommand::Sleep(200));
    // after an error the same iterator is fetched again
    assert_eq!(r.on_ready(), fetch("it-0"));
    assert_eq!(r.on_fetch_failed(), ReaderCommand::Sleep(400));
    r.on_ready();
    // an empty batch: no shipment, and the continuation is fetched next
    assert_eq!(r.on_fetched(&None, Some(s("it-1"))), fetch("it-1"));
    assert_eq!(r.retries, 1);
    assert_eq!(r.on_fetch_failed(), ReaderCommand::Sleep(200));
}

#[test]
fn ownership_is_checked_every_ten_reads() {
    let mut r = ShardReader::new();
    start_reading(&mut r, ClaimOutcome::Fresh);
    let mut c = r.on_opened(Some(s("it-0")));
    let mut fetches = 0;
    while let ReaderCommand::Fetch { shard_iterator, limit } = c {
        assert_eq!(shard_iterator, format!("it-{}", fetches));
        assert_eq!(limit, 1000);
        fetches += 1;
        c = r.on_fetched(&None, Some(format!("it-{}", fetches)));
    }
    assert_eq!(fetches, 9);
    assert_eq!(c, ReaderCommand::ValidateOwnership);
    assert_eq!(r.on_validated(false), ReaderCommand::Stop(StopReason::OwnershipLost));
    assert!(r.is_done());
}

#[test]
fn checkpoints_follow_batch_tails_in_order() {
    let mut r = ShardReader::new();
    start_reading(&mut r, ClaimOutcome::Fresh);
    let mut c = r.on_opened(Some(s("it-0")));
    let mut checkpoints = Vec::new();
    let batches = vec![vec!["1", "2"], vec![], vec!["3"], vec!["4", "5", "6"]];
    for (i, b) in batches.iter().enumerate() {
        if c == ReaderCommand::ValidateOwnership {
            c = r.on_validated(true);
        }
        assert_eq!(c, fetch(&format!("it-{}", i)));
        let seqs: Vec<String> = b.iter().map(|x| s(x)).collect();
        let next = if i + 1 < batches.len() { Some(format!("it-{}", i + 1)) } else { None };
        c = r.on_fetched(&batch_tail(&seqs), next);
        if c == ReaderCommand::Ship {
            if let ReaderCommand::Advance(q) = r.on_shipped(true) {
                checkpoints.push(q);
            }
            c = r.on_advanced();
        }
    }
    assert_eq!(checkpoints, vec![s("2"), s("3"), s("6")]);
    assert_eq!(c, ReaderCommand::Stop(StopReason::Exhausted));
}

#[test]
fn failed_shipment_stops_without_release() {
    let mut r = ShardReader::new();
    start_reading(&mut r, ClaimOutcome::Fresh);
    r.on_opened(Some(s("it-0")));
    r.on_fetched(&Some(s("seq-1")), Some(s("it-1")));
    assert_eq!(r.on_shipped(false), ReaderCommand::Stop(StopReason::ShipFailed));
}

#[test]
fn unclaimed_or_unopened_runs_stop() {
    let mut r = ShardReader::new();
    assert_eq!(r.on_claimed(&ClaimOutcome::AlreadyHeld), ReaderCommand::Stop(StopReason::NotClaimed));
    let mut r = ShardReader::new();
    assert_eq!(r.on_claimed(&ClaimOutcome::Failed), ReaderCommand::Stop(StopReason::NotClaimed));
    let mut r = ShardReader::new();
    r.on_claimed(&ClaimOutcome::Fresh);
    assert_eq!(r.on_validated(false), ReaderCommand::Stop(StopReason::OwnershipLost));
    let mut r = ShardReader::new();
    assert_eq!(start_reading(&mut r, ClaimOutcome::Fresh), ReaderCommand::OpenIterator(None));
    assert_eq!(r.on_opened(None), ReaderCommand::Stop(StopReason::IteratorUnavailable));
    let mut r = ShardReader::new();
    start_reading(&mut r, ClaimOutcome::Fresh);
    r.on_opened(Some(s("it-0")));
    assert_eq!(r.on_fetched(&None, None), ReaderCommand::Stop(StopReason::Exhausted));
}

#[test]
fn back_off_is_a_power_of_two() {
    assert_eq!(get_back_off_milli(0), 1);
    assert_eq!(get_back_off_milli(1), 2);
    assert_eq!(get_back_off_milli(10), 1024);
    assert_eq!(get_back_off_milli(63), 1u64 << 63);
    assert_eq!(batch_tail(&Vec::new()), None);
}
