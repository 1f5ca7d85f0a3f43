//! The per-shard read loop as an explicit state machine. The caller performs
//! each command (a store call, a fetch, a sleep, a shipment) and reports its
//! result through the matching method, which returns the next command.
use vstd::prelude::*;
use crate::lease::ClaimOutcome;
use vstd::arithmetic::power2::{pow2, lemma2_to64, lemma2_to64_rest, lemma_pow2_unfold, lemma_pow2_strictly_increases};

verus! {

/// Records asked for by each fetch.
pub const FETCH_LIMIT: u32 = 1000;

/// Fetches between two ownership checks.
pub const READS_PER_VALIDATION: u32 = 10;

/// Consecutive fetch failures after which the shard is released.
pub const MAX_FETCH_RETRIES: u32 = 10;

/// Two to the power `number_of_retries`.
pub fn get_back_off_milli(number_of_retries: u32) -> (r: u64)
    requires
        number_of_retries < 64,
    ensures
        r as nat == pow2(number_of_retries as nat),
{
    let mut r: u64 = 1;
    let mut i: u32 = 0;
    proof { lemma2_to64(); }
    while i < number_of_retries
        invariant
            i <= number_of_retries < 64,
            r as nat == pow2(i as nat),
        decreases number_of_retries - i,
    {
        proof {
            lemma2_to64();
            lemma2_to64_rest();
            lemma_pow2_unfold(i as nat + 1);
            if i + 1 < 63 {
                lemma_pow2_strictly_increases(i as nat + 1, 63);
            }
            assert(pow2(i as nat + 1) == 2 * pow2(i as nat));
            assert(pow2(i as nat + 1) <= 0x8000_0000_0000_0000);
        }
        r = r * 2;
        i = i + 1;
    }
    r
}

/// The sequence number of a batch's last record, or absent for an empty
/// batch.
pub fn batch_tail(sequence_numbers: &Vec<String>) -> (r: Option<String>)
    ensures
        sequence_numbers@.len() == 0 ==> r is None,
        sequence_numbers@.len() > 0 ==> r == Some(sequence_numbers@.last()),
{
    let n = sequence_numbers.len();
    if n == 0 {
        None
    } else {
        Some(sequence_numbers[n - 1].clone())
    }
}

/// Why a run ended.
#[derive(PartialEq, Eq, Structural, Clone, Copy, Debug)]
pub enum StopReason {
    /// The claim returned AlreadyHeld or Failed.
    NotClaimed,
    /// A validation found another owner.
    OwnershipLost,
    /// No iterator could be opened.
    IteratorUnavailable,
    /// The sinks did not take a batch.
    ShipFailed,
    /// The shard has no continuation.
    Exhausted,
}

/// What the caller does next.
#[derive(PartialEq, Eq, Debug)]
pub enum ReaderCommand {
    /// Check that this worker still owns the shard.
    ValidateOwnership,
    /// Open an iterator at this sequence number, or at the trim horizon.
    OpenIterator(Option<String>),
    /// Fetch up to `limit` records from the iterator `shard_iterator`.
    Fetch { shard_iterator: String, limit: u32 },
    /// Sleep this many milliseconds, then call `on_ready`.
    Sleep(u64),
    /// Ship the batch just fetched.
    Ship,
    /// Checkpoint the shard at this sequence number, then call `on_advanced`.
    Advance(String),
    /// Release the shard's lease; the run is over.
    Release,
    /// The run is over.
    Stop(StopReason),
}

/// Where a run stands: which result it waits for.
pub enum Phase {
    /// The outcome of ClaimForRead.
    Claiming,
    /// The ownership check before the iterator is opened at `start`.
    CheckingOwner { start: Option<String> },
    /// Whether an iterator could be opened.
    Opening,
    /// The end of a back-off sleep.
    Idle,
    /// The periodic ownership check.
    Validating,
    /// A fetch.
    Fetching,
    /// The shipment of a batch whose last sequence number is `tail`.
    Shipping { tail: String, has_more: bool },
    /// The checkpoint write.
    Advancing { has_more: bool },
    /// Nothing: the run is over.
    Done,
}

/// The state of one shard's run.
pub struct ShardReader {
    pub phase: Phase,
    /// One more than the number of consecutive failed fetches.
    pub retries: u32,
    /// Fetches begun since the last ownership check.
    pub reads_since_validation: u32,
    /// The iterator the next fetch reads from: the one opened, then the
    /// continuation of the last successful fetch.
    pub iterator: String,
    /// The last sequence number of each non-empty batch fetched, in order.
    pub tails: Ghost<Seq<Seq<char>>>,
    /// Each checkpoint asked for, in order.
    pub checkpoints: Ghost<Seq<Seq<char>>>,
}

/// The fetch a run in state `r` makes: from its iterator, `FETCH_LIMIT`
/// records at most.
pub open spec fn fetch_of(r: ShardReader) -> ReaderCommand {
    ReaderCommand::Fetch { shard_iterator: r.iterator, limit: FETCH_LIMIT }
}

/// `a` is a prefix of `b`.
pub open spec fn is_prefix(a: Seq<Seq<char>>, b: Seq<Seq<char>>) -> bool {
    a.len() <= b.len() && forall|i: int| 0 <= i < a.len() ==> #[trigger] a[i] == b[i]
}

impl ShardReader {
    pub open spec fn wf(&self) -> bool {
        &&& 1 <= self.retries <= MAX_FETCH_RETRIES
        &&& self.reads_since_validation < READS_PER_VALIDATION
        &&& is_prefix(self.checkpoints@, self.tails@)
        &&& match self.phase {
            Phase::Shipping { tail, .. } => {
                &&& self.tails@.len() == self.checkpoints@.len() + 1
                &&& self.tails@.last() == tail@
            },
            Phase::Done => self.tails@.len() <= self.checkpoints@.len() + 1,
            _ => self.tails@.len() == self.checkpoints@.len(),
        }
    }

    /// A run before its claim: call `on_claimed` with ClaimForRead's outcome.
    pub fn new() -> (r: ShardReader)
        ensures
            r.wf(),
            r.phase is Claiming,
            r.retries == 1,
            r.reads_since_validation == 0,
            r.tails@.len() == 0,
            r.checkpoints@.len() == 0,
    {
        ShardReader {
            phase: Phase::Claiming,
            retries: 1,
            reads_since_validation: 0,
            iterator: String::new(),
            tails: Ghost(Seq::empty()),
            checkpoints: Ghost(Seq::empty()),
        }
    }

    pub fn is_done(&self) -> (r: bool)
        ensures
            r == self.phase is Done,
    {
        matches!(self.phase, Phase::Done)
    }

    /// Whether the fetch that begins now is preceded by an ownership check.
    pub open spec fn validation_due(&self) -> bool {
        self.reads_since_validation + 1 == READS_PER_VALIDATION
    }

    /// Begins one turn of the loop: counts the read, and checks ownership
    /// every `READS_PER_VALIDATION` reads before fetching.
    fn begin_read(&mut self) -> (c: ReaderCommand)
        requires
            old(self).wf(),
            !(old(self).phase is Shipping),
            old(self).tails@.len() == old(self).checkpoints@.len(),
        ensures
            final(self).wf(),
            final(self).iterator == old(self).iterator,
            final(self).retries == old(self).retries,
            final(self).tails == old(self).tails,
            final(self).checkpoints == old(self).checkpoints,
            old(self).validation_due() ==> {
                &&& final(self).reads_since_validation == 0
                &&& final(self).phase is Validating
                &&& c == ReaderCommand::ValidateOwnership
            },
            !old(self).validation_due() ==> {
                &&& final(self).reads_since_validation == old(self).reads_since_validation + 1
                &&& final(self).phase is Fetching
                &&& c == fetch_of(*final(self))
            },
    {
        if self.reads_since_validation + 1 == READS_PER_VALIDATION {
            self.reads_since_validation = 0;
            self.phase = Phase::Validating;
            ReaderCommand::ValidateOwnership
        } else {
            self.reads_since_validation = self.reads_since_validation + 1;
            self.phase = Phase::Fetching;
            ReaderCommand::Fetch { shard_iterator: self.iterator.clone(), limit: FETCH_LIMIT }
        }
    }

    /// The outcome of ClaimForRead: a claimed shard is checked once more
    /// before its iterator is opened (at the checkpoint, if there is one).
    pub fn on_claimed(&mut self, outcome: &ClaimOutcome) -> (c: ReaderCommand)
        requires
            old(self).wf(),
            old(self).phase is Claiming,
        ensures
            final(self).wf(),
            final(self).iterator == old(self).iterator,
            final(self).retries == old(self).retries,
            final(self).reads_since_validation == old(self).reads_since_validation,
            final(self).tails == old(self).tails,
            final(self).checkpoints == old(self).checkpoints,
            match outcome {
                ClaimOutcome::Fresh => final(self).phase == (Phase::CheckingOwner { start: None })
                    && c == ReaderCommand::ValidateOwnership,
                ClaimOutcome::Resumed(s) => final(self).phase == (Phase::CheckingOwner { start: Some(*s) })
                    && c == ReaderCommand::ValidateOwnership,
                _ => final(self).phase is Done && c == ReaderCommand::Stop(StopReason::NotClaimed),
            },
    {
        match outcome {
            ClaimOutcome::Fresh => {
                self.phase = Phase::CheckingOwner { start: None };
                ReaderCommand::ValidateOwnership
            },
            ClaimOutcome::Resumed(s) => {
                self.phase = Phase::CheckingOwner { start: Some(s.clone()) };
                ReaderCommand::ValidateOwnership
            },
            _ => {
                self.phase = Phase::Done;
                ReaderCommand::Stop(StopReason::NotClaimed)
            },
        }
    }

    /// The result of ValidateOwnership. Losing ownership ends the run
    /// without a release: the rightful owner is elsewhere.
    pub fn on_validated(&mut self, owned: bool) -> (c: ReaderCommand)
        requires
            old(self).wf(),
            old(self).phase is CheckingOwner || old(self).phase is Validating,
        ensures
            final(self).wf(),
            final(self).iterator == old(self).iterator,
            final(self).retries == old(self).retries,
            final(self).reads_since_validation == old(self).reads_since_validation,
            final(self).tails == old(self).tails,
            final(self).checkpoints == old(self).checkpoints,
            !owned ==> final(self).phase is Done && c == ReaderCommand::Stop(StopReason::OwnershipLost),
            owned ==> match old(self).phase {
                Phase::CheckingOwner { start } => final(self).phase is Opening && c == ReaderCommand::OpenIterator(start),
                _ => final(self).phase is Fetching && c == fetch_of(*final(self)),
            },
    {
        if !owned {
            self.phase = Phase::Done;
            return ReaderCommand::Stop(StopReason::OwnershipLost);
        }
        match &self.phase {
            Phase::CheckingOwner { start } => {
                let c = ReaderCommand::OpenIterator(start.clone());
                self.phase = Phase::Opening;
                c
            },
            _ => {
                self.phase = Phase::Fetching;
                ReaderCommand::Fetch { shard_iterator: self.iterator.clone(), limit: FETCH_LIMIT }
            },
        }
    }

    /// The iterator opened, if one could be: if so, the fetch loop begins
    /// from it.
    pub fn on_opened(&mut self, opened: Option<String>) -> (c: ReaderCommand)
        requires
            old(self).wf(),
            old(self).phase is Opening,
        ensures
            final(self).wf(),
            final(self).retries == old(self).retries,
            final(self).tails == old(self).tails,
            final(self).checkpoints == old(self).checkpoints,
            opened is None ==> final(self).phase is Done && c == ReaderCommand::Stop(StopReason::IteratorUnavailable)
                && final(self).reads_since_validation == old(self).reads_since_validation,
            opened matches Some(it) ==> final(self).iterator == it,
            opened is Some && old(self).validation_due() ==> final(self).phase is Validating
                && c == ReaderCommand::ValidateOwnership && final(self).reads_since_validation == 0,
            opened is Some && !old(self).validation_due() ==> final(self).phase is Fetching && c == fetch_of(*final(self))
                && final(self).reads_since_validation == old(self).reads_since_validation + 1,
    {
        match opened {
            Some(it) => {
                self.iterator = it;
                self.begin_read()
            },
            None => {
                self.phase = Phase::Done;
                ReaderCommand::Stop(StopReason::IteratorUnavailable)
            },
        }
    }

    /// A sleep is over: the next turn of the loop begins.
    pub fn on_ready(&mut self) -> (c: ReaderCommand)
        requires
            old(self).wf(),
            old(self).phase is Idle,
        ensures
            final(self).wf(),
            final(self).iterator == old(self).iterator,
            final(self).retries == old(self).retries,
            final(self).tails == old(self).tails,
            final(self).checkpoints == old(self).checkpoints,
            old(self).validation_due() ==> final(self).phase is Validating
                && c == ReaderCommand::ValidateOwnership && final(self).reads_since_validation == 0,
            !old(self).validation_due() ==> final(self).phase is Fetching && c == fetch_of(*final(self))
                && final(self).reads_since_validation == old(self).reads_since_validation + 1,
    {
        self.begin_read()
    }

    /// A fetch failed: back off exponentially, or after `MAX_FETCH_RETRIES`
    /// failures in a row release the shard.
    pub fn on_fetch_failed(&mut self) -> (c: ReaderCommand)
        requires
            old(self).wf(),
            old(self).phase is Fetching,
        ensures
            final(self).wf(),
            final(self).iterator == old(self).iterator,
            final(self).reads_since_validation == old(self).reads_since_validation,
            final(self).tails == old(self).tails,
            final(self).checkpoints == old(self).checkpoints,
            old(self).retries == MAX_FETCH_RETRIES ==> final(self).phase is Done && c == ReaderCommand::Release,
            old(self).retries < MAX_FETCH_RETRIES ==> {
                &&& final(self).retries == old(self).retries + 1
                &&& final(self).phase is Idle
                &&& c == ReaderCommand::Sleep((pow2(old(self).retries as nat) * 100) as u64)
            },
    {
        if self.retries == MAX_FETCH_RETRIES {
            self.phase = Phase::Done;
            return ReaderCommand::Release;
        }
        self.retries = self.retries + 1;
        self.phase = Phase::Idle;
        let b = get_back_off_milli(self.retries - 1);
        proof {
            lemma2_to64();
            if self.retries - 1 < 9 {
                lemma_pow2_strictly_increases((self.retries - 1) as nat, 9);
            }
        }
        ReaderCommand::Sleep(b * 100)
    }

    /// A fetch succeeded, with the last sequence number of its batch (absent
    /// for an empty batch) and the continuation that came with it (absent
    /// once the shard is exhausted). The next fetch reads from that
    /// continuation.
    pub fn on_fetched(&mut self, last_sequence_number: &Option<String>, next_iterator: Option<String>) -> (c: ReaderCommand)
        requires
            old(self).wf(),
            old(self).phase is Fetching,
        ensures
            final(self).wf(),
            next_iterator matches Some(it) ==> final(self).iterator == it,
            next_iterator is None ==> final(self).iterator == old(self).iterator,
            final(self).retries == 1,
            final(self).checkpoints == old(self).checkpoints,
            match last_sequence_number {
                Some(t) => {
                    &&& final(self).tails@ == old(self).tails@.push(t@)
                    &&& final(self).phase == (Phase::Shipping { tail: *t, has_more: next_iterator is Some })
                    &&& final(self).reads_since_validation == old(self).reads_since_validation
                    &&& c == ReaderCommand::Ship
                },
                None => {
                    &&& final(self).tails == old(self).tails
                    &&& next_iterator is None ==> final(self).phase is Done && c == ReaderCommand::Stop(StopReason::Exhausted)
                        && final(self).reads_since_validation == old(self).reads_since_validation
                    &&& next_iterator is Some && old(self).validation_due() ==> final(self).phase is Validating
                        && c == ReaderCommand::ValidateOwnership && final(self).reads_since_validation == 0
                    &&& next_iterator is Some && !old(self).validation_due() ==> final(self).phase is Fetching
                        && c == fetch_of(*final(self))
                        && final(self).reads_since_validation == old(self).reads_since_validation + 1
                },
            },
    {
        self.retries = 1;
        let has_more = next_iterator.is_some();
        match next_iterator {
            Some(it) => {
                self.iterator = it;
            },
            None => {},
        }
        match last_sequence_number {
            Some(t) => {
                self.tails = Ghost(self.tails@.push(t@));
                self.phase = Phase::Shipping { tail: t.clone(), has_more };
                ReaderCommand::Ship
            },
            None => if has_more {
                self.begin_read()
            } else {
                self.phase = Phase::Done;
                ReaderCommand::Stop(StopReason::Exhausted)
            },
        }
    }

    /// Whether the sinks took the batch: if so, checkpoint at its last
    /// sequence number; if not, end the run without a release.
    pub fn on_shipped(&mut self, shipped: bool) -> (c: ReaderCommand)
        requires
            old(self).wf(),
            old(self).phase is Shipping,
        ensures
            final(self).wf(),
            final(self).iterator == old(self).iterator,
            final(self).retries == old(self).retries,
            final(self).reads_since_validation == old(self).reads_since_validation,
            final(self).tails == old(self).tails,
            !shipped ==> final(self).phase is Done && c == ReaderCommand::Stop(StopReason::ShipFailed)
                && final(self).checkpoints == old(self).checkpoints,
            shipped ==> match old(self).phase {
                Phase::Shipping { tail, has_more } => {
                    &&& final(self).checkpoints@ == old(self).checkpoints@.push(tail@)
                    &&& final(self).phase == (Phase::Advancing { has_more })
                    &&& c == ReaderCommand::Advance(tail)
                },
                _ => false,
            },
    {
        if !shipped {
            self.phase = Phase::Done;
            return ReaderCommand::Stop(StopReason::ShipFailed);
        }
        let (t, more) = match &self.phase {
            Phase::Shipping { tail, has_more } => (tail.clone(), *has_more),
            _ => (String::new(), false),
        };
        let ghost old_cp = self.checkpoints@;
        self.checkpoints = Ghost(self.checkpoints@.push(t@));
        assert forall|i: int| 0 <= i < self.checkpoints@.len() implies #[trigger] self.checkpoints@[i] == self.tails@[i] by {
            if i < old_cp.len() {
                assert(old_cp[i] == self.tails@[i]);
            }
        }
        self.phase = Phase::Advancing { has_more: more };
        ReaderCommand::Advance(t)
    }

    /// The checkpoint was written: go on while the shard has a continuation.
    pub fn on_advanced(&mut self) -> (c: ReaderCommand)
        requires
            old(self).wf(),
            old(self).phase is Advancing,
        ensures
            final(self).wf(),
            final(self).iterator == old(self).iterator,
            final(self).retries == old(self).retries,
            final(self).tails == old(self).tails,
            final(self).checkpoints == old(self).checkpoints,
            match old(self).phase {
                Phase::Advancing { has_more } => {
                    &&& !has_more ==> final(self).phase is Done && c == ReaderCommand::Stop(StopReason::Exhausted)
                        && final(self).reads_since_validation == old(self).reads_since_validation
                    &&& has_more && old(self).validation_due() ==> final(self).phase is Validating
                        && c == ReaderCommand::ValidateOwnership && final(self).reads_since_validation == 0
                    &&& has_more && !old(self).validation_due() ==> final(self).phase is Fetching
                        && c == fetch_of(*final(self))
                        && final(self).reads_since_validation == old(self).reads_since_validation + 1
                },
                _ => false,
            },
    {
        let more = match &self.phase {
            Phase::Advancing { has_more } => *has_more,
            _ => false,
        };
        if more {
            self.begin_read()
        } else {
            self.phase = Phase::Done;
            ReaderCommand::Stop(StopReason::Exhausted)
        }
    }
}

/// Checkpoints follow the batches: in every reachable state of a run, the
/// checkpoints asked for are the tails of the non-empty batches fetched, in
/// the order fetched, with at most the latest tail not yet checkpointed.
pub proof fn lemma_checkpoints_follow_tails(r: ShardReader)
    requires
        r.wf(),
    ensures
        is_prefix(r.checkpoints@, r.tails@),
        r.tails@.len() <= r.checkpoints@.len() + 1,
{
}

/// `s` is non-decreasing under `le`.
pub open spec fn sorted_by(s: Seq<Seq<char>>, le: spec_fn(Seq<char>, Seq<char>) -> bool) -> bool {
    forall|i: int, j: int| 0 <= i <= j < s.len() ==> le(#[trigger] s[i], #[trigger] s[j])
}

/// Whatever order the stream keeps its sequence numbers in, the checkpoints
/// of a run keep it too: when the batch tails come in non-decreasing order,
/// so do the checkpoints.
pub proof fn lemma_checkpoints_non_decreasing(r: ShardReader, le: spec_fn(Seq<char>, Seq<char>) -> bool)
    requires
        r.wf(),
        sorted_by(r.tails@, le),
    ensures
        sorted_by(r.checkpoints@, le),
{
    assert forall|i: int, j: int| 0 <= i <= j < r.checkpoints@.len() implies le(
        #[trigger] r.checkpoints@[i],
        #[trigger] r.checkpoints@[j],
    ) by {
        assert(r.checkpoints@[i] == r.tails@[i]);
        assert(r.checkpoints@[j] == r.tails@[j]);
    }
}

} // verus!
