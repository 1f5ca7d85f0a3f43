//! Shard leases: the record kept per shard in the coordination store, the
//! store's write primitives, and the claim protocol built on them.
use vstd::prelude::*;

verus! {

/// One lease record, keyed by `shard_id`.
#[derive(Debug, PartialEq, Eq)]
pub struct Lease {
    pub shard_id: String,
    pub owner_id: Option<String>,
    pub sequence_number: Option<String>,
    pub number_of_owners_switched: u64,
}

/// What a lease holds besides its key.
pub struct LeaseState {
    pub owner_id: Option<Seq<char>>,
    pub sequence_number: Option<Seq<char>>,
    pub number_of_owners_switched: nat,
}

pub open spec fn text_of(o: Option<String>) -> Option<Seq<char>> {
    match o {
        Some(s) => Some(s@),
        None => None,
    }
}

impl View for Lease {
    type V = LeaseState;

    open spec fn view(&self) -> LeaseState {
        LeaseState {
            owner_id: text_of(self.owner_id),
            sequence_number: text_of(self.sequence_number),
            number_of_owners_switched: self.number_of_owners_switched as nat,
        }
    }
}

/// The text of each string.
pub open spec fn texts(v: Seq<String>) -> Seq<Seq<char>> {
    v.map_values(|s: String| s@)
}

/// The lease as a read returns it: absent, or its state.
pub open spec fn lease_of(r: Option<Lease>) -> Option<LeaseState> {
    match r {
        Some(l) => Some(l@),
        None => None,
    }
}

/// The state a lease is given when a write reaches a key that has no record.
pub open spec fn blank_state() -> LeaseState {
    LeaseState { owner_id: None, sequence_number: None, number_of_owners_switched: 0 }
}

/// The store's write primitives, as a model.
pub enum StoreOp {
    Insert { shard: Seq<char>, owner: Seq<char> },
    ClaimIfUnowned { shard: Seq<char>, owner: Seq<char> },
    Checkpoint { shard: Seq<char>, sequence_number: Seq<char> },
    ReleaseOwner { shard: Seq<char> },
}

pub open spec fn state_or_blank(m: Map<Seq<char>, LeaseState>, shard: Seq<char>) -> LeaseState {
    if m.contains_key(shard) {
        m[shard]
    } else {
        blank_state()
    }
}

/// Whether a conditional claim of `shard` takes effect on `m`: the record
/// exists, has no owner, and its counter can still be raised.
pub open spec fn claimable(m: Map<Seq<char>, LeaseState>, shard: Seq<char>) -> bool {
    &&& m.contains_key(shard)
    &&& m[shard].owner_id is None
    &&& m[shard].number_of_owners_switched < u64::MAX
}

/// `a` comes before `b` character by character (by code point), a proper
/// prefix before its extensions.
pub open spec fn lex_before(a: Seq<char>, b: Seq<char>) -> bool
    decreases a.len(),
{
    if a.len() == 0 {
        b.len() > 0
    } else if b.len() == 0 {
        false
    } else if a[0] != b[0] {
        (a[0] as u32) < (b[0] as u32)
    } else {
        lex_before(a.drop_first(), b.drop_first())
    }
}

/// The order of sequence numbers within a shard: a shorter one comes first
/// (so decimal numerals compare by value), and among equal lengths the
/// character order decides.
pub open spec fn sequence_precedes(a: Seq<char>, b: Seq<char>) -> bool {
    a.len() < b.len() || (a.len() == b.len() && lex_before(a, b))
}

/// Whether a checkpoint at `s` is allowed over `current`: it may not come
/// before the stored sequence number.
pub open spec fn checkpoint_allowed(current: LeaseState, s: Seq<char>) -> bool {
    match current.sequence_number {
        Some(t) => !sequence_precedes(s, t),
        None => true,
    }
}

/// The store after `op`, and whether the write took effect.
///
/// `Insert` creates a fresh lease (counter 1) only where the shard has no
/// record. `ClaimIfUnowned` is a compare-and-set on an absent owner and
/// raises the counter by one. `Checkpoint` sets the sequence number unless
/// the stored one comes after it. `ReleaseOwner` clears the owner with no
/// condition. Like an update in a key-value store, `Checkpoint` and
/// `ReleaseOwner` create the record when it is missing.
pub open spec fn apply_op(m: Map<Seq<char>, LeaseState>, op: StoreOp) -> (Map<Seq<char>, LeaseState>, bool) {
    match op {
        StoreOp::Insert { shard, owner } => {
            if m.contains_key(shard) {
                (m, false)
            } else {
                (
                    m.insert(shard, LeaseState { owner_id: Some(owner), sequence_number: None, number_of_owners_switched: 1 }),
                    true,
                )
            }
        },
        StoreOp::ClaimIfUnowned { shard, owner } => {
            if claimable(m, shard) {
                (
                    m.insert(shard, LeaseState {
                        owner_id: Some(owner),
                        sequence_number: m[shard].sequence_number,
                        number_of_owners_switched: m[shard].number_of_owners_switched + 1,
                    }),
                    true,
                )
            } else {
                (m, false)
            }
        },
        StoreOp::Checkpoint { shard, sequence_number } => {
            let cur = state_or_blank(m, shard);
            if checkpoint_allowed(cur, sequence_number) {
                (
                    m.insert(shard, LeaseState {
                        owner_id: cur.owner_id,
                        sequence_number: Some(sequence_number),
                        number_of_owners_switched: cur.number_of_owners_switched,
                    }),
                    true,
                )
            } else {
                (m, false)
            }
        },
        StoreOp::ReleaseOwner { shard } => {
            let cur = state_or_blank(m, shard);
            (
                m.insert(shard, LeaseState {
                    owner_id: None,
                    sequence_number: cur.sequence_number,
                    number_of_owners_switched: cur.number_of_owners_switched,
                }),
                true,
            )
        },
    }
}

/// The lease that a read of `shard` returns from `m`.
pub open spec fn lease_at(m: Map<Seq<char>, LeaseState>, shard: Seq<char>) -> Option<LeaseState> {
    if m.contains_key(shard) {
        Some(m[shard])
    } else {
        None
    }
}

/// The store after running `ops` in order from `m`.
pub open spec fn run_ops(m: Map<Seq<char>, LeaseState>, ops: Seq<StoreOp>) -> Map<Seq<char>, LeaseState>
    decreases ops.len(),
{
    if ops.len() == 0 {
        m
    } else {
        run_ops(apply_op(m, ops[0]).0, ops.drop_first())
    }
}

/// Ownership switches are never undone: over any run of writes, no shard's
/// record is dropped and no shard's counter goes down.
pub proof fn lemma_counters_never_decrease(m: Map<Seq<char>, LeaseState>, ops: Seq<StoreOp>)
    ensures
        forall|k: Seq<char>| #[trigger] m.contains_key(k) ==> {
            &&& run_ops(m, ops).contains_key(k)
            &&& run_ops(m, ops)[k].number_of_owners_switched >= m[k].number_of_owners_switched
        },
    decreases ops.len(),
{
    if ops.len() > 0 {
        let m1 = apply_op(m, ops[0]).0;
        lemma_counters_never_decrease(m1, ops.drop_first());
        assert forall|k: Seq<char>| #[trigger] m.contains_key(k) implies {
            &&& m1.contains_key(k)
            &&& m1[k].number_of_owners_switched >= m[k].number_of_owners_switched
        } by {}
    }
}

/// A successful `ClaimIfUnowned` raises the counter by exactly one.
pub proof fn lemma_claim_raises_counter_by_one(m: Map<Seq<char>, LeaseState>, shard: Seq<char>, owner: Seq<char>)
    requires
        apply_op(m, StoreOp::ClaimIfUnowned { shard, owner }).1,
    ensures
        m.contains_key(shard),
        apply_op(m, StoreOp::ClaimIfUnowned { shard, owner }).0[shard].number_of_owners_switched
            == m[shard].number_of_owners_switched + 1,
{
}

/// A checkpoint is read back: `Checkpoint(shard, s)` succeeds exactly when
/// the stored sequence number does not come after `s`, and then a read of
/// `shard` gives `s`.
pub proof fn lemma_read_after_checkpoint(m: Map<Seq<char>, LeaseState>, shard: Seq<char>, s: Seq<char>)
    ensures
        apply_op(m, StoreOp::Checkpoint { shard, sequence_number: s }).1 == checkpoint_allowed(
            state_or_blank(m, shard),
            s,
        ),
        apply_op(m, StoreOp::Checkpoint { shard, sequence_number: s }).1 ==> (lease_at(
            apply_op(m, StoreOp::Checkpoint { shard, sequence_number: s }).0,
            shard,
        ) matches Some(l) && l.sequence_number == Some(s)),
{
}

/// A checkpoint never moves backward: no write leaves a shard with a
/// sequence number that comes before the one it had.
pub proof fn lemma_checkpoint_never_backward(m: Map<Seq<char>, LeaseState>, op: StoreOp, k: Seq<char>)
    requires
        m.contains_key(k),
        m[k].sequence_number is Some,
    ensures
        apply_op(m, op).0.contains_key(k),
        apply_op(m, op).0[k].sequence_number matches Some(t) && !sequence_precedes(t, m[k].sequence_number->0),
{
    assert(!lex_before(m[k].sequence_number->0, m[k].sequence_number->0)) by {
        lemma_lex_before_irreflexive(m[k].sequence_number->0);
    }
}

proof fn lemma_lex_before_irreflexive(a: Seq<char>)
    ensures
        !lex_before(a, a),
    decreases a.len(),
{
    if a.len() > 0 {
        lemma_lex_before_irreflexive(a.drop_first());
    }
}

pub open spec fn claims_on(shard: Seq<char>, ops: Seq<StoreOp>) -> bool {
    forall|i: int| 0 <= i < ops.len() ==> match #[trigger] ops[i] {
        StoreOp::Insert { shard: k, .. } => k == shard,
        StoreOp::ClaimIfUnowned { shard: k, .. } => k == shard,
        _ => false,
    }
}

/// How many writes of `ops`, run in order from `m`, took effect.
pub open spec fn successes(m: Map<Seq<char>, LeaseState>, ops: Seq<StoreOp>) -> nat
    decreases ops.len(),
{
    if ops.len() == 0 {
        0
    } else {
        (if apply_op(m, ops[0]).1 {
            1nat
        } else {
            0nat
        }) + successes(apply_op(m, ops[0]).0, ops.drop_first())
    }
}

proof fn lemma_owned_claims_fail(m: Map<Seq<char>, LeaseState>, shard: Seq<char>, ops: Seq<StoreOp>)
    requires
        claims_on(shard, ops),
        m.contains_key(shard),
        m[shard].owner_id is Some,
    ensures
        successes(m, ops) == 0,
    decreases ops.len(),
{
    if ops.len() > 0 {
        assert(claims_on(shard, ops.drop_first())) by {
            assert forall|i: int| 0 <= i < ops.drop_first().len() implies match #[trigger] ops.drop_first()[i] {
                StoreOp::Insert { shard: k, .. } => k == shard,
                StoreOp::ClaimIfUnowned { shard: k, .. } => k == shard,
                _ => false,
            } by {
                assert(ops.drop_first()[i] == ops[i + 1]);
            }
        }
        let _ = ops[0];
        assert(!apply_op(m, ops[0]).1 && apply_op(m, ops[0]).0 == m);
        lemma_owned_claims_fail(m, shard, ops.drop_first());
    }
}

/// Any number of racing claimers: however the claim writes of any workers
/// on one shard (inserts and compare-and-sets) reach the store in order,
/// with no release between them, at most one of them takes effect.
pub proof fn lemma_claims_single_winner(m: Map<Seq<char>, LeaseState>, shard: Seq<char>, ops: Seq<StoreOp>)
    requires
        claims_on(shard, ops),
    ensures
        successes(m, ops) <= 1,
    decreases ops.len(),
{
    if ops.len() > 0 {
        let (m1, ok) = apply_op(m, ops[0]);
        assert(claims_on(shard, ops.drop_first())) by {
            assert forall|i: int| 0 <= i < ops.drop_first().len() implies match #[trigger] ops.drop_first()[i] {
                StoreOp::Insert { shard: k, .. } => k == shard,
                StoreOp::ClaimIfUnowned { shard: k, .. } => k == shard,
                _ => false,
            } by {
                assert(ops.drop_first()[i] == ops[i + 1]);
            }
        }
        let _ = ops[0];
        if ok {
            lemma_owned_claims_fail(m1, shard, ops.drop_first());
        } else {
            assert(m1 == m);
            lemma_claims_single_winner(m, shard, ops.drop_first());
        }
    }
}

/// What ClaimForRead does after its read.
#[derive(PartialEq, Eq, Structural, Clone, Copy, Debug)]
pub enum ClaimStep {
    /// No lease: write a fresh one.
    Insert,
    /// A lease with no owner: take it by compare-and-set.
    ClaimIfUnowned,
    /// Someone owns it: leave the shard alone.
    AlreadyHeld,
}

/// The outcome of ClaimForRead.
#[derive(Debug, PartialEq, Eq)]
pub enum ClaimOutcome {
    /// Owned now, with no checkpoint to resume from.
    Fresh,
    /// Owned now, resuming at the checkpoint.
    Resumed(String),
    /// Another worker owns the shard.
    AlreadyHeld,
    /// The write that would have taken the shard did not succeed.
    Failed,
}

pub enum ClaimResult {
    Fresh,
    Resumed(Seq<char>),
    AlreadyHeld,
    Failed,
}

impl View for ClaimOutcome {
    type V = ClaimResult;

    open spec fn view(&self) -> ClaimResult {
        match self {
            ClaimOutcome::Fresh => ClaimResult::Fresh,
            ClaimOutcome::Resumed(s) => ClaimResult::Resumed(s@),
            ClaimOutcome::AlreadyHeld => ClaimResult::AlreadyHeld,
            ClaimOutcome::Failed => ClaimResult::Failed,
        }
    }
}

pub open spec fn claim_step_of(current: Option<LeaseState>) -> ClaimStep {
    match current {
        None => ClaimStep::Insert,
        Some(l) => if l.owner_id is None {
            ClaimStep::ClaimIfUnowned
        } else {
            ClaimStep::AlreadyHeld
        },
    }
}

/// The outcome, given the lease that was read and whether the write made
/// for it succeeded.
pub open spec fn claim_result_of(current: Option<LeaseState>, write_ok: bool) -> ClaimResult {
    match claim_step_of(current) {
        ClaimStep::AlreadyHeld => ClaimResult::AlreadyHeld,
        _ => if !write_ok {
            ClaimResult::Failed
        } else {
            match current {
                Some(l) => match l.sequence_number {
                    Some(s) => ClaimResult::Resumed(s),
                    None => ClaimResult::Fresh,
                },
                None => ClaimResult::Fresh,
            }
        },
    }
}

/// The write that ClaimForRead makes for a lease it read, if any.
pub open spec fn claim_op(current: Option<LeaseState>, shard: Seq<char>, worker: Seq<char>) -> Option<StoreOp> {
    match claim_step_of(current) {
        ClaimStep::Insert => Some(StoreOp::Insert { shard, owner: worker }),
        ClaimStep::ClaimIfUnowned => Some(StoreOp::ClaimIfUnowned { shard, owner: worker }),
        ClaimStep::AlreadyHeld => None,
    }
}

/// ClaimForRead run alone against `m`: the store after it, and its outcome.
pub open spec fn claim_transition(m: Map<Seq<char>, LeaseState>, shard: Seq<char>, worker: Seq<char>) -> (
    Map<Seq<char>, LeaseState>,
    ClaimResult,
) {
    let cur = lease_at(m, shard);
    match claim_op(cur, shard, worker) {
        Some(op) => {
            let (m2, ok) = apply_op(m, op);
            (m2, claim_result_of(cur, ok))
        },
        None => (m, ClaimResult::AlreadyHeld),
    }
}

pub open spec fn took_ownership(r: ClaimResult) -> bool {
    r is Fresh || r is Resumed
}

/// Ownership excludes: once a claim has taken a shard, every later claim of
/// it, by any worker, returns AlreadyHeld and writes nothing.
pub proof fn lemma_claim_excludes_later_claims(
    m: Map<Seq<char>, LeaseState>,
    shard: Seq<char>,
    first: Seq<char>,
    second: Seq<char>,
)
    requires
        took_ownership(claim_transition(m, shard, first).1),
    ensures
        claim_transition(claim_transition(m, shard, first).0, shard, second) == (
            claim_transition(m, shard, first).0,
            ClaimResult::AlreadyHeld,
        ),
{
}

/// Racing claimers of one unowned lease: when two workers have read the same
/// unowned lease and both write their compare-and-set, in either order, at
/// most one write succeeds, and only that worker's outcome takes ownership.
pub proof fn lemma_racing_claims_single_winner(
    m: Map<Seq<char>, LeaseState>,
    shard: Seq<char>,
    first: Seq<char>,
    second: Seq<char>,
)
    requires
        claim_step_of(lease_at(m, shard)) == ClaimStep::ClaimIfUnowned,
    ensures
        ({
            let (m1, ok1) = apply_op(m, StoreOp::ClaimIfUnowned { shard, owner: first });
            let (m2, ok2) = apply_op(m1, StoreOp::ClaimIfUnowned { shard, owner: second });
            &&& !(ok1 && ok2)
            &&& ok1 == claimable(m, shard)
            &&& took_ownership(claim_result_of(lease_at(m, shard), ok1)) == ok1
            &&& took_ownership(claim_result_of(lease_at(m, shard), ok2)) == ok2
        }),
{
}

/// Which step ClaimForRead takes after reading `current`.
pub fn claim_step(current: &Option<Lease>) -> (s: ClaimStep)
    ensures
        s == claim_step_of(lease_of(*current)),
{
    match current {
        None => ClaimStep::Insert,
        Some(l) => if l.owner_id.is_none() {
            ClaimStep::ClaimIfUnowned
        } else {
            ClaimStep::AlreadyHeld
        },
    }
}

/// The outcome of ClaimForRead, from the lease it read and whether its write
/// succeeded (ignored where no write is made).
pub fn claim_outcome(current: &Option<Lease>, write_ok: bool) -> (o: ClaimOutcome)
    ensures
        o@ == claim_result_of(lease_of(*current), write_ok),
{
    match claim_step(current) {
        ClaimStep::AlreadyHeld => ClaimOutcome::AlreadyHeld,
        _ => if !write_ok {
            ClaimOutcome::Failed
        } else {
            match current {
                Some(l) => match &l.sequence_number {
                    Some(s) => ClaimOutcome::Resumed(s.clone()),
                    None => ClaimOutcome::Fresh,
                },
                None => ClaimOutcome::Fresh,
            }
        },
    }
}

pub open spec fn owned_by(current: Option<LeaseState>, worker: Seq<char>) -> bool {
    current matches Some(l) && l.owner_id == Some(worker)
}

/// ValidateOwnership on a lease read: whether `worker_id` is its owner.
pub fn owns(current: &Option<Lease>, worker_id: &String) -> (r: bool)
    ensures
        r == owned_by(lease_of(*current), worker_id@),
{
    match current {
        Some(l) => match &l.owner_id {
            Some(o) => o.eq(worker_id),
            None => false,
        },
        None => false,
    }
}

/// Whether sequence number `a` comes before `b`.
pub fn sequence_precedes_exec(a: &String, b: &String) -> (r: bool)
    ensures
        r == sequence_precedes(a@, b@),
{
    let la = a.as_str().unicode_len();
    let lb = b.as_str().unicode_len();
    if la != lb {
        return la < lb;
    }
    let mut i: usize = 0;
    assert(a@.skip(0) =~= a@);
    assert(b@.skip(0) =~= b@);
    while i < la
        invariant
            la == a@.len(),
            lb == b@.len(),
            la == lb,
            i <= la,
            lex_before(a@, b@) == lex_before(a@.skip(i as int), b@.skip(i as int)),
        decreases la - i,
    {
        let x = a.as_str().get_char(i);
        let y = b.as_str().get_char(i);
        let ghost sa = a@.skip(i as int);
        let ghost sb = b@.skip(i as int);
        assert(sa[0] == x && sb[0] == y);
        if x != y {
            return (x as u32) < (y as u32);
        }
        assert(sa.drop_first() =~= a@.skip(i + 1));
        assert(sb.drop_first() =~= b@.skip(i + 1));
        i = i + 1;
    }
    assert(a@.skip(la as int).len() == 0);
    false
}

/// An in-memory coordination store: one lease per shard id.
pub struct LeaseTable {
    leases: Vec<Lease>,
    model: Ghost<Map<Seq<char>, LeaseState>>,
}

impl View for LeaseTable {
    type V = Map<Seq<char>, LeaseState>;

    closed spec fn view(&self) -> Map<Seq<char>, LeaseState> {
        self.model@
    }
}

impl LeaseTable {
    /// Records and model agree, and no two records share a shard id.
    pub closed spec fn wf(&self) -> bool {
        &&& forall|i: int|
            0 <= i < self.leases@.len() ==> {
                &&& #[trigger] self.model@.contains_key(self.leases@[i].shard_id@)
                &&& self.model@[self.leases@[i].shard_id@] == self.leases@[i]@
            }
        &&& forall|k: Seq<char>|
            #[trigger] self.model@.contains_key(k) ==> exists|i: int|
                0 <= i < self.leases@.len() && #[trigger] self.leases@[i].shard_id@ == k
        &&& forall|i: int, j: int|
            0 <= i < self.leases@.len() && 0 <= j < self.leases@.len() && i != j
                ==> #[trigger] self.leases@[i].shard_id@ != #[trigger] self.leases@[j].shard_id@
    }

    pub fn new() -> (t: LeaseTable)
        ensures
            t.wf(),
            t@ == Map::<Seq<char>, LeaseState>::empty(),
    {
        LeaseTable { leases: Vec::new(), model: Ghost(Map::empty()) }
    }

    fn find(&self, shard_id: &String) -> (r: Option<usize>)
        requires
            self.wf(),
        ensures
            match r {
                Some(i) => i < self.leases@.len() && self.leases@[i as int].shard_id@ == shard_id@,
                None => !self@.contains_key(shard_id@),
            },
    {
        let mut i: usize = 0;
        while i < self.leases.len()
            invariant
                self.wf(),
                i <= self.leases@.len(),
                forall|j: int| 0 <= j < i ==> self.leases@[j].shard_id@ != shard_id@,
            decreases self.leases@.len() - i,
        {
            if self.leases[i].shard_id.eq(shard_id) {
                return Some(i);
            }
            i = i + 1;
        }
        None
    }

    /// Stores `lease` under its shard id; `at` is where that shard's record
    /// stands, if it has one.
    fn put(&mut self, at: Option<usize>, lease: Lease)
        requires
            old(self).wf(),
            match at {
                Some(i) => i < old(self).leases@.len() && old(self).leases@[i as int].shard_id@ == lease.shard_id@,
                None => !old(self)@.contains_key(lease.shard_id@),
            },
        ensures
            final(self).wf(),
            final(self)@ == old(self)@.insert(lease.shard_id@, lease@),
    {
        let ghost key = lease.shard_id@;
        let ghost st = lease@;
        match at {
            Some(i) => {
                self.leases[i] = lease;
            },
            None => {
                self.leases.push(lease);
            },
        }
        self.model = Ghost(self.model@.insert(key, st));
        assert forall|k: Seq<char>| #[trigger] self.model@.contains_key(k) implies exists|i: int|
            0 <= i < self.leases@.len() && #[trigger] self.leases@[i].shard_id@ == k by {
            if k == key {
                match at {
                    Some(i) => assert(self.leases@[i as int].shard_id@ == k),
                    None => assert(self.leases@[self.leases@.len() - 1].shard_id@ == k),
                }
            } else {
                let j = choose|j: int| 0 <= j < old(self).leases@.len() && #[trigger] old(self).leases@[j].shard_id@ == k;
                assert(self.leases@[j].shard_id@ == k);
            }
        }
    }

    /// Read: the lease of `shard_id`, or absent.
    pub fn read(&self, shard_id: &String) -> (r: Option<Lease>)
        requires
            self.wf(),
        ensures
            lease_of(r) == (if self@.contains_key(shard_id@) { Some(self@[shard_id@]) } else { None }),
            r matches Some(l) ==> l.shard_id@ == shard_id@,
    {
        match self.find(shard_id) {
            Some(i) => {
                let l = &self.leases[i];
                Some(Lease {
                    shard_id: l.shard_id.clone(),
                    owner_id: l.owner_id.clone(),
                    sequence_number: l.sequence_number.clone(),
                    number_of_owners_switched: l.number_of_owners_switched,
                })
            },
            None => None,
        }
    }

    /// Insert: creates a fresh lease owned by `owner_id` where the shard has
    /// no record; fails otherwise.
    pub fn insert(&mut self, shard_id: &String, owner_id: &String) -> (ok: bool)
        requires
            old(self).wf(),
        ensures
            final(self).wf(),
            (final(self)@, ok) == apply_op(old(self)@, StoreOp::Insert { shard: shard_id@, owner: owner_id@ }),
    {
        let at = self.find(shard_id);
        if at.is_some() {
            return false;
        }
        let lease = Lease {
            shard_id: shard_id.clone(),
            owner_id: Some(owner_id.clone()),
            sequence_number: None,
            number_of_owners_switched: 1,
        };
        self.put(at, lease);
        true
    }

    /// ClaimIfUnowned: a compare-and-set that takes an unowned lease for
    /// `new_owner` and raises its counter by one.
    pub fn claim_if_unowned(&mut self, shard_id: &String, new_owner: &String) -> (ok: bool)
        requires
            old(self).wf(),
        ensures
            final(self).wf(),
            (final(self)@, ok) == apply_op(old(self)@, StoreOp::ClaimIfUnowned { shard: shard_id@, owner: new_owner@ }),
    {
        match self.find(shard_id) {
            Some(i) => {
                let l = &self.leases[i];
                if l.owner_id.is_none() && l.number_of_owners_switched < u64::MAX {
                    let lease = Lease {
                        shard_id: l.shard_id.clone(),
                        owner_id: Some(new_owner.clone()),
                        sequence_number: l.sequence_number.clone(),
                        number_of_owners_switched: l.number_of_owners_switched + 1,
                    };
                    self.put(Some(i), lease);
                    true
                } else {
                    false
                }
            },
            None => false,
        }
    }

    /// Checkpoint: sets the sequence number, with no owner check, unless the
    /// stored one comes after it.
    pub fn checkpoint(&mut self, shard_id: &String, sequence_number: &String) -> (ok: bool)
        requires
            old(self).wf(),
        ensures
            final(self).wf(),
            (final(self)@, ok) == apply_op(
                old(self)@,
                StoreOp::Checkpoint { shard: shard_id@, sequence_number: sequence_number@ },
            ),
    {
        let at = self.find(shard_id);
        let lease = match at {
            Some(i) => {
                let l = &self.leases[i];
                match &l.sequence_number {
                    Some(t) => if sequence_precedes_exec(sequence_number, t) {
                        return false;
                    },
                    None => {},
                }
                Lease {
                    shard_id: l.shard_id.clone(),
                    owner_id: l.owner_id.clone(),
                    sequence_number: Some(sequence_number.clone()),
                    number_of_owners_switched: l.number_of_owners_switched,
                }
            },
            None => Lease {
                shard_id: shard_id.clone(),
                owner_id: None,
                sequence_number: Some(sequence_number.clone()),
                number_of_owners_switched: 0,
            },
        };
        self.put(at, lease);
        true
    }

    /// ReleaseOwner: clears the owner, with no condition.
    pub fn release_owner(&mut self, shard_id: &String)
        requires
            old(self).wf(),
        ensures
            final(self).wf(),
            final(self)@ == apply_op(old(self)@, StoreOp::ReleaseOwner { shard: shard_id@ }).0,
    {
        let at = self.find(shard_id);
        let lease = match at {
            Some(i) => {
                let l = &self.leases[i];
                Lease {
                    shard_id: l.shard_id.clone(),
                    owner_id: None,
                    sequence_number: l.sequence_number.clone(),
                    number_of_owners_switched: l.number_of_owners_switched,
                }
            },
            None => Lease {
                shard_id: shard_id.clone(),
                owner_id: None,
                sequence_number: None,
                number_of_owners_switched: 0,
            },
        };
        self.put(at, lease);
    }

    /// ClaimForRead: read the lease, then insert, claim, or leave it.
    pub fn claim_for_read(&mut self, shard_id: &String, worker_id: &String) -> (o: ClaimOutcome)
        requires
            old(self).wf(),
        ensures
            final(self).wf(),
            (final(self)@, o@) == claim_transition(old(self)@, shard_id@, worker_id@),
    {
        let current = self.read(shard_id);
        let ok = match claim_step(&current) {
            ClaimStep::Insert => self.insert(shard_id, worker_id),
            ClaimStep::ClaimIfUnowned => self.claim_if_unowned(shard_id, worker_id),
            ClaimStep::AlreadyHeld => false,
        };
        claim_outcome(&current, ok)
    }

    /// ValidateOwnership: whether `worker_id` owns `shard_id` now.
    pub fn validate_ownership(&self, shard_id: &String, worker_id: &String) -> (r: bool)
        requires
            self.wf(),
        ensures
            r == owned_by(lease_at(self@, shard_id@), worker_id@),
    {
        let current = self.read(shard_id);
        owns(&current, worker_id)
    }
}

} // verus!
