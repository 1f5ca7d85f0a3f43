//! The idle reaper: releases the leases whose checkpoint did not move over
//! an observation window.
use vstd::prelude::*;
use crate::lease::{Lease, LeaseState, LeaseTable, StoreOp, apply_op, lease_at, lease_of, run_ops, texts};

verus! {

/// A shard and the checkpoint it held when observed.
pub struct Checkpointed {
    pub shard_id: String,
    pub sequence_number: String,
}

impl View for Checkpointed {
    type V = (Seq<char>, Seq<char>);

    open spec fn view(&self) -> (Seq<char>, Seq<char>) {
        (self.shard_id@, self.sequence_number@)
    }
}

/// The checkpoint of a lease that is held with progress: it has an owner
/// and a sequence number.
pub open spec fn held_checkpoint(current: Option<LeaseState>) -> Option<Seq<char>> {
    match current {
        Some(l) => if l.owner_id is Some {
            l.sequence_number
        } else {
            None
        },
        None => None,
    }
}

/// A lease that exists and has no owner.
pub open spec fn present_unowned(current: Option<LeaseState>) -> bool {
    current matches Some(l) && l.owner_id is None
}

pub open spec fn leases(v: Seq<Option<Lease>>) -> Seq<Option<LeaseState>> {
    v.map_values(|r: Option<Lease>| lease_of(r))
}

pub open spec fn entries(v: Seq<Checkpointed>) -> Seq<(Seq<char>, Seq<char>)> {
    v.map_values(|e: Checkpointed| e@)
}

/// The snapshot: each shard whose lease (read at the same index) is held
/// with progress, paired with its checkpoint, in order.
pub open spec fn snapshot_of(shards: Seq<Seq<char>>, reads: Seq<Option<LeaseState>>) -> Seq<(Seq<char>, Seq<char>)>
    decreases shards.len(),
{
    if shards.len() == 0 || reads.len() == 0 {
        Seq::empty()
    } else {
        let prev = snapshot_of(shards.drop_last(), reads.drop_last());
        match held_checkpoint(reads.last()) {
            Some(s) => prev.push((shards.last(), s)),
            None => prev,
        }
    }
}

/// The idle shards: each snapshot entry whose re-read lease (at the same
/// index) is still held with the very same checkpoint.
pub open spec fn idle_of(snapshot: Seq<(Seq<char>, Seq<char>)>, reads: Seq<Option<LeaseState>>) -> Seq<Seq<char>>
    decreases snapshot.len(),
{
    if snapshot.len() == 0 || reads.len() == 0 {
        Seq::empty()
    } else {
        let prev = idle_of(snapshot.drop_last(), reads.drop_last());
        if held_checkpoint(reads.last()) == Some(snapshot.last().1) {
            prev.push(snapshot.last().0)
        } else {
            prev
        }
    }
}

/// The reads of each snapshot entry's shard from `m`.
pub open spec fn reads_of(m: Map<Seq<char>, LeaseState>, snapshot: Seq<(Seq<char>, Seq<char>)>) -> Seq<Option<LeaseState>> {
    snapshot.map_values(|e: (Seq<char>, Seq<char>)| lease_at(m, e.0))
}

pub open spec fn release_ops(shards: Seq<Seq<char>>) -> Seq<StoreOp> {
    shards.map_values(|k: Seq<char>| StoreOp::ReleaseOwner { shard: k })
}

/// The sequence number of a lease that is held with progress, or absent.
pub fn owned_sequence_number(current: &Option<Lease>) -> (r: Option<String>)
    ensures
        crate::lease::text_of(r) == held_checkpoint(lease_of(*current)),
{
    match current {
        Some(l) => if l.owner_id.is_some() {
            l.sequence_number.clone()
        } else {
            None
        },
        None => None,
    }
}

/// The snapshot taken before the window, from the shard list and one read
/// of each shard's lease.
pub fn take_snapshot(shards: &Vec<String>, reads: &Vec<Option<Lease>>) -> (r: Vec<Checkpointed>)
    requires
        shards@.len() == reads@.len(),
    ensures
        entries(r@) == snapshot_of(texts(shards@), leases(reads@)),
{
    let mut r: Vec<Checkpointed> = Vec::new();
    let mut i: usize = 0;
    while i < shards.len()
        invariant
            shards@.len() == reads@.len(),
            i <= shards@.len(),
            entries(r@) == snapshot_of(texts(shards@).take(i as int), leases(reads@).take(i as int)),
        decreases shards@.len() - i,
    {
        let ghost s1 = texts(shards@).take(i + 1);
        let ghost r1 = leases(reads@).take(i + 1);
        assert(s1.drop_last() == texts(shards@).take(i as int));
        assert(r1.drop_last() == leases(reads@).take(i as int));
        match owned_sequence_number(&reads[i]) {
            Some(s) => {
                r.push(Checkpointed { shard_id: shards[i].clone(), sequence_number: s });
            },
            None => {},
        }
        assert(entries(r@) =~= snapshot_of(s1, r1));
        i = i + 1;
    }
    assert(texts(shards@).take(shards@.len() as int) == texts(shards@));
    assert(leases(reads@).take(reads@.len() as int) == leases(reads@));
    r
}

/// The shards to release after the window, from the snapshot and one
/// re-read of each snapshot entry's shard.
pub fn idle_shards(snapshot: &Vec<Checkpointed>, reads: &Vec<Option<Lease>>) -> (r: Vec<String>)
    requires
        snapshot@.len() == reads@.len(),
    ensures
        texts(r@) == idle_of(entries(snapshot@), leases(reads@)),
{
    let mut r: Vec<String> = Vec::new();
    let mut i: usize = 0;
    while i < snapshot.len()
        invariant
            snapshot@.len() == reads@.len(),
            i <= snapshot@.len(),
            texts(r@) == idle_of(entries(snapshot@).take(i as int), leases(reads@).take(i as int)),
        decreases snapshot@.len() - i,
    {
        let ghost s1 = entries(snapshot@).take(i + 1);
        let ghost r1 = leases(reads@).take(i + 1);
        assert(s1.drop_last() == entries(snapshot@).take(i as int));
        assert(r1.drop_last() == leases(reads@).take(i as int));
        let e = &snapshot[i];
        let still = match owned_sequence_number(&reads[i]) {
            Some(s) => s.eq(&e.sequence_number),
            None => false,
        };
        if still {
            r.push(e.shard_id.clone());
        }
        assert(texts(r@) =~= idle_of(s1, r1));
        i = i + 1;
    }
    assert(entries(snapshot@).take(snapshot@.len() as int) == entries(snapshot@));
    assert(leases(reads@).take(reads@.len() as int) == leases(reads@));
    r
}

proof fn lemma_release_all(m: Map<Seq<char>, LeaseState>, shards: Seq<Seq<char>>)
    ensures
        forall|k: Seq<char>| #[trigger] shards.contains(k) ==> present_unowned(lease_at(run_ops(m, release_ops(shards)), k)),
        forall|k: Seq<char>| !shards.contains(k) ==> #[trigger] lease_at(run_ops(m, release_ops(shards)), k) == lease_at(m, k),
    decreases shards.len(),
{
    if shards.len() > 0 {
        let m1 = apply_op(m, StoreOp::ReleaseOwner { shard: shards[0] }).0;
        assert(release_ops(shards).drop_first() == release_ops(shards.drop_first()));
        lemma_release_all(m1, shards.drop_first());
        assert(release_ops(shards)[0] == StoreOp::ReleaseOwner { shard: shards[0] });
        assert(run_ops(m, release_ops(shards)) == run_ops(m1, release_ops(shards.drop_first())));
        assert forall|k: Seq<char>| #[trigger] shards.contains(k) implies present_unowned(lease_at(run_ops(m, release_ops(shards)), k)) by {
            if k != shards[0] {
                let j = choose|j: int| 0 <= j < shards.len() && shards[j] == k;
                assert(shards.drop_first()[j - 1] == k);
                assert(shards.drop_first().contains(k));
            } else if shards.drop_first().contains(k) {
            } else if !shards.drop_first().contains(k) {
                assert(lease_at(run_ops(m1, release_ops(shards.drop_first())), k) == lease_at(m1, k));
                assert(m1.contains_key(k));
                assert(m1[k].owner_id is None);
            }
        }
        assert forall|k: Seq<char>| !shards.contains(k) implies #[trigger] lease_at(run_ops(m, release_ops(shards)), k) == lease_at(m, k) by {
            assert(k != shards[0]);
            if shards.drop_first().contains(k) {
                let j = choose|j: int| 0 <= j < shards.drop_first().len() && shards.drop_first()[j] == k;
                assert(shards[j + 1] == k);
            }
        }
    }
}

proof fn lemma_idle_of_contains(snapshot: Seq<(Seq<char>, Seq<char>)>, reads: Seq<Option<LeaseState>>, i: int)
    requires
        snapshot.len() == reads.len(),
        0 <= i < snapshot.len(),
        held_checkpoint(reads[i]) == Some(snapshot[i].1),
    ensures
        idle_of(snapshot, reads).contains(snapshot[i].0),
    decreases snapshot.len(),
{
    let prev = idle_of(snapshot.drop_last(), reads.drop_last());
    if i == snapshot.len() - 1 {
        assert(idle_of(snapshot, reads).last() == snapshot[i].0);
    } else {
        lemma_idle_of_contains(snapshot.drop_last(), reads.drop_last(), i);
        let j = choose|j: int| 0 <= j < prev.len() && prev[j] == snapshot[i].0;
        assert(idle_of(snapshot, reads)[j] == snapshot[i].0);
    }
}

proof fn lemma_idle_of_members(snapshot: Seq<(Seq<char>, Seq<char>)>, reads: Seq<Option<LeaseState>>, k: Seq<char>)
    requires
        snapshot.len() == reads.len(),
        idle_of(snapshot, reads).contains(k),
    ensures
        exists|i: int| 0 <= i < snapshot.len() && snapshot[i].0 == k && held_checkpoint(reads[i]) == Some(snapshot[i].1),
    decreases snapshot.len(),
{
    let prev = idle_of(snapshot.drop_last(), reads.drop_last());
    let n = snapshot.len() - 1;
    if prev.contains(k) {
        lemma_idle_of_members(snapshot.drop_last(), reads.drop_last(), k);
        let i = choose|i: int| 0 <= i < n && snapshot.drop_last()[i].0 == k
            && held_checkpoint(reads.drop_last()[i]) == Some(snapshot.drop_last()[i].1);
        assert(snapshot[i].0 == k);
    } else {
        let j = choose|j: int| 0 <= j < idle_of(snapshot, reads).len() && idle_of(snapshot, reads)[j] == k;
        if j < prev.len() {
            assert(prev[j] == k);
        }
        assert(snapshot[n].0 == k);
    }
}

/// After the window, every snapshotted shard whose checkpoint string is
/// unchanged, and which still has an owner, is left with no owner; every
/// shard whose checkpoint moved (and which is not idle under another entry)
/// is left as it was.
pub proof fn lemma_reaper_releases_exactly_idle(m: Map<Seq<char>, LeaseState>, snapshot: Seq<(Seq<char>, Seq<char>)>)
    ensures
        ({
            let after = run_ops(m, release_ops(idle_of(snapshot, reads_of(m, snapshot))));
            &&& forall|i: int|
                0 <= i < snapshot.len() && held_checkpoint(lease_at(m, snapshot[i].0)) == Some(#[trigger] snapshot[i].1)
                    ==> present_unowned(lease_at(after, snapshot[i].0))
            &&& forall|k: Seq<char>|
                (forall|i: int| 0 <= i < snapshot.len() && #[trigger] snapshot[i].0 == k
                    ==> held_checkpoint(lease_at(m, k)) != Some(snapshot[i].1))
                    ==> #[trigger] lease_at(after, k) == lease_at(m, k)
        }),
{
    let reads = reads_of(m, snapshot);
    let idle = idle_of(snapshot, reads);
    lemma_release_all(m, idle);
    assert forall|i: int|
        0 <= i < snapshot.len() && held_checkpoint(lease_at(m, snapshot[i].0)) == Some(#[trigger] snapshot[i].1)
        implies present_unowned(lease_at(run_ops(m, release_ops(idle)), snapshot[i].0)) by {
        lemma_idle_of_contains(snapshot, reads, i);
    }
    assert forall|k: Seq<char>|
        (forall|i: int| 0 <= i < snapshot.len() && #[trigger] snapshot[i].0 == k
            ==> held_checkpoint(lease_at(m, k)) != Some(snapshot[i].1))
        implies #[trigger] lease_at(run_ops(m, release_ops(idle)), k) == lease_at(m, k) by {
        if idle.contains(k) {
            lemma_idle_of_members(snapshot, reads, k);
        }
    }
}

impl LeaseTable {
    /// The snapshot before the window: reads each shard's lease.
    pub fn snapshot(&self, shards: &Vec<String>) -> (r: Vec<Checkpointed>)
        requires
            self.wf(),
        ensures
            entries(r@) == snapshot_of(texts(shards@), texts(shards@).map_values(|k: Seq<char>| lease_at(self@, k))),
    {
        let mut reads: Vec<Option<Lease>> = Vec::new();
        let mut i: usize = 0;
        while i < shards.len()
            invariant
                self.wf(),
                i <= shards@.len(),
                reads@.len() == i,
                forall|j: int| 0 <= j < i ==> #[trigger] lease_of(reads@[j]) == lease_at(self@, shards@[j]@),
            decreases shards@.len() - i,
        {
            let r = self.read(&shards[i]);
            reads.push(r);
            i = i + 1;
        }
        assert(leases(reads@) =~= texts(shards@).map_values(|k: Seq<char>| lease_at(self@, k)));
        take_snapshot(shards, &reads)
    }

    /// After the window: re-reads each snapshotted shard and releases those
    /// that are idle. Returns the shards released.
    pub fn reap(&mut self, snapshot: &Vec<Checkpointed>) -> (released: Vec<String>)
        requires
            old(self).wf(),
        ensures
            final(self).wf(),
            texts(released@) == idle_of(entries(snapshot@), reads_of(old(self)@, entries(snapshot@))),
            final(self)@ == run_ops(old(self)@, release_ops(texts(released@))),
    {
        let mut reads: Vec<Option<Lease>> = Vec::new();
        let mut i: usize = 0;
        while i < snapshot.len()
            invariant
                self.wf(),
                i <= snapshot@.len(),
                reads@.len() == i,
                forall|j: int| 0 <= j < i ==> #[trigger] lease_of(reads@[j]) == lease_at(self@, snapshot@[j].shard_id@),
            decreases snapshot@.len() - i,
        {
            let r = self.read(&snapshot[i].shard_id);
            reads.push(r);
            i = i + 1;
        }
        assert(leases(reads@) =~= reads_of(self@, entries(snapshot@)));
        let released = idle_shards(snapshot, &reads);
        let ghost start = self@;
        assert(texts(released@).skip(0) =~= texts(released@));
        let mut i: usize = 0;
        while i < released.len()
            invariant
                self.wf(),
                i <= released@.len(),
                run_ops(start, release_ops(texts(released@))) == run_ops(self@, release_ops(texts(released@).skip(i as int))),
            decreases released@.len() - i,
        {
            self.release_owner(&released[i]);
            assert(release_ops(texts(released@).skip(i as int)).drop_first() =~= release_ops(texts(released@).skip(i + 1)));
            i = i + 1;
        }
        assert(texts(released@).skip(released@.len() as int) =~= Seq::<Seq<char>>::empty());
        assert(release_ops(Seq::<Seq<char>>::empty()) =~= Seq::<StoreOp>::empty());
        released
    }
}

} // verus!
