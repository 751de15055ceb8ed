//! Choosing a queue: for a submitter the shortest one it can get hold of,
//! for a stealing worker the next peer in turn.

use vstd::prelude::*;
use vstd::arithmetic::div_mod::{lemma_fundamental_div_mod_converse, lemma_small_mod};

verus! {

/// The best queue after one more probe: the probed queue if it could be
/// acquired and is strictly shorter than the best so far, the best so far
/// otherwise. A queue is written as its index and its length.
pub open spec fn better(best: Option<(usize, usize)>, index: int, probe: Option<usize>) -> Option<
    (usize, usize),
> {
    match probe {
        None => best,
        Some(len) => match best {
            None => Some((index as usize, len)),
            Some((_, best_len)) => if len < best_len {
                Some((index as usize, len))
            } else {
                best
            },
        },
    }
}

/// The best queue of a round of probes, taken in order. Each probe is the
/// length of the queue if it could be acquired, and `None` if not.
pub open spec fn best_of(probes: Seq<Option<usize>>) -> Option<(usize, usize)>
    decreases probes.len(),
{
    if probes.len() == 0 {
        None
    } else {
        better(best_of(probes.drop_last()), probes.len() - 1, probes.last())
    }
}

/// The load balancer of one submission round: it is shown the queues one by
/// one and remembers the best of them.
pub struct QueuePicker {
    num_workers: usize,
    next: usize,
    best: Option<(usize, usize)>,
    seen: Ghost<Seq<Option<usize>>>,
}

impl QueuePicker {
    /// The probes recorded so far, in order.
    pub closed spec fn probes(&self) -> Seq<Option<usize>> {
        self.seen@
    }

    /// The number of queues in the pool.
    pub closed spec fn num_workers(&self) -> usize {
        self.num_workers
    }

    /// What holds of every picker: it has seen no more queues than there are,
    /// and remembers the best of those it has seen.
    pub closed spec fn well_formed(&self) -> bool {
        &&& self.next <= self.num_workers
        &&& self.seen@.len() == self.next
        &&& self.best == best_of(self.seen@)
    }

    /// The round is over when every queue has been probed, or when an empty
    /// queue has been acquired: nothing can be shorter.
    pub open spec fn finished(&self) -> bool {
        ||| self.probes().len() == self.num_workers()
        ||| (best_of(self.probes()) matches Some((_, len)) && len == 0)
    }

    /// A picker that has seen no queue yet.
    pub fn new(num_workers: usize) -> (picker: Self)
        ensures
            picker.well_formed(),
            picker.num_workers() == num_workers,
            picker.probes() == Seq::<Option<usize>>::empty(),
    {
        QueuePicker { num_workers, next: 0, best: None, seen: Ghost(Seq::empty()) }
    }

    /// The queue to probe next, or `None` when the round is over.
    pub fn next_probe(&self) -> (index: Option<usize>)
        requires
            self.well_formed(),
        ensures
            index == if self.finished() {
                None
            } else {
                Some(self.probes().len() as usize)
            },
    {
        if self.next == self.num_workers {
            return None;
        }
        match self.best {
            Some((_, len)) => if len == 0 {
                None
            } else {
                Some(self.next)
            },
            None => Some(self.next),
        }
    }

    /// Records the probe of the queue that `next_probe` named: its length if
    /// it could be acquired, `None` if not. Says whether that queue is now
    /// the best one, so that the caller keeps hold of it and lets go of the
    /// one it held before.
    pub fn record(&mut self, probe: Option<usize>) -> (keep: bool)
        requires
            old(self).well_formed(),
            old(self).probes().len() < old(self).num_workers(),
        ensures
            final(self).well_formed(),
            final(self).num_workers() == old(self).num_workers(),
            final(self).probes() == old(self).probes().push(probe),
            keep == (best_of(final(self).probes()) != best_of(old(self).probes())),
            keep ==> (best_of(final(self).probes()) matches Some((index, _)) && index == old(
                self,
            ).probes().len()),
    {
        let index: usize = self.next;
        let keep = match probe {
            None => false,
            Some(len) => match self.best {
                None => true,
                Some((_, best_len)) => len < best_len,
            },
        };
        if keep {
            match probe {
                Some(len) => {
                    self.best = Some((index, len));
                },
                None => {},
            }
        }
        proof {
            let after = self.seen@.push(probe);
            assert(after.drop_last() =~= self.seen@);
            self.seen@ = after;
        }
        self.next = index + 1;
        keep
    }

    /// The queue chosen so far: the best of those probed, if any could be
    /// acquired.
    pub fn choice(&self) -> (index: Option<usize>)
        requires
            self.well_formed(),
        ensures
            index == match best_of(self.probes()) {
                Some((i, _)) => Some(i),
                None => None,
            },
    {
        match self.best {
            Some((i, _)) => Some(i),
            None => None,
        }
    }
}

/// The victim that worker `worker_id` of `num_workers` tries at `offset`:
/// round robin, starting with its right-hand neighbour at offset one.
pub open spec fn victim_at(worker_id: usize, offset: usize, num_workers: usize) -> int {
    (worker_id + offset) % (num_workers as int)
}

/// The peers of a worker: the other workers of the pool.
pub open spec fn is_peer(peer: usize, worker_id: usize, num_workers: usize) -> bool {
    peer < num_workers && peer != worker_id
}

/// The order in which a worker tries its peers when it steals.
pub struct StealSearch {
    worker_id: usize,
    num_workers: usize,
    offset: usize,
}

impl StealSearch {
    /// The worker that steals.
    pub closed spec fn worker_id(&self) -> usize {
        self.worker_id
    }

    /// The number of workers in the pool.
    pub closed spec fn num_workers(&self) -> usize {
        self.num_workers
    }

    /// The offset of the peer that is tried next.
    pub closed spec fn offset(&self) -> usize {
        self.offset
    }

    /// What holds of every search: the worker is one of the pool, and the
    /// offset runs from one up to the size of the pool.
    pub open spec fn well_formed(&self) -> bool {
        &&& self.worker_id() < self.num_workers()
        &&& 1 <= self.offset() <= self.num_workers()
    }

    /// A search that has tried no peer yet.
    pub fn new(worker_id: usize, num_workers: usize) -> (search: Self)
        requires
            worker_id < num_workers,
        ensures
            search.well_formed(),
            search.worker_id() == worker_id,
            search.num_workers() == num_workers,
            search.offset() == 1,
    {
        StealSearch { worker_id, num_workers, offset: 1 }
    }

    /// The peer to try next, or `None` when every peer has been tried.
    pub fn next_victim(&mut self) -> (victim: Option<usize>)
        requires
            old(self).well_formed(),
        ensures
            final(self).well_formed(),
            final(self).worker_id() == old(self).worker_id(),
            final(self).num_workers() == old(self).num_workers(),
            match victim {
                Some(v) => {
                    &&& old(self).offset() < old(self).num_workers()
                    &&& v == victim_at(
                        old(self).worker_id(),
                        old(self).offset(),
                        old(self).num_workers(),
                    )
                    &&& v < old(self).num_workers()
                    &&& v != old(self).worker_id()
                    &&& final(self).offset() == old(self).offset() + 1
                },
                None => {
                    &&& old(self).offset() == old(self).num_workers()
                    &&& final(self).offset() == old(self).offset()
                },
            },
    {
        if self.offset >= self.num_workers {
            return None;
        }
        let room: usize = self.num_workers - self.worker_id;
        let victim: usize = if self.offset >= room {
            self.offset - room
        } else {
            self.worker_id + self.offset
        };
        proof {
            let n = self.num_workers as int;
            let sum = self.worker_id + self.offset;
            if self.offset >= room {
                lemma_fundamental_div_mod_converse(sum, n, 1, victim as int);
            } else {
                lemma_small_mod(sum as nat, n as nat);
            }
        }
        self.offset = self.offset + 1;
        Some(victim)
    }
}

/// The round robin written without a remainder: up to the end of the pool,
/// then on from its start.
proof fn lemma_victim_unrolled(worker_id: usize, offset: usize, num_workers: usize)
    requires
        worker_id < num_workers,
        offset < num_workers,
    ensures
        victim_at(worker_id, offset, num_workers) == if worker_id + offset < num_workers {
            worker_id + offset
        } else {
            worker_id + offset - num_workers
        },
{
    let n = num_workers as int;
    let sum = worker_id + offset;
    if sum < n {
        lemma_small_mod(sum as nat, n as nat);
    } else {
        lemma_fundamental_div_mod_converse(sum, n, 1, sum - n);
    }
}

/// The load balancer picks the shortest of the queues that could be
/// acquired, and among equally short ones the first: the chosen queue is no
/// longer than any other acquired queue and strictly shorter than every
/// acquired queue before it. It picks nothing only if no queue could be
/// acquired.
pub proof fn law_shortest_queue_first(probes: Seq<Option<usize>>)
    requires
        probes.len() <= usize::MAX,
    ensures
        match best_of(probes) {
            Some((index, len)) => {
                &&& index < probes.len()
                &&& probes[index as int] == Some(len)
                &&& forall|j: int|
                    0 <= j < probes.len() ==> (#[trigger] probes[j] matches Some(other) ==> len
                        <= other && (j < index ==> len < other))
            },
            None => forall|j: int| 0 <= j < probes.len() ==> (#[trigger] probes[j]) is None,
        },
    decreases probes.len(),
{
    if probes.len() > 0 {
        let earlier = probes.drop_last();
        law_shortest_queue_first(earlier);
        assert forall|j: int| 0 <= j < earlier.len() implies #[trigger] probes[j]
            == earlier[j] by {}
        match best_of(probes) {
            Some((index, len)) => {
                assert forall|j: int| 0 <= j < probes.len() implies (#[trigger] probes[j] matches Some(
                    other,
                ) ==> len <= other && (j < index ==> len < other)) by {
                    if j < earlier.len() {
                        assert(probes[j] == earlier[j]);
                    }
                }
            },
            None => {
                assert forall|j: int| 0 <= j < probes.len() implies (#[trigger] probes[j]) is None by {
                    if j < earlier.len() {
                        assert(probes[j] == earlier[j]);
                    }
                }
            },
        }
    }
}

/// Once an empty queue has been acquired the round may stop: whatever the
/// remaining probes would have shown, the choice stays the same.
pub proof fn law_empty_queue_ends_round(probes: Seq<Option<usize>>, more: Seq<Option<usize>>)
    requires
        best_of(probes) matches Some((_, len)) && len == 0,
    ensures
        best_of(probes + more) == best_of(probes),
    decreases more.len(),
{
    if more.len() == 0 {
        assert(probes + more =~= probes);
    } else {
        law_empty_queue_ends_round(probes, more.drop_last());
        assert((probes + more).drop_last() =~= probes + more.drop_last());
    }
}

/// A stealing worker tries each of its peers once and never itself: the
/// victims at the offsets from one to the size of the pool less one are all
/// peers, no two of them the same, and every peer is among them.
pub proof fn law_steal_order(worker_id: usize, num_workers: usize)
    requires
        worker_id < num_workers,
    ensures
        forall|offset: usize|
            1 <= offset < num_workers ==> {
                let victim = #[trigger] victim_at(worker_id, offset, num_workers);
                0 <= victim < num_workers && victim != worker_id
            },
        forall|a: usize, b: usize|
            1 <= a < b < num_workers ==> #[trigger] victim_at(worker_id, a, num_workers)
                != #[trigger] victim_at(worker_id, b, num_workers),
        forall|peer: usize| #[trigger]
            is_peer(peer, worker_id, num_workers) ==> exists|offset: usize|
                1 <= offset < num_workers && #[trigger] victim_at(worker_id, offset, num_workers)
                    == peer,
{
    assert forall|offset: usize| 1 <= offset < num_workers implies {
        let victim = #[trigger] victim_at(worker_id, offset, num_workers);
        0 <= victim < num_workers && victim != worker_id
    } by {
        lemma_victim_unrolled(worker_id, offset, num_workers);
    }
    assert forall|a: usize, b: usize| 1 <= a < b < num_workers implies #[trigger] victim_at(
        worker_id,
        a,
        num_workers,
    ) != #[trigger] victim_at(worker_id, b, num_workers) by {
        lemma_victim_unrolled(worker_id, a, num_workers);
        lemma_victim_unrolled(worker_id, b, num_workers);
    }
    assert forall|peer: usize| #[trigger]
        is_peer(peer, worker_id, num_workers) implies exists|offset: usize|
        1 <= offset < num_workers && #[trigger] victim_at(worker_id, offset, num_workers)
            == peer by {
        let offset: usize = if peer > worker_id {
            (peer - worker_id) as usize
        } else {
            (peer + num_workers - worker_id) as usize
        };
        lemma_victim_unrolled(worker_id, offset, num_workers);
        assert(victim_at(worker_id, offset, num_workers) == peer);
    }
}

} // verus!
