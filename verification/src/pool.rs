//! The bounded connection pool: a FIFO of idle connections, a FIFO of
//! waiting acquirers, and the accounting that keeps the pool bounded.
//!
//! The pool never opens or closes a socket: every operation returns the
//! decision — hand out this idle connection, open a fresh one, enqueue
//! the caller, reset before reuse, or discard — and the caller does the
//! wire work. [`lemma_pool_bounded`] states the bound on leased plus idle
//! connections; [`lemma_pool_exclusive`] states that no connection is
//! ever held by two acquirers or sits idle while leased.
use vstd::prelude::*;
use crate::connection::ConnState;

verus! {

/// One idle connection: its identity and when it came back, so that a
/// freshly returned connection skips the liveness check.
pub struct PoolEntry {
    pub id: u64,
    pub returned_at_ms: u64,
}

/// What `acquire` decided.
pub enum AcquireDecision {
    /// Take this idle connection; check liveness first when asked to.
    Grant { id: u64, needs_liveness_check: bool },
    /// Open a fresh connection under this identity.
    Create { id: u64 },
    /// The pool is full and nothing is idle: wait under this ticket.
    Enqueue { ticket: u64 },
}

/// What `release` decided.
pub enum ReleaseDecision {
    /// The connection went back to the idle queue.
    Returned,
    /// The connection stays leased: the first waiter takes it over.
    HandedToWaiter { ticket: u64 },
    /// Reset the connection, then report back with `release_after_reset`.
    ResetFirst,
    /// The connection is unusable: close it and forget it.
    Discarded,
    /// The connection is unusable: close it, and open a fresh one under
    /// the new identity for the first waiter.
    ReplacedForWaiter { ticket: u64, id: u64 },
}

/// The bounded pool: identities only — the sockets live with the caller.
pub struct Pool {
    pub max_connections: usize,
    pub idle: Vec<PoolEntry>,
    pub leased: Vec<u64>,
    pub waiters: Vec<u64>,
    pub next_id: u64,
}

/// The identities of the idle connections, in queue order.
pub open spec fn idle_ids(idle: Seq<PoolEntry>) -> Seq<u64> {
    Seq::new(idle.len(), |i: int| idle[i].id)
}

impl Pool {
    /// The pool invariant: leased plus idle never exceed the bound, every
    /// identity was coined by the pool, and no identity is leased twice,
    /// idle twice, or leased and idle at once.
    pub open spec fn wf(self) -> bool {
        &&& self.leased@.len() + self.idle@.len() <= self.max_connections
        &&& (forall|i: int| 0 <= i < self.idle@.len() ==> (#[trigger] self.idle@[i]).id
            < self.next_id)
        &&& (forall|i: int| 0 <= i < self.leased@.len() ==> (#[trigger] self.leased@[i])
            < self.next_id)
        &&& (forall|i: int, j: int|
            0 <= i < self.idle@.len() && 0 <= j < self.idle@.len() && i != j ==> (
            #[trigger] self.idle@[i]).id != (#[trigger] self.idle@[j]).id)
        &&& (forall|i: int, j: int|
            0 <= i < self.leased@.len() && 0 <= j < self.leased@.len() && i != j ==> (
            #[trigger] self.leased@[i]) != (#[trigger] self.leased@[j]))
        &&& (forall|i: int, j: int|
            0 <= i < self.idle@.len() && 0 <= j < self.leased@.len() ==> (
            #[trigger] self.idle@[i]).id != (#[trigger] self.leased@[j]))
    }

    /// Whether the identity is currently leased.
    pub open spec fn holds_lease(self, id: u64) -> bool {
        self.leased@.contains(id)
    }

    /// An empty pool bounded by `max_connections`.
    pub fn new(max_connections: usize) -> (p: Pool)
        ensures
            p.wf(),
            p.max_connections == max_connections,
            p.idle@.len() == 0 && p.leased@.len() == 0 && p.waiters@.len() == 0,
    {
        Pool {
            max_connections,
            idle: Vec::new(),
            leased: Vec::new(),
            waiters: Vec::new(),
            next_id: 0,
        }
    }

    /// Acquires a lease: the oldest idle connection when one exists — with
    /// a liveness check unless it came back within the last second —
    /// else a fresh connection while the pool is not full, else a ticket
    /// in the wait queue, first come first served.
    pub fn acquire(&mut self, now_ms: u64) -> (d: AcquireDecision)
        requires
            old(self).wf(),
            old(self).next_id < u64::MAX,
        ensures
            final(self).wf(),
            final(self).max_connections == old(self).max_connections,
            ({
                match d {
                    AcquireDecision::Grant { id, needs_liveness_check } => {
                        &&& old(self).idle@.len() > 0
                        &&& id == old(self).idle@[0].id
                        &&& final(self).idle@ == old(self).idle@.drop_first()
                        &&& final(self).leased@ == old(self).leased@.push(id)
                        &&& final(self).holds_lease(id)
                        &&& final(self).waiters == old(self).waiters
                        &&& final(self).next_id == old(self).next_id
                        &&& (needs_liveness_check <==> now_ms >= old(self).idle@[0].returned_at_ms
                            + 1000)
                    },
                    AcquireDecision::Create { id } => {
                        &&& old(self).idle@.len() == 0
                        &&& old(self).leased@.len() < old(self).max_connections
                        &&& id == old(self).next_id
                        &&& final(self).idle == old(self).idle
                        &&& final(self).leased@ == old(self).leased@.push(id)
                        &&& final(self).holds_lease(id)
                        &&& final(self).waiters == old(self).waiters
                        &&& final(self).next_id == old(self).next_id + 1
                    },
                    AcquireDecision::Enqueue { ticket } => {
                        &&& old(self).idle@.len() == 0
                        &&& old(self).leased@.len() >= old(self).max_connections
                        &&& ticket == old(self).next_id
                        &&& final(self).idle == old(self).idle
                        &&& final(self).leased == old(self).leased
                        &&& final(self).waiters@ == old(self).waiters@.push(ticket)
                        &&& final(self).next_id == old(self).next_id + 1
                    },
                }
            }),
    {
        if self.idle.len() > 0 {
            let entry = self.idle.remove(0);
            let needs = entry.returned_at_ms <= u64::MAX - 1000 && now_ms >= entry.returned_at_ms
                + 1000;
            self.leased.push(entry.id);
            proof {
                assert(self.idle@ =~= old(self).idle@.drop_first());
                assert forall|i: int, j: int|
                    0 <= i < self.idle@.len() && 0 <= j < self.leased@.len() implies (
                #[trigger] self.idle@[i]).id != (#[trigger] self.leased@[j]) by {
                    assert(self.idle@[i] == old(self).idle@[i + 1]);
                    if j < old(self).leased@.len() {
                        assert(self.leased@[j] == old(self).leased@[j]);
                    } else {
                        assert(self.leased@[j] == old(self).idle@[0].id);
                    }
                }
                assert forall|i: int, j: int|
                    0 <= i < self.leased@.len() && 0 <= j < self.leased@.len() && i != j implies (
                #[trigger] self.leased@[i]) != (#[trigger] self.leased@[j]) by {
                    if i == self.leased@.len() - 1 {
                        assert(self.leased@[j] == old(self).leased@[j]);
                    } else if j == self.leased@.len() - 1 {
                        assert(self.leased@[i] == old(self).leased@[i]);
                    }
                }
            }
            proof {
                assert(self.leased@.contains(entry.id)) by {
                    assert(self.leased@[self.leased@.len() - 1] == entry.id);
                }
            }
            AcquireDecision::Grant { id: entry.id, needs_liveness_check: needs }
        } else if self.leased.len() < self.max_connections {
            let id = self.next_id;
            self.next_id = self.next_id + 1;
            self.leased.push(id);
            proof {
                assert forall|i: int, j: int|
                    0 <= i < self.leased@.len() && 0 <= j < self.leased@.len() && i != j implies (
                #[trigger] self.leased@[i]) != (#[trigger] self.leased@[j]) by {
                    if i == self.leased@.len() - 1 {
                        assert(self.leased@[j] == old(self).leased@[j]);
                    } else if j == self.leased@.len() - 1 {
                        assert(self.leased@[i] == old(self).leased@[i]);
                    }
                }
            }
            proof {
                assert(self.leased@.contains(id)) by {
                    assert(self.leased@[self.leased@.len() - 1] == id);
                }
                assert(self.leased@.contains(id)) by {
                    assert(self.leased@[self.leased@.len() - 1] == id);
                }
            }
            AcquireDecision::Create { id }
        } else {
            let ticket = self.next_id;
            self.next_id = self.next_id + 1;
            self.waiters.push(ticket);
            AcquireDecision::Enqueue { ticket }
        }
    }

    /// The position of a leased identity.
    fn find_lease(&self, id: u64) -> (idx: usize)
        requires
            self.holds_lease(id),
        ensures
            idx < self.leased@.len(),
            self.leased@[idx as int] == id,
    {
        let n = self.leased.len();
        let mut i: usize = 0;
        while i < n
            invariant
                n == self.leased@.len(),
                i <= n,
                self.leased@.contains(id),
                forall|j: int| 0 <= j < i ==> self.leased@[j] != id,
            decreases n - i,
        {
            if self.leased[i] == id {
                return i;
            }
            i = i + 1;
        }
        proof {
            let k = choose|k: int| 0 <= k < self.leased@.len() && self.leased@[k] == id;
            assert(self.leased@[k] == id);
            assert(false);
        }
        0
    }

    /// Releases a lease. An idle-state connection goes back to the pool —
    /// straight to the first waiter when one is queued. A failed
    /// connection is never returned: it is discarded. Any other state
    /// must be reset first; the caller reports the outcome with
    /// `release_after_reset`.
    pub fn release(&mut self, id: u64, state: ConnState, now_ms: u64) -> (d: ReleaseDecision)
        requires
            old(self).wf(),
            old(self).holds_lease(id),
        ensures
            final(self).wf(),
            final(self).max_connections == old(self).max_connections,
            ({
                match d {
                    ReleaseDecision::HandedToWaiter { ticket } => {
                        &&& state is Idle
                        &&& old(self).waiters@.len() > 0
                        &&& ticket == old(self).waiters@[0]
                        &&& final(self).waiters@ == old(self).waiters@.drop_first()
                        &&& final(self).leased == old(self).leased
                        &&& final(self).idle == old(self).idle
                    },
                    ReleaseDecision::Returned => {
                        &&& state is Idle
                        &&& old(self).waiters@.len() == 0
                        &&& !final(self).holds_lease(id)
                        &&& final(self).idle@.len() == old(self).idle@.len() + 1
                        &&& final(self).idle@.last() == (PoolEntry { id, returned_at_ms: now_ms })
                        &&& final(self).leased@.len() == old(self).leased@.len() - 1
                        &&& final(self).waiters == old(self).waiters
                    },
                    ReleaseDecision::Discarded => {
                        &&& state is Failed
                        &&& !final(self).holds_lease(id)
                        &&& !idle_ids(final(self).idle@).contains(id)
                        &&& final(self).idle == old(self).idle
                        &&& final(self).leased@.len() == old(self).leased@.len() - 1
                        &&& final(self).waiters == old(self).waiters
                    },
                    ReleaseDecision::ResetFirst => {
                        &&& !(state is Idle) && !(state is Failed)
                        &&& *final(self) == *old(self)
                    },
                    ReleaseDecision::ReplacedForWaiter { .. } => false,
                }
            }),
    {
        match state {
            ConnState::Idle => {
                if self.waiters.len() > 0 {
                    let ticket = self.waiters.remove(0);
                    proof {
                        assert(self.waiters@ =~= old(self).waiters@.drop_first());
                    }
                    ReleaseDecision::HandedToWaiter { ticket }
                } else {
                    let idx = self.find_lease(id);
                    self.leased.remove(idx);
                    self.idle.push(PoolEntry { id, returned_at_ms: now_ms });
                    proof {
                        self.lemma_after_return(*old(self), idx as int, id, now_ms);
                    }
                    ReleaseDecision::Returned
                }
            },
            ConnState::Failed => {
                let idx = self.find_lease(id);
                self.leased.remove(idx);
                proof {
                    lemma_leased_remove(*old(self), *self, idx as int, id);
                }
                ReleaseDecision::Discarded
            },
            _ => ReleaseDecision::ResetFirst,
        }
    }

    /// Shows the invariant and the absence of the released identity after
    /// a return to idle.
    proof fn lemma_after_return(&self, prev: Pool, idx: int, id: u64, now_ms: u64)
        requires
            prev.wf(),
            0 <= idx < prev.leased@.len(),
            prev.leased@[idx] == id,
            self.max_connections == prev.max_connections,
            self.next_id == prev.next_id,
            self.waiters == prev.waiters,
            self.leased@ == prev.leased@.remove(idx),
            self.idle@ == prev.idle@.push(PoolEntry { id, returned_at_ms: now_ms }),
        ensures
            self.wf(),
            !self.holds_lease(id),
    {
        assert forall|i: int| 0 <= i < self.leased@.len() implies (#[trigger] self.leased@[i])
            != id by {
            if i < idx {
                assert(self.leased@[i] == prev.leased@[i]);
            } else {
                assert(self.leased@[i] == prev.leased@[i + 1]);
            }
        }
        assert(!self.holds_lease(id)) by {
            if self.leased@.contains(id) {
                let k = choose|k: int| 0 <= k < self.leased@.len() && self.leased@[k] == id;
                assert(self.leased@[k] == id);
            }
        }
        assert forall|i: int, j: int|
            0 <= i < self.leased@.len() && 0 <= j < self.leased@.len() && i != j implies (
        #[trigger] self.leased@[i]) != (#[trigger] self.leased@[j]) by {
            let i0 = if i < idx {
                i
            } else {
                i + 1
            };
            let j0 = if j < idx {
                j
            } else {
                j + 1
            };
            assert(self.leased@[i] == prev.leased@[i0]);
            assert(self.leased@[j] == prev.leased@[j0]);
        }
        assert forall|i: int| 0 <= i < self.leased@.len() implies (#[trigger] self.leased@[i])
            < self.next_id by {
            let i0 = if i < idx {
                i
            } else {
                i + 1
            };
            assert(self.leased@[i] == prev.leased@[i0]);
        }
        assert forall|i: int, j: int|
            0 <= i < self.idle@.len() && 0 <= j < self.idle@.len() && i != j implies (
        #[trigger] self.idle@[i]).id != (#[trigger] self.idle@[j]).id by {
            if i < prev.idle@.len() && j < prev.idle@.len() {
            } else if i < prev.idle@.len() {
                assert(self.idle@[j].id == id);
                assert(prev.idle@[i].id != prev.leased@[idx]);
            } else {
                assert(self.idle@[i].id == id);
                assert(prev.idle@[j].id != prev.leased@[idx]);
            }
        }
        assert forall|i: int, j: int|
            0 <= i < self.idle@.len() && 0 <= j < self.leased@.len() implies (
        #[trigger] self.idle@[i]).id != (#[trigger] self.leased@[j]) by {
            let j0 = if j < idx {
                j
            } else {
                j + 1
            };
            assert(self.leased@[j] == prev.leased@[j0]);
            if i < prev.idle@.len() {
            } else {
                assert(self.idle@[i].id == id);
            }
        }
        assert forall|i: int| 0 <= i < self.idle@.len() implies (#[trigger] self.idle@[i]).id
            < self.next_id by {
            if i < prev.idle@.len() {
            } else {
                assert(self.idle@[i].id == id);
                assert(prev.leased@[idx] < prev.next_id);
            }
        }
    }

    /// Reports the outcome of the reset a release asked for: a healthy
    /// connection goes back to the pool as an idle-state release would;
    /// a failed reset discards the connection, and when an acquirer is
    /// waiting, a fresh connection is opened for it under a new identity.
    pub fn release_after_reset(&mut self, id: u64, reset_ok: bool, now_ms: u64) -> (d:
        ReleaseDecision)
        requires
            old(self).wf(),
            old(self).holds_lease(id),
            old(self).next_id < u64::MAX,
        ensures
            final(self).wf(),
            final(self).max_connections == old(self).max_connections,
            ({
                match d {
                    ReleaseDecision::HandedToWaiter { ticket } => {
                        &&& reset_ok
                        &&& old(self).waiters@.len() > 0
                        &&& ticket == old(self).waiters@[0]
                        &&& final(self).waiters@ == old(self).waiters@.drop_first()
                        &&& final(self).leased == old(self).leased
                        &&& final(self).idle == old(self).idle
                    },
                    ReleaseDecision::Returned => {
                        &&& reset_ok
                        &&& old(self).waiters@.len() == 0
                        &&& !final(self).holds_lease(id)
                        &&& final(self).idle@.len() == old(self).idle@.len() + 1
                        &&& final(self).idle@.last() == (PoolEntry { id, returned_at_ms: now_ms })
                        &&& final(self).leased@.len() == old(self).leased@.len() - 1
                        &&& final(self).waiters == old(self).waiters
                    },
                    ReleaseDecision::Discarded => {
                        &&& !reset_ok
                        &&& old(self).waiters@.len() == 0
                        &&& !final(self).holds_lease(id)
                        &&& final(self).idle == old(self).idle
                        &&& final(self).leased@.len() == old(self).leased@.len() - 1
                        &&& final(self).waiters == old(self).waiters
                    },
                    ReleaseDecision::ReplacedForWaiter { ticket, id: fresh } => {
                        &&& !reset_ok
                        &&& old(self).waiters@.len() > 0
                        &&& ticket == old(self).waiters@[0]
                        &&& fresh == old(self).next_id
                        &&& final(self).waiters@ == old(self).waiters@.drop_first()
                        &&& !final(self).holds_lease(id)
                        &&& final(self).holds_lease(fresh)
                        &&& final(self).leased@.len() == old(self).leased@.len()
                        &&& final(self).idle == old(self).idle
                    },
                    ReleaseDecision::ResetFirst => false,
                }
            }),
    {
        if reset_ok {
            if self.waiters.len() > 0 {
                let ticket = self.waiters.remove(0);
                proof {
                    assert(self.waiters@ =~= old(self).waiters@.drop_first());
                }
                ReleaseDecision::HandedToWaiter { ticket }
            } else {
                let idx = self.find_lease(id);
                self.leased.remove(idx);
                self.idle.push(PoolEntry { id, returned_at_ms: now_ms });
                proof {
                    self.lemma_after_return(*old(self), idx as int, id, now_ms);
                }
                ReleaseDecision::Returned
            }
        } else {
            let idx = self.find_lease(id);
            self.leased.remove(idx);
            let ghost mid = *self;
            proof {
                lemma_leased_remove(*old(self), *self, idx as int, id);
            }
            if self.waiters.len() > 0 {
                let ticket = self.waiters.remove(0);
                proof {
                    assert(self.waiters@ =~= old(self).waiters@.drop_first());
                }
                let fresh = self.next_id;
                self.next_id = self.next_id + 1;
                self.leased.push(fresh);
                proof {
                    assert forall|i: int, j: int|
                        0 <= i < self.leased@.len() && 0 <= j < self.leased@.len() && i != j
                        implies (#[trigger] self.leased@[i]) != (#[trigger] self.leased@[j]) by {
                        if i == self.leased@.len() - 1 {
                            assert(self.leased@[j] == mid.leased@[j]);
                        } else if j == self.leased@.len() - 1 {
                            assert(self.leased@[i] == mid.leased@[i]);
                        }
                    }
                    assert(!self.holds_lease(id)) by {
                        if self.leased@.contains(id) {
                            let k = choose|k: int|
                                0 <= k < self.leased@.len() && self.leased@[k] == id;
                            if k < self.leased@.len() - 1 {
                                assert(mid.leased@[k] == id);
                                assert(mid.holds_lease(id));
                            }
                        }
                    }
                    assert(self.holds_lease(self.leased@.last())) by {
                        assert(self.leased@.contains(self.leased@.last()));
                    }
                }
                ReleaseDecision::ReplacedForWaiter { ticket, id: fresh }
            } else {
                ReleaseDecision::Discarded
            }
        }
    }
}

impl Pool {
    /// Begins shutdown: drains the idle queue and hands back the drained
    /// identities for the caller to close. Leases still out are closed by
    /// their own releases; the caller stops taking new acquirers.
    pub fn shutdown(&mut self) -> (to_close: Vec<u64>)
        requires
            old(self).wf(),
        ensures
            final(self).wf(),
            final(self).idle@.len() == 0,
            final(self).leased == old(self).leased,
            final(self).max_connections == old(self).max_connections,
            to_close@ == idle_ids(old(self).idle@),
    {
        let mut to_close: Vec<u64> = Vec::new();
        let n = self.idle.len();
        let mut i: usize = 0;
        while i < n
            invariant
                n == self.idle@.len(),
                i <= n,
                self.idle == old(self).idle,
                self.leased == old(self).leased,
                self.waiters == old(self).waiters,
                self.next_id == old(self).next_id,
                self.max_connections == old(self).max_connections,
                to_close@ == idle_ids(old(self).idle@).subrange(0, i as int),
            decreases n - i,
        {
            to_close.push(self.idle[i].id);
            proof {
                assert(to_close@ =~= idle_ids(old(self).idle@).subrange(0, i + 1));
            }
            i = i + 1;
        }
        self.idle = Vec::new();
        proof {
            assert(to_close@ =~= idle_ids(old(self).idle@));
        }
        to_close
    }
}

/// Removing one leased identity keeps the invariant and drops the lease.
proof fn lemma_leased_remove(prev: Pool, cur: Pool, idx: int, id: u64)
    requires
        prev.wf(),
        0 <= idx < prev.leased@.len(),
        prev.leased@[idx] == id,
        cur.max_connections == prev.max_connections,
        cur.next_id == prev.next_id,
        cur.idle == prev.idle,
        cur.waiters == prev.waiters,
        cur.leased@ == prev.leased@.remove(idx),
    ensures
        cur.wf(),
        !cur.holds_lease(id),
        !idle_ids(cur.idle@).contains(id),
{
    assert forall|i: int| 0 <= i < cur.leased@.len() implies (#[trigger] cur.leased@[i]) != id by {
        if i < idx {
            assert(cur.leased@[i] == prev.leased@[i]);
        } else {
            assert(cur.leased@[i] == prev.leased@[i + 1]);
        }
    }
    assert(!cur.holds_lease(id)) by {
        if cur.leased@.contains(id) {
            let k = choose|k: int| 0 <= k < cur.leased@.len() && cur.leased@[k] == id;
            assert(cur.leased@[k] == id);
        }
    }
    assert forall|i: int, j: int|
        0 <= i < cur.leased@.len() && 0 <= j < cur.leased@.len() && i != j implies (
    #[trigger] cur.leased@[i]) != (#[trigger] cur.leased@[j]) by {
        let i0 = if i < idx {
            i
        } else {
            i + 1
        };
        let j0 = if j < idx {
            j
        } else {
            j + 1
        };
        assert(cur.leased@[i] == prev.leased@[i0]);
        assert(cur.leased@[j] == prev.leased@[j0]);
    }
    assert forall|i: int| 0 <= i < cur.leased@.len() implies (#[trigger] cur.leased@[i])
        < cur.next_id by {
        let i0 = if i < idx {
            i
        } else {
            i + 1
        };
        assert(cur.leased@[i] == prev.leased@[i0]);
    }
    assert forall|i: int, j: int|
        0 <= i < cur.idle@.len() && 0 <= j < cur.leased@.len() implies (#[trigger] cur.idle@[i]).id
        != (#[trigger] cur.leased@[j]) by {
        let j0 = if j < idx {
            j
        } else {
            j + 1
        };
        assert(cur.leased@[j] == prev.leased@[j0]);
    }
    assert(!idle_ids(cur.idle@).contains(id)) by {
        if idle_ids(cur.idle@).contains(id) {
            let k = choose|k: int|
                0 <= k < idle_ids(cur.idle@).len() && idle_ids(cur.idle@)[k] == id;
            assert(cur.idle@[k].id == id);
            assert(prev.idle@[k].id != prev.leased@[idx]);
        }
    }
}

/// The pool bound: however the pool is driven, leased plus idle
/// connections never exceed the configured maximum.
pub proof fn lemma_pool_bounded(p: Pool)
    requires
        p.wf(),
    ensures
        p.leased@.len() + p.idle@.len() <= p.max_connections,
{
}

/// Exclusivity: no identity is leased to two acquirers, and no leased
/// identity sits in the idle queue.
pub proof fn lemma_pool_exclusive(p: Pool)
    requires
        p.wf(),
    ensures
        forall|i: int, j: int|
            0 <= i < p.leased@.len() && 0 <= j < p.leased@.len() && i != j ==> (
            #[trigger] p.leased@[i]) != (#[trigger] p.leased@[j]),
        forall|i: int, j: int|
            0 <= i < p.idle@.len() && 0 <= j < p.leased@.len() ==> (#[trigger] p.idle@[i]).id != (
            #[trigger] p.leased@[j]),
{
}

} // verus!
