//! Bookkeeping of the worker pool.
//!
//! The pool owner tracks every submitted task id until its completion
//! signal arrives, and a FIFO queue of the ids not yet handed to a
//! worker.  Workers pull from the front of the queue; a completion
//! signal removes its id from the pending set whatever the task's
//! outcome was.  On shutdown the queued-but-unstarted tasks are
//! discarded while in-flight ones finish; the wait reports failure
//! naming whatever is still pending.

use vstd::prelude::*;

verus! {

/// Relies on `uuid::Uuid::new_v4`: a freshly generated random task id.
/// Nothing is assumed of the value; duplicates are handled by the
/// caller.
#[verifier::external_body]
fn fresh_task_id() -> u128 {
    uuid::Uuid::new_v4().as_u128()
}

/// Whether `v` holds `id`.
fn contains_id(v: &Vec<u128>, id: u128) -> (r: bool)
    ensures
        r == v@.contains(id),
{
    let mut i: usize = 0;
    while i < v.len()
        invariant
            i <= v@.len(),
            forall|j: int| 0 <= j < i ==> v@[j] != id,
        decreases v@.len() - i,
    {
        if v[i] == id {
            return true;
        }
        i = i + 1;
    }
    false
}

/// The index of the first occurrence of `id` in `v`.
fn find_id(v: &Vec<u128>, id: u128) -> (r: Option<usize>)
    ensures
        match r {
            Some(i) => i < v@.len() && v@[i as int] == id,
            None => !v@.contains(id),
        },
{
    let mut i: usize = 0;
    while i < v.len()
        invariant
            i <= v@.len(),
            forall|j: int| 0 <= j < i ==> v@[j] != id,
        decreases v@.len() - i,
    {
        if v[i] == id {
            return Some(i);
        }
        i = i + 1;
    }
    None
}

/// Removing the element at a position of a duplicate-free sequence
/// removes exactly that value from its set of elements.
proof fn lemma_remove_at(s: Seq<u128>, i: int)
    requires
        0 <= i < s.len(),
        s.no_duplicates(),
    ensures
        s.remove(i).no_duplicates(),
        !s.remove(i).contains(s[i]),
        s.remove(i).to_set() == s.to_set().remove(s[i]),
        forall|x: u128| x != s[i] ==> s.remove(i).contains(x) == s.contains(x),
{
    let r = s.remove(i);
    s.remove_ensures(i);
    assert forall|x: u128| r.contains(x) implies (s.contains(x) && x != s[i]) by {
        let k = choose|k: int| 0 <= k < r.len() && r[k] == x;
        if k < i {
            assert(s[k] == x);
            assert(x != s[i]);
        } else {
            assert(s[k + 1] == x);
            assert(x != s[i]);
        }
    }
    assert forall|x: u128| s.contains(x) && x != s[i] implies r.contains(x) by {
        let k = choose|k: int| 0 <= k < s.len() && s[k] == x;
        if k < i {
            assert(r[k] == x);
        } else {
            assert(k > i);
            assert(r[k - 1] == x);
        }
    }
    assert forall|a: int, b: int|
        0 <= a < r.len() && 0 <= b < r.len() && a != b implies r[a] != r[b] by {
        let a1: int = if a < i {
            a
        } else {
            a + 1
        };
        let b1: int = if b < i {
            b
        } else {
            b + 1
        };
        assert(r[a] == s[a1]);
        assert(r[b] == s[b1]);
    }
    assert(!r.contains(s[i]));
    assert(r.to_set() =~= s.to_set().remove(s[i]));
}

/// Pushing a value a duplicate-free sequence does not hold keeps it
/// duplicate-free and adds exactly that value to its elements.
proof fn lemma_push_fresh(s: Seq<u128>, id: u128)
    requires
        s.no_duplicates(),
        !s.contains(id),
    ensures
        s.push(id).no_duplicates(),
        forall|x: u128| s.push(id).contains(x) == (s.contains(x) || x == id),
{
    let t = s.push(id);
    assert forall|a: int, b: int|
        0 <= a < t.len() && 0 <= b < t.len() && a != b implies t[a] != t[b] by {
        if a < s.len() && b < s.len() {
        } else if a == s.len() {
            assert(t[a] == id);
            assert(t[b] == s[b]);
            assert(s.contains(s[b]));
        } else {
            assert(b == s.len());
            assert(t[b] == id);
            assert(t[a] == s[a]);
            assert(s.contains(s[a]));
        }
    }
    assert forall|x: u128| t.contains(x) == (s.contains(x) || x == id) by {
        if t.contains(x) {
            let k = choose|k: int| 0 <= k < t.len() && t[k] == x;
            if k < s.len() {
                assert(s[k] == x);
            }
        }
        if s.contains(x) {
            let k = choose|k: int| 0 <= k < s.len() && s[k] == x;
            assert(t[k] == x);
        }
        if x == id {
            assert(t[s.len() as int] == x);
        }
    }
}

/// The owner-side state of the pool: which ids are pending (submitted,
/// completion signal not yet received) and which are queued (submitted,
/// not yet handed to a worker).
pub struct PoolState {
    pending: Vec<u128>,
    queued: Vec<u128>,
}

impl PoolState {
    /// The ids submitted and not yet completed.
    pub closed spec fn pending_ids(self) -> Seq<u128> {
        self.pending@
    }

    /// The ids submitted and not yet handed to a worker, oldest first.
    pub closed spec fn queued_ids(self) -> Seq<u128> {
        self.queued@
    }

    /// The state's invariant: ids are unique, and everything queued is
    /// still pending.
    pub closed spec fn wf(self) -> bool {
        self.pending@.no_duplicates() && self.queued@.no_duplicates() && (forall|i: int|
            0 <= i < self.queued@.len() ==> self.pending@.contains(#[trigger] self.queued@[i]))
    }

    /// A pool with nothing submitted.
    pub fn new() -> (s: PoolState)
        ensures
            s.wf(),
            s.pending_ids() == Seq::<u128>::empty(),
            s.queued_ids() == Seq::<u128>::empty(),
    {
        let s = PoolState { pending: Vec::new(), queued: Vec::new() };
        proof {
            assert(s.pending@ =~= Seq::<u128>::empty());
            assert(s.queued@ =~= Seq::<u128>::empty());
        }
        s
    }

    /// Submits a task under `id`: it becomes pending and is queued,
    /// unless the id is already pending, in which case nothing changes.
    pub fn submit(&mut self, id: u128) -> (added: bool)
        requires
            old(self).wf(),
        ensures
            final(self).wf(),
            added == !old(self).pending_ids().contains(id),
            added ==> final(self).pending_ids() == old(self).pending_ids().push(id) && final(self).queued_ids() == old(self).queued_ids().push(id),
            !added ==> final(self).pending_ids() == old(self).pending_ids() && final(self).queued_ids() == old(self).queued_ids(),
    {
        if contains_id(&self.pending, id) {
            return false;
        }
        proof {
            // Everything queued is pending, so the fresh id is not queued
            // either and both pushes keep the ids unique.
            if self.queued@.contains(id) {
                let k = choose|k: int| 0 <= k < self.queued@.len() && self.queued@[k] == id;
                assert(self.pending@.contains(id));
            }
            lemma_push_fresh(self.pending@, id);
            lemma_push_fresh(self.queued@, id);
        }
        let ghost p0 = self.pending@;
        let ghost q0 = self.queued@;
        self.pending.push(id);
        self.queued.push(id);
        proof {
            assert forall|i: int|
                0 <= i < self.queued@.len() implies self.pending@.contains(
                #[trigger] self.queued@[i],
            ) by {
                if i < q0.len() {
                    assert(q0.contains(q0[i]));
                    assert(p0.contains(self.queued@[i]));
                } else {
                    assert(self.queued@[i] == id);
                }
            }
        }
        true
    }

    /// Generates a fresh random id and submits a task under it.  The id
    /// is returned along with whether it was fresh indeed; a colliding
    /// id leaves the pool unchanged.
    pub fn submit_fresh(&mut self) -> (r: (u128, bool))
        requires
            old(self).wf(),
        ensures
            final(self).wf(),
            r.1 == !old(self).pending_ids().contains(r.0),
            r.1 ==> final(self).pending_ids() == old(self).pending_ids().push(r.0) && final(self).queued_ids() == old(self).queued_ids().push(r.0),
            !r.1 ==> final(self).pending_ids() == old(self).pending_ids() && final(self).queued_ids() == old(self).queued_ids(),
    {
        let id = fresh_task_id();
        let added = self.submit(id);
        (id, added)
    }

    /// Hands the oldest queued task to a worker: its id leaves the queue
    /// but stays pending.
    pub fn start_next(&mut self) -> (r: Option<u128>)
        requires
            old(self).wf(),
        ensures
            final(self).wf(),
            final(self).pending_ids() == old(self).pending_ids(),
            old(self).queued_ids().len() == 0 ==> r is None && final(self).queued_ids() == old(self).queued_ids(),
            old(self).queued_ids().len() > 0 ==> r == Some(old(self).queued_ids()[0]) && final(self).queued_ids() == old(self).queued_ids().drop_first(),
    {
        if self.queued.len() == 0 {
            return None;
        }
        let id = self.queued.remove(0);
        proof {
            assert(old(self).queued@.remove(0) =~= old(self).queued@.drop_first());
        }
        Some(id)
    }

    /// Receives a completion signal: the id leaves the pending set (and
    /// the queue, were it still there).  A signal for an id that is not
    /// pending changes nothing and is reported as not removed.
    pub fn complete(&mut self, id: u128) -> (removed: bool)
        requires
            old(self).wf(),
        ensures
            final(self).wf(),
            removed == old(self).pending_ids().contains(id),
            removed ==> final(self).pending_ids().to_set() == old(self).pending_ids().to_set().remove(id) && final(self).pending_ids().len() == old(self).pending_ids().len() - 1 && !final(self).pending_ids().contains(id),
            removed ==> final(self).queued_ids().to_set() == old(self).queued_ids().to_set().remove(id),
            !removed ==> final(self).pending_ids() == old(self).pending_ids() && final(self).queued_ids() == old(self).queued_ids(),
    {
        let found = find_id(&self.pending, id);
        match found {
            None => false,
            Some(i) => {
                proof {
                    lemma_remove_at(self.pending@, i as int);
                }
                self.pending.remove(i);
                match find_id(&self.queued, id) {
                    None => {
                        proof {
                            // Whatever is queued is some pending id other
                            // than the removed one.
                            assert forall|j: int|
                                0 <= j < self.queued@.len() implies self.pending@.contains(
                                #[trigger] self.queued@[j],
                            ) by {
                                assert(old(self).pending@.contains(self.queued@[j]));
                                assert(self.queued@[j] != id);
                            }
                        }
                    },
                    Some(k) => {
                        proof {
                            lemma_remove_at(self.queued@, k as int);
                        }
                        self.queued.remove(k);
                        proof {
                            assert forall|j: int|
                                0 <= j < self.queued@.len() implies self.pending@.contains(
                                #[trigger] self.queued@[j],
                            ) by {
                                assert(old(self).queued@.remove(k as int).contains(
                                    self.queued@[j],
                                ));
                                assert(old(self).queued@.contains(self.queued@[j]));
                                assert(old(self).pending@.contains(self.queued@[j]));
                                assert(self.queued@[j] != id);
                            }
                        }
                    },
                }
                true
            },
        }
    }

    /// Discards every queued-but-unstarted task: the queue empties, but
    /// the discarded ids stay pending, so the wait will name them.
    pub fn discard_unstarted(&mut self) -> (dropped: Vec<u128>)
        requires
            old(self).wf(),
        ensures
            final(self).wf(),
            final(self).pending_ids() == old(self).pending_ids(),
            final(self).queued_ids() == Seq::<u128>::empty(),
            dropped@ == old(self).queued_ids(),
    {
        let mut dropped: Vec<u128> = Vec::new();
        let n = self.queued.len();
        let mut i: usize = 0;
        while i < n
            invariant
                n == self.queued@.len(),
                i <= n,
                self == old(self),
                dropped@ == self.queued@.subrange(0, i as int),
            decreases n - i,
        {
            dropped.push(self.queued[i]);
            proof {
                assert(dropped@ =~= self.queued@.subrange(0, i + 1 as int));
            }
            i = i + 1;
        }
        proof {
            assert(dropped@ =~= old(self).queued@);
        }
        self.queued = Vec::new();
        proof {
            assert(self.queued@ =~= Seq::<u128>::empty());
        }
        dropped
    }

    /// Whether the owner should keep polling for completions: only while
    /// no shutdown was signalled and tasks are still pending.
    pub fn should_keep_waiting(&self, has_quit: bool) -> (r: bool)
        ensures
            r == (!has_quit && self.pending_ids().len() > 0),
    {
        !has_quit && self.pending.len() > 0
    }

    /// What the wait reports: success when nothing is pending, else
    /// failure naming every task that never completed.
    pub fn wait_outcome(&self) -> (r: Result<(), Vec<u128>>)
        ensures
            r is Ok <==> self.pending_ids().len() == 0,
            r matches Err(remaining) ==> remaining@ == self.pending_ids(),
    {
        if self.pending.len() == 0 {
            return Ok(());
        }
        let mut remaining: Vec<u128> = Vec::new();
        let n = self.pending.len();
        let mut i: usize = 0;
        while i < n
            invariant
                n == self.pending@.len(),
                i <= n,
                remaining@ == self.pending@.subrange(0, i as int),
            decreases n - i,
        {
            remaining.push(self.pending[i]);
            proof {
                assert(remaining@ =~= self.pending@.subrange(0, i + 1 as int));
            }
            i = i + 1;
        }
        proof {
            assert(remaining@ =~= self.pending@);
        }
        Err(remaining)
    }

    /// How many tasks are pending.
    pub fn pending_count(&self) -> (n: usize)
        ensures
            n == self.pending_ids().len(),
    {
        self.pending.len()
    }
}

/// The pending set after a sequence of completion signals.
pub open spec fn complete_all_set(p: Set<u128>, ids: Seq<u128>) -> Set<u128>
    decreases ids.len(),
{
    if ids.len() == 0 {
        p
    } else {
        complete_all_set(p.remove(ids[0]), ids.drop_first())
    }
}

/// However many tasks were submitted under distinct ids, one completion
/// signal per id drains the pool: every signal finds its task still
/// pending — so none is counted twice — and afterwards nothing is
/// pending, in whatever order the signals arrive.
pub proof fn lemma_pool_completes_all(p: Set<u128>, ids: Seq<u128>)
    requires
        ids.no_duplicates(),
        ids.to_set() == p,
    ensures
        complete_all_set(p, ids) == Set::<u128>::empty(),
        forall|i: int|
            0 <= i < ids.len() ==> complete_all_set(p, #[trigger] ids.take(i)).contains(ids[i]),
    decreases ids.len(),
{
    if ids.len() == 0 {
        assert(p =~= Set::<u128>::empty());
    } else {
        let p1 = p.remove(ids[0]);
        let ids1 = ids.drop_first();
        assert(ids1.to_set() =~= p1) by {
            assert forall|x: u128| ids1.contains(x) implies p1.contains(x) by {
                let k = choose|k: int| 0 <= k < ids1.len() && ids1[k] == x;
                assert(ids[k + 1] == x);
                assert(x != ids[0]);
            }
            assert forall|x: u128| p1.contains(x) implies ids1.contains(x) by {
                assert(ids.contains(x) && x != ids[0]);
                let k = choose|k: int| 0 <= k < ids.len() && ids[k] == x;
                assert(k != 0);
                assert(ids1[k - 1] == x);
            }
        }
        lemma_pool_completes_all(p1, ids1);
        assert(complete_all_set(p, ids) == complete_all_set(p1, ids1));
        assert forall|i: int|
            0 <= i < ids.len() implies complete_all_set(p, #[trigger] ids.take(i)).contains(
            ids[i],
        ) by {
            if i == 0 {
                assert(ids.take(0).len() == 0);
                assert(complete_all_set(p, ids.take(0)) == p);
                assert(p.contains(ids[0]));
            } else {
                assert(ids.take(i)[0] == ids[0]);
                assert(ids.take(i).drop_first() =~= ids1.take(i - 1));
                assert(complete_all_set(p, ids.take(i)) == complete_all_set(
                    p1,
                    ids1.take(i - 1),
                ));
                assert(complete_all_set(p1, ids1.take(i - 1)).contains(ids1[i - 1]));
                assert(ids1[i - 1] == ids[i]);
            }
        }
    }
}

/// One shutdown signal discards the unstarted tasks but lets the
/// in-flight ones finish: once each in-flight task has signalled
/// completion, exactly the discarded tasks are still pending, and the
/// wait reports failure naming them.
pub proof fn lemma_shutdown_leaves_unstarted(
    p: Set<u128>,
    started: Seq<u128>,
    unstarted: Set<u128>,
)
    requires
        started.no_duplicates(),
        p == started.to_set().union(unstarted),
        forall|i: int| 0 <= i < started.len() ==> !unstarted.contains(#[trigger] started[i]),
    ensures
        complete_all_set(p, started) == unstarted,
    decreases started.len(),
{
    if started.len() == 0 {
        assert(p =~= unstarted);
    } else {
        let s1 = started.drop_first();
        let p1 = p.remove(started[0]);
        assert(p1 =~= s1.to_set().union(unstarted)) by {
            assert forall|x: u128| p1.contains(x) implies s1.to_set().union(unstarted).contains(
                x,
            ) by {
                assert(x != started[0]);
                if started.to_set().contains(x) {
                    let k = choose|k: int| 0 <= k < started.len() && started[k] == x;
                    assert(k != 0);
                    assert(s1[k - 1] == x);
                }
            }
            assert forall|x: u128| s1.to_set().union(unstarted).contains(x) implies p1.contains(
                x,
            ) by {
                if s1.to_set().contains(x) {
                    let k = choose|k: int| 0 <= k < s1.len() && s1[k] == x;
                    assert(started[k + 1] == x);
                    assert(x != started[0]);
                } else {
                    assert(unstarted.contains(x));
                    assert(x != started[0]);
                }
            }
        }
        assert forall|i: int| 0 <= i < s1.len() implies !unstarted.contains(#[trigger] s1[i]) by {
            assert(s1[i] == started[i + 1]);
        }
        lemma_shutdown_leaves_unstarted(p1, s1, unstarted);
        assert(complete_all_set(p, started) == complete_all_set(p1, s1));
    }
}

} // verus!
