//! Bookkeeping of the dynamic-memory runs in progress: one run per key,
//! each with a cancellation flag and the id of the request it is waiting on.
use vstd::prelude::*;

use crate::abort_manager::AbortRegistry;
use crate::keys::{distinct, lemma_push_fresh, lemma_remove_distinct};
use crate::text::str_eq;

verus! {

/// Key, run number and awaited request of a run.
pub type RunView = (Seq<char>, nat, Option<Seq<char>>);

pub open spec fn opt_view(o: Option<String>) -> Option<Seq<char>> {
    match o {
        Some(s) => Some(s@),
        None => None,
    }
}

pub open spec fn run_keys(rs: Seq<RunView>) -> Seq<Seq<char>> {
    rs.map_values(|r: RunView| r.0)
}

/// The run registered under `k`.
pub open spec fn holds_key(rs: Seq<RunView>, k: Seq<char>, i: int) -> bool {
    0 <= i < rs.len() && rs[i].0 == k
}

pub open spec fn lookup(rs: Seq<RunView>, k: Seq<char>) -> Option<RunView> {
    let i = choose|i: int| holds_key(rs, k, i);
    if holds_key(rs, k, i) {
        Some(rs[i])
    } else {
        None
    }
}

pub proof fn lemma_lookup_at(rs: Seq<RunView>, i: int)
    requires
        distinct(run_keys(rs)),
        0 <= i < rs.len(),
    ensures
        lookup(rs, rs[i].0) == Some(rs[i]),
{
    let k = rs[i].0;
    assert(holds_key(rs, k, i));
    let j = choose|i: int| holds_key(rs, k, i);
    assert(lookup(rs, k) == Some(rs[j]));
    if j != i {
        assert(run_keys(rs)[i] == k);
        assert(run_keys(rs)[j] == k);
        if i < j {
            assert(run_keys(rs)[i] != run_keys(rs)[j]);
        } else {
            assert(run_keys(rs)[j] != run_keys(rs)[i]);
        }
    }
}

pub proof fn lemma_lookup_absent(rs: Seq<RunView>, k: Seq<char>)
    requires
        !run_keys(rs).contains(k),
    ensures
        lookup(rs, k) is None,
{
    let i = choose|i: int| holds_key(rs, k, i);
    if holds_key(rs, k, i) {
        assert(run_keys(rs)[i] == k);
    }
}

/// Looking a key up in terms of the key sequence.
pub proof fn lemma_lookup_cases(rs: Seq<RunView>, k: Seq<char>)
    requires
        distinct(run_keys(rs)),
    ensures
        run_keys(rs).contains(k) ==> exists|i: int|
            0 <= i < rs.len() && rs[i].0 == k && lookup(rs, k) == Some(#[trigger] rs[i]),
        !run_keys(rs).contains(k) ==> lookup(rs, k) is None,
{
    if run_keys(rs).contains(k) {
        let i = choose|i: int| 0 <= i < run_keys(rs).len() && run_keys(rs)[i] == k;
        lemma_lookup_at(rs, i);
    } else {
        lemma_lookup_absent(rs, k);
    }
}

/// A key's run after the run at `i` is replaced by one with the same key.
pub proof fn lemma_lookup_update(rs: Seq<RunView>, i: int, e: RunView, k: Seq<char>)
    requires
        distinct(run_keys(rs)),
        0 <= i < rs.len(),
        e.0 == rs[i].0,
    ensures
        run_keys(rs.update(i, e)) == run_keys(rs),
        lookup(rs.update(i, e), k) == if k == e.0 {
            Some(e)
        } else {
            lookup(rs, k)
        },
{
    let n = rs.update(i, e);
    assert(run_keys(n) =~= run_keys(rs));
    lemma_lookup_cases(rs, k);
    lemma_lookup_cases(n, k);
    if k == e.0 {
        lemma_lookup_at(n, i);
    } else if run_keys(rs).contains(k) {
        let j = choose|j: int| 0 <= j < rs.len() && rs[j].0 == k && lookup(rs, k) == Some(#[trigger] rs[j]);
        lemma_lookup_at(n, j);
    }
}

/// A key's run after the run at `i` is removed.
pub proof fn lemma_lookup_remove(rs: Seq<RunView>, i: int, k: Seq<char>)
    requires
        distinct(run_keys(rs)),
        0 <= i < rs.len(),
    ensures
        distinct(run_keys(rs.remove(i))),
        lookup(rs.remove(i), k) == if k == rs[i].0 {
            None
        } else {
            lookup(rs, k)
        },
{
    let n = rs.remove(i);
    assert(run_keys(n) =~= run_keys(rs).remove(i));
    lemma_remove_distinct(run_keys(rs), i);
    assert(run_keys(rs)[i] == rs[i].0);
    lemma_lookup_cases(rs, k);
    lemma_lookup_cases(n, k);
    if k != rs[i].0 && run_keys(rs).contains(k) {
        let j = choose|j: int| 0 <= j < rs.len() && rs[j].0 == k && lookup(rs, k) == Some(#[trigger] rs[j]);
        let j2 = if j < i {
            j
        } else {
            j - 1
        };
        assert(j != i);
        assert(n[j2] == rs[j]);
        lemma_lookup_at(n, j2);
    }
}

/// A key's run after a run with a new key is appended.
pub proof fn lemma_lookup_push(rs: Seq<RunView>, e: RunView, k: Seq<char>)
    requires
        distinct(run_keys(rs)),
        !run_keys(rs).contains(e.0),
    ensures
        distinct(run_keys(rs.push(e))),
        lookup(rs.push(e), k) == if k == e.0 {
            Some(e)
        } else {
            lookup(rs, k)
        },
{
    let n = rs.push(e);
    assert(run_keys(n) =~= run_keys(rs).push(e.0));
    lemma_push_fresh(run_keys(rs), e.0);
    lemma_lookup_cases(rs, k);
    lemma_lookup_cases(n, k);
    if k == e.0 {
        lemma_lookup_at(n, rs.len() as int);
    } else if run_keys(rs).contains(k) {
        let j = choose|j: int| 0 <= j < rs.len() && rs[j].0 == k && lookup(rs, k) == Some(#[trigger] rs[j]);
        assert(n[j] == rs[j]);
        lemma_lookup_at(n, j);
    }
}

/// The handle that a run checks to learn whether it was cancelled.
pub struct DynamicMemoryCancellationToken {
    run_id: usize,
}

struct RunState {
    key: String,
    run_id: usize,
    active_request_id: Option<String>,
}

spec fn run_view(r: RunState) -> RunView {
    (r.key@, r.run_id as nat, opt_view(r.active_request_id))
}

/// The runs in progress, and the cancellation flag of every run started.
pub struct DynamicMemoryRunManager {
    runs: Vec<RunState>,
    cancelled: Vec<bool>,
}

/// A started run: its key and its cancellation token.
pub struct DynamicMemoryRunGuard {
    key: String,
    token: DynamicMemoryCancellationToken,
}

impl DynamicMemoryCancellationToken {
    pub closed spec fn id(&self) -> nat {
        self.run_id as nat
    }

    pub fn is_cancelled(&self, manager: &DynamicMemoryRunManager) -> (r: bool)
        ensures
            r == manager.run_cancelled(self.id()),
    {
        if self.run_id < manager.cancelled.len() {
            manager.cancelled[self.run_id]
        } else {
            false
        }
    }
}

impl DynamicMemoryRunGuard {
    pub closed spec fn key(&self) -> Seq<char> {
        self.key@
    }

    pub closed spec fn token_id(&self) -> nat {
        self.token.id()
    }

    pub fn token(&self) -> (r: DynamicMemoryCancellationToken)
        ensures
            r.id() == self.token_id(),
    {
        DynamicMemoryCancellationToken { run_id: self.token.run_id }
    }

    /// Records the request the run now waits on.
    pub fn set_active_request_id(
        &self,
        manager: &mut DynamicMemoryRunManager,
        request_id: Option<String>,
    )
        requires
            old(manager).wf(),
        ensures
            final(manager).wf(),
            final(manager).run_count() == old(manager).run_count(),
            forall|id: nat| final(manager).run_cancelled(id) == old(manager).run_cancelled(id),
            forall|k: Seq<char>| #[trigger] final(manager).run(k) == if k == self.key() && old(
                manager,
            ).run(k) is Some {
                Some((k, old(manager).run(k).unwrap().1, opt_view(request_id)))
            } else {
                old(manager).run(k)
            },
    {
        manager.set_active_request_id(self.key.as_str(), request_id);
    }

    /// Ends the run: its key is no longer active.
    pub fn finish(self, manager: &mut DynamicMemoryRunManager)
        requires
            old(manager).wf(),
        ensures
            final(manager).wf(),
            final(manager).run_count() == old(manager).run_count(),
            forall|id: nat| final(manager).run_cancelled(id) == old(manager).run_cancelled(id),
            forall|k: Seq<char>| #[trigger] final(manager).run(k) == if k == self.key() {
                None
            } else {
                old(manager).run(k)
            },
    {
        manager.finish_run(self.key.as_str());
    }
}

impl DynamicMemoryRunManager {
    closed spec fn entries(&self) -> Seq<RunView> {
        self.runs@.map_values(|r: RunState| run_view(r))
    }

    /// The run in progress under `k`: its key, run number and awaited request.
    pub closed spec fn run(&self, k: Seq<char>) -> Option<RunView> {
        lookup(self.entries(), k)
    }

    /// How many runs were ever started.
    pub closed spec fn run_count(&self) -> nat {
        self.cancelled@.len()
    }

    /// Whether run number `id` was cancelled.
    pub closed spec fn run_cancelled(&self, id: nat) -> bool {
        id < self.cancelled@.len() && self.cancelled@[id as int]
    }

    pub closed spec fn wf(&self) -> bool {
        &&& distinct(run_keys(self.entries()))
        &&& forall|i: int| 0 <= i < self.runs@.len() ==> #[trigger] self.runs@[i].run_id < self.cancelled@.len()
    }

    pub fn new() -> (r: DynamicMemoryRunManager)
        ensures
            r.wf(),
            r.run_count() == 0,
            forall|k: Seq<char>| #[trigger] r.run(k) is None,
    {
        let r = DynamicMemoryRunManager { runs: Vec::new(), cancelled: Vec::new() };
        assert forall|k: Seq<char>| #[trigger] r.run(k) is None by {
            assert(r.entries() =~= Seq::<RunView>::empty());
            lemma_lookup_absent(r.entries(), k);
        }
        r
    }

    fn find(&self, key: &str) -> (r: Option<usize>)
        ensures
            match r {
                Some(i) => i < self.runs@.len() && self.entries()[i as int].0 == key@,
                None => !run_keys(self.entries()).contains(key@),
            },
    {
        let mut i: usize = 0;
        while i < self.runs.len()
            invariant
                i <= self.runs@.len(),
                forall|j: int| 0 <= j < i ==> self.runs@[j].key@ != key@,
            decreases self.runs@.len() - i,
        {
            if str_eq(self.runs[i].key.as_str(), key) {
                return Some(i);
            }
            i += 1;
        }
        assert forall|j: int| 0 <= j < run_keys(self.entries()).len() implies run_keys(
            self.entries(),
        )[j] != key@ by {
            assert(self.runs@[j].key@ != key@);
        }
        None
    }

    /// Starts a run under `key`, replacing any run registered under it; the
    /// new run gets the next run number and is not cancelled.
    pub fn start_run(&mut self, key: String) -> (r: DynamicMemoryRunGuard)
        requires
            old(self).wf(),
            old(self).run_count() < usize::MAX,
        ensures
            final(self).wf(),
            final(self).run_count() == old(self).run_count() + 1,
            !final(self).run_cancelled(old(self).run_count()),
            forall|id: nat| id < old(self).run_count() ==> final(self).run_cancelled(id) == old(self).run_cancelled(id),
            forall|k: Seq<char>| #[trigger] final(self).run(k) == if k == key@ {
                Some((key@, old(self).run_count(), None))
            } else {
                old(self).run(k)
            },
            r.key() == key@,
            r.token_id() == old(self).run_count(),
    {
        let id = self.cancelled.len();
        self.cancelled.push(false);
        let state = RunState { key: key.clone(), run_id: id, active_request_id: None };
        let ghost e = run_view(state);
        let ghost es = self.entries();
        match self.find(key.as_str()) {
            Some(i) => {
                self.runs.set(i, state);
                proof {
                    assert(self.entries() =~= es.update(i as int, e));
                    assert forall|k: Seq<char>| #[trigger] self.run(k) == if k == key@ {
                        Some((key@, id as nat, None))
                    } else {
                        old(self).run(k)
                    } by {
                        lemma_lookup_update(es, i as int, e, k);
                    }
                    lemma_lookup_update(es, i as int, e, key@);
                }
            },
            None => {
                self.runs.push(state);
                proof {
                    assert(self.entries() =~= es.push(e));
                    assert forall|k: Seq<char>| #[trigger] self.run(k) == if k == key@ {
                        Some((key@, id as nat, None))
                    } else {
                        old(self).run(k)
                    } by {
                        lemma_lookup_push(es, e, k);
                    }
                    lemma_lookup_push(es, e, key@);
                }
            },
        }
        assert forall|i: int| 0 <= i < self.runs@.len() implies #[trigger] self.runs@[i].run_id < self.cancelled@.len() by {
            if self.runs@[i].run_id != id {
                assert(old(self).runs@.contains(self.runs@[i]) || self.runs@[i] == state);
            }
        }
        DynamicMemoryRunGuard { key, token: DynamicMemoryCancellationToken { run_id: id } }
    }

    /// Cancels the run under `key` and aborts the request it was waiting on,
    /// if that request is still registered; a key without a run is an
    /// error.
    pub fn cancel_run(&mut self, abort_registry: &mut AbortRegistry, key: &str) -> (r: Result<(), String>)
        requires
            old(self).wf(),
            old(abort_registry).wf(),
        ensures
            final(self).wf(),
            final(abort_registry).wf(),
            r is Ok <==> old(self).run(key@) is Some,
            r matches Err(m) ==> m@ == "Dynamic memory run for "@ + key@ + " is not active"@,
            r is Ok ==> final(self).run_cancelled(old(self).run(key@).unwrap().1),
            forall|k: Seq<char>| #[trigger] final(abort_registry).registered(k) <==> (
                old(abort_registry).registered(k) && !(r is Ok && old(self).run(key@).unwrap().2
                    == Some(k))),
            final(self).run_count() == old(self).run_count(),
            forall|id: nat| (old(self).run(key@) is None || id != old(self).run(key@).unwrap().1)
                ==> final(self).run_cancelled(id) == old(self).run_cancelled(id),
            forall|k: Seq<char>| #[trigger] final(self).run(k) == old(self).run(k),
    {
        proof {
            lemma_lookup_cases(self.entries(), key@);
        }
        match self.find(key) {
            Some(i) => {
                proof {
                    lemma_lookup_at(self.entries(), i as int);
                }
                let id = self.runs[i].run_id;
                self.cancelled.set(id, true);
                match &self.runs[i].active_request_id {
                    Some(request_id) => {
                        let _ = abort_registry.abort(request_id.as_str());
                    },
                    None => {},
                }
                Ok(())
            },
            None => {
                let mut m = String::from_str("Dynamic memory run for ");
                m.append(key);
                m.append(" is not active");
                Err(m)
            },
        }
    }

    /// Records the request the run under `key` waits on; no run, no change.
    pub fn set_active_request_id(&mut self, key: &str, request_id: Option<String>)
        requires
            old(self).wf(),
        ensures
            final(self).wf(),
            final(self).run_count() == old(self).run_count(),
            forall|id: nat| final(self).run_cancelled(id) == old(self).run_cancelled(id),
            forall|k: Seq<char>| #[trigger] final(self).run(k) == if k == key@ && old(self).run(
                k,
            ) is Some {
                Some((k, old(self).run(k).unwrap().1, opt_view(request_id)))
            } else {
                old(self).run(k)
            },
    {
        let ghost es = self.entries();
        proof {
            lemma_lookup_cases(es, key@);
        }
        match self.find(key) {
            Some(i) => {
                proof {
                    lemma_lookup_at(es, i as int);
                }
                let state = RunState {
                    key: self.runs[i].key.clone(),
                    run_id: self.runs[i].run_id,
                    active_request_id: request_id,
                };
                let ghost e = run_view(state);
                let ghost old_runs = self.runs@;
                self.runs.set(i, state);
                proof {
                    assert(self.entries() =~= es.update(i as int, e));
                    assert forall|k: Seq<char>| #[trigger] self.run(k) == if k == key@ && old(
                        self,
                    ).run(k) is Some {
                        Some((k, old(self).run(k).unwrap().1, opt_view(request_id)))
                    } else {
                        old(self).run(k)
                    } by {
                        lemma_lookup_update(es, i as int, e, k);
                    }
                    lemma_lookup_update(es, i as int, e, key@);
                    assert forall|j: int| 0 <= j < self.runs@.len() implies #[trigger] self.runs@[j].run_id < self.cancelled@.len() by {
                        assert(self.runs@[j].run_id == old_runs[j].run_id);
                    }
                }
            },
            None => {
                assert forall|k: Seq<char>| #[trigger] self.run(k) == if k == key@ && old(
                    self,
                ).run(k) is Some {
                    Some((k, old(self).run(k).unwrap().1, opt_view(request_id)))
                } else {
                    old(self).run(k)
                } by {}
            },
        }
    }

    /// Forgets the run under `key`.
    pub fn finish_run(&mut self, key: &str)
        requires
            old(self).wf(),
        ensures
            final(self).wf(),
            final(self).run_count() == old(self).run_count(),
            forall|id: nat| final(self).run_cancelled(id) == old(self).run_cancelled(id),
            forall|k: Seq<char>| #[trigger] final(self).run(k) == if k == key@ {
                None
            } else {
                old(self).run(k)
            },
    {
        let ghost es = self.entries();
        proof {
            lemma_lookup_cases(es, key@);
        }
        match self.find(key) {
            Some(i) => {
                let ghost old_runs = self.runs@;
                let _ = self.runs.remove(i);
                proof {
                    assert(self.entries() =~= es.remove(i as int));
                    assert forall|k: Seq<char>| #[trigger] self.run(k) == if k == key@ {
                        None
                    } else {
                        old(self).run(k)
                    } by {
                        lemma_lookup_remove(es, i as int, k);
                    }
                    lemma_lookup_remove(es, i as int, key@);
                    assert forall|j: int| 0 <= j < self.runs@.len() implies #[trigger] self.runs@[j].run_id < self.cancelled@.len() by {
                        let j2 = if j < i { j } else { j + 1 };
                        assert(self.runs@[j] == old_runs[j2]);
                    }
                }
            },
            None => {},
        }
    }
}

} // verus!
