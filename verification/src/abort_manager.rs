//! The registry of in-flight requests that can be aborted.  Each registered
//! request holds the sending end of a one-shot channel; aborting sends on it.
use vstd::prelude::*;

use crate::keys::{distinct, lemma_push_fresh, lemma_remove_distinct};
use crate::text::str_eq;

verus! {

#[verifier::external_type_specification]
#[verifier::external_body]
#[verifier::reject_recursive_types(T)]
pub struct ExOneshotSender<T>(tokio::sync::oneshot::Sender<T>);

#[verifier::external_type_specification]
#[verifier::external_body]
#[verifier::reject_recursive_types(T)]
pub struct ExOneshotReceiver<T>(tokio::sync::oneshot::Receiver<T>);

#[verifier::external_type_specification]
#[verifier::external_body]
pub struct ExOneshotRecvError(tokio::sync::oneshot::error::RecvError);

/// Calls `tokio::sync::oneshot::channel`; nothing is stated of the two ends.
#[verifier::external_body]
fn oneshot_channel() -> (tokio::sync::oneshot::Sender<()>, tokio::sync::oneshot::Receiver<()>) {
    tokio::sync::oneshot::channel()
}

/// Calls `tokio::sync::oneshot::Sender::send` with `()` and drops its result
/// (the send fails only when the receiver is gone); nothing is stated.
#[verifier::external_body]
fn send_abort_signal(tx: tokio::sync::oneshot::Sender<()>) {
    let _ = tx.send(());
}

/// The sending end of one request's abort channel, used at most once.
pub struct AbortHandle {
    tx: Option<tokio::sync::oneshot::Sender<()>>,
}

impl AbortHandle {
    /// The handle can still signal.
    pub closed spec fn is_armed(&self) -> bool {
        self.tx is Some
    }

    pub fn new(tx: tokio::sync::oneshot::Sender<()>) -> (r: AbortHandle)
        ensures
            r.is_armed(),
    {
        AbortHandle { tx: Some(tx) }
    }

    /// Signals the request once; later calls do nothing.
    pub fn abort(&mut self)
        ensures
            !final(self).is_armed(),
    {
        let tx = self.tx.take();
        if let Some(tx) = tx {
            send_abort_signal(tx);
        }
    }
}

/// The requests that can currently be aborted, each under its id.
pub struct AbortRegistry {
    entries: Vec<(String, AbortHandle)>,
}

pub open spec fn entry_keys(es: Seq<(String, AbortHandle)>) -> Seq<Seq<char>> {
    es.map_values(|e: (String, AbortHandle)| e.0@)
}

impl AbortRegistry {
    /// The ids of the registered requests.
    pub closed spec fn ids(&self) -> Seq<Seq<char>> {
        entry_keys(self.entries@)
    }

    /// No id is registered twice.
    pub closed spec fn wf(&self) -> bool {
        distinct(self.ids())
    }

    pub open spec fn registered(&self, id: Seq<char>) -> bool {
        self.ids().contains(id)
    }

    pub fn new() -> (r: AbortRegistry)
        ensures
            r.wf(),
            forall|id: Seq<char>| !r.registered(id),
    {
        let r = AbortRegistry { entries: Vec::new() };
        assert(r.ids() =~= Seq::<Seq<char>>::empty());
        r
    }

    fn find(&self, id: &str) -> (r: Option<usize>)
        ensures
            match r {
                Some(i) => i < self.entries@.len() && self.ids()[i as int] == id@,
                None => !self.ids().contains(id@),
            },
    {
        let mut i: usize = 0;
        while i < self.entries.len()
            invariant
                i <= self.entries@.len(),
                forall|j: int| 0 <= j < i ==> self.ids()[j] != id@,
            decreases self.entries@.len() - i,
        {
            if str_eq(self.entries[i].0.as_str(), id) {
                return Some(i);
            }
            i += 1;
        }
        assert forall|j: int| 0 <= j < self.ids().len() implies self.ids()[j] != id@ by {}
        None
    }

    /// Removes the entry at `i` and gives it back.
    fn take_entry(&mut self, i: usize) -> (r: (String, AbortHandle))
        requires
            old(self).wf(),
            i < old(self).entries@.len(),
        ensures
            final(self).wf(),
            final(self).entries@.len() == old(self).entries@.len() - 1,
            r == old(self).entries@[i as int],
            forall|k: Seq<char>| #[trigger] final(self).registered(k) <==> (old(self).registered(k)
                && k != old(self).ids()[i as int]),
    {
        let ghost ks = self.ids();
        let e = self.entries.remove(i);
        proof {
            assert(self.ids() =~= ks.remove(i as int));
            lemma_remove_distinct(ks, i as int);
        }
        e
    }

    /// Registers a request and gives the receiving end of its abort channel;
    /// a request already registered under the id is replaced.
    pub fn register(&mut self, request_id: String) -> (r: tokio::sync::oneshot::Receiver<()>)
        requires
            old(self).wf(),
        ensures
            final(self).wf(),
            forall|k: Seq<char>| #[trigger] final(self).registered(k) <==> (old(self).registered(k)
                || k == request_id@),
    {
        let (tx, rx) = oneshot_channel();
        let handle = AbortHandle::new(tx);
        match self.find(request_id.as_str()) {
            Some(i) => {
                let _ = self.take_entry(i);
            },
            None => {},
        }
        assert(!self.registered(request_id@));
        assert forall|k: Seq<char>| #[trigger] self.registered(k) <==> (old(self).registered(k)
            && k != request_id@) by {}
        let ghost mid = *self;
        let ghost ks = self.ids();
        let ghost key = request_id@;
        self.entries.push((request_id, handle));
        proof {
            assert(self.ids() =~= ks.push(key));
            lemma_push_fresh(ks, key);
            assert forall|k: Seq<char>| #[trigger] self.registered(k) <==> (old(self).registered(k)
                || k == request_id@) by {
                assert(ks.push(key).contains(k) <==> (ks.contains(k) || k == key));
                assert(mid.registered(k) <==> (old(self).registered(k) && k != key));
            }
        }
        rx
    }

    /// Aborts a registered request and forgets it; an unknown id is an error.
    pub fn abort(&mut self, request_id: &str) -> (r: Result<(), String>)
        requires
            old(self).wf(),
        ensures
            final(self).wf(),
            r is Ok <==> old(self).registered(request_id@),
            r matches Err(m) ==> m@ == "Request "@ + request_id@
                + " not found or already completed"@,
            forall|k: Seq<char>| #[trigger] final(self).registered(k) <==> (old(self).registered(k)
                && k != request_id@),
    {
        match self.find(request_id) {
            Some(i) => {
                let (_, mut handle) = self.take_entry(i);
                handle.abort();
                Ok(())
            },
            None => {
                let mut m = String::from_str("Request ");
                m.append(request_id);
                m.append(" not found or already completed");
                Err(m)
            },
        }
    }

    /// Forgets a request without signalling it.
    pub fn unregister(&mut self, request_id: &str)
        requires
            old(self).wf(),
        ensures
            final(self).wf(),
            forall|k: Seq<char>| #[trigger] final(self).registered(k) <==> (old(self).registered(k)
                && k != request_id@),
    {
        match self.find(request_id) {
            Some(i) => {
                let _ = self.take_entry(i);
            },
            None => {},
        }
    }

    /// Aborts every registered request and forgets them all.
    pub fn abort_all(&mut self)
        requires
            old(self).wf(),
        ensures
            final(self).wf(),
            forall|k: Seq<char>| !#[trigger] final(self).registered(k),
    {
        while self.entries.len() > 0
            invariant
                self.wf(),
            decreases self.entries@.len(),
        {
            let last = self.entries.len() - 1;
            let (_, mut handle) = self.take_entry(last);
            handle.abort();
        }
        assert(self.ids() =~= Seq::<Seq<char>>::empty());
    }

    pub fn is_registered(&self, request_id: &str) -> (r: bool)
        ensures
            r == self.registered(request_id@),
    {
        self.find(request_id).is_some()
    }
}

} // verus!
