//! Commit-deferred action queue.
//!
//! One transaction owns one [`DeferredQueue`]. Drop handling registers a
//! remote-delete action (a [`RemoteHandle`]) for the transaction-commit
//! event; at the end of the transaction the host resolves the queue with
//! the actual outcome and performs exactly the actions registered for that
//! outcome, each best-effort (a failing delete is discarded and never
//! suppresses another action, since every action is handed back
//! unconditionally). Resolving empties the queue entirely, so no action can
//! leak into a later transaction.

use vstd::prelude::*;

verus! {

/// The two transaction-boundary events an action can be bound to.
#[derive(Clone, Copy, PartialEq, Eq, Structural, Debug)]
pub enum TxEvent {
    Commit,
    Abort,
}

/// Identifies one remote index resource: the engine endpoint to talk to and
/// the name of the resource there. Owned by value, with no back-reference to
/// the catalog, so a deferred delete needs nothing alive in the catalog when
/// it finally runs.
pub struct RemoteHandle {
    pub endpoint: String,
    pub resource: String,
}

/// Mathematical model of a [`RemoteHandle`].
pub struct HandleModel {
    pub endpoint: Seq<char>,
    pub resource: Seq<char>,
}

impl View for RemoteHandle {
    type V = HandleModel;

    open spec fn view(&self) -> HandleModel {
        HandleModel { endpoint: self.endpoint@, resource: self.resource@ }
    }
}

impl DeepView for RemoteHandle {
    type V = HandleModel;

    open spec fn deep_view(&self) -> HandleModel {
        self.view()
    }
}

/// Mathematical model of a [`DeferredQueue`]: the actions registered for
/// each of the two events, in registration order.
pub struct QueueModel {
    pub commit: Seq<HandleModel>,
    pub abort: Seq<HandleModel>,
}

/// The model of a queue with nothing registered.
pub open spec fn empty_queue() -> QueueModel {
    QueueModel { commit: Seq::empty(), abort: Seq::empty() }
}

/// What registering one action for one event does to the queue model:
/// the action is appended to that event's list, the other list is untouched,
/// and nothing is ever deduplicated.
pub open spec fn register_spec(q: QueueModel, event: TxEvent, h: HandleModel) -> QueueModel {
    match event {
        TxEvent::Commit => QueueModel { commit: q.commit.push(h), abort: q.abort },
        TxEvent::Abort => QueueModel { commit: q.commit, abort: q.abort.push(h) },
    }
}

/// The actions due when the transaction resolves with `outcome`: exactly
/// those registered for that event, in registration order; actions
/// registered for the other event are never due.
pub open spec fn due_actions(q: QueueModel, outcome: TxEvent) -> Seq<HandleModel> {
    match outcome {
        TxEvent::Commit => q.commit,
        TxEvent::Abort => q.abort,
    }
}

/// The queue after a run of registrations, all for the same event.
pub open spec fn register_all(q: QueueModel, event: TxEvent, hs: Seq<HandleModel>) -> QueueModel
    decreases hs.len(),
{
    if hs.len() == 0 {
        q
    } else {
        register_spec(register_all(q, event, hs.drop_last()), event, hs.last())
    }
}

/// The per-transaction queue of deferred actions.
pub struct DeferredQueue {
    commit: Vec<RemoteHandle>,
    abort: Vec<RemoteHandle>,
}

impl View for DeferredQueue {
    type V = QueueModel;

    closed spec fn view(&self) -> QueueModel {
        QueueModel { commit: self.commit.deep_view(), abort: self.abort.deep_view() }
    }
}

impl DeferredQueue {
    /// A fresh queue for a newly opened transaction.
    pub fn new() -> (q: DeferredQueue)
        ensures
            q@ == empty_queue(),
    {
        let q = DeferredQueue { commit: Vec::new(), abort: Vec::new() };
        proof {
            assert(q@.commit =~= Seq::<HandleModel>::empty());
            assert(q@.abort =~= Seq::<HandleModel>::empty());
            assert(q@ == empty_queue());
        }
        q
    }

    /// Associates `handle`'s delete with `event` in the current transaction.
    /// Registration never fails and never deduplicates: the same handle
    /// registered twice yields two independent actions.
    pub fn register(&mut self, event: TxEvent, handle: RemoteHandle)
        ensures
            final(self)@ == register_spec(old(self)@, event, handle@),
    {
        match event {
            TxEvent::Commit => {
                self.commit.push(handle);
                proof {
                    assert(self.commit.deep_view() =~= old(self).commit.deep_view().push(
                        handle@,
                    ));
                }
            },
            TxEvent::Abort => {
                self.abort.push(handle);
                proof {
                    assert(self.abort.deep_view() =~= old(self).abort.deep_view().push(handle@));
                }
            },
        }
    }

    /// Resolves the transaction: hands back every action registered for
    /// `outcome` (each to be run once, best-effort, its failure discarded)
    /// and fully drains the queue, so actions bound to the other event never
    /// run and nothing leaks into a later transaction.
    pub fn resolve(&mut self, outcome: TxEvent) -> (actions: Vec<RemoteHandle>)
        ensures
            actions.deep_view() == due_actions(old(self)@, outcome),
            final(self)@ == empty_queue(),
    {
        let mut actions: Vec<RemoteHandle> = Vec::new();
        match outcome {
            TxEvent::Commit => {
                core::mem::swap(&mut actions, &mut self.commit);
                self.abort.clear();
            },
            TxEvent::Abort => {
                core::mem::swap(&mut actions, &mut self.abort);
                self.commit.clear();
            },
        }
        proof {
            assert(self.commit.deep_view() =~= Seq::<HandleModel>::empty());
            assert(self.abort.deep_view() =~= Seq::<HandleModel>::empty());
        }
        actions
    }
}

/// A run of registrations for one event leaves the other event's list
/// untouched and appends exactly the registered actions, in order.
pub proof fn lemma_register_all(q: QueueModel, event: TxEvent, hs: Seq<HandleModel>)
    ensures
        due_actions(register_all(q, event, hs), event) =~= due_actions(q, event) + hs,
        event == TxEvent::Commit ==> register_all(q, event, hs).abort == q.abort,
        event == TxEvent::Abort ==> register_all(q, event, hs).commit == q.commit,
    decreases hs.len(),
{
    if hs.len() == 0 {
        assert(due_actions(q, event) + hs =~= due_actions(q, event));
    } else {
        lemma_register_all(q, event, hs.drop_last());
        assert(due_actions(q, event) + hs.drop_last() + seq![hs.last()] =~= due_actions(q, event)
            + hs);
    }
}

/// Commit-gating: a transaction that registers any number of deferred
/// deletes and then aborts performs none of them, while one that commits
/// performs exactly the registered deletes, one invocation per registration.
pub proof fn lemma_commit_gating(hs: Seq<HandleModel>)
    ensures
        due_actions(register_all(empty_queue(), TxEvent::Commit, hs), TxEvent::Abort).len() == 0,
        due_actions(register_all(empty_queue(), TxEvent::Commit, hs), TxEvent::Commit) =~= hs,
{
    lemma_register_all(empty_queue(), TxEvent::Commit, hs);
    assert(Seq::<HandleModel>::empty() + hs =~= hs);
}

/// Re-registration is not deduplicated: registering the same handle twice
/// within one transaction yields two more independent commit actions, both
/// due on commit.
pub proof fn lemma_duplicate_registration(q: QueueModel, h: HandleModel)
    ensures
        ({
            let q2 = register_spec(register_spec(q, TxEvent::Commit, h), TxEvent::Commit, h);
            &&& due_actions(q2, TxEvent::Commit).len() == q.commit.len() + 2
            &&& due_actions(q2, TxEvent::Commit).to_multiset().count(h) == q.commit.to_multiset().count(h) + 2
            &&& due_actions(q2, TxEvent::Abort) == q.abort
        }),
{
    let q1 = register_spec(q, TxEvent::Commit, h);
    let q2 = register_spec(q1, TxEvent::Commit, h);
    q.commit.to_multiset_ensures();
    q1.commit.to_multiset_ensures();
}

} // verus!
