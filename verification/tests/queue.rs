use searchbridge::xact::{DeferredQueue, RemoteHandle, TxEvent};

fn handle(endpoint: &str, resource: &str) -> RemoteHandle {
    RemoteHandle { endpoint: endpoint.to_string(), resource: resource.to_string() }
}

#[test]
fn aborted_transaction_runs_nothing() {
    let mut q = DeferredQueue::new();
    q.register(TxEvent::Commit, handle("http://es:9200", "a"));
    q.register(TxEvent::Commit, handle("http://es:9200", "b"));
    q.register(TxEvent::Commit, handle("http://es:9200", "c"));
    let actions = q.resolve(TxEvent::Abort);
    assert!(actions.is_empty());
    // The queue was drained entirely: nothing leaks into a later outcome.
    let later = q.resolve(TxEvent::Commit);
    assert!(later.is_empty());
}

#[test]
fn committed_transaction_runs_each_registration_once() {
    let mut q = DeferredQueue::new();
    q.register(TxEvent::Commit, handle("http://es:9200", "a"));
    q.register(TxEvent::Commit, handle("http://es:9200", "b"));
    let actions = q.resolve(TxEvent::Commit);
    assert_eq!(actions.len(), 2);
    assert_eq!(actions[0].resource, "a");
    assert_eq!(actions[1].resource, "b");
    let later = q.resolve(TxEvent::Commit);
    assert!(later.is_empty());
}

#[test]
fn abort_actions_run_only_on_abort() {
    let mut q = DeferredQueue::new();
    q.register(TxEvent::Abort, handle("http://es:9200", "undo"));
    q.register(TxEvent::Commit, handle("http://es:9200", "done"));
    let actions = q.resolve(TxEvent::Abort);
    assert_eq!(actions.len(), 1);
    assert_eq!(actions[0].resource, "undo");
}

#[test]
fn duplicate_registration_is_not_deduplicated() {
    let mut q = DeferredQueue::new();
    q.register(TxEvent::Commit, handle("http://es:9200", "same"));
    q.register(TxEvent::Commit, handle("http://es:9200", "same"));
    let actions = q.resolve(TxEvent::Commit);
    assert_eq!(actions.len(), 2);
    assert_eq!(actions[0].resource, "same");
    assert_eq!(actions[1].resource, "same");
}

#[test]
fn empty_transaction_resolves_to_nothing() {
    let mut q = DeferredQueue::new();
    let actions = q.resolve(TxEvent::Commit);
    assert!(actions.is_empty());
}
