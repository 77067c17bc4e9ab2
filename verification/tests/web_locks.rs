//! Web locks: the registry and a client of it.

use weblayer::error::ErrorKind;
use weblayer::web_locks::manager::{
    from_web_lock_mode, to_web_lock_mode, ClientAction, ClientEnvironment, LockManager, LockMode,
    LockOptions, QueryOutcome, RequestOutcome,
};
use weblayer::web_locks::registry::{
    Reply, WebLockMessage, WebLockMode, WebLockRegistry, WebLockResponse,
};

const ORIGIN: &str = "https://example.com";

fn request(client: &str, id: u64, name: &str, mode: WebLockMode) -> WebLockMessage {
    WebLockMessage::Request {
        origin: ORIGIN.to_owned(),
        client_id: client.to_owned(),
        request_id: id,
        name: name.to_owned(),
        mode,
        if_available: false,
        steal: false,
        pipeline_bound: true,
        result_handler: 7,
    }
}

fn release(client: &str, id: u64) -> WebLockMessage {
    WebLockMessage::Release {
        origin: ORIGIN.to_owned(),
        client_id: client.to_owned(),
        request_id: id,
    }
}

fn abort(client: &str, id: u64) -> WebLockMessage {
    WebLockMessage::Abort {
        origin: ORIGIN.to_owned(),
        client_id: client.to_owned(),
        request_id: id,
    }
}

/// The numbers of the requests, by what they were told.
fn told(replies: Vec<Reply>) -> Vec<(&'static str, u64)> {
    replies
        .into_iter()
        .map(|reply| match reply.response {
            WebLockResponse::Granted { request_id } => ("granted", request_id),
            WebLockResponse::Unavailable { request_id } => ("unavailable", request_id),
            WebLockResponse::Stolen { request_id } => ("stolen", request_id),
            WebLockResponse::Snapshot { request_id, .. } => ("snapshot", request_id),
        })
        .collect()
}

const SHARED: WebLockMode = WebLockMode::Shared;
const EXCLUSIVE: WebLockMode = WebLockMode::Exclusive;

#[test]
fn an_exclusive_lock_is_held_by_one() {
    let mut registry = WebLockRegistry::default();
    let mut send = |message| told(registry.handle_message(1, message));
    assert_eq!(send(request("a", 1, "lock", EXCLUSIVE)), vec![("granted", 1)]);
    assert_eq!(send(request("b", 2, "lock", EXCLUSIVE)), vec![]);
    assert_eq!(send(request("b", 3, "other", EXCLUSIVE)), vec![("granted", 3)]);
    assert_eq!(send(release("a", 1)), vec![("granted", 2)]);
    assert_eq!(send(release("a", 1)), vec![]);
}

#[test]
fn shared_locks_do_not_overtake_an_exclusive_request() {
    let mut registry = WebLockRegistry::default();
    let mut send = |message| told(registry.handle_message(1, message));
    assert_eq!(send(request("a", 1, "lock", SHARED)), vec![("granted", 1)]);
    assert_eq!(send(request("b", 2, "lock", SHARED)), vec![("granted", 2)]);
    assert_eq!(send(request("c", 3, "lock", EXCLUSIVE)), vec![]);
    assert_eq!(send(request("d", 4, "lock", SHARED)), vec![]);
    assert_eq!(send(request("e", 5, "lock", SHARED)), vec![]);
    assert_eq!(send(release("a", 1)), vec![]);
    assert_eq!(send(release("b", 2)), vec![("granted", 3)]);
    assert_eq!(send(release("c", 3)), vec![("granted", 4), ("granted", 5)]);
}

#[test]
fn an_aborted_request_lets_the_next_one_through() {
    let mut registry = WebLockRegistry::default();
    let mut send = |message| told(registry.handle_message(1, message));
    assert_eq!(send(request("a", 1, "lock", SHARED)), vec![("granted", 1)]);
    assert_eq!(send(request("b", 2, "lock", EXCLUSIVE)), vec![]);
    assert_eq!(send(request("c", 3, "lock", SHARED)), vec![]);
    assert_eq!(send(abort("b", 2)), vec![("granted", 3)]);
}

#[test]
fn a_request_that_cannot_wait_is_told_so() {
    let mut registry = WebLockRegistry::default();
    let mut send = |message| told(registry.handle_message(1, message));
    assert_eq!(send(request("a", 1, "lock", EXCLUSIVE)), vec![("granted", 1)]);
    let mut hurried = request("b", 2, "lock", SHARED);
    if let WebLockMessage::Request { if_available, .. } = &mut hurried {
        *if_available = true;
    }
    assert_eq!(send(hurried), vec![("unavailable", 2)]);
}

#[test]
fn a_thief_takes_the_lock_from_its_holders() {
    let mut registry = WebLockRegistry::default();
    let mut send = |message| told(registry.handle_message(1, message));
    assert_eq!(send(request("a", 1, "lock", EXCLUSIVE)), vec![("granted", 1)]);
    assert_eq!(send(request("b", 2, "lock", EXCLUSIVE)), vec![]);
    let mut thief = request("c", 3, "lock", EXCLUSIVE);
    if let WebLockMessage::Request { steal, .. } = &mut thief {
        *steal = true;
    }
    assert_eq!(send(thief), vec![("stolen", 1), ("granted", 3)]);
    assert_eq!(send(release("c", 3)), vec![("granted", 2)]);
}

#[test]
fn a_pipeline_takes_its_locks_with_it() {
    let mut registry = WebLockRegistry::default();
    assert_eq!(
        told(registry.handle_message(1, request("a", 1, "lock", EXCLUSIVE))),
        vec![("granted", 1)]
    );
    assert_eq!(told(registry.handle_message(2, request("b", 2, "lock", EXCLUSIVE))), vec![]);
    assert_eq!(told(registry.pipeline_exited(1)), vec![("granted", 2)]);
    assert_eq!(told(registry.pipeline_exited(3)), vec![]);
}

#[test]
fn a_snapshot_lists_what_is_held_and_what_waits() {
    let mut registry = WebLockRegistry::default();
    registry.handle_message(1, request("a", 1, "lock", EXCLUSIVE));
    registry.handle_message(1, request("b", 2, "lock", SHARED));
    let query = WebLockMessage::Query {
        origin: ORIGIN.to_owned(),
        request_id: 3,
        result_handler: 9,
    };
    let mut replies = registry.handle_message(1, query);
    assert_eq!(replies.len(), 1);
    let reply = replies.remove(0);
    assert_eq!(reply.result_handler, 9);
    match reply.response {
        WebLockResponse::Snapshot { request_id, held, pending } => {
            assert_eq!(request_id, 3);
            assert_eq!(held.len(), 1);
            assert_eq!((held[0].name.as_str(), held[0].client_id.as_str()), ("lock", "a"));
            assert_eq!(held[0].mode, EXCLUSIVE);
            assert_eq!(pending.len(), 1);
            assert_eq!(pending[0].client_id, "b");
            assert_eq!(pending[0].mode, SHARED);
        },
        other => panic!("expected a snapshot, got {other:?}"),
    }
}

fn environment() -> ClientEnvironment {
    ClientEnvironment {
        fully_active: true,
        origin_is_tuple: true,
        origin: ORIGIN.to_owned(),
        pipeline_bound: true,
        result_handler: 5,
    }
}

fn ask(client: &mut LockManager, name: &str, options: LockOptions) -> RequestOutcome {
    client.request_with_options(&environment(), name.to_owned(), options, 100, 200)
}

fn rejected(outcome: RequestOutcome) -> ErrorKind {
    match outcome {
        RequestOutcome::Reject(error) => error.kind,
        other => panic!("expected a rejection, got {other:?}"),
    }
}

#[test]
fn a_client_goes_from_request_to_release() {
    let mut client = LockManager::new();
    assert_eq!(client.client_id.len(), 32);
    assert!(client.client_id.chars().all(|c| matches!(c, '0'..='9' | 'a'..='f')));
    let mut registry = WebLockRegistry::default();

    let (id, message) = match ask(&mut client, "lock", LockOptions::empty()) {
        RequestOutcome::Send { request_id, message } => (request_id, message),
        other => panic!("expected a message, got {other:?}"),
    };
    assert!(client.request_sent(id, true).is_none());
    let reply = registry.handle_message(1, message).remove(0);
    assert_eq!(reply.result_handler, 5);
    match client.handle_response(&environment(), reply.response) {
        ClientAction::CallWithLock { request_id, callback, lock } => {
            assert_eq!((request_id, callback), (id, 100));
            assert_eq!(lock.name, "lock");
            assert_eq!(lock.mode, LockMode::Exclusive);
        },
        other => panic!("expected the callback, got {other:?}"),
    }
    let (message, promise) = client.waiting_promise_settled(&environment(), id).unwrap();
    assert_eq!(promise, 200);
    assert!(registry.handle_message(1, message).is_empty());
    assert!(client.waiting_promise_settled(&environment(), id).is_none());
}

#[test]
fn requests_that_make_no_sense_are_rejected() {
    let mut client = LockManager::new_inherited("client".to_owned());
    let options = LockOptions::empty();
    let mut inactive = environment();
    inactive.fully_active = false;
    let outcome = client.request_with_options(&inactive, "lock".to_owned(), options, 1, 2);
    assert_eq!(rejected(outcome), ErrorKind::InvalidState);
    let mut opaque = environment();
    opaque.origin_is_tuple = false;
    let outcome =
        client.request_with_options(&opaque, "lock".to_owned(), LockOptions::empty(), 1, 2);
    assert_eq!(rejected(outcome), ErrorKind::Security);
    assert_eq!(
        rejected(ask(&mut client, "-lock", LockOptions::empty())),
        ErrorKind::NotSupported
    );
    for options in [
        LockOptions { steal: true, if_available: true, ..LockOptions::empty() },
        LockOptions { steal: true, mode: LockMode::Shared, ..LockOptions::empty() },
        LockOptions { signal: Some(false), steal: true, ..LockOptions::empty() },
        LockOptions { signal: Some(false), if_available: true, ..LockOptions::empty() },
    ] {
        assert_eq!(rejected(ask(&mut client, "lock", options)), ErrorKind::NotSupported);
    }
    let aborted = LockOptions { signal: Some(true), ..LockOptions::empty() };
    assert!(matches!(ask(&mut client, "lock", aborted), RequestOutcome::RejectWithReason));
    assert!(client.pending.is_empty());
}

#[test]
fn an_aborted_request_gives_a_late_lock_back() {
    let mut client = LockManager::new_inherited("client".to_owned());
    let id = match ask(&mut client, "lock", LockOptions::empty()) {
        RequestOutcome::Send { request_id, .. } => request_id,
        other => panic!("expected a message, got {other:?}"),
    };
    let (message, promise) = client.abort_request(&environment(), id).unwrap();
    assert!(matches!(message, WebLockMessage::Abort { request_id, .. } if request_id == id));
    assert_eq!(promise, 200);
    assert!(client.abort_request(&environment(), id).is_none());
    let action =
        client.handle_response(&environment(), WebLockResponse::Granted { request_id: id });
    assert!(matches!(action, ClientAction::Release(WebLockMessage::Release { .. })));
}

#[test]
fn an_unavailable_lock_calls_back_with_nothing() {
    let mut client = LockManager::new_inherited("client".to_owned());
    let id = match ask(&mut client, "lock", LockOptions::empty()) {
        RequestOutcome::Send { request_id, .. } => request_id,
        other => panic!("expected a message, got {other:?}"),
    };
    let response = WebLockResponse::Unavailable { request_id: id };
    match client.handle_response(&environment(), response) {
        ClientAction::CallWithNull { callback, promise } => {
            assert_eq!((callback, promise), (100, 200));
        },
        other => panic!("expected the callback, got {other:?}"),
    }
    let again = WebLockResponse::Unavailable { request_id: id };
    assert!(matches!(client.handle_response(&environment(), again), ClientAction::Nothing));
}

#[test]
fn a_request_that_was_not_sent_is_rejected() {
    let mut client = LockManager::new_inherited("client".to_owned());
    let id = match ask(&mut client, "lock", LockOptions::empty()) {
        RequestOutcome::Send { request_id, .. } => request_id,
        other => panic!("expected a message, got {other:?}"),
    };
    assert_eq!(client.request_sent(id, false).unwrap().kind, ErrorKind::Type);
    assert!(client.pending.is_empty());
}

#[test]
fn a_query_tells_script_of_the_locks() {
    let mut client = LockManager::new_inherited("client".to_owned());
    let mut registry = WebLockRegistry::default();
    registry.handle_message(1, request("a", 1, "lock", SHARED));
    let (id, message) = match client.query(&environment(), 300) {
        QueryOutcome::Send { request_id, message } => (request_id, message),
        other => panic!("expected a message, got {other:?}"),
    };
    assert!(client.query_sent(id, true).is_none());
    let reply = registry.handle_message(1, message).remove(0);
    match client.handle_response(&environment(), reply.response) {
        ClientAction::ResolveSnapshot { promise, held, pending } => {
            assert_eq!(promise, 300);
            assert_eq!(held.len(), 1);
            assert_eq!(held[0].mode, LockMode::Shared);
            assert!(pending.is_empty());
        },
        other => panic!("expected a snapshot, got {other:?}"),
    }
}

#[test]
fn a_stolen_lock_rejects_its_promise() {
    let mut client = LockManager::new_inherited("client".to_owned());
    let id = match ask(&mut client, "lock", LockOptions::empty()) {
        RequestOutcome::Send { request_id, .. } => request_id,
        other => panic!("expected a message, got {other:?}"),
    };
    client.handle_response(&environment(), WebLockResponse::Granted { request_id: id });
    let stolen = WebLockResponse::Stolen { request_id: id };
    match client.handle_response(&environment(), stolen) {
        ClientAction::Reject { promise, error } => {
            assert_eq!(promise, 200);
            assert_eq!(error.kind, ErrorKind::Abort);
        },
        other => panic!("expected a rejection, got {other:?}"),
    }
    assert!(client.waiting_promise_settled(&environment(), id).is_none());
}

#[test]
fn modes_have_two_names() {
    for mode in [LockMode::Shared, LockMode::Exclusive] {
        assert_eq!(from_web_lock_mode(to_web_lock_mode(mode)), mode);
    }
}
