//! The client side of Web Locks: the requests and locks of one client.

use std::collections::HashMap;

use vstd::prelude::*;
use vstd::string::*;

use crate::error::{plain, says, Error, ErrorKind, ErrorView};
use crate::ids::{fresh_simple_uuid, is_hex_digit};
use crate::web_locks::registry::{WebLockInfo, WebLockMessage, WebLockMode, WebLockResponse};

verus! {

broadcast use vstd::std_specs::hash::group_hash_axioms;

/// The mode of a lock, as script names it.
#[derive(Clone, Copy, Debug, PartialEq, Eq, Structural)]
pub enum LockMode {
    Shared,
    Exclusive,
}

/// The registry's name for a mode.
pub open spec fn registry_mode(mode: LockMode) -> WebLockMode {
    match mode {
        LockMode::Shared => WebLockMode::Shared,
        LockMode::Exclusive => WebLockMode::Exclusive,
    }
}

/// The registry's name for a mode.
pub fn to_web_lock_mode(mode: LockMode) -> (own: WebLockMode)
    ensures
        own == registry_mode(mode),
{
    match mode {
        LockMode::Shared => WebLockMode::Shared,
        LockMode::Exclusive => WebLockMode::Exclusive,
    }
}

/// Script's name for a mode.
pub fn from_web_lock_mode(mode: WebLockMode) -> (own: LockMode)
    ensures
        registry_mode(own) == mode,
{
    match mode {
        WebLockMode::Shared => LockMode::Shared,
        WebLockMode::Exclusive => LockMode::Exclusive,
    }
}

/// A lock that script holds.
#[derive(Debug)]
pub struct Lock {
    pub name: String,
    pub mode: LockMode,
}

impl Lock {
    pub fn new_inherited(name: String, mode: LockMode) -> (lock: Lock)
        ensures
            lock == (Lock { name, mode }),
    {
        Lock { name, mode }
    }
}

/// What a snapshot tells script of one lock or request.
#[derive(Debug)]
pub struct LockInfo {
    pub name: String,
    pub mode: LockMode,
    pub client_id: String,
}

/// What script is told of a lock or request.
pub open spec fn tells(told: LockInfo, info: WebLockInfo) -> bool {
    told.name == info.name && told.client_id == info.client_id && registry_mode(told.mode)
        == info.mode
}

fn to_lock_info(info: WebLockInfo) -> (told: LockInfo)
    ensures
        tells(told, info),
{
    LockInfo { name: info.name, mode: from_web_lock_mode(info.mode), client_id: info.client_id }
}

fn to_lock_infos(infos: Vec<WebLockInfo>) -> (told: Vec<LockInfo>)
    ensures
        told.len() == infos@.len(),
        forall|i: int| 0 <= i < infos@.len() ==> tells(#[trigger] told@[i], infos@[i]),
{
    let mut told: Vec<LockInfo> = Vec::new();
    for info in it: infos
        invariant
            it.seq() == infos@,
            told.len() == it.index(),
            forall|i: int| 0 <= i < it.index() ==> tells(#[trigger] told@[i], infos@[i]),
    {
        told.push(to_lock_info(info));
    }
    told
}

/// The options of a lock request.
#[derive(Clone, Copy, Debug, PartialEq, Eq, Structural)]
pub struct LockOptions {
    pub mode: LockMode,
    pub if_available: bool,
    pub steal: bool,
    /// The abort signal, if one was given, by whether it is aborted already.
    pub signal: Option<bool>,
}

impl LockOptions {
    /// The options of a request that gives none.
    pub fn empty() -> (options: LockOptions)
        ensures
            options == (LockOptions {
                mode: LockMode::Exclusive,
                if_available: false,
                steal: false,
                signal: None,
            }),
    {
        LockOptions { mode: LockMode::Exclusive, if_available: false, steal: false, signal: None }
    }
}

/// A request that has not been granted, refused or aborted yet. Promises and callbacks stand here
/// as the numbers of their handles.
#[derive(Debug)]
pub struct PendingRequest {
    pub promise: u64,
    pub callback: u64,
    pub name: String,
    pub mode: LockMode,
}

/// A lock granted to this client whose waiting promise has not settled.
#[derive(Clone, Copy, Debug, PartialEq, Eq, Structural)]
pub struct HeldLock {
    /// The promise that settles when the lock is released.
    pub promise: u64,
}

/// What the client's environment says of itself.
#[derive(Debug)]
pub struct ClientEnvironment {
    /// The document is fully active, or the client is no window.
    pub fully_active: bool,
    /// The origin is not an opaque one.
    pub origin_is_tuple: bool,
    pub origin: String,
    /// The client dies with its pipeline: it is no shared worker.
    pub pipeline_bound: bool,
    /// The channel on which the registry answers.
    pub result_handler: u64,
}

/// The locks and requests of one client.
#[derive(Debug)]
pub struct LockManager {
    pub client_id: String,
    pub next_request_id: u64,
    pub pending: HashMap<u64, PendingRequest>,
    pub held: HashMap<u64, HeldLock>,
    /// The promises of `query` that wait for a snapshot.
    pub queries: HashMap<u64, u64>,
}

/// What `request` comes to.
#[derive(Debug)]
pub enum RequestOutcome {
    /// The promise is rejected with the error.
    Reject(Error),
    /// The promise is rejected with the signal's abort reason.
    RejectWithReason,
    /// The message is sent, and then [`LockManager::request_sent`] goes on.
    Send { request_id: u64, message: WebLockMessage },
}

/// What `query` comes to.
#[derive(Debug)]
pub enum QueryOutcome {
    Reject(Error),
    /// The message is sent, and then [`LockManager::query_sent`] goes on.
    Send { request_id: u64, message: WebLockMessage },
}

/// What is done when the registry has answered.
#[derive(Debug)]
pub enum ClientAction {
    Nothing,
    /// The lock is given back at once: its request was aborted in the meantime.
    Release(WebLockMessage),
    /// The callback is called with a lock, and what it returns is waited for.
    CallWithLock { request_id: u64, callback: u64, lock: Lock },
    /// The callback is called with null, and the promise is resolved with what it returns.
    CallWithNull { callback: u64, promise: u64 },
    /// The promise is rejected.
    Reject { promise: u64, error: Error },
    /// The promise is resolved with a snapshot.
    ResolveSnapshot { promise: u64, held: Vec<LockInfo>, pending: Vec<LockInfo> },
}

/// The name starts with a hyphen.
pub open spec fn is_reserved(name: Seq<char>) -> bool {
    name.len() > 0 && name[0] == '-'
}

fn starts_with_hyphen(name: &String) -> (starts: bool)
    ensures
        starts == is_reserved(name@),
{
    let text = name.as_str();
    !text.is_empty() && text.get_char(0) == '-'
}

/// Why a request is rejected before it is sent, if it is. A signal that is aborted already rejects
/// it too, with its own reason; that is not one of these.
pub open spec fn request_refusal(
    environment: ClientEnvironment,
    name: Seq<char>,
    options: LockOptions,
) -> Option<ErrorView> {
    if !environment.fully_active {
        Some(plain(ErrorKind::InvalidState))
    } else if !environment.origin_is_tuple {
        Some(plain(ErrorKind::Security))
    } else if is_reserved(name) {
        Some(says(ErrorKind::NotSupported, "Lock names cannot start with '-'."@))
    } else if options.steal && options.if_available {
        Some(
            says(
                ErrorKind::NotSupported,
                "The 'steal' and 'ifAvailable' options cannot be used together."@,
            ),
        )
    } else if options.steal && options.mode != LockMode::Exclusive {
        Some(
            says(
                ErrorKind::NotSupported,
                "The 'steal' option can only be used with exclusive locks."@,
            ),
        )
    } else if options.signal is Some && (options.steal || options.if_available) {
        Some(
            says(
                ErrorKind::NotSupported,
                "The 'signal' option cannot be used with 'steal' or 'ifAvailable'."@,
            ),
        )
    } else {
        None
    }
}

/// The message asks the registry for the lock.
pub open spec fn asks_for_lock(
    message: WebLockMessage,
    environment: ClientEnvironment,
    client_id: String,
    request_id: u64,
    name: String,
    options: LockOptions,
) -> bool {
    message == (WebLockMessage::Request {
        origin: environment.origin,
        client_id,
        request_id,
        name,
        mode: registry_mode(options.mode),
        if_available: options.if_available,
        steal: options.steal,
        pipeline_bound: environment.pipeline_bound,
        result_handler: environment.result_handler,
    })
}

impl LockManager {
    /// Every request, lock and query has a number of its own that has been given out, and no
    /// request is both pending and granted.
    pub open spec fn wf(&self) -> bool {
        &&& forall|id: u64| #[trigger]
            self.pending@.contains_key(id) ==> id < self.next_request_id && !self.held@.contains_key(
                id,
            )
        &&& forall|id: u64| #[trigger] self.held@.contains_key(id) ==> id < self.next_request_id
        &&& forall|id: u64| #[trigger] self.queries@.contains_key(id) ==> id < self.next_request_id
    }

    /// A client without locks. `client_id` has to be one that no other client has.
    pub fn new_inherited(client_id: String) -> (manager: LockManager)
        ensures
            manager.wf(),
            manager.client_id == client_id,
            manager.next_request_id == 0,
            manager.pending@ == Map::<u64, PendingRequest>::empty(),
            manager.held@ == Map::<u64, HeldLock>::empty(),
            manager.queries@ == Map::<u64, u64>::empty(),
    {
        LockManager {
            client_id,
            next_request_id: 0,
            pending: HashMap::new(),
            held: HashMap::new(),
            queries: HashMap::new(),
        }
    }

    /// A client without locks, under an identifier of its own.
    pub fn new() -> (manager: LockManager)
        ensures
            manager.wf(),
            manager.client_id@.len() == 32,
            forall|i: int|
                0 <= i < 32 ==> is_hex_digit(#[trigger] manager.client_id@[i]),
            manager.next_request_id == 0,
            manager.pending@ == Map::<u64, PendingRequest>::empty(),
            manager.held@ == Map::<u64, HeldLock>::empty(),
            manager.queries@ == Map::<u64, u64>::empty(),
    {
        LockManager::new_inherited(fresh_simple_uuid())
    }

    fn allocate_request_id(&mut self) -> (id: u64)
        requires
            old(self).next_request_id < u64::MAX,
        ensures
            id == old(self).next_request_id,
            final(self).next_request_id == id + 1,
            final(self).client_id == old(self).client_id,
            final(self).pending == old(self).pending,
            final(self).held == old(self).held,
            final(self).queries == old(self).queries,
    {
        let id: u64 = self.next_request_id;
        self.next_request_id = id + 1;
        id
    }

    /// Requests a lock. A request that is not rejected is pending from here on.
    pub fn request_with_options(
        &mut self,
        environment: &ClientEnvironment,
        name: String,
        options: LockOptions,
        callback: u64,
        promise: u64,
    ) -> (outcome: RequestOutcome)
        requires
            old(self).wf(),
            old(self).next_request_id < u64::MAX,
        ensures
            final(self).wf(),
            match request_refusal(*environment, name@, options) {
                Some(refusal) => *final(self) == *old(self) && (
                outcome matches RequestOutcome::Reject(error) && error@ == refusal),
                None => if options.signal == Some(true) {
                    *final(self) == *old(self) && outcome is RejectWithReason
                } else {
                    &&& outcome matches RequestOutcome::Send { request_id, message } && request_id
                        == old(self).next_request_id && asks_for_lock(
                        message,
                        *environment,
                        old(self).client_id,
                        request_id,
                        name,
                        options,
                    )
                    &&& final(self).next_request_id == old(self).next_request_id + 1
                    &&& final(self).pending@ == old(self).pending@.insert(
                        old(self).next_request_id,
                        PendingRequest { promise, callback, name, mode: options.mode },
                    )
                    &&& final(self).held@ == old(self).held@
                    &&& final(self).queries@ == old(self).queries@
                    &&& final(self).client_id == old(self).client_id
                },
            },
    {
        if !environment.fully_active {
            return RequestOutcome::Reject(Error::plain(ErrorKind::InvalidState));
        }
        if !environment.origin_is_tuple {
            return RequestOutcome::Reject(Error::plain(ErrorKind::Security));
        }
        if starts_with_hyphen(&name) {
            return RequestOutcome::Reject(
                Error::says(ErrorKind::NotSupported, "Lock names cannot start with '-'."),
            );
        }
        if options.steal && options.if_available {
            return RequestOutcome::Reject(
                Error::says(
                    ErrorKind::NotSupported,
                    "The 'steal' and 'ifAvailable' options cannot be used together.",
                ),
            );
        }
        if options.steal && options.mode != LockMode::Exclusive {
            return RequestOutcome::Reject(
                Error::says(
                    ErrorKind::NotSupported,
                    "The 'steal' option can only be used with exclusive locks.",
                ),
            );
        }
        if options.signal.is_some() && (options.steal || options.if_available) {
            return RequestOutcome::Reject(
                Error::says(
                    ErrorKind::NotSupported,
                    "The 'signal' option cannot be used with 'steal' or 'ifAvailable'.",
                ),
            );
        }
        match options.signal {
            Some(aborted) => {
                if aborted {
                    return RequestOutcome::RejectWithReason;
                }
            },
            None => {},
        }
        let request_id = self.allocate_request_id();
        let own_name = name.clone();
        self.pending.insert(
            request_id,
            PendingRequest { promise, callback, name: own_name, mode: options.mode },
        );
        let message = WebLockMessage::Request {
            origin: environment.origin.clone(),
            client_id: self.client_id.clone(),
            request_id,
            name,
            mode: to_web_lock_mode(options.mode),
            if_available: options.if_available,
            steal: options.steal,
            pipeline_bound: environment.pipeline_bound,
            result_handler: environment.result_handler,
        };
        RequestOutcome::Send { request_id, message }
    }

    /// Goes on after a request was sent, or could not be: one that could not be sent is no longer
    /// pending, and its promise is rejected.
    pub fn request_sent(&mut self, request_id: u64, sent: bool) -> (rejection: Option<Error>)
        requires
            old(self).wf(),
        ensures
            final(self).wf(),
            sent ==> rejection is None && *final(self) == *old(self),
            !sent ==> {
                &&& rejection matches Some(error) && error@ == says(
                    ErrorKind::Type,
                    "Failed to send the lock request to the constellation"@,
                )
                &&& final(self).pending@ == old(self).pending@.remove(request_id)
                &&& final(self).same_but_pending(*old(self))
            },
    {
        if sent {
            return None;
        }
        self.pending.remove(&request_id);
        Some(
            Error::says(ErrorKind::Type, "Failed to send the lock request to the constellation"),
        )
    }

    /// Everything but the pending requests is the same.
    pub open spec fn same_but_pending(&self, before: LockManager) -> bool {
        &&& self.client_id == before.client_id
        &&& self.next_request_id == before.next_request_id
        &&& self.held@ == before.held@
        &&& self.queries@ == before.queries@
    }

    /// Aborts a request: the message to send, and the promise to reject with the signal's reason.
    /// A request that is no longer pending is not aborted.
    pub fn abort_request(&mut self, environment: &ClientEnvironment, request_id: u64) -> (outcome:
        Option<(WebLockMessage, u64)>)
        requires
            old(self).wf(),
        ensures
            final(self).wf(),
            final(self).same_but_pending(*old(self)),
            final(self).pending@ == old(self).pending@.remove(request_id),
            match outcome {
                Some((message, promise)) => {
                    &&& old(self).pending@.contains_key(request_id)
                    &&& promise == old(self).pending@[request_id].promise
                    &&& message == (WebLockMessage::Abort {
                        origin: environment.origin,
                        client_id: old(self).client_id,
                        request_id,
                    })
                },
                None => !old(self).pending@.contains_key(request_id),
            },
    {
        let ghost before = self.pending@;
        match self.pending.remove(&request_id) {
            Some(request) => Some(
                (
                    WebLockMessage::Abort {
                        origin: environment.origin.clone(),
                        client_id: self.client_id.clone(),
                        request_id,
                    },
                    request.promise,
                ),
            ),
            None => {
                assert(before.remove(request_id) =~= before);
                None
            },
        }
    }

    /// What is done with a granted lock.
    pub open spec fn grant_action(
        &self,
        environment: &ClientEnvironment,
        request_id: u64,
    ) -> ClientAction {
        if self.pending@.contains_key(request_id) {
            let request = self.pending@[request_id];
            ClientAction::CallWithLock {
                request_id,
                callback: request.callback,
                lock: Lock { name: request.name, mode: request.mode },
            }
        } else {
            ClientAction::Release(
                WebLockMessage::Release {
                    origin: environment.origin,
                    client_id: self.client_id,
                    request_id,
                },
            )
        }
    }

    /// What is done where a lock is not available.
    pub open spec fn unavailable_action(&self, request_id: u64) -> ClientAction {
        if self.pending@.contains_key(request_id) {
            ClientAction::CallWithNull {
                callback: self.pending@[request_id].callback,
                promise: self.pending@[request_id].promise,
            }
        } else {
            ClientAction::Nothing
        }
    }

    /// The action is what is done where a lock was stolen.
    pub open spec fn is_theft_action(&self, request_id: u64, action: ClientAction) -> bool {
        if self.held@.contains_key(request_id) {
            action matches ClientAction::Reject { promise, error } && promise
                == self.held@[request_id].promise && error@ == says(
                ErrorKind::Abort,
                "The lock was stolen by another request."@,
            )
        } else {
            action is Nothing
        }
    }

    /// The action is what is done with a snapshot.
    pub open spec fn is_snapshot_action(
        &self,
        request_id: u64,
        held: Seq<WebLockInfo>,
        pending: Seq<WebLockInfo>,
        action: ClientAction,
    ) -> bool {
        if self.queries@.contains_key(request_id) {
            action matches ClientAction::ResolveSnapshot {
                promise,
                held: told_held,
                pending: told_pending,
            } && promise == self.queries@[request_id] && told_held@.len() == held.len()
                && told_pending@.len() == pending.len() && (forall|i: int|
                0 <= i < held.len() ==> tells(#[trigger] told_held@[i], held[i])) && (forall|i: int|
                0 <= i < pending.len() ==> tells(#[trigger] told_pending@[i], pending[i]))
        } else {
            action is Nothing
        }
    }

    /// The held locks once a request is granted.
    pub open spec fn held_after_grant(&self, request_id: u64) -> Map<u64, HeldLock> {
        if self.pending@.contains_key(request_id) {
            self.held@.insert(
                request_id,
                HeldLock { promise: self.pending@[request_id].promise },
            )
        } else {
            self.held@
        }
    }

    /// The lock was granted. The callback is called with it; a request that was aborted in the
    /// meantime gives it back at once, and its callback never runs.
    pub fn handle_granted(&mut self, environment: &ClientEnvironment, request_id: u64) -> (action:
        ClientAction)
        requires
            old(self).wf(),
        ensures
            final(self).wf(),
            final(self).client_id == old(self).client_id,
            final(self).next_request_id == old(self).next_request_id,
            final(self).queries@ == old(self).queries@,
            final(self).pending@ == old(self).pending@.remove(request_id),
            final(self).held@ == old(self).held_after_grant(request_id),
            action == old(self).grant_action(environment, request_id),
    {
        let ghost before = self.pending@;
        match self.pending.remove(&request_id) {
            Some(request) => {
                self.held.insert(request_id, HeldLock { promise: request.promise });
                ClientAction::CallWithLock {
                    request_id,
                    callback: request.callback,
                    lock: Lock::new_inherited(request.name, request.mode),
                }
            },
            None => {
                assert(before.remove(request_id) =~= before);
                ClientAction::Release(
                    WebLockMessage::Release {
                        origin: environment.origin.clone(),
                        client_id: self.client_id.clone(),
                        request_id,
                    },
                )
            },
        }
    }

    /// The lock was not available, and the request was not to wait.
    pub fn handle_unavailable(&mut self, request_id: u64) -> (action: ClientAction)
        requires
            old(self).wf(),
        ensures
            final(self).wf(),
            final(self).same_but_pending(*old(self)),
            final(self).pending@ == old(self).pending@.remove(request_id),
            action == old(self).unavailable_action(request_id),
    {
        let ghost before = self.pending@;
        match self.pending.remove(&request_id) {
            Some(request) => ClientAction::CallWithNull {
                callback: request.callback,
                promise: request.promise,
            },
            None => {
                assert(before.remove(request_id) =~= before);
                ClientAction::Nothing
            },
        }
    }

    /// Another client stole the lock.
    pub fn handle_stolen(&mut self, request_id: u64) -> (action: ClientAction)
        requires
            old(self).wf(),
        ensures
            final(self).wf(),
            final(self).client_id == old(self).client_id,
            final(self).next_request_id == old(self).next_request_id,
            final(self).pending@ == old(self).pending@,
            final(self).queries@ == old(self).queries@,
            final(self).held@ == old(self).held@.remove(request_id),
            old(self).is_theft_action(request_id, action),
    {
        let ghost before = self.held@;
        match self.held.remove(&request_id) {
            Some(held) => ClientAction::Reject {
                promise: held.promise,
                error: Error::says(ErrorKind::Abort, "The lock was stolen by another request."),
            },
            None => {
                assert(before.remove(request_id) =~= before);
                ClientAction::Nothing
            },
        }
    }

    /// A snapshot has come.
    pub fn handle_snapshot(
        &mut self,
        request_id: u64,
        held: Vec<WebLockInfo>,
        pending: Vec<WebLockInfo>,
    ) -> (action: ClientAction)
        requires
            old(self).wf(),
        ensures
            final(self).wf(),
            final(self).client_id == old(self).client_id,
            final(self).next_request_id == old(self).next_request_id,
            final(self).pending@ == old(self).pending@,
            final(self).held@ == old(self).held@,
            final(self).queries@ == old(self).queries@.remove(request_id),
            old(self).is_snapshot_action(request_id, held@, pending@, action),
    {
        let ghost before = self.queries@;
        match self.queries.remove(&request_id) {
            Some(promise) => ClientAction::ResolveSnapshot {
                promise,
                held: to_lock_infos(held),
                pending: to_lock_infos(pending),
            },
            None => {
                assert(before.remove(request_id) =~= before);
                ClientAction::Nothing
            },
        }
    }

    /// Takes in what the registry answered.
    pub fn handle_response(&mut self, environment: &ClientEnvironment, response: WebLockResponse) -> (
        action: ClientAction)
        requires
            old(self).wf(),
        ensures
            final(self).wf(),
            final(self).next_request_id == old(self).next_request_id,
            final(self).client_id == old(self).client_id,
            match response {
                WebLockResponse::Granted { request_id } => {
                    &&& final(self).pending@ == old(self).pending@.remove(request_id)
                    &&& final(self).held@ == old(self).held_after_grant(request_id)
                    &&& final(self).queries@ == old(self).queries@
                    &&& action == old(self).grant_action(environment, request_id)
                },
                WebLockResponse::Unavailable { request_id } => {
                    &&& final(self).pending@ == old(self).pending@.remove(request_id)
                    &&& final(self).held@ == old(self).held@
                    &&& final(self).queries@ == old(self).queries@
                    &&& action == old(self).unavailable_action(request_id)
                },
                WebLockResponse::Stolen { request_id } => {
                    &&& final(self).pending@ == old(self).pending@
                    &&& final(self).held@ == old(self).held@.remove(request_id)
                    &&& final(self).queries@ == old(self).queries@
                    &&& old(self).is_theft_action(request_id, action)
                },
                WebLockResponse::Snapshot { request_id, held, pending } => {
                    &&& final(self).pending@ == old(self).pending@
                    &&& final(self).held@ == old(self).held@
                    &&& final(self).queries@ == old(self).queries@.remove(request_id)
                    &&& old(self).is_snapshot_action(request_id, held@, pending@, action)
                },
            },
    {
        match response {
            WebLockResponse::Granted { request_id } => self.handle_granted(environment, request_id),
            WebLockResponse::Unavailable { request_id } => self.handle_unavailable(request_id),
            WebLockResponse::Stolen { request_id } => self.handle_stolen(request_id),
            WebLockResponse::Snapshot { request_id, held, pending } => self.handle_snapshot(
                request_id,
                held,
                pending,
            ),
        }
    }

    /// What the callback returned has settled: the lock is released, and its promise settles the
    /// same way. A lock that was stolen has been released already.
    pub fn waiting_promise_settled(
        &mut self,
        environment: &ClientEnvironment,
        request_id: u64,
    ) -> (outcome: Option<(WebLockMessage, u64)>)
        requires
            old(self).wf(),
        ensures
            final(self).wf(),
            final(self).client_id == old(self).client_id,
            final(self).next_request_id == old(self).next_request_id,
            final(self).pending@ == old(self).pending@,
            final(self).queries@ == old(self).queries@,
            final(self).held@ == old(self).held@.remove(request_id),
            match outcome {
                Some((message, promise)) => {
                    &&& old(self).held@.contains_key(request_id)
                    &&& promise == old(self).held@[request_id].promise
                    &&& message == (WebLockMessage::Release {
                        origin: environment.origin,
                        client_id: old(self).client_id,
                        request_id,
                    })
                },
                None => !old(self).held@.contains_key(request_id),
            },
    {
        let ghost before = self.held@;
        match self.held.remove(&request_id) {
            Some(held) => Some(
                (
                    WebLockMessage::Release {
                        origin: environment.origin.clone(),
                        client_id: self.client_id.clone(),
                        request_id,
                    },
                    held.promise,
                ),
            ),
            None => {
                assert(before.remove(request_id) =~= before);
                None
            },
        }
    }

    /// Asks for a snapshot of the origin's locks.
    pub fn query(&mut self, environment: &ClientEnvironment, promise: u64) -> (outcome:
        QueryOutcome)
        requires
            old(self).wf(),
            old(self).next_request_id < u64::MAX,
        ensures
            final(self).wf(),
            if !environment.fully_active {
                *final(self) == *old(self) && (outcome matches QueryOutcome::Reject(error) && error@
                    == plain(ErrorKind::InvalidState))
            } else if !environment.origin_is_tuple {
                *final(self) == *old(self) && (outcome matches QueryOutcome::Reject(error) && error@
                    == plain(ErrorKind::Security))
            } else {
                &&& outcome == (QueryOutcome::Send {
                    request_id: old(self).next_request_id,
                    message: WebLockMessage::Query {
                        origin: environment.origin,
                        request_id: old(self).next_request_id,
                        result_handler: environment.result_handler,
                    },
                })
                &&& final(self).next_request_id == old(self).next_request_id + 1
                &&& final(self).queries@ == old(self).queries@.insert(
                    old(self).next_request_id,
                    promise,
                )
                &&& final(self).pending@ == old(self).pending@
                &&& final(self).held@ == old(self).held@
                &&& final(self).client_id == old(self).client_id
            },
    {
        if !environment.fully_active {
            return QueryOutcome::Reject(Error::plain(ErrorKind::InvalidState));
        }
        if !environment.origin_is_tuple {
            return QueryOutcome::Reject(Error::plain(ErrorKind::Security));
        }
        let request_id = self.allocate_request_id();
        self.queries.insert(request_id, promise);
        QueryOutcome::Send {
            request_id,
            message: WebLockMessage::Query {
                origin: environment.origin.clone(),
                request_id,
                result_handler: environment.result_handler,
            },
        }
    }

    /// Goes on after a query was sent, or could not be.
    pub fn query_sent(&mut self, request_id: u64, sent: bool) -> (rejection: Option<Error>)
        requires
            old(self).wf(),
        ensures
            final(self).wf(),
            sent ==> rejection is None && *final(self) == *old(self),
            !sent ==> {
                &&& rejection matches Some(error) && error@ == says(
                    ErrorKind::Type,
                    "Failed to send the lock query to the constellation"@,
                )
                &&& final(self).queries@ == old(self).queries@.remove(request_id)
                &&& final(self).pending@ == old(self).pending@
                &&& final(self).held@ == old(self).held@
                &&& final(self).next_request_id == old(self).next_request_id
                &&& final(self).client_id == old(self).client_id
            },
    {
        if sent {
            return None;
        }
        self.queries.remove(&request_id);
        Some(Error::says(ErrorKind::Type, "Failed to send the lock query to the constellation"))
    }
}

} // verus!
