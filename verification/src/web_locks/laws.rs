//! What each message does to the locks of its origin.

use vstd::prelude::*;
use vstd::seq_lib::{lemma_seq_concat_contains_all_elements, lemma_seq_contains_after_push};

use crate::error::ErrorKind;
use crate::web_locks::manager::{
    asks_for_lock, request_refusal, tells, ClientAction, ClientEnvironment, LockManager, LockMode,
    LockOptions,
};
use crate::web_locks::registry::{
    answers_query, conflicts, departures, effect, grantable, granted, grants, is_place_of,
    listed_once, locks_in, message_origin, parts_of_queue, thefts, waiting, LockEntry, LockFilter,
    LocksView, OriginState, Reply, RequestKey, WebLockInfo, WebLockMessage, WebLockMode,
    WebLockResponse,
};

verus! {

/// The entry has this identity.
pub open spec fn is_of(entry: LockEntry, client_id: Seq<char>, request_id: u64) -> bool {
    entry.key.client_id@ == client_id && entry.key.request_id == request_id
}

/// The two cannot be held together: they have one name, and one of them is exclusive.
pub open spec fn exclude_each_other(a: LockEntry, b: LockEntry) -> bool {
    a.name@ == b.name@ && !(a.mode == WebLockMode::Shared && b.mode == WebLockMode::Shared)
}

/// The reply tells the entry's client that the entry is held now.
pub open spec fn tells_grant(reply: Reply, entry: LockEntry) -> bool {
    reply.result_handler == entry.result_handler && reply.response == (WebLockResponse::Granted {
        request_id: entry.key.request_id,
    })
}

/// The reply tells the entry's client that the entry was stolen.
pub open spec fn tells_theft(reply: Reply, entry: LockEntry) -> bool {
    reply.result_handler == entry.result_handler && reply.response == (WebLockResponse::Stolen {
        request_id: entry.key.request_id,
    })
}

/// Of what was held, exactly what `holds_on` accepts is still held, and of what was waiting, what
/// `waits_on` accepts waits on or is held now; nothing else is there. Every reply tells of one that
/// was waiting and is held now, and each such one is told.
pub open spec fn moves_on(
    before: LocksView,
    after: LocksView,
    replies: Seq<Reply>,
    holds_on: spec_fn(LockEntry) -> bool,
    waits_on: spec_fn(LockEntry) -> bool,
) -> bool {
    &&& forall|e: LockEntry|
        before.held.contains(e) && holds_on(e) ==> #[trigger] after.held.contains(e)
    &&& forall|e: LockEntry| #[trigger]
        after.held.contains(e) ==> (before.held.contains(e) && holds_on(e)) || (
        before.queue.contains(e) && waits_on(e))
    &&& forall|e: LockEntry| #[trigger]
        after.queue.contains(e) ==> before.queue.contains(e) && waits_on(e)
    &&& forall|e: LockEntry| #[trigger]
        before.queue.contains(e) && waits_on(e) ==> after.queue.contains(e)
            || after.held.contains(e)
    &&& forall|r: int|
        0 <= r < replies.len() ==> tells_of_one(#[trigger] replies[r], before, after, waits_on)
    &&& forall|e: LockEntry| #[trigger]
        after.held.contains(e) && !(before.held.contains(e) && holds_on(e)) ==> is_told(replies, e)
}

/// The reply tells of one that was waiting and is held now.
pub open spec fn tells_of_one(
    reply: Reply,
    before: LocksView,
    after: LocksView,
    waits_on: spec_fn(LockEntry) -> bool,
) -> bool {
    exists|e: LockEntry| #[trigger]
        tells_grant(reply, e) && before.queue.contains(e) && waits_on(e) && after.held.contains(e)
}

/// One of the replies tells that the entry is held now.
pub open spec fn is_told(replies: Seq<Reply>, entry: LockEntry) -> bool {
    exists|r: int| 0 <= r < replies.len() && tells_grant(#[trigger] replies[r], entry)
}

/// Granting what can be granted of what is left.
proof fn processing_moves_on(
    before: LocksView,
    rest: LocksView,
    holds_on: spec_fn(LockEntry) -> bool,
    waits_on: spec_fn(LockEntry) -> bool,
)
    requires
        forall|e: LockEntry| #[trigger]
            rest.held.contains(e) <==> before.held.contains(e) && holds_on(e),
        forall|e: LockEntry| #[trigger]
            rest.queue.contains(e) <==> before.queue.contains(e) && waits_on(e),
    ensures
        moves_on(
            before,
            rest.processed(),
            grants(granted(rest.queue, rest.held)),
            holds_on,
            waits_on,
        ),
{
    let after = rest.processed();
    let grant = granted(rest.queue, rest.held);
    let replies = grants(grant);
    assert forall|e: LockEntry| #[trigger]
        after.held.contains(e) <==> rest.held.contains(e) || grant.contains(e) by {
        lemma_seq_concat_contains_all_elements(rest.held, grant, e);
    }
    assert forall|e: LockEntry| #[trigger]
        rest.queue.contains(e) <==> grant.contains(e) || after.queue.contains(e) by {
        parts_of_queue(rest.queue, rest.held, e);
    }
    assert forall|e: LockEntry|
        before.held.contains(e) && holds_on(e) implies #[trigger] after.held.contains(e) by {
        assert(rest.held.contains(e));
    }
    assert forall|e: LockEntry| #[trigger] after.held.contains(e) implies (before.held.contains(e)
        && holds_on(e)) || (before.queue.contains(e) && waits_on(e)) by {
        if grant.contains(e) {
            assert(rest.queue.contains(e));
        } else {
            assert(rest.held.contains(e));
        }
    }
    assert forall|e: LockEntry| #[trigger] after.queue.contains(e) implies before.queue.contains(e)
        && waits_on(e) by {
        assert(rest.queue.contains(e));
    }
    assert forall|e: LockEntry| #[trigger]
        before.queue.contains(e) && waits_on(e) implies after.queue.contains(e)
        || after.held.contains(e) by {
        assert(rest.queue.contains(e));
    }
    assert forall|r: int| 0 <= r < replies.len() implies tells_of_one(
        #[trigger] replies[r],
        before,
        after,
        waits_on,
    ) by {
        let e = grant[r];
        assert(grant.contains(e));
        assert(rest.queue.contains(e));
        assert(after.held.contains(e));
        assert(tells_grant(replies[r], e));
    }
    assert forall|e: LockEntry| #[trigger]
        after.held.contains(e) && !(before.held.contains(e) && holds_on(e)) implies is_told(
        replies,
        e,
    ) by {
        assert(!rest.held.contains(e));
        let r = choose|r: int| 0 <= r < grant.len() && grant[r] == e;
        assert(tells_grant(replies[r], e));
    }
}

proof fn filter_is_exact(entries: Seq<LockEntry>, filter: LockFilter, e: LockEntry)
    ensures
        entries.filter(filter.spared()).contains(e) <==> entries.contains(e) && !filter.selects(e),
        entries.filter(filter.selected()).contains(e) <==> entries.contains(e) && filter.selects(e),
{
    let spared = entries.filter(filter.spared());
    if spared.contains(e) {
        entries.lemma_filter_contains_rev(filter.spared(), e);
        let k = choose|k: int| 0 <= k < spared.len() && spared[k] == e;
        entries.lemma_filter_pred(filter.spared(), k);
    }
    let selected = entries.filter(filter.selected());
    if selected.contains(e) {
        entries.lemma_filter_contains_rev(filter.selected(), e);
        let k = choose|k: int| 0 <= k < selected.len() && selected[k] == e;
        entries.lemma_filter_pred(filter.selected(), k);
    }
    if entries.contains(e) {
        let k = choose|k: int| 0 <= k < entries.len() && entries[k] == e;
        if filter.selects(e) {
            entries.lemma_filter_contains(filter.selected(), k);
        } else {
            entries.lemma_filter_contains(filter.spared(), k);
        }
    }
}

/// A release takes away the one lock that was held under that identity: every other lock is held on,
/// nobody stops waiting but those that are granted what was let go.
pub proof fn a_release_lets_one_lock_go(locks: LocksView, pipeline_id: u64, message: WebLockMessage)
    requires
        message is Release,
    ensures
        message matches WebLockMessage::Release { client_id, request_id, .. } ==> moves_on(
            locks,
            effect(locks, pipeline_id, message).0,
            effect(locks, pipeline_id, message).1,
            |e: LockEntry| !is_of(e, client_id@, request_id),
            |e: LockEntry| true,
        ),
{
    if let WebLockMessage::Release { client_id, request_id, .. } = message {
        let filter = LockFilter::Key(RequestKey { client_id, request_id });
        let rest = locks.without_held(filter);
        let holds_on = |e: LockEntry| !is_of(e, client_id@, request_id);
        let waits_on = |e: LockEntry| true;
        assert forall|e: LockEntry| #[trigger]
            rest.held.contains(e) <==> locks.held.contains(e) && holds_on(e) by {
            filter_is_exact(locks.held, filter, e);
        }
        processing_moves_on(locks, rest, holds_on, waits_on);
    }
}

/// An abort takes back the one request that was waiting under that identity: every lock is held on,
/// and every other request waits on or is granted.
pub proof fn an_abort_takes_one_request_back(
    locks: LocksView,
    pipeline_id: u64,
    message: WebLockMessage,
)
    requires
        message is Abort,
    ensures
        message matches WebLockMessage::Abort { client_id, request_id, .. } ==> moves_on(
            locks,
            effect(locks, pipeline_id, message).0,
            effect(locks, pipeline_id, message).1,
            |e: LockEntry| true,
            |e: LockEntry| !is_of(e, client_id@, request_id),
        ),
{
    if let WebLockMessage::Abort { client_id, request_id, .. } = message {
        let filter = LockFilter::Key(RequestKey { client_id, request_id });
        let rest = locks.without_queued(filter);
        let holds_on = |e: LockEntry| true;
        let waits_on = |e: LockEntry| !is_of(e, client_id@, request_id);
        assert forall|e: LockEntry| #[trigger]
            rest.queue.contains(e) <==> locks.queue.contains(e) && waits_on(e) by {
            filter_is_exact(locks.queue, filter, e);
        }
        processing_moves_on(locks, rest, holds_on, waits_on);
    }
}

/// A client that goes takes its locks and its requests along, and nobody else's.
pub proof fn a_client_takes_its_own_along(
    locks: LocksView,
    pipeline_id: u64,
    message: WebLockMessage,
)
    requires
        message is ClientGone,
    ensures
        message matches WebLockMessage::ClientGone { client_id, .. } ==> moves_on(
            locks,
            effect(locks, pipeline_id, message).0,
            effect(locks, pipeline_id, message).1,
            |e: LockEntry| e.key.client_id@ != client_id@,
            |e: LockEntry| e.key.client_id@ != client_id@,
        ),
{
    if let WebLockMessage::ClientGone { client_id, .. } = message {
        let filter = LockFilter::Client(client_id);
        let others = |e: LockEntry| e.key.client_id@ != client_id@;
        departure_moves_on(locks, filter, others);
    }
}

proof fn departure_moves_on(
    locks: LocksView,
    filter: LockFilter,
    others: spec_fn(LockEntry) -> bool,
)
    requires
        forall|e: LockEntry| #[trigger] others(e) <==> !filter.selects(e),
    ensures
        moves_on(locks, locks.departed(filter).0, locks.departed(filter).1, others, others),
{
    let rest = locks.without_held(filter).without_queued(filter);
    assert forall|e: LockEntry| #[trigger]
        rest.held.contains(e) <==> locks.held.contains(e) && others(e) by {
        filter_is_exact(locks.held, filter, e);
    }
    assert forall|e: LockEntry| #[trigger]
        rest.queue.contains(e) <==> locks.queue.contains(e) && others(e) by {
        filter_is_exact(locks.queue, filter, e);
    }
    processing_moves_on(locks, rest, others, others);
}

/// A pipeline that exits takes what dies with it along, and nothing else.
pub proof fn a_pipeline_takes_its_own_along(locks: LocksView, pipeline_id: u64)
    ensures
        moves_on(
            locks,
            locks.departed(LockFilter::Pipeline(pipeline_id)).0,
            locks.departed(LockFilter::Pipeline(pipeline_id)).1,
            |e: LockEntry| e.pipeline_id != Some(pipeline_id),
            |e: LockEntry| e.pipeline_id != Some(pipeline_id),
        ),
{
    let filter = LockFilter::Pipeline(pipeline_id);
    let others = |e: LockEntry| e.pipeline_id != Some(pipeline_id);
    departure_moves_on(locks, filter, others);
}

/// The request that a message makes.
pub open spec fn makes(message: WebLockMessage, pipeline_id: u64, entry: LockEntry) -> bool {
    message matches WebLockMessage::Request {
        client_id,
        request_id,
        name,
        mode,
        pipeline_bound,
        result_handler,
        ..
    } && entry.key.client_id == client_id && entry.key.request_id == request_id && entry.name == name
        && entry.mode == mode && entry.result_handler == result_handler && (entry.pipeline_id
        == if pipeline_bound {
        Some(pipeline_id)
    } else {
        None
    })
}

/// Nothing that is held or waits excludes the entry.
pub open spec fn is_free(locks: LocksView, entry: LockEntry) -> bool {
    &&& forall|e: LockEntry| #[trigger]
        locks.held.contains(e) ==> !exclude_each_other(entry, e)
    &&& forall|e: LockEntry| #[trigger]
        locks.queue.contains(e) ==> !exclude_each_other(entry, e)
}

proof fn grantable_is_free(locks: LocksView, entry: LockEntry)
    ensures
        grantable(locks.queue.push(entry), locks.held, locks.queue.len() as int) <==> is_free(
            locks,
            entry,
        ),
{
    let queue = locks.queue.push(entry);
    let n = locks.queue.len() as int;
    if grantable(queue, locks.held, n) {
        assert forall|e: LockEntry| #[trigger] locks.held.contains(e) implies !exclude_each_other(
            entry,
            e,
        ) by {
            let i = choose|i: int| 0 <= i < locks.held.len() && locks.held[i] == e;
            assert(locks.held[i] == e);
        }
        assert forall|e: LockEntry| #[trigger] locks.queue.contains(e) implies !exclude_each_other(
            entry,
            e,
        ) by {
            let i = choose|i: int| 0 <= i < locks.queue.len() && locks.queue[i] == e;
            assert(queue[i] == e);
        }
    }
    if is_free(locks, entry) {
        assert forall|i: int| 0 <= i < locks.held.len() implies !exclude_each_other(
            entry,
            #[trigger] locks.held[i],
        ) by {
            assert(locks.held.contains(locks.held[i]));
        }
        assert forall|j: int| 0 <= j < n implies !exclude_each_other(
            entry,
            #[trigger] queue[j],
        ) by {
            assert(locks.queue.contains(locks.queue[j]));
            assert(queue[j] == locks.queue[j]);
        }
    }
}

/// A request that steals nothing leaves every lock held and every request in place. It is granted,
/// and told so, exactly where nothing held or waiting excludes it; otherwise it waits behind all
/// others, or, where it is not to wait, it is told that the lock is not available and leaves no
/// trace.
pub proof fn requests_wait_their_turn(
    locks: LocksView,
    pipeline_id: u64,
    message: WebLockMessage,
    entry: LockEntry,
)
    requires
        locks.exclusive(),
        locks.settled(),
        makes(message, pipeline_id, entry),
        message matches WebLockMessage::Request { steal, .. } && !steal,
    ensures
        ({
            let (after, replies) = effect(locks, pipeline_id, message);
            let if_available = message matches WebLockMessage::Request { if_available, .. }
                && if_available;
            &&& is_free(locks, entry) ==> after.queue == locks.queue && after.held
                == locks.held.push(entry) && replies.len() == 1 && tells_grant(replies[0], entry)
            &&& !is_free(locks, entry) && !if_available ==> after.queue == locks.queue.push(entry)
                && after.held == locks.held && replies.len() == 0
            &&& !is_free(locks, entry) && if_available ==> after == locks && replies.len() == 1
                && replies[0].result_handler == entry.result_handler && replies[0].response == (
            WebLockResponse::Unavailable { request_id: entry.key.request_id })
        }),
{
    grantable_is_free(locks, entry);
    let queued = locks.queue.push(entry);
    nothing_of_a_settled_queue_is_granted(locks);
    assert(queued.drop_last() =~= locks.queue);
    let after = effect(locks, pipeline_id, message).0;
    let replies = effect(locks, pipeline_id, message).1;
    if is_free(locks, entry) {
        assert(granted(queued, locks.held) =~= seq![entry]);
        assert(waiting(queued, locks.held) =~= locks.queue);
        assert(after.held =~= locks.held.push(entry));
        assert(replies.len() == 1);
    } else if !(message matches WebLockMessage::Request { if_available, .. } && if_available) {
        assert(granted(queued, locks.held) =~= seq![]);
        assert(after.held =~= locks.held);
        assert(replies.len() == 0);
    }
}

proof fn nothing_of_a_settled_queue_is_granted(locks: LocksView)
    requires
        locks.settled(),
    ensures
        granted(locks.queue, locks.held) == Seq::<LockEntry>::empty(),
        waiting(locks.queue, locks.held) == locks.queue,
{
    settled_waits(locks.queue, locks.held);
}

proof fn settled_waits(queue: Seq<LockEntry>, held: Seq<LockEntry>)
    requires
        forall|p: int| 0 <= p < queue.len() ==> !#[trigger] grantable(queue, held, p),
    ensures
        granted(queue, held) == Seq::<LockEntry>::empty(),
        waiting(queue, held) == queue,
    decreases queue.len(),
{
    if queue.len() > 0 {
        let rest = queue.drop_last();
        assert forall|p: int| 0 <= p < rest.len() implies !#[trigger] grantable(rest, held, p) by {
            assert(!grantable(queue, held, p));
            if grantable(rest, held, p) {
                assert forall|j: int| 0 <= j < p implies !conflicts(
                    queue[p],
                    #[trigger] queue[j],
                ) by {
                    assert(rest[j] == queue[j]);
                }
                assert(grantable(queue, held, p));
            }
        }
        settled_waits(rest, held);
        assert(!grantable(queue, held, queue.len() - 1));
        assert(rest.push(queue.last()) =~= queue);
    } else {
        assert(waiting(queue, held) =~= queue);
    }
}

/// A request that steals takes every lock of its name away from its holder, who is told, and holds
/// the lock itself; locks of other names are held on, and no other request leaves the queue unless
/// it is granted.
pub proof fn thieves_take_one_name(
    locks: LocksView,
    pipeline_id: u64,
    message: WebLockMessage,
    entry: LockEntry,
    e: LockEntry,
)
    requires
        makes(message, pipeline_id, entry),
        message matches WebLockMessage::Request { steal, .. } && steal,
    ensures
        ({
            let (after, replies) = effect(locks, pipeline_id, message);
            &&& after.held.contains(entry)
            &&& exists|r: int| 0 <= r < replies.len() && tells_grant(#[trigger] replies[r], entry)
            &&& locks.held.contains(e) && e.name@ != entry.name@ ==> after.held.contains(e)
            &&& locks.held.contains(e) && e.name@ == entry.name@ ==> exists|r: int|
                0 <= r < replies.len() && tells_theft(#[trigger] replies[r], e)
            &&& after.held.contains(e) && e.name@ == entry.name@ ==> e == entry
                || locks.queue.contains(e)
            &&& after.held.contains(e) ==> e == entry || locks.queue.contains(e)
                || locks.held.contains(e)
            &&& locks.queue.contains(e) ==> after.queue.contains(e) || after.held.contains(e)
            &&& after.queue.contains(e) ==> e == entry || locks.queue.contains(e)
        }),
{
    let filter = LockFilter::Name(entry.name);
    let queued = locks.without_held(filter).prepended(entry);
    let grant = granted(queued.queue, queued.held);
    let after = effect(locks, pipeline_id, message).0;
    let replies = effect(locks, pipeline_id, message).1;
    let stolen = locks.held.filter(filter.selected());
    filter_is_exact(locks.held, filter, e);
    assert(queued.queue[0] == entry);
    assert(grantable(queued.queue, queued.held, 0)) by {
        assert forall|i: int| 0 <= i < queued.held.len() implies !exclude_each_other(
            entry,
            #[trigger] queued.held[i],
        ) by {
            locks.held.lemma_filter_pred(filter.spared(), i);
        }
    }
    first_is_granted_too(queued.queue, queued.held);
    lemma_seq_concat_contains_all_elements(queued.held, grant, entry);
    lemma_seq_concat_contains_all_elements(queued.held, grant, e);
    lemma_seq_concat_contains_all_elements(seq![entry], locks.queue, e);
    assert(seq![entry].contains(e) <==> e == entry) by {
        assert(seq![entry][0] == entry);
    }
    parts_of_queue(queued.queue, queued.held, e);
    let g = choose|g: int| 0 <= g < grant.len() && grant[g] == entry;
    assert(replies[thefts(stolen).len() + g] == grants(grant)[g]);
    assert(tells_grant(replies[thefts(stolen).len() + g], entry));
    if locks.held.contains(e) && e.name@ == entry.name@ {
        let t = choose|t: int| 0 <= t < stolen.len() && stolen[t] == e;
        assert(replies[t] == thefts(stolen)[t]);
        assert(tells_theft(replies[t], e));
    }
}

proof fn first_is_granted_too(queue: Seq<LockEntry>, held: Seq<LockEntry>)
    requires
        queue.len() > 0,
        grantable(queue, held, 0),
    ensures
        granted(queue, held).contains(queue[0]),
    decreases queue.len(),
{
    let rest = queue.drop_last();
    let ahead = granted(rest, held);
    if queue.len() == 1 {
        assert(ahead.push(queue.last()).contains(queue[0])) by {
            lemma_seq_contains_after_push(ahead, queue.last(), queue[0]);
        }
        assert(granted(queue, held) == ahead.push(queue.last()));
    } else {
        assert(rest[0] == queue[0]);
        assert(grantable(rest, held, 0));
        first_is_granted_too(rest, held);
        lemma_seq_contains_after_push(ahead, queue.last(), queue[0]);
    }
}

/// The entries of `part` are some of those of `whole`, in their order.
pub open spec fn keeps_order(part: Seq<LockEntry>, whole: Seq<LockEntry>) -> bool
    decreases whole.len(),
{
    if part.len() == 0 {
        true
    } else if whole.len() == 0 {
        false
    } else {
        (part.last() == whole.last() && keeps_order(part.drop_last(), whole.drop_last()))
            || keeps_order(part, whole.drop_last())
    }
}

/// Those that wait on keep their order, and those that are granted are granted in it: they come
/// behind what is held already.
pub proof fn granting_keeps_the_order(locks: LocksView)
    ensures
        keeps_order(locks.processed().queue, locks.queue),
        locks.processed().held.take(locks.held.len() as int) == locks.held,
        keeps_order(locks.processed().held.skip(locks.held.len() as int), locks.queue),
{
    parts_keep_order(locks.queue, locks.held);
    let after = locks.processed();
    assert(after.held.take(locks.held.len() as int) =~= locks.held);
    assert(after.held.skip(locks.held.len() as int) =~= granted(locks.queue, locks.held));
}

proof fn parts_keep_order(queue: Seq<LockEntry>, held: Seq<LockEntry>)
    ensures
        keeps_order(waiting(queue, held), queue),
        keeps_order(granted(queue, held), queue),
    decreases queue.len(),
{
    if queue.len() > 0 {
        let rest = queue.drop_last();
        parts_keep_order(rest, held);
        assert(waiting(rest, held).push(queue.last()).drop_last() =~= waiting(rest, held));
        assert(granted(rest, held).push(queue.last()).drop_last() =~= granted(rest, held));
    }
}

/// A query changes nothing, and its one answer lists every lock that is held and every request that
/// waits, each with its own name, mode and client, and nothing else.
pub proof fn queries_show_everything(
    locks: LocksView,
    pipeline_id: u64,
    message: WebLockMessage,
    replies: Seq<Reply>,
    held: Vec<WebLockInfo>,
    pending: Vec<WebLockInfo>,
    query_id: u64,
    handler: u64,
    i: int,
)
    requires
        message is Query,
        answers_query(replies, locks, query_id, handler),
        replies[0].response matches WebLockResponse::Snapshot { held: h, pending: p, .. } && h
            == held && p == pending,
    ensures
        effect(locks, pipeline_id, message) == (locks, Seq::<Reply>::empty()),
        replies.len() == 1,
        replies[0].result_handler == handler,
        replies[0].response->Snapshot_request_id == query_id,
        held@.len() == locks.held.len(),
        pending@.len() == locks.queue.len(),
        0 <= i < held@.len() ==> held@[i].name@ == locks.held[i].name@ && held@[i].mode
            == locks.held[i].mode && held@[i].client_id@ == locks.held[i].key.client_id@,
        0 <= i < pending@.len() ==> pending@[i].name@ == locks.queue[i].name@ && pending@[i].mode
            == locks.queue[i].mode && pending@[i].client_id@ == locks.queue[i].key.client_id@,
{
}

/// What a client asks for is what the registry is asked for: a lock of that name, shared exactly
/// where it was asked to be shared, under the client's own identity, so that the release and the
/// abort of that number are about this request and no other of the client's.
pub proof fn clients_ask_for_what_script_wants(
    message: WebLockMessage,
    environment: ClientEnvironment,
    client_id: String,
    request_id: u64,
    name: String,
    options: LockOptions,
    pipeline_id: u64,
    entry: LockEntry,
    other: u64,
)
    requires
        asks_for_lock(message, environment, client_id, request_id, name, options),
        makes(message, pipeline_id, entry),
    ensures
        entry.name@ == name@,
        entry.mode == WebLockMode::Shared <==> options.mode == LockMode::Shared,
        is_of(entry, client_id@, request_id),
        other != request_id ==> !is_of(entry, client_id@, other),
        message_origin(message) == environment.origin@,
        entry.result_handler == environment.result_handler,
        entry.pipeline_id is Some ==> entry.pipeline_id == Some(pipeline_id)
            && environment.pipeline_bound,
        message matches WebLockMessage::Request { if_available, steal, .. } && if_available
            == options.if_available && steal == options.steal,
{
}

/// A request is sent exactly where the document is active, its origin can have locks, the name is
/// not reserved, and the options go together: nothing can be stolen and be only tried for, only an
/// exclusive lock can be stolen, and a signal goes with neither.
pub proof fn requests_are_sent_where_they_make_sense(
    environment: ClientEnvironment,
    name: Seq<char>,
    options: LockOptions,
)
    ensures
        request_refusal(environment, name, options) is None <==> {
            &&& environment.fully_active
            &&& environment.origin_is_tuple
            &&& !(name.len() > 0 && name[0] == '-')
            &&& !(options.steal && options.if_available)
            &&& options.steal ==> options.mode == LockMode::Exclusive
            &&& options.signal is Some ==> !options.steal && !options.if_available
        },
        !environment.fully_active ==> (request_refusal(
            environment,
            name,
            options,
        ) matches Some(refusal) && refusal.kind == ErrorKind::InvalidState),
        environment.fully_active && !environment.origin_is_tuple ==> (request_refusal(
            environment,
            name,
            options,
        ) matches Some(refusal) && refusal.kind == ErrorKind::Security),
        environment.fully_active && environment.origin_is_tuple ==> (request_refusal(
            environment,
            name,
            options,
        ) matches Some(refusal) ==> refusal.kind == ErrorKind::NotSupported),
{
}

/// What a client does on being granted a lock is about the request that was granted: its callback is
/// called with a lock of the name and mode that were asked for, and the lock is noted as held for its
/// promise. A grant of a request that is not waited for is given back, under the same identity.
pub proof fn grants_go_to_their_request(
    manager: LockManager,
    environment: ClientEnvironment,
    request_id: u64,
    other: u64,
)
    ensures
        manager.pending@.contains_key(request_id) ==> {
            let request = manager.pending@[request_id];
            &&& manager.grant_action(&environment, request_id) matches ClientAction::CallWithLock {
                request_id: own,
                callback,
                lock,
            } && own == request_id && callback == request.callback && lock.name@ == request.name@
                && lock.mode == request.mode
            &&& manager.held_after_grant(request_id).contains_key(request_id)
            &&& manager.held_after_grant(request_id)[request_id].promise == request.promise
        },
        !manager.pending@.contains_key(request_id) ==> {
            &&& manager.grant_action(&environment, request_id) matches ClientAction::Release(
                WebLockMessage::Release { origin, client_id, request_id: own },
            ) && origin@ == environment.origin@ && client_id@ == manager.client_id@ && own
                == request_id
            &&& manager.held_after_grant(request_id) == manager.held@
        },
        other != request_id ==> (manager.held_after_grant(request_id).contains_key(other)
            <==> manager.held@.contains_key(other)),
{
}

/// What a client does on the other replies is about the request that they name: a lock that is not
/// available is told to the callback of that request, one that was stolen rejects the promise of
/// that lock with an `AbortError`, a snapshot resolves the promise of that query with every lock
/// that was listed; what nobody waits for has no effect.
pub proof fn replies_go_to_their_request(
    manager: LockManager,
    request_id: u64,
    held: Seq<WebLockInfo>,
    pending: Seq<WebLockInfo>,
    stolen: ClientAction,
    shown: ClientAction,
    i: int,
)
    requires
        manager.is_theft_action(request_id, stolen),
        manager.is_snapshot_action(request_id, held, pending, shown),
    ensures
        match manager.unavailable_action(request_id) {
            ClientAction::CallWithNull { callback, promise } => manager.pending@.contains_key(
                request_id,
            ) && callback == manager.pending@[request_id].callback && promise
                == manager.pending@[request_id].promise,
            action => action is Nothing && !manager.pending@.contains_key(request_id),
        },
        match stolen {
            ClientAction::Reject { promise, error } => manager.held@.contains_key(request_id)
                && promise == manager.held@[request_id].promise && error@.kind == ErrorKind::Abort,
            action => action is Nothing && !manager.held@.contains_key(request_id),
        },
        match shown {
            ClientAction::ResolveSnapshot { promise, held: told_held, pending: told_pending } => {
                &&& manager.queries@.contains_key(request_id)
                &&& promise == manager.queries@[request_id]
                &&& told_held@.len() == held.len()
                &&& told_pending@.len() == pending.len()
                &&& 0 <= i < held.len() ==> told_held@[i].name@ == held[i].name@
                    && told_held@[i].client_id@ == held[i].client_id@ && (told_held@[i].mode
                    == LockMode::Shared <==> held[i].mode == WebLockMode::Shared)
                &&& 0 <= i < pending.len() ==> told_pending@[i].name@ == pending[i].name@
                    && told_pending@[i].client_id@ == pending[i].client_id@ && (
                told_pending@[i].mode == LockMode::Shared <==> pending[i].mode
                    == WebLockMode::Shared)
            },
            action => action is Nothing && !manager.queries@.contains_key(request_id),
        },
{
    if let ClientAction::ResolveSnapshot { promise, held: told_held, pending: told_pending } =
        shown {
        if 0 <= i < held.len() {
            assert(tells(told_held@[i], held[i]));
        }
        if 0 <= i < pending.len() {
            assert(tells(told_pending@[i], pending[i]));
        }
    }
}

/// Where a pipeline goes, everybody at any origin who is granted a lock for it is told, and nobody
/// else is.
pub proof fn departures_tell_every_origin(
    origins: Seq<OriginState>,
    filter: LockFilter,
    reply: Reply,
)
    ensures
        departures(origins, filter).contains(reply) <==> exists|o: int|
            0 <= o < origins.len() && (#[trigger] origins[o]).locks@.departed(filter).1.contains(
                reply,
            ),
    decreases origins.len(),
{
    if origins.len() > 0 {
        let fewer = origins.drop_last();
        let last = origins.last().locks@.departed(filter).1;
        departures_tell_every_origin(fewer, filter, reply);
        lemma_seq_concat_contains_all_elements(departures(fewer, filter), last, reply);
        if departures(fewer, filter).contains(reply) {
            let o = choose|o: int|
                0 <= o < fewer.len() && (#[trigger] fewer[o]).locks@.departed(filter).1.contains(
                    reply,
                );
            assert(origins[o] == fewer[o]);
        }
        if last.contains(reply) {
            assert(origins[origins.len() - 1].locks@.departed(filter).1.contains(reply));
        }
        if exists|o: int|
            0 <= o < origins.len() && (#[trigger] origins[o]).locks@.departed(filter).1.contains(
                reply,
            ) {
            let o = choose|o: int|
                0 <= o < origins.len() && (#[trigger] origins[o]).locks@.departed(
                    filter,
                ).1.contains(reply);
            if o < fewer.len() {
                assert(fewer[o] == origins[o]);
            }
        }
    } else {
        assert(departures(origins, filter) =~= seq![]);
    }
}

/// An origin has the locks that are kept for it, and none where nothing is kept.
pub proof fn origins_have_their_own_locks(origins: Seq<OriginState>, origin: Seq<char>, o: int)
    requires
        listed_once(origins),
    ensures
        0 <= o < origins.len() && origins[o].origin@ == origin ==> locks_in(origins, origin)
            == origins[o].locks@,
        (forall|i: int| 0 <= i < origins.len() ==> (#[trigger] origins[i]).origin@ != origin)
            ==> locks_in(origins, origin).held.len() == 0 && locks_in(origins, origin).queue.len()
            == 0,
{
    if 0 <= o < origins.len() && origins[o].origin@ == origin {
        assert(is_place_of(origins, origin, o));
        let i = choose|i: int| is_place_of(origins, origin, i);
        assert(is_place_of(origins, origin, i));
        if i < o {
            assert(origins[i].origin@ != origins[o].origin@);
        } else if o < i {
            assert(origins[o].origin@ != origins[i].origin@);
        }
    }
}

} // verus!
