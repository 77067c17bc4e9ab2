//! The Web Locks registry: one lock request queue and one held lock set per origin, so that every
//! agent of an origin sees the same state.

use vstd::prelude::*;
use vstd::seq_lib::lemma_seq_contains_after_push;

verus! {

/// The mode of a lock.
#[derive(Clone, Copy, Debug, PartialEq, Eq, Structural)]
pub enum WebLockMode {
    Shared,
    Exclusive,
}

/// The identity of a lock request within its origin: the requesting client and the number that
/// the client gave the request.
#[derive(Debug)]
pub struct RequestKey {
    pub client_id: String,
    pub request_id: u64,
}

/// A lock request that has not been granted yet, or a held lock.
#[derive(Debug)]
pub struct LockEntry {
    pub key: RequestKey,
    /// The pipeline the request arrived from, where the requesting agent dies with it.
    pub pipeline_id: Option<u64>,
    pub name: String,
    pub mode: WebLockMode,
    /// The number of the channel that the client listens on.
    pub result_handler: u64,
}

/// What a snapshot says of one lock or request.
#[derive(Debug)]
pub struct WebLockInfo {
    pub name: String,
    pub mode: WebLockMode,
    pub client_id: String,
}

/// What the registry answers a client.
#[derive(Debug)]
pub enum WebLockResponse {
    Granted { request_id: u64 },
    Unavailable { request_id: u64 },
    Stolen { request_id: u64 },
    Snapshot { request_id: u64, held: Vec<WebLockInfo>, pending: Vec<WebLockInfo> },
}

/// A response and the channel it goes out on.
#[derive(Debug)]
pub struct Reply {
    pub result_handler: u64,
    pub response: WebLockResponse,
}

/// Two entries cannot be held at once: same name, and not both shared.
pub open spec fn conflicts(a: LockEntry, b: LockEntry) -> bool {
    a.name@ == b.name@ && (a.mode == WebLockMode::Exclusive || b.mode == WebLockMode::Exclusive)
}

/// Request `p` of `queue` can be granted: nothing that is held, and no request ahead of it,
/// conflicts with it.
pub open spec fn grantable(queue: Seq<LockEntry>, held: Seq<LockEntry>, p: int) -> bool {
    &&& forall|i: int| 0 <= i < held.len() ==> !conflicts(queue[p], #[trigger] held[i])
    &&& forall|j: int| 0 <= j < p ==> !conflicts(queue[p], #[trigger] queue[j])
}

/// No two of the entries conflict.
pub open spec fn free_of_conflicts(held: Seq<LockEntry>) -> bool {
    forall|i: int, j: int|
        0 <= i < j < held.len() ==> !conflicts(#[trigger] held[i], #[trigger] held[j])
}

/// No request of the queue can be granted.
pub open spec fn none_grantable(queue: Seq<LockEntry>, held: Seq<LockEntry>) -> bool {
    forall|p: int| 0 <= p < queue.len() ==> !#[trigger] grantable(queue, held, p)
}

/// The requests that can be granted, in queue order.
pub open spec fn granted(queue: Seq<LockEntry>, held: Seq<LockEntry>) -> Seq<LockEntry>
    decreases queue.len(),
{
    if queue.len() == 0 {
        seq![]
    } else {
        let ahead = granted(queue.drop_last(), held);
        if grantable(queue, held, queue.len() - 1) {
            ahead.push(queue.last())
        } else {
            ahead
        }
    }
}

/// The requests that have to wait, in queue order.
pub open spec fn waiting(queue: Seq<LockEntry>, held: Seq<LockEntry>) -> Seq<LockEntry>
    decreases queue.len(),
{
    if queue.len() == 0 {
        seq![]
    } else {
        let ahead = waiting(queue.drop_last(), held);
        if grantable(queue, held, queue.len() - 1) {
            ahead
        } else {
            ahead.push(queue.last())
        }
    }
}

/// The reply that tells each of `entries` that it now holds its lock.
pub open spec fn grants(entries: Seq<LockEntry>) -> Seq<Reply> {
    entries.map_values(
        |entry: LockEntry|
            Reply {
                result_handler: entry.result_handler,
                response: WebLockResponse::Granted { request_id: entry.key.request_id },
            },
    )
}

/// The reply that tells each of `entries` that its lock was stolen.
pub open spec fn thefts(entries: Seq<LockEntry>) -> Seq<Reply> {
    entries.map_values(
        |entry: LockEntry|
            Reply {
                result_handler: entry.result_handler,
                response: WebLockResponse::Stolen { request_id: entry.key.request_id },
            },
    )
}

/// Which entries an operation is about.
#[derive(Debug)]
pub enum LockFilter {
    /// The request with this identity.
    Key(RequestKey),
    /// Everything of a client.
    Client(String),
    /// Everything that arrived from a pipeline and dies with it.
    Pipeline(u64),
    /// Everything with this lock name.
    Name(String),
}

impl LockFilter {
    /// The entry is one of those that the filter is about.
    pub open spec fn selects(self, entry: LockEntry) -> bool {
        match self {
            LockFilter::Key(key) => entry.key.client_id@ == key.client_id@ && entry.key.request_id
                == key.request_id,
            LockFilter::Client(client_id) => entry.key.client_id@ == client_id@,
            LockFilter::Pipeline(pipeline_id) => entry.pipeline_id == Some(pipeline_id),
            LockFilter::Name(name) => entry.name@ == name@,
        }
    }

    /// The entries that the filter is about, as a predicate.
    pub open spec fn selected(self) -> spec_fn(LockEntry) -> bool {
        |entry: LockEntry| self.selects(entry)
    }

    /// The other entries, as a predicate.
    pub open spec fn spared(self) -> spec_fn(LockEntry) -> bool {
        |entry: LockEntry| !self.selects(entry)
    }

    fn matches(&self, entry: &LockEntry) -> (matched: bool)
        ensures
            matched == self.selects(*entry),
    {
        match self {
            LockFilter::Key(key) => entry.key.client_id == key.client_id && entry.key.request_id
                == key.request_id,
            LockFilter::Client(client_id) => entry.key.client_id == *client_id,
            LockFilter::Pipeline(pipeline_id) => match entry.pipeline_id {
                Some(own) => own == *pipeline_id,
                None => false,
            },
            LockFilter::Name(name) => entry.name == *name,
        }
    }
}

/// Takes out of `entries` those that the filter is about, and hands them back.
fn take_matching(entries: &mut Vec<LockEntry>, filter: &LockFilter) -> (removed: Vec<LockEntry>)
    ensures
        final(entries)@ == old(entries)@.filter(filter.spared()),
        removed@ == old(entries)@.filter(filter.selected()),
{
    let ghost all = entries@;
    let ghost mut seen: int = 0;
    let mut removed: Vec<LockEntry> = Vec::new();
    let mut index: usize = 0;
    proof {
        assert(all.take(0) =~= seq![]);
        reveal(Seq::filter);
    }
    assert(all.skip(0) =~= all);
    while index < entries.len()
        invariant
            0 <= seen <= all.len(),
            index <= entries.len(),
            entries.len() - index == all.len() - seen,
            entries@.take(index as int) == all.take(seen).filter(filter.spared()),
            entries@.skip(index as int) == all.skip(seen),
            removed@ == all.take(seen).filter(filter.selected()),
        decreases entries.len() - index,
    {
        let ghost before = entries@;
        assert(before[index as int] == before.skip(index as int)[0]);
        assert(all.skip(seen)[0] == all[seen]);
        assert(all.take(seen + 1) =~= all.take(seen).push(all[seen]));
        assert(all.skip(seen + 1) =~= all.skip(seen).skip(1));
        proof {
            all.take(seen).lemma_filter_push(all[seen], filter.spared());
            all.take(seen).lemma_filter_push(all[seen], filter.selected());
        }
        if filter.matches(&entries[index]) {
            let entry = entries.remove(index);
            removed.push(entry);
            assert(entries@.take(index as int) =~= before.take(index as int));
            assert(entries@.skip(index as int) =~= before.skip(index as int).skip(1));
        } else {
            index += 1;
            assert(entries@.take(index as int) =~= before.take(index - 1).push(all[seen]));
            assert(entries@.skip(index as int) =~= before.skip(index - 1).skip(1));
        }
        proof {
            seen = seen + 1;
        }
    }
    assert(all.take(seen) =~= all);
    assert(entries@.take(index as int) =~= entries@);
    removed
}

impl LockEntry {
    /// The entry as a snapshot shows it.
    pub fn info(&self) -> (info: WebLockInfo)
        ensures
            info == snapshot_of(*self),
    {
        WebLockInfo {
            name: self.name.clone(),
            mode: self.mode,
            client_id: self.key.client_id.clone(),
        }
    }
}

/// What a snapshot says of an entry.
pub open spec fn snapshot_of(entry: LockEntry) -> WebLockInfo {
    WebLockInfo { name: entry.name, mode: entry.mode, client_id: entry.key.client_id }
}

/// What a snapshot says of a list of entries.
pub open spec fn snapshots_of(entries: Seq<LockEntry>) -> Seq<WebLockInfo> {
    entries.map_values(|entry: LockEntry| snapshot_of(entry))
}

/// The entries as a snapshot shows them.
fn infos(entries: &Vec<LockEntry>) -> (infos: Vec<WebLockInfo>)
    ensures
        infos@ == snapshots_of(entries@),
{
    let mut infos: Vec<WebLockInfo> = Vec::new();
    let mut i: usize = 0;
    while i < entries.len()
        invariant
            i <= entries.len(),
            infos@ == snapshots_of(entries@.take(i as int)),
        decreases entries.len() - i,
    {
        infos.push(entries[i].info());
        assert(entries@.take(i + 1) =~= entries@.take(i as int).push(entries[i as int]));
        assert(infos@ =~= snapshots_of(entries@.take(i + 1)));
        i += 1;
    }
    assert(entries@.take(i as int) =~= entries@);
    infos
}

/// The locks of one origin.
#[derive(Debug)]
pub struct OriginLocks {
    pub queue: Vec<LockEntry>,
    pub held: Vec<LockEntry>,
}

/// What the locks of one origin are.
pub struct LocksView {
    pub queue: Seq<LockEntry>,
    pub held: Seq<LockEntry>,
}

impl View for OriginLocks {
    type V = LocksView;

    open spec fn view(&self) -> LocksView {
        LocksView { queue: self.queue@, held: self.held@ }
    }
}

impl LocksView {
    /// No locks and no requests.
    pub open spec fn none() -> LocksView {
        LocksView { queue: seq![], held: seq![] }
    }

    /// The locks after every request that can be granted has been granted.
    pub open spec fn processed(self) -> LocksView {
        LocksView {
            queue: waiting(self.queue, self.held),
            held: self.held + granted(self.queue, self.held),
        }
    }

    /// Without the held locks that the filter is about.
    pub open spec fn without_held(self, filter: LockFilter) -> LocksView {
        LocksView { queue: self.queue, held: self.held.filter(filter.spared()) }
    }

    /// Without the queued requests that the filter is about.
    pub open spec fn without_queued(self, filter: LockFilter) -> LocksView {
        LocksView { queue: self.queue.filter(filter.spared()), held: self.held }
    }

    /// With `entry` at the end of the queue.
    pub open spec fn enqueued(self, entry: LockEntry) -> LocksView {
        LocksView { queue: self.queue.push(entry), held: self.held }
    }

    /// With `entry` at the front of the queue.
    pub open spec fn prepended(self, entry: LockEntry) -> LocksView {
        LocksView { queue: seq![entry] + self.queue, held: self.held }
    }

    /// No two held locks conflict.
    pub open spec fn exclusive(self) -> bool {
        free_of_conflicts(self.held)
    }

    /// No request that could be granted is left waiting.
    pub open spec fn settled(self) -> bool {
        none_grantable(self.queue, self.held)
    }

    /// Neither locks nor requests.
    pub open spec fn is_empty(self) -> bool {
        self.queue.len() == 0 && self.held.len() == 0
    }
}

impl OriginLocks {
    fn is_empty(&self) -> (empty: bool)
        ensures
            empty == self@.is_empty(),
    {
        self.queue.len() == 0 && self.held.len() == 0
    }

    /// Whether request `index` of the queue can be granted.
    fn is_grantable(&self, index: usize) -> (granted: bool)
        requires
            index < self.queue.len(),
        ensures
            granted == grantable(self.queue@, self.held@, index as int),
    {
        let request = &self.queue[index];
        let mut i: usize = 0;
        while i < self.held.len()
            invariant
                i <= self.held.len(),
                index < self.queue.len(),
                *request == self.queue[index as int],
                forall|k: int| 0 <= k < i ==> !conflicts(*request, #[trigger] self.held[k]),
            decreases self.held.len() - i,
        {
            let lock = &self.held[i];
            if lock.name == request.name && (request.mode == WebLockMode::Exclusive || lock.mode
                == WebLockMode::Exclusive) {
                assert(conflicts(*request, self.held@[i as int]));
                return false;
            }
            i += 1;
        }
        let mut j: usize = 0;
        while j < index
            invariant
                j <= index < self.queue.len(),
                *request == self.queue[index as int],
                forall|k: int| 0 <= k < j ==> !conflicts(*request, #[trigger] self.queue[k]),
            decreases index - j,
        {
            let other = &self.queue[j];
            if other.name == request.name && (request.mode == WebLockMode::Exclusive || other.mode
                == WebLockMode::Exclusive) {
                assert(conflicts(*request, self.queue@[j as int]));
                return false;
            }
            j += 1;
        }
        true
    }

    /// Grants every request that can be granted, in queue order.
    fn process_queue(&mut self) -> (replies: Vec<Reply>)
        ensures
            final(self)@ == old(self)@.processed(),
            replies@ == grants(granted(old(self).queue@, old(self).held@)),
    {
        let ghost queue = self.queue@;
        let ghost held = self.held@;
        let ghost mut seen: int = 0;
        let mut replies: Vec<Reply> = Vec::new();
        let mut index: usize = 0;
        assert(queue.take(0) =~= seq![]);
        assert(queue.skip(0) =~= queue);
        assert(held + granted(queue.take(0), held) =~= held);
        assert(grants(seq![]) =~= seq![]);
        while index < self.queue.len()
            invariant
                0 <= seen <= queue.len(),
                index <= self.queue.len(),
                self.queue.len() - index == queue.len() - seen,
                self.queue@.take(index as int) == waiting(queue.take(seen), held),
                self.queue@.skip(index as int) == queue.skip(seen),
                self.held@ == held + granted(queue.take(seen), held),
                replies@ == grants(granted(queue.take(seen), held)),
            decreases self.queue.len() - index,
        {
            let ghost before = self.queue@;
            assert(before[index as int] == before.skip(index as int)[0]);
            assert(queue.skip(seen)[0] == queue[seen]);
            assert(queue.take(seen + 1).drop_last() =~= queue.take(seen));
            assert(queue.skip(seen + 1) =~= queue.skip(seen).skip(1));
            proof {
                scan_agrees(queue, held, seen, before);
            }
            if self.is_grantable(index) {
                let request = self.queue.remove(index);
                replies.push(
                    Reply {
                        result_handler: request.result_handler,
                        response: WebLockResponse::Granted { request_id: request.key.request_id },
                    },
                );
                assert(self.queue@.take(index as int) =~= before.take(index as int));
                assert(self.queue@.skip(index as int) =~= before.skip(index as int).skip(1));
                self.held.push(request);
                assert(self.held@ =~= held + granted(queue.take(seen + 1), held));
                assert(replies@ =~= grants(granted(queue.take(seen + 1), held)));
            } else {
                index += 1;
                assert(self.queue@.take(index as int) =~= before.take(index - 1).push(queue[seen]));
                assert(self.queue@.skip(index as int) =~= before.skip(index - 1).skip(1));
            }
            proof {
                seen = seen + 1;
            }
        }
        assert(queue.take(seen) =~= queue);
        assert(self.queue@.take(index as int) =~= self.queue@);
        replies
    }
}

/// Part-way through the queue, with the granted requests moved to the held locks, request `seen`
/// can be granted exactly where it could be granted at the start.
proof fn scan_agrees(
    queue: Seq<LockEntry>,
    held: Seq<LockEntry>,
    seen: int,
    current: Seq<LockEntry>,
)
    requires
        0 <= seen < queue.len(),
        waiting(queue.take(seen), held).len() < current.len(),
        current.take(waiting(queue.take(seen), held).len() as int) == waiting(
            queue.take(seen),
            held,
        ),
        current[waiting(queue.take(seen), held).len() as int] == queue[seen],
    ensures
        grantable(
            current,
            held + granted(queue.take(seen), held),
            waiting(queue.take(seen), held).len() as int,
        ) == grantable(queue.take(seen + 1), held, seen),
        queue.take(seen + 1).last() == queue[seen],
{
    let ahead = queue.take(seen);
    let wait = waiting(ahead, held);
    let grant = granted(ahead, held);
    let n = wait.len() as int;
    let all = held + grant;
    let next = queue.take(seen + 1);
    if grantable(current, all, n) {
        assert forall|i: int| 0 <= i < held.len() implies !conflicts(
            next[seen],
            #[trigger] held[i],
        ) by {
            assert(all[i] == held[i]);
        }
        assert forall|j: int| 0 <= j < seen implies !conflicts(next[seen], #[trigger] next[j]) by {
            assert(ahead[j] == next[j]);
            parts_of_queue(ahead, held, ahead[j]);
            if grant.contains(ahead[j]) {
                let k = choose|k: int| 0 <= k < grant.len() && grant[k] == ahead[j];
                assert(all[held.len() + k] == ahead[j]);
            } else {
                let k = choose|k: int| 0 <= k < wait.len() && wait[k] == ahead[j];
                assert(current.take(n)[k] == current[k]);
            }
        }
    }
    if grantable(next, held, seen) {
        assert forall|i: int| 0 <= i < all.len() implies !conflicts(
            current[n],
            #[trigger] all[i],
        ) by {
            if i >= held.len() {
                let k = i - held.len();
                assert(grant.contains(grant[k]));
                parts_of_queue(ahead, held, grant[k]);
                let j = choose|j: int| 0 <= j < ahead.len() && ahead[j] == grant[k];
                assert(next[j] == ahead[j]);
            }
        }
        assert forall|j: int| 0 <= j < n implies !conflicts(current[n], #[trigger] current[j]) by {
            assert(current.take(n)[j] == current[j]);
            assert(wait.contains(wait[j]));
            parts_of_queue(ahead, held, wait[j]);
            let k = choose|k: int| 0 <= k < ahead.len() && ahead[k] == wait[j];
            assert(next[k] == ahead[k]);
        }
    }
}

/// A request is in the queue exactly where it is granted or waits.
pub(crate) proof fn parts_of_queue(queue: Seq<LockEntry>, held: Seq<LockEntry>, entry: LockEntry)
    ensures
        queue.contains(entry) <==> (granted(queue, held).contains(entry) || waiting(
            queue,
            held,
        ).contains(entry)),
    decreases queue.len(),
{
    if queue.len() > 0 {
        let rest = queue.drop_last();
        let last = queue.last();
        parts_of_queue(rest, held, entry);
        assert(queue =~= rest.push(last));
        lemma_seq_contains_after_push(rest, last, entry);
        lemma_seq_contains_after_push(granted(rest, held), last, entry);
        lemma_seq_contains_after_push(waiting(rest, held), last, entry);
    }
}

/// Granting what can be granted leaves no request waiting that could be granted.
pub proof fn processing_settles(locks: LocksView)
    ensures
        locks.processed().settled(),
{
    granting_settles(locks.queue, locks.held);
}

proof fn granting_settles(queue: Seq<LockEntry>, held: Seq<LockEntry>)
    ensures
        none_grantable(waiting(queue, held), held + granted(queue, held)),
    decreases queue.len(),
{
    if queue.len() > 0 {
        let rest = queue.drop_last();
        let n = rest.len() as int;
        granting_settles(rest, held);
        let wait = waiting(rest, held);
        let all = held + granted(rest, held);
        let current = wait.push(queue.last());
        assert(queue.take(n) =~= rest);
        assert(queue.take(n + 1) =~= queue);
        assert(current.take(wait.len() as int) =~= wait);
        scan_agrees(queue, held, n, current);
        let after_wait = waiting(queue, held);
        let after_held = held + granted(queue, held);
        assert forall|p: int| 0 <= p < after_wait.len() implies !#[trigger] grantable(
            after_wait,
            after_held,
            p,
        ) by {
            if p < wait.len() {
                assert(!grantable(wait, all, p));
                assert(after_wait[p] == wait[p]);
                if grantable(after_wait, after_held, p) {
                    assert forall|i: int| 0 <= i < all.len() implies !conflicts(
                        wait[p],
                        #[trigger] all[i],
                    ) by {
                        assert(after_held[i] == all[i]);
                    }
                    assert forall|j: int| 0 <= j < p implies !conflicts(
                        wait[p],
                        #[trigger] wait[j],
                    ) by {
                        assert(after_wait[j] == wait[j]);
                    }
                }
            } else {
                assert(after_wait =~= current);
                assert(after_held =~= all);
            }
        }
    }
}

/// Granting what can be granted keeps the held locks free of conflicts.
pub proof fn processing_keeps_exclusion(locks: LocksView)
    requires
        locks.exclusive(),
    ensures
        locks.processed().exclusive(),
{
    granting_keeps_exclusion(locks.queue, locks.held);
}

proof fn granting_keeps_exclusion(queue: Seq<LockEntry>, held: Seq<LockEntry>)
    requires
        free_of_conflicts(held),
    ensures
        free_of_conflicts(held + granted(queue, held)),
    decreases queue.len(),
{
    if queue.len() == 0 {
        assert(held + granted(queue, held) =~= held);
    } else {
        let rest = queue.drop_last();
        let n = rest.len() as int;
        granting_keeps_exclusion(rest, held);
        let wait = waiting(rest, held);
        let all = held + granted(rest, held);
        let current = wait.push(queue.last());
        assert(queue.take(n) =~= rest);
        assert(queue.take(n + 1) =~= queue);
        assert(current.take(wait.len() as int) =~= wait);
        scan_agrees(queue, held, n, current);
        let after = held + granted(queue, held);
        if grantable(queue, held, n) {
            assert(after =~= all.push(queue.last()));
            assert forall|i: int, j: int| 0 <= i < j < after.len() implies !conflicts(
                #[trigger] after[i],
                #[trigger] after[j],
            ) by {
                assert(after[i] == all[i]);
                if j < all.len() {
                    assert(after[j] == all[j]);
                } else {
                    assert(!conflicts(current[wait.len() as int], all[i]));
                }
            }
        } else {
            assert(after =~= all);
        }
    }
}

/// Taking locks away keeps the others free of conflicts.
pub proof fn removal_keeps_exclusion(locks: LocksView, filter: LockFilter)
    requires
        locks.exclusive(),
    ensures
        locks.without_held(filter).exclusive(),
{
    filtered_is_exclusive(locks.held, filter.spared());
}

proof fn filtered_is_exclusive(held: Seq<LockEntry>, keeps: spec_fn(LockEntry) -> bool)
    requires
        free_of_conflicts(held),
    ensures
        free_of_conflicts(held.filter(keeps)),
    decreases held.len(),
{
    reveal(Seq::filter);
    if held.len() > 0 {
        let rest = held.drop_last();
        let kept = rest.filter(keeps);
        let after = held.filter(keeps);
        filtered_is_exclusive(rest, keeps);
        assert forall|i: int| 0 <= i < kept.len() implies !conflicts(
            #[trigger] kept[i],
            held.last(),
        ) by {
            assert(rest.filter(keeps).contains(kept[i]));
            rest.lemma_filter_contains_rev(keeps, kept[i]);
            let k = choose|k: int| 0 <= k < rest.len() && rest[k] == kept[i];
            assert(held[k] == kept[i]);
            assert(!conflicts(held[k], held[held.len() - 1]));
        }
        assert forall|i: int, j: int| 0 <= i < j < after.len() implies !conflicts(
            #[trigger] after[i],
            #[trigger] after[j],
        ) by {
            assert(after[i] == kept[i]);
            if j < kept.len() {
                assert(after[j] == kept[j]);
            }
        }
    }
}

impl LocksView {
    /// The locks and replies after `entry` has been requested. Stealing takes the held locks of
    /// that name away and puts the request first; a request that is to be granted at once or not
    /// at all is turned away where it would have to wait; any other joins the queue.
    pub open spec fn requested(self, entry: LockEntry, if_available: bool, steal: bool) -> (
        LocksView,
        Seq<Reply>,
    ) {
        if steal {
            let filter = LockFilter::Name(entry.name);
            let queued = self.without_held(filter).prepended(entry);
            (
                queued.processed(),
                thefts(self.held.filter(filter.selected())) + grants(
                    granted(queued.queue, queued.held),
                ),
            )
        } else {
            let queued = self.enqueued(entry);
            if if_available && !grantable(queued.queue, queued.held, self.queue.len() as int) {
                (
                    self,
                    seq![
                        Reply {
                            result_handler: entry.result_handler,
                            response: WebLockResponse::Unavailable {
                                request_id: entry.key.request_id,
                            },
                        },
                    ],
                )
            } else {
                (queued.processed(), grants(granted(queued.queue, queued.held)))
            }
        }
    }

    /// The locks after a queued request was dropped.
    pub open spec fn aborted(self, filter: LockFilter) -> (LocksView, Seq<Reply>) {
        let rest = self.without_queued(filter);
        (rest.processed(), grants(granted(rest.queue, rest.held)))
    }

    /// The locks after a held lock was let go.
    pub open spec fn released(self, filter: LockFilter) -> (LocksView, Seq<Reply>) {
        let rest = self.without_held(filter);
        (rest.processed(), grants(granted(rest.queue, rest.held)))
    }

    /// The locks after everything of a client or a pipeline was dropped.
    pub open spec fn departed(self, filter: LockFilter) -> (LocksView, Seq<Reply>) {
        let rest = self.without_held(filter).without_queued(filter);
        (rest.processed(), grants(granted(rest.queue, rest.held)))
    }
}

impl OriginLocks {
    /// Removes every held lock that the filter is about, leaving queued requests alone.
    fn remove_held_where(&mut self, filter: &LockFilter) -> (removed: Vec<LockEntry>)
        ensures
            final(self)@ == old(self)@.without_held(*filter),
            removed@ == old(self).held@.filter(filter.selected()),
    {
        take_matching(&mut self.held, filter)
    }

    /// Removes every held lock and queued request that the filter is about.
    fn remove_where(&mut self, filter: &LockFilter) -> (removed: Vec<LockEntry>)
        ensures
            final(self)@ == old(self)@.without_held(*filter).without_queued(*filter),
            removed@ == old(self).held@.filter(filter.selected()),
    {
        let removed = self.remove_held_where(filter);
        take_matching(&mut self.queue, filter);
        removed
    }

    fn abort(&mut self, filter: &LockFilter) -> (replies: Vec<Reply>)
        ensures
            (final(self)@, replies@) == old(self)@.aborted(*filter),
    {
        take_matching(&mut self.queue, filter);
        self.process_queue()
    }

    fn release(&mut self, filter: &LockFilter) -> (replies: Vec<Reply>)
        ensures
            (final(self)@, replies@) == old(self)@.released(*filter),
    {
        self.remove_held_where(filter);
        self.process_queue()
    }

    fn depart(&mut self, filter: &LockFilter) -> (replies: Vec<Reply>)
        ensures
            (final(self)@, replies@) == old(self)@.departed(*filter),
    {
        self.remove_where(filter);
        self.process_queue()
    }

    fn request(&mut self, entry: LockEntry, if_available: bool, steal: bool) -> (replies: Vec<
        Reply,
    >)
        ensures
            (final(self)@, replies@) == old(self)@.requested(entry, if_available, steal),
    {
        if steal {
            let filter = LockFilter::Name(entry.name.clone());
            let stolen = self.remove_held_where(&filter);
            let mut replies: Vec<Reply> = Vec::new();
            let mut i: usize = 0;
            while i < stolen.len()
                invariant
                    i <= stolen.len(),
                    replies@ == thefts(stolen@.take(i as int)),
                decreases stolen.len() - i,
            {
                let lock = &stolen[i];
                replies.push(
                    Reply {
                        result_handler: lock.result_handler,
                        response: WebLockResponse::Stolen { request_id: lock.key.request_id },
                    },
                );
                assert(stolen@.take(i + 1) =~= stolen@.take(i as int).push(stolen[i as int]));
                assert(replies@ =~= thefts(stolen@.take(i + 1)));
                i += 1;
            }
            assert(stolen@.take(i as int) =~= stolen@);
            let ghost queue = self.queue@;
            self.queue.insert(0, entry);
            assert(self.queue@ =~= seq![entry] + queue);
            let mut grants = self.process_queue();
            replies.append(&mut grants);
            return replies;
        }
        self.queue.push(entry);
        if if_available {
            let index: usize = self.queue.len() - 1;
            if !self.is_grantable(index) {
                let request = self.queue.remove(index);
                assert(self.queue@ =~= old(self).queue@);
                let mut replies: Vec<Reply> = Vec::new();
                replies.push(
                    Reply {
                        result_handler: request.result_handler,
                        response: WebLockResponse::Unavailable {
                            request_id: request.key.request_id,
                        },
                    },
                );
                assert(replies@ =~= old(self)@.requested(entry, if_available, steal).1);
                return replies;
            }
        }
        self.process_queue()
    }
}

/// What a client asks of the registry.
#[derive(Debug)]
pub enum WebLockMessage {
    Request {
        origin: String,
        client_id: String,
        request_id: u64,
        name: String,
        mode: WebLockMode,
        if_available: bool,
        steal: bool,
        pipeline_bound: bool,
        result_handler: u64,
    },
    Abort { origin: String, client_id: String, request_id: u64 },
    Release { origin: String, client_id: String, request_id: u64 },
    Query { origin: String, request_id: u64, result_handler: u64 },
    ClientGone { origin: String, client_id: String },
}

/// One origin and its locks.
#[derive(Debug)]
pub struct OriginState {
    pub origin: String,
    pub locks: OriginLocks,
}

/// Every origin's locks.
#[derive(Debug)]
pub struct WebLockRegistry {
    pub origins: Vec<OriginState>,
}

/// Place `i` of the list is that of `origin`.
pub open spec fn is_place_of(origins: Seq<OriginState>, origin: Seq<char>, i: int) -> bool {
    0 <= i < origins.len() && origins[i].origin@ == origin
}

/// The locks that the list holds for an origin; none where the origin is not listed.
pub open spec fn locks_in(origins: Seq<OriginState>, origin: Seq<char>) -> LocksView {
    if exists|i: int| is_place_of(origins, origin, i) {
        origins[choose|i: int| is_place_of(origins, origin, i)].locks@
    } else {
        LocksView::none()
    }
}

/// Every origin is listed once.
pub open spec fn listed_once(origins: Seq<OriginState>) -> bool {
    forall|i: int, j: int|
        0 <= i < j < origins.len() ==> (#[trigger] origins[i]).origin@ != (
        #[trigger] origins[j]).origin@
}

/// The locks have an entry, hold no two locks that conflict, and keep no request waiting that
/// could be granted.
pub open spec fn in_order(locks: LocksView) -> bool {
    !locks.is_empty() && locks.exclusive() && locks.settled()
}

impl WebLockRegistry {
    /// The locks of an origin.
    pub open spec fn locks_of(&self, origin: Seq<char>) -> LocksView {
        locks_in(self.origins@, origin)
    }

    /// Every origin is listed once, and its locks are in order.
    pub open spec fn wf(&self) -> bool {
        &&& listed_once(self.origins@)
        &&& forall|i: int|
            0 <= i < self.origins.len() ==> in_order((#[trigger] self.origins[i]).locks@)
    }

    /// Only the locks of `origin` differ from those of `before`, and they are now `locks`.
    pub open spec fn changed_only(
        &self,
        before: &WebLockRegistry,
        origin: Seq<char>,
        locks: LocksView,
    ) -> bool {
        &&& self.locks_of(origin) == locks
        &&& forall|other: Seq<char>|
            other != origin ==> #[trigger] self.locks_of(other) == before.locks_of(other)
    }
}

/// The origin that a message is about.
pub open spec fn message_origin(message: WebLockMessage) -> Seq<char> {
    match message {
        WebLockMessage::Request { origin, .. } => origin@,
        WebLockMessage::Abort { origin, .. } => origin@,
        WebLockMessage::Release { origin, .. } => origin@,
        WebLockMessage::Query { origin, .. } => origin@,
        WebLockMessage::ClientGone { origin, .. } => origin@,
    }
}

/// The locks of the message's origin after the message, and the replies that it causes. A query
/// changes nothing; its reply is stated by [`answers_query`].
pub open spec fn effect(locks: LocksView, pipeline_id: u64, message: WebLockMessage) -> (
    LocksView,
    Seq<Reply>,
) {
    match message {
        WebLockMessage::Request {
            origin: _,
            client_id,
            request_id,
            name,
            mode,
            if_available,
            steal,
            pipeline_bound,
            result_handler,
        } => locks.requested(
            LockEntry {
                key: RequestKey { client_id, request_id },
                pipeline_id: if pipeline_bound {
                    Some(pipeline_id)
                } else {
                    None
                },
                name,
                mode,
                result_handler,
            },
            if_available,
            steal,
        ),
        WebLockMessage::Abort { origin: _, client_id, request_id } => locks.aborted(
            LockFilter::Key(RequestKey { client_id, request_id }),
        ),
        WebLockMessage::Release { origin: _, client_id, request_id } => locks.released(
            LockFilter::Key(RequestKey { client_id, request_id }),
        ),
        WebLockMessage::ClientGone { origin: _, client_id } => locks.departed(
            LockFilter::Client(client_id),
        ),
        WebLockMessage::Query { .. } => (locks, seq![]),
    }
}

/// The one reply is a snapshot of `locks`, held locks and waiting requests each in their order.
pub open spec fn answers_query(
    replies: Seq<Reply>,
    locks: LocksView,
    query_id: u64,
    handler: u64,
) -> bool {
    &&& replies.len() == 1
    &&& replies[0].result_handler == handler
    &&& replies[0].response matches WebLockResponse::Snapshot { request_id, held, pending }
        && request_id == query_id && held@ == snapshots_of(locks.held) && pending@ == snapshots_of(
        locks.queue,
    )
}

proof fn place_is_unique(origins: Seq<OriginState>, origin: Seq<char>, i: int)
    requires
        listed_once(origins),
        is_place_of(origins, origin, i),
    ensures
        locks_in(origins, origin) == origins[i].locks@,
        forall|j: int| is_place_of(origins, origin, j) ==> i == j,
{
    let k = choose|k: int| is_place_of(origins, origin, k);
    assert(is_place_of(origins, origin, k));
    assert forall|j: int| is_place_of(origins, origin, j) implies i == j by {
        if i < j {
            assert(origins[i].origin@ != origins[j].origin@);
        } else if j < i {
            assert(origins[j].origin@ != origins[i].origin@);
        }
    }
}

/// Replacing the locks at one place changes the locks of that origin and of no other.
proof fn update_changes_one(
    before: Seq<OriginState>,
    after: Seq<OriginState>,
    i: int,
    other: Seq<char>,
)
    requires
        listed_once(before),
        0 <= i < before.len(),
        after.len() == before.len(),
        after[i].origin@ == before[i].origin@,
        forall|j: int| 0 <= j < before.len() && j != i ==> #[trigger] after[j] == before[j],
    ensures
        listed_once(after),
        locks_in(after, before[i].origin@) == after[i].locks@,
        other != before[i].origin@ ==> locks_in(after, other) == locks_in(before, other),
{
    assert forall|a: int, b: int| 0 <= a < b < after.len() implies (#[trigger] after[a]).origin@ != (
    #[trigger] after[b]).origin@ by {
        assert(before[a].origin@ != before[b].origin@);
    }
    assert(is_place_of(after, before[i].origin@, i));
    place_is_unique(after, before[i].origin@, i);
    if other != before[i].origin@ {
        if exists|j: int| is_place_of(before, other, j) {
            let j = choose|j: int| is_place_of(before, other, j);
            assert(is_place_of(after, other, j));
            place_is_unique(before, other, j);
            place_is_unique(after, other, j);
        } else {
            assert forall|j: int| !is_place_of(after, other, j) by {
                assert(!is_place_of(before, other, j));
                if 0 <= j < before.len() && j != i {
                    assert(after[j] == before[j]);
                }
            }
        }
    }
}

/// Taking one place out of the list leaves that origin without locks, and no other changed.
proof fn removal_changes_one(before: Seq<OriginState>, i: int, other: Seq<char>)
    requires
        listed_once(before),
        0 <= i < before.len(),
    ensures
        listed_once(before.remove(i)),
        locks_in(before.remove(i), before[i].origin@) == LocksView::none(),
        other != before[i].origin@ ==> locks_in(before.remove(i), other) == locks_in(
            before,
            other,
        ),
{
    let after = before.remove(i);
    assert forall|a: int, b: int| 0 <= a < b < after.len() implies (#[trigger] after[a]).origin@ != (
    #[trigger] after[b]).origin@ by {
        let x = if a < i { a } else { a + 1 };
        let y = if b < i { b } else { b + 1 };
        assert(before[x].origin@ != before[y].origin@);
    }
    assert forall|j: int| !is_place_of(after, before[i].origin@, j) by {
        if 0 <= j < after.len() {
            let x = if j < i { j } else { j + 1 };
            assert(after[j] == before[x]);
            if x < i {
                assert(before[x].origin@ != before[i].origin@);
            } else {
                assert(before[i].origin@ != before[x].origin@);
            }
        }
    }
    if other != before[i].origin@ {
        if exists|j: int| is_place_of(before, other, j) {
            let j = choose|j: int| is_place_of(before, other, j);
            let x = if j < i { j } else { j - 1 };
            assert(after[x] == before[j]);
            assert(is_place_of(after, other, x));
            place_is_unique(before, other, j);
            place_is_unique(after, other, x);
        } else {
            assert forall|j: int| !is_place_of(after, other, j) by {
                if 0 <= j < after.len() {
                    let x = if j < i { j } else { j + 1 };
                    assert(after[j] == before[x]);
                    assert(!is_place_of(before, other, x));
                }
            }
        }
    }
}

/// Listing an origin that was not listed gives it its locks, and changes no other.
proof fn push_changes_one(before: Seq<OriginState>, state: OriginState, other: Seq<char>)
    requires
        listed_once(before),
        forall|j: int| !is_place_of(before, state.origin@, j),
    ensures
        listed_once(before.push(state)),
        locks_in(before.push(state), state.origin@) == state.locks@,
        other != state.origin@ ==> locks_in(before.push(state), other) == locks_in(before, other),
{
    let after = before.push(state);
    let n = before.len() as int;
    assert forall|a: int, b: int| 0 <= a < b < after.len() implies (#[trigger] after[a]).origin@ != (
    #[trigger] after[b]).origin@ by {
        assert(after[a] == before[a]);
        if b < n {
            assert(after[b] == before[b]);
            assert(before[a].origin@ != before[b].origin@);
        } else {
            assert(!is_place_of(before, state.origin@, a));
        }
    }
    assert(is_place_of(after, state.origin@, n));
    place_is_unique(after, state.origin@, n);
    if other != state.origin@ {
        if exists|j: int| is_place_of(before, other, j) {
            let j = choose|j: int| is_place_of(before, other, j);
            assert(is_place_of(after, other, j));
            place_is_unique(before, other, j);
            place_is_unique(after, other, j);
        } else {
            assert forall|j: int| !is_place_of(after, other, j) by {
                assert(!is_place_of(before, other, j));
            }
        }
    }
}

/// What a message does to the locks of its origin leaves them in order, or empty.
pub proof fn effect_keeps_order(locks: LocksView, pipeline_id: u64, message: WebLockMessage)
    requires
        locks.exclusive(),
        locks.settled(),
    ensures
        effect(locks, pipeline_id, message).0.exclusive(),
        effect(locks, pipeline_id, message).0.settled(),
        message is Request ==> !effect(locks, pipeline_id, message).0.is_empty(),
{
    match message {
        WebLockMessage::Request {
            origin,
            client_id,
            request_id,
            name,
            mode,
            if_available,
            steal,
            pipeline_bound,
            result_handler,
        } => {
            let entry = LockEntry {
                key: RequestKey { client_id, request_id },
                pipeline_id: if pipeline_bound {
                    Some(pipeline_id)
                } else {
                    None
                },
                name,
                mode,
                result_handler,
            };
            request_keeps_order(locks, entry, if_available, steal);
        },
        WebLockMessage::Abort { origin, client_id, request_id } => {
            let filter = LockFilter::Key(RequestKey { client_id, request_id });
            processing_keeps_exclusion(locks.without_queued(filter));
            processing_settles(locks.without_queued(filter));
        },
        WebLockMessage::Release { origin, client_id, request_id } => {
            let filter = LockFilter::Key(RequestKey { client_id, request_id });
            removal_keeps_exclusion(locks, filter);
            processing_keeps_exclusion(locks.without_held(filter));
            processing_settles(locks.without_held(filter));
        },
        WebLockMessage::ClientGone { origin, client_id } => {
            departure_keeps_order(locks, LockFilter::Client(client_id));
        },
        WebLockMessage::Query { .. } => {},
    }
}

proof fn departure_keeps_order(locks: LocksView, filter: LockFilter)
    requires
        locks.exclusive(),
    ensures
        locks.departed(filter).0.exclusive(),
        locks.departed(filter).0.settled(),
{
    removal_keeps_exclusion(locks, filter);
    let rest = locks.without_held(filter).without_queued(filter);
    processing_keeps_exclusion(rest);
    processing_settles(rest);
}

proof fn request_keeps_order(
    locks: LocksView,
    entry: LockEntry,
    if_available: bool,
    steal: bool,
)
    requires
        locks.exclusive(),
        locks.settled(),
    ensures
        locks.requested(entry, if_available, steal).0.exclusive(),
        locks.requested(entry, if_available, steal).0.settled(),
        !locks.requested(entry, if_available, steal).0.is_empty(),
{
    if steal {
        let filter = LockFilter::Name(entry.name);
        removal_keeps_exclusion(locks, filter);
        let queued = locks.without_held(filter).prepended(entry);
        processing_keeps_exclusion(queued);
        processing_settles(queued);
        processing_keeps_count(queued.queue, queued.held);
    } else {
        let queued = locks.enqueued(entry);
        processing_keeps_exclusion(queued);
        processing_settles(queued);
        processing_keeps_count(queued.queue, queued.held);
    }
}

/// Granting moves requests and loses none.
proof fn processing_keeps_count(queue: Seq<LockEntry>, held: Seq<LockEntry>)
    ensures
        granted(queue, held).len() + waiting(queue, held).len() == queue.len(),
    decreases queue.len(),
{
    if queue.len() > 0 {
        processing_keeps_count(queue.drop_last(), held);
    }
}

impl Default for WebLockRegistry {
    /// A registry without locks.
    fn default() -> (registry: Self)
        ensures
            registry.wf(),
            forall|origin: Seq<char>| #[trigger]
                registry.locks_of(origin) == LocksView::none(),
    {
        WebLockRegistry { origins: Vec::new() }
    }
}

impl WebLockRegistry {
    /// The place of an origin in the list.
    fn find(&self, origin: &String) -> (place: Option<usize>)
        ensures
            place matches Some(i) ==> is_place_of(self.origins@, origin@, i as int),
            place is None ==> forall|i: int| !is_place_of(self.origins@, origin@, i),
    {
        let mut i: usize = 0;
        while i < self.origins.len()
            invariant
                i <= self.origins.len(),
                forall|j: int| 0 <= j < i ==> !is_place_of(self.origins@, origin@, j),
            decreases self.origins.len() - i,
        {
            if self.origins[i].origin == *origin {
                return Some(i);
            }
            i += 1;
        }
        None
    }

    /// Takes the origin at place `i` off the list where nothing is left of it.
    fn drop_if_empty(&mut self, i: usize) -> (dropped: bool)
        requires
            i < old(self).origins.len(),
            listed_once(old(self).origins@),
        ensures
            dropped == old(self).origins[i as int].locks@.is_empty(),
            final(self).origins@ == if dropped {
                old(self).origins@.remove(i as int)
            } else {
                old(self).origins@
            },
            listed_once(final(self).origins@),
            forall|origin: Seq<char>| #[trigger]
                final(self).locks_of(origin) == old(self).locks_of(origin),
            (old(self).origins[i as int].locks@.exclusive() && old(
                self,
            ).origins[i as int].locks@.settled() && forall|j: int|
                0 <= j < old(self).origins.len() && j != i ==> in_order(
                    (#[trigger] old(self).origins[j]).locks@,
                )) ==> final(self).wf(),
    {
        let ghost before = self.origins@;
        if self.origins[i].locks.is_empty() {
            self.origins.remove(i);
            proof {
                let gone = before[i as int].origin@;
                place_is_unique(before, gone, i as int);
                assert(before[i as int].locks@ == LocksView::none()) by {
                    assert(before[i as int].locks@.queue =~= seq![]);
                    assert(before[i as int].locks@.held =~= seq![]);
                }
                assert forall|origin: Seq<char>| #[trigger]
                    self.locks_of(origin) == locks_in(before, origin) by {
                    removal_changes_one(before, i as int, origin);
                }
                removal_changes_one(before, i as int, gone);
            }
            return true;
        }
        false
    }

    /// Carries out a client's message, and hands back the replies that it causes.
    pub fn handle_message(&mut self, pipeline_id: u64, message: WebLockMessage) -> (replies: Vec<
        Reply,
    >)
        requires
            old(self).wf(),
        ensures
            final(self).wf(),
            final(self).changed_only(
                &*old(self),
                message_origin(message),
                effect(old(self).locks_of(message_origin(message)), pipeline_id, message).0,
            ),
            match message {
                WebLockMessage::Query { origin, request_id, result_handler } => answers_query(
                    replies@,
                    old(self).locks_of(origin@),
                    request_id,
                    result_handler,
                ),
                _ => replies@ == effect(
                    old(self).locks_of(message_origin(message)),
                    pipeline_id,
                    message,
                ).1,
            },
    {
        let ghost before = self.origins@;
        let ghost about = message_origin(message);
        let ghost locks = self.locks_of(about);
        proof {
            order_of_listed(*self, about);
            effect_keeps_order(locks, pipeline_id, message);
            if !(message is Request) {
                no_locks_no_effect(pipeline_id, message);
            }
        }
        match message {
            WebLockMessage::Request {
                origin,
                client_id,
                request_id,
                name,
                mode,
                if_available,
                steal,
                pipeline_bound,
                result_handler,
            } => {
                let entry = LockEntry {
                    key: RequestKey { client_id, request_id },
                    pipeline_id: if pipeline_bound {
                        Some(pipeline_id)
                    } else {
                        None
                    },
                    name,
                    mode,
                    result_handler,
                };
                self.request(origin, entry, if_available, steal)
            },
            WebLockMessage::Abort { origin, client_id, request_id } => {
                let filter = LockFilter::Key(RequestKey { client_id, request_id });
                match self.find(&origin) {
                    Some(i) => {
                        proof {
                            place_is_unique(before, about, i as int);
                        }
                        let replies = self.origins[i].locks.abort(&filter);
                        proof {
                            self.changed_at(before, i as int);
                        }
                        self.drop_if_empty(i);
                        replies
                    },
                    None => Vec::new(),
                }
            },
            WebLockMessage::Release { origin, client_id, request_id } => {
                let filter = LockFilter::Key(RequestKey { client_id, request_id });
                match self.find(&origin) {
                    Some(i) => {
                        proof {
                            place_is_unique(before, about, i as int);
                        }
                        let replies = self.origins[i].locks.release(&filter);
                        proof {
                            self.changed_at(before, i as int);
                        }
                        self.drop_if_empty(i);
                        replies
                    },
                    None => Vec::new(),
                }
            },
            WebLockMessage::Query { origin, request_id, result_handler } => {
                let (held, pending) = match self.find(&origin) {
                    Some(i) => {
                        proof {
                            place_is_unique(before, about, i as int);
                        }
                        (infos(&self.origins[i].locks.held), infos(&self.origins[i].locks.queue))
                    },
                    None => (Vec::new(), Vec::new()),
                };
                assert(held@ =~= snapshots_of(locks.held));
                assert(pending@ =~= snapshots_of(locks.queue));
                let mut replies: Vec<Reply> = Vec::new();
                replies.push(
                    Reply {
                        result_handler,
                        response: WebLockResponse::Snapshot { request_id, held, pending },
                    },
                );
                replies
            },
            WebLockMessage::ClientGone { origin, client_id } => {
                let filter = LockFilter::Client(client_id);
                match self.find(&origin) {
                    Some(i) => {
                        proof {
                            place_is_unique(before, about, i as int);
                        }
                        let replies = self.origins[i].locks.depart(&filter);
                        proof {
                            self.changed_at(before, i as int);
                        }
                        self.drop_if_empty(i);
                        replies
                    },
                    None => Vec::new(),
                }
            },
        }
    }

    /// Requests a lock.
    fn request(
        &mut self,
        origin: String,
        entry: LockEntry,
        if_available: bool,
        steal: bool,
    ) -> (replies: Vec<Reply>)
        requires
            old(self).wf(),
        ensures
            final(self).wf(),
            final(self).changed_only(
                &*old(self),
                origin@,
                old(self).locks_of(origin@).requested(entry, if_available, steal).0,
            ),
            replies@ == old(self).locks_of(origin@).requested(entry, if_available, steal).1,
    {
        let ghost before = self.origins@;
        let ghost about = origin@;
        let ghost locks = self.locks_of(about);
        proof {
            order_of_listed(*self, about);
            request_keeps_order(locks, entry, if_available, steal);
        }
        match self.find(&origin) {
            Some(i) => {
                proof {
                    place_is_unique(before, about, i as int);
                }
                let replies = self.origins[i].locks.request(entry, if_available, steal);
                proof {
                    self.changed_at(before, i as int);
                }
                replies
            },
            None => {
                let mut locks = OriginLocks { queue: Vec::new(), held: Vec::new() };
                assert(locks@.queue =~= seq![] && locks@.held =~= seq![]);
                let replies = locks.request(entry, if_available, steal);
                let state = OriginState { origin, locks };
                self.origins.push(state);
                proof {
                    assert forall|other: Seq<char>| other != about implies #[trigger]
                        self.locks_of(other) == locks_in(before, other) by {
                        push_changes_one(before, state, other);
                    }
                    push_changes_one(before, state, about);
                    assert forall|j: int| 0 <= j < self.origins.len() implies in_order(
                        (#[trigger] self.origins[j]).locks@,
                    ) by {
                        if j < before.len() {
                            assert(self.origins@[j] == before[j]);
                        }
                    }
                }
                replies
            },
        }
    }

    /// After the locks at place `i` were replaced, that origin has the new locks and every other
    /// origin the old ones.
    proof fn changed_at(&self, before: Seq<OriginState>, i: int)
        requires
            listed_once(before),
            0 <= i < before.len(),
            self.origins@.len() == before.len(),
            self.origins@[i].origin@ == before[i].origin@,
            forall|j: int|
                0 <= j < before.len() && j != i ==> #[trigger] self.origins@[j] == before[j],
        ensures
            listed_once(self.origins@),
            self.locks_of(before[i].origin@) == self.origins@[i].locks@,
            forall|other: Seq<char>|
                other != before[i].origin@ ==> #[trigger] self.locks_of(other) == locks_in(
                    before,
                    other,
                ),
    {
        assert forall|other: Seq<char>| other != before[i].origin@ implies #[trigger]
            self.locks_of(other) == locks_in(before, other) by {
            update_changes_one(before, self.origins@, i, other);
        }
        update_changes_one(before, self.origins@, i, before[i].origin@);
    }
}

/// The locks of any origin of a well-formed registry are free of conflicts and settled.
pub proof fn order_of_listed(registry: WebLockRegistry, origin: Seq<char>)
    requires
        registry.wf(),
    ensures
        registry.locks_of(origin).exclusive(),
        registry.locks_of(origin).settled(),
{
    if exists|i: int| is_place_of(registry.origins@, origin, i) {
        let i = choose|i: int| is_place_of(registry.origins@, origin, i);
        assert(in_order(registry.origins@[i].locks@));
    }
}

/// A message other than a request does nothing to an origin without locks.
pub proof fn no_locks_no_effect(pipeline_id: u64, message: WebLockMessage)
    requires
        !(message is Request),
    ensures
        effect(LocksView::none(), pipeline_id, message) == (LocksView::none(), Seq::<Reply>::empty()),
{
    reveal(Seq::filter);
    assert(grants(seq![]) =~= seq![]);
    assert(Seq::<LockEntry>::empty() + Seq::<LockEntry>::empty() =~= seq![]);
}

/// The replies to everything that is granted once what the filter is about has gone, origin by
/// origin.
pub open spec fn departures(origins: Seq<OriginState>, filter: LockFilter) -> Seq<Reply>
    decreases origins.len(),
{
    if origins.len() == 0 {
        seq![]
    } else {
        departures(origins.drop_last(), filter) + origins.last().locks@.departed(filter).1
    }
}

impl WebLockRegistry {
    /// Releases every lock and drops every request that arrived from the pipeline and dies with
    /// it.
    pub fn pipeline_exited(&mut self, pipeline_id: u64) -> (replies: Vec<Reply>)
        requires
            old(self).wf(),
        ensures
            final(self).wf(),
            forall|origin: Seq<char>| #[trigger]
                final(self).locks_of(origin) == old(self).locks_of(origin).departed(
                    LockFilter::Pipeline(pipeline_id),
                ).0,
            replies@ == departures(old(self).origins@, LockFilter::Pipeline(pipeline_id)),
    {
        let filter = LockFilter::Pipeline(pipeline_id);
        let ghost before = self.origins@;
        let mut replies: Vec<Reply> = Vec::new();
        let mut i: usize = 0;
        assert(before.take(0) =~= seq![]);
        while i < self.origins.len()
            invariant
                i <= self.origins.len() == before.len(),
                listed_once(before),
                forall|j: int| 0 <= j < before.len() ==> in_order((#[trigger] before[j]).locks@),
                forall|j: int|
                    0 <= j < before.len() ==> (#[trigger] self.origins[j]).origin@
                        == before[j].origin@,
                forall|j: int|
                    0 <= j < i ==> (#[trigger] self.origins[j]).locks@ == before[j].locks@.departed(
                        filter,
                    ).0,
                forall|j: int| i <= j < before.len() ==> #[trigger] self.origins[j] == before[j],
                replies@ == departures(before.take(i as int), filter),
            decreases self.origins.len() - i,
        {
            let mut granted = self.origins[i].locks.depart(&filter);
            replies.append(&mut granted);
            assert(before.take(i + 1).drop_last() =~= before.take(i as int));
            i += 1;
        }
        assert(before.take(i as int) =~= before);
        let ghost all = self.origins@;
        proof {
            assert forall|origin: Seq<char>| #[trigger]
                self.locks_of(origin) == locks_in(before, origin).departed(filter).0 by {
                if exists|k: int| is_place_of(before, origin, k) {
                    let k = choose|k: int| is_place_of(before, origin, k);
                    assert(is_place_of(all, origin, k));
                    place_is_unique(before, origin, k);
                    assert(listed_once(all)) by {
                        same_origins(before, all);
                    }
                    place_is_unique(all, origin, k);
                } else {
                    assert forall|k: int| !is_place_of(all, origin, k) by {
                        assert(!is_place_of(before, origin, k));
                    }
                    nothing_departs(filter);
                }
            }
            same_origins(before, all);
            assert forall|j: int| 0 <= j < all.len() implies (
            #[trigger] all[j]).locks@.exclusive() && all[j].locks@.settled() by {
                assert(in_order(before[j].locks@));
                departure_keeps_order(before[j].locks@, filter);
            }
        }
        let ghost departed = *self;
        let mut k: usize = 0;
        while k < self.origins.len()
            invariant
                k <= self.origins.len(),
                listed_once(self.origins@),
                forall|j: int| 0 <= j < k ==> in_order((#[trigger] self.origins[j]).locks@),
                forall|j: int|
                    k <= j < self.origins.len() ==> (
                    #[trigger] self.origins[j]).locks@.exclusive()
                        && self.origins[j].locks@.settled(),
                forall|origin: Seq<char>| #[trigger]
                    self.locks_of(origin) == departed.locks_of(origin),
            decreases self.origins.len() - k,
        {
            let ghost list = self.origins@;
            if self.drop_if_empty(k) {
                assert forall|j: int| k <= j < self.origins.len() implies (
                #[trigger] self.origins[j]).locks@.exclusive()
                    && self.origins[j].locks@.settled() by {
                    assert(self.origins@[j] == list[j + 1]);
                }
                assert forall|j: int| 0 <= j < k implies in_order(
                    (#[trigger] self.origins[j]).locks@,
                ) by {
                    assert(self.origins@[j] == list[j]);
                }
            } else {
                k += 1;
            }
        }
        replies
    }
}

/// A list of the same origins lists them once too.
proof fn same_origins(before: Seq<OriginState>, after: Seq<OriginState>)
    requires
        listed_once(before),
        before.len() == after.len(),
        forall|j: int| 0 <= j < before.len() ==> (#[trigger] after[j]).origin@ == before[j].origin@,
    ensures
        listed_once(after),
{
    assert forall|a: int, b: int| 0 <= a < b < after.len() implies (#[trigger] after[a]).origin@ != (
    #[trigger] after[b]).origin@ by {
        assert(before[a].origin@ != before[b].origin@);
    }
}

proof fn nothing_departs(filter: LockFilter)
    ensures
        LocksView::none().departed(filter).0 == LocksView::none(),
{
    reveal(Seq::filter);
    assert(Seq::<LockEntry>::empty() + Seq::<LockEntry>::empty() =~= seq![]);
}

/// A lock held exclusively is the only lock of its name that is held.
pub proof fn exclusive_holder_is_alone(
    registry: WebLockRegistry,
    origin: Seq<char>,
    i: int,
    j: int,
)
    requires
        registry.wf(),
        0 <= i < registry.locks_of(origin).held.len(),
        0 <= j < registry.locks_of(origin).held.len(),
        registry.locks_of(origin).held[i].mode == WebLockMode::Exclusive,
        registry.locks_of(origin).held[j].name@ == registry.locks_of(origin).held[i].name@,
    ensures
        i == j,
{
    order_of_listed(registry, origin);
    let held = registry.locks_of(origin).held;
    if i < j {
        assert(!conflicts(held[i], held[j]));
    } else if j < i {
        assert(!conflicts(held[j], held[i]));
    }
}

/// Requests of one name are granted in the order in which they queue: one that conflicts with a
/// request ahead of it waits for it.
pub proof fn no_overtaking(queue: Seq<LockEntry>, held: Seq<LockEntry>, first: int, second: int)
    requires
        0 <= first < second < queue.len(),
        conflicts(queue[second], queue[first]),
    ensures
        !grantable(queue, held, second),
{
    assert(conflicts(queue[second], queue[first]));
}

/// A stolen lock goes to the thief: the request that steals is granted at once.
pub proof fn thief_is_granted(locks: LocksView, entry: LockEntry)
    ensures
        locks.requested(entry, false, true).0.held.contains(entry),
{
    let filter = LockFilter::Name(entry.name);
    let rest = locks.without_held(filter);
    let queued = rest.prepended(entry);
    assert(queued.queue[0] == entry);
    broadcast use vstd::seq_lib::group_filter_ensures;

    assert(grantable(queued.queue, queued.held, 0));
    first_is_granted(queued.queue, queued.held);
    let grants = granted(queued.queue, queued.held);
    let k = choose|k: int| 0 <= k < grants.len() && grants[k] == entry;
    assert(queued.processed().held[queued.held.len() + k] == entry);
}

proof fn first_is_granted(queue: Seq<LockEntry>, held: Seq<LockEntry>)
    requires
        queue.len() > 0,
        grantable(queue, held, 0),
    ensures
        granted(queue, held).contains(queue[0]),
    decreases queue.len(),
{
    if queue.len() == 1 {
        assert(granted(queue.drop_last(), held) =~= seq![]);
        assert(granted(queue, held)[0] == queue[0]);
    } else {
        let rest = queue.drop_last();
        assert(rest[0] == queue[0]);
        first_is_granted(rest, held);
        lemma_seq_contains_after_push(granted(rest, held), queue.last(), queue[0]);
    }
}

} // verus!
