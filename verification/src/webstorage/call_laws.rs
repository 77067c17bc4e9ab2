//! How calls of web storage relate to each other.

use vstd::prelude::*;
use vstd::seq_lib::lemma_seq_contains_after_push;
use vstd::string::*;

use crate::error::option_text;
use crate::ids::name_uuid;
use crate::text::texts;
use crate::text_map::{bytes, TextItem};
use crate::webstorage::engine::{
    EngineCall, WebStorageEngine, WebStorageEngineFactory, WebStorageType,
};
use crate::webstorage::entry::OriginEntry;
use crate::webstorage::laws::set_items_are_read_back;
use crate::webstorage::manager::{
    location_namespace, location_scope, origin_location, session_items, session_set_effect,
    set_decision, set_effect, with_origin, Answered, QUOTA_SIZE_LIMIT, SetAnswer, SetDecision,
    WebStorageManager,
};
use crate::webstorage::origins::{going, of_sites, origin_names, staying, OriginDescriptor};
use crate::webstorage::session_clone::{
    failed_with, filled, has_failed, has_session, CloneFailures, EngineFailure,
};
use crate::webstorage::site_data::{relisted, removes, OriginRemoval, SiteClearing};
use crate::webstorage::slots::{only_origins, only_webview, without_origins, without_webview};

verus! {

/// The origin's items are at hand: its engine is open, or they are kept in memory.
pub open spec fn at_hand<E: WebStorageEngine, F: WebStorageEngineFactory<E>>(
    manager: WebStorageManager<E, F>,
    storage_type: WebStorageType,
    webview: u64,
    origin: Seq<char>,
) -> bool {
    manager.by_engine(storage_type) ==> manager.is_open(storage_type, webview, origin)
}

/// A write that no engine failed leaves the items at hand.
proof fn written_items_are_at_hand<E: WebStorageEngine, F: WebStorageEngineFactory<E>>(
    before: WebStorageManager<E, F>,
    after: WebStorageManager<E, F>,
    storage_type: WebStorageType,
    webview: u64,
    origin: Seq<char>,
    listed: bool,
    error: Option<String>,
)
    requires
        after.wrote_to(&before, storage_type, webview, origin, listed, error),
        error is None,
    ensures
        at_hand(after, storage_type, webview, origin),
{
}

/// What is read of items that are at hand is what they are, and reading leaves them.
proof fn reads_are_of_the_items<E: WebStorageEngine, F: WebStorageEngineFactory<E>>(
    before: WebStorageManager<E, F>,
    after: WebStorageManager<E, F>,
    storage_type: WebStorageType,
    webview: u64,
    origin: Seq<char>,
    error: Option<String>,
)
    requires
        at_hand(before, storage_type, webview, origin),
        after.consulted(&before, storage_type, webview, origin, error),
    ensures
        after.items_of(storage_type, webview, origin) == before.items_of(
            storage_type,
            webview,
            origin,
        ),
{
}

/// What was set is what is read next.
pub proof fn what_is_set_is_read<E: WebStorageEngine, F: WebStorageEngineFactory<E>>(
    before: WebStorageManager<E, F>,
    between: WebStorageManager<E, F>,
    after: WebStorageManager<E, F>,
    storage_type: WebStorageType,
    webview: u64,
    origin: Seq<char>,
    name: Seq<char>,
    value: Seq<char>,
    set: Answered<SetAnswer>,
    read: Answered<Option<String>>,
)
    requires
        between.item_set(&before, storage_type, webview, origin, name, value, set),
        set.error is None,
        set.value is Ok,
        after.item_read(&between, storage_type, webview, origin, name, read),
        read.error is None,
    ensures
        option_text(read.value) == Some(value),
{
    written_items_are_at_hand(before, between, storage_type, webview, origin, true, set.error);
    reads_are_of_the_items(between, after, storage_type, webview, origin, read.error);
    if before.by_engine(storage_type) {
        let engine = choose|engine: E| #[trigger]
            before.is_engine_of(storage_type, webview, origin, engine)
                && set_effect(
                set.value,
                engine.counted_size(),
                engine.contents(),
                between.items_of(storage_type, webview, origin),
                name,
                value,
            );
        set_items_are_read_back(
            set.value,
            engine.counted_size(),
            engine.contents(),
            between.items_of(storage_type, webview, origin),
            name,
            value,
        );
    }
}

/// Setting one item, whatever comes of it, leaves what is read under every other name, and a set
/// that is refused leaves what is read under its own.
pub proof fn setting_spares_other_items<E: WebStorageEngine, F: WebStorageEngineFactory<E>>(
    before: WebStorageManager<E, F>,
    between: WebStorageManager<E, F>,
    after: WebStorageManager<E, F>,
    storage_type: WebStorageType,
    webview: u64,
    origin: Seq<char>,
    name: Seq<char>,
    value: Seq<char>,
    set: Answered<SetAnswer>,
    other: Seq<char>,
    read: Answered<Option<String>>,
)
    requires
        at_hand(before, storage_type, webview, origin),
        between.item_set(&before, storage_type, webview, origin, name, value, set),
        set.error is None,
        after.item_read(&between, storage_type, webview, origin, other, read),
        read.error is None,
        other != name || set.value is Err,
    ensures
        option_text(read.value) == before.items_of(storage_type, webview, origin).get(other),
{
    written_items_are_at_hand(before, between, storage_type, webview, origin, true, set.error);
    reads_are_of_the_items(between, after, storage_type, webview, origin, read.error);
    if before.by_engine(storage_type) {
        let engine = choose|engine: E| #[trigger]
            before.is_engine_of(storage_type, webview, origin, engine)
                && set_effect(
                set.value,
                engine.counted_size(),
                engine.contents(),
                between.items_of(storage_type, webview, origin),
                name,
                value,
            );
        assert(engine == before.engine_at(storage_type, webview, origin));
    }
}

/// What was removed is not read any more, and its value was answered; every other item is.
pub proof fn what_is_removed_is_gone<E: WebStorageEngine, F: WebStorageEngineFactory<E>>(
    before: WebStorageManager<E, F>,
    between: WebStorageManager<E, F>,
    after: WebStorageManager<E, F>,
    storage_type: WebStorageType,
    webview: u64,
    origin: Seq<char>,
    name: Seq<char>,
    removed: Answered<Option<String>>,
    other: Seq<char>,
    read: Answered<Option<String>>,
)
    requires
        at_hand(before, storage_type, webview, origin),
        between.item_removed(&before, storage_type, webview, origin, name, removed),
        removed.error is None,
        after.item_read(&between, storage_type, webview, origin, other, read),
        read.error is None,
    ensures
        other == name ==> read.value is None,
        other != name ==> option_text(read.value) == before.items_of(
            storage_type,
            webview,
            origin,
        ).get(other),
        option_text(removed.value) == before.items_of(storage_type, webview, origin).get(name),
{
    written_items_are_at_hand(before, between, storage_type, webview, origin, false, removed.error);
    reads_are_of_the_items(between, after, storage_type, webview, origin, read.error);
    let items = choose|items: Map<Seq<char>, Seq<char>>| #[trigger]
        before.starts_from(storage_type, webview, origin, items) && option_text(removed.value)
            == items.get(name) && between.items_of(storage_type, webview, origin) == items.remove(
            name,
        );
    starts_from_own(before, storage_type, webview, origin, items);
}

proof fn starts_from_own<E: WebStorageEngine, F: WebStorageEngineFactory<E>>(
    before: WebStorageManager<E, F>,
    storage_type: WebStorageType,
    webview: u64,
    origin: Seq<char>,
    items: Map<Seq<char>, Seq<char>>,
)
    requires
        at_hand(before, storage_type, webview, origin),
        before.starts_from(storage_type, webview, origin, items),
    ensures
        items == before.items_of(storage_type, webview, origin),
{
}

/// After a clear nothing is read, there are no keys, and whether there was anything was answered.
pub proof fn what_is_cleared_is_empty<E: WebStorageEngine, F: WebStorageEngineFactory<E>>(
    before: WebStorageManager<E, F>,
    between: WebStorageManager<E, F>,
    after: WebStorageManager<E, F>,
    storage_type: WebStorageType,
    webview: u64,
    origin: Seq<char>,
    cleared: Answered<bool>,
    name: Seq<char>,
    read: Answered<Option<String>>,
)
    requires
        at_hand(before, storage_type, webview, origin),
        between.items_cleared(&before, storage_type, webview, origin, cleared),
        cleared.error is None,
        after.item_read(&between, storage_type, webview, origin, name, read),
        read.error is None,
    ensures
        read.value is None,
        cleared.value <==> before.items_of(storage_type, webview, origin) != Map::<
            Seq<char>,
            Seq<char>,
        >::empty(),
{
    written_items_are_at_hand(before, between, storage_type, webview, origin, false, cleared.error);
    reads_are_of_the_items(between, after, storage_type, webview, origin, read.error);
    let items = choose|items: Map<Seq<char>, Seq<char>>| #[trigger]
        before.starts_from(storage_type, webview, origin, items) && cleared.value == (items != Map::<
            Seq<char>,
            Seq<char>,
        >::empty());
    starts_from_own(before, storage_type, webview, origin, items);
}

/// The keys that are listed are those under which something is read, each once; the length is their
/// number, and the key at a place is the one listed there.
pub proof fn keys_are_those_that_can_be_read<E: WebStorageEngine, F: WebStorageEngineFactory<E>>(
    before: WebStorageManager<E, F>,
    after: WebStorageManager<E, F>,
    other: WebStorageManager<E, F>,
    storage_type: WebStorageType,
    webview: u64,
    origin: Seq<char>,
    keys: Answered<Vec<String>>,
    name: Seq<char>,
    read: Answered<Option<String>>,
)
    requires
        at_hand(before, storage_type, webview, origin),
        after.keys_read(&before, storage_type, webview, origin, keys),
        keys.error is None,
        other.item_read(&before, storage_type, webview, origin, name, read),
        read.error is None,
    ensures
        texts(keys.value@).contains(name) <==> read.value is Some,
        texts(keys.value@).no_duplicates(),
{
    reads_are_of_the_items(before, after, storage_type, webview, origin, keys.error);
    reads_are_of_the_items(before, other, storage_type, webview, origin, read.error);
}

/// Items in memory are refused exactly where they would take more bytes than the quota.
pub proof fn the_quota_refuses_only_what_exceeds_it(
    answer: SetAnswer,
    total: nat,
    before: Map<Seq<char>, Seq<char>>,
    after: Map<Seq<char>, Seq<char>>,
    name: Seq<char>,
    value: Seq<char>,
)
    requires
        session_set_effect(answer, total, before, after, name, value),
        before.contains_key(name) ==> bytes(before[name]).len() <= total,
    ensures
        before.contains_key(name) ==> (answer is Err <==> total - bytes(before[name]).len() + bytes(
            value,
        ).len() > QUOTA_SIZE_LIMIT),
        !before.contains_key(name) ==> (answer is Err <==> total + bytes(name).len() + bytes(
            value,
        ).len() > QUOTA_SIZE_LIMIT),
        QUOTA_SIZE_LIMIT == 5 * 1024 * 1024,
{
}

/// An engine's items are refused exactly where they would take more than the quota, as long as the
/// engine's count and the texts are such as fit into the machine's numbers.
pub proof fn the_quota_bounds_engines_too(
    total: usize,
    had: Option<Seq<char>>,
    name: Seq<char>,
    value: Seq<char>,
)
    requires
        had matches Some(text) ==> bytes(text).len() <= total,
        total + bytes(name).len() + bytes(value).len() <= usize::MAX,
    ensures
        set_decision(total, had, name, value) == SetDecision::QuotaExceeded <==> match had {
            Some(text) => total - bytes(text).len() + bytes(value).len() > QUOTA_SIZE_LIMIT,
            None => total + bytes(name).len() + bytes(value).len() > QUOTA_SIZE_LIMIT,
        },
        set_decision(total, had, name, value) == SetDecision::Unchanged ==> had == Some(value),
        set_decision(total, had, name, value) == SetDecision::Write ==> had != Some(value),
{
}

/// A cloned session in memory has, for every origin, the items of the session that it was cloned
/// from, which keeps its own; sessions of other webviews are as they were.
pub proof fn cloned_sessions_have_the_same_items<
    E: WebStorageEngine,
    F: WebStorageEngineFactory<E>,
>(
    before: WebStorageManager<E, F>,
    after: WebStorageManager<E, F>,
    src: u64,
    dest: u64,
    failures: CloneFailures,
    origin: Seq<char>,
    other: u64,
)
    requires
        after.session_cloned(&before, src, dest, failures),
        !before.use_engine_for_session,
        has_session(before.session_data@, src),
    ensures
        after.items_of(WebStorageType::Session, dest, origin) == before.items_of(
            WebStorageType::Session,
            src,
            origin,
        ),
        other != dest ==> after.items_of(WebStorageType::Session, other, origin)
            == before.items_of(WebStorageType::Session, other, origin),
        session_items(after.session_data@, dest, origin) == session_items(
            before.session_data@,
            src,
            origin,
        ),
        after.session_environments == before.session_environments,
        after.environments == before.environments,
        after.local_storage_origins == before.local_storage_origins,
{
    let a = without_webview(after.session_data@, dest);
    let b = without_webview(before.session_data@, dest);
    assert(a == b);
    if other != dest {
        let key = (other, origin);
        assert(a.contains_key(key) <==> after.session_data@.contains_key(key));
        assert(b.contains_key(key) <==> before.session_data@.contains_key(key));
        if b.contains_key(key) {
            assert(a[key] == b[key]);
        }
    }
    let own = (dest, origin);
    assert(after.session_data@.contains_key(own) <==> before.session_data@.contains_key(
        (src, origin),
    ));
}

/// A session cloned between engines that all worked has, for every origin, the items of the session
/// that it was cloned from; sessions of other webviews keep their engines.
pub proof fn cloned_engines_hold_the_same_items<E: WebStorageEngine, F: WebStorageEngineFactory<E>>(
    before: WebStorageManager<E, F>,
    after: WebStorageManager<E, F>,
    src: u64,
    dest: u64,
    failures: CloneFailures,
    origin: Seq<char>,
    other: u64,
)
    requires
        after.session_cloned(&before, src, dest, failures),
        before.use_engine_for_session,
        src != dest,
        !has_failed(failures.reading@, origin),
        !has_failed(failures.copying@, origin),
    ensures
        before.is_open(WebStorageType::Session, src, origin) <==> after.is_open(
            WebStorageType::Session,
            dest,
            origin,
        ),
        before.is_open(WebStorageType::Session, src, origin) ==> after.items_of(
            WebStorageType::Session,
            dest,
            origin,
        ) == before.items_of(WebStorageType::Session, src, origin),
        other != dest && before.is_open(WebStorageType::Session, other, origin)
            ==> after.is_open(WebStorageType::Session, other, origin) && after.engine_at(
            WebStorageType::Session,
            other,
            origin,
        ) == before.engine_at(WebStorageType::Session, other, origin),
{
    let a = without_webview(after.session_environments@, dest);
    let b = without_webview(before.session_environments@, dest);
    assert(a == b);
    let key = (other, origin);
    if other != dest && before.session_environments@.contains_key(key) {
        assert(b.contains_key(key));
        assert(a.contains_key(key));
        assert(a[key] == b[key]);
    }
    if before.session_environments@.contains_key((src, origin)) {
        assert(after.is_copied(&before, src, dest, origin));
    }
}

/// The origin is listed in this place, and its registered domain is one of the sites.
pub open spec fn is_site_at(
    descriptors: Seq<OriginDescriptor>,
    domains: Seq<Option<String>>,
    sites: Seq<String>,
    origin: Seq<char>,
    i: int,
) -> bool {
    &&& 0 <= i < descriptors.len()
    &&& descriptors[i].name@ == origin
    &&& domains[i] matches Some(domain) && exists|s: int|
        0 <= s < sites.len() && (#[trigger] sites[s])@ == domain@
}

/// The origins that go are those that are listed with a registered domain that is one of the sites;
/// the others stay listed, in their order.
pub proof fn origins_go_with_their_site(
    descriptors: Seq<OriginDescriptor>,
    domains: Seq<Option<String>>,
    sites: Seq<String>,
    origin: Seq<char>,
)
    requires
        domains.len() >= descriptors.len(),
    ensures
        going(descriptors, domains, sites).contains(origin) <==> exists|i: int|
            is_site_at(descriptors, domains, sites, origin, i),
        origin_names(staying(descriptors, domains, sites)).contains(origin) <==> exists|i: int|
            #![trigger descriptors[i]]
            0 <= i < descriptors.len() && descriptors[i].name@ == origin && !is_site_at(
                descriptors,
                domains,
                sites,
                origin,
                i,
            ),
    decreases descriptors.len(),
{
    let go = going(descriptors, domains, sites);
    let stay = origin_names(staying(descriptors, domains, sites));
    if descriptors.len() > 0 {
        let fewer = descriptors.drop_last();
        let n = descriptors.len() - 1;
        let go_before = going(fewer, domains, sites);
        let stay_before = origin_names(staying(fewer, domains, sites));
        origins_go_with_their_site(fewer, domains, sites, origin);
        assert forall|i: int| 0 <= i < n implies is_site_at(
            descriptors,
            domains,
            sites,
            origin,
            i,
        ) == is_site_at(fewer, domains, sites, origin, i) by {
            assert(fewer[i] == descriptors[i]);
        }
        let of_one = match domains[n] {
            Some(domain) => exists|s: int| 0 <= s < sites.len() && (#[trigger] sites[s])@ == domain@,
            None => false,
        };
        assert(of_one == of_sites(domains[n], sites)) by {
            if let Some(domain) = domains[n] {
                if texts(sites).contains(domain@) {
                    let s = choose|s: int| 0 <= s < texts(sites).len() && texts(sites)[s] == domain@;
                    assert(sites[s]@ == domain@);
                }
                if of_one {
                    let s = choose|s: int| 0 <= s < sites.len() && (#[trigger] sites[s])@ == domain@;
                    assert(texts(sites)[s] == domain@);
                }
            }
        }
        let name = descriptors[n].name@;
        if of_one {
            assert(go == go_before.push(name));
            assert(stay == stay_before);
            lemma_seq_contains_after_push(go_before, name, origin);
            if name == origin {
                assert(is_site_at(descriptors, domains, sites, origin, n));
            }
        } else {
            assert(go == go_before);
            assert(stay =~= stay_before.push(name));
            lemma_seq_contains_after_push(stay_before, name, origin);
            if name == origin {
                assert(!is_site_at(descriptors, domains, sites, origin, n));
            }
        }
        if exists|i: int| is_site_at(fewer, domains, sites, origin, i) {
            let i = choose|i: int| is_site_at(fewer, domains, sites, origin, i);
            assert(is_site_at(descriptors, domains, sites, origin, i));
        }
        if exists|i: int| is_site_at(descriptors, domains, sites, origin, i) {
            let i = choose|i: int| is_site_at(descriptors, domains, sites, origin, i);
            if i < n {
                assert(is_site_at(fewer, domains, sites, origin, i));
            }
        }
        if stay_before.contains(origin) {
            let i = choose|i: int|
                #![trigger fewer[i]]
                0 <= i < fewer.len() && fewer[i].name@ == origin && !is_site_at(
                    fewer,
                    domains,
                    sites,
                    origin,
                    i,
                );
            assert(descriptors[i].name@ == origin);
        }
        if exists|i: int|
            #![trigger descriptors[i]]
            0 <= i < descriptors.len() && descriptors[i].name@ == origin && !is_site_at(
                descriptors,
                domains,
                sites,
                origin,
                i,
            ) {
            let i = choose|i: int|
                #![trigger descriptors[i]]
                0 <= i < descriptors.len() && descriptors[i].name@ == origin && !is_site_at(
                    descriptors,
                    domains,
                    sites,
                    origin,
                    i,
                );
            if i < n {
                assert(fewer[i].name@ == origin);
            }
        }
    }
}

/// Clearing the session data of sites takes the items of the origins of those sites in every
/// session, and leaves the items of every other origin. Local storage is not touched.
pub proof fn clearing_sites_spares_other_origins<
    E: WebStorageEngine,
    F: WebStorageEngineFactory<E>,
>(
    before: WebStorageManager<E, F>,
    after: WebStorageManager<E, F>,
    clearing: SiteClearing,
    sites: Seq<String>,
    domains: Seq<Option<String>>,
    webview: u64,
    origin: Seq<char>,
)
    requires
        after.session_sites_cleared(&before, clearing, sites, domains),
        !before.use_engine_for_session,
        domains.len() == before.session_storage_origins.origin_descriptors@.len(),
    ensures
        (exists|i: int|
            is_site_at(
                before.session_storage_origins.origin_descriptors@,
                domains,
                sites,
                origin,
                i,
            )) ==> after.items_of(WebStorageType::Session, webview, origin) == Map::<
            Seq<char>,
            Seq<char>,
        >::empty(),
        !(exists|i: int|
            is_site_at(
                before.session_storage_origins.origin_descriptors@,
                domains,
                sites,
                origin,
                i,
            )) ==> after.items_of(WebStorageType::Session, webview, origin) == before.items_of(
            WebStorageType::Session,
            webview,
            origin,
        ),
        after.environments == before.environments,
        after.local_storage_origins == before.local_storage_origins,
{
    let listed = before.session_storage_origins.origin_descriptors@;
    origins_go_with_their_site(listed, domains, sites, origin);
    let key = (webview, origin);
    let origins = going(listed, domains, sites);
    let rest = without_origins(before.session_data@, origins);
    assert(rest.contains_key(key) <==> before.session_data@.contains_key(key) && !origins.contains(
        origin,
    ));
}

/// Clearing the local data of sites leaves every other origin's engine as it is, and of an origin of
/// those sites either the engine is gone or its failure is reported. Sessions are not touched.
pub proof fn clearing_local_sites_spares_other_origins<
    E: WebStorageEngine,
    F: WebStorageEngineFactory<E>,
>(
    before: WebStorageManager<E, F>,
    after: WebStorageManager<E, F>,
    clearing: SiteClearing,
    sites: Seq<String>,
    domains: Seq<Option<String>>,
    origin: Seq<char>,
)
    requires
        after.local_sites_cleared(&before, clearing, sites, domains),
        domains.len() == before.local_storage_origins.origin_descriptors@.len(),
    ensures
        ({
            let goes = exists|i: int|
                is_site_at(
                    before.local_storage_origins.origin_descriptors@,
                    domains,
                    sites,
                    origin,
                    i,
                );
            &&& !goes ==> (after.environments@.contains_key(origin)
                <==> before.environments@.contains_key(origin)) && (
            before.environments@.contains_key(origin) ==> after.environments@[origin]
                == before.environments@[origin]) && !has_failed(clearing.failures@, origin)
            &&& goes ==> !after.environments@.contains_key(origin) || has_failed(
                clearing.failures@,
                origin,
            )
            &&& after.session_data == before.session_data
            &&& after.session_environments == before.session_environments
        }),
{
    let listed = before.local_storage_origins.origin_descriptors@;
    origins_go_with_their_site(listed, domains, sites, origin);
}

/// There is a key at every place below the length and at none from there on; something is read under
/// it, and the same key stands at no two places.
pub proof fn lengths_bound_the_places<E: WebStorageEngine, F: WebStorageEngineFactory<E>>(
    before: WebStorageManager<E, F>,
    counted: WebStorageManager<E, F>,
    asked: WebStorageManager<E, F>,
    asked_again: WebStorageManager<E, F>,
    read: WebStorageManager<E, F>,
    storage_type: WebStorageType,
    webview: u64,
    origin: Seq<char>,
    length: Answered<usize>,
    index: u32,
    key: Answered<Option<String>>,
    other_index: u32,
    other_key: Answered<Option<String>>,
    value: Answered<Option<String>>,
)
    requires
        at_hand(before, storage_type, webview, origin),
        counted.length_read(&before, storage_type, webview, origin, length),
        length.error is None,
        asked.key_read(&before, storage_type, webview, origin, index, key),
        key.error is None,
        asked_again.key_read(&before, storage_type, webview, origin, other_index, other_key),
        other_key.error is None,
    ensures
        key.value is Some <==> index < length.value,
        key.value matches Some(name) ==> (read.item_read(
            &before,
            storage_type,
            webview,
            origin,
            name@,
            value,
        ) && value.error is None ==> value.value is Some),
        key.value is Some && option_text(key.value) == option_text(other_key.value) ==> index
            == other_index,
{
    reads_are_of_the_items(before, counted, storage_type, webview, origin, length.error);
    reads_are_of_the_items(before, asked, storage_type, webview, origin, key.error);
    reads_are_of_the_items(before, asked_again, storage_type, webview, origin, other_key.error);
    if let Some(name) = key.value {
        if read.item_read(&before, storage_type, webview, origin, name@, value)
            && value.error is None {
            reads_are_of_the_items(before, read, storage_type, webview, origin, value.error);
            assert(asked.order_of(storage_type, webview, origin)[index as int] == name@);
            assert(asked.order_of(storage_type, webview, origin).contains(name@));
        }
    }
}

/// What is taken out for a webview, or for some origins, is what does not stay.
pub proof fn slots_are_taken_or_stay<V>(
    slots: Map<(u64, Seq<char>), V>,
    webview: u64,
    origins: Seq<Seq<char>>,
    key: (u64, Seq<char>),
)
    requires
        slots.contains_key(key),
    ensures
        only_webview(slots, webview).contains_key(key) <==> key.0 == webview,
        only_origins(slots, origins).contains_key(key) <==> origins.contains(key.1),
        without_webview(slots, webview).contains_key(key) <==> !only_webview(
            slots,
            webview,
        ).contains_key(key),
        without_origins(slots, origins).contains_key(key) <==> !only_origins(
            slots,
            origins,
        ).contains_key(key),
        only_webview(slots, webview).contains_key(key) ==> only_webview(slots, webview)[key]
            == slots[key],
        only_origins(slots, origins).contains_key(key) ==> only_origins(slots, origins)[key]
            == slots[key],
        without_webview(slots, webview).contains_key(key) ==> without_webview(slots, webview)[key]
            == slots[key],
        without_origins(slots, origins).contains_key(key) ==> without_origins(slots, origins)[key]
            == slots[key],
{
}

/// An origin that is put on the list is on it, once, and every other stays where it was.
pub proof fn origins_are_listed_once(origins: Seq<Seq<char>>, origin: Seq<char>, other: Seq<char>)
    requires
        origins.no_duplicates(),
    ensures
        with_origin(origins, origin).contains(origin),
        with_origin(origins, origin).no_duplicates(),
        other != origin ==> (with_origin(origins, origin).contains(other) <==> origins.contains(
            other,
        )),
        origins.is_prefix_of(with_origin(origins, origin)),
{
    lemma_seq_contains_after_push(origins, origin, other);
    lemma_seq_contains_after_push(origins, origin, origin);
    assert(origins =~= with_origin(origins, origin).subrange(0, origins.len() as int));
}

/// Where clearing an origin failed the origin is on the list again, and no other is.
pub proof fn failed_origins_stay_listed(
    origins: Seq<Seq<char>>,
    failures: Seq<EngineFailure>,
    origin: Seq<char>,
)
    ensures
        relisted(origins, failures).contains(origin) <==> origins.contains(origin) || exists|i: int|
            0 <= i < failures.len() && (#[trigger] failures[i]).origin@ == origin,
    decreases failures.len(),
{
    if failures.len() > 0 {
        let fewer = failures.drop_last();
        let last = failures[failures.len() - 1].origin@;
        failed_origins_stay_listed(origins, fewer, origin);
        lemma_seq_contains_after_push(relisted(origins, fewer), last, origin);
        if exists|i: int| 0 <= i < fewer.len() && (#[trigger] fewer[i]).origin@ == origin {
            let i = choose|i: int| 0 <= i < fewer.len() && (#[trigger] fewer[i]).origin@ == origin;
            assert(failures[i].origin@ == origin);
        }
        if exists|i: int| 0 <= i < failures.len() && (#[trigger] failures[i]).origin@ == origin {
            let i = choose|i: int|
                0 <= i < failures.len() && (#[trigger] failures[i]).origin@ == origin;
            if i < fewer.len() {
                assert(fewer[i].origin@ == origin);
            }
        }
    }
}

/// Every origin has its directory below that of web storage, a session's one level further down than
/// a local one, and the directory is named after where the origin belongs.
pub proof fn directories_follow_the_origin(
    storage_type: WebStorageType,
    webview: Option<u64>,
    origin: Seq<char>,
)
    ensures
        ({
            let parts = origin_location(storage_type, webview, origin);
            &&& parts[0] == "web"@ + "storage"@
            &&& parts.len() == if storage_type == WebStorageType::Local {
                2int
            } else {
                3
            }
            &&& storage_type == WebStorageType::Session ==> parts[1] == "ses"@ + "sion"@
            &&& parts.last() == name_uuid(
                location_namespace(),
                bytes(location_scope(storage_type, webview, origin)),
            )
        }),
{
    reveal_strlit("webstorage");
    reveal_strlit("web");
    reveal_strlit("storage");
    reveal_strlit("session");
    reveal_strlit("ses");
    reveal_strlit("sion");
    assert("webstorage"@ =~= "web"@ + "storage"@);
    assert("session"@ =~= "ses"@ + "sion"@);
}

/// A session has the items that its entry holds for the origin, and none where it has no entry.
pub proof fn sessions_have_the_items_of_their_entry(
    data: Map<(u64, Seq<char>), OriginEntry>,
    webview: u64,
    origin: Seq<char>,
)
    ensures
        data.contains_key((webview, origin)) ==> session_items(data, webview, origin) == data[(
            webview,
            origin,
        )].items(),
        !data.contains_key((webview, origin)) ==> session_items(data, webview, origin).len() == 0,
{
}

/// The list of local origins is to be saved exactly where a call changed it, whatever the call was
/// and however it ended.
pub proof fn lists_are_saved_where_they_change<E: WebStorageEngine, F: WebStorageEngineFactory<E>>(
    before: WebStorageManager<E, F>,
    after: WebStorageManager<E, F>,
    storage_type: WebStorageType,
    webview: u64,
    origin: Seq<char>,
    name: Seq<char>,
    value: Seq<char>,
    index: u32,
    text: Answered<Option<String>>,
    length: Answered<usize>,
    keys: Answered<Vec<String>>,
    set: Answered<SetAnswer>,
    cleared: Answered<bool>,
)
    ensures
        ({
            let changed = after.local_storage_origins@ != before.local_storage_origins@;
            &&& after.item_read(&before, storage_type, webview, origin, name, text)
                ==> text.save_origins == changed
            &&& after.key_read(&before, storage_type, webview, origin, index, text)
                ==> text.save_origins == changed
            &&& after.item_removed(&before, storage_type, webview, origin, name, text)
                ==> text.save_origins == changed
            &&& after.length_read(&before, storage_type, webview, origin, length)
                ==> length.save_origins == changed
            &&& after.keys_read(&before, storage_type, webview, origin, keys)
                ==> keys.save_origins == changed
            &&& after.item_set(&before, storage_type, webview, origin, name, value, set)
                ==> set.save_origins == changed
            &&& after.items_cleared(&before, storage_type, webview, origin, cleared)
                ==> cleared.save_origins == changed
        }),
{
    let origins = before.local_storage_origins@;
    assert(origins.push(origin).len() != origins.len());
}

/// Where sessions keep their items by engines, clearing sites leaves the engines of every other
/// origin, opens none, and takes out every engine of the sites unless clearing that one failed,
/// which is told.
pub proof fn clearing_sites_spares_other_engines<
    E: WebStorageEngine,
    F: WebStorageEngineFactory<E>,
>(
    before: WebStorageManager<E, F>,
    after: WebStorageManager<E, F>,
    clearing: SiteClearing,
    sites: Seq<String>,
    domains: Seq<Option<String>>,
    webview: u64,
    origin: Seq<char>,
)
    requires
        after.session_sites_cleared(&before, clearing, sites, domains),
        before.use_engine_for_session,
        domains.len() == before.session_storage_origins.origin_descriptors@.len(),
    ensures
        ({
            let key = (webview, origin);
            let goes = exists|i: int|
                is_site_at(
                    before.session_storage_origins.origin_descriptors@,
                    domains,
                    sites,
                    origin,
                    i,
                );
            &&& after.session_environments@.contains_key(key)
                ==> before.session_environments@.contains_key(key)
            &&& !goes && before.session_environments@.contains_key(key)
                ==> after.session_environments@.contains_key(key)
                && after.session_environments@[key] == before.session_environments@[key]
            &&& goes && after.session_environments@.contains_key(key) ==> exists|f: int|
                0 <= f < clearing.failures@.len() && (#[trigger] clearing.failures@[f]).origin@
                    == origin
        }),
        after.session_data == before.session_data,
        after.environments == before.environments,
        after.local_storage_origins == before.local_storage_origins,
        !clearing.save_origins,
        clearing.removals@.len() == 0,
{
    let listed = before.session_storage_origins.origin_descriptors@;
    origins_go_with_their_site(listed, domains, sites, origin);
    let key = (webview, origin);
    let origins = going(listed, domains, sites);
    let engines = before.session_environments@;
    let left = after.session_environments@;
    let rest = without_origins(engines, origins);
    let rest_left = without_origins(left, origins);
    assert(rest == rest_left);
    assert(rest.contains_key(key) <==> engines.contains_key(key) && !origins.contains(origin));
    assert(rest_left.contains_key(key) <==> left.contains_key(key) && !origins.contains(origin));
    if rest.contains_key(key) {
        assert(rest[key] == engines[key]);
        assert(rest_left[key] == left[key]);
    }
    if origins.contains(origin) && left.contains_key(key) {
        assert(engines.contains_key(key) && origins.contains(key.1));
        let error = choose|error: Seq<char>| #[trigger]
            failed_with(clearing.failures@, key.1, error) && engines[key].may_end(
                EngineCall::Clear,
                Some(error),
                left[key],
            );
        assert(failed_with(clearing.failures@, key.1, error));
    }
}

/// An engine that items are set in, one after the other, holds for each key the value that was set
/// last, and no key that was not set.
pub proof fn engines_are_filled_with_the_items(items: Seq<TextItem>, i: int, key: Seq<char>)
    ensures
        0 <= i < items.len() && (forall|j: int|
            i < j < items.len() ==> (#[trigger] items[j]).key@ != items[i].key@) ==> filled(
            items,
        ).contains_key(items[i].key@) && filled(items)[items[i].key@] == items[i].value@,
        filled(items).contains_key(key) ==> exists|j: int|
            0 <= j < items.len() && (#[trigger] items[j]).key@ == key,
    decreases items.len(),
{
    if items.len() > 0 {
        let fewer = items.drop_last();
        let n = items.len() - 1;
        engines_are_filled_with_the_items(fewer, i, key);
        if 0 <= i < n && (forall|j: int|
            i < j < items.len() ==> (#[trigger] items[j]).key@ != items[i].key@) {
            assert(items[n].key@ != items[i].key@);
            assert forall|j: int| i < j < fewer.len() implies (#[trigger] fewer[j]).key@
                != fewer[i].key@ by {
                assert(fewer[j] == items[j]);
            }
        }
        if filled(items).contains_key(key) {
            if items[n].key@ != key {
                let j = choose|j: int| 0 <= j < fewer.len() && (#[trigger] fewer[j]).key@ == key;
                assert(items[j].key@ == key);
            }
        }
    }
}

/// That an engine failed with an error is told by the one entry that names both.
pub proof fn failures_name_origin_and_error(
    failure: EngineFailure,
    origin: Seq<char>,
    error: Seq<char>,
)
    ensures
        failed_with(seq![failure], origin, error) <==> failure.origin@ == origin && failure.error@
            == error,
        has_failed(seq![failure], origin) <==> failure.origin@ == origin,
        !failed_with(seq![], origin, error),
{
    let one = seq![failure];
    assert(one[0] == failure);
}

/// A set that goes through answers whether it changed the item and, where it did, what was read under
/// the name before.
pub proof fn sets_answer_the_old_value<E: WebStorageEngine, F: WebStorageEngineFactory<E>>(
    before: WebStorageManager<E, F>,
    after: WebStorageManager<E, F>,
    other: WebStorageManager<E, F>,
    storage_type: WebStorageType,
    webview: u64,
    origin: Seq<char>,
    name: Seq<char>,
    value: Seq<char>,
    set: Answered<SetAnswer>,
    read: Answered<Option<String>>,
)
    requires
        at_hand(before, storage_type, webview, origin),
        other.item_read(&before, storage_type, webview, origin, name, read),
        read.error is None,
        after.item_set(&before, storage_type, webview, origin, name, value, set),
        set.error is None,
    ensures
        set.value matches Ok((changed, old_value)) ==> {
            &&& changed <==> option_text(read.value) != Some(value)
            &&& changed ==> option_text(old_value) == option_text(read.value)
            &&& !changed ==> old_value is None
        },
{
    reads_are_of_the_items(before, other, storage_type, webview, origin, read.error);
}

/// A call that fails answers as an origin without items would, and a set that fails is refused.
pub proof fn failed_calls_answer_nothing<E: WebStorageEngine, F: WebStorageEngineFactory<E>>(
    before: WebStorageManager<E, F>,
    after: WebStorageManager<E, F>,
    storage_type: WebStorageType,
    webview: u64,
    origin: Seq<char>,
    name: Seq<char>,
    value: Seq<char>,
    index: u32,
    text: Answered<Option<String>>,
    length: Answered<usize>,
    keys: Answered<Vec<String>>,
    set: Answered<SetAnswer>,
    cleared: Answered<bool>,
)
    ensures
        after.item_read(&before, storage_type, webview, origin, name, text) && text.error is Some
            ==> text.value is None,
        after.key_read(&before, storage_type, webview, origin, index, text) && text.error is Some
            ==> text.value is None,
        after.item_removed(&before, storage_type, webview, origin, name, text) && text.error is Some
            ==> text.value is None,
        after.length_read(&before, storage_type, webview, origin, length) && length.error is Some
            ==> length.value == 0,
        after.keys_read(&before, storage_type, webview, origin, keys) && keys.error is Some
            ==> keys.value@.len() == 0,
        after.item_set(&before, storage_type, webview, origin, name, value, set)
            && set.error is Some ==> set.value is Err,
        after.items_cleared(&before, storage_type, webview, origin, cleared)
            && cleared.error is Some ==> !cleared.value,
{
}

/// Writing to one storage leaves the other: what is set, removed or cleared for a local origin is
/// not seen in any session, and what is in one session is not seen in local storage, in another
/// session or under another origin.
pub proof fn writes_spare_other_storage<E: WebStorageEngine, F: WebStorageEngineFactory<E>>(
    before: WebStorageManager<E, F>,
    after: WebStorageManager<E, F>,
    storage_type: WebStorageType,
    webview: u64,
    origin: Seq<char>,
    listed: bool,
    error: Option<String>,
    other_webview: u64,
    other: Seq<char>,
)
    requires
        after.wrote_to(&before, storage_type, webview, origin, listed, error),
    ensures
        storage_type == WebStorageType::Local ==> {
            &&& after.items_of(WebStorageType::Session, other_webview, other) == before.items_of(
                WebStorageType::Session,
                other_webview,
                other,
            )
            &&& after.session_storage_origins == before.session_storage_origins
            &&& after.session_environments == before.session_environments
            &&& after.session_data == before.session_data
        },
        storage_type == WebStorageType::Session ==> {
            &&& after.items_of(WebStorageType::Local, other_webview, other) == before.items_of(
                WebStorageType::Local,
                other_webview,
                other,
            )
            &&& after.local_storage_origins == before.local_storage_origins
            &&& after.environments == before.environments
            &&& before.use_engine_for_session ==> after.session_data == before.session_data
            &&& !before.use_engine_for_session ==> after.session_environments
                == before.session_environments
        },
        after.use_engine_for_session == before.use_engine_for_session,
        after.has_config_dir == before.has_config_dir,
{
}

/// Where the data of a local origin is cleared it is the directory of that origin that goes, and only
/// where clearing it did not fail.
pub proof fn cleared_origins_lose_their_own_directory<
    E: WebStorageEngine,
    F: WebStorageEngineFactory<E>,
>(
    before: WebStorageManager<E, F>,
    after: WebStorageManager<E, F>,
    origins: Seq<Seq<char>>,
    failures: Seq<EngineFailure>,
    removals: Seq<OriginRemoval>,
    r: int,
)
    requires
        after.local_cleared(&before, origins, failures, removals),
        0 <= r < removals.len(),
    ensures
        origins.contains(removals[r].origin@),
        texts(removals[r].location@) == origin_location(
            WebStorageType::Local,
            None,
            removals[r].origin@,
        ),
        forall|f: int|
            0 <= f < failures.len() ==> (#[trigger] failures[f]).origin@ != removals[r].origin@,
        before.has_config_dir,
        !after.environments@.contains_key(removals[r].origin@),
{
    let origin = removals[r].origin@;
    assert(origins.contains(origin) && !has_failed(failures, origin));
    assert(removes(removals, origin));
}

/// A call that only reads changes no list but that of the local origins, and touches neither the other
/// storage nor what sessions keep in memory.
pub proof fn reads_leave_the_rest<E: WebStorageEngine, F: WebStorageEngineFactory<E>>(
    before: WebStorageManager<E, F>,
    after: WebStorageManager<E, F>,
    storage_type: WebStorageType,
    webview: u64,
    origin: Seq<char>,
    error: Option<String>,
)
    requires
        after.consulted(&before, storage_type, webview, origin, error),
    ensures
        after.session_storage_origins == before.session_storage_origins,
        after.session_data == before.session_data,
        after.use_engine_for_session == before.use_engine_for_session,
        after.has_config_dir == before.has_config_dir,
        storage_type == WebStorageType::Local ==> after.session_environments
            == before.session_environments,
        storage_type == WebStorageType::Session ==> after.environments == before.environments
            && after.local_storage_origins == before.local_storage_origins,
{
}

} // verus!
