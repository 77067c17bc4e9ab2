//! What holds of web storage as a whole.

use vstd::prelude::*;

use crate::webstorage::engine::{WebStorageEngine, WebStorageEngineFactory, WebStorageType};
use crate::webstorage::manager::{
    opened, session_set_effect, set_effect, touched, SetAnswer, WebStorageManager, QUOTA_SIZE_LIMIT,
};
use crate::webstorage::origins::{going, of_sites, OriginDescriptor};

verus! {

/// An item that was set is read back, and every other item is as it was. One that was refused for
/// the quota changes nothing.
pub proof fn set_items_are_read_back(
    answer: SetAnswer,
    total: usize,
    before: Map<Seq<char>, Seq<char>>,
    after: Map<Seq<char>, Seq<char>>,
    name: Seq<char>,
    value: Seq<char>,
)
    requires
        set_effect(answer, total, before, after, name, value) || session_set_effect(
            answer,
            total as nat,
            before,
            after,
            name,
            value,
        ),
    ensures
        answer is Ok ==> after.get(name) == Some(value),
        answer is Err ==> after == before,
        forall|other: Seq<char>| other != name ==> #[trigger] after.get(other) == before.get(other),
        answer matches Ok((changed, _)) ==> changed == (before.get(name) != Some(value)),
{
}

/// A value that is in memory already can always be set again.
pub proof fn setting_the_same_value_succeeds(
    answer: SetAnswer,
    total: nat,
    before: Map<Seq<char>, Seq<char>>,
    after: Map<Seq<char>, Seq<char>>,
    name: Seq<char>,
    value: Seq<char>,
)
    requires
        session_set_effect(answer, total, before, after, name, value),
        total <= QUOTA_SIZE_LIMIT,
        before.get(name) == Some(value),
    ensures
        answer == SetAnswer::Ok((false, None)),
        after == before,
{
}

/// A message that reads changes no items, whoever has them.
pub proof fn reading_changes_nothing<E: WebStorageEngine, F: WebStorageEngineFactory<E>>(
    before: WebStorageManager<E, F>,
    after: WebStorageManager<E, F>,
    storage_type: WebStorageType,
    webview: u64,
    origin: Seq<char>,
    error: Option<String>,
    read_type: WebStorageType,
    other_webview: u64,
    other_origin: Seq<char>,
)
    requires
        after.consulted(&before, storage_type, webview, origin, error),
        before.by_engine(read_type) ==> before.is_open(read_type, other_webview, other_origin),
    ensures
        after.items_of(read_type, other_webview, other_origin) == before.items_of(
            read_type,
            other_webview,
            other_origin,
        ),
{
    match storage_type {
        WebStorageType::Local => {
            if before.environments@.contains_key(other_origin) && after.environments@
                != before.environments@ {
                kept_elsewhere(before.environments@, after.environments@, origin, other_origin);
            }
        },
        WebStorageType::Session => {
            if before.use_engine_for_session && before.session_environments@.contains_key(
                (other_webview, other_origin),
            ) && after.session_environments@ != before.session_environments@ {
                kept_elsewhere(
                    before.session_environments@,
                    after.session_environments@,
                    (webview, origin),
                    (other_webview, other_origin),
                );
            }
        },
    }
}

/// What another key has stays.
proof fn kept_elsewhere<K, V>(before: Map<K, V>, after: Map<K, V>, key: K, other: K)
    requires
        touched(before, after, key),
        other != key || opened(before, after, key),
        before.contains_key(other),
    ensures
        after.contains_key(other),
        after[other] == before[other],
{
    if other != key {
        let a = after.remove(key);
        let b = before.remove(key);
        assert(a == b);
        assert(b.contains_key(other));
        assert(a[other] == after[other]);
    }
}

/// A message that writes changes the items of its own origin only: not those of another origin,
/// of another webview's session or of the other kind of storage.
pub proof fn origins_are_apart<E: WebStorageEngine, F: WebStorageEngineFactory<E>>(
    before: WebStorageManager<E, F>,
    after: WebStorageManager<E, F>,
    storage_type: WebStorageType,
    webview: u64,
    origin: Seq<char>,
    listed: bool,
    error: Option<String>,
    other_type: WebStorageType,
    other_webview: u64,
    other_origin: Seq<char>,
)
    requires
        after.wrote_to(&before, storage_type, webview, origin, listed, error),
        other_type != storage_type || other_origin != origin || (other_type
            == WebStorageType::Session && other_webview != webview),
        before.by_engine(other_type) ==> before.is_open(other_type, other_webview, other_origin),
    ensures
        after.items_of(other_type, other_webview, other_origin) == before.items_of(
            other_type,
            other_webview,
            other_origin,
        ),
{
    let key = (webview, origin);
    let other = (other_webview, other_origin);
    if storage_type == other_type {
        match storage_type {
            WebStorageType::Local => {
                if after.environments@ != before.environments@ {
                    kept_elsewhere(before.environments@, after.environments@, origin, other_origin);
                }
            },
            WebStorageType::Session => {
                if before.use_engine_for_session {
                    if after.session_environments@ != before.session_environments@ {
                        kept_elsewhere(
                            before.session_environments@,
                            after.session_environments@,
                            key,
                            other,
                        );
                    }
                } else if after.session_data@ != before.session_data@ {
                    let a = after.session_data@.remove(key);
                    let b = before.session_data@.remove(key);
                    assert(a == b);
                    assert(a.contains_key(other) <==> after.session_data@.contains_key(other));
                    assert(b.contains_key(other) <==> before.session_data@.contains_key(other));
                    if b.contains_key(other) {
                        assert(a[other] == b[other]);
                    }
                }
            },
        }
    }
}

/// Clearing the data of sites takes exactly the origins whose registered domain is one of them.
pub proof fn only_the_sites_go(
    descriptors: Seq<OriginDescriptor>,
    domains: Seq<Option<String>>,
    sites: Seq<String>,
    origin: Seq<char>,
)
    requires
        domains.len() == descriptors.len(),
    ensures
        going(descriptors, domains, sites).contains(origin) <==> exists|i: int|
            0 <= i < descriptors.len() && (#[trigger] descriptors[i]).name@ == origin && of_sites(
                domains[i],
                sites,
            ),
{
    going_of_prefix(descriptors, domains, sites, origin);
}

proof fn going_of_prefix(
    descriptors: Seq<OriginDescriptor>,
    domains: Seq<Option<String>>,
    sites: Seq<String>,
    origin: Seq<char>,
)
    requires
        domains.len() >= descriptors.len(),
    ensures
        going(descriptors, domains, sites).contains(origin) <==> exists|i: int|
            0 <= i < descriptors.len() && (#[trigger] descriptors[i]).name@ == origin && of_sites(
                domains[i],
                sites,
            ),
    decreases descriptors.len(),
{
    let all = going(descriptors, domains, sites);
    if descriptors.len() > 0 {
        let fewer = descriptors.drop_last();
        let n = descriptors.len() - 1;
        let before = going(fewer, domains, sites);
        going_of_prefix(fewer, domains, sites, origin);
        if all.contains(origin) {
            let k = choose|k: int| 0 <= k < all.len() && all[k] == origin;
            if k < before.len() {
                assert(before[k] == origin);
                let i = choose|i: int|
                    0 <= i < fewer.len() && (#[trigger] fewer[i]).name@ == origin && of_sites(
                        domains[i],
                        sites,
                    );
                assert(descriptors[i].name@ == origin);
            } else {
                assert(descriptors[n].name@ == origin);
            }
        }
        if exists|i: int|
            0 <= i < descriptors.len() && (#[trigger] descriptors[i]).name@ == origin && of_sites(
                domains[i],
                sites,
            ) {
            let i = choose|i: int|
                0 <= i < descriptors.len() && (#[trigger] descriptors[i]).name@ == origin
                    && of_sites(domains[i], sites);
            if i < n {
                assert(fewer[i].name@ == origin);
                let k = choose|k: int| 0 <= k < before.len() && before[k] == origin;
                assert(all[k] == origin);
            } else {
                assert(all[all.len() - 1] == origin);
            }
        }
    }
}

} // verus!
