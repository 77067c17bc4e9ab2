//! Web storage over engines of several kinds.

use std::cell::RefCell;
use std::collections::BTreeMap;
use std::rc::Rc;

use rusqlite::{params_from_iter, Connection, OptionalExtension};
use weblayer::cache_storage::{
    answer_message, storage_dir, CacheStorageEngine, CacheStorageThreadMessage,
    CacheStorageThreadResponse, DummyCacheStorageEngine,
};
use weblayer::indexeddb::engine::model::{Statement, Value};
use weblayer::storage_thread::StorageGroup;
use weblayer::webstorage::engine::{WebStorageEngine, WebStorageEngineFactory, WebStorageType};
use weblayer::webstorage::entry::OriginEntry;
use weblayer::webstorage::manager::{
    decide_set, get_origin_location, set_engine_item, SetDecision, WebStorageManager,
    QUOTA_SIZE_LIMIT,
};
use weblayer::webstorage::messages::{WebStorageReply, WebStorageThreadMsg};
use weblayer::webstorage::origins::{OriginDescriptor, StorageOrigins};
use weblayer::webstorage::sqlite::{after_update, clear_changes, create_table, Change, Question};

type Open = (WebStorageType, Option<u64>, String);
type Opens = Rc<RefCell<Vec<Open>>>;

const WEBVIEW: u64 = 1;
const OTHER_WEBVIEW: u64 = 2;
const ORIGIN: &str = "https://example.com";

/// Keeps items in memory, and fails where it is told to.
#[derive(Debug)]
struct InMemoryWebStorageEngine {
    values: BTreeMap<String, String>,
    context: Open,
    clears: Opens,
    broken: Rc<RefCell<Vec<String>>>,
}

impl InMemoryWebStorageEngine {
    fn check(&self) -> Result<(), String> {
        if self.broken.borrow().contains(&self.context.2) {
            Err("broken".to_owned())
        } else {
            Ok(())
        }
    }
}

impl WebStorageEngine for InMemoryWebStorageEngine {
    fn len(&self) -> Result<usize, String> {
        self.check()?;
        Ok(self.values.len())
    }

    fn key(&self, index: usize) -> Result<Option<String>, String> {
        self.check()?;
        Ok(self.values.keys().nth(index).cloned())
    }

    fn keys(&self) -> Result<Vec<String>, String> {
        self.check()?;
        Ok(self.values.keys().cloned().collect())
    }

    fn get(&self, key: &str) -> Result<Option<String>, String> {
        self.check()?;
        Ok(self.values.get(key).cloned())
    }

    fn set(&mut self, key: &str, value: &str) -> Result<Option<String>, String> {
        self.check()?;
        Ok(self.values.insert(key.to_owned(), value.to_owned()))
    }

    fn delete(&mut self, key: &str) -> Result<Option<String>, String> {
        self.check()?;
        Ok(self.values.remove(key))
    }

    fn clear(&mut self) -> Result<bool, String> {
        self.check()?;
        let changed = !self.values.is_empty();
        self.values.clear();
        self.clears.borrow_mut().push(self.context.clone());
        Ok(changed)
    }

    fn size(&self) -> Result<usize, String> {
        Ok(self.values.iter().map(|(key, value)| key.len() + value.len()).sum())
    }
}

#[derive(Default)]
struct RecordingWebStorageFactory {
    opens: Opens,
    clears: Opens,
    broken: Rc<RefCell<Vec<String>>>,
    locations: Rc<RefCell<Vec<Option<Vec<String>>>>>,
}

impl WebStorageEngineFactory<InMemoryWebStorageEngine> for RecordingWebStorageFactory {
    fn open(
        &self,
        storage_type: WebStorageType,
        webview_id: Option<u64>,
        origin: &String,
        location: Option<Vec<String>>,
    ) -> Result<InMemoryWebStorageEngine, String> {
        if self.broken.borrow().contains(&format!("open {origin}")) {
            return Err("cannot open".to_owned());
        }
        let context = (storage_type, webview_id, origin.clone());
        self.opens.borrow_mut().push(context.clone());
        self.locations.borrow_mut().push(location);
        Ok(InMemoryWebStorageEngine {
            values: BTreeMap::new(),
            context,
            clears: self.clears.clone(),
            broken: self.broken.clone(),
        })
    }
}

type Manager = WebStorageManager<InMemoryWebStorageEngine, RecordingWebStorageFactory>;

fn manager(custom_engine: bool) -> Manager {
    WebStorageManager::new(
        StorageOrigins::new(),
        true,
        RecordingWebStorageFactory::default(),
        custom_engine,
    )
}

fn origin() -> String {
    ORIGIN.to_owned()
}

fn set(manager: &mut Manager, storage_type: WebStorageType, webview: u64, value: &str) {
    let answer = manager.set_item(
        storage_type,
        webview,
        &origin(),
        "context".to_owned(),
        value.to_owned(),
    );
    assert_eq!(answer.value, Ok((true, None)));
    assert_eq!(answer.error, None);
}

fn get(manager: &mut Manager, storage_type: WebStorageType, webview: u64) -> Option<String> {
    let answer = manager.request_item(storage_type, webview, &origin(), &"context".to_owned());
    assert_eq!(answer.error, None);
    answer.value
}

struct AlwaysPresentCache;

impl CacheStorageEngine for AlwaysPresentCache {
    fn has_cache(&mut self, origin: &str, bottle_id: i64, name: &str) -> Result<bool, String> {
        Ok(origin == "https://example.com" && bottle_id == 42 && name == "selected")
    }
}

fn has_cache<E: CacheStorageEngine>(engine: &mut E, name: &str) -> Result<bool, String> {
    let message = CacheStorageThreadMessage::HasCache {
        cache_name: name.to_owned(),
        origin: origin(),
        bottle_id: 42,
    };
    match answer_message(engine, message) {
        CacheStorageThreadResponse::HasCacheResult(result) => result,
        CacheStorageThreadResponse::Stopped => panic!("cache storage stopped"),
    }
}

#[test]
fn test_storage_engine_factory_is_selected_end_to_end() {
    assert_eq!(has_cache(&mut AlwaysPresentCache, "selected"), Ok(true));

    let mut manager = manager(true);
    set(&mut manager, WebStorageType::Local, WEBVIEW, "local");
    assert_eq!(
        get(&mut manager, WebStorageType::Local, OTHER_WEBVIEW),
        Some("local".to_owned())
    );

    set(&mut manager, WebStorageType::Session, WEBVIEW, "session-one");
    set(&mut manager, WebStorageType::Session, OTHER_WEBVIEW, "session-two");
    assert_eq!(
        get(&mut manager, WebStorageType::Session, WEBVIEW),
        Some("session-one".to_owned())
    );
    assert_eq!(
        get(&mut manager, WebStorageType::Session, OTHER_WEBVIEW),
        Some("session-two".to_owned())
    );

    let opens = manager.engine_factory.opens.borrow().clone();
    assert!(opens.contains(&(WebStorageType::Local, None, origin())));
    assert!(opens.contains(&(WebStorageType::Session, Some(WEBVIEW), origin())));
    assert!(opens.contains(&(WebStorageType::Session, Some(OTHER_WEBVIEW), origin())));

    let domains = vec![Some("example.com".to_owned())];
    let clearing = manager.clear_data_for_sites(
        WebStorageType::Local,
        &vec!["example.com".to_owned()],
        &domains,
    );
    assert!(clearing.failures.is_empty());
    assert!(clearing.save_origins);
    assert!(manager
        .engine_factory
        .clears
        .borrow()
        .contains(&(WebStorageType::Local, None, origin())));
    assert!(manager.origin_descriptors(WebStorageType::Local).is_empty());
}

#[test]
fn the_default_cache_has_nothing() {
    assert_eq!(has_cache(&mut DummyCacheStorageEngine, "selected"), Ok(false));
    let response = answer_message(&mut DummyCacheStorageEngine, CacheStorageThreadMessage::Exit);
    assert!(matches!(response, CacheStorageThreadResponse::Stopped));
}

#[test]
fn temporary_caches_have_a_directory_of_their_own() {
    assert_eq!(storage_dir(false), vec!["cachestorage", "default_v1"]);
    let (first, second) = (storage_dir(true), storage_dir(true));
    assert_eq!(first[..2], ["cachestorage", "temporary"]);
    assert_eq!(first.len(), 3);
    assert_eq!(first[2].len(), 36);
    assert_eq!(first[2].matches('-').count(), 4);
    assert_ne!(first, second);
}

#[test]
fn the_storage_groups_report_under_their_own_names() {
    let private = StorageGroup::Private.reporter_names();
    assert_eq!(private.indexeddb, "indexedDB-reporter-private");
    assert_eq!(private.web_storage, "storage-reporter-private");
    let public = StorageGroup::Public.reporter_names();
    assert_eq!(public.indexeddb, "indexedDB-reporter-public");
    assert_eq!(public.web_storage, "storage-reporter-public");
}

#[test]
fn an_entry_keeps_count_of_its_bytes() {
    let mut entry = OriginEntry::default();
    assert_eq!(entry.size(), 0);
    assert!(entry.inner().is_empty());
    assert_eq!(entry.insert("key".to_owned(), "value".to_owned()), None);
    assert_eq!(entry.size(), 8);
    assert_eq!(entry.insert("key".to_owned(), "v".to_owned()), Some("value".to_owned()));
    assert_eq!(entry.size(), 4);
    assert_eq!(entry.insert("ä".to_owned(), "€".to_owned()), None);
    assert_eq!(entry.size(), 9);
    assert_eq!(entry.insert("gone".to_owned(), "again".to_owned()), None);
    assert_eq!(entry.inner().keys(), vec!["gone", "key", "ä"]);
    for taken in [Some("again".to_owned()), None] {
        assert_eq!(entry.remove(&"gone".to_owned()), taken);
        assert_eq!(entry.size(), 9);
        assert_eq!(entry.inner().keys(), vec!["key", "ä"]);
    }
    assert_eq!(entry.remove(&"key".to_owned()), Some("v".to_owned()));
    assert_eq!(entry.remove(&"key".to_owned()), None);
    assert_eq!(entry.size(), 5);
    entry.clear();
    assert_eq!(entry.size(), 0);
    assert!(entry.inner().is_empty());
}

#[test]
fn keys_come_in_ascending_order() {
    let mut entry = OriginEntry::new();
    for key in ["b", "a", "ab", "Z", "é"] {
        entry.insert(key.to_owned(), key.to_owned());
    }
    assert_eq!(entry.inner().keys(), vec!["Z", "a", "ab", "b", "é"]);
    assert_eq!(entry.inner().key(2), Some("ab".to_owned()));
    assert_eq!(entry.inner().key(5), None);
    assert_eq!(entry.inner().get(&"Z".to_owned()), Some(&"Z".to_owned()));
    assert_eq!(entry.inner().len(), 5);
    let copy = entry.copy();
    assert_eq!(copy.inner().keys(), entry.inner().keys());
    assert_eq!(copy.size(), entry.size());
}

#[test]
fn descriptors_hold_the_origin() {
    assert_eq!(OriginDescriptor::new(origin()).name, ORIGIN);
}

#[test]
fn session_items_are_kept_in_memory_without_a_custom_engine() {
    let mut manager = manager(false);
    let session = WebStorageType::Session;
    set(&mut manager, session, WEBVIEW, "one");
    assert_eq!(get(&mut manager, session, WEBVIEW), Some("one".to_owned()));
    assert_eq!(get(&mut manager, session, OTHER_WEBVIEW), None);
    assert!(manager.engine_factory.opens.borrow().is_empty());

    let name = || "context".to_owned();
    let again = manager.set_item(session, WEBVIEW, &origin(), name(), "one".to_owned());
    assert_eq!(again.value, Ok((false, None)));
    let changed = manager.set_item(session, WEBVIEW, &origin(), name(), "two".to_owned());
    assert_eq!(changed.value, Ok((true, Some("one".to_owned()))));
    assert_eq!(manager.length(session, WEBVIEW, &origin()).value, 1);
    assert_eq!(manager.key(session, WEBVIEW, &origin(), 0).value, Some(name()));
    assert_eq!(manager.key(session, WEBVIEW, &origin(), 1).value, None);
    assert_eq!(manager.keys(session, WEBVIEW, &origin()).value, vec![name()]);
    let removed = manager.remove_item(session, WEBVIEW, &origin(), &name());
    assert_eq!(removed.value, Some("two".to_owned()));
    let removed = manager.remove_item(session, WEBVIEW, &origin(), &name());
    assert_eq!(removed.value, None);
    assert!(!manager.clear(session, WEBVIEW, &origin()).value);
    set(&mut manager, session, WEBVIEW, "three");
    assert!(manager.clear(session, WEBVIEW, &origin()).value);
    assert_eq!(manager.length(session, WEBVIEW, &origin()).value, 0);
}

#[test]
fn the_quota_bounds_what_an_origin_keeps() {
    for custom_engine in [false, true] {
        let mut manager = manager(custom_engine);
        let session = WebStorageType::Session;
        let mut try_set = |name: &str, len: usize| {
            let value = "x".repeat(len);
            manager.set_item(session, WEBVIEW, &origin(), name.to_owned(), value).value
        };
        assert_eq!(try_set("a", QUOTA_SIZE_LIMIT), Err(()));
        assert_eq!(try_set("a", QUOTA_SIZE_LIMIT - 1), Ok((true, None)));
        assert_eq!(try_set("b", 0), Err(()));
        assert!(matches!(try_set("a", 1), Ok((true, Some(_)))));
        assert_eq!(try_set("b", 0), Ok((true, None)));
    }
}

#[test]
fn setting_an_item_is_decided_by_its_size_and_value() {
    let (name, value) = ("name".to_owned(), "value".to_owned());
    let quota = QUOTA_SIZE_LIMIT;
    assert_eq!(decide_set(quota - 9, &None, &name, &value), SetDecision::Write);
    assert_eq!(decide_set(quota - 8, &None, &name, &value), SetDecision::QuotaExceeded);
    let same = Some(value.clone());
    assert_eq!(decide_set(quota, &same, &name, &value), SetDecision::Unchanged);
    assert_eq!(decide_set(quota + 1, &same, &name, &value), SetDecision::QuotaExceeded);
    let longer = Some("longer".to_owned());
    assert_eq!(decide_set(quota + 1, &longer, &name, &value), SetDecision::Write);
}

#[test]
fn local_origins_are_listed_and_saved_once() {
    let mut manager = manager(false);
    let first = manager.length(WebStorageType::Local, WEBVIEW, &origin());
    assert!(first.save_origins);
    assert_eq!(first.value, 0);
    let second = manager.keys(WebStorageType::Local, WEBVIEW, &origin());
    assert!(!second.save_origins);
    let listed = manager.origin_descriptors(WebStorageType::Local);
    assert_eq!(listed.len(), 1);
    assert_eq!(listed[0].name, ORIGIN);
    assert!(manager.origin_descriptors(WebStorageType::Session).is_empty());
}

#[test]
fn failing_engines_are_answered_with_nothing() {
    let mut manager = manager(true);
    for storage_type in [WebStorageType::Local, WebStorageType::Session] {
        set(&mut manager, storage_type, WEBVIEW, "kept");
        manager.engine_factory.broken.borrow_mut().push(origin());
        let name = || "context".to_owned();
        let read = manager.request_item(storage_type, WEBVIEW, &origin(), &name());
        assert_eq!((read.value, read.error), (None, Some("broken".to_owned())));
        let len = manager.length(storage_type, WEBVIEW, &origin());
        assert_eq!((len.value, len.error), (0, Some("broken".to_owned())));
        let key = manager.key(storage_type, WEBVIEW, &origin(), 0);
        assert_eq!((key.value, key.error), (None, Some("broken".to_owned())));
        let keys = manager.keys(storage_type, WEBVIEW, &origin());
        assert_eq!((keys.value, keys.error), (Vec::new(), Some("broken".to_owned())));
        let set = manager.set_item(storage_type, WEBVIEW, &origin(), name(), name());
        assert_eq!((set.value, set.error), (Err(()), Some("broken".to_owned())));
        let removed = manager.remove_item(storage_type, WEBVIEW, &origin(), &name());
        assert_eq!((removed.value, removed.error), (None, Some("broken".to_owned())));
        let cleared = manager.clear(storage_type, WEBVIEW, &origin());
        assert_eq!((cleared.value, cleared.error), (false, Some("broken".to_owned())));
        manager.engine_factory.broken.borrow_mut().clear();
        assert_eq!(get(&mut manager, storage_type, WEBVIEW), Some("kept".to_owned()));
    }

    let unopened = "https://unopened.example".to_owned();
    manager.engine_factory.broken.borrow_mut().push(format!("open {unopened}"));
    let read = manager.length(WebStorageType::Local, WEBVIEW, &unopened);
    assert_eq!((read.value, read.error), (0, Some("cannot open".to_owned())));
}

#[test]
fn a_cloned_session_has_its_own_copy() {
    for custom_engine in [false, true] {
        let mut manager = manager(custom_engine);
        let session = WebStorageType::Session;
        set(&mut manager, session, WEBVIEW, "shared");
        let stale = "https://stale.example".to_owned();
        manager.set_item(session, OTHER_WEBVIEW, &stale, "old".to_owned(), "data".to_owned());

        assert!(manager.clone(WEBVIEW, OTHER_WEBVIEW).is_empty());
        assert_eq!(get(&mut manager, session, OTHER_WEBVIEW), Some("shared".to_owned()));
        let old = manager.request_item(session, OTHER_WEBVIEW, &stale, &"old".to_owned());
        assert_eq!(old.value, None);

        let name = "context".to_owned();
        manager.set_item(session, OTHER_WEBVIEW, &origin(), name, "own".to_owned());
        assert_eq!(get(&mut manager, session, WEBVIEW), Some("shared".to_owned()));
        assert_eq!(get(&mut manager, session, OTHER_WEBVIEW), Some("own".to_owned()));
    }
}

#[test]
fn cloning_a_webview_without_a_session_changes_nothing_in_memory() {
    let mut manager = manager(false);
    set(&mut manager, WebStorageType::Session, OTHER_WEBVIEW, "kept");
    assert!(manager.clone(WEBVIEW, OTHER_WEBVIEW).is_empty());
    assert_eq!(
        get(&mut manager, WebStorageType::Session, OTHER_WEBVIEW),
        Some("kept".to_owned())
    );
}

#[test]
fn a_clone_reports_where_an_engine_failed() {
    let mut manager = manager(true);
    set(&mut manager, WebStorageType::Session, WEBVIEW, "unreadable");
    manager.engine_factory.broken.borrow_mut().push(origin());
    let failures = manager.clone(WEBVIEW, OTHER_WEBVIEW);
    assert!(!failures.is_empty());
    assert_eq!(failures.reading.len(), 1);
    assert_eq!(failures.reading[0].origin, ORIGIN);
    assert_eq!(failures.reading[0].error, "broken");
    assert!(failures.clearing.is_empty() && failures.copying.is_empty());
}

#[test]
fn a_clone_goes_on_past_an_engine_that_fails() {
    let mut manager = manager(true);
    let session = WebStorageType::Session;
    let (name, other) = ("name".to_owned(), "https://other.test".to_owned());
    set(&mut manager, session, WEBVIEW, "one");
    manager.set_item(session, WEBVIEW, &other, name.clone(), "two".to_owned());
    let stale = "https://stale.example".to_owned();
    manager.set_item(session, OTHER_WEBVIEW, &stale, name.clone(), "old".to_owned());
    manager.engine_factory.broken.borrow_mut().push(stale.clone());
    manager.engine_factory.broken.borrow_mut().push(format!("open {ORIGIN}"));

    let failures = manager.clone(WEBVIEW, OTHER_WEBVIEW);
    assert_eq!(failures.clearing.len(), 1);
    assert_eq!(failures.clearing[0].origin, stale);
    assert_eq!(failures.clearing[0].error, "broken");
    assert!(failures.reading.is_empty());
    assert_eq!(failures.copying.len(), 1);
    assert_eq!(failures.copying[0].origin, ORIGIN);
    assert_eq!(failures.copying[0].error, "cannot open");
    let copied = manager.request_item(session, OTHER_WEBVIEW, &other, &name);
    assert_eq!(copied.value, Some("two".to_owned()));
}

#[test]
fn clearing_sites_takes_the_origins_of_their_domains() {
    for custom_engine in [false, true] {
        let mut manager = manager(custom_engine);
        let session = WebStorageType::Session;
        let other = "https://other.test".to_owned();
        let local_host = "http://localhost".to_owned();
        set(&mut manager, session, WEBVIEW, "going");
        for staying in [&other, &local_host] {
            manager.set_item(session, WEBVIEW, staying, "name".to_owned(), "stays".to_owned());
        }
        let domains = vec![Some("example.com".to_owned()), Some("other.test".to_owned()), None];
        let clearing =
            manager.clear_data_for_sites(session, &vec!["example.com".to_owned()], &domains);
        assert!(clearing.failures.is_empty() && clearing.removals.is_empty());
        assert!(!clearing.save_origins);
        let names: Vec<String> =
            manager.origin_descriptors(session).into_iter().map(|one| one.name).collect();
        assert_eq!(names, vec![other.clone(), local_host]);
        assert_eq!(get(&mut manager, session, WEBVIEW), None);
        let kept = manager.request_item(session, WEBVIEW, &other, &"name".to_owned());
        assert_eq!(kept.value, Some("stays".to_owned()));
    }
}

#[test]
fn sites_whose_engine_fails_stay_listed() {
    for storage_type in [WebStorageType::Local, WebStorageType::Session] {
        let mut manager = manager(true);
        set(&mut manager, storage_type, WEBVIEW, "kept");
        manager.engine_factory.broken.borrow_mut().push(origin());
        let clearing = manager.clear_data_for_sites(
            storage_type,
            &vec!["example.com".to_owned()],
            &vec![Some("example.com".to_owned())],
        );
        assert_eq!(clearing.failures.len(), 1);
        assert!(clearing.removals.is_empty());
        assert_eq!(manager.origin_descriptors(storage_type).len(), 1);
        manager.engine_factory.broken.borrow_mut().clear();
        assert_eq!(get(&mut manager, storage_type, WEBVIEW), Some("kept".to_owned()));
    }
}

#[test]
fn cleared_local_origins_leave_a_directory_to_remove() {
    let mut manager = manager(false);
    set(&mut manager, WebStorageType::Local, WEBVIEW, "going");
    let location = manager.engine_factory.locations.borrow()[0].clone().unwrap();
    let clearing = manager.clear_data_for_sites(
        WebStorageType::Local,
        &vec!["example.com".to_owned()],
        &vec![Some("example.com".to_owned())],
    );
    assert_eq!(clearing.removals.len(), 1);
    assert_eq!(clearing.removals[0].origin, ORIGIN);
    assert_eq!(clearing.removals[0].location, location);
    assert!(manager.origin_descriptors(WebStorageType::Local).is_empty());
    manager.keep_local_origin(&origin());
    assert_eq!(manager.origin_descriptors(WebStorageType::Local)[0].name, ORIGIN);
}

#[test]
fn locations_are_named_by_their_origin() {
    let local = get_origin_location(true, WebStorageType::Local, None, &origin()).unwrap();
    let namespace = uuid::Uuid::from_bytes([
        0x37, 0x9e, 0x56, 0xb0, 0x1a, 0x76, 0x44, 0xc5, 0xa4, 0xdb, 0xe2, 0x18, 0xc5, 0xc8, 0xa3,
        0x5d,
    ]);
    let own = uuid::Uuid::new_v5(&namespace, ORIGIN.as_bytes()).to_string();
    assert_eq!(local, vec!["webstorage".to_owned(), own]);
    let session =
        get_origin_location(true, WebStorageType::Session, Some(7), &origin()).unwrap();
    let own = uuid::Uuid::new_v5(&namespace, b"7|https://example.com").to_string();
    assert_eq!(session, vec!["webstorage".to_owned(), "session".to_owned(), own]);
    assert_eq!(get_origin_location(false, WebStorageType::Local, None, &origin()), None);
}

#[test]
fn messages_are_answered_in_kind() {
    let mut manager = manager(false);
    let storage_type = WebStorageType::Session;
    let webview = WEBVIEW;
    let name = || "name".to_owned();
    let reply = manager.handle(WebStorageThreadMsg::SetItem {
        storage_type,
        webview,
        origin: origin(),
        name: name(),
        value: "value".to_owned(),
    });
    assert!(matches!(reply, WebStorageReply::Stored(answer) if answer.value == Ok((true, None))));
    let reply = manager.handle(WebStorageThreadMsg::GetItem {
        storage_type,
        webview,
        origin: origin(),
        name: name(),
    });
    assert!(
        matches!(reply, WebStorageReply::Item(answer) if answer.value == Some("value".to_owned()))
    );
    let reply =
        manager.handle(WebStorageThreadMsg::Length { storage_type, webview, origin: origin() });
    assert!(matches!(reply, WebStorageReply::Length(answer) if answer.value == 1));
    let reply = manager.handle(WebStorageThreadMsg::Key {
        storage_type,
        webview,
        origin: origin(),
        index: 0,
    });
    assert!(matches!(reply, WebStorageReply::Key(answer) if answer.value == Some(name())));
    let reply =
        manager.handle(WebStorageThreadMsg::Keys { storage_type, webview, origin: origin() });
    assert!(matches!(reply, WebStorageReply::Keys(answer) if answer.value == vec![name()]));
    let reply = manager.handle(WebStorageThreadMsg::Clone { src: WEBVIEW, dest: OTHER_WEBVIEW });
    assert!(matches!(reply, WebStorageReply::Cloned(failures) if failures.is_empty()));
    let reply = manager.handle(WebStorageThreadMsg::RemoveItem {
        storage_type,
        webview,
        origin: origin(),
        name: name(),
    });
    assert!(
        matches!(reply, WebStorageReply::Removed(answer) if answer.value == Some("value".to_owned()))
    );
    let reply =
        manager.handle(WebStorageThreadMsg::Clear { storage_type, webview, origin: origin() });
    assert!(matches!(reply, WebStorageReply::Cleared(answer) if !answer.value));
    let reply = manager.handle(WebStorageThreadMsg::ListOrigins { storage_type });
    assert!(matches!(reply, WebStorageReply::Origins(origins) if origins.len() == 1));
    let reply = manager.handle(WebStorageThreadMsg::ClearDataForSites {
        storage_type,
        sites: vec!["example.com".to_owned()],
        domains: vec![Some("example.com".to_owned())],
    });
    assert!(matches!(reply, WebStorageReply::SitesCleared(_)));
    let reply = manager.handle(WebStorageThreadMsg::Exit);
    assert!(matches!(reply, WebStorageReply::Stopped));
}

/// Keeps items in an SQLite table.
struct SqliteEngine {
    connection: Connection,
}

fn bound(value: &Value) -> rusqlite::types::Value {
    match value {
        Value::Null => rusqlite::types::Value::Null,
        Value::Integer(number) => rusqlite::types::Value::Integer(*number),
        Value::Text(text) => rusqlite::types::Value::Text(text.clone()),
        Value::Blob(bytes) => rusqlite::types::Value::Blob(bytes.clone()),
    }
}

impl SqliteEngine {
    fn new() -> SqliteEngine {
        let connection = Connection::open_in_memory().unwrap();
        connection.execute(&create_table(), []).unwrap();
        SqliteEngine { connection }
    }

    fn run(&self, statement: Statement) -> usize {
        self.connection
            .execute(&statement.sql, params_from_iter(statement.values.iter().map(bound)))
            .unwrap()
    }

    fn one<T: rusqlite::types::FromSql>(&self, question: Question) -> Option<T> {
        let statement = question.statement();
        self.connection
            .query_row(
                &statement.sql,
                params_from_iter(statement.values.iter().map(bound)),
                |row| row.get(0),
            )
            .optional()
            .unwrap()
    }
}

impl WebStorageEngine for SqliteEngine {
    fn len(&self) -> Result<usize, String> {
        Ok(self.one::<i64>(Question::Count).unwrap() as usize)
    }

    fn key(&self, index: usize) -> Result<Option<String>, String> {
        Ok(self.one(Question::Key { index: index as i64 }))
    }

    fn keys(&self) -> Result<Vec<String>, String> {
        let statement = Question::Keys.statement();
        let mut prepared = self.connection.prepare(&statement.sql).unwrap();
        let keys = prepared.query_map([], |row| row.get(0)).unwrap();
        keys.collect::<rusqlite::Result<Vec<String>>>().map_err(|error| error.to_string())
    }

    fn get(&self, key: &str) -> Result<Option<String>, String> {
        Ok(self.one(Question::Value { key: key.to_owned() }))
    }

    fn set(&mut self, key: &str, value: &str) -> Result<Option<String>, String> {
        let before = self.get(key)?;
        let (key, value) = (key.to_owned(), value.to_owned());
        let update = Change::Update { key: key.clone(), value: value.clone() };
        let updated = self.run(update.statement());
        if let Some(change) = after_update(updated, &key, &value) {
            self.run(change.statement());
        }
        Ok(before)
    }

    fn delete(&mut self, key: &str) -> Result<Option<String>, String> {
        let before = self.get(key)?;
        self.run(Change::Delete { key: key.to_owned() }.statement());
        Ok(before)
    }

    fn clear(&mut self) -> Result<bool, String> {
        let changed = clear_changes(self.len()? as i64);
        self.run(Change::DeleteAll.statement());
        Ok(changed)
    }

    fn size(&self) -> Result<usize, String> {
        Ok(self.one::<i64>(Question::Size).unwrap() as usize)
    }
}

#[test]
fn the_sqlite_statements_keep_items() {
    let mut engine = SqliteEngine::new();
    assert_eq!(engine.size(), Ok(0));
    assert_eq!(engine.clear(), Ok(false));
    assert_eq!(engine.set("b", "2"), Ok(None));
    assert_eq!(engine.set("a", "1"), Ok(None));
    assert_eq!(engine.set("b", "22"), Ok(Some("2".to_owned())));
    assert_eq!(engine.len(), Ok(2));
    assert_eq!(engine.keys(), Ok(vec!["a".to_owned(), "b".to_owned()]));
    assert_eq!(engine.key(1), Ok(Some("b".to_owned())));
    assert_eq!(engine.key(2), Ok(None));
    assert_eq!(engine.get("b"), Ok(Some("22".to_owned())));
    assert_eq!(engine.size(), Ok(5));
    assert_eq!(engine.delete("a"), Ok(Some("1".to_owned())));
    assert_eq!(engine.delete("a"), Ok(None));
    assert_eq!(engine.clear(), Ok(true));
    assert_eq!(engine.len(), Ok(0));
}

#[test]
fn items_in_an_engine_are_set_once() {
    let mut engine = SqliteEngine::new();
    let (name, value) = ("name".to_owned(), "value".to_owned());
    assert_eq!(set_engine_item(&mut engine, &name, &value), Ok(Ok((true, None))));
    assert_eq!(set_engine_item(&mut engine, &name, &value), Ok(Ok((false, None))));
    assert_eq!(
        set_engine_item(&mut engine, &name, &"next".to_owned()),
        Ok(Ok((true, Some(value))))
    );
    assert_eq!(engine.get("name"), Ok(Some("next".to_owned())));
}
