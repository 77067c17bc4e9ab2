//! The storage of every origin, and the messages that act on it.

use vstd::prelude::*;
use vstd::string::*;

use crate::error::option_text;
use crate::ids::{name_uuid, uuid_for_name};
use crate::indexeddb::key::key_lt_irreflexive;
use crate::names::{by_name, replaced as replaced_name, Names};
use crate::text::{nat_text, texts, unsigned_text};
use crate::text_map::{bytes, byte_len, in_key_order, item_at, text_lt, contents_of, TextItem};
use crate::webstorage::engine::{
    lists, nth, EngineCall, WebStorageEngine, WebStorageEngineFactory, WebStorageType,
};
use crate::webstorage::entry::{total_bytes, OriginEntry};
use crate::webstorage::origins::StorageOrigins;
use crate::webstorage::slots::{
    by_slot, replaced as replaced_slot, value_at as value_at_slot, Slots,
};

verus! {

/// How many bytes an origin may store.
pub const QUOTA_SIZE_LIMIT: usize = 5 * 1024 * 1024;

/// What a message is answered with. `error` is why an engine failed, where one did: the value is
/// then that of an origin without items. `save_origins` says that the list of local origins has to
/// be saved.
#[derive(Debug)]
pub struct Answered<T> {
    pub value: T,
    pub error: Option<String>,
    pub save_origins: bool,
}

/// The namespace of the identifiers that name an origin's location.
pub open spec fn location_namespace() -> Seq<u8> {
    seq![
        0x37u8,
        0x9e,
        0x56,
        0xb0,
        0x1a,
        0x76,
        0x44,
        0xc5,
        0xa4,
        0xdb,
        0xe2,
        0x18,
        0xc5,
        0xc8,
        0xa3,
        0x5d,
    ]
}

fn namespace() -> (bytes: [u8; 16])
    ensures
        bytes@ == location_namespace(),
{
    let bytes: [u8; 16] = [
        0x37,
        0x9e,
        0x56,
        0xb0,
        0x1a,
        0x76,
        0x44,
        0xc5,
        0xa4,
        0xdb,
        0xe2,
        0x18,
        0xc5,
        0xc8,
        0xa3,
        0x5d,
    ];
    assert(bytes@ =~= location_namespace());
    bytes
}

/// What names an origin's location: the origin for local storage, and the webview and the origin
/// for session storage.
pub open spec fn location_scope(
    storage_type: WebStorageType,
    webview: Option<u64>,
    origin: Seq<char>,
) -> Seq<char> {
    match storage_type {
        WebStorageType::Local => origin,
        WebStorageType::Session => nat_text(webview->0 as nat) + "|"@ + origin,
    }
}

/// An origin's location below the configuration directory, by the names of its directories.
pub open spec fn origin_location(
    storage_type: WebStorageType,
    webview: Option<u64>,
    origin: Seq<char>,
) -> Seq<Seq<char>> {
    let own = name_uuid(
        location_namespace(),
        bytes(location_scope(storage_type, webview, origin)),
    );
    match storage_type {
        WebStorageType::Local => seq!["webstorage"@, own],
        WebStorageType::Session => seq!["webstorage"@, "session"@, own],
    }
}

/// An origin's location below the configuration directory; none without such a directory.
pub fn get_origin_location(
    has_config_dir: bool,
    storage_type: WebStorageType,
    webview: Option<u64>,
    origin: &String,
) -> (location: Option<Vec<String>>)
    requires
        storage_type == WebStorageType::Session ==> webview is Some,
    ensures
        location is Some <==> has_config_dir,
        location matches Some(parts) ==> texts(parts@) == origin_location(
            storage_type,
            webview,
            origin@,
        ),
{
    if !has_config_dir {
        return None;
    }
    let scope = match (storage_type, webview) {
        (WebStorageType::Session, Some(webview)) => {
            let mut scope = unsigned_text(webview);
            scope.append("|");
            scope.append(origin.as_str());
            scope
        },
        _ => origin.clone(),
    };
    let own = uuid_for_name(&namespace(), scope.as_str().as_bytes());
    let mut parts: Vec<String> = Vec::new();
    parts.push("webstorage".to_owned());
    if storage_type == WebStorageType::Session {
        parts.push("session".to_owned());
    }
    parts.push(own);
    assert(texts(parts@) =~= origin_location(storage_type, webview, origin@));
    Some(parts)
}

/// What setting an item comes to.
#[derive(Clone, Copy, Debug, PartialEq, Eq, Structural)]
pub enum SetDecision {
    /// The items would take more than an origin may store.
    QuotaExceeded,
    /// The key has the value already.
    Unchanged,
    Write,
}

/// A number in the machine's arithmetic, one addition or subtraction away from its range.
pub open spec fn wrapped(number: int) -> int {
    if number < 0 {
        number + usize::MAX + 1
    } else if number > usize::MAX {
        number - usize::MAX - 1
    } else {
        number
    }
}

/// The size of the items once the key has the value, in the machine's arithmetic: an engine may
/// count in another unit than bytes.
pub open spec fn size_after(
    total: usize,
    before: Option<Seq<char>>,
    name: Seq<char>,
    value: Seq<char>,
) -> int {
    match before {
        Some(before) => wrapped(wrapped(total - bytes(before).len()) + bytes(value).len()),
        None => wrapped(wrapped(total + bytes(name).len()) + bytes(value).len()),
    }
}

/// What setting an item comes to, given the value that the key has and the size of all items.
pub open spec fn set_decision(
    total: usize,
    before: Option<Seq<char>>,
    name: Seq<char>,
    value: Seq<char>,
) -> SetDecision {
    if size_after(total, before, name, value) > QUOTA_SIZE_LIMIT {
        SetDecision::QuotaExceeded
    } else if before == Some(value) {
        SetDecision::Unchanged
    } else {
        SetDecision::Write
    }
}

/// What setting an item comes to.
pub fn decide_set(total: usize, before: &Option<String>, name: &String, value: &String) -> (decision:
    SetDecision)
    ensures
        decision == set_decision(total, option_text(*before), name@, value@),
{
    let value_len: usize = byte_len(value);
    let name_len: usize = byte_len(name);
    let size: usize = match before {
        Some(text) => total.wrapping_sub(byte_len(text)).wrapping_add(value_len),
        None => total.wrapping_add(name_len).wrapping_add(value_len),
    };
    if size > QUOTA_SIZE_LIMIT {
        return SetDecision::QuotaExceeded;
    }
    match before {
        Some(text) => {
            if *text == *value {
                return SetDecision::Unchanged;
            }
        },
        None => {},
    }
    SetDecision::Write
}

/// What setting an item is answered with: that the quota would be exceeded, or whether the item
/// changed and the value that it had.
pub type SetAnswer = Result<(bool, Option<String>), ()>;

/// What setting an item in an engine did: `before` and `after` are the items, and `total` is how
/// much the items took.
pub open spec fn set_effect(
    answer: SetAnswer,
    total: usize,
    before: Map<Seq<char>, Seq<char>>,
    after: Map<Seq<char>, Seq<char>>,
    name: Seq<char>,
    value: Seq<char>,
) -> bool {
    match set_decision(total, before.get(name), name, value) {
        SetDecision::QuotaExceeded => answer is Err && after == before,
        SetDecision::Unchanged => answer == SetAnswer::Ok((false, None)) && after == before,
        SetDecision::Write => {
            &&& answer matches Ok((true, old_value)) && option_text(old_value) == before.get(name)
            &&& after == before.insert(name, value)
        },
    }
}

/// Setting an item in an engine fails with the error: reading the value or the size failed, and the
/// engine is as it was; or the item was to be written, and the engine is as that left it.
pub open spec fn set_fails<E: WebStorageEngine>(
    before: E,
    after: E,
    name: Seq<char>,
    value: Seq<char>,
    error: Seq<char>,
) -> bool {
    ||| after == before && before.may_end(EngineCall::Get(name), Some(error), after)
    ||| after == before && before.may_end(EngineCall::Size, Some(error), after)
    ||| set_decision(before.counted_size(), before.contents().get(name), name, value)
        == SetDecision::Write && before.may_end(EngineCall::Put(name, value), Some(error), after)
}

/// Sets an item in an engine. It fails only where the engine does, with the engine's error.
pub fn set_engine_item<E: WebStorageEngine>(engine: &mut E, name: &String, value: &String) -> (
    result: Result<SetAnswer, String>)
    ensures
        result matches Ok(answer) ==> set_effect(
            answer,
            old(engine).counted_size(),
            old(engine).contents(),
            final(engine).contents(),
            name@,
            value@,
        ),
        result matches Err(error) ==> set_fails(
            *old(engine),
            *final(engine),
            name@,
            value@,
            error@,
        ),
{
    let old_value = match engine.get(name.as_str()) {
        Ok(old_value) => old_value,
        Err(error) => return Err(error),
    };
    let total_size = match engine.size() {
        Ok(total_size) => total_size,
        Err(error) => return Err(error),
    };
    match decide_set(total_size, &old_value, name, value) {
        SetDecision::QuotaExceeded => Ok(Err(())),
        SetDecision::Unchanged => Ok(Ok((false, None))),
        SetDecision::Write => match engine.set(name.as_str(), value.as_str()) {
            Ok(_) => Ok(Ok((true, old_value))),
            Err(error) => Err(error),
        },
    }
}

/// The storage of every origin: `E` is the engine that keeps an origin's items, and `F` opens
/// engines.
#[derive(Debug)]
pub struct WebStorageManager<E, F> {
    pub session_storage_origins: StorageOrigins,
    pub local_storage_origins: StorageOrigins,
    /// Session items that are kept in memory.
    pub session_data: Slots<OriginEntry>,
    /// Session items that are kept by engines.
    pub session_environments: Slots<E>,
    pub has_config_dir: bool,
    pub engine_factory: F,
    pub use_engine_for_session: bool,
    /// Local items.
    pub environments: Names<E>,
}

/// Only what `key` has may differ, and it has something now.
pub open spec fn touched<K, V>(before: Map<K, V>, after: Map<K, V>, key: K) -> bool {
    after.contains_key(key) && after.remove(key) == before.remove(key)
}

/// What `key` has is as it was, or is new.
pub open spec fn opened<K, V>(before: Map<K, V>, after: Map<K, V>, key: K) -> bool {
    touched(before, after, key) && (before.contains_key(key) ==> after == before)
}

/// Every origin's items are well formed and within the quota.
pub open spec fn sound_entries(data: Map<(u64, Seq<char>), OriginEntry>) -> bool {
    forall|key: (u64, Seq<char>)| #[trigger]
        data.contains_key(key) ==> data[key].wf() && total_bytes(data[key].items())
            <= QUOTA_SIZE_LIMIT
}

/// A list of origins once an origin is on it.
pub open spec fn with_origin(origins: Seq<Seq<char>>, origin: Seq<char>) -> Seq<Seq<char>> {
    if origins.contains(origin) {
        origins
    } else {
        origins.push(origin)
    }
}

impl<E: WebStorageEngine, F: WebStorageEngineFactory<E>> WebStorageManager<E, F> {
    /// Every part is well formed.
    pub open spec fn wf(&self) -> bool {
        &&& self.session_storage_origins.wf()
        &&& self.local_storage_origins.wf()
        &&& self.session_data.wf()
        &&& sound_entries(self.session_data@)
        &&& self.session_environments.wf()
        &&& self.environments.wf()
    }

    /// Session items are kept by engines.
    pub open spec fn by_engine(&self, storage_type: WebStorageType) -> bool {
        storage_type == WebStorageType::Local || self.use_engine_for_session
    }

    /// The items that an origin has.
    pub open spec fn items_of(
        &self,
        storage_type: WebStorageType,
        webview: u64,
        origin: Seq<char>,
    ) -> Map<Seq<char>, Seq<char>> {
        if storage_type == WebStorageType::Local {
            self.environments@[origin].contents()
        } else if self.use_engine_for_session {
            self.session_environments@[(webview, origin)].contents()
        } else if self.session_data@.contains_key((webview, origin)) {
            self.session_data@[(webview, origin)]@
        } else {
            Map::empty()
        }
    }

    /// The keys of an origin in order.
    pub open spec fn order_of(
        &self,
        storage_type: WebStorageType,
        webview: u64,
        origin: Seq<char>,
    ) -> Seq<Seq<char>> {
        if storage_type == WebStorageType::Local {
            self.environments@[origin].key_order()
        } else if self.use_engine_for_session {
            self.session_environments@[(webview, origin)].key_order()
        } else {
            item_keys(session_items(self.session_data@, webview, origin))
        }
    }

    /// The engine of the origin is open.
    pub open spec fn is_open(
        &self,
        storage_type: WebStorageType,
        webview: u64,
        origin: Seq<char>,
    ) -> bool {
        if storage_type == WebStorageType::Local {
            self.environments@.contains_key(origin)
        } else {
            self.session_environments@.contains_key((webview, origin))
        }
    }

    /// The engine of an origin whose engine is open.
    pub open spec fn engine_at(
        &self,
        storage_type: WebStorageType,
        webview: u64,
        origin: Seq<char>,
    ) -> E {
        if storage_type == WebStorageType::Local {
            self.environments@[origin]
        } else {
            self.session_environments@[(webview, origin)]
        }
    }

    /// Asked for the engine of the origin, the factory may answer so.
    pub open spec fn opens(
        &self,
        storage_type: WebStorageType,
        webview: u64,
        origin: Seq<char>,
        result: Result<E, String>,
    ) -> bool {
        let webview_id = match storage_type {
            WebStorageType::Local => None,
            WebStorageType::Session => Some(webview),
        };
        self.engine_factory.may_open(
            storage_type,
            webview_id,
            origin,
            if self.has_config_dir {
                Some(origin_location(storage_type, webview_id, origin))
            } else {
                None
            },
            result,
        )
    }

    /// The factory was asked for a session's engine, and opened one.
    pub open spec fn opened_for_session(&self, webview: u64, origin: Seq<char>) -> bool {
        exists|engine: E| #[trigger]
            self.opens(WebStorageType::Session, webview, origin, Ok(engine))
    }

    /// The engine is the origin's own, or one that the factory opens for it.
    pub open spec fn is_engine_of(
        &self,
        storage_type: WebStorageType,
        webview: u64,
        origin: Seq<char>,
        engine: E,
    ) -> bool {
        if self.is_open(storage_type, webview, origin) {
            engine == self.engine_at(storage_type, webview, origin)
        } else {
            self.opens(storage_type, webview, origin, Ok(engine))
        }
    }

    /// There was no engine for the origin, and none could be opened: that is the error.
    pub open spec fn cannot_open(
        &self,
        storage_type: WebStorageType,
        webview: u64,
        origin: Seq<char>,
        error: Option<String>,
    ) -> bool {
        &&& error matches Some(text)
        &&& !self.is_open(storage_type, webview, origin)
        &&& self.opens(storage_type, webview, origin, Err(text))
    }

    /// The message failed with the error: there was no engine and none could be opened, or the call
    /// of the origin's engine failed and the engine is as that left it.
    pub open spec fn call_failed(
        &self,
        before: &Self,
        storage_type: WebStorageType,
        webview: u64,
        origin: Seq<char>,
        call: EngineCall,
        error: Option<String>,
    ) -> bool {
        ||| before.cannot_open(storage_type, webview, origin, error)
        ||| error matches Some(text) && exists|engine: E| #[trigger]
            before.is_engine_of(storage_type, webview, origin, engine) && engine.may_end(
                call,
                Some(text@),
                self.engine_at(storage_type, webview, origin),
            )
    }

    /// Setting an item failed with the error: there was no engine and none could be opened, or the
    /// origin's engine failed and is as that left it.
    pub open spec fn set_failed(
        &self,
        before: &Self,
        storage_type: WebStorageType,
        webview: u64,
        origin: Seq<char>,
        name: Seq<char>,
        value: Seq<char>,
        error: Option<String>,
    ) -> bool {
        ||| before.cannot_open(storage_type, webview, origin, error)
        ||| error matches Some(text) && exists|engine: E| #[trigger]
            before.is_engine_of(storage_type, webview, origin, engine) && set_fails(
                engine,
                self.engine_at(storage_type, webview, origin),
                name,
                value,
                text@,
            )
    }

    /// Neither the engines of local storage nor its origins matter: the rest is the same.
    pub open spec fn same_but_local(&self, before: &Self) -> bool {
        &&& self.session_storage_origins == before.session_storage_origins
        &&& self.session_data == before.session_data
        &&& self.session_environments == before.session_environments
        &&& self.has_config_dir == before.has_config_dir
        &&& self.engine_factory == before.engine_factory
        &&& self.use_engine_for_session == before.use_engine_for_session
    }

    /// The session engines do not matter: the rest is the same.
    pub open spec fn same_but_session_environments(&self, before: &Self) -> bool {
        &&& self.session_storage_origins == before.session_storage_origins
        &&& self.local_storage_origins == before.local_storage_origins
        &&& self.session_data == before.session_data
        &&& self.has_config_dir == before.has_config_dir
        &&& self.engine_factory == before.engine_factory
        &&& self.use_engine_for_session == before.use_engine_for_session
        &&& self.environments == before.environments
    }

    /// What a message that only reads leaves changed: the engine that it reads may have been
    /// opened for it, and a local origin is listed.
    pub open spec fn consulted(
        &self,
        before: &Self,
        storage_type: WebStorageType,
        webview: u64,
        origin: Seq<char>,
        error: Option<String>,
    ) -> bool {
        match storage_type {
            WebStorageType::Local => {
                &&& self.same_but_local(before)
                &&& self.local_storage_origins@ == with_origin(before.local_storage_origins@, origin)
                &&& {
                    ||| {
                        &&& opened(before.environments@, self.environments@, origin)
                        &&& before.is_engine_of(
                            storage_type,
                            webview,
                            origin,
                            self.environments@[origin],
                        )
                    }
                    ||| {
                        &&& self.environments@ == before.environments@
                        &&& before.cannot_open(storage_type, webview, origin, error)
                    }
                }
            },
            WebStorageType::Session => if before.use_engine_for_session {
                let key = (webview, origin);
                &&& self.same_but_session_environments(before)
                &&& {
                    ||| {
                        &&& opened(before.session_environments@, self.session_environments@, key)
                        &&& before.is_engine_of(
                            storage_type,
                            webview,
                            origin,
                            self.session_environments@[key],
                        )
                    }
                    ||| {
                        &&& self.session_environments@ == before.session_environments@
                        &&& before.cannot_open(storage_type, webview, origin, error)
                    }
                }
            } else {
                *self == *before && error is None
            },
        }
    }

    /// What a message that writes leaves changed: the engine or the session data of the origin, and
    /// a local origin is listed. `listed` says that a session origin is listed too.
    pub open spec fn wrote_to(
        &self,
        before: &Self,
        storage_type: WebStorageType,
        webview: u64,
        origin: Seq<char>,
        listed: bool,
        error: Option<String>,
    ) -> bool {
        &&& self.has_config_dir == before.has_config_dir
        &&& self.engine_factory == before.engine_factory
        &&& self.use_engine_for_session == before.use_engine_for_session
        &&& match storage_type {
            WebStorageType::Local => {
                &&& self.same_but_local(before)
                &&& self.local_storage_origins@ == with_origin(before.local_storage_origins@, origin)
                &&& {
                    ||| touched(before.environments@, self.environments@, origin)
                    ||| {
                        &&& self.environments@ == before.environments@
                        &&& before.cannot_open(storage_type, webview, origin, error)
                    }
                }
            },
            WebStorageType::Session => {
                &&& self.local_storage_origins == before.local_storage_origins
                &&& self.environments == before.environments
                &&& self.session_storage_origins@ == if listed {
                    with_origin(before.session_storage_origins@, origin)
                } else {
                    before.session_storage_origins@
                }
                &&& if before.use_engine_for_session {
                    &&& self.session_data == before.session_data
                    &&& {
                        ||| touched(
                            before.session_environments@,
                            self.session_environments@,
                            (webview, origin),
                        )
                        ||| {
                            &&& self.session_environments@ == before.session_environments@
                            &&& before.cannot_open(storage_type, webview, origin, error)
                        }
                    }
                } else {
                    &&& error is None
                    &&& self.session_environments == before.session_environments
                    &&& touched(before.session_data@, self.session_data@, (webview, origin)) || (
                    !listed && self.session_data@ == before.session_data@)
                }
            },
        }
    }

    /// The items from which a message that writes starts: those that the origin has, or those of
    /// an engine that is opened for it.
    pub open spec fn starts_from(
        &self,
        storage_type: WebStorageType,
        webview: u64,
        origin: Seq<char>,
        items: Map<Seq<char>, Seq<char>>,
    ) -> bool {
        if self.by_engine(storage_type) {
            exists|engine: E| #[trigger]
                self.is_engine_of(storage_type, webview, origin, engine) && items
                    == engine.contents()
        } else {
            items == self.items_of(storage_type, webview, origin)
        }
    }

    /// The answer to reading an item.
    pub open spec fn item_read(
        &self,
        before: &Self,
        storage_type: WebStorageType,
        webview: u64,
        origin: Seq<char>,
        name: Seq<char>,
        answer: Answered<Option<String>>,
    ) -> bool {
        &&& self.consulted(
            before,
            storage_type,
            webview,
            origin,
            answer.error,
        )
        &&& (answer.error is Some ==> answer.value is None && self.call_failed(
            before,
            storage_type,
            webview,
            origin,
            EngineCall::Get(name),
            answer.error,
        ))
        &&& (answer.error is None ==> option_text(answer.value) == self.items_of(
            storage_type,
            webview,
            origin,
        ).get(name))
        &&& answer.save_origins == (storage_type == WebStorageType::Local
            && !before.local_storage_origins@.contains(origin))
    }

    /// The answer to asking for the number of items.
    pub open spec fn length_read(
        &self,
        before: &Self,
        storage_type: WebStorageType,
        webview: u64,
        origin: Seq<char>,
        answer: Answered<usize>,
    ) -> bool {
        &&& self.consulted(
            before,
            storage_type,
            webview,
            origin,
            answer.error,
        )
        &&& (answer.error is Some ==> answer.value == 0 && self.call_failed(
            before,
            storage_type,
            webview,
            origin,
            EngineCall::Len,
            answer.error,
        ))
        &&& (answer.error is None ==> answer.value == self.order_of(
            storage_type,
            webview,
            origin,
        ).len() && lists(
            self.order_of(storage_type, webview, origin),
            self.items_of(storage_type, webview, origin),
        ))
        &&& answer.save_origins == (storage_type == WebStorageType::Local
            && !before.local_storage_origins@.contains(origin))
    }

    /// The answer to asking for a key by its place.
    pub open spec fn key_read(
        &self,
        before: &Self,
        storage_type: WebStorageType,
        webview: u64,
        origin: Seq<char>,
        index: u32,
        answer: Answered<Option<String>>,
    ) -> bool {
        &&& self.consulted(
            before,
            storage_type,
            webview,
            origin,
            answer.error,
        )
        &&& (answer.error is Some ==> answer.value is None && self.call_failed(
            before,
            storage_type,
            webview,
            origin,
            EngineCall::Key(index as int),
            answer.error,
        ))
        &&& (answer.error is None ==> option_text(answer.value) == nth(
            self.order_of(storage_type, webview, origin),
            index as int,
        ) && lists(
            self.order_of(storage_type, webview, origin),
            self.items_of(storage_type, webview, origin),
        ))
        &&& answer.save_origins == (storage_type == WebStorageType::Local
            && !before.local_storage_origins@.contains(origin))
    }

    /// The answer to asking for all keys.
    pub open spec fn keys_read(
        &self,
        before: &Self,
        storage_type: WebStorageType,
        webview: u64,
        origin: Seq<char>,
        answer: Answered<Vec<String>>,
    ) -> bool {
        &&& self.consulted(
            before,
            storage_type,
            webview,
            origin,
            answer.error,
        )
        &&& (answer.error is Some ==> answer.value@.len() == 0 && self.call_failed(
            before,
            storage_type,
            webview,
            origin,
            EngineCall::Keys,
            answer.error,
        ))
        &&& (answer.error is None ==> texts(answer.value@) == self.order_of(
            storage_type,
            webview,
            origin,
        ) && lists(
            self.order_of(storage_type, webview, origin),
            self.items_of(storage_type, webview, origin),
        ))
        &&& answer.save_origins == (storage_type == WebStorageType::Local
            && !before.local_storage_origins@.contains(origin))
    }

    /// The answer to taking an item out.
    pub open spec fn item_removed(
        &self,
        before: &Self,
        storage_type: WebStorageType,
        webview: u64,
        origin: Seq<char>,
        name: Seq<char>,
        answer: Answered<Option<String>>,
    ) -> bool {
        &&& self.wrote_to(
            before,
            storage_type,
            webview,
            origin,
            false,
            answer.error,
        )
        &&& (answer.error is Some ==> answer.value is None && self.call_failed(
            before,
            storage_type,
            webview,
            origin,
            EngineCall::Delete(name),
            answer.error,
        ))
        &&& (answer.error is None ==> exists|items: Map<Seq<char>, Seq<char>>| #[trigger]
            before.starts_from(storage_type, webview, origin, items) && option_text(
                answer.value,
            ) == items.get(name) && self.items_of(storage_type, webview, origin)
                == items.remove(name))
        &&& answer.save_origins == (storage_type == WebStorageType::Local
            && !before.local_storage_origins@.contains(origin))
    }

    /// The answer to taking every item out.
    pub open spec fn items_cleared(
        &self,
        before: &Self,
        storage_type: WebStorageType,
        webview: u64,
        origin: Seq<char>,
        answer: Answered<bool>,
    ) -> bool {
        &&& self.wrote_to(
            before,
            storage_type,
            webview,
            origin,
            false,
            answer.error,
        )
        &&& (answer.error is Some ==> !answer.value && self.call_failed(
            before,
            storage_type,
            webview,
            origin,
            EngineCall::Clear,
            answer.error,
        ))
        &&& (answer.error is None ==> self.items_of(storage_type, webview, origin) == Map::<
            Seq<char>,
            Seq<char>,
        >::empty() && exists|items: Map<Seq<char>, Seq<char>>| #[trigger]
            before.starts_from(storage_type, webview, origin, items) && answer.value == (
            items != Map::<Seq<char>, Seq<char>>::empty()))
        &&& answer.save_origins == (storage_type == WebStorageType::Local
            && !before.local_storage_origins@.contains(origin))
    }

    /// The answer to setting an item.
    pub open spec fn item_set(
        &self,
        before: &Self,
        storage_type: WebStorageType,
        webview: u64,
        origin: Seq<char>,
        name: Seq<char>,
        value: Seq<char>,
        answer: Answered<SetAnswer>,
    ) -> bool {
        &&& self.wrote_to(
            before,
            storage_type,
            webview,
            origin,
            true,
            answer.error,
        )
        &&& (answer.error is Some ==> answer.value is Err && self.set_failed(
            before,
            storage_type,
            webview,
            origin,
            name,
            value,
            answer.error,
        ))
        &&& (answer.error is None && before.by_engine(storage_type) ==> exists|engine: E|
            #[trigger] before.is_engine_of(storage_type, webview, origin, engine)
                && set_effect(
                answer.value,
                engine.counted_size(),
                engine.contents(),
                self.items_of(storage_type, webview, origin),
                name,
                value,
            ))
        &&& (!before.by_engine(storage_type) ==> session_set_effect(
            answer.value,
            total_bytes(session_items(before.session_data@, webview, origin)),
            before.items_of(storage_type, webview, origin),
            self.items_of(storage_type, webview, origin),
            name,
            value,
        ))
        &&& answer.save_origins == (storage_type == WebStorageType::Local
            && !before.local_storage_origins@.contains(origin))
    }

    /// A manager without sessions. `custom_engine` says that session items too are kept by
    /// engines.
    pub fn new(
        local_storage_origins: StorageOrigins,
        has_config_dir: bool,
        engine_factory: F,
        custom_engine: bool,
    ) -> (manager: Self)
        requires
            local_storage_origins.wf(),
        ensures
            manager.wf(),
            manager.session_storage_origins@ == Seq::<Seq<char>>::empty(),
            manager.local_storage_origins == local_storage_origins,
            manager.engine_factory == engine_factory,
            manager.session_data@ == Map::<(u64, Seq<char>), OriginEntry>::empty(),
            manager.session_environments@ == Map::<(u64, Seq<char>), E>::empty(),
            manager.environments@ == Map::<Seq<char>, E>::empty(),
            manager.has_config_dir == has_config_dir,
            manager.use_engine_for_session == custom_engine,
    {
        WebStorageManager {
            session_storage_origins: StorageOrigins::new(),
            local_storage_origins,
            session_data: Slots::new(),
            session_environments: Slots::new(),
            has_config_dir,
            engine_factory,
            use_engine_for_session: custom_engine,
            environments: Names::new(),
        }
    }

    /// The place of a local origin's engine, which is opened where it is not open yet.
    pub(crate) fn local_environment(&mut self, origin: &String) -> (place: Result<usize, String>)
        requires
            old(self).wf(),
        ensures
            final(self).wf(),
            final(self).same_but_local(&*old(self)),
            final(self).local_storage_origins == old(self).local_storage_origins,
            match place {
                Ok(i) => {
                    &&& i < final(self).environments.entries@.len()
                    &&& final(self).environments.entries@[i as int].name@ == origin@
                    &&& opened(old(self).environments@, final(self).environments@, origin@)
                    &&& final(self).environments@[origin@]
                        == final(self).environments.entries@[i as int].value
                    &&& old(self).is_engine_of(
                        WebStorageType::Local,
                        0,
                        origin@,
                        final(self).environments.entries@[i as int].value,
                    )
                },
                Err(error) => {
                    &&& final(self).environments == old(self).environments
                    &&& old(self).cannot_open(WebStorageType::Local, 0, origin@, Some(error))
                },
            },
    {
        match self.environments.find(origin) {
            Some(i) => Ok(i),
            None => {
                let location = get_origin_location(
                    self.has_config_dir,
                    WebStorageType::Local,
                    None,
                    origin,
                );
                let engine = match self.engine_factory.open(
                    WebStorageType::Local,
                    None,
                    origin,
                    location,
                ) {
                    Ok(engine) => engine,
                    Err(error) => return Err(error),
                };
                let ghost before = self.environments@;
                self.environments.insert(origin.clone(), engine);
                assert(self.environments@.remove(origin@) =~= before.remove(origin@));
                match self.environments.find(origin) {
                    Some(i) => Ok(i),
                    None => {
                        assert(false);
                        Ok(0)
                    },
                }
            },
        }
    }

    /// The place of a session's engine, which is opened where it is not open yet.
    pub(crate) fn session_environment(&mut self, webview: u64, origin: &String) -> (place: Result<
        usize,
        String,
    >)
        requires
            old(self).wf(),
        ensures
            final(self).wf(),
            final(self).same_but_session_environments(&*old(self)),
            match place {
                Ok(i) => {
                    &&& i < final(self).session_environments.entries@.len()
                    &&& final(self).session_environments.entries@[i as int].key() == (
                        webview,
                        origin@,
                    )
                    &&& opened(
                        old(self).session_environments@,
                        final(self).session_environments@,
                        (webview, origin@),
                    )
                    &&& final(self).session_environments@[(webview, origin@)]
                        == final(self).session_environments.entries@[i as int].value
                    &&& old(self).is_engine_of(
                        WebStorageType::Session,
                        webview,
                        origin@,
                        final(self).session_environments.entries@[i as int].value,
                    )
                },
                Err(error) => {
                    &&& final(self).session_environments == old(self).session_environments
                    &&& old(self).cannot_open(
                        WebStorageType::Session,
                        webview,
                        origin@,
                        Some(error),
                    )
                },
            },
    {
        match self.session_environments.find(webview, origin) {
            Some(i) => Ok(i),
            None => {
                let location = get_origin_location(
                    self.has_config_dir,
                    WebStorageType::Session,
                    Some(webview),
                    origin,
                );
                let engine = match self.engine_factory.open(
                    WebStorageType::Session,
                    Some(webview),
                    origin,
                    location,
                ) {
                    Ok(engine) => engine,
                    Err(error) => return Err(error),
                };
                let ghost before = self.session_environments@;
                let place: usize = self.session_environments.entries.len();
                self.session_environments.add_slot(webview, origin.clone(), engine);
                proof {
                    assert(self.session_environments@.remove((webview, origin@)) =~= before.remove(
                        (webview, origin@),
                    ));
                    value_at_slot(self.session_environments.entries@, place as int);
                }
                Ok(place)
            },
        }
    }

    /// The value of a key.
    pub fn request_item(
        &mut self,
        storage_type: WebStorageType,
        webview: u64,
        origin: &String,
        name: &String,
    ) -> (answer: Answered<Option<String>>)
        requires
            old(self).wf(),
        ensures
            final(self).wf(),
            final(self).item_read(&*old(self), storage_type, webview, origin@, name@, answer),
    {
        match storage_type {
            WebStorageType::Local => {
                let save_origins = self.local_storage_origins.ensure_origin_descriptor(origin);
                match self.local_environment(origin) {
                    Ok(i) => match self.environments.entries[i].value.get(name.as_str()) {
                        Ok(value) => Answered { value, error: None, save_origins },
                        Err(error) => Answered { value: None, error: Some(error), save_origins },
                    },
                    Err(error) => Answered { value: None, error: Some(error), save_origins },
                }
            },
            WebStorageType::Session => {
                if self.use_engine_for_session {
                    match self.session_environment(webview, origin) {
                        Ok(i) => match self.session_environments.entries[i].value.get(
                            name.as_str(),
                        ) {
                            Ok(value) => Answered { value, error: None, save_origins: false },
                            Err(error) => Answered {
                                value: None,
                                error: Some(error),
                                save_origins: false,
                            },
                        },
                        Err(error) => Answered {
                            value: None,
                            error: Some(error),
                            save_origins: false,
                        },
                    }
                } else {
                    let value = match self.session_data.find(webview, origin) {
                        Some(i) => match self.session_data.entries[i].value.inner().get(name) {
                            Some(value) => Some(value.clone()),
                            None => None,
                        },
                        None => None,
                    };
                    Answered { value, error: None, save_origins: false }
                }
            },
        }
    }

    /// The number of items.
    pub fn length(&mut self, storage_type: WebStorageType, webview: u64, origin: &String) -> (answer:
        Answered<usize>)
        requires
            old(self).wf(),
        ensures
            final(self).wf(),
            final(self).length_read(&*old(self), storage_type, webview, origin@, answer),
    {
        match storage_type {
            WebStorageType::Local => {
                let save_origins = self.local_storage_origins.ensure_origin_descriptor(origin);
                match self.local_environment(origin) {
                    Ok(i) => match self.environments.entries[i].value.len() {
                        Ok(value) => Answered { value, error: None, save_origins },
                        Err(error) => Answered { value: 0, error: Some(error), save_origins },
                    },
                    Err(error) => Answered { value: 0, error: Some(error), save_origins },
                }
            },
            WebStorageType::Session => {
                if self.use_engine_for_session {
                    match self.session_environment(webview, origin) {
                        Ok(i) => match self.session_environments.entries[i].value.len() {
                            Ok(value) => Answered { value, error: None, save_origins: false },
                            Err(error) => Answered {
                                value: 0,
                                error: Some(error),
                                save_origins: false,
                            },
                        },
                        Err(error) => Answered { value: 0, error: Some(error), save_origins: false },
                    }
                } else {
                    proof {
                        session_order(self.session_data, webview, origin@);
                    }
                    let value: usize = match self.session_data.find(webview, origin) {
                        Some(i) => self.session_data.entries[i].value.inner().len(),
                        None => 0,
                    };
                    Answered { value, error: None, save_origins: false }
                }
            },
        }
    }

    /// The key at a place in ascending order.
    pub fn key(
        &mut self,
        storage_type: WebStorageType,
        webview: u64,
        origin: &String,
        index: u32,
    ) -> (answer: Answered<Option<String>>)
        requires
            old(self).wf(),
        ensures
            final(self).wf(),
            final(self).key_read(&*old(self), storage_type, webview, origin@, index, answer),
    {
        match storage_type {
            WebStorageType::Local => {
                let save_origins = self.local_storage_origins.ensure_origin_descriptor(origin);
                match self.local_environment(origin) {
                    Ok(i) => match self.environments.entries[i].value.key(index as usize) {
                        Ok(value) => Answered { value, error: None, save_origins },
                        Err(error) => Answered { value: None, error: Some(error), save_origins },
                    },
                    Err(error) => Answered { value: None, error: Some(error), save_origins },
                }
            },
            WebStorageType::Session => {
                if self.use_engine_for_session {
                    match self.session_environment(webview, origin) {
                        Ok(i) => match self.session_environments.entries[i].value.key(
                            index as usize,
                        ) {
                            Ok(value) => Answered { value, error: None, save_origins: false },
                            Err(error) => Answered {
                                value: None,
                                error: Some(error),
                                save_origins: false,
                            },
                        },
                        Err(error) => Answered {
                            value: None,
                            error: Some(error),
                            save_origins: false,
                        },
                    }
                } else {
                    proof {
                        session_order(self.session_data, webview, origin@);
                    }
                    let value = match self.session_data.find(webview, origin) {
                        Some(i) => self.session_data.entries[i].value.inner().key(index as usize),
                        None => None,
                    };
                    Answered { value, error: None, save_origins: false }
                }
            },
        }
    }

    /// The keys, in ascending order where they are kept in memory.
    pub fn keys(&mut self, storage_type: WebStorageType, webview: u64, origin: &String) -> (answer:
        Answered<Vec<String>>)
        requires
            old(self).wf(),
        ensures
            final(self).wf(),
            final(self).keys_read(&*old(self), storage_type, webview, origin@, answer),
    {
        match storage_type {
            WebStorageType::Local => {
                let save_origins = self.local_storage_origins.ensure_origin_descriptor(origin);
                match self.local_environment(origin) {
                    Ok(i) => match self.environments.entries[i].value.keys() {
                        Ok(value) => Answered { value, error: None, save_origins },
                        Err(error) => Answered {
                            value: Vec::new(),
                            error: Some(error),
                            save_origins,
                        },
                    },
                    Err(error) => Answered { value: Vec::new(), error: Some(error), save_origins },
                }
            },
            WebStorageType::Session => {
                if self.use_engine_for_session {
                    match self.session_environment(webview, origin) {
                        Ok(i) => match self.session_environments.entries[i].value.keys() {
                            Ok(value) => Answered { value, error: None, save_origins: false },
                            Err(error) => Answered {
                                value: Vec::new(),
                                error: Some(error),
                                save_origins: false,
                            },
                        },
                        Err(error) => Answered {
                            value: Vec::new(),
                            error: Some(error),
                            save_origins: false,
                        },
                    }
                } else {
                    let value: Vec<String> = match self.session_data.find(webview, origin) {
                        Some(i) => self.session_data.entries[i].value.inner().keys(),
                        None => {
                            Vec::new()
                        },
                    };
                    proof {
                        session_order(self.session_data, webview, origin@);
                        assert(texts(value@) =~= self.order_of(storage_type, webview, origin@));
                    }
                    Answered { value, error: None, save_origins: false }
                }
            },
        }
    }

    /// Takes an item out, and answers the value that it had.
    pub fn remove_item(
        &mut self,
        storage_type: WebStorageType,
        webview: u64,
        origin: &String,
        name: &String,
    ) -> (answer: Answered<Option<String>>)
        requires
            old(self).wf(),
        ensures
            final(self).wf(),
            final(self).item_removed(&*old(self), storage_type, webview, origin@, name@, answer),
    {
        match storage_type {
            WebStorageType::Local => {
                let save_origins = self.local_storage_origins.ensure_origin_descriptor(origin);
                match self.local_environment(origin) {
                    Ok(i) => {
                        let ghost entries = self.environments.entries@;
                        let result = self.environments.entries[i].value.delete(name.as_str());
                        proof {
                            assert(old(self).is_engine_of(
                                storage_type,
                                webview,
                                origin@,
                                entries[i as int].value,
                            ));
                            replaced_name(entries, i as int, self.environments.entries@);
                            assert(self.environments@.remove(origin@) =~= by_name(entries).remove(
                                origin@,
                            ));
                        }
                        match result {
                            Ok(value) => {
                                proof {
                                    let engine = entries[i as int].value;
                                    assert(old(self).is_engine_of(storage_type, webview, origin@, engine));
                                    assert(old(self).starts_from(
                                        storage_type,
                                        webview,
                                        origin@,
                                        engine.contents(),
                                    ));
                                }
                                Answered { value, error: None, save_origins }
                            },
                            Err(error) => Answered { value: None, error: Some(error), save_origins },
                        }
                    },
                    Err(error) => Answered { value: None, error: Some(error), save_origins },
                }
            },
            WebStorageType::Session => {
                if self.use_engine_for_session {
                    match self.session_environment(webview, origin) {
                        Ok(i) => {
                            let ghost entries = self.session_environments.entries@;
                            let result = self.session_environments.entries[i].value.delete(
                                name.as_str(),
                            );
                            proof {
                                assert(old(self).is_engine_of(
                                    storage_type,
                                    webview,
                                    origin@,
                                    entries[i as int].value,
                                ));
                                replaced_slot(
                                    entries,
                                    i as int,
                                    self.session_environments.entries@,
                                );
                                assert(self.session_environments@.remove((webview, origin@))
                                    =~= by_slot(entries).remove((webview, origin@)));
                            }
                            match result {
                                Ok(value) => {
                                    proof {
                                        let engine = entries[i as int].value;
                                        assert(old(self).is_engine_of(storage_type, webview, origin@, engine));
                                        assert(old(self).starts_from(
                                            storage_type,
                                            webview,
                                            origin@,
                                            engine.contents(),
                                        ));
                                    }
                                    Answered { value, error: None, save_origins: false }
                                },
                                Err(error) => Answered {
                                    value: None,
                                    error: Some(error),
                                    save_origins: false,
                                },
                            }
                        },
                        Err(error) => Answered {
                            value: None,
                            error: Some(error),
                            save_origins: false,
                        },
                    }
                } else {
                    let ghost items = self.items_of(storage_type, webview, origin@);
                    assert(old(self).starts_from(storage_type, webview, origin@, items));
                    let value = match self.session_data.find(webview, origin) {
                        Some(i) => {
                            let ghost entries = self.session_data.entries@;
                            let value = self.session_data.entries[i].value.remove(name);
                            proof {
                                replaced_slot(entries, i as int, self.session_data.entries@);
                                assert(self.session_data@.remove((webview, origin@)) =~= by_slot(
                                    entries,
                                ).remove((webview, origin@)));
                            }
                            value
                        },
                        None => {
                            assert(items.remove(name@) =~= items);
                            None
                        },
                    };
                    Answered { value, error: None, save_origins: false }
                }
            },
        }
    }

    /// Takes every item out, and answers whether there was one.
    pub fn clear(&mut self, storage_type: WebStorageType, webview: u64, origin: &String) -> (answer:
        Answered<bool>)
        requires
            old(self).wf(),
        ensures
            final(self).wf(),
            final(self).items_cleared(&*old(self), storage_type, webview, origin@, answer),
    {
        match storage_type {
            WebStorageType::Local => {
                let save_origins = self.local_storage_origins.ensure_origin_descriptor(origin);
                match self.local_environment(origin) {
                    Ok(i) => {
                        let ghost entries = self.environments.entries@;
                        let result = self.environments.entries[i].value.clear();
                        proof {
                            assert(old(self).is_engine_of(
                                storage_type,
                                webview,
                                origin@,
                                entries[i as int].value,
                            ));
                            replaced_name(entries, i as int, self.environments.entries@);
                            assert(self.environments@.remove(origin@) =~= by_name(entries).remove(
                                origin@,
                            ));
                        }
                        match result {
                            Ok(value) => {
                                proof {
                                    let engine = entries[i as int].value;
                                    assert(old(self).is_engine_of(storage_type, webview, origin@, engine));
                                    assert(old(self).starts_from(
                                        storage_type,
                                        webview,
                                        origin@,
                                        engine.contents(),
                                    ));
                                }
                                Answered { value, error: None, save_origins }
                            },
                            Err(error) => Answered {
                                value: false,
                                error: Some(error),
                                save_origins,
                            },
                        }
                    },
                    Err(error) => Answered { value: false, error: Some(error), save_origins },
                }
            },
            WebStorageType::Session => {
                if self.use_engine_for_session {
                    match self.session_environment(webview, origin) {
                        Ok(i) => {
                            let ghost entries = self.session_environments.entries@;
                            let result = self.session_environments.entries[i].value.clear();
                            proof {
                                assert(old(self).is_engine_of(
                                    storage_type,
                                    webview,
                                    origin@,
                                    entries[i as int].value,
                                ));
                                replaced_slot(
                                    entries,
                                    i as int,
                                    self.session_environments.entries@,
                                );
                                assert(self.session_environments@.remove((webview, origin@))
                                    =~= by_slot(entries).remove((webview, origin@)));
                            }
                            match result {
                                Ok(value) => {
                                    proof {
                                        let engine = entries[i as int].value;
                                        assert(old(self).is_engine_of(storage_type, webview, origin@, engine));
                                        assert(old(self).starts_from(
                                            storage_type,
                                            webview,
                                            origin@,
                                            engine.contents(),
                                        ));
                                    }
                                    Answered { value, error: None, save_origins: false }
                                },
                                Err(error) => Answered {
                                    value: false,
                                    error: Some(error),
                                    save_origins: false,
                                },
                            }
                        },
                        Err(error) => Answered {
                            value: false,
                            error: Some(error),
                            save_origins: false,
                        },
                    }
                } else {
                    let ghost items = self.items_of(storage_type, webview, origin@);
                    assert(old(self).starts_from(storage_type, webview, origin@, items));
                    let value = match self.session_data.find(webview, origin) {
                        Some(i) => {
                            let ghost entries = self.session_data.entries@;
                            proof {
                                entries[i as int].value.items_are_the_contents();
                                no_items_no_contents(entries[i as int].value.items());
                            }
                            if !self.session_data.entries[i].value.inner().is_empty() {
                                self.session_data.entries[i].value.clear();
                                proof {
                                    replaced_slot(entries, i as int, self.session_data.entries@);
                                    assert(self.session_data@.remove((webview, origin@))
                                        =~= by_slot(entries).remove((webview, origin@)));
                                }
                                true
                            } else {
                                false
                            }
                        },
                        None => false,
                    };
                    Answered { value, error: None, save_origins: false }
                }
            },
        }
    }

    /// Gives a key a value where the quota allows it. The answer is `Err` where it does not, else
    /// whether the value is new and the value that the key had.
    pub fn set_item(
        &mut self,
        storage_type: WebStorageType,
        webview: u64,
        origin: &String,
        name: String,
        value: String,
    ) -> (answer: Answered<SetAnswer>)
        requires
            old(self).wf(),
        ensures
            final(self).wf(),
            final(self).item_set(&*old(self), storage_type, webview, origin@, name@, value@, answer),
    {
        match storage_type {
            WebStorageType::Local => {
                let save_origins = self.local_storage_origins.ensure_origin_descriptor(origin);
                match self.local_environment(origin) {
                    Ok(i) => {
                        let ghost entries = self.environments.entries@;
                        let result = set_engine_item(
                            &mut self.environments.entries[i].value,
                            &name,
                            &value,
                        );
                        proof {
                            replaced_name(entries, i as int, self.environments.entries@);
                            assert(self.environments@.remove(origin@) =~= by_name(entries).remove(
                                origin@,
                            ));
                            assert(old(self).is_engine_of(
                                storage_type,
                                webview,
                                origin@,
                                entries[i as int].value,
                            ));
                        }
                        match result {
                            Ok(value) => Answered { value, error: None, save_origins },
                            Err(error) => Answered {
                                value: Err(()),
                                error: Some(error),
                                save_origins,
                            },
                        }
                    },
                    Err(error) => Answered { value: Err(()), error: Some(error), save_origins },
                }
            },
            WebStorageType::Session => {
                self.session_storage_origins.ensure_origin_descriptor(origin);
                if self.use_engine_for_session {
                    match self.session_environment(webview, origin) {
                        Ok(i) => {
                            let ghost entries = self.session_environments.entries@;
                            let result = set_engine_item(
                                &mut self.session_environments.entries[i].value,
                                &name,
                                &value,
                            );
                            proof {
                                replaced_slot(
                                    entries,
                                    i as int,
                                    self.session_environments.entries@,
                                );
                                assert(self.session_environments@.remove((webview, origin@))
                                    =~= by_slot(entries).remove((webview, origin@)));
                                assert(old(self).is_engine_of(
                                    storage_type,
                                    webview,
                                    origin@,
                                    entries[i as int].value,
                                ));
                            }
                            match result {
                                Ok(value) => Answered { value, error: None, save_origins: false },
                                Err(error) => Answered {
                                    value: Err(()),
                                    error: Some(error),
                                    save_origins: false,
                                },
                            }
                        },
                        Err(error) => Answered {
                            value: Err(()),
                            error: Some(error),
                            save_origins: false,
                        },
                    }
                } else {
                    let i = self.session_entry(webview, origin);
                    let ghost entries = self.session_data.entries@;
                    let result = set_session_item(
                        &mut self.session_data.entries[i].value,
                        name,
                        value,
                    );
                    proof {
                        replaced_slot(entries, i as int, self.session_data.entries@);
                        assert(self.session_data@.remove((webview, origin@)) =~= by_slot(
                            entries,
                        ).remove((webview, origin@)));
                    }
                    Answered { value: result, error: None, save_origins: false }
                }
            },
        }
    }

    /// The place of the data that a session keeps in memory for an origin, which is made where
    /// there is none yet.
    fn session_entry(&mut self, webview: u64, origin: &String) -> (place: usize)
        requires
            old(self).wf(),
        ensures
            final(self).wf(),
            final(self).session_storage_origins == old(self).session_storage_origins,
            final(self).local_storage_origins == old(self).local_storage_origins,
            final(self).session_environments == old(self).session_environments,
            final(self).has_config_dir == old(self).has_config_dir,
            final(self).engine_factory == old(self).engine_factory,
            final(self).use_engine_for_session == old(self).use_engine_for_session,
            final(self).environments == old(self).environments,
            place < final(self).session_data.entries@.len(),
            final(self).session_data.entries@[place as int].key() == (webview, origin@),
            opened(old(self).session_data@, final(self).session_data@, (webview, origin@)),
            final(self).session_data@[(webview, origin@)]
                == final(self).session_data.entries@[place as int].value,
            !old(self).session_data@.contains_key((webview, origin@))
                ==> final(self).session_data.entries@[place as int].value.items().len() == 0
                && final(self).session_data.entries@[place as int].value@ == Map::<
                Seq<char>,
                Seq<char>,
            >::empty(),
    {
        match self.session_data.find(webview, origin) {
            Some(i) => i,
            None => {
                let ghost before = self.session_data@;
                let place: usize = self.session_data.entries.len();
                self.session_data.add_slot(webview, origin.clone(), OriginEntry::new());
                proof {
                    assert(self.session_data@.remove((webview, origin@)) =~= before.remove(
                        (webview, origin@),
                    ));
                    value_at_slot(self.session_data.entries@, place as int);
                }
                place
            },
        }
    }
}

/// What setting an item that is kept in memory did: `before` and `after` are the items, and `total`
/// is the number of bytes that the items took.
pub open spec fn session_set_effect(
    answer: SetAnswer,
    total: nat,
    before: Map<Seq<char>, Seq<char>>,
    after: Map<Seq<char>, Seq<char>>,
    name: Seq<char>,
    value: Seq<char>,
) -> bool {
    let grown = if before.contains_key(name) {
        total - bytes(before[name]).len() + bytes(value).len()
    } else {
        (total + bytes(name).len() + bytes(value).len()) as int
    };
    if grown > QUOTA_SIZE_LIMIT {
        answer is Err && after == before
    } else if before.get(name) == Some(value) {
        answer == SetAnswer::Ok((false, None)) && after == before
    } else {
        &&& answer matches Ok((true, old_value)) && option_text(old_value) == before.get(name)
        &&& after == before.insert(name, value)
    }
}

/// Sets an item that is kept in memory.
fn set_session_item(entry: &mut OriginEntry, name: String, value: String) -> (answer: SetAnswer)
    requires
        old(entry).wf(),
        total_bytes(old(entry).items()) <= QUOTA_SIZE_LIMIT,
    ensures
        final(entry).wf(),
        total_bytes(final(entry).items()) <= QUOTA_SIZE_LIMIT,
        session_set_effect(
            answer,
            total_bytes(old(entry).items()),
            old(entry)@,
            final(entry)@,
            name@,
            value@,
        ),
{
    let total: usize = entry.size();
    let value_len: usize = byte_len(&value);
    let size = match entry.inner().get(&name) {
        Some(old_value) => {
            proof {
                entry.value_within(name@);
            }
            (total - byte_len(old_value)).checked_add(value_len)
        },
        None => match total.checked_add(byte_len(&name)) {
            Some(with_name) => with_name.checked_add(value_len),
            None => None,
        },
    };
    match size {
        Some(size) => if size > QUOTA_SIZE_LIMIT {
            return Err(());
        },
        None => return Err(()),
    }
    match entry.insert(name, value.clone()) {
        Some(old_value) => if old_value == value {
            assert(entry@ =~= old(entry)@);
            Ok((false, None))
        } else {
            Ok((true, Some(old_value)))
        },
        None => Ok((true, None)),
    }
}

/// There are no contents exactly where there are no items.
proof fn no_items_no_contents(items: Seq<TextItem>)
    ensures
        items.len() == 0 <==> contents_of(items) == Map::<Seq<char>, Seq<char>>::empty(),
{
    if items.len() == 0 {
        assert(contents_of(items) =~= Map::<Seq<char>, Seq<char>>::empty());
    } else {
        assert(item_at(items, items[0].key@, 0));
        assert(contents_of(items).contains_key(items[0].key@));
    }
}

/// The keys of items.
pub open spec fn item_keys(items: Seq<TextItem>) -> Seq<Seq<char>> {
    Seq::new(items.len(), |i: int| items[i].key@)
}

/// Ordered items have each key once.
proof fn keys_of_items(items: Seq<TextItem>)
    requires
        in_key_order(items),
    ensures
        lists(item_keys(items), contents_of(items)),
{
    let keys = item_keys(items);
    assert forall|i: int, j: int| 0 <= i < j < keys.len() implies keys[i] != keys[j] by {
        assert(text_lt(items[i].key@, items[j].key@));
        key_lt_irreflexive(bytes(items[i].key@));
    }
    assert forall|key: Seq<char>| #[trigger] keys.contains(key) <==> contents_of(
        items,
    ).contains_key(key) by {
        if keys.contains(key) {
            let i = choose|i: int| 0 <= i < keys.len() && keys[i] == key;
            assert(item_at(items, key, i));
        }
        if contents_of(items).contains_key(key) {
            let i = choose|i: int| item_at(items, key, i);
            assert(keys[i] == key);
        }
    }
}

/// Session data lists the keys that it has.
proof fn session_order(data: Slots<OriginEntry>, webview: u64, origin: Seq<char>)
    requires
        data.wf(),
        sound_entries(data@),
    ensures
        lists(
            item_keys(session_items(data@, webview, origin)),
            if data@.contains_key((webview, origin)) {
                data@[(webview, origin)]@
            } else {
                Map::empty()
            },
        ),
{
    let items = session_items(data@, webview, origin);
    let keys = item_keys(items);
    if data@.contains_key((webview, origin)) {
        data@[(webview, origin)].items_are_the_contents();
        keys_of_items(items);
    }
}

/// The items that a session keeps in memory for an origin, in order.
pub open spec fn session_items(
    data: Map<(u64, Seq<char>), OriginEntry>,
    webview: u64,
    origin: Seq<char>,
) -> Seq<TextItem> {
    if data.contains_key((webview, origin)) {
        data[(webview, origin)].items()
    } else {
        seq![]
    }
}

} // verus!
