//! Cache storage: where it is kept, and how its messages are answered.

use vstd::prelude::*;
use vstd::string::*;

use crate::ids::{fresh_uuid, is_uuid_text};
use crate::text::texts;

verus! {

/// Keeps the caches of origins.
pub trait CacheStorageEngine: Sized {
    /// Asked whether there is a cache of a name, an engine may go from one state to the other with
    /// that answer.
    closed spec fn may_answer(
        before: Self,
        after: Self,
        origin: Seq<char>,
        bottle_id: i64,
        cache_name: Seq<char>,
        answer: Result<bool, String>,
    ) -> bool {
        arbitrary()
    }

    /// Whether there is a cache of that name for the origin, whose storage is `bottle_id`, or how
    /// finding out failed.
    fn has_cache(&mut self, origin: &str, bottle_id: i64, cache_name: &str) -> (answer: Result<
        bool,
        String,
    >)
        ensures
            Self::may_answer(*old(self), *final(self), origin@, bottle_id, cache_name@, answer),
    ;
}

/// An engine without any cache.
#[derive(Debug)]
pub struct DummyCacheStorageEngine;

impl CacheStorageEngine for DummyCacheStorageEngine {
    open spec fn may_answer(
        before: Self,
        after: Self,
        origin: Seq<char>,
        bottle_id: i64,
        cache_name: Seq<char>,
        answer: Result<bool, String>,
    ) -> bool {
        answer == Ok::<bool, String>(false)
    }

    fn has_cache(&mut self, origin: &str, bottle_id: i64, cache_name: &str) -> (answer: Result<
        bool,
        String,
    >) {
        Ok(false)
    }
}

/// The parts of the directory of cache storage: below `cachestorage`, one of its own for temporary
/// storage, and `default_v1` otherwise.
pub open spec fn is_storage_dir(parts: Seq<Seq<char>>, temporary: bool) -> bool {
    if temporary {
        &&& parts.len() == 3
        &&& parts[0] == "cachestorage"@
        &&& parts[1] == "temporary"@
        &&& is_uuid_text(parts[2])
    } else {
        parts == seq!["cachestorage"@, "default_v1"@]
    }
}

/// The directory of cache storage below its base directory, by the names of its directories.
pub fn storage_dir(temporary_storage: bool) -> (parts: Vec<String>)
    ensures
        is_storage_dir(texts(parts@), temporary_storage),
{
    let mut parts: Vec<String> = Vec::new();
    parts.push("cachestorage".to_owned());
    if temporary_storage {
        parts.push("temporary".to_owned());
        parts.push(fresh_uuid());
    } else {
        parts.push("default_v1".to_owned());
        assert(texts(parts@) =~= seq!["cachestorage"@, "default_v1"@]);
    }
    parts
}

/// What is asked of cache storage.
#[derive(Debug)]
pub enum CacheStorageThreadMessage {
    HasCache { cache_name: String, origin: String, bottle_id: i64 },
    Exit,
}

/// What cache storage answers, and whether it goes on.
#[derive(Debug)]
pub enum CacheStorageThreadResponse {
    HasCacheResult(Result<bool, String>),
    Stopped,
}

/// Answers a message with what the engine says.
pub fn answer_message<E: CacheStorageEngine>(
    engine: &mut E,
    message: CacheStorageThreadMessage,
) -> (response: CacheStorageThreadResponse)
    ensures
        match message {
            CacheStorageThreadMessage::HasCache { cache_name, origin, bottle_id } => {
                response matches CacheStorageThreadResponse::HasCacheResult(answer)
                    && E::may_answer(
                    *old(engine),
                    *final(engine),
                    origin@,
                    bottle_id,
                    cache_name@,
                    answer,
                )
            },
            CacheStorageThreadMessage::Exit => response is Stopped && *final(engine) == *old(
                engine,
            ),
        },
{
    match message {
        CacheStorageThreadMessage::HasCache { cache_name, origin, bottle_id } => {
            CacheStorageThreadResponse::HasCacheResult(
                engine.has_cache(origin.as_str(), bottle_id, cache_name.as_str()),
            )
        },
        CacheStorageThreadMessage::Exit => CacheStorageThreadResponse::Stopped,
    }
}

/// Every directory of cache storage lies below the one of that name; a temporary one is told apart
/// from the lasting one and, by an identifier of its own, from other temporary ones.
pub proof fn directories_are_told_apart(
    temporary: Seq<Seq<char>>,
    other: Seq<Seq<char>>,
    lasting: Seq<Seq<char>>,
)
    requires
        is_storage_dir(temporary, true),
        is_storage_dir(other, true),
        is_storage_dir(lasting, false),
    ensures
        temporary[0] == lasting[0],
        temporary[0] == other[0],
        temporary[1] != lasting[1],
        temporary[1] == other[1],
        temporary == other <==> temporary[2] == other[2],
        temporary[2].len() == 36,
        lasting.len() == 2,
{
    reveal_strlit("temporary");
    reveal_strlit("default_v1");
    assert("temporary"@.len() != "default_v1"@.len());
    if temporary[2] == other[2] {
        assert(temporary =~= other);
    }
}

} // verus!
