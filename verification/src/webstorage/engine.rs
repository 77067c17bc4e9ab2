//! The engines that keep the items of an origin.

use vstd::prelude::*;

use crate::error::option_text;
use crate::text::texts;

verus! {

/// The two kinds of web storage.
#[derive(Clone, Copy, Debug, PartialEq, Eq, Structural)]
pub enum WebStorageType {
    Session,
    Local,
}

/// The keys of the items, each once.
pub open spec fn lists(keys: Seq<Seq<char>>, items: Map<Seq<char>, Seq<char>>) -> bool {
    keys.no_duplicates() && forall|key: Seq<char>| #[trigger]
        keys.contains(key) <==> items.contains_key(key)
}

/// What stands at a place, if the place exists.
pub open spec fn nth(keys: Seq<Seq<char>>, index: int) -> Option<Seq<char>> {
    if 0 <= index < keys.len() {
        Some(keys[index])
    } else {
        None
    }
}

/// A call of an engine, with what is handed to it.
pub enum EngineCall {
    Len,
    Key(int),
    Keys,
    Get(Seq<char>),
    Put(Seq<char>, Seq<char>),
    Delete(Seq<char>),
    Clear,
    Size,
}

/// The error that a call ended with, if it failed.
pub open spec fn error_of<T>(result: Result<T, String>) -> Option<Seq<char>> {
    match result {
        Ok(_) => None,
        Err(error) => Some(error@),
    }
}

/// Keeps the items of one origin. Any call may fail; what a call that succeeds answers is what the
/// engine holds.
pub trait WebStorageEngine: Sized {
    /// The values by key, where an engine says what it holds.
    closed spec fn contents(&self) -> Map<Seq<char>, Seq<char>> {
        arbitrary()
    }

    /// The keys in the order in which the engine numbers them.
    closed spec fn key_order(&self) -> Seq<Seq<char>> {
        arbitrary()
    }

    /// In this state the call may end so, where an engine says how its calls end: with the error, or
    /// without one, and with the engine as `after`.
    closed spec fn may_end(&self, call: EngineCall, error: Option<Seq<char>>, after: Self) -> bool {
        arbitrary()
    }

    /// The number of items.
    fn len(&self) -> (result: Result<usize, String>)
        ensures
            result matches Ok(len) ==> lists(self.key_order(), self.contents()) && len
                == self.key_order().len(),
            self.may_end(EngineCall::Len, error_of(result), *self),
    ;

    /// The key with a number.
    fn key(&self, index: usize) -> (result: Result<Option<String>, String>)
        ensures
            result matches Ok(key) ==> lists(self.key_order(), self.contents()) && option_text(key)
                == nth(self.key_order(), index as int),
            self.may_end(EngineCall::Key(index as int), error_of(result), *self),
    ;

    /// The keys in order.
    fn keys(&self) -> (result: Result<Vec<String>, String>)
        ensures
            result matches Ok(keys) ==> lists(self.key_order(), self.contents()) && texts(keys@)
                == self.key_order(),
            self.may_end(EngineCall::Keys, error_of(result), *self),
    ;

    /// The value of a key.
    fn get(&self, key: &str) -> (result: Result<Option<String>, String>)
        ensures
            result matches Ok(value) ==> option_text(value) == self.contents().get(key@),
            self.may_end(EngineCall::Get(key@), error_of(result), *self),
    ;

    /// Gives a key a value, and answers the value that it had.
    fn set(&mut self, key: &str, value: &str) -> (result: Result<Option<String>, String>)
        ensures
            result matches Ok(before) ==> option_text(before) == old(self).contents().get(key@)
                && final(self).contents() == old(self).contents().insert(key@, value@),
            old(self).may_end(EngineCall::Put(key@, value@), error_of(result), *final(self)),
    ;

    /// Takes a key out, and answers the value that it had.
    fn delete(&mut self, key: &str) -> (result: Result<Option<String>, String>)
        ensures
            result matches Ok(before) ==> option_text(before) == old(self).contents().get(key@)
                && final(self).contents() == old(self).contents().remove(key@),
            old(self).may_end(EngineCall::Delete(key@), error_of(result), *final(self)),
    ;

    /// Takes every item out, and answers whether there was one.
    fn clear(&mut self) -> (result: Result<bool, String>)
        ensures
            result matches Ok(changed) ==> changed == (old(self).contents() != Map::<
                Seq<char>,
                Seq<char>,
            >::empty()) && final(self).contents() == Map::<Seq<char>, Seq<char>>::empty(),
            old(self).may_end(EngineCall::Clear, error_of(result), *final(self)),
    ;

    /// How much the items take, as the engine counts it.
    closed spec fn counted_size(&self) -> usize {
        arbitrary()
    }

    /// How much the items take, as the engine counts it.
    fn size(&self) -> (result: Result<usize, String>)
        ensures
            result matches Ok(size) ==> size == self.counted_size(),
            self.may_end(EngineCall::Size, error_of(result), *self),
    ;
}

/// Opens engines.
pub trait WebStorageEngineFactory<E> {
    /// Asked to open the engine of an origin, the factory may answer so.
    closed spec fn may_open(
        &self,
        storage_type: WebStorageType,
        webview_id: Option<u64>,
        origin: Seq<char>,
        location: Option<Seq<Seq<char>>>,
        result: Result<E, String>,
    ) -> bool {
        arbitrary()
    }

    /// Opens the engine of an origin. `location` is where it is kept, below the configuration
    /// directory, where there is one.
    fn open(
        &self,
        storage_type: WebStorageType,
        webview_id: Option<u64>,
        origin: &String,
        location: Option<Vec<String>>,
    ) -> (result: Result<E, String>)
        ensures
            self.may_open(
                storage_type,
                webview_id,
                origin@,
                match location {
                    Some(location) => Some(texts(location@)),
                    None => None,
                },
                result,
            ),
    ;
}

} // verus!
