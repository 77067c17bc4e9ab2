//! Key paths, and what is extracted with them.

use vstd::prelude::*;

use crate::indexeddb::key::IndexedDBKeyType;
use crate::text::texts;

verus! {

/// A key path: one path, or a sequence of them.
#[derive(Debug)]
pub enum KeyPath {
    String(String),
    StringSequence(Vec<String>),
}

/// What a key path says.
pub enum KeyPathView {
    String(Seq<char>),
    StringSequence(Seq<Seq<char>>),
}

impl View for KeyPath {
    type V = KeyPathView;

    open spec fn view(&self) -> KeyPathView {
        match self {
            KeyPath::String(path) => KeyPathView::String(path@),
            KeyPath::StringSequence(paths) => KeyPathView::StringSequence(texts(paths@)),
        }
    }
}

/// A copy of strings.
pub(crate) fn copy_strings(strings: &Vec<String>) -> (copy: Vec<String>)
    ensures
        texts(copy@) == texts(strings@),
{
    let mut copy: Vec<String> = Vec::new();
    let mut i: usize = 0;
    while i < strings.len()
        invariant
            i <= strings.len(),
            copy@ == strings@.take(i as int),
        decreases strings.len() - i,
    {
        copy.push(strings[i].clone());
        assert(copy@ =~= strings@.take(i + 1));
        i += 1;
    }
    assert(copy@ =~= strings@);
    copy
}

impl Clone for KeyPath {
    fn clone(&self) -> (copy: Self)
        ensures
            copy@ == self@,
    {
        match self {
            KeyPath::String(path) => KeyPath::String(path.clone()),
            KeyPath::StringSequence(paths) => KeyPath::StringSequence(copy_strings(paths)),
        }
    }
}

/// A key path as the storage thread knows it.
#[derive(Debug)]
pub enum StoredKeyPath {
    String(String),
    Sequence(Vec<String>),
}

impl From<StoredKeyPath> for KeyPath {
    fn from(value: StoredKeyPath) -> (path: Self) {
        match value {
            StoredKeyPath::String(path) => KeyPath::String(path),
            StoredKeyPath::Sequence(paths) => KeyPath::StringSequence(paths),
        }
    }
}

impl vstd::std_specs::convert::FromSpecImpl<StoredKeyPath> for KeyPath {
    open spec fn obeys_from_spec() -> bool {
        true
    }

    open spec fn from_spec(value: StoredKeyPath) -> Self {
        match value {
            StoredKeyPath::String(path) => KeyPath::String(path),
            StoredKeyPath::Sequence(paths) => KeyPath::StringSequence(paths),
        }
    }
}

impl From<KeyPath> for StoredKeyPath {
    fn from(value: KeyPath) -> (path: Self) {
        match value {
            KeyPath::String(path) => StoredKeyPath::String(path),
            KeyPath::StringSequence(paths) => StoredKeyPath::Sequence(paths),
        }
    }
}

impl vstd::std_specs::convert::FromSpecImpl<KeyPath> for StoredKeyPath {
    open spec fn obeys_from_spec() -> bool {
        true
    }

    open spec fn from_spec(value: KeyPath) -> Self {
        match value {
            KeyPath::String(path) => StoredKeyPath::String(path),
            KeyPath::StringSequence(paths) => StoredKeyPath::Sequence(paths),
        }
    }
}

/// Storing a key path and reading it back gives the key path.
pub proof fn key_path_round_trip(path: KeyPath)
    ensures
        <KeyPath as vstd::std_specs::convert::FromSpec<StoredKeyPath>>::from_spec(
            <StoredKeyPath as vstd::std_specs::convert::FromSpec<KeyPath>>::from_spec(path),
        ) == path,
{
}

/// What extracting a key from a value came to.
#[derive(Debug)]
pub enum Extraction {
    Key(IndexedDBKeyType),
    /// An array key, with the keys that are its elements.
    ArrayKey { key: IndexedDBKeyType, elements: Vec<IndexedDBKeyType> },
    /// What the path leads to is not a key.
    Invalid,
    /// The path leads nowhere.
    Failure,
    /// Evaluating the path threw an exception.
    Threw,
}

} // verus!
