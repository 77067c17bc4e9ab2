//! What the writes of the engine do to the tables that hold records.

use vstd::prelude::*;

use crate::indexeddb::engine::command::Write;

verus! {

/// The tables that hold records, by their primary keys.
pub struct Tables {
    /// `object_data`: by store and key, the data.
    pub objects: Map<(int, Seq<u8>), Seq<u8>>,
    /// `index_data`: by index, index key and primary key, the store.
    pub records: Map<(int, Seq<u8>, Seq<u8>), int>,
    /// `unique_index_data`: by index and index key, the store and the primary key.
    pub unique_records: Map<(int, Seq<u8>), (int, Seq<u8>)>,
    /// The current number of each store's key generator.
    pub generators: Map<int, int>,
}

/// A declared index, as far as its records depend on it.
pub struct IndexRow {
    pub id: int,
    pub unique: bool,
}

/// The declared indexes, by store and name.
pub type Schema = Map<(int, Seq<char>), IndexRow>;

impl Tables {
    /// The tables after a write.
    pub open spec fn after(self, write: Write) -> Tables {
        match write {
            Write::InsertObject { store_id, key, data } => Tables {
                objects: self.objects.insert((store_id, key), data),
                ..self
            },
            Write::UpdateObject { store_id, key, data } => if self.objects.contains_key(
                (store_id, key),
            ) {
                Tables { objects: self.objects.insert((store_id, key), data), ..self }
            } else {
                self
            },
            Write::ClearObjects { store_id } => Tables {
                objects: Map::new(
                    |k: (int, Seq<u8>)| self.objects.contains_key(k) && k.0 != store_id,
                    |k: (int, Seq<u8>)| self.objects[k],
                ),
                ..self
            },
            Write::PutIndexRecord { unique, index_id, value, store_id, primary_key } => if unique {
                Tables {
                    unique_records: self.unique_records.insert(
                        (index_id, value),
                        (store_id, primary_key),
                    ),
                    ..self
                }
            } else {
                Tables {
                    records: self.records.insert((index_id, value, primary_key), store_id),
                    ..self
                }
            },
            Write::DropRecordsOfObject { unique, store_id, primary_key } => self.keeping(
                unique,
                |index: int, store: int, primary: Seq<u8>|
                    !(store == store_id && primary == primary_key),
            ),
            Write::DropRecordsOfStore { unique, store_id } => self.keeping(
                unique,
                |index: int, store: int, primary: Seq<u8>| store != store_id,
            ),
            Write::DropRecordsOfIndex { unique, index_id } => self.keeping(
                unique,
                |index: int, store: int, primary: Seq<u8>| index != index_id,
            ),
            Write::SetGenerator { store_id, number } => Tables {
                generators: self.generators.insert(store_id, number),
                ..self
            },
        }
    }

    /// The tables with the records of one index table that `keeps` accepts, by index, store and
    /// primary key, and no others of that table.
    pub open spec fn keeping(
        self,
        unique: bool,
        keeps: spec_fn(int, int, Seq<u8>) -> bool,
    ) -> Tables {
        if unique {
            Tables {
                unique_records: Map::new(
                    |k: (int, Seq<u8>)|
                        self.unique_records.contains_key(k) && keeps(
                            k.0,
                            self.unique_records[k].0,
                            self.unique_records[k].1,
                        ),
                    |k: (int, Seq<u8>)| self.unique_records[k],
                ),
                ..self
            }
        } else {
            Tables {
                records: Map::new(
                    |k: (int, Seq<u8>, Seq<u8>)|
                        self.records.contains_key(k) && keeps(k.0, self.records[k], k.2),
                    |k: (int, Seq<u8>, Seq<u8>)| self.records[k],
                ),
                ..self
            }
        }
    }

    /// The tables after the writes, one after the other.
    pub open spec fn after_all(self, writes: Seq<Write>) -> Tables
        decreases writes.len(),
    {
        if writes.len() == 0 {
            self
        } else {
            self.after_all(writes.drop_last()).after(writes.last())
        }
    }

    /// The unique index holds `value` for an object other than `primary_key`.
    pub open spec fn held_by_other(self, row: IndexRow, value: Seq<u8>, primary_key: Seq<u8>) -> bool {
        self.unique_records.contains_key((row.id, value)) && self.unique_records[(
            row.id,
            value,
        )].1 != primary_key
    }
}

/// Writes in a row are those of the first part and then those of the second.
pub proof fn writes_compose(tables: Tables, first: Seq<Write>, second: Seq<Write>)
    ensures
        tables.after_all(first + second) == tables.after_all(first).after_all(second),
    decreases second.len(),
{
    if second.len() == 0 {
        assert(first + second =~= first);
    } else {
        assert((first + second).drop_last() =~= first + second.drop_last());
        writes_compose(tables, first, second.drop_last());
    }
}

} // verus!
