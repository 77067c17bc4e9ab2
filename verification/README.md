# weblayer

The decisions behind several parts of a web engine, written in Verus: executable Rust whose
behaviour is stated in contracts and proved.

* `src/indexeddb` - keys, ranges, cursors, requests, object stores and indexes, and an engine that
  says which SQL statements a request runs and what it is answered.
* `src/webstorage` - local and session storage of every origin, over engines that users supply.
* `src/web_locks` - the registry that grants locks, and a client of it.
* `src/interception.rs` - answering a network request in place of the network.
* `src/layout` - snapshots of a document's layout, and hit tests.
* `src/cache_storage.rs`, `src/process_manager.rs`, `src/storage_thread.rs` - smaller parts.

What the library cannot do by itself, such as running statements, sending messages and rounding
floating-point numbers, is in `app`, which hands the library plain values and acts on what comes
back. `tests` runs the library, the SQL statements against a real SQLite among it.

Contracts speak of mathematical models: a list of records, a map of items, a sequence of actions.
What holds of several functions together is stated by public proof functions, most of them at the
end of the module that they are about or in a file named `laws.rs`. The few functions that call
outside crates say in their comments what is believed of the call.
