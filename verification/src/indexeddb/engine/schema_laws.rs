//! That a database has the tables and columns that its statements name.

use vstd::prelude::*;
use vstd::string::*;

use crate::indexeddb::engine::model::{IndexModel, ValueView};
use crate::indexeddb::engine::put::row_of;
use crate::indexeddb::engine::schema::{
    object_store_index_text, stored_serial, table_texts, undo_log_texts, undo_logged_shapes,
};
use crate::indexeddb::engine::sql::{columns_text, places_text, Cell, Sql};
use crate::indexeddb::engine::stores::{bare, flag, init_statements};

verus! {

/// The piece stands in the text at this place.
pub open spec fn says_at(text: Seq<char>, piece: Seq<char>, at: int) -> bool {
    &&& 0 <= at
    &&& at + piece.len() <= text.len()
    &&& text.subrange(at, at + piece.len()) == piece
}

/// The piece stands somewhere in the text.
pub open spec fn says(text: Seq<char>, piece: Seq<char>) -> bool {
    exists|at: int| says_at(text, piece, at)
}

/// The text creates a table of this name: the name stands before the columns.
pub open spec fn creates(text: Seq<char>, name: Seq<char>) -> bool {
    says(text, " "@ + name + " ("@)
}

/// The text declares a column of this name: the name begins a line of its own.
pub open spec fn declares(text: Seq<char>, column: Seq<char>) -> bool {
    says(text, "\n    "@ + column + " "@)
}

/// Some table of a database has this name, and this column.
pub open spec fn has_column(name: Seq<char>, column: Seq<char>) -> bool {
    exists|t: int|
        0 <= t < table_texts().len() && creates(#[trigger] table_texts()[t], name) && declares(
            table_texts()[t],
            column,
        )
}

/// The columns, with commas between them.
pub open spec fn listed(columns: Seq<Seq<char>>) -> Seq<char>
    decreases columns.len(),
{
    if columns.len() == 0 {
        seq![]
    } else if columns.len() == 1 {
        columns[0]
    } else {
        listed(columns.drop_last()) + ", "@ + columns.last()
    }
}

/// Some table of a database has this name, and tells its rows apart by these columns.
pub open spec fn has_key(name: Seq<char>, columns: Seq<Seq<char>>) -> bool {
    exists|t: int|
        0 <= t < table_texts().len() && creates(#[trigger] table_texts()[t], name) && (says(
            table_texts()[t],
            "primary key ("@ + listed(columns) + ")"@,
        ) || says(table_texts()[t], "PRIMARY KEY ("@ + listed(columns) + ")"@))
}

/// The table `database` has its columns.
proof fn database_has_its_columns()
    ensures
        has_column("database"@, "name"@),
        has_column("database"@, "origin"@),
        has_column("database"@, "version"@),
{
    let text = table_texts()[0];
    reveal_strlit("
create table database (
    name    varchar          not null
        primary key,
    origin  varchar          not null,
    version bigint default 0 not null
) WITHOUT ROWID;");
    reveal_strlit("database");
    reveal_strlit(" ");
    reveal_strlit(" (");
    reveal_strlit("\n    ");
    reveal_strlit("name");
    reveal_strlit("origin");
    reveal_strlit("version");
    assert(text.subrange(13, 24) =~= " "@ + "database"@ + " ("@);
    assert(says_at(text, " "@ + "database"@ + " ("@, 13));
    assert(creates(text, "database"@));
    assert(text.subrange(24, 34) =~= "\n    "@ + "name"@ + " "@);
    assert(says_at(text, "\n    "@ + "name"@ + " "@, 24));
    assert(declares(text, "name"@));
    assert(text.subrange(83, 95) =~= "\n    "@ + "origin"@ + " "@);
    assert(says_at(text, "\n    "@ + "origin"@ + " "@, 83));
    assert(declares(text, "origin"@));
    assert(text.subrange(122, 135) =~= "\n    "@ + "version"@ + " "@);
    assert(says_at(text, "\n    "@ + "version"@ + " "@, 122));
    assert(declares(text, "version"@));
}

/// The table `object_store` has its columns.
proof fn object_store_has_its_columns()
    ensures
        has_column("object_store"@, "id"@),
        has_column("object_store"@, "name"@),
        has_column("object_store"@, "key_path"@),
        has_column("object_store"@, "auto_increment"@),
{
    let text = table_texts()[1];
    reveal_strlit("
create table object_store (
    id             integer               not null
        primary key autoincrement,
    name           varchar               not null
        unique,
    key_path       varbinary_blob,
    auto_increment integer default FALSE not null
);");
    reveal_strlit("object_store");
    reveal_strlit(" ");
    reveal_strlit(" (");
    reveal_strlit("\n    ");
    reveal_strlit("id");
    reveal_strlit("name");
    reveal_strlit("key_path");
    reveal_strlit("auto_increment");
    assert(text.subrange(13, 28) =~= " "@ + "object_store"@ + " ("@);
    assert(says_at(text, " "@ + "object_store"@ + " ("@, 13));
    assert(creates(text, "object_store"@));
    assert(text.subrange(28, 36) =~= "\n    "@ + "id"@ + " "@);
    assert(says_at(text, "\n    "@ + "id"@ + " "@, 28));
    assert(declares(text, "id"@));
    assert(text.subrange(113, 123) =~= "\n    "@ + "name"@ + " "@);
    assert(says_at(text, "\n    "@ + "name"@ + " "@, 113));
    assert(declares(text, "name"@));
    assert(text.subrange(179, 193) =~= "\n    "@ + "key_path"@ + " "@);
    assert(says_at(text, "\n    "@ + "key_path"@ + " "@, 179));
    assert(declares(text, "key_path"@));
    assert(text.subrange(214, 234) =~= "\n    "@ + "auto_increment"@ + " "@);
    assert(says_at(text, "\n    "@ + "auto_increment"@ + " "@, 214));
    assert(declares(text, "auto_increment"@));
}

/// The table `object_data` has its columns.
proof fn object_data_has_its_columns()
    ensures
        has_column("object_data"@, "object_store_id"@),
        has_column("object_data"@, "key"@),
        has_column("object_data"@, "data"@),
        has_key("object_data"@, seq!["object_store_id"@, "key"@]),
{
    let text = table_texts()[2];
    reveal_strlit("
create table object_data (
    object_store_id integer not null
        references object_store,
    key             blob    not null,
    data            blob    not null,
    constraint \"pk-object_data\"
        primary key (object_store_id, key)
) WITHOUT ROWID;");
    reveal_strlit("object_data");
    reveal_strlit(" ");
    reveal_strlit(" (");
    reveal_strlit("\n    ");
    reveal_strlit("object_store_id");
    reveal_strlit("key");
    reveal_strlit("data");
    assert(text.subrange(13, 27) =~= " "@ + "object_data"@ + " ("@);
    assert(says_at(text, " "@ + "object_data"@ + " ("@, 13));
    assert(creates(text, "object_data"@));
    assert(text.subrange(27, 48) =~= "\n    "@ + "object_store_id"@ + " "@);
    assert(says_at(text, "\n    "@ + "object_store_id"@ + " "@, 27));
    assert(declares(text, "object_store_id"@));
    assert(text.subrange(97, 106) =~= "\n    "@ + "key"@ + " "@);
    assert(says_at(text, "\n    "@ + "key"@ + " "@, 97));
    assert(declares(text, "key"@));
    assert(text.subrange(135, 145) =~= "\n    "@ + "data"@ + " "@);
    assert(says_at(text, "\n    "@ + "data"@ + " "@, 135));
    assert(declares(text, "data"@));
    reveal_strlit("primary key (");
    reveal_strlit(", ");
    reveal_strlit(")");
    assert(seq!["object_store_id"@, "key"@].drop_last() =~= seq!["object_store_id"@]);
    let keys = seq!["object_store_id"@, "key"@];
    reveal_with_fuel(listed, 3);
    assert(text.subrange(214, 248) =~= "primary key ("@ + listed(keys) + ")"@);
    assert(says_at(text, "primary key ("@ + listed(keys) + ")"@, 214));
}

/// The table `object_store_index` has its columns.
proof fn object_store_index_has_its_columns()
    ensures
        has_column("object_store_index"@, "id"@),
        has_column("object_store_index"@, "object_store_id"@),
        has_column("object_store_index"@, "name"@),
        has_column("object_store_index"@, "key_path"@),
        has_column("object_store_index"@, "unique_index"@),
        has_column("object_store_index"@, "multi_entry_index"@),
{
    let text = table_texts()[3];
    reveal_strlit("\ncreate table ");
    reveal_strlit(" (
    id                integer        not null
    primary key autoincrement,
    object_store_id   integer        not null
    references object_store,
    name              varchar        not null,
    key_path          varbinary_blob not null,
    unique_index      boolean        not null,
    multi_entry_index boolean        not null,
    -- An index name is scoped to its object store, so two stores in one database may each have
    -- an index of the same name. Writing `unique` on the column alone would make the name unique
    -- across the whole database.
    unique (object_store_id, name)
);");
    reveal_strlit("object_store_index");
    reveal_strlit(" ");
    reveal_strlit(" (");
    reveal_strlit("\n    ");
    reveal_strlit("id");
    reveal_strlit("object_store_id");
    reveal_strlit("name");
    reveal_strlit("key_path");
    reveal_strlit("unique_index");
    reveal_strlit("multi_entry_index");
    assert(text.subrange(13, 34) =~= " "@ + "object_store_index"@ + " ("@);
    assert(says_at(text, " "@ + "object_store_index"@ + " ("@, 13));
    assert(creates(text, "object_store_index"@));
    assert(text.subrange(34, 42) =~= "\n    "@ + "id"@ + " "@);
    assert(says_at(text, "\n    "@ + "id"@ + " "@, 34));
    assert(declares(text, "id"@));
    assert(text.subrange(111, 132) =~= "\n    "@ + "object_store_id"@ + " "@);
    assert(says_at(text, "\n    "@ + "object_store_id"@ + " "@, 111));
    assert(declares(text, "object_store_id"@));
    assert(text.subrange(186, 196) =~= "\n    "@ + "name"@ + " "@);
    assert(says_at(text, "\n    "@ + "name"@ + " "@, 186));
    assert(declares(text, "name"@));
    assert(text.subrange(233, 247) =~= "\n    "@ + "key_path"@ + " "@);
    assert(says_at(text, "\n    "@ + "key_path"@ + " "@, 233));
    assert(declares(text, "key_path"@));
    assert(text.subrange(280, 298) =~= "\n    "@ + "unique_index"@ + " "@);
    assert(says_at(text, "\n    "@ + "unique_index"@ + " "@, 280));
    assert(declares(text, "unique_index"@));
    assert(text.subrange(327, 350) =~= "\n    "@ + "multi_entry_index"@ + " "@);
    assert(says_at(text, "\n    "@ + "multi_entry_index"@ + " "@, 327));
    assert(declares(text, "multi_entry_index"@));
}

/// The table `index_data` has its columns.
proof fn index_data_has_its_columns()
    ensures
        has_column("index_data"@, "index_id"@),
        has_column("index_data"@, "value"@),
        has_column("index_data"@, "object_data_key"@),
        has_column("index_data"@, "object_store_id"@),
        has_column("index_data"@, "value_locale"@),
        has_key("index_data"@, seq!["index_id"@, "value"@, "object_data_key"@]),
{
    let text = table_texts()[4];
    reveal_strlit("
CREATE TABLE index_data (
    index_id INTEGER NOT NULL,
    value BLOB NOT NULL,
    object_data_key BLOB NOT NULL,
    object_store_id INTEGER NOT NULL,
    value_locale BLOB,
    PRIMARY KEY (index_id, value, object_data_key)
    FOREIGN KEY (index_id) REFERENCES object_store_index(id),
    FOREIGN KEY (object_store_id, object_data_key)
    REFERENCES object_data(object_store_id, key)
) WITHOUT ROWID;");
    reveal_strlit("index_data");
    reveal_strlit(" ");
    reveal_strlit(" (");
    reveal_strlit("\n    ");
    reveal_strlit("index_id");
    reveal_strlit("value");
    reveal_strlit("object_data_key");
    reveal_strlit("object_store_id");
    reveal_strlit("value_locale");
    assert(text.subrange(13, 26) =~= " "@ + "index_data"@ + " ("@);
    assert(says_at(text, " "@ + "index_data"@ + " ("@, 13));
    assert(creates(text, "index_data"@));
    assert(text.subrange(26, 40) =~= "\n    "@ + "index_id"@ + " "@);
    assert(says_at(text, "\n    "@ + "index_id"@ + " "@, 26));
    assert(declares(text, "index_id"@));
    assert(text.subrange(57, 68) =~= "\n    "@ + "value"@ + " "@);
    assert(says_at(text, "\n    "@ + "value"@ + " "@, 57));
    assert(declares(text, "value"@));
    assert(text.subrange(82, 103) =~= "\n    "@ + "object_data_key"@ + " "@);
    assert(says_at(text, "\n    "@ + "object_data_key"@ + " "@, 82));
    assert(declares(text, "object_data_key"@));
    assert(text.subrange(117, 138) =~= "\n    "@ + "object_store_id"@ + " "@);
    assert(says_at(text, "\n    "@ + "object_store_id"@ + " "@, 117));
    assert(declares(text, "object_store_id"@));
    assert(text.subrange(155, 173) =~= "\n    "@ + "value_locale"@ + " "@);
    assert(says_at(text, "\n    "@ + "value_locale"@ + " "@, 155));
    assert(declares(text, "value_locale"@));
    reveal_strlit("PRIMARY KEY (");
    reveal_strlit(", ");
    reveal_strlit(")");
    assert(seq!["index_id"@, "value"@, "object_data_key"@].drop_last() =~= seq!["index_id"@, "value"@]);
    assert(seq!["index_id"@, "value"@].drop_last() =~= seq!["index_id"@]);
    let keys = seq!["index_id"@, "value"@, "object_data_key"@];
    reveal_with_fuel(listed, 4);
    assert(text.subrange(183, 229) =~= "PRIMARY KEY ("@ + listed(keys) + ")"@);
    assert(says_at(text, "PRIMARY KEY ("@ + listed(keys) + ")"@, 183));
}

/// The table `unique_index_data` has its columns.
proof fn unique_index_data_has_its_columns()
    ensures
        has_column("unique_index_data"@, "index_id"@),
        has_column("unique_index_data"@, "value"@),
        has_column("unique_index_data"@, "object_store_id"@),
        has_column("unique_index_data"@, "object_data_key"@),
        has_column("unique_index_data"@, "value_locale"@),
        has_key("unique_index_data"@, seq!["index_id"@, "value"@]),
{
    let text = table_texts()[5];
    reveal_strlit("
CREATE TABLE unique_index_data (
    index_id INTEGER NOT NULL,
    value BLOB NOT NULL,
    object_store_id INTEGER NOT NULL,
    object_data_key BLOB NOT NULL,
    value_locale BLOB,
    PRIMARY KEY (index_id, value),
    FOREIGN KEY (index_id) REFERENCES object_store_index(id),
    FOREIGN KEY (object_store_id, object_data_key)
    REFERENCES object_data(object_store_id, key)
) WITHOUT ROWID;");
    reveal_strlit("unique_index_data");
    reveal_strlit(" ");
    reveal_strlit(" (");
    reveal_strlit("\n    ");
    reveal_strlit("index_id");
    reveal_strlit("value");
    reveal_strlit("object_store_id");
    reveal_strlit("object_data_key");
    reveal_strlit("value_locale");
    assert(text.subrange(13, 33) =~= " "@ + "unique_index_data"@ + " ("@);
    assert(says_at(text, " "@ + "unique_index_data"@ + " ("@, 13));
    assert(creates(text, "unique_index_data"@));
    assert(text.subrange(33, 47) =~= "\n    "@ + "index_id"@ + " "@);
    assert(says_at(text, "\n    "@ + "index_id"@ + " "@, 33));
    assert(declares(text, "index_id"@));
    assert(text.subrange(64, 75) =~= "\n    "@ + "value"@ + " "@);
    assert(says_at(text, "\n    "@ + "value"@ + " "@, 64));
    assert(declares(text, "value"@));
    assert(text.subrange(89, 110) =~= "\n    "@ + "object_store_id"@ + " "@);
    assert(says_at(text, "\n    "@ + "object_store_id"@ + " "@, 89));
    assert(declares(text, "object_store_id"@));
    assert(text.subrange(127, 148) =~= "\n    "@ + "object_data_key"@ + " "@);
    assert(says_at(text, "\n    "@ + "object_data_key"@ + " "@, 127));
    assert(declares(text, "object_data_key"@));
    assert(text.subrange(162, 180) =~= "\n    "@ + "value_locale"@ + " "@);
    assert(says_at(text, "\n    "@ + "value_locale"@ + " "@, 162));
    assert(declares(text, "value_locale"@));
    reveal_strlit("PRIMARY KEY (");
    reveal_strlit(", ");
    reveal_strlit(")");
    assert(seq!["index_id"@, "value"@].drop_last() =~= seq!["index_id"@]);
    let keys = seq!["index_id"@, "value"@];
    reveal_with_fuel(listed, 3);
    assert(text.subrange(190, 219) =~= "PRIMARY KEY ("@ + listed(keys) + ")"@);
    assert(says_at(text, "PRIMARY KEY ("@ + listed(keys) + ")"@, 190));
}

/// Every table whose changes are recorded has the columns that the record restores, and tells its
/// rows apart by those that the record finds them by.
pub proof fn logged_columns_are_those_of_the_tables(s: int, c: int)
    requires
        0 <= s < undo_logged_shapes().len(),
    ensures
        0 <= c < undo_logged_shapes()[s].columns.len() ==> has_column(
            undo_logged_shapes()[s].name,
            undo_logged_shapes()[s].columns[c],
        ),
        has_key(undo_logged_shapes()[s].name, undo_logged_shapes()[s].key_columns),
{
    object_data_has_its_columns();
    index_data_has_its_columns();
    unique_index_data_has_its_columns();
}

/// The tables of stores, of indexes and of the database itself have the columns that the statements
/// name.
pub proof fn described_tables_have_their_columns()
    ensures
        has_column("database"@, "name"@),
        has_column("database"@, "origin"@),
        has_column("database"@, "version"@),
        has_column("object_store"@, "id"@),
        has_column("object_store"@, "name"@),
        has_column("object_store"@, "key_path"@),
        has_column("object_store"@, "auto_increment"@),
        has_column("object_store_index"@, "id"@),
        has_column("object_store_index"@, "object_store_id"@),
        has_column("object_store_index"@, "name"@),
        has_column("object_store_index"@, "key_path"@),
        has_column("object_store_index"@, "unique_index"@),
        has_column("object_store_index"@, "multi_entry_index"@),
{
    database_has_its_columns();
    object_store_has_its_columns();
    object_store_index_has_its_columns();
}

/// The name of an index is taken within its store only: the table is unique in the store and the
/// name together, and under whatever name the table is made.
pub proof fn index_names_are_unique_within_their_store(table: Seq<char>)
    ensures
        creates(object_store_index_text(table), table),
        says(object_store_index_text(table), "\n    unique (object_store_id, name)\n"@),
{
    let text = object_store_index_text(table);
    reveal_strlit("\ncreate table ");
    reveal_strlit(" (
    id                integer        not null
    primary key autoincrement,
    object_store_id   integer        not null
    references object_store,
    name              varchar        not null,
    key_path          varbinary_blob not null,
    unique_index      boolean        not null,
    multi_entry_index boolean        not null,
    -- An index name is scoped to its object store, so two stores in one database may each have
    -- an index of the same name. Writing `unique` on the column alone would make the name unique
    -- across the whole database.
    unique (object_store_id, name)
);");
    reveal_strlit(" ");
    reveal_strlit(" (");
    reveal_strlit("\n    unique (object_store_id, name)\n");
    let piece = " "@ + table + " ("@;
    assert(text.subrange(13, 13int + piece.len()) =~= piece);
    assert(says_at(text, piece, 13));
    let unique = "\n    unique (object_store_id, name)\n"@;
    let at: int = 14int + table.len() + 570;
    assert(text.subrange(at, at + unique.len()) =~= unique);
    assert(says_at(text, unique, at));
}

/// A new database gets its tables and then its one row, under its name and origin and at version
/// zero; one that has them is left as it is.
pub proof fn databases_are_set_up_once(name: Seq<char>, origin: Seq<char>, t: int)
    ensures
        init_statements(true, name, origin).len() == 0,
        init_statements(false, name, origin).len() == table_texts().len() + 1,
        0 <= t < table_texts().len() ==> init_statements(false, name, origin)[t] == bare(
            table_texts()[t],
        ) && init_statements(false, name, origin)[t].values.len() == 0,
        init_statements(false, name, origin).last() == (Sql::Insert {
            replace: false,
            table: "database"@,
            cells: seq![
                Cell { column: "name"@, value: ValueView::Text(name) },
                Cell { column: "origin"@, value: ValueView::Text(origin) },
                Cell { column: "version"@, value: ValueView::Integer(0) },
            ],
        }).statement(),
{
    let one = seq![Cell { column: "name"@, value: ValueView::Text(name) }];
    let two = one.push(Cell { column: "origin"@, value: ValueView::Text(origin) });
    let cells = seq![
        Cell { column: "name"@, value: ValueView::Text(name) },
        Cell { column: "origin"@, value: ValueView::Text(origin) },
        Cell { column: "version"@, value: ValueView::Integer(0) },
    ];
    reveal_strlit("INSERT INTO database (name, origin, version) VALUES (?, ?, ?)");
    reveal_strlit("INSERT INTO ");
    reveal_strlit("database");
    reveal_strlit(" (");
    reveal_strlit("name");
    reveal_strlit("origin");
    reveal_strlit("version");
    reveal_strlit(", ");
    reveal_strlit("");
    reveal_strlit(") VALUES (");
    reveal_strlit("?");
    reveal_strlit(", ?");
    reveal_strlit(")");
    assert(cells.drop_last() =~= two);
    assert(two.drop_last() =~= one);
    assert(one.drop_last() =~= seq![]);
    reveal_with_fuel(columns_text, 4);
    reveal_with_fuel(places_text, 4);
    let statement = (Sql::Insert { replace: false, table: "database"@, cells }).statement();
    let last = init_statements(false, name, origin).last();
    assert(last.sql =~= statement.sql);
    assert(last.values =~= statement.values);
}

/// The undo log has the columns that it is written and read by, numbers its entries upwards, and
/// starts empty.
pub proof fn the_undo_log_starts_empty()
    ensures
        undo_log_texts().len() == 2,
        says(undo_log_texts()[0], "CREATE TABLE IF NOT EXISTS undo_log ("@),
        says(undo_log_texts()[0], "seq                INTEGER PRIMARY KEY AUTOINCREMENT"@),
        says(undo_log_texts()[0], "transaction_serial INTEGER NOT NULL"@),
        says(undo_log_texts()[0], "statement          TEXT    NOT NULL"@),
        undo_log_texts()[1] == (Sql::Delete { table: "undo_log"@, terms: seq![] }).statement().sql,
{
    let text = undo_log_texts()[0];
    reveal_strlit("CREATE TABLE IF NOT EXISTS undo_log (
                seq                INTEGER PRIMARY KEY AUTOINCREMENT,
                transaction_serial INTEGER NOT NULL,
                statement          TEXT    NOT NULL
            )");
    reveal_strlit("CREATE TABLE IF NOT EXISTS undo_log (");
    assert(text.subrange(0, 37) =~= "CREATE TABLE IF NOT EXISTS undo_log ("@);
    assert(says_at(text, "CREATE TABLE IF NOT EXISTS undo_log ("@, 0));
    reveal_strlit("seq                INTEGER PRIMARY KEY AUTOINCREMENT");
    assert(text.subrange(54, 106) =~= "seq                INTEGER PRIMARY KEY AUTOINCREMENT"@);
    assert(says_at(text, "seq                INTEGER PRIMARY KEY AUTOINCREMENT"@, 54));
    reveal_strlit("transaction_serial INTEGER NOT NULL");
    assert(text.subrange(124, 159) =~= "transaction_serial INTEGER NOT NULL"@);
    assert(says_at(text, "transaction_serial INTEGER NOT NULL"@, 124));
    reveal_strlit("statement          TEXT    NOT NULL");
    assert(text.subrange(177, 212) =~= "statement          TEXT    NOT NULL"@);
    assert(says_at(text, "statement          TEXT    NOT NULL"@, 177));
    reveal_strlit("DELETE FROM undo_log");
    reveal_strlit("DELETE FROM ");
    reveal_strlit("undo_log");
    assert(undo_log_texts()[1] =~= (Sql::Delete { table: "undo_log"@, terms: seq![] }).statement().sql);
}

/// A transaction's number keeps its identity in a signed column: it fits there, and no two numbers
/// are stored alike.
pub proof fn serials_are_stored_apart(serial: u64, other: u64)
    ensures
        i64::MIN <= stored_serial(serial) <= i64::MAX,
        stored_serial(serial) == stored_serial(other) <==> serial == other,
        serial <= i64::MAX ==> stored_serial(serial) == serial,
{
}

/// A flag is stored as a number that is one where the flag is set.
pub proof fn flags_are_stored_as_numbers(value: bool)
    ensures
        flag(value) == ValueView::Integer(1) <==> value,
        flag(value) == ValueView::Integer(0) <==> !value,
{
}

/// An index that is known is known by its number and by whether its keys are unique.
pub proof fn known_indexes_keep_their_number(index: Option<IndexModel>)
    ensures
        row_of(index) is Some <==> index is Some,
        index matches Some(own) ==> row_of(index)->0.id == own.id && row_of(index)->0.unique
            == own.unique_index,
{
}

} // verus!
