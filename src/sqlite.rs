//! The SQLite calls the store makes, through rusqlite, stated over a model of
//! the `names` table.

use crate::records::lists_table;
use rusqlite::{Connection, Error};
use std::sync::Mutex;
use vstd::prelude::*;

verus! {

/// rusqlite's connection, opaque here; its `names` table is modelled by
/// [`names_table`].
#[verifier::external_type_specification]
#[verifier::external_body]
pub struct ExConnection(Connection);

/// rusqlite's error, carried only as far as the library's own error.
#[verifier::external_type_specification]
#[verifier::external_body]
pub struct ExError(Error);

/// std's mutex, opaque here; what it holds is modelled by [`held_table`].
#[verifier::external_type_specification]
#[verifier::external_body]
#[verifier::reject_recursive_types(T)]
pub struct ExMutex<T: ?Sized>(Mutex<T>);

/// The rows of the `names` table of the database behind `c`, by row id, or
/// `None` while that table does not exist. It is read only of connections
/// held by a [`Store`], whose schema and rows only this library writes.
pub uninterp spec fn names_table(c: Connection) -> Option<Map<int, Seq<char>>>;

/// The rows of the `names` table of the connection that `m` holds.
pub uninterp spec fn held_table(m: Mutex<Connection>) -> Option<Map<int, Seq<char>>>;

/// A connection that only this library opens and writes to: a private
/// in-memory database, whose one table is the `names` table created by
/// [`create_names_table`], with no views, triggers, temporary or attached
/// tables. Outside the crate it is built only by `get_conn`.
pub struct Store {
    pub(crate) conn: Connection,
}

impl Store {
    /// The rows of the store's `names` table, or `None` while it does not exist.
    pub closed spec fn table(&self) -> Option<Map<int, Seq<char>>> {
        names_table(self.conn)
    }
}

/// Relies on `Mutex::new`: the mutex holds the store's connection. A
/// `Mutex<Connection>` may be shared between threads, which a bare
/// connection may not.
#[verifier::external_body]
pub(crate) fn hold_connection(store: Store) -> (m: Mutex<Connection>)
    ensures
        held_table(m) == store.table(),
{
    Mutex::new(store.conn)
}

/// Relies on `Mutex::into_inner`, and on `PoisonError::into_inner` where the
/// mutex is poisoned: either hands back the connection the mutex holds.
#[verifier::external_body]
pub(crate) fn take_connection(m: Mutex<Connection>) -> (store: Store)
    ensures
        store.table() == held_table(m),
{
    Store { conn: m.into_inner().unwrap_or_else(|e| e.into_inner()) }
}

/// `id` is the row id SQLite gives the next row inserted into `table`
/// without one: one more than the largest id in use, or 1 in an empty table.
pub open spec fn next_rowid(table: Map<int, Seq<char>>, id: int) -> bool {
    &&& forall|k: int| #[trigger] table.contains_key(k) ==> k < id
    &&& table.contains_key(id - 1) || (id == 1 && table.is_empty())
}

/// Relies on `Connection::open_in_memory`: a new, private in-memory database,
/// which holds no tables.
#[verifier::external_body]
pub(crate) fn open_in_memory() -> (r: Result<Store, Error>)
    ensures
        r matches Ok(s) ==> names_table(s.conn) is None && s.table() is None,
{
    Connection::open_in_memory().map(|conn| Store { conn })
}

/// Relies on `Connection::execute` running `CREATE TABLE names`: it fails
/// where the table exists, and otherwise leaves a new, empty table. A
/// statement that fails changes nothing.
#[verifier::external_body]
pub(crate) fn create_names_table(store: &mut Store) -> (r: Result<usize, Error>)
    ensures
        old(store).table() is Some ==> r is Err,
        r is Ok ==> final(store).table() == Some(Map::<int, Seq<char>>::empty()),
        r is Err ==> final(store).table() == old(store).table(),
{
    store.conn.execute(
        "CREATE TABLE names (id INTEGER PRIMARY KEY, name TEXT NOT NULL)",
        [],
    )
}

/// Relies on `Connection::execute` running `INSERT INTO names (name)`: it
/// fails where the table does not exist, and otherwise adds one row holding
/// `name` under the next row id (SQLite's `OP_NewRowid`, which takes the
/// largest id plus one while that is below `i64::MAX`). The table has no
/// triggers, so the row holds `name` as given.
#[verifier::external_body]
pub(crate) fn insert_name(store: &mut Store, name: &str) -> (r: Result<usize, Error>)
    requires
        old(store).table() matches Some(t) ==> forall|k: int|
            #[trigger] t.contains_key(k) ==> k < i64::MAX,
    ensures
        old(store).table() is None ==> r is Err,
        r is Ok ==> (old(store).table() matches Some(t) && exists|id: int|
            next_rowid(t, id) && final(store).table() == Some(t.insert(id, name@))),
{
    store.conn.execute("INSERT INTO names (name) VALUES (?1)", [name])
}

/// Relies on `Connection::prepare` and `Statement::query_map` running
/// `SELECT id, name FROM names ORDER BY id`: it fails where the table does not
/// exist, and otherwise yields each row once, by ascending id (`id` is the
/// row id, so the ids are distinct).
#[verifier::external_body]
pub(crate) fn select_names(store: &Store) -> (r: Result<Vec<(i64, String)>, Error>)
    ensures
        store.table() is None ==> r is Err,
        r matches Ok(v) ==> (store.table() matches Some(t) && lists_table(
            v@.map_values(|p: (i64, String)| (p.0 as int, p.1@)),
            t,
        )),
{
    let mut stmt = store.conn.prepare("SELECT id, name FROM names ORDER BY id")?;
    let rows = stmt.query_map([], |row| Ok((row.get(0)?, row.get(1)?)))?;
    rows.collect()
}

} // verus!
