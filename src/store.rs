//! The shared store: one connection, seeded once, reached only under an
//! exclusive lock whose invariant is that the table holds the seed set.

use crate::records::{
    lemma_listing_unique, lemma_seed_listing, lists_table, records_of, seed_names, seed_records,
    seed_table, seeded_prefix, Name, ServiceError,
};
use crate::sqlite::{
    create_names_table, held_table, hold_connection, insert_name, next_rowid, open_in_memory,
    select_names, take_connection, Store,
};
use rusqlite::Connection;
use std::sync::{Arc, Mutex};
use vstd::prelude::*;
use vstd::rwlock::{RwLock, RwLockPredicate};

verus! {

/// Opens the store's connection: a fresh in-memory database with no tables.
pub fn get_conn() -> (r: Result<Store, ServiceError>)
    ensures
        r matches Ok(s) ==> s.table() is None,
        r matches Err(e) ==> e == ServiceError::StartupFailure,
{
    match open_in_memory() {
        Ok(c) => Ok(c),
        Err(_) => Err(ServiceError::StartupFailure),
    }
}

/// The seed names, in the order they are inserted.
pub fn seed_list() -> (r: Vec<&'static str>)
    ensures
        r@.len() == seed_names().len(),
        forall|i: int| 0 <= i < r@.len() ==> #[trigger] r@[i]@ == seed_names()[i],
{
    let r = vec!["yes", "hi", "no", "wtf"];
    r
}

/// Creates the `names` table and inserts the seed names in order, so that
/// they get the ids `1..=N`. Fails where the table exists already, and then
/// leaves it as it was: the seed rows are never inserted twice.
pub fn prepare_data(conn: &mut Store) -> (r: Result<(), ServiceError>)
    ensures
        old(conn).table() is Some ==> r is Err && final(conn).table() == old(conn).table(),
        r is Ok ==> final(conn).table() == Some(seed_table()),
        r matches Err(e) ==> e == ServiceError::StartupFailure,
{
    match create_names_table(conn) {
        Ok(_) => {},
        Err(_) => return Err(ServiceError::StartupFailure),
    }
    assert(seeded_prefix(0) =~= Map::<int, Seq<char>>::empty());
    let seeds = seed_list();
    let mut i: usize = 0;
    while i < seeds.len()
        invariant
            0 <= i <= seeds@.len(),
            seeds@.len() == seed_names().len(),
            forall|j: int| 0 <= j < seeds@.len() ==> #[trigger] seeds@[j]@ == seed_names()[j],
            conn.table() == Some(seeded_prefix(i as int)),
            old(conn).table() is None,
        decreases seeds@.len() - i,
    {
        let ghost before = seeded_prefix(i as int);
        match insert_name(conn, seeds[i]) {
            Ok(_) => {},
            Err(_) => return Err(ServiceError::StartupFailure),
        }
        let ghost id = choose|id: int|
            next_rowid(before, id) && conn.table() == Some(before.insert(id, seeds@[i as int]@));
        proof {
            if i == 0 {
                assert(!before.contains_key(id));
            } else {
                assert(before.contains_key(i as int));
            }
            assert(id == i + 1);
            assert(before.insert(id, seeds@[i as int]@) =~= seeded_prefix(i + 1));
        }
        i = i + 1;
    }
    Ok(())
}

/// Reads every record of the `names` table, by ascending id.
pub fn get_names(conn: &Store) -> (r: Result<Vec<Name>, ServiceError>)
    ensures
        reads_table(conn.table(), r),
{
    let rows = match select_names(conn) {
        Ok(rows) => rows,
        Err(_) => return Err(ServiceError::QueryFailure),
    };
    let ghost listed = rows@.map_values(|p: (i64, String)| (p.0 as int, p.1@));
    let mut names: Vec<Name> = Vec::new();
    let mut i: usize = 0;
    while i < rows.len()
        invariant
            0 <= i <= rows@.len(),
            listed == rows@.map_values(|p: (i64, String)| (p.0 as int, p.1@)),
            names@.len() == i,
            records_of(names@) == listed.subrange(0, i as int),
        decreases rows@.len() - i,
    {
        let id = rows[i].0;
        let name = rows[i].1.clone();
        let ghost prev = names@;
        names.push(Name { id, name });
        proof {
            assert(names@ == prev.push(Name { id, name }));
            assert(records_of(prev) =~= listed.subrange(0, i as int));
            assert(listed[i as int] == (id as int, name@));
            assert forall|j: int| 0 <= j <= i implies #[trigger] records_of(names@)[j]
                == listed[j] by {
                if j < i {
                    assert(records_of(prev)[j] == listed.subrange(0, i as int)[j]);
                }
            }
            assert(records_of(names@) =~= listed.subrange(0, i + 1));
        }
        i = i + 1;
    }
    proof {
        assert(listed.subrange(0, rows@.len() as int) =~= listed);
    }
    Ok(names)
}

/// The outcome of reading a store whose table is `table`: a failure where
/// there is no table, and otherwise either the table's rows by ascending id or
/// a query failure.
pub open spec fn reads_table(
    table: Option<Map<int, Seq<char>>>,
    r: Result<Vec<Name>, ServiceError>,
) -> bool {
    &&& table is None ==> r is Err
    &&& match r {
        Ok(v) => table matches Some(t) && lists_table(records_of(v@), t),
        Err(e) => e == ServiceError::QueryFailure,
    }
}

/// A read of a freshly seeded store that succeeds gives the seed set in
/// insertion order, with the ids `1..=N`.
pub proof fn lemma_seeded_read(r: Result<Vec<Name>, ServiceError>)
    requires
        reads_table(Some(seed_table()), r),
    ensures
        answers_seed(r),
{
    if r is Ok {
        lemma_seed_listing(records_of(r->Ok_0@));
    }
}

/// Two reads of one table, with no write between them, that both succeed
/// give the same records in the same order.
pub proof fn lemma_table_reads_repeat(
    table: Option<Map<int, Seq<char>>>,
    first: Result<Vec<Name>, ServiceError>,
    second: Result<Vec<Name>, ServiceError>,
)
    requires
        reads_table(table, first),
        reads_table(table, second),
    ensures
        first matches Ok(a) ==> (second matches Ok(b) ==> records_of(a@) == records_of(b@)),
{
    if first is Ok && second is Ok {
        lemma_listing_unique(records_of(first->Ok_0@), records_of(second->Ok_0@), table->Some_0);
    }
}

/// The lock's invariant: the `names` table holds exactly the seed set.
pub struct SeededTable;

impl RwLockPredicate<Mutex<Connection>> for SeededTable {
    open spec fn inv(self, m: Mutex<Connection>) -> bool {
        held_table(m) == Some(seed_table())
    }
}

/// The outcome of a full read of a seeded store: the seed records in order,
/// or a query failure.
pub open spec fn answers_seed(r: Result<Vec<Name>, ServiceError>) -> bool {
    match r {
        Ok(v) => records_of(v@) == seed_records(),
        Err(e) => e == ServiceError::QueryFailure,
    }
}

/// A handle on the one seeded connection. Clones share the connection, and
/// may be sent to other threads. It is reached only under the exclusive lock,
/// which moves it out to one caller at a time; whatever the lock holds
/// satisfies [`SeededTable`]. The `Mutex` around it is never locked: it only
/// lets a connection, which is `Send` but not `Sync`, sit in a lock that
/// threads share.
#[derive(Clone)]
pub struct Shared {
    conn: Arc<RwLock<Mutex<Connection>, SeededTable>>,
}

impl Shared {
    /// Opens a fresh connection, creates and seeds the table, and puts the
    /// connection under the lock.
    pub fn new() -> (r: Result<Shared, ServiceError>)
        ensures
            r matches Err(e) ==> e == ServiceError::StartupFailure,
    {
        let mut conn = get_conn()?;
        prepare_data(&mut conn)?;
        let lock = RwLock::new(hold_connection(conn), Ghost(SeededTable));
        Ok(Shared { conn: Arc::new(lock) })
    }

    /// Reads every record under the lock. The lock is released before the
    /// outcome is looked at, on the failing path as on the other.
    pub fn query_all(&self) -> (r: Result<Vec<Name>, ServiceError>)
        ensures
            answers_seed(r),
    {
        let (held, handle) = self.conn.acquire_write();
        let conn = take_connection(held);
        let r = get_names(&conn);
        handle.release_write(hold_connection(conn));
        proof {
            lemma_seeded_read(r);
        }
        r
    }
}

/// Reading twice gives the same records: reads change nothing.
pub proof fn lemma_reads_repeat(
    first: Result<Vec<Name>, ServiceError>,
    second: Result<Vec<Name>, ServiceError>,
)
    requires
        answers_seed(first),
        answers_seed(second),
    ensures
        first matches Ok(a) ==> (second matches Ok(b) ==> records_of(a@) == records_of(b@)),
{
}

/// Any number of reads, through any handles on the store and in any order,
/// that succeed give one and the same list of records.
pub proof fn lemma_concurrent_reads_agree(outcomes: Seq<Result<Vec<Name>, ServiceError>>)
    requires
        forall|i: int| 0 <= i < outcomes.len() ==> answers_seed(#[trigger] outcomes[i]),
    ensures
        forall|i: int, j: int|
            0 <= i < outcomes.len() && 0 <= j < outcomes.len() && #[trigger] outcomes[i] is Ok
                && #[trigger] outcomes[j] is Ok ==> records_of(outcomes[i]->Ok_0@) == records_of(
                outcomes[j]->Ok_0@,
            ),
{
    assert forall|i: int, j: int|
        0 <= i < outcomes.len() && 0 <= j < outcomes.len() && #[trigger] outcomes[i] is Ok
            && #[trigger] outcomes[j] is Ok implies records_of(outcomes[i]->Ok_0@) == records_of(
        outcomes[j]->Ok_0@,
    ) by {
        lemma_reads_repeat(outcomes[i], outcomes[j]);
    }
}

} // verus!
