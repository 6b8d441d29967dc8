//! The records the store holds, the fixed seed set, and what it means for a
//! sequence of rows to list a table.

use vstd::prelude::*;

verus! {

/// One stored record: its row id and its name.
#[derive(Clone, Debug, PartialEq, Eq)]
pub struct Name {
    pub id: i64,
    pub name: String,
}

/// What can go wrong while serving names.
#[derive(Clone, Copy, Debug, PartialEq, Eq, Structural)]
pub enum ServiceError {
    /// The connection could not be opened, or the schema or seed rows not written.
    StartupFailure,
    /// A read against the store failed.
    QueryFailure,
    /// The result could not be encoded for the wire.
    SerializationFailure,
}

/// The names inserted at startup, in order.
pub open spec fn seed_names() -> Seq<Seq<char>> {
    seq!["yes"@, "hi"@, "no"@, "wtf"@]
}

/// The table after the first `n` seed names were inserted: row `k` holds the
/// `k`-th name, for `k` in `1..=n`.
pub open spec fn seeded_prefix(n: int) -> Map<int, Seq<char>> {
    Map::new(|k: int| 1 <= k <= n, |k: int| seed_names()[k - 1])
}

/// The table once every seed name was inserted.
pub open spec fn seed_table() -> Map<int, Seq<char>> {
    seeded_prefix(seed_names().len() as int)
}

/// The seed set as ordered records: ids `1..=N` in insertion order.
pub open spec fn seed_records() -> Seq<(int, Seq<char>)> {
    Seq::new(seed_names().len(), |i: int| (i + 1, seed_names()[i]))
}

/// A record as plain values.
pub open spec fn record_of(n: Name) -> (int, Seq<char>) {
    (n.id as int, n.name@)
}

/// Records as plain values, in order.
pub open spec fn records_of(v: Seq<Name>) -> Seq<(int, Seq<char>)> {
    v.map_values(|n: Name| record_of(n))
}

/// `rows` lists every row of `table` once, by ascending id.
pub open spec fn lists_table(rows: Seq<(int, Seq<char>)>, table: Map<int, Seq<char>>) -> bool {
    &&& forall|i: int|
        0 <= i < rows.len() ==> #[trigger] table.contains_key(rows[i].0) && table[rows[i].0]
            == rows[i].1
    &&& forall|i: int, j: int| 0 <= i < j < rows.len() ==> rows[i].0 < rows[j].0
    &&& forall|k: int| #[trigger]
        table.contains_key(k) ==> exists|i: int| 0 <= i < rows.len() && rows[i].0 == k
}

/// The one listing of the seeded table is the seed set in order.
pub proof fn lemma_seed_listing(rows: Seq<(int, Seq<char>)>)
    requires
        lists_table(rows, seed_table()),
    ensures
        rows == seed_records(),
{
    let n = seed_names().len() as int;
    assert forall|i: int| 0 <= i < rows.len() implies rows[i] == (i + 1, seed_names()[i]) by {
        lemma_listing_ids(rows, n, i);
        assert(seed_table().contains_key(rows[i].0));
    }
    if rows.len() < n {
        assert(seed_table().contains_key(n));
        let j = choose|j: int| 0 <= j < rows.len() && rows[j].0 == n;
        assert(rows[j].0 == j + 1);
    }
    if rows.len() > n {
        assert(seed_table().contains_key(rows[n].0));
    }
    assert(rows =~= seed_records());
}

/// In a listing of the rows `1..=n`, the row at index `i` has id `i + 1`.
proof fn lemma_listing_ids(rows: Seq<(int, Seq<char>)>, n: int, i: int)
    requires
        lists_table(rows, seeded_prefix(n)),
        0 <= i < rows.len(),
    ensures
        rows[i].0 == i + 1,
    decreases i,
{
    let table = seeded_prefix(n);
    assert(table.contains_key(rows[i].0));
    if i == 0 {
        if rows[0].0 > 1 {
            assert(table.contains_key(1));
            let j = choose|j: int| 0 <= j < rows.len() && rows[j].0 == 1;
            assert(rows[j].0 < rows[0].0);
        }
    } else {
        lemma_listing_ids(rows, n, i - 1);
        if rows[i].0 > i + 1 {
            assert(table.contains_key(i + 1));
            let j = choose|j: int| 0 <= j < rows.len() && rows[j].0 == i + 1;
            if j < i {
                lemma_listing_ids(rows, n, j);
            }
            assert(rows[i - 1].0 < rows[i].0);
        }
    }
}

/// A table has one listing: two sequences that list it are equal.
pub proof fn lemma_listing_unique(
    a: Seq<(int, Seq<char>)>,
    b: Seq<(int, Seq<char>)>,
    table: Map<int, Seq<char>>,
)
    requires
        lists_table(a, table),
        lists_table(b, table),
    ensures
        a == b,
{
    assert forall|i: int| 0 <= i < a.len() && i < b.len() implies a[i] == b[i] by {
        lemma_listing_prefix(a, b, table, i);
    }
    if a.len() > b.len() {
        let n = b.len() as int;
        assert(table.contains_key(a[n].0));
        let p = choose|p: int| 0 <= p < b.len() && b[p].0 == a[n].0;
        lemma_listing_prefix(a, b, table, p);
    }
    if b.len() > a.len() {
        let n = a.len() as int;
        assert(table.contains_key(b[n].0));
        let p = choose|p: int| 0 <= p < a.len() && a[p].0 == b[n].0;
        lemma_listing_prefix(a, b, table, p);
    }
    assert(a =~= b);
}

/// Two listings of one table agree at index `i` and at every index before it.
proof fn lemma_listing_prefix(
    a: Seq<(int, Seq<char>)>,
    b: Seq<(int, Seq<char>)>,
    table: Map<int, Seq<char>>,
    i: int,
)
    requires
        lists_table(a, table),
        lists_table(b, table),
        0 <= i < a.len(),
        i < b.len(),
    ensures
        forall|j: int| 0 <= j <= i ==> a[j] == b[j],
    decreases i,
{
    if i > 0 {
        lemma_listing_prefix(a, b, table, i - 1);
    }
    assert(table.contains_key(a[i].0));
    assert(table.contains_key(b[i].0));
    let p = choose|p: int| 0 <= p < b.len() && b[p].0 == a[i].0;
    let q = choose|q: int| 0 <= q < a.len() && a[q].0 == b[i].0;
    if a[i].0 < b[i].0 {
        assert(p < i);
        assert(a[p] == b[p]);
    }
    if b[i].0 < a[i].0 {
        assert(q < i);
        assert(a[q] == b[q]);
    }
}

} // verus!
