use vstd::prelude::*;
use crate::order::{first_above, first_from, first_key, key_lt, last_below, last_key};
use lmdb::{Cursor, Database, Environment, RoCursor, RwTransaction, Transaction, WriteFlags};

verus! {

#[verifier::external_type_specification]
#[verifier::external_body]
pub struct ExEnvironment(lmdb::Environment);

#[verifier::external_type_specification]
#[verifier::external_body]
pub struct ExDatabase(lmdb::Database);

#[verifier::external_type_specification]
#[verifier::external_body]
pub struct ExRwTransaction<'env>(lmdb::RwTransaction<'env>);

#[verifier::external_type_specification]
#[verifier::external_body]
pub struct ExRoCursor<'txn>(lmdb::RoCursor<'txn>);

#[verifier::external_type_specification]
#[verifier::external_body]
pub struct ExError(lmdb::Error);

/// A failure of the store: a missing key, or any other error in words.
#[derive(Debug)]
pub enum StoreError {
    NotFound,
    Other(String),
}

/// How a cursor moves.
pub enum CursorOp {
    /// To the first entry of the table.
    First,
    /// To the last entry of the table.
    Last,
    /// To the entry after the current one.
    Next,
    /// To the entry before the current one.
    Prev,
    /// To the first entry whose key is not below the given one.
    SetRange,
}

/// What a table holds as seen from inside a write transaction: its own
/// writes over the committed state it began from.
pub uninterp spec fn txn_table(txn: RwTransaction, db: Database) -> Map<Seq<u8>, Seq<u8>>;

/// Inside this transaction's environment, the table was made with no
/// flags: one value per key, and keys in LMDB's default byte order.
pub uninterp spec fn plain_in(txn: RwTransaction, db: Database) -> bool;

/// A commit of this transaction succeeded: its writes were applied to the
/// store.
pub uninterp spec fn committed(txn: RwTransaction) -> bool;

/// What the table under a cursor holds.
pub uninterp spec fn cursor_table(cursor: RoCursor) -> Map<Seq<u8>, Seq<u8>>;

/// The cursor runs over a table made with no flags.
pub uninterp spec fn cursor_plain(cursor: RoCursor) -> bool;

/// The key that the cursor stands on, if it stands on one.
pub uninterp spec fn cursor_at(cursor: RoCursor) -> Option<Seq<u8>>;

pub open spec fn key_view(key: Option<&[u8]>) -> Option<Seq<u8>> {
    match key {
        Some(k) => Some(k@),
        None => None,
    }
}

/// Where a move lands on a table with unique keys in byte order, starting
/// from key `at` with the given `key`.
pub open spec fn lands(m: Map<Seq<u8>, Seq<u8>>, at: Option<Seq<u8>>, key: Option<Seq<u8>>, op: CursorOp, k: Seq<u8>) -> bool {
    match op {
        CursorOp::First => first_key(m, k),
        CursorOp::Last => last_key(m, k),
        CursorOp::SetRange => first_from(m, key.unwrap(), k),
        CursorOp::Next => first_above(m, at.unwrap(), k),
        CursorOp::Prev => last_below(m, at.unwrap(), k),
    }
}

/// The move has nowhere to land.
pub open spec fn runs_off(m: Map<Seq<u8>, Seq<u8>>, at: Option<Seq<u8>>, key: Option<Seq<u8>>, op: CursorOp) -> bool {
    match op {
        CursorOp::First => forall|x: Seq<u8>| !#[trigger] m.contains_key(x),
        CursorOp::Last => forall|x: Seq<u8>| !#[trigger] m.contains_key(x),
        CursorOp::SetRange => forall|x: Seq<u8>| #[trigger] m.contains_key(x) ==> key_lt(x, key.unwrap()),
        CursorOp::Next => forall|x: Seq<u8>| #[trigger] m.contains_key(x) ==> !key_lt(at.unwrap(), x),
        CursorOp::Prev => forall|x: Seq<u8>| #[trigger] m.contains_key(x) ==> !key_lt(x, at.unwrap()),
    }
}

/// No character of a table name may be NUL: lmdb passes it on as a C string.
pub open spec fn valid_name(s: Seq<char>) -> bool {
    forall|i: int| 0 <= i < s.len() ==> s[i] != '\0'
}

/// Relies on lmdb::Error: `NotFound` stays apart, every other error keeps its
/// `Display` text.
#[verifier::external_body]
fn store_error(e: lmdb::Error) -> StoreError {
    match e {
        lmdb::Error::NotFound => StoreError::NotFound,
        other => StoreError::Other(other.to_string()),
    }
}

/// Relies on Environment::open_db: opens the named table if it exists.
#[verifier::external_body]
pub(crate) fn open_db(env: &Environment, name: &str) -> (r: Result<Database, StoreError>)
    requires
        valid_name(name@),
{
    env.open_db(Some(name)).map_err(store_error)
}

/// Relies on Environment::create_db: creates the named table, or opens it.
#[verifier::external_body]
pub(crate) fn create_db(env: &Environment, name: &str) -> (r: Result<Database, StoreError>)
    requires
        valid_name(name@),
{
    env.create_db(Some(name), lmdb::DatabaseFlags::empty()).map_err(store_error)
}

/// Relies on Transaction::db_flags: whether the table was made with no
/// flags at all, read inside the transaction.
#[verifier::external_body]
pub(crate) fn txn_is_plain(txn: &RwTransaction, db: Database) -> (r: Result<bool, StoreError>)
    ensures
        r matches Ok(b) ==> b == plain_in(*txn, db),
{
    txn.db_flags(db).map(|f| f.is_empty()).map_err(store_error)
}

/// Relies on Environment::begin_rw_txn: starts a write transaction.
#[verifier::external_body]
pub(crate) fn begin_rw_txn<'env>(env: &'env Environment) -> (r: Result<RwTransaction<'env>, StoreError>) {
    env.begin_rw_txn().map_err(store_error)
}

/// Relies on Transaction::get: the value stored under `key`, or `NotFound`
/// when the table holds no such key.
#[verifier::external_body]
pub(crate) fn txn_get(txn: &RwTransaction, db: Database, key: &[u8]) -> (r: Result<Vec<u8>, StoreError>)
    ensures
        r matches Ok(v) ==> txn_table(*txn, db).contains_key(key@) && txn_table(*txn, db)[key@] == v@,
        r matches Err(StoreError::NotFound) ==> !txn_table(*txn, db).contains_key(key@),
{
    txn.get(db, &key).map(|v| v.to_vec()).map_err(store_error)
}

/// Relies on RwTransaction::put: on a table without duplicates, stores
/// `value` under `key`, replacing any value.
#[verifier::external_body]
pub(crate) fn txn_put(txn: &mut RwTransaction, db: Database, key: &[u8], value: &[u8]) -> (r: Result<(), StoreError>)
    requires
        plain_in(*old(txn), db),
    ensures
        plain_in(*final(txn), db) == plain_in(*old(txn), db),
        r is Ok ==> txn_table(*final(txn), db) == txn_table(*old(txn), db).insert(key@, value@),
{
    txn.put(db, &key, &value, WriteFlags::empty()).map_err(store_error)
}

/// Relies on RwTransaction::del: removes `key`, or reports `NotFound`.
#[verifier::external_body]
pub(crate) fn txn_del(txn: &mut RwTransaction, db: Database, key: &[u8]) -> (r: Result<(), StoreError>)
    ensures
        r is Ok ==> txn_table(*final(txn), db) == txn_table(*old(txn), db).remove(key@),
        r matches Err(StoreError::NotFound) ==> !txn_table(*old(txn), db).contains_key(key@)
            && txn_table(*final(txn), db) == txn_table(*old(txn), db),
        plain_in(*final(txn), db) == plain_in(*old(txn), db),
{
    txn.del(db, &key, None).map_err(store_error)
}

/// Relies on Transaction::commit: applies the transaction.
#[verifier::external_body]
pub(crate) fn txn_commit(txn: RwTransaction) -> (r: Result<(), StoreError>)
    ensures
        r is Ok ==> committed(txn),
{
    txn.commit().map_err(store_error)
}

/// Relies on Transaction::abort: discards the transaction.
#[verifier::external_body]
pub(crate) fn txn_abort(txn: RwTransaction) {
    txn.abort()
}

/// Relies on Environment::stat and Stat::entries: the number of entries.
#[verifier::external_body]
pub(crate) fn stat_entries(env: &Environment) -> (r: Result<usize, StoreError>) {
    env.stat().map(|s| s.entries()).map_err(store_error)
}

/// Relies on Transaction::open_ro_cursor: a cursor on `db` inside `txn`.
#[verifier::external_body]
pub(crate) fn open_cursor<'txn, 'env>(txn: &'txn RwTransaction<'env>, db: Database) -> (r: Result<RoCursor<'txn>, StoreError>)
    ensures
        r matches Ok(c) ==> cursor_table(c) == txn_table(*txn, db) && cursor_plain(c) == plain_in(*txn, db)
            && cursor_at(c) is None,
{
    txn.open_ro_cursor(db).map_err(store_error)
}

/// Relies on Cursor::get: moves the cursor as `op` says and returns the key
/// and value it lands on, or `NotFound` when there is nowhere to land.
#[verifier::external_body]
pub(crate) fn cursor_get(cursor: &mut RoCursor, key: Option<&[u8]>, op: CursorOp) -> (r: Result<(Option<Vec<u8>>, Vec<u8>), StoreError>)
    requires
        cursor_plain(*old(cursor)),
        op is SetRange ==> key is Some,
        op is Next || op is Prev ==> cursor_at(*old(cursor)) is Some,
    ensures
        cursor_table(*final(cursor)) == cursor_table(*old(cursor)),
        cursor_plain(*final(cursor)) == cursor_plain(*old(cursor)),
        r matches Ok((Some(k), v)) ==> cursor_at(*final(cursor)) == Some(k@)
            && cursor_table(*old(cursor)).contains_key(k@) && cursor_table(*old(cursor))[k@] == v@
            && lands(cursor_table(*old(cursor)), cursor_at(*old(cursor)), key_view(key), op, k@),
        r matches Err(StoreError::NotFound) ==> runs_off(cursor_table(*old(cursor)), cursor_at(*old(cursor)), key_view(key), op),
{
    let op = match op {
        CursorOp::First => lmdb_sys::MDB_FIRST,
        CursorOp::Last => lmdb_sys::MDB_LAST,
        CursorOp::Next => lmdb_sys::MDB_NEXT,
        CursorOp::Prev => lmdb_sys::MDB_PREV,
        CursorOp::SetRange => lmdb_sys::MDB_SET_RANGE,
    };
    cursor.get(key, None, op).map(|(k, v)| (k.map(|k| k.to_vec()), v.to_vec())).map_err(store_error)
}

} // verus!
