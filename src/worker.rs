use vstd::prelude::*;
use vstd::slice::slice_to_vec;
use lmdb::{Database, Environment, RoCursor, RwTransaction};
use crate::message::{Record, WorkerError};
use crate::order::{
    first_above, first_from, first_key, key_lt, last_below, last_key, last_upto, lemma_key_order,
};
use crate::store::{
    begin_rw_txn, create_db, cursor_get, open_cursor, open_db, stat_entries, txn_abort, txn_commit,
    txn_del, txn_get, txn_put, txn_table, cursor_table, cursor_plain, plain_in, committed, txn_is_plain, valid_name, CursorOp, StoreError,
};

verus! {

/// Where an iterator stands between two steps.
#[derive(Debug)]
pub enum IterPos {
    /// Nothing yielded yet; the walk starts at the given key, or at the end
    /// of the table that the direction begins from.
    Start(Option<Vec<u8>>),
    /// The given key was the last one yielded.
    After(Vec<u8>),
    /// The walk has run off the table.
    Done,
}

impl IterPos {
    pub fn is_done(&self) -> (r: bool)
        ensures
            r == (*self is Done),
    {
        match self {
            IterPos::Done => true,
            _ => false,
        }
    }
}

/// A walk over the current table, in key order or against it.
#[derive(Debug)]
pub struct IterState {
    pub descending: bool,
    pub pos: IterPos,
}

/// The two records name the same key of the same table.
pub open spec fn same_key(a: Record, b: Record) -> bool {
    &&& a.ware@ == b.ware@
    &&& a.tab@ == b.tab@
    &&& a.key@ == b.key@
    &&& a.index == b.index
}

/// The table after one record is written: a value is stored under its key,
/// no value removes the key.
pub open spec fn write_one(m: Map<Seq<u8>, Seq<u8>>, rec: Record) -> Map<Seq<u8>, Seq<u8>> {
    match rec.value {
        Some(v) => m.insert(rec.key@, v@),
        None => m.remove(rec.key@),
    }
}

/// The table after a batch of records is written in order.
pub open spec fn apply_batch(m: Map<Seq<u8>, Seq<u8>>, recs: Seq<Record>) -> Map<Seq<u8>, Seq<u8>>
    decreases recs.len(),
{
    if recs.len() == 0 {
        m
    } else {
        write_one(apply_batch(m, recs.drop_last()), recs.last())
    }
}

/// The record agrees with the table: its value is the one stored under its
/// key, and no value means that the key is absent.
pub open spec fn read_from(m: Map<Seq<u8>, Seq<u8>>, rec: Record) -> bool {
    match rec.value {
        Some(v) => m.contains_key(rec.key@) && m[rec.key@] == v@,
        None => !m.contains_key(rec.key@),
    }
}

/// Read your own writes: after a batch is written, a record of it whose key
/// no later record of the batch writes agrees with the table, so a lookup of
/// that key returns what the record wrote.
pub proof fn lemma_last_write_wins(m: Map<Seq<u8>, Seq<u8>>, recs: Seq<Record>, i: int)
    requires
        0 <= i < recs.len(),
        forall|j: int| i < j < recs.len() ==> (#[trigger] recs[j]).key@ != recs[i].key@,
    ensures
        read_from(apply_batch(m, recs), recs[i]),
    decreases recs.len(),
{
    let prefix = recs.drop_last();
    if i < recs.len() - 1 {
        assert forall|j: int| i < j < prefix.len() implies (#[trigger] prefix[j]).key@ != prefix[i].key@ by {
            assert(prefix[j] == recs[j]);
        }
        lemma_last_write_wins(m, prefix, i);
        assert(prefix[i] == recs[i]);
        assert(recs.last().key@ != recs[i].key@);
    }
}

/// The key that a step of an item iterator yielded, if any.
pub open spec fn item_key(r: Result<Option<(Vec<u8>, Vec<u8>)>, WorkerError>) -> Result<Option<Seq<u8>>, WorkerError> {
    match r {
        Ok(Some(e)) => Ok(Some(e.0@)),
        Ok(None) => Ok(None),
        Err(e) => Err(e),
    }
}

/// The key that a step of a key iterator yielded, if any.
pub open spec fn key_only(r: Result<Option<Vec<u8>>, WorkerError>) -> Result<Option<Seq<u8>>, WorkerError> {
    match r {
        Ok(Some(k)) => Ok(Some(k@)),
        Ok(None) => Ok(None),
        Err(e) => Err(e),
    }
}

/// How one step moves an iterator: without one it is an error; a finished
/// one reports the end again and stays; otherwise the key yielded becomes
/// the new position, the end finishes it, and a failure leaves it as it was.
pub open spec fn advanced(before: Option<IterState>, after: Option<IterState>, out: Result<Option<Seq<u8>>, WorkerError>) -> bool {
    match before {
        None => out == Err::<Option<Seq<u8>>, WorkerError>(WorkerError::IteratorNotInitialized) && after == before,
        Some(it) => match it.pos {
            IterPos::Done => out == Ok::<Option<Seq<u8>>, WorkerError>(None) && after == before,
            _ => match out {
                Ok(None) => after == Some(IterState { descending: it.descending, pos: IterPos::Done }),
                Ok(Some(k)) => match after {
                    Some(a) => a.descending == it.descending && match a.pos {
                        IterPos::After(k2) => k2@ == k,
                        _ => false,
                    },
                    None => false,
                },
                Err(_) => after == before,
            },
        },
    }
}

/// An iterator that has reported its end reports the end on every later
/// step, and stays where it is.
pub proof fn lemma_end_repeats(
    s0: Option<IterState>,
    s1: Option<IterState>,
    out1: Result<Option<Seq<u8>>, WorkerError>,
    s2: Option<IterState>,
    out2: Result<Option<Seq<u8>>, WorkerError>,
)
    requires
        advanced(s0, s1, out1),
        out1 == Ok::<Option<Seq<u8>>, WorkerError>(None),
        advanced(s1, s2, out2),
    ensures
        out2 == Ok::<Option<Seq<u8>>, WorkerError>(None),
        s2 == s1,
{
}

fn bytes_eq(a: &Vec<u8>, b: &Vec<u8>) -> (r: bool)
    ensures
        r == (a@ == b@),
{
    if a.len() != b.len() {
        return false;
    }
    let mut i: usize = 0;
    while i < a.len()
        invariant
            a.len() == b.len(),
            0 <= i <= a.len(),
            forall|j: int| 0 <= j < i ==> a@[j] == b@[j],
        decreases a.len() - i,
    {
        if a[i] != b[i] {
            return false;
        }
        i = i + 1;
    }
    assert(a@ =~= b@);
    true
}

fn keyed_record(kv: &Record, value: Option<Vec<u8>>) -> (r: Record)
    ensures
        same_key(r, *kv),
        r.value == value,
{
    Record {
        ware: kv.ware.clone(),
        tab: kv.tab.clone(),
        key: slice_to_vec(kv.key.as_slice()),
        index: kv.index,
        value,
    }
}

/// What a point lookup reports for one key, given what the store returned:
/// a missing key is a record without a value, never an error.
pub fn lookup_outcome(kv: &Record, got: Result<Vec<u8>, StoreError>) -> (r: Result<Record, WorkerError>)
    ensures
        got matches Ok(v) ==> r matches Ok(rec) && same_key(rec, *kv) && rec.value == Some(v),
        got matches Err(StoreError::NotFound) ==> r matches Ok(rec) && same_key(rec, *kv)
            && rec.value is None,
        got matches Err(StoreError::Other(m)) ==> r == Err::<Record, WorkerError>(
            WorkerError::Internal(StoreError::Other(m)),
        ),
{
    match got {
        Ok(v) => Ok(keyed_record(kv, Some(v))),
        Err(StoreError::NotFound) => Ok(keyed_record(kv, None)),
        Err(e) => Err(WorkerError::Internal(e)),
    }
}

/// The lookup failed for a reason other than a missing key.
pub open spec fn failed(g: Result<Vec<u8>, StoreError>) -> bool {
    g matches Err(StoreError::Other(_))
}

/// The record carries what the lookup found: its value, or none for a
/// missing key.
pub open spec fn looked_up(rec: Record, g: Result<Vec<u8>, StoreError>) -> bool {
    match g {
        Ok(x) => rec.value matches Some(y) && y@ == x@,
        Err(_) => rec.value is None,
    }
}

/// What a batch of point lookups reports, given what the store returned
/// for each key in turn: the first failure alone, or else one record per
/// key with what was found.
pub fn batch_outcome(keys: &Vec<Record>, got: &Vec<Result<Vec<u8>, StoreError>>) -> (r: Result<Vec<Record>, WorkerError>)
    requires
        got.len() <= keys.len(),
    ensures
        (forall|i: int| 0 <= i < got.len() ==> !failed(#[trigger] got@[i])) <==> r is Ok,
        r matches Ok(v) ==> v.len() == got.len() && forall|i: int| 0 <= i < v.len()
            ==> same_key(#[trigger] v@[i], keys@[i]) && looked_up(v@[i], got@[i]),
        r matches Err(e) ==> exists|i: int| 0 <= i < got.len() && (forall|j: int| 0 <= j < i ==> !failed(#[trigger] got@[j]))
            && (#[trigger] got@[i] matches Err(StoreError::Other(m)) && e == WorkerError::Internal(StoreError::Other(m))),
{
    let mut values: Vec<Record> = Vec::new();
    let mut i: usize = 0;
    while i < got.len()
        invariant
            got.len() <= keys.len(),
            0 <= i <= got.len(),
            values.len() == i,
            forall|j: int| 0 <= j < i ==> !failed(#[trigger] got@[j]),
            forall|j: int| 0 <= j < i ==> same_key(#[trigger] values@[j], keys@[j]) && looked_up(values@[j], got@[j]),
        decreases got.len() - i,
    {
        let g = match &got[i] {
            Ok(x) => Ok(slice_to_vec(x.as_slice())),
            Err(StoreError::NotFound) => Err(StoreError::NotFound),
            Err(StoreError::Other(m)) => Err(StoreError::Other(m.clone())),
        };
        match lookup_outcome(&keys[i], g) {
            Ok(rec) => values.push(rec),
            Err(e) => {
                assert(failed(got@[i as int]));
                return Err(e);
            },
        }
        i = i + 1;
    }
    Ok(values)
}

/// The error that writing `rec` reports, given what the store returned;
/// none for success or for deleting a key that was already absent.
pub open spec fn write_error(rec: Record, g: Result<(), StoreError>) -> Option<WorkerError> {
    match g {
        Ok(_) => None,
        Err(e) => match rec.value {
            Some(_) => Some(WorkerError::Insert(e)),
            None => match e {
                StoreError::NotFound => None,
                StoreError::Other(m) => Some(WorkerError::Delete(StoreError::Other(m))),
            },
        },
    }
}

/// The errors of a batch of writes, in order.
pub open spec fn write_errors(recs: Seq<Record>, got: Seq<Result<(), StoreError>>) -> Seq<Result<(), WorkerError>>
    decreases got.len(),
{
    if got.len() == 0 {
        seq![]
    } else {
        let rest = write_errors(recs, got.drop_last());
        match write_error(recs[got.len() - 1], got.last()) {
            Some(e) => rest.push(Err(e)),
            None => rest,
        }
    }
}

/// What a batch of writes reports: each failure in order, or one success
/// when nothing failed.
pub open spec fn write_reports_of(recs: Seq<Record>, got: Seq<Result<(), StoreError>>) -> Seq<Result<(), WorkerError>> {
    if write_errors(recs, got).len() == 0 {
        seq![Ok(())]
    } else {
        write_errors(recs, got)
    }
}

/// The errors of a batch are failed writes, at most one per record, and
/// there are none exactly when every write succeeded.
pub proof fn lemma_write_errors(recs: Seq<Record>, got: Seq<Result<(), StoreError>>)
    ensures
        write_errors(recs, got).len() <= got.len(),
        forall|i: int| 0 <= i < write_errors(recs, got).len() ==> (#[trigger] write_errors(recs, got)[i] matches Err(e)
            && (e is Insert || e matches WorkerError::Delete(StoreError::Other(_)))),
        write_errors(recs, got).len() == 0 <==> forall|j: int| 0 <= j < got.len() ==> (#[trigger] write_error(recs[j], got[j])) is None,
    decreases got.len(),
{
    if got.len() > 0 {
        let prefix = got.drop_last();
        lemma_write_errors(recs, prefix);
        if write_errors(recs, got).len() == 0 {
            assert forall|j: int| 0 <= j < got.len() implies (#[trigger] write_error(recs[j], got[j])) is None by {
                if j < got.len() - 1 {
                    assert(got[j] == prefix[j]);
                }
            }
        }
        if forall|j: int| 0 <= j < got.len() ==> (#[trigger] write_error(recs[j], got[j])) is None {
            assert forall|j: int| 0 <= j < prefix.len() implies (#[trigger] write_error(recs[j], prefix[j])) is None by {
                assert(got[j] == prefix[j]);
                assert(write_error(recs[j], got[j]) is None);
            }
            assert(write_error(recs[got.len() - 1], got[got.len() - 1]) is None);
        }
    }
}

/// What a batch of writes reports, given what the store returned for each
/// record in turn.
pub fn write_reports(keys: &Vec<Record>, got: &Vec<Result<(), StoreError>>) -> (r: Vec<Result<(), WorkerError>>)
    requires
        got.len() <= keys.len(),
    ensures
        r@ == write_reports_of(keys@, got@),
{
    let mut reports: Vec<Result<(), WorkerError>> = Vec::new();
    let mut i: usize = 0;
    while i < got.len()
        invariant
            got.len() <= keys.len(),
            0 <= i <= got.len(),
            reports@ == write_errors(keys@, got@.subrange(0, i as int)),
        decreases got.len() - i,
    {
        let failure = match &got[i] {
            Ok(()) => None,
            Err(StoreError::NotFound) => if keys[i].value.is_some() {
                Some(WorkerError::Insert(StoreError::NotFound))
            } else {
                None
            },
            Err(StoreError::Other(m)) => if keys[i].value.is_some() {
                Some(WorkerError::Insert(StoreError::Other(m.clone())))
            } else {
                Some(WorkerError::Delete(StoreError::Other(m.clone())))
            },
        };
        assert(got@.subrange(0, i + 1).drop_last() =~= got@.subrange(0, i as int));
        assert(failure == write_error(keys@[i as int], got@[i as int]));
        match failure {
            Some(e) => reports.push(Err(e)),
            None => {},
        }
        i = i + 1;
    }
    assert(got@.subrange(0, got.len() as int) =~= got@);
    if reports.len() == 0 {
        reports.push(Ok(()));
        assert(reports@ =~= seq![Ok::<(), WorkerError>(())]);
    }
    reports
}

/// The entry that a cursor move landed on; `NotFound` means there was
/// nowhere to land.
fn landed(got: Result<(Option<Vec<u8>>, Vec<u8>), StoreError>) -> (r: Result<Option<(Vec<u8>, Vec<u8>)>, StoreError>)
    ensures
        match got {
            Ok((Some(k), v)) => r == Ok::<Option<(Vec<u8>, Vec<u8>)>, StoreError>(Some((k, v))),
            Err(StoreError::NotFound) => r == Ok::<Option<(Vec<u8>, Vec<u8>)>, StoreError>(None),
            _ => r is Err,
        },
{
    match got {
        Ok((Some(k), v)) => Ok(Some((k, v))),
        Ok((None, _)) => Err(StoreError::Other(String::new())),
        Err(StoreError::NotFound) => Ok(None),
        Err(e) => Err(e),
    }
}

/// What a step of a walk from `pos` yields: the least key that comes next
/// in key order (the greatest when descending), or `None` when no key is
/// left in that direction.
pub open spec fn walk_lands(m: Map<Seq<u8>, Seq<u8>>, descending: bool, pos: IterPos, out: Option<Seq<u8>>) -> bool {
    match pos {
        IterPos::Done => out is None,
        IterPos::Start(None) => match out {
            Some(k) => if descending { last_key(m, k) } else { first_key(m, k) },
            None => forall|x: Seq<u8>| !#[trigger] m.contains_key(x),
        },
        IterPos::Start(Some(s)) => match out {
            Some(k) => if descending { last_upto(m, s@, k) } else { first_from(m, s@, k) },
            None => forall|x: Seq<u8>| #[trigger] m.contains_key(x) ==> (if descending { key_lt(s@, x) } else { key_lt(x, s@) }),
        },
        IterPos::After(a) => match out {
            Some(k) => if descending { last_below(m, a@, k) } else { first_above(m, a@, k) },
            None => forall|x: Seq<u8>| #[trigger] m.contains_key(x) ==> (if descending { !key_lt(x, a@) } else { !key_lt(a@, x) }),
        },
    }
}

/// A step that did not fail yielded the entry `walk_lands` names, with the
/// value that the table holds under its key.
pub open spec fn stepped(m: Map<Seq<u8>, Seq<u8>>, descending: bool, pos: IterPos, r: Result<Option<(Vec<u8>, Vec<u8>)>, StoreError>) -> bool {
    match r {
        Ok(Some(e)) => m.contains_key(e.0@) && m[e.0@] == e.1@ && walk_lands(m, descending, pos, Some(e.0@)),
        Ok(None) => walk_lands(m, descending, pos, None),
        Err(_) => true,
    }
}

/// The greatest entry below `k`, or at `k` too when `inclusive`.
fn entry_before(cursor: &mut RoCursor, k: &Vec<u8>, inclusive: bool) -> (r: Result<Option<(Vec<u8>, Vec<u8>)>, StoreError>)
    requires
        cursor_plain(*old(cursor)),
    ensures
        stepped(cursor_table(*old(cursor)), true, if inclusive { IterPos::Start(Some(*k)) } else { IterPos::After(*k) }, r),
{
    let ghost m = cursor_table(*cursor);
    proof { lemma_key_order(); }
    match landed(cursor_get(cursor, Some(k.as_slice()), CursorOp::SetRange)) {
        Ok(Some((p, v))) => {
            if inclusive && bytes_eq(&p, k) {
                Ok(Some((p, v)))
            } else {
                let r = landed(cursor_get(cursor, None, CursorOp::Prev));
                proof {
                    if !inclusive && p@ == k@ {
                    } else {
                        assert(key_lt(k@, p@));
                    }
                }
                r
            }
        },
        Ok(None) => landed(cursor_get(cursor, None, CursorOp::Last)),
        Err(e) => Err(e),
    }
}

/// The least entry above `k`.
fn entry_after(cursor: &mut RoCursor, k: &Vec<u8>) -> (r: Result<Option<(Vec<u8>, Vec<u8>)>, StoreError>)
    requires
        cursor_plain(*old(cursor)),
    ensures
        stepped(cursor_table(*old(cursor)), false, IterPos::After(*k), r),
{
    proof { lemma_key_order(); }
    match landed(cursor_get(cursor, Some(k.as_slice()), CursorOp::SetRange)) {
        Ok(Some((p, v))) => {
            if bytes_eq(&p, k) {
                landed(cursor_get(cursor, None, CursorOp::Next))
            } else {
                assert(key_lt(k@, p@));
                Ok(Some((p, v)))
            }
        },
        other => other,
    }
}

/// The entry that follows position `pos` in the walk's direction.
fn step(cursor: &mut RoCursor, descending: bool, pos: &IterPos) -> (r: Result<Option<(Vec<u8>, Vec<u8>)>, StoreError>)
    requires
        cursor_plain(*old(cursor)),
    ensures
        stepped(cursor_table(*old(cursor)), descending, *pos, r),
{
    match pos {
        IterPos::Done => Ok(None),
        IterPos::Start(None) => {
            let op = if descending { CursorOp::Last } else { CursorOp::First };
            landed(cursor_get(cursor, None, op))
        },
        IterPos::Start(Some(k)) => {
            if descending {
                entry_before(cursor, k, true)
            } else {
                landed(cursor_get(cursor, Some(k.as_slice()), CursorOp::SetRange))
            }
        },
        IterPos::After(k) => {
            if descending {
                entry_before(cursor, k, false)
            } else {
                entry_after(cursor, k)
            }
        },
    }
}

/// The state that one worker thread keeps between messages: its open write
/// transaction, its table, and its iterator.
///
/// LMDB allows one write transaction at a time in an environment, and
/// beginning another waits until it ends. Two workers on one thread, each
/// with a transaction open in the same environment, would wait forever:
/// give each worker a thread of its own.
pub struct Worker<'env> {
    txn: Option<RwTransaction<'env>>,
    db: Option<Database>,
    iter: Option<IterState>,
}

impl<'env> Worker<'env> {
    pub closed spec fn txn_open(&self) -> bool {
        self.txn is Some
    }

    pub closed spec fn table(&self) -> Option<Database> {
        self.db
    }

    pub closed spec fn iterator(&self) -> Option<IterState> {
        self.iter
    }

    /// What the current table holds inside the open transaction.
    pub closed spec fn contents(&self) -> Map<Seq<u8>, Seq<u8>> {
        match (self.txn, self.db) {
            (Some(t), Some(d)) => txn_table(t, d),
            _ => Map::empty(),
        }
    }

    /// The open transaction.
    pub closed spec fn open_txn(&self) -> RwTransaction<'env> {
        self.txn->0
    }

    /// A worker with no transaction, table or iterator.
    pub fn new() -> (r: Self)
        ensures
            !r.txn_open(),
            r.table() is None,
            r.iterator() is None,
    {
        Worker { txn: None, db: None, iter: None }
    }

    /// Opens the named table, or creates it when it does not exist, and
    /// makes it the table of every later operation. No transaction may
    /// be open: opening a table takes one of its own, so with a transaction
    /// open nothing is done and `TxnOpen` is reported.
    pub fn create_db(&mut self, env: &'env Environment, name: &String) -> (r: Result<(), WorkerError>)
        requires
            valid_name(name@),
        ensures
            old(self).txn_open() <==> r == Err::<(), WorkerError>(WorkerError::TxnOpen),
            old(self).txn_open() ==> *final(self) == *old(self),
            final(self).txn_open() == old(self).txn_open(),
            final(self).iterator() == old(self).iterator(),
            r is Ok ==> final(self).table() is Some,
            r is Err ==> final(self).table() == old(self).table(),
            r matches Err(e) ==> e is Table || e is TxnOpen,
    {
        if self.txn.is_some() {
            return Err(WorkerError::TxnOpen);
        }
        let found = match open_db(env, name.as_str()) {
            Ok(d) => Ok(d),
            Err(_) => create_db(env, name.as_str()),
        };
        match found {
            Ok(d) => {
                self.db = Some(d);
                Ok(())
            },
            Err(e) => Err(WorkerError::Table(e)),
        }
    }

    /// Looks up each key in the open transaction, opening one first if
    /// none is. A missing key gives a record without a value; any other
    /// failure ends the batch with that error alone.
    pub fn query(&mut self, env: &'env Environment, keys: &Vec<Record>) -> (r: Result<Vec<Record>, WorkerError>)
        ensures
            final(self).table() == old(self).table(),
            final(self).iterator() == old(self).iterator(),
            old(self).txn_open() ==> final(self).txn_open() && final(self).contents() == old(self).contents(),
            r is Ok ==> final(self).txn_open(),
            r matches Ok(v) ==> v.len() == keys.len() && forall|i: int|
                0 <= i < v.len() ==> same_key(#[trigger] v@[i], keys@[i]) && read_from(final(self).contents(), v@[i]),
            r matches Err(e) ==> e is NoTable || e is Begin || e matches WorkerError::Internal(StoreError::Other(_)),
            (r matches Err(WorkerError::NoTable)) <==> old(self).table() is None,
            old(self).table() is None ==> *final(self) == *old(self),
            r matches Err(WorkerError::Begin(_)) ==> !old(self).txn_open(),
            old(self).table() is Some && old(self).txn_open() && keys.len() == 0 ==> (r matches Ok(v) && v.len() == 0),
    {
        let db = match self.db {
            Some(d) => d,
            None => return Err(WorkerError::NoTable),
        };
        let txn = match self.take_txn(env) {
            Ok(t) => t,
            Err(e) => return Err(e),
        };
        let mut got: Vec<Result<Vec<u8>, StoreError>> = Vec::new();
        let mut stop = false;
        let mut i: usize = 0;
        while i < keys.len() && !stop
            invariant
                0 <= i <= keys.len(),
                got.len() == i,
                !stop ==> forall|j: int| 0 <= j < i ==> !failed(#[trigger] got@[j]),
                stop ==> i > 0 && failed(got@[i - 1]),
                forall|j: int| 0 <= j < i ==> (#[trigger] got@[j] matches Ok(x) ==> txn_table(txn, db).contains_key(keys@[j].key@)
                    && txn_table(txn, db)[keys@[j].key@] == x@),
                forall|j: int| 0 <= j < i ==> (#[trigger] got@[j] matches Err(StoreError::NotFound) ==> !txn_table(txn, db).contains_key(keys@[j].key@)),
            decreases keys.len() - i,
        {
            let g = txn_get(&txn, db, keys[i].key.as_slice());
            stop = g matches Err(StoreError::Other(_));
            got.push(g);
            i = i + 1;
        }
        self.txn = Some(txn);
        let r = batch_outcome(keys, &got);
        proof {
            if r is Ok && stop {
                assert(!failed(got@[i - 1]));
            }
        }
        r
    }

    /// Writes each record in the open transaction, opening one first if
    /// none is: a value is stored, no value deletes the key, and a key
    /// already absent counts as deleted. Every failure is reported and the
    /// batch goes on; success is reported once, only when nothing failed.
    pub fn modify(&mut self, env: &'env Environment, keys: &Vec<Record>) -> (r: Vec<Result<(), WorkerError>>)
        ensures
            final(self).table() == old(self).table(),
            final(self).iterator() == old(self).iterator(),
            old(self).txn_open() ==> final(self).txn_open(),
            old(self).table() is None ==> r@ == seq![Err::<(), WorkerError>(WorkerError::NoTable)]
                && *final(self) == *old(self),
            r@ == seq![Ok::<(), WorkerError>(())] ==> final(self).txn_open(),
            r@ == seq![Ok::<(), WorkerError>(())] || (0 < r.len() && forall|i: int|
                0 <= i < r.len() ==> (#[trigger] r@[i]) is Err),
            forall|i: int| 0 <= i < r.len() ==> (#[trigger] r@[i] matches Err(e) ==> (e is NoTable
                && old(self).table() is None) || (e is Begin && !old(self).txn_open()) || e is Insert
                || e matches WorkerError::Delete(StoreError::Other(_)) || e is NotPlain || e is Table),
            old(self).table() is Some && final(self).txn_open() ==> r@ == seq![Err::<(), WorkerError>(WorkerError::NotPlain)]
                || (r.len() == 1 && r@[0] matches Err(WorkerError::Table(_)))
                || exists|got: Seq<Result<(), StoreError>>| got.len() == keys.len()
                    && r@ == write_reports_of(keys@, got),
            r@ == seq![Err::<(), WorkerError>(WorkerError::NotPlain)] ==> final(self).txn_open()
                && !plain_in(final(self).open_txn(), final(self).table()->0),
            r@ == seq![Ok::<(), WorkerError>(())] ==> exists|m: Map<Seq<u8>, Seq<u8>>|
                final(self).contents() == apply_batch(m, keys@) && (old(self).txn_open() ==> m
                    == old(self).contents()),
    {
        let db = match self.db {
            Some(d) => d,
            None => return vec![Err(WorkerError::NoTable)],
        };
        let mut txn = match self.take_txn(env) {
            Ok(t) => t,
            Err(e) => return vec![Err(e)],
        };
        match txn_is_plain(&txn, db) {
            Ok(true) => {},
            Ok(false) => {
                self.txn = Some(txn);
                return vec![Err(WorkerError::NotPlain)];
            },
            Err(e) => {
                self.txn = Some(txn);
                return vec![Err(WorkerError::Table(e))];
            },
        }
        let mut got: Vec<Result<(), StoreError>> = Vec::new();
        let ghost start = txn_table(txn, db);
        let mut i: usize = 0;
        while i < keys.len()
            invariant
                plain_in(txn, db),
                0 <= i <= keys.len(),
                got.len() == i,
                (forall|j: int| 0 <= j < i ==> (#[trigger] write_error(keys@[j], got@[j])) is None)
                    ==> txn_table(txn, db) == apply_batch(start, keys@.subrange(0, i as int)),
            decreases keys.len() - i,
        {
            let kv = &keys[i];
            let ghost before = txn_table(txn, db);
            let ghost got_before = got@;
            let g = match &kv.value {
                Some(v) => txn_put(&mut txn, db, kv.key.as_slice(), v.as_slice()),
                None => txn_del(&mut txn, db, kv.key.as_slice()),
            };
            got.push(g);
            proof {
                assert(keys@.subrange(0, i + 1).drop_last() =~= keys@.subrange(0, i as int));
                if forall|j: int| 0 <= j < i + 1 ==> (#[trigger] write_error(keys@[j], got@[j])) is None {
                    assert forall|j: int| 0 <= j < i implies (#[trigger] write_error(keys@[j], got_before[j])) is None by {
                        assert(got_before[j] == got@[j]);
                        assert(write_error(keys@[j], got@[j]) is None);
                    }
                    assert(write_error(keys@[i as int], got@[i as int]) is None);
                    if kv.value is None && got@[i as int] matches Err(StoreError::NotFound) {
                        assert(before.remove(kv.key@) =~= before);
                    }
                    assert(keys@.subrange(0, i + 1).last() == keys@[i as int]);
                    assert(txn_table(txn, db) == write_one(before, keys@[i as int]));
                    assert(before == apply_batch(start, keys@.subrange(0, i as int)));
                }
            }
            i = i + 1;
        }
        self.txn = Some(txn);
        let reports = write_reports(keys, &got);
        proof {
            assert(keys@.subrange(0, keys.len() as int) =~= keys@);
            lemma_write_errors(keys@, got@);
            if reports@ == seq![Ok::<(), WorkerError>(())] {
                if write_errors(keys@, got@).len() != 0 {
                    assert(write_errors(keys@, got@)[0] is Err);
                }
                assert(self.contents() == apply_batch(start, keys@));
            }
        }
        reports
    }

    /// Applies the open transaction and closes it; with none open there is
    /// nothing to apply and the commit succeeds.
    pub fn commit(&mut self) -> (r: Result<(), WorkerError>)
        ensures
            !final(self).txn_open(),
            final(self).table() == old(self).table(),
            final(self).iterator() == old(self).iterator(),
            !old(self).txn_open() ==> r is Ok,
            old(self).txn_open() && r is Ok ==> committed(old(self).open_txn()),
            r matches Err(e) ==> e is Commit,
    {
        match self.txn.take() {
            Some(t) => match txn_commit(t) {
                Ok(()) => Ok(()),
                Err(e) => Err(WorkerError::Commit(e)),
            },
            None => Ok(()),
        }
    }

    /// Discards the open transaction, if any; always succeeds.
    pub fn rollback(&mut self) -> (r: Result<(), WorkerError>)
        ensures
            !final(self).txn_open(),
            final(self).table() == old(self).table(),
            final(self).iterator() == old(self).iterator(),
            r is Ok,
    {
        match self.txn.take() {
            Some(t) => txn_abort(t),
            None => {},
        }
        Ok(())
    }

    /// The number of entries that the store holds.
    pub fn table_size(&self, env: &'env Environment) -> (r: Result<usize, WorkerError>)
        ensures
            r matches Err(e) ==> e is Stat,
    {
        match stat_entries(env) {
            Ok(n) => Ok(n),
            Err(e) => Err(WorkerError::Stat(e)),
        }
    }

    /// A probe that only reports success.
    pub fn no_op(&self) -> (r: Result<(), WorkerError>)
        ensures
            r is Ok,
    {
        Ok(())
    }

    /// Starts a walk over the table from `start`, or from the end that the
    /// direction begins at, opening a transaction first if none is. An
    /// iterator that already exists is kept as it stands.
    pub fn create_iter(&mut self, env: &'env Environment, descending: bool, start: Option<Vec<u8>>) -> (r: Result<(), WorkerError>)
        ensures
            final(self).table() == old(self).table(),
            old(self).iterator() is Some ==> r is Ok && *final(self) == *old(self),
            old(self).iterator() is None && old(self).table() is None ==> r == Err::<(), WorkerError>(WorkerError::NoTable)
                && *final(self) == *old(self),
            old(self).iterator() is None ==> (r is Ok <==> final(self).iterator() is Some),
            old(self).iterator() is None && r is Ok ==> final(self).txn_open()
                && final(self).iterator() == Some(IterState { descending, pos: IterPos::Start(start) }),
            old(self).iterator() is None && old(self).table() is Some && old(self).txn_open() ==> r is Ok,
            r is Err ==> final(self).iterator() == old(self).iterator(),
            r matches Err(e) ==> (e is NoTable && old(self).table() is None) || (e is Begin && !old(self).txn_open()),
            old(self).txn_open() ==> final(self).txn_open() && final(self).contents() == old(self).contents(),
    {
        if self.iter.is_some() {
            return Ok(());
        }
        if self.db.is_none() {
            return Err(WorkerError::NoTable);
        }
        match self.ensure_txn(env) {
            Ok(()) => {},
            Err(e) => return Err(e),
        }
        self.iter = Some(IterState { descending, pos: IterPos::Start(start) });
        Ok(())
    }

    /// Moves the iterator one entry on, in key order or against it, and
    /// returns that entry, or `None` once no key is left in that direction.
    pub fn next_item(&mut self, env: &'env Environment) -> (r: Result<Option<(Vec<u8>, Vec<u8>)>, WorkerError>)
        ensures
            final(self).table() == old(self).table(),
            old(self).txn_open() ==> final(self).txn_open() && final(self).contents() == old(self).contents(),
            advanced(old(self).iterator(), final(self).iterator(), item_key(r)),
            old(self).iterator() is None ==> *final(self) == *old(self),
            old(self).iterator() matches Some(it) ==> match r {
                Ok(Some(e)) => final(self).contents().contains_key(e.0@) && final(self).contents()[e.0@] == e.1@
                    && walk_lands(final(self).contents(), it.descending, it.pos, Some(e.0@)),
                Ok(None) => walk_lands(final(self).contents(), it.descending, it.pos, None),
                Err(_) => true,
            },
            old(self).iterator() is Some && old(self).table() is Some && old(self).txn_open() ==> (r is Ok
                || r matches Err(WorkerError::Cursor(_)) || r matches Err(WorkerError::NotPlain)
                || r matches Err(WorkerError::Table(_))),
    {
        let (descending, done) = match &self.iter {
            None => return Err(WorkerError::IteratorNotInitialized),
            Some(it) => (it.descending, it.pos.is_done()),
        };
        if done {
            return Ok(None);
        }
        let db = match self.db {
            Some(d) => d,
            None => return Err(WorkerError::NoTable),
        };
        let txn = match self.take_txn(env) {
            Ok(t) => t,
            Err(e) => return Err(e),
        };
        let got: Result<Option<(Vec<u8>, Vec<u8>)>, WorkerError> = match txn_is_plain(&txn, db) {
            Ok(true) => match open_cursor(&txn, db) {
                Ok(mut cursor) => match &self.iter {
                    Some(it) => match step(&mut cursor, descending, &it.pos) {
                        Ok(e) => Ok(e),
                        Err(e) => Err(WorkerError::Cursor(e)),
                    },
                    None => Ok(None),
                },
                Err(e) => Err(WorkerError::Cursor(e)),
            },
            Ok(false) => Err(WorkerError::NotPlain),
            Err(e) => Err(WorkerError::Table(e)),
        };
        self.txn = Some(txn);
        match got {
            Ok(Some((k, v))) => {
                self.iter = Some(IterState { descending, pos: IterPos::After(slice_to_vec(k.as_slice())) });
                Ok(Some((k, v)))
            },
            Ok(None) => {
                self.iter = Some(IterState { descending, pos: IterPos::Done });
                Ok(None)
            },
            Err(e) => Err(e),
        }
    }

    /// Moves the iterator one entry on and returns that entry's key, or
    /// `None` once no key is left in that direction.
    pub fn next_key(&mut self, env: &'env Environment) -> (r: Result<Option<Vec<u8>>, WorkerError>)
        ensures
            final(self).table() == old(self).table(),
            old(self).txn_open() ==> final(self).txn_open() && final(self).contents() == old(self).contents(),
            advanced(old(self).iterator(), final(self).iterator(), key_only(r)),
            old(self).iterator() is None ==> *final(self) == *old(self),
            old(self).iterator() matches Some(it) ==> match r {
                Ok(Some(k)) => walk_lands(final(self).contents(), it.descending, it.pos, Some(k@)),
                Ok(None) => walk_lands(final(self).contents(), it.descending, it.pos, None),
                Err(_) => true,
            },
            old(self).iterator() is Some && old(self).table() is Some && old(self).txn_open() ==> (r is Ok
                || r matches Err(WorkerError::Cursor(_)) || r matches Err(WorkerError::NotPlain)
                || r matches Err(WorkerError::Table(_))),
    {
        match self.next_item(env) {
            Ok(Some((k, _))) => Ok(Some(k)),
            Ok(None) => Ok(None),
            Err(e) => Err(e),
        }
    }

    /// Takes the open transaction out of its slot, beginning one if none is
    /// open.
    fn take_txn(&mut self, env: &'env Environment) -> (r: Result<RwTransaction<'env>, WorkerError>)
        ensures
            final(self).table() == old(self).table(),
            final(self).iterator() == old(self).iterator(),
            !final(self).txn_open(),
            r matches Err(e) ==> e is Begin && !old(self).txn_open(),
            old(self).txn_open() ==> r == Ok::<RwTransaction<'env>, WorkerError>(old(self).open_txn()),
    {
        match self.txn.take() {
            Some(t) => Ok(t),
            None => match begin_rw_txn(env) {
                Ok(t) => Ok(t),
                Err(e) => Err(WorkerError::Begin(e)),
            },
        }
    }

    fn ensure_txn(&mut self, env: &'env Environment) -> (r: Result<(), WorkerError>)
        ensures
            final(self).table() == old(self).table(),
            final(self).iterator() == old(self).iterator(),
            r is Ok <==> final(self).txn_open(),
            r matches Err(e) ==> e is Begin,
            old(self).txn_open() ==> r is Ok && *final(self) == *old(self),
    {
        if self.txn.is_none() {
            match begin_rw_txn(env) {
                Ok(t) => {
                    self.txn = Some(t);
                    Ok(())
                },
                Err(e) => Err(WorkerError::Begin(e)),
            }
        } else {
            Ok(())
        }
    }
}

} // verus!
