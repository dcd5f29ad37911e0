use vstd::prelude::*;
use crate::store::StoreError;

verus! {

#[verifier::external_type_specification]
#[verifier::external_body]
#[verifier::reject_recursive_types(T)]
pub struct ExSender<T>(crossbeam_channel::Sender<T>);

/// A key of a table, with an optional value: `None` asks for a delete when
/// written and means "not found" when read back.
#[derive(Debug, Clone)]
pub struct Record {
    pub ware: String,
    pub tab: String,
    pub key: Vec<u8>,
    pub index: usize,
    pub value: Option<Vec<u8>>,
}

/// What a worker reports when an operation fails.
#[derive(Debug)]
pub enum WorkerError {
    /// No table was created or opened on this worker.
    NoTable,
    /// No iterator was created on this worker.
    IteratorNotInitialized,
    /// A transaction could not be started.
    Begin(StoreError),
    /// A point lookup failed for a reason other than a missing key.
    Internal(StoreError),
    /// An upsert failed.
    Insert(StoreError),
    /// A delete failed for a reason other than a missing key.
    Delete(StoreError),
    /// The commit failed.
    Commit(StoreError),
    /// A cursor could not be opened or moved.
    Cursor(StoreError),
    /// The statistics of the environment could not be read.
    Stat(StoreError),
    /// A table cannot be opened while a transaction is open.
    TxnOpen,
    /// The table was made with flags (duplicate keys, another key order) that
    /// writes and walks do not handle.
    NotPlain,
    /// The table could neither be opened nor created.
    Table(StoreError),
}

/// One request to a worker, with the channel its result goes back on.
pub enum LmdbMessage {
    CreateDb(String, crossbeam_channel::Sender<()>),
    Query(Vec<Record>, crossbeam_channel::Sender<Result<Vec<Record>, WorkerError>>),
    NextItem(crossbeam_channel::Sender<Result<Option<(Vec<u8>, Vec<u8>)>, WorkerError>>),
    NextKey(crossbeam_channel::Sender<Result<Option<Vec<u8>>, WorkerError>>),
    CreateItemIter(bool, Option<Vec<u8>>, crossbeam_channel::Sender<()>),
    CreateKeyIter(bool, Option<Vec<u8>>, crossbeam_channel::Sender<()>),
    Modify(Vec<Record>, crossbeam_channel::Sender<Result<(), WorkerError>>),
    Commit(crossbeam_channel::Sender<Result<(), WorkerError>>),
    Rollback(crossbeam_channel::Sender<Result<(), WorkerError>>),
    TableSize(crossbeam_channel::Sender<Result<usize, WorkerError>>),
    NoOp(crossbeam_channel::Sender<Result<(), WorkerError>>),
}

} // verus!
