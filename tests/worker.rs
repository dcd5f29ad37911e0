use lmdb::{Environment, EnvironmentFlags};
use lmdb_pool::message::{Record, WorkerError};
use lmdb_pool::store::StoreError;
use lmdb_pool::worker::{batch_outcome, lookup_outcome, write_reports, Worker};
use std::path::Path;
use std::time::{SystemTime, UNIX_EPOCH};

fn fresh_env(name: &str) -> Environment {
    let nanos = SystemTime::now().duration_since(UNIX_EPOCH).unwrap().as_nanos();
    let path = format!("/tmp/lmdb_pool_{}_{}.mdb", name, nanos);
    Environment::new()
        .set_flags(EnvironmentFlags::NO_SUB_DIR)
        .set_max_dbs(8)
        .open(Path::new(&path))
        .unwrap()
}

fn rec(key: &str, value: Option<&str>) -> Record {
    Record {
        ware: "ware".to_string(),
        tab: "t".to_string(),
        key: key.as_bytes().to_vec(),
        index: 0,
        value: value.map(|v| v.as_bytes().to_vec()),
    }
}

fn lookup<'a>(w: &mut Worker<'a>, env: &'a Environment, key: &str) -> Option<Vec<u8>> {
    let r = w.query(env, &vec![rec(key, None)]).unwrap();
    assert_eq!(r.len(), 1);
    assert_eq!(r[0].key, key.as_bytes().to_vec());
    r[0].value.clone()
}

fn write<'a>(w: &mut Worker<'a>, env: &'a Environment, pairs: &[(&str, &str)]) {
    let batch: Vec<Record> = pairs.iter().map(|(k, v)| rec(k, Some(v))).collect();
    let r = w.modify(env, &batch);
    assert_eq!(r.len(), 1);
    assert!(r[0].is_ok());
}

fn table<'a>(w: &mut Worker<'a>, env: &'a Environment) {
    assert!(w.create_db(env, &"t".to_string()).is_ok());
}

#[test]
fn query_of_unwritten_key_is_not_found() {
    let env = fresh_env("unwritten");
    let mut w = Worker::new();
    table(&mut w, &env);
    let r = w.query(&env, &vec![rec("a", None), rec("b", None)]).unwrap();
    assert_eq!(r.len(), 2);
    assert!(r[0].value.is_none());
    assert!(r[1].value.is_none());
    assert_eq!(r[1].key, b"b".to_vec());
    assert_eq!(r[1].tab, "t");
}

#[test]
fn reads_see_own_uncommitted_writes() {
    let env = fresh_env("own_writes");
    let mut w = Worker::new();
    table(&mut w, &env);
    write(&mut w, &env, &[("k1", "v1"), ("k2", "v2")]);
    assert_eq!(lookup(&mut w, &env, "k1"), Some(b"v1".to_vec()));
    assert_eq!(lookup(&mut w, &env, "k2"), Some(b"v2".to_vec()));
    assert!(w.rollback().is_ok());
}

#[test]
fn rollback_discards_writes() {
    let env = fresh_env("rollback");
    let mut a = Worker::new();
    let mut b = Worker::new();
    table(&mut a, &env);
    table(&mut b, &env);
    write(&mut a, &env, &[("k1", "v1")]);
    assert!(a.commit().is_ok());
    write(&mut a, &env, &[("k1", "changed"), ("k2", "v2")]);
    assert!(a.rollback().is_ok());
    assert_eq!(lookup(&mut a, &env, "k1"), Some(b"v1".to_vec()));
    assert_eq!(lookup(&mut a, &env, "k2"), None);
    assert!(a.rollback().is_ok());
    assert_eq!(lookup(&mut b, &env, "k2"), None);
    assert!(b.rollback().is_ok());
}

#[test]
fn commit_makes_writes_visible() {
    let env = fresh_env("commit");
    let mut a = Worker::new();
    let mut b = Worker::new();
    table(&mut a, &env);
    table(&mut b, &env);
    write(&mut a, &env, &[("k1", "v1"), ("k2", "v2")]);
    let del = a.modify(&env, &vec![rec("k2", None)]);
    assert!(del.len() == 1 && del[0].is_ok());
    assert!(a.commit().is_ok());
    assert_eq!(lookup(&mut b, &env, "k1"), Some(b"v1".to_vec()));
    assert_eq!(lookup(&mut b, &env, "k2"), None);
    assert!(b.commit().is_ok());
}

#[test]
fn delete_of_absent_key_succeeds() {
    let env = fresh_env("delete_absent");
    let mut w = Worker::new();
    table(&mut w, &env);
    let r = w.modify(&env, &vec![rec("never", None)]);
    assert_eq!(r.len(), 1);
    assert!(r[0].is_ok());
    assert!(w.commit().is_ok());
}

#[test]
fn second_create_keeps_iterator_position() {
    let env = fresh_env("iter_twice");
    let mut w = Worker::new();
    table(&mut w, &env);
    write(&mut w, &env, &[("a", "1"), ("b", "2"), ("c", "3")]);
    assert!(w.create_iter(&env, false, None).is_ok());
    assert_eq!(w.next_key(&env).unwrap(), Some(b"a".to_vec()));
    assert!(w.create_iter(&env, true, Some(b"c".to_vec())).is_ok());
    assert_eq!(w.next_key(&env).unwrap(), Some(b"b".to_vec()));
    assert!(w.rollback().is_ok());
}

#[test]
fn exhausted_iterator_keeps_reporting_end() {
    let env = fresh_env("iter_end");
    let mut w = Worker::new();
    table(&mut w, &env);
    write(&mut w, &env, &[("a", "1")]);
    assert!(w.create_iter(&env, false, None).is_ok());
    assert_eq!(w.next_item(&env).unwrap(), Some((b"a".to_vec(), b"1".to_vec())));
    assert_eq!(w.next_item(&env).unwrap(), None);
    assert_eq!(w.next_item(&env).unwrap(), None);
    assert_eq!(w.next_key(&env).unwrap(), None);
    assert!(w.rollback().is_ok());
}

#[test]
fn descending_iteration_from_key() {
    let env = fresh_env("iter_desc");
    let mut w = Worker::new();
    table(&mut w, &env);
    write(&mut w, &env, &[("a", "1"), ("b", "2"), ("d", "4")]);
    assert!(w.create_iter(&env, true, Some(b"c".to_vec())).is_ok());
    assert_eq!(w.next_item(&env).unwrap(), Some((b"b".to_vec(), b"2".to_vec())));
    assert_eq!(w.next_item(&env).unwrap(), Some((b"a".to_vec(), b"1".to_vec())));
    assert_eq!(w.next_item(&env).unwrap(), None);
    assert!(w.rollback().is_ok());
}

#[test]
fn ascending_iteration_from_key() {
    let env = fresh_env("iter_asc");
    let mut w = Worker::new();
    table(&mut w, &env);
    write(&mut w, &env, &[("a", "1"), ("b", "2"), ("d", "4")]);
    assert!(w.create_iter(&env, false, Some(b"b".to_vec())).is_ok());
    assert_eq!(w.next_key(&env).unwrap(), Some(b"b".to_vec()));
    assert_eq!(w.next_key(&env).unwrap(), Some(b"d".to_vec()));
    assert_eq!(w.next_key(&env).unwrap(), None);
    assert!(w.rollback().is_ok());
}

#[test]
fn whole_table_descending() {
    let env = fresh_env("iter_all_desc");
    let mut w = Worker::new();
    table(&mut w, &env);
    write(&mut w, &env, &[("a", "1"), ("b", "2")]);
    assert!(w.create_iter(&env, true, None).is_ok());
    assert_eq!(w.next_key(&env).unwrap(), Some(b"b".to_vec()));
    assert_eq!(w.next_key(&env).unwrap(), Some(b"a".to_vec()));
    assert_eq!(w.next_key(&env).unwrap(), None);
    assert!(w.rollback().is_ok());
}

#[test]
fn next_without_iterator_is_an_error() {
    let env = fresh_env("no_iter");
    let mut w = Worker::new();
    table(&mut w, &env);
    assert!(matches!(w.next_item(&env), Err(WorkerError::IteratorNotInitialized)));
    assert!(matches!(w.next_key(&env), Err(WorkerError::IteratorNotInitialized)));
}

#[test]
fn operations_without_table_report_no_table() {
    let env = fresh_env("no_table");
    let mut w = Worker::new();
    assert!(matches!(w.query(&env, &vec![rec("a", None)]), Err(WorkerError::NoTable)));
    let r = w.modify(&env, &vec![rec("a", Some("1"))]);
    assert_eq!(r.len(), 1);
    assert!(matches!(r[0], Err(WorkerError::NoTable)));
    assert!(matches!(w.create_iter(&env, false, None), Err(WorkerError::NoTable)));
}

#[test]
fn commit_and_rollback_without_transaction_succeed() {
    let env = fresh_env("empty_end");
    let mut w = Worker::new();
    table(&mut w, &env);
    assert!(w.commit().is_ok());
    assert!(w.rollback().is_ok());
    assert!(w.no_op().is_ok());
}

#[test]
fn table_size_counts_entries() {
    let env = fresh_env("size");
    let mut w = Worker::new();
    assert_eq!(w.table_size(&env).unwrap(), 0);
    table(&mut w, &env);
    assert_eq!(w.table_size(&env).unwrap(), 1);
}

#[test]
fn scenario_commit_then_requery() {
    let env = fresh_env("scenario_commit");
    let mut a = Worker::new();
    let mut b = Worker::new();
    table(&mut a, &env);
    table(&mut b, &env);
    write(&mut a, &env, &[("k1", "v1")]);
    assert!(a.commit().is_ok());
    assert_eq!(lookup(&mut a, &env, "k1"), Some(b"v1".to_vec()));
    assert_eq!(lookup(&mut a, &env, "k2"), None);
    assert!(a.commit().is_ok());
    assert_eq!(lookup(&mut b, &env, "k1"), Some(b"v1".to_vec()));
    assert_eq!(lookup(&mut b, &env, "k2"), None);
    assert!(b.commit().is_ok());
}

#[test]
fn scenario_iterate_uncommitted_then_rollback() {
    let env = fresh_env("scenario_iter");
    let mut w = Worker::new();
    table(&mut w, &env);
    write(&mut w, &env, &[("k1", "v1")]);
    assert!(w.create_iter(&env, false, None).is_ok());
    assert_eq!(w.next_item(&env).unwrap(), Some((b"k1".to_vec(), b"v1".to_vec())));
    assert!(w.rollback().is_ok());
    assert_eq!(lookup(&mut w, &env, "k1"), None);
    assert!(w.rollback().is_ok());
}

#[test]
fn lookup_outcome_maps_each_result() {
    let kv = rec("k", None);
    let found = lookup_outcome(&kv, Ok(b"v".to_vec())).unwrap();
    assert_eq!(found.value, Some(b"v".to_vec()));
    assert_eq!(found.key, b"k".to_vec());
    let missing = lookup_outcome(&kv, Err(StoreError::NotFound)).unwrap();
    assert!(missing.value.is_none());
    let failed = lookup_outcome(&kv, Err(StoreError::Other("boom".to_string())));
    assert!(matches!(failed, Err(WorkerError::Internal(StoreError::Other(ref m))) if m == "boom"));
}

#[test]
fn write_reports_list_each_failure_in_order() {
    let keys = vec![rec("a", Some("1")), rec("b", None), rec("c", None), rec("d", Some("4"))];
    let ok = write_reports(&keys, &vec![Ok(()), Err(StoreError::NotFound), Ok(()), Ok(())]);
    assert_eq!(ok.len(), 1);
    assert!(ok[0].is_ok());
    let bad = write_reports(
        &keys,
        &vec![
            Err(StoreError::Other("full".to_string())),
            Err(StoreError::NotFound),
            Err(StoreError::Other("gone".to_string())),
            Ok(()),
        ],
    );
    assert_eq!(bad.len(), 2);
    assert!(matches!(bad[0], Err(WorkerError::Insert(StoreError::Other(ref m))) if m == "full"));
    assert!(matches!(bad[1], Err(WorkerError::Delete(StoreError::Other(ref m))) if m == "gone"));
}

#[test]
fn table_with_duplicate_keys_refuses_writes_and_walks() {
    let env = fresh_env("dup_table");
    env.create_db(Some("d"), lmdb::DatabaseFlags::DUP_SORT).unwrap();
    let mut w = Worker::new();
    assert!(w.create_db(&env, &"d".to_string()).is_ok());
    let r = w.modify(&env, &vec![rec("a", Some("1"))]);
    assert_eq!(r.len(), 1);
    assert!(matches!(r[0], Err(WorkerError::NotPlain)));
    assert!(w.create_iter(&env, false, None).is_ok());
    assert!(matches!(w.next_item(&env), Err(WorkerError::NotPlain)));
    assert_eq!(lookup(&mut w, &env, "a"), None);
    assert!(w.rollback().is_ok());
}

#[test]
fn table_cannot_be_opened_inside_a_transaction() {
    let env = fresh_env("busy_table");
    let mut w = Worker::new();
    table(&mut w, &env);
    write(&mut w, &env, &[("a", "1")]);
    assert!(matches!(w.create_db(&env, &"u".to_string()), Err(WorkerError::TxnOpen)));
    assert_eq!(lookup(&mut w, &env, "a"), Some(b"1".to_vec()));
    assert!(w.rollback().is_ok());
    assert!(w.create_db(&env, &"u".to_string()).is_ok());
}

#[test]
fn ascending_walk_skips_to_next_key_after_prefix() {
    let env = fresh_env("iter_prefix");
    let mut w = Worker::new();
    table(&mut w, &env);
    write(&mut w, &env, &[("a", "1"), ("ab", "2"), ("b", "3")]);
    assert!(w.create_iter(&env, false, Some(b"a".to_vec())).is_ok());
    assert_eq!(w.next_key(&env).unwrap(), Some(b"a".to_vec()));
    assert_eq!(w.next_key(&env).unwrap(), Some(b"ab".to_vec()));
    assert_eq!(w.next_key(&env).unwrap(), Some(b"b".to_vec()));
    assert_eq!(w.next_key(&env).unwrap(), None);
    assert!(w.rollback().is_ok());
}

#[test]
fn descending_walk_from_present_key_includes_it() {
    let env = fresh_env("iter_desc_present");
    let mut w = Worker::new();
    table(&mut w, &env);
    write(&mut w, &env, &[("a", "1"), ("b", "2"), ("c", "3")]);
    assert!(w.create_iter(&env, true, Some(b"b".to_vec())).is_ok());
    assert_eq!(w.next_key(&env).unwrap(), Some(b"b".to_vec()));
    assert_eq!(w.next_key(&env).unwrap(), Some(b"a".to_vec()));
    assert_eq!(w.next_key(&env).unwrap(), None);
    assert!(w.rollback().is_ok());
}

#[test]
fn walk_over_empty_table_ends_at_once() {
    let env = fresh_env("iter_empty");
    let mut w = Worker::new();
    table(&mut w, &env);
    assert!(w.create_iter(&env, true, None).is_ok());
    assert_eq!(w.next_item(&env).unwrap(), None);
    assert_eq!(w.next_item(&env).unwrap(), None);
    assert!(w.rollback().is_ok());
}

#[test]
fn batch_outcome_keeps_first_failure_alone() {
    let keys = vec![rec("a", None), rec("b", None), rec("c", None)];
    let all = batch_outcome(&keys, &vec![Ok(b"1".to_vec()), Err(StoreError::NotFound), Ok(b"3".to_vec())]).unwrap();
    assert_eq!(all.len(), 3);
    assert_eq!(all[0].value, Some(b"1".to_vec()));
    assert!(all[1].value.is_none());
    assert_eq!(all[2].key, b"c".to_vec());
    let failed = batch_outcome(
        &keys,
        &vec![
            Ok(b"1".to_vec()),
            Err(StoreError::Other("first".to_string())),
            Err(StoreError::Other("second".to_string())),
        ],
    );
    assert!(matches!(failed, Err(WorkerError::Internal(StoreError::Other(ref m))) if m == "first"));
}
