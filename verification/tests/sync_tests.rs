//! Synchronization between a local store and a remote log.

use tolstoy::errors::TolstoyError;
use tolstoy::facts::{Identifier, Tx, TxPart, TypedValue, DB_TX_INSTANT};
use tolstoy::ids::Uuid;
use tolstoy::log::GlobalTransactionLog;
use tolstoy::memory_log::MemoryLog;
use tolstoy::remap::{
    check_metadata, remap_transaction, IdAllocator, RemapTable, SequentialAllocator,
};
use tolstoy::store::{LocalPart, LocalStore, LocalTx, MemoryStore};
use tolstoy::sync::{
    applied_or_unfinished, apply_transactions, push_transaction, push_transactions, sync,
};

fn id(n: u128) -> Uuid {
    Uuid::from_u128(n)
}

fn instant(at: i64) -> TxPart {
    TxPart { e: Identifier::Temp(0), a: DB_TX_INSTANT, v: TypedValue::Instant(at), added: true }
}

fn fact(e: Identifier, a: i64, v: TypedValue) -> TxPart {
    TxPart { e, a, v, added: true }
}

fn knows(a: i64, b: i64) -> TxPart {
    fact(Identifier::Temp(a), 200, TypedValue::Ref(Identifier::Temp(b)))
}

/// The remote log of the scenario: A follows nil, B follows A.
fn remote_with_a_and_b() -> MemoryLog {
    let mut log = MemoryLog::new();
    log.put_chunk(&id(0xa1), &instant(1000)).unwrap();
    log.put_chunk(&id(0xa2), &knows(1, 2)).unwrap();
    log.put_transaction(&id(0xa), &Uuid::nil(), &vec![id(0xa1), id(0xa2)]).unwrap();
    log.put_chunk(&id(0xb1), &instant(2000)).unwrap();
    log.put_chunk(&id(0xb2), &knows(2, 2)).unwrap();
    log.put_transaction(&id(0xb), &id(0xa), &vec![id(0xb1), id(0xb2)]).unwrap();
    log.set_head(&id(0xb)).unwrap();
    log
}

fn local(uuid: Option<Uuid>, parts: Vec<(u128, TxPart)>) -> LocalTx {
    LocalTx {
        uuid,
        parts: parts.into_iter().map(|(c, part)| LocalPart { chunk: id(c), part }).collect(),
    }
}

/// A log that counts the writes that reach it.
struct CountingLog {
    inner: MemoryLog,
    chunk_writes: Vec<Uuid>,
    header_writes: Vec<Uuid>,
    head_writes: Vec<Uuid>,
    fail_chunk_write_at: Option<usize>,
    fail_head_write: bool,
}

impl CountingLog {
    fn over(inner: MemoryLog) -> CountingLog {
        CountingLog {
            inner,
            chunk_writes: vec![],
            header_writes: vec![],
            head_writes: vec![],
            fail_chunk_write_at: None,
            fail_head_write: false,
        }
    }
}

impl GlobalTransactionLog for CountingLog {
    fn head(&self) -> Result<Uuid, TolstoyError> {
        self.inner.head()
    }

    fn set_head(&mut self, uuid: &Uuid) -> Result<(), TolstoyError> {
        if self.fail_head_write {
            return Err(TolstoyError::NetworkError("head write lost".to_string()));
        }
        self.head_writes.push(*uuid);
        self.inner.set_head(uuid)
    }

    fn transactions_after(&self, tx: &Uuid) -> Result<Vec<Tx>, TolstoyError> {
        self.inner.transactions_after(tx)
    }

    fn put_transaction(
        &mut self,
        transaction_uuid: &Uuid,
        parent_uuid: &Uuid,
        chunks: &Vec<Uuid>,
    ) -> Result<(), TolstoyError> {
        self.header_writes.push(*transaction_uuid);
        self.inner.put_transaction(transaction_uuid, parent_uuid, chunks)
    }

    fn put_chunk(&mut self, chunk_uuid: &Uuid, payload: &TxPart) -> Result<(), TolstoyError> {
        if self.fail_chunk_write_at == Some(self.chunk_writes.len()) {
            return Err(TolstoyError::NetworkError("chunk write lost".to_string()));
        }
        self.chunk_writes.push(*chunk_uuid);
        self.inner.put_chunk(chunk_uuid, payload)
    }
}

/// A store that fails or stalls at a chosen transaction.
struct FussyStore {
    inner: MemoryStore,
    fail_at: Option<usize>,
    stall_at: Option<usize>,
    head_moves: Vec<Uuid>,
}

impl FussyStore {
    fn new() -> FussyStore {
        FussyStore { inner: MemoryStore::new(), fail_at: None, stall_at: None, head_moves: vec![] }
    }
}

impl LocalStore for FussyStore {
    fn current_local_head(&self) -> Uuid {
        self.inner.current_local_head()
    }

    fn advance_local_head(&mut self, uuid: &Uuid) {
        self.head_moves.push(*uuid);
        self.inner.advance_local_head(uuid)
    }

    fn apply(&mut self, facts: &Vec<TxPart>) -> Result<bool, TolstoyError> {
        if self.fail_at == Some(self.inner.applied_len()) {
            return Err(TolstoyError::DbError("disk full".to_string()));
        }
        if self.stall_at == Some(self.inner.applied_len()) {
            return Ok(false);
        }
        self.inner.apply(facts)
    }

    fn local_transactions_since(&self, uuid: &Uuid) -> Vec<LocalTx> {
        self.inner.local_transactions_since(uuid)
    }
}

#[test]
fn pull_applies_a_then_b_and_head_is_b() {
    let mut remote = remote_with_a_and_b();
    let mut store = MemoryStore::new();
    let mut ids = SequentialAllocator::starting_at(65536);

    let pulled = remote.transactions_after(&store.current_local_head()).unwrap();
    assert_eq!(pulled.iter().map(|tx| tx.tx).collect::<Vec<_>>(), vec![id(0xa), id(0xb)]);

    let report = sync(&mut remote, &mut store, &mut ids).unwrap();
    assert_eq!(report.pulled, vec![id(0xa), id(0xb)]);
    assert!(report.pushed.is_empty());
    assert_eq!(store.current_local_head(), id(0xb));
    assert_eq!(store.applied_len(), 2);
    assert_eq!(remote.head().unwrap(), id(0xb));
}

#[test]
fn applied_facts_are_remapped_per_transaction() {
    let mut remote = remote_with_a_and_b();
    let mut store = MemoryStore::new();
    let mut ids = SequentialAllocator::starting_at(65536);
    sync(&mut remote, &mut store, &mut ids).unwrap();

    // A: the instant names the temporary 0, the fact names 1 and 2.
    let a = store.applied_at(0).unwrap();
    assert!(a[0].same_as(&TxPart { e: Identifier::Stable(65536), ..instant(1000) }));
    assert!(a[1].same_as(&fact(
        Identifier::Stable(65537),
        200,
        TypedValue::Ref(Identifier::Stable(65538))
    )));
    // B has a table of its own: 0 and 2 are seen for the first time again.
    let b = store.applied_at(1).unwrap();
    assert!(b[0].same_as(&TxPart { e: Identifier::Stable(65539), ..instant(2000) }));
    assert!(b[1].same_as(&fact(
        Identifier::Stable(65540),
        200,
        TypedValue::Ref(Identifier::Stable(65540))
    )));
    assert!(store.applied_at(2).is_none());
}

#[test]
fn sync_of_an_empty_remote_changes_nothing() {
    let mut remote = MemoryLog::new();
    let mut store = MemoryStore::new();
    let mut ids = SequentialAllocator::starting_at(1);
    let report = sync(&mut remote, &mut store, &mut ids).unwrap();
    assert!(report.pulled.is_empty());
    assert!(report.pushed.is_empty());
    assert_eq!(store.current_local_head(), Uuid::nil());
    assert_eq!(remote.head().unwrap(), Uuid::nil());
}

#[test]
fn second_sync_pulls_nothing_and_keeps_the_head() {
    let mut remote = remote_with_a_and_b();
    let mut store = MemoryStore::new();
    let mut ids = SequentialAllocator::starting_at(1);
    sync(&mut remote, &mut store, &mut ids).unwrap();
    let again = sync(&mut remote, &mut store, &mut ids).unwrap();
    assert!(again.pulled.is_empty());
    assert_eq!(store.current_local_head(), id(0xb));
    assert_eq!(store.applied_len(), 2);
}

#[test]
fn sync_from_an_unknown_local_head_fails_and_changes_nothing() {
    let mut remote = remote_with_a_and_b();
    let mut store = MemoryStore::new();
    store.advance_local_head(&id(0x77));
    let mut ids = SequentialAllocator::starting_at(1);
    let failed = sync(&mut remote, &mut store, &mut ids);
    assert!(matches!(failed, Err(TolstoyError::BadRemoteState(_))));
    assert_eq!(store.current_local_head(), id(0x77));
    assert_eq!(store.applied_len(), 0);
}

#[test]
fn failure_in_apply_leaves_head_at_last_applied_and_pushes_nothing() {
    let mut remote = CountingLog::over(remote_with_a_and_b());
    let mut store = FussyStore::new();
    store.fail_at = Some(1);
    store.inner.add_local_transaction(local(Some(id(0xc)), vec![(0xc1, instant(3000))]));
    let mut ids = SequentialAllocator::starting_at(1);

    let failed = sync(&mut remote, &mut store, &mut ids);
    assert!(matches!(failed, Err(TolstoyError::DbError(_))));
    assert_eq!(store.current_local_head(), id(0xa));
    assert_eq!(store.head_moves, vec![id(0xa)]);
    assert_eq!(store.inner.applied_len(), 1);
    assert!(remote.chunk_writes.is_empty());
    assert!(remote.header_writes.is_empty());
    assert!(remote.head_writes.is_empty());
}

#[test]
fn store_that_does_not_finish_is_tx_processor_unfinished() {
    let mut remote = remote_with_a_and_b();
    let mut store = FussyStore::new();
    store.stall_at = Some(0);
    let mut ids = SequentialAllocator::starting_at(1);
    let failed = sync(&mut remote, &mut store, &mut ids);
    assert!(matches!(failed, Err(TolstoyError::TxProcessorUnfinished)));
    assert_eq!(store.current_local_head(), Uuid::nil());
    assert!(store.head_moves.is_empty());
}

#[test]
fn metadata_must_hold_one_instant() {
    assert!(check_metadata(&vec![instant(1), knows(1, 2)]).is_ok());
    assert!(matches!(
        check_metadata(&vec![instant(1), knows(1, 2), instant(2)]),
        Err(TolstoyError::DuplicateMetadata(_))
    ));
    assert!(matches!(check_metadata(&vec![knows(1, 2)]), Err(TolstoyError::BadRemoteState(_))));
    assert!(matches!(check_metadata(&vec![]), Err(TolstoyError::BadRemoteState(_))));
    let retracted = TxPart { added: false, ..instant(1) };
    assert!(check_metadata(&vec![retracted, instant(2)]).is_ok());
}

#[test]
fn transaction_with_two_instants_is_not_applied() {
    let mut store = MemoryStore::new();
    let mut ids = SequentialAllocator::starting_at(1);
    let txs = vec![
        Tx { tx: id(1), parent: Uuid::nil(), parts: vec![instant(1)] },
        Tx { tx: id(2), parent: id(1), parts: vec![instant(2), instant(3)] },
        Tx { tx: id(3), parent: id(2), parts: vec![instant(4)] },
    ];
    let failed = apply_transactions(&mut store, &mut ids, &txs);
    assert!(matches!(failed, Err(TolstoyError::DuplicateMetadata(_))));
    assert_eq!(store.current_local_head(), id(1));
    assert_eq!(store.applied_len(), 1);
}

#[test]
fn temporary_identifier_resolves_to_one_stable_identifier() {
    let parts = vec![
        instant(1),
        knows(1, 2),
        knows(2, 1),
        fact(Identifier::Stable(500), 200, TypedValue::Ref(Identifier::Temp(1))),
        fact(Identifier::Temp(3), 100, TypedValue::Long(9)),
    ];
    let mut ids = SequentialAllocator::starting_at(1000);
    let (facts, table) = remap_transaction(&parts, &mut ids).unwrap();
    assert_eq!(table.entries, vec![(0, 1000), (1, 1001), (2, 1002), (3, 1003)]);
    assert_eq!(facts.len(), 5);
    assert!(facts[1].same_as(&fact(
        Identifier::Stable(1001),
        200,
        TypedValue::Ref(Identifier::Stable(1002))
    )));
    assert!(facts[2].same_as(&fact(
        Identifier::Stable(1002),
        200,
        TypedValue::Ref(Identifier::Stable(1001))
    )));
    assert!(facts[3].same_as(&fact(
        Identifier::Stable(500),
        200,
        TypedValue::Ref(Identifier::Stable(1001))
    )));
    assert!(facts[4].same_as(&fact(Identifier::Stable(1003), 100, TypedValue::Long(9))));

    // Applying the same transaction again allocates anew, and again one
    // stable identifier for each temporary one.
    let (replayed, again) = remap_transaction(&parts, &mut ids).unwrap();
    assert_eq!(again.entries, vec![(0, 1004), (1, 1005), (2, 1006), (3, 1007)]);
    assert!(replayed[1].same_as(&fact(
        Identifier::Stable(1005),
        200,
        TypedValue::Ref(Identifier::Stable(1006))
    )));
}

#[test]
fn facts_without_temporary_identifiers_allocate_nothing() {
    let parts = vec![fact(Identifier::Stable(1), 100, TypedValue::Ref(Identifier::Stable(2)))];
    let mut ids = SequentialAllocator::starting_at(i64::MAX);
    let (facts, table) = remap_transaction(&parts, &mut ids).unwrap();
    assert!(table.entries.is_empty());
    assert!(facts[0].same_as(&parts[0]));
}

#[test]
fn exhausted_allocator_fails_the_remapping() {
    let mut ids = SequentialAllocator::starting_at(i64::MAX - 1);
    assert_eq!(ids.allocate_stable_id().unwrap(), i64::MAX - 1);
    assert!(matches!(ids.allocate_stable_id(), Err(TolstoyError::DbError(_))));
    assert!(matches!(
        remap_transaction(&vec![knows(1, 2)], &mut ids),
        Err(TolstoyError::DbError(_))
    ));
}

#[test]
fn table_with_two_mappings_for_one_temporary_is_incorrectly_mapped() {
    let mut table = RemapTable { entries: vec![(1, 10), (2, 20), (1, 11)] };
    let mut ids = SequentialAllocator::starting_at(100);
    assert!(matches!(table.lookup(1), Err(TolstoyError::TxIncorrectlyMapped(2))));
    assert!(matches!(table.lookup(2), Ok(Some(20))));
    assert!(matches!(table.lookup(3), Ok(None)));
    assert!(matches!(table.stable_for(1), Err(TolstoyError::TxIncorrectlyMapped(2))));
    assert!(matches!(table.stable_for(2), Ok(20)));
    assert!(matches!(table.stable_for(3), Err(TolstoyError::TxIncorrectlyMapped(0))));
    assert!(matches!(
        table.resolve(Identifier::Temp(1), &mut ids),
        Err(TolstoyError::TxIncorrectlyMapped(2))
    ));
    assert!(matches!(table.resolve(Identifier::Temp(2), &mut ids), Ok(20)));
    assert!(matches!(table.resolve(Identifier::Stable(5), &mut ids), Ok(5)));
    assert_eq!(table.entries.len(), 3);
    assert!(matches!(table.resolve(Identifier::Temp(3), &mut ids), Ok(100)));
    assert_eq!(table.entries.last(), Some(&(3, 100)));
    assert!(matches!(table.resolve(Identifier::Temp(3), &mut ids), Ok(100)));
    assert_eq!(table.entries.len(), 4);
}

#[test]
fn fresh_table_remaps_one_fact() {
    let mut table = RemapTable::new();
    let mut ids = SequentialAllocator::starting_at(7);
    let fact = table.remap(&knows(4, 4), &mut ids).unwrap();
    assert!(fact.same_as(&TxPart {
        e: Identifier::Stable(7),
        a: 200,
        v: TypedValue::Ref(Identifier::Stable(7)),
        added: true,
    }));
    assert_eq!(table.entries, vec![(4, 7)]);
}

#[test]
fn push_uploads_shared_chunk_once_and_can_be_repeated() {
    let k = 0x5;
    let shared = fact(Identifier::Stable(1), 100, TypedValue::Long(1));
    let c = local(
        Some(id(0xc)),
        vec![(0xc1, instant(3000)), (k, shared.clone()), (k, shared.clone())],
    );
    let mut remote = CountingLog::over(MemoryLog::new());

    let pushed = push_transactions(&mut remote, &Uuid::nil(), &vec![c.clone()]).unwrap();
    assert_eq!(pushed, vec![id(0xc)]);
    assert_eq!(remote.chunk_writes, vec![id(0xc1), id(k)]);
    assert_eq!(remote.header_writes, vec![id(0xc)]);
    assert_eq!(remote.head_writes, vec![id(0xc)]);
    let header = remote.inner.transaction_header(&id(0xc)).unwrap();
    assert_eq!(header.parent, Uuid::nil());
    assert_eq!(header.chunks, vec![id(0xc1), id(k), id(k)]);
    assert_eq!(remote.head().unwrap(), id(0xc));

    // After a crash and restart the same push is made again.
    let again = push_transactions(&mut remote, &Uuid::nil(), &vec![c]).unwrap();
    assert_eq!(again, vec![id(0xc)]);
    assert_eq!(remote.chunk_writes, vec![id(0xc1), id(k), id(0xc1), id(k)]);
    assert_eq!(remote.header_writes, vec![id(0xc), id(0xc)]);
    assert_eq!(remote.inner.transaction_ids_after(&Uuid::nil()).unwrap(), vec![id(0xc)]);
    assert!(remote.inner.chunk(&id(k)).unwrap().same_as(&shared));
}

#[test]
fn pushed_transactions_form_a_chain_from_the_remote_head() {
    let mut remote = remote_with_a_and_b();
    let mut store = MemoryStore::new();
    store.advance_local_head(&id(0xb));
    store.add_local_transaction(local(Some(id(0xc)), vec![(0xc1, instant(3000))]));
    store.add_local_transaction(local(None, vec![(0xd1, instant(4000)), (0xd2, knows(1, 2))]));
    let mut ids = SequentialAllocator::starting_at(1);

    let report = sync(&mut remote, &mut store, &mut ids).unwrap();
    assert!(report.pulled.is_empty());
    assert_eq!(report.pushed.len(), 2);
    assert_eq!(report.pushed[0], id(0xc));
    let fresh = report.pushed[1];
    assert!(!fresh.is_nil());
    assert_eq!(store.current_local_head(), id(0xb));
    assert_eq!(remote.head().unwrap(), fresh);

    let all = remote.transactions_after(&Uuid::nil()).unwrap();
    assert_eq!(
        all.iter().map(|tx| (tx.tx, tx.parent)).collect::<Vec<_>>(),
        vec![
            (id(0xa), Uuid::nil()),
            (id(0xb), id(0xa)),
            (id(0xc), id(0xb)),
            (fresh, id(0xc)),
        ]
    );
    assert!(all[3].parts[1].same_as(&knows(1, 2)));
}

#[test]
fn failed_chunk_write_ends_the_push_and_keeps_the_prefix() {
    let first = local(Some(id(0xc)), vec![(0xc1, instant(3000))]);
    let second = local(Some(id(0xd)), vec![(0xd1, instant(4000)), (0xd2, knows(1, 2))]);
    let mut remote = CountingLog::over(MemoryLog::new());
    remote.fail_chunk_write_at = Some(2);

    let failed = push_transactions(&mut remote, &Uuid::nil(), &vec![first, second]);
    assert!(matches!(failed, Err(TolstoyError::NetworkError(_))));
    assert_eq!(remote.header_writes, vec![id(0xc)]);
    assert_eq!(remote.head().unwrap(), id(0xc));
    assert_eq!(remote.inner.transaction_ids_after(&Uuid::nil()).unwrap(), vec![id(0xc)]);
    assert!(remote.inner.chunk(&id(0xd1)).is_some());
    assert!(remote.inner.chunk(&id(0xd2)).is_none());
}

#[test]
fn failed_head_write_leaves_the_head_where_it_was() {
    let mut remote = CountingLog::over(MemoryLog::new());
    remote.fail_head_write = true;
    let failed =
        push_transaction(&mut remote, &id(0xc), &Uuid::nil(), &vec![LocalPart {
            chunk: id(0xc1),
            part: instant(1),
        }]);
    assert!(matches!(failed, Err(TolstoyError::NetworkError(_))));
    assert_eq!(remote.head().unwrap(), Uuid::nil());
    assert!(remote.inner.transaction_header(&id(0xc)).is_some());
}

#[test]
fn chunk_with_other_content_ends_the_push() {
    let mut remote = MemoryLog::new();
    remote.put_chunk(&id(0xc1), &instant(1)).unwrap();
    let tx = local(Some(id(0xc)), vec![(0xc1, instant(2))]);
    let failed = push_transactions(&mut remote, &Uuid::nil(), &vec![tx]);
    assert!(matches!(failed, Err(TolstoyError::DuplicateMetadata(_))));
    assert!(remote.transaction_header(&id(0xc)).is_none());
    assert_eq!(remote.head().unwrap(), Uuid::nil());
}

#[test]
fn store_hands_out_local_transactions_since_a_named_one() {
    let mut store = MemoryStore::new();
    store.add_local_transaction(local(Some(id(1)), vec![]));
    store.add_local_transaction(local(None, vec![(5, instant(1))]));
    store.add_local_transaction(local(Some(id(3)), vec![]));
    let all = store.local_transactions_since(&id(9));
    assert_eq!(all.iter().map(|tx| tx.uuid).collect::<Vec<_>>(), vec![Some(id(1)), None, Some(id(3))]);
    let later = store.local_transactions_since(&id(1));
    assert_eq!(later.iter().map(|tx| tx.uuid).collect::<Vec<_>>(), vec![None, Some(id(3))]);
    assert!(later[0].parts[0].part.same_as(&instant(1)));
    assert_eq!(later[0].parts[0].chunk, id(5));
    assert!(store.local_transactions_since(&id(3)).is_empty());
}

#[test]
fn sql_failure_without_cause_has_empty_cause() {
    assert!(matches!(
        TolstoyError::from_sql_failure("locked".to_string(), Some("busy".to_string())),
        TolstoyError::RusqliteError(m, c) if m == "locked" && c == "busy"
    ));
    assert!(matches!(
        TolstoyError::from_sql_failure("locked".to_string(), None),
        TolstoyError::RusqliteError(m, c) if m == "locked" && c.is_empty()
    ));
}

#[test]
fn answer_of_the_store_decides_how_the_pass_goes_on() {
    assert!(applied_or_unfinished(Ok(true)).is_ok());
    assert!(matches!(applied_or_unfinished(Ok(false)), Err(TolstoyError::TxProcessorUnfinished)));
    assert!(matches!(
        applied_or_unfinished(Err(TolstoyError::DbError("full".to_string()))),
        Err(TolstoyError::DbError(m)) if m == "full"
    ));
}

#[test]
fn push_fails_exactly_where_the_log_forbids_it() {
    // A header that does not follow the last transaction of the log.
    let mut remote = remote_with_a_and_b();
    let forked = local(Some(id(0xc)), vec![(0xc1, instant(3000))]);
    assert!(matches!(
        push_transactions(&mut remote, &id(0xa), &vec![forked]),
        Err(TolstoyError::BadRemoteState(_))
    ));
    // The same transaction as the child of the last one is pushed.
    let follows = local(Some(id(0xc)), vec![(0xc1, instant(3000))]);
    assert_eq!(push_transactions(&mut remote, &id(0xb), &vec![follows]).unwrap(), vec![id(0xc)]);
    // Nothing to push is no failure.
    assert!(push_transactions(&mut remote, &id(0xc), &vec![]).unwrap().is_empty());
}

#[test]
fn allocator_that_runs_out_fails_the_pass() {
    let mut remote = remote_with_a_and_b();
    let mut store = MemoryStore::new();
    // A has three temporary identifiers; two are left.
    let mut ids = SequentialAllocator::starting_at(i64::MAX - 2);
    let failed = sync(&mut remote, &mut store, &mut ids);
    assert!(matches!(failed, Err(TolstoyError::DbError(_))));
    assert_eq!(store.current_local_head(), Uuid::nil());
    assert_eq!(store.applied_len(), 0);
}

#[test]
fn heads_are_set_only_to_what_was_pulled_or_pushed() {
    let mut remote = remote_with_a_and_b();
    let writes_before = remote.heads_written().clone();
    let mut store = MemoryStore::new();
    store.add_local_transaction(local(Some(id(0xc)), vec![(0xc1, instant(3000))]));
    store.add_local_transaction(local(Some(id(0xd)), vec![(0xd1, instant(4000))]));
    let mut ids = SequentialAllocator::starting_at(1);
    assert!(store.moves().is_empty());

    let report = sync(&mut remote, &mut store, &mut ids).unwrap();
    assert_eq!(store.moves(), &report.pulled);
    assert_eq!(store.moves(), &vec![id(0xa), id(0xb)]);
    assert_eq!(remote.heads_written()[writes_before.len()..], report.pushed[..]);
    assert_eq!(report.pushed, vec![id(0xc), id(0xd)]);
}

#[test]
fn shared_chunk_is_written_once_in_one_push() {
    let k = 0x5;
    let shared = fact(Identifier::Stable(1), 100, TypedValue::Long(1));
    let parts = vec![
        LocalPart { chunk: id(k), part: shared.clone() },
        LocalPart { chunk: id(0xc1), part: instant(3000) },
        LocalPart { chunk: id(k), part: shared.clone() },
    ];
    let mut remote = MemoryLog::new();
    push_transaction(&mut remote, &id(0xc), &Uuid::nil(), &parts).unwrap();
    assert_eq!(remote.chunks_written(), &vec![id(k), id(0xc1)]);
    assert_eq!(remote.heads_written(), &vec![id(0xc)]);
    assert_eq!(remote.transaction_header(&id(0xc)).unwrap().chunks, vec![id(k), id(0xc1), id(k)]);
}

#[test]
fn failed_chunk_write_records_no_header_and_writes_no_head() {
    let mut remote = MemoryLog::new();
    remote.put_chunk(&id(0xc2), &instant(1)).unwrap();
    let parts = vec![
        LocalPart { chunk: id(0xc1), part: instant(3000) },
        LocalPart { chunk: id(0xc2), part: instant(2) },
        LocalPart { chunk: id(0xc3), part: instant(3) },
    ];
    let failed = push_transaction(&mut remote, &id(0xc), &Uuid::nil(), &parts);
    assert!(matches!(failed, Err(TolstoyError::DuplicateMetadata(_))));
    assert!(remote.transaction_header(&id(0xc)).is_none());
    assert!(remote.transaction_ids_after(&Uuid::nil()).unwrap().is_empty());
    assert!(remote.heads_written().is_empty());
    assert_eq!(remote.head().unwrap(), Uuid::nil());
    // The chunks before the failure are stored, the one after it is not.
    assert_eq!(remote.chunks_written(), &vec![id(0xc2), id(0xc1)]);
    assert!(remote.chunk(&id(0xc3)).is_none());
}
