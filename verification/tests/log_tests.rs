//! The log held in memory, one operation at a time.

use tolstoy::errors::TolstoyError;
use tolstoy::facts::{Identifier, TxPart, TypedValue, DB_TX_INSTANT};
use tolstoy::ids::Uuid;
use tolstoy::log::GlobalTransactionLog;
use tolstoy::memory_log::{clone_uuids, same_uuids, MemoryLog};

fn id(n: u128) -> Uuid {
    Uuid::from_u128(n)
}

fn instant(at: i64) -> TxPart {
    TxPart {
        e: Identifier::Temp(0),
        a: DB_TX_INSTANT,
        v: TypedValue::Instant(at),
        added: true,
    }
}

fn name_of(entity: i64, name: &str) -> TxPart {
    TxPart {
        e: Identifier::Temp(entity),
        a: 100,
        v: TypedValue::String(name.to_string()),
        added: true,
    }
}

/// A log with the transactions 1 (chunks 11, 12) and 2 (chunk 21).
fn two_transactions() -> MemoryLog {
    let mut log = MemoryLog::new();
    log.put_chunk(&id(11), &instant(1000)).unwrap();
    log.put_chunk(&id(12), &name_of(1, "Ada")).unwrap();
    log.put_transaction(&id(1), &Uuid::nil(), &vec![id(11), id(12)]).unwrap();
    log.put_chunk(&id(21), &instant(2000)).unwrap();
    log.put_transaction(&id(2), &id(1), &vec![id(21)]).unwrap();
    log
}

#[test]
fn new_log_is_empty_with_nil_head() {
    let log = MemoryLog::new();
    assert_eq!(log.head().unwrap(), Uuid::nil());
    assert!(log.transactions_after(&Uuid::nil()).unwrap().is_empty());
    assert!(log.transaction_ids_after(&Uuid::nil()).unwrap().is_empty());
    assert!(log.chunk(&id(1)).is_none());
    assert!(log.transaction_header(&id(1)).is_none());
}

#[test]
fn same_chunk_twice_succeeds_and_reads_the_same() {
    let mut log = MemoryLog::new();
    let part = name_of(1, "Ada");
    assert!(log.put_chunk(&id(7), &part).is_ok());
    let first = log.chunk(&id(7)).expect("stored");
    assert!(log.put_chunk(&id(7), &part).is_ok());
    let second = log.chunk(&id(7)).expect("stored");
    assert!(first.same_as(&part));
    assert!(second.same_as(&first));
}

#[test]
fn other_content_under_a_stored_chunk_is_rejected() {
    let mut log = MemoryLog::new();
    log.put_chunk(&id(7), &name_of(1, "Ada")).unwrap();
    let rejected = log.put_chunk(&id(7), &name_of(1, "Eve"));
    assert!(matches!(rejected, Err(TolstoyError::DuplicateMetadata(_))));
    assert!(log.chunk(&id(7)).unwrap().same_as(&name_of(1, "Ada")));
}

#[test]
fn transactions_after_follow_their_parents() {
    let log = two_transactions();
    let all = log.transactions_after(&Uuid::nil()).unwrap();
    assert_eq!(all.len(), 2);
    assert_eq!(all[0].tx, id(1));
    assert_eq!(all[0].parent, Uuid::nil());
    assert_eq!(all[1].tx, id(2));
    assert_eq!(all[1].parent, all[0].tx);
    assert_eq!(all[0].parts.len(), 2);
    assert!(all[0].parts[0].same_as(&instant(1000)));
    assert!(all[0].parts[1].same_as(&name_of(1, "Ada")));
    assert!(all[1].parts[0].same_as(&instant(2000)));

    let later = log.transactions_after(&id(1)).unwrap();
    assert_eq!(later.len(), 1);
    assert_eq!(later[0].tx, id(2));
    assert_eq!(later[0].parent, id(1));

    assert!(log.transactions_after(&id(2)).unwrap().is_empty());
    assert_eq!(log.transaction_ids_after(&Uuid::nil()).unwrap(), vec![id(1), id(2)]);
    assert_eq!(log.transaction_ids_after(&id(1)).unwrap(), vec![id(2)]);
}

#[test]
fn header_reads_back_what_was_put() {
    let log = two_transactions();
    let first = log.transaction_header(&id(1)).expect("recorded");
    assert_eq!(first.id, id(1));
    assert_eq!(first.parent, Uuid::nil());
    assert_eq!(first.chunks, vec![id(11), id(12)]);
    assert_eq!(first.seq, 1);
    let second = log.transaction_header(&id(2)).expect("recorded");
    assert_eq!(second.parent, id(1));
    assert_eq!(second.chunks, vec![id(21)]);
    assert_eq!(second.seq, 2);
    assert!(second.seq > first.seq);
}

#[test]
fn writes_are_kept_in_order() {
    let mut log = two_transactions();
    assert_eq!(log.chunks_written(), &vec![id(11), id(12), id(21)]);
    assert!(log.heads_written().is_empty());
    log.set_head(&id(2)).unwrap();
    log.set_head(&id(1)).unwrap();
    assert_eq!(log.heads_written(), &vec![id(2), id(1)]);
    // A write that is refused is no write; one that repeats a stored chunk is.
    assert!(log.put_chunk(&id(11), &name_of(9, "x")).is_err());
    assert!(log.put_chunk(&id(11), &instant(1000)).is_ok());
    assert_eq!(log.chunks_written(), &vec![id(11), id(12), id(21), id(11)]);
}

#[test]
fn putting_a_known_header_again_changes_nothing() {
    let mut log = two_transactions();
    assert!(log.put_transaction(&id(1), &Uuid::nil(), &vec![id(11), id(12)]).is_ok());
    assert!(log.put_transaction(&id(2), &id(1), &vec![id(21)]).is_ok());
    assert_eq!(log.transaction_ids_after(&Uuid::nil()).unwrap(), vec![id(1), id(2)]);
}

#[test]
fn header_that_does_not_continue_the_chain_is_rejected() {
    let mut log = two_transactions();
    log.put_chunk(&id(31), &instant(3000)).unwrap();
    // A known transaction with other content.
    assert!(matches!(
        log.put_transaction(&id(1), &Uuid::nil(), &vec![id(11)]),
        Err(TolstoyError::BadRemoteState(_))
    ));
    assert!(matches!(
        log.put_transaction(&id(2), &Uuid::nil(), &vec![id(21)]),
        Err(TolstoyError::BadRemoteState(_))
    ));
    // A new transaction that follows another than the last.
    assert!(matches!(
        log.put_transaction(&id(3), &id(1), &vec![id(31)]),
        Err(TolstoyError::BadRemoteState(_))
    ));
    // The nil identifier names no transaction.
    assert!(matches!(
        log.put_transaction(&Uuid::nil(), &id(2), &vec![id(31)]),
        Err(TolstoyError::BadRemoteState(_))
    ));
    assert_eq!(log.transaction_ids_after(&Uuid::nil()).unwrap(), vec![id(1), id(2)]);
    assert!(log.put_transaction(&id(3), &id(2), &vec![id(31)]).is_ok());
    assert_eq!(log.transaction_header(&id(3)).unwrap().seq, 3);
}

#[test]
fn head_is_overwritten_unconditionally() {
    let mut log = two_transactions();
    assert_eq!(log.head().unwrap(), Uuid::nil());
    log.set_head(&id(2)).unwrap();
    assert_eq!(log.head().unwrap(), id(2));
    log.set_head(&id(1)).unwrap();
    assert_eq!(log.head().unwrap(), id(1));
    log.set_head(&id(99)).unwrap();
    assert_eq!(log.head().unwrap(), id(99));
}

#[test]
fn unknown_head_as_watermark_is_bad_remote_state() {
    let mut log = two_transactions();
    log.set_head(&id(99)).unwrap();
    let head = log.head().unwrap();
    assert!(matches!(log.transactions_after(&head), Err(TolstoyError::BadRemoteState(_))));
    assert!(matches!(log.transaction_ids_after(&head), Err(TolstoyError::BadRemoteState(_))));
}

#[test]
fn transaction_without_chunks_has_no_parts() {
    let mut log = MemoryLog::new();
    log.put_transaction(&id(1), &Uuid::nil(), &vec![]).unwrap();
    let all = log.transactions_after(&Uuid::nil()).unwrap();
    assert_eq!(all.len(), 1);
    assert!(all[0].parts.is_empty());
}

#[test]
fn transactions_may_share_a_chunk() {
    let mut log = MemoryLog::new();
    log.put_chunk(&id(11), &instant(1000)).unwrap();
    log.put_transaction(&id(1), &Uuid::nil(), &vec![id(11), id(11)]).unwrap();
    log.put_transaction(&id(2), &id(1), &vec![id(11)]).unwrap();
    let all = log.transactions_after(&Uuid::nil()).unwrap();
    assert_eq!(all[0].parts.len(), 2);
    assert!(all[0].parts[1].same_as(&all[1].parts[0]));
}

#[test]
fn lists_of_identifiers_compare_and_copy() {
    let a = vec![id(1), id(2)];
    assert!(same_uuids(&a, &clone_uuids(&a)));
    assert!(!same_uuids(&a, &vec![id(1)]));
    assert!(!same_uuids(&a, &vec![id(1), id(3)]));
    assert!(same_uuids(&vec![], &vec![]));
}

#[test]
fn facts_compare_by_content() {
    assert!(name_of(1, "Ada").same_as(&name_of(1, "Ada")));
    assert!(!name_of(1, "Ada").same_as(&name_of(2, "Ada")));
    assert!(!name_of(1, "Ada").same_as(&name_of(1, "Eve")));
    assert!(!instant(1).same_as(&name_of(0, "x")));
    assert!(instant(1).is_tx_instant());
    assert!(!name_of(1, "Ada").is_tx_instant());
    let retracted = TxPart { added: false, ..instant(1) };
    assert!(!retracted.is_tx_instant());
    let values = [
        TypedValue::Ref(Identifier::Stable(1)),
        TypedValue::Boolean(true),
        TypedValue::Long(1),
        TypedValue::Instant(1),
        TypedValue::Double(1),
        TypedValue::String("1".to_string()),
        TypedValue::Keyword("1".to_string()),
        TypedValue::Uuid(id(1)),
    ];
    for (i, a) in values.iter().enumerate() {
        for (j, b) in values.iter().enumerate() {
            assert_eq!(a.same_as(b), i == j);
        }
        assert!(a.clone().same_as(a));
    }
}
